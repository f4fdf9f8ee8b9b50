use vstd::prelude::*;

use crate::memory::{contains_string, MemoryQuery, MemoryRecord, MemoryRecordView};
use crate::text::{
    ascii_lower, chars_of, char_vecs_view, join, join_strings, lower_chars, push_char, push_str,
    split_whitespace_chars, split_ws, string_from_chars, strings_view, trim, trim_chars,
    chars_lt, decimal, starts_with, str_eq, str_lt, sub_chars, u64_to_string, chars_starts_with,
    lemma_chars_lt_irreflexive, lemma_chars_lt_total, lemma_chars_lt_transitive,
};

verus! {

broadcast use vstd::string::group_string_axioms;

#[verifier::external_type_specification]
#[verifier::external_body]
pub struct ExJieba(jieba_rs::Jieba);

/// The pieces into which `jieba_rs` cuts a text with its built-in dictionary
/// and without the HMM step.
pub uninterp spec fn jieba_pieces(text: Seq<char>) -> Seq<Seq<char>>;

/// `jieba_rs::Jieba::new`: a segmenter holding the dictionary built into the crate.
#[verifier::external_body]
fn default_jieba() -> jieba_rs::Jieba {
    jieba_rs::Jieba::new()
}

/// `jieba_rs::Jieba::cut` with `hmm` off, each token taken by its `word`.
/// Every segmenter of this library is made by `Jieba::new` and never changed
/// (its field is private), so the pieces depend on the text alone; the
/// contract claims only that they are `jieba_pieces` of the text.
#[verifier::external_body]
fn jieba_cut(jieba: &jieba_rs::Jieba, text: &str) -> (out: Vec<String>)
    ensures
        strings_view(out@) == jieba_pieces(text@),
{
    jieba.cut(text, false).into_iter().map(|token| token.word.to_string()).collect()
}

/// The word segmenter used to index and search memories.
pub struct TermSegmenter {
    jieba: jieba_rs::Jieba,
}

impl TermSegmenter {
    pub fn new() -> (out: TermSegmenter) {
        TermSegmenter { jieba: default_jieba() }
    }
}

/// Characters read as word breaks before segmenting.
pub open spec fn is_term_separator(c: char) -> bool {
    ||| c == '/' || c == '\\' || c == '.' || c == '_' || c == '-' || c == ':'
    ||| c == ',' || c == '(' || c == ')' || c == '[' || c == ']' || c == '\n'
}

/// The text with every separator turned into a space.
pub open spec fn prepare_terms(s: Seq<char>) -> Seq<char> {
    s.map_values(|c: char| if is_term_separator(c) { ' ' } else { c })
}

/// `char::is_ascii_punctuation`.
pub open spec fn is_ascii_punct(c: char) -> bool {
    let v = c as u32;
    (0x21 <= v <= 0x2F) || (0x3A <= v <= 0x40) || (0x5B <= v <= 0x60) || (0x7B <= v <= 0x7E)
}

/// A word kept as a search term: not empty and not made of punctuation alone.
pub open spec fn is_term(w: Seq<char>) -> bool {
    w.len() > 0 && !(forall|i: int| 0 <= i < w.len() ==> is_ascii_punct(#[trigger] w[i]))
}

/// The terms of a list of words: each lowercased, those that are terms.
pub open spec fn word_terms(words: Seq<Seq<char>>) -> Seq<Seq<char>>
    decreases words.len(),
{
    if words.len() == 0 {
        Seq::empty()
    } else {
        let prev = word_terms(words.drop_last());
        let l = ascii_lower(trim(words.last()));
        if is_term(l) {
            prev.push(l)
        } else {
            prev
        }
    }
}

/// The terms of the segmenter's pieces, in order: each piece split at whitespace.
pub open spec fn piece_terms(pieces: Seq<Seq<char>>) -> Seq<Seq<char>>
    decreases pieces.len(),
{
    if pieces.len() == 0 {
        Seq::empty()
    } else {
        piece_terms(pieces.drop_last()) + word_terms(split_ws(pieces.last()))
    }
}

/// The items of `s` in order of first appearance, each once.
pub open spec fn distinct_in_order(s: Seq<Seq<char>>) -> Seq<Seq<char>>
    decreases s.len(),
{
    if s.len() == 0 {
        Seq::empty()
    } else {
        let prev = distinct_in_order(s.drop_last());
        if prev.contains(s.last()) {
            prev
        } else {
            prev.push(s.last())
        }
    }
}

/// The search terms of a text.
pub open spec fn terms_of(raw: Seq<char>) -> Seq<Seq<char>> {
    distinct_in_order(piece_terms(jieba_pieces(prepare_terms(raw))))
}

fn char_is_ascii_punct(c: char) -> (out: bool)
    ensures
        out == is_ascii_punct(c),
{
    let v = c as u32;
    (0x21 <= v && v <= 0x2F) || (0x3A <= v && v <= 0x40) || (0x5B <= v && v <= 0x60) || (0x7B <= v
        && v <= 0x7E)
}

fn chars_are_term(w: &[char]) -> (out: bool)
    ensures
        out == is_term(w@),
{
    let mut i: usize = 0;
    while i < w.len()
        invariant
            i <= w.len(),
            forall|k: int| 0 <= k < i ==> is_ascii_punct(#[trigger] w@[k]),
        decreases w.len() - i,
    {
        if !char_is_ascii_punct(w[i]) {
            return true;
        }
        i += 1;
    }
    false
}

fn prepare_chars(s: &[char]) -> (out: Vec<char>)
    ensures
        out@ == prepare_terms(s@),
{
    let mut out: Vec<char> = Vec::new();
    let mut i: usize = 0;
    while i < s.len()
        invariant
            i <= s.len(),
            out@ == prepare_terms(s@.take(i as int)),
        decreases s.len() - i,
    {
        let c = s[i];
        let d = if c == '/' || c == '\\' || c == '.' || c == '_' || c == '-' || c == ':' || c == ','
            || c == '(' || c == ')' || c == '[' || c == ']' || c == '\n' {
            ' '
        } else {
            c
        };
        out.push(d);
        assert(out@ =~= prepare_terms(s@.take(i + 1)));
        i += 1;
    }
    assert(s@.take(s.len() as int) =~= s@);
    out
}

/// The search terms of a text: segmented, split at whitespace, lowercased,
/// punctuation dropped, each term once in order of first appearance.
pub fn tokenize_terms(segmenter: &TermSegmenter, raw: &str) -> (out: Vec<String>)
    ensures
        strings_view(out@) == terms_of(raw@),
{
    let chars = chars_of(raw);
    let prepared_chars = prepare_chars(chars.as_slice());
    let prepared = string_from_chars(prepared_chars.as_slice());
    let pieces = jieba_cut(&segmenter.jieba, prepared.as_str());
    let ghost ps = strings_view(pieces@);
    let mut out: Vec<String> = Vec::new();
    let ghost mut acc: Seq<Seq<char>> = Seq::empty();
    let mut i: usize = 0;
    while i < pieces.len()
        invariant
            i <= pieces.len(),
            ps == strings_view(pieces@),
            acc == piece_terms(ps.take(i as int)),
            strings_view(out@) == distinct_in_order(acc),
        decreases pieces.len() - i,
    {
        let piece_chars = chars_of(pieces[i].as_str());
        let words = split_whitespace_chars(piece_chars.as_slice());
        let ghost ws = char_vecs_view(words@);
        let ghost base = acc;
        let mut j: usize = 0;
        while j < words.len()
            invariant
                j <= words.len(),
                ws == char_vecs_view(words@),
                acc == base + word_terms(ws.take(j as int)),
                strings_view(out@) == distinct_in_order(acc),
            decreases words.len() - j,
        {
            assert(ws.take(j + 1).drop_last() =~= ws.take(j as int));
            assert(ws.take(j + 1).last() == words@[j as int]@);
            let t = trim_chars(words[j].as_slice());
            let lowered = lower_chars(t.as_slice());
            if chars_are_term(lowered.as_slice()) {
                let ghost prev_acc = acc;
                proof {
                    acc = acc.push(lowered@);
                    assert(acc.drop_last() =~= prev_acc);
                    assert(acc =~= base + word_terms(ws.take(j + 1)));
                }
                let term = string_from_chars(lowered.as_slice());
                if !contains_string(&out, term.as_str()) {
                    let ghost before = out@;
                    out.push(term);
                    assert(strings_view(out@) =~= strings_view(before).push(lowered@));
                }
            } else {
                assert(word_terms(ws.take(j + 1)) == word_terms(ws.take(j as int)));
            }
            j += 1;
        }
        assert(ws.take(words.len() as int) =~= ws);
        assert(ps.take(i + 1).drop_last() =~= ps.take(i as int));
        assert(ps.take(i + 1).last() == pieces@[i as int]@);
        i += 1;
    }
    assert(ps.take(pieces.len() as int) =~= ps);
    out
}

/// The search terms of a text, joined by single spaces.
pub fn tokenize_text(segmenter: &TermSegmenter, raw: &str) -> (out: String)
    ensures
        out@ == join(terms_of(raw@), " "@),
{
    let terms = tokenize_terms(segmenter, raw);
    join_strings(&terms, " ")
}


/// The terms of several texts, one after another.
pub open spec fn all_terms(texts: Seq<Seq<char>>) -> Seq<Seq<char>>
    decreases texts.len(),
{
    if texts.len() == 0 {
        Seq::empty()
    } else {
        all_terms(texts.drop_last()) + terms_of(texts.last())
    }
}

/// Appends to `out` the items not yet in it, in order.
fn push_distinct(out: &mut Vec<String>, items: &Vec<String>, Ghost(acc): Ghost<Seq<Seq<char>>>)
    requires
        strings_view(old(out)@) == distinct_in_order(acc),
    ensures
        strings_view(final(out)@) == distinct_in_order(acc + strings_view(items@)),
{
    let ghost iv = strings_view(items@);
    let mut k: usize = 0;
    assert(acc + iv.take(0) =~= acc);
    while k < items.len()
        invariant
            k <= items.len(),
            iv == strings_view(items@),
            strings_view(out@) == distinct_in_order(acc + iv.take(k as int)),
        decreases items.len() - k,
    {
        assert((acc + iv.take(k + 1)).drop_last() =~= acc + iv.take(k as int));
        assert((acc + iv.take(k + 1)).last() == items@[k as int]@);
        if !contains_string(out, items[k].as_str()) {
            let ghost before = out@;
            out.push(items[k].clone());
            assert(strings_view(out@) =~= strings_view(before).push(items@[k as int]@));
        }
        k += 1;
    }
    assert(iv.take(items.len() as int) =~= iv);
}

/// The distinct terms of several texts, in order of first appearance.
pub fn terms_of_all(segmenter: &TermSegmenter, texts: &Vec<String>) -> (out: Vec<String>)
    ensures
        strings_view(out@) == distinct_in_order(all_terms(strings_view(texts@))),
{
    let ghost tv = strings_view(texts@);
    let mut out: Vec<String> = Vec::new();
    let mut i: usize = 0;
    while i < texts.len()
        invariant
            i <= texts.len(),
            tv == strings_view(texts@),
            strings_view(out@) == distinct_in_order(all_terms(tv.take(i as int))),
        decreases texts.len() - i,
    {
        assert(tv.take(i + 1).drop_last() =~= tv.take(i as int));
        assert(tv.take(i + 1).last() == texts@[i as int]@);
        let terms = tokenize_terms(segmenter, texts[i].as_str());
        push_distinct(&mut out, &terms, Ghost(all_terms(tv.take(i as int))));
        i += 1;
    }
    assert(tv.take(texts.len() as int) =~= tv);
    out
}

/// The distinct terms of the open files' paths.
pub fn collect_open_path_segments(segmenter: &TermSegmenter, paths: &Vec<String>) -> (out: Vec<String>)
    ensures
        strings_view(out@) == distinct_in_order(all_terms(strings_view(paths@))),
{
    terms_of_all(segmenter, paths)
}

/// Each text followed by a space, concatenated.
pub open spec fn spaced(texts: Seq<Seq<char>>) -> Seq<char>
    decreases texts.len(),
{
    if texts.len() == 0 {
        Seq::empty()
    } else {
        spaced(texts.drop_last()) + texts.last() + " "@
    }
}

/// An optional text followed by a space, or nothing.
pub open spec fn spaced_opt(text: Option<String>) -> Seq<char> {
    match text {
        Some(t) => t@ + " "@,
        None => Seq::empty(),
    }
}

/// The text a memory query is made of: the task name, the latest user
/// message, the open files' paths and the recent assistant messages.
pub open spec fn query_text(query: MemoryQuery) -> Seq<char> {
    spaced_opt(query.task_name) + spaced_opt(query.latest_user_message) + spaced(
        strings_view(query.open_file_paths@),
    ) + spaced(strings_view(query.recent_assistant_messages@))
}

fn push_spaced(out: &mut String, texts: &Vec<String>)
    ensures
        final(out)@ == old(out)@ + spaced(strings_view(texts@)),
{
    let ghost start = out@;
    let ghost tv = strings_view(texts@);
    let mut i: usize = 0;
    while i < texts.len()
        invariant
            i <= texts.len(),
            tv == strings_view(texts@),
            out@ == start + spaced(tv.take(i as int)),
        decreases texts.len() - i,
    {
        assert(tv.take(i + 1).drop_last() =~= tv.take(i as int));
        assert(tv.take(i + 1).last() == texts@[i as int]@);
        push_str(out, texts[i].as_str());
        push_char(out, ' ');
        proof {
            reveal_strlit(" ");
        }
        assert(out@ =~= start + spaced(tv.take(i + 1)));
        i += 1;
    }
    assert(tv.take(texts.len() as int) =~= tv);
}

/// The search terms of a memory query.
pub fn query_tokens(segmenter: &TermSegmenter, query: &MemoryQuery) -> (out: Vec<String>)
    ensures
        strings_view(out@) == terms_of(query_text(*query)),
{
    proof {
        reveal_strlit(" ");
    }
    let mut combined = String::new();
    match &query.task_name {
        Some(t) => {
            push_str(&mut combined, t.as_str());
            push_char(&mut combined, ' ');
        },
        None => {},
    }
    match &query.latest_user_message {
        Some(t) => {
            push_str(&mut combined, t.as_str());
            push_char(&mut combined, ' ');
        },
        None => {},
    }
    push_spaced(&mut combined, &query.open_file_paths);
    push_spaced(&mut combined, &query.recent_assistant_messages);
    assert(combined@ =~= query_text(*query));
    tokenize_terms(segmenter, combined.as_str())
}


impl MemoryRecord {
    /// The distinct terms of the memory's tags.
    pub fn normalized_tags(&self, segmenter: &TermSegmenter) -> (out: Vec<String>)
        ensures
            strings_view(out@) == distinct_in_order(all_terms(strings_view(self.tags@))),
    {
        terms_of_all(segmenter, &self.tags)
    }
}

/// The first record with the given id.
pub open spec fn record_with_id(records: Seq<MemoryRecord>, id: Seq<char>) -> Option<MemoryRecordView>
    decreases records.len(),
{
    if records.len() == 0 {
        None
    } else if records[0].id@ == id {
        Some(records[0]@)
    } else {
        record_with_id(records.drop_first(), id)
    }
}

/// The topic of the memory a prefixed id (`p:..` or `g:..`) names, if any.
pub open spec fn id_topic(id: Seq<char>, project: Seq<MemoryRecord>, global: Seq<MemoryRecord>) -> Option<Seq<char>> {
    let found = if starts_with(id, "p:"@) {
        record_with_id(project, id.skip(2))
    } else if starts_with(id, "g:"@) {
        record_with_id(global, id.skip(2))
    } else {
        None
    };
    match found {
        Some(r) => Some(r.topic),
        None => None,
    }
}

/// The topics of the memories the ids name, in order.
pub open spec fn matched_topics(ids: Seq<Seq<char>>, project: Seq<MemoryRecord>, global: Seq<MemoryRecord>) -> Seq<Seq<char>>
    decreases ids.len(),
{
    if ids.len() == 0 {
        Seq::empty()
    } else {
        let prev = matched_topics(ids.drop_last(), project, global);
        match id_topic(ids.last(), project, global) {
            Some(t) => prev.push(t),
            None => prev,
        }
    }
}

/// How many times `t` occurs in `s`.
pub open spec fn count_of(s: Seq<Seq<char>>, t: Seq<char>) -> nat
    decreases s.len(),
{
    if s.len() == 0 {
        0
    } else {
        count_of(s.drop_last(), t) + if s.last() == t {
            1nat
        } else {
            0nat
        }
    }
}

/// The warning about a topic with many matched memories.
pub open spec fn topic_warning(topic: Seq<char>, count: nat) -> Seq<char> {
    "Topic \""@ + topic + "\" currently has "@ + decimal(count)
        + " matched memories; consider merging them into a tighter summary."@
}

/// `out` warns, in order of topic, about every topic matched more than five times.
pub open spec fn crowded_topic_warnings(out: Seq<Seq<char>>, topics: Seq<Seq<char>>) -> bool {
    exists|ts: Seq<Seq<char>>|
        #![trigger ts.len()]
        ts.len() == out.len() && (forall|i: int, j: int|
            0 <= i < j < ts.len() ==> chars_lt(#[trigger] ts[i], #[trigger] ts[j])) && (forall|i: int|
            0 <= i < ts.len() ==> count_of(topics, #[trigger] ts[i]) > 5 && out[i] == topic_warning(
                ts[i],
                count_of(topics, ts[i]),
            )) && (forall|t: Seq<char>| count_of(topics, t) > 5 ==> #[trigger] ts.contains(t))
}

fn record_topic_with_id(records: &Vec<MemoryRecord>, id: &str) -> (out: Option<String>)
    ensures
        opt_topic(out) == match record_with_id(records@, id@) {
            Some(r) => Some(r.topic),
            None => None,
        },
{
    let mut i: usize = 0;
    assert(records@.skip(0) =~= records@);
    while i < records.len()
        invariant
            i <= records.len(),
            record_with_id(records@.skip(i as int), id@) == record_with_id(records@, id@),
        decreases records.len() - i,
    {
        assert(records@.skip(i as int)[0] == records@[i as int]);
        assert(records@.skip(i as int).drop_first() =~= records@.skip(i + 1));
        if str_eq(records[i].id.as_str(), id) {
            return Some(records[i].topic.clone());
        }
        i += 1;
    }
    None
}

/// The plain value of an optional string.
pub open spec fn opt_topic(s: Option<String>) -> Option<Seq<char>> {
    match s {
        Some(v) => Some(v@),
        None => None,
    }
}

fn topic_of_id(id: &str, project: &Vec<MemoryRecord>, global: &Vec<MemoryRecord>) -> (out: Option<String>)
    ensures
        opt_topic(out) == id_topic(id@, project@, global@),
{
    let chars = chars_of(id);
    let p = chars_of("p:");
    let g = chars_of("g:");
    proof {
        reveal_strlit("p:");
        reveal_strlit("g:");
    }
    if chars_starts_with(chars.as_slice(), p.as_slice()) {
        let rest = sub_chars(chars.as_slice(), 2, chars.len());
        assert(rest@ =~= id@.skip(2));
        let raw = string_from_chars(rest.as_slice());
        record_topic_with_id(project, raw.as_str())
    } else if chars_starts_with(chars.as_slice(), g.as_slice()) {
        let rest = sub_chars(chars.as_slice(), 2, chars.len());
        assert(rest@ =~= id@.skip(2));
        let raw = string_from_chars(rest.as_slice());
        record_topic_with_id(global, raw.as_str())
    } else {
        None
    }
}

fn count_in(topics: &Vec<String>, t: &str) -> (out: usize)
    ensures
        out as nat == count_of(strings_view(topics@), t@),
{
    let ghost tv = strings_view(topics@);
    let mut n: usize = 0;
    let mut i: usize = 0;
    while i < topics.len()
        invariant
            i <= topics.len(),
            tv == strings_view(topics@),
            n as nat == count_of(tv.take(i as int), t@),
            n <= i,
        decreases topics.len() - i,
    {
        assert(tv.take(i + 1).drop_last() =~= tv.take(i as int));
        assert(tv.take(i + 1).last() == topics@[i as int]@);
        if str_eq(topics[i].as_str(), t) {
            n += 1;
        }
        i += 1;
    }
    assert(tv.take(topics.len() as int) =~= tv);
    n
}

proof fn lemma_count_positive_contains(s: Seq<Seq<char>>, t: Seq<char>)
    requires
        count_of(s, t) > 0,
    ensures
        s.contains(t),
    decreases s.len(),
{
    if s.last() == t {
        assert(s[s.len() - 1] == t);
    } else {
        lemma_count_positive_contains(s.drop_last(), t);
        let k = choose|k: int| 0 <= k < s.drop_last().len() && s.drop_last()[k] == t;
        assert(s[k] == t);
    }
}

proof fn lemma_distinct_in_order(s: Seq<Seq<char>>)
    ensures
        forall|t: Seq<char>| s.contains(t) ==> #[trigger] distinct_in_order(s).contains(t),
        forall|t: Seq<char>| distinct_in_order(s).contains(t) ==> #[trigger] s.contains(t),
        forall|i: int, j: int|
            0 <= i < j < distinct_in_order(s).len() ==> #[trigger] distinct_in_order(s)[i]
                != #[trigger] distinct_in_order(s)[j],
    decreases s.len(),
{
    if s.len() > 0 {
        let p = s.drop_last();
        lemma_distinct_in_order(p);
        let d = distinct_in_order(p);
        assert forall|t: Seq<char>| s.contains(t) implies #[trigger] distinct_in_order(s).contains(t) by {
            let k = choose|k: int| 0 <= k < s.len() && s[k] == t;
            if k < s.len() - 1 {
                assert(p[k] == t);
                assert(p.contains(t));
                assert(d.contains(t));
                let m = choose|m: int| 0 <= m < d.len() && d[m] == t;
                if d.contains(s.last()) {
                    assert(distinct_in_order(s) == d);
                } else {
                    assert(distinct_in_order(s) == d.push(s.last()));
                    assert(distinct_in_order(s)[m] == t);
                }
            } else if d.contains(t) {
                assert(distinct_in_order(s) == d);
            } else {
                assert(distinct_in_order(s)[d.len() as int] == t);
            }
        }
        assert forall|t: Seq<char>| distinct_in_order(s).contains(t) implies #[trigger] s.contains(t) by {
            let m = choose|m: int| 0 <= m < distinct_in_order(s).len() && distinct_in_order(s)[m] == t;
            if m < d.len() {
                if d.contains(s.last()) {
                    assert(distinct_in_order(s) == d);
                } else {
                    assert(distinct_in_order(s) == d.push(s.last()));
                }
                assert(d[m] == t);
                assert(d.contains(t));
                assert(p.contains(t));
                let k = choose|k: int| 0 <= k < p.len() && p[k] == t;
                assert(s[k] == t);
            } else {
                assert(s[s.len() - 1] == t);
            }
        }
    }
}

proof fn lemma_matched_topics_step(ids: Seq<Seq<char>>, n: int, project: Seq<MemoryRecord>, global: Seq<MemoryRecord>)
    requires
        0 <= n < ids.len(),
    ensures
        matched_topics(ids.take(n + 1), project, global) == match id_topic(ids[n], project, global) {
            Some(t) => matched_topics(ids.take(n), project, global).push(t),
            None => matched_topics(ids.take(n), project, global),
        },
{
    assert(ids.take(n + 1).drop_last() =~= ids.take(n));
}

/// Warnings about topics that more than five of the matched memories share,
/// in order of topic. The ids are prefixed (`p:` for a project memory, `g:`
/// for a global one); ids that name no memory are skipped.
pub fn topic_warnings_for_entries(
    ids: &Vec<String>,
    project_memories: &Vec<MemoryRecord>,
    global_memories: &Vec<MemoryRecord>,
) -> (out: Vec<String>)
    ensures
        crowded_topic_warnings(
            strings_view(out@),
            matched_topics(strings_view(ids@), project_memories@, global_memories@),
        ),
{
    let ghost iv = strings_view(ids@);
    let mut topics: Vec<String> = Vec::new();
    let mut i: usize = 0;
    while i < ids.len()
        invariant
            i <= ids.len(),
            iv == strings_view(ids@),
            strings_view(topics@) == matched_topics(iv.take(i as int), project_memories@, global_memories@),
        decreases ids.len() - i,
    {
        proof {
            lemma_matched_topics_step(iv, i as int, project_memories@, global_memories@);
        }
        assert(iv[i as int] == ids@[i as int]@);
        match topic_of_id(ids[i].as_str(), project_memories, global_memories) {
            Some(t) => {
                let ghost before = topics@;
                topics.push(t);
                assert(strings_view(topics@) =~= strings_view(before).push(topics@.last()@));
            },
            None => {},
        }
        i += 1;
    }
    assert(iv.take(ids.len() as int) =~= iv);
    let ghost tv = strings_view(topics@);
    // The distinct topics, then those matched more than five times.
    let mut distinct: Vec<String> = Vec::new();
    assert(strings_view(distinct@) =~= distinct_in_order(Seq::<Seq<char>>::empty()));
    push_distinct(&mut distinct, &topics, Ghost(Seq::empty()));
    assert(Seq::<Seq<char>>::empty() + tv =~= tv);
    proof {
        lemma_distinct_in_order(tv);
    }
    let ghost dv = strings_view(distinct@);
    let mut remaining: Vec<String> = Vec::new();
    let mut k: usize = 0;
    while k < distinct.len()
        invariant
            k <= distinct.len(),
            dv == strings_view(distinct@),
            dv == distinct_in_order(tv),
            tv == strings_view(topics@),
            forall|a: int, b: int| 0 <= a < b < dv.len() ==> #[trigger] dv[a] != #[trigger] dv[b],
            forall|t: Seq<char>| tv.contains(t) ==> #[trigger] dv.contains(t),
            forall|a: int| 0 <= a < remaining@.len() ==> count_of(tv, #[trigger] remaining@[a]@) > 5,
            forall|a: int, b: int|
                0 <= a < b < remaining@.len() ==> #[trigger] remaining@[a]@ != #[trigger] remaining@[b]@,
            forall|a: int| 0 <= a < remaining@.len() ==> dv.take(k as int).contains(#[trigger] remaining@[a]@),
            forall|a: int| 0 <= a < k && count_of(tv, dv[a]) > 5 ==> strings_view(remaining@).contains(#[trigger] dv[a]),
        decreases distinct.len() - k,
    {
        let c = count_in(&topics, distinct[k].as_str());
        assert(dv[k as int] == distinct@[k as int]@);
        if c > 5 {
            let ghost before = remaining@;
            remaining.push(distinct[k].clone());
            assert forall|a: int| 0 <= a < remaining@.len() implies dv.take(k + 1).contains(#[trigger] remaining@[a]@) by {
                if a < before.len() {
                    assert(dv.take(k as int).contains(before[a]@));
                    let m = choose|m: int| 0 <= m < k && dv.take(k as int)[m] == before[a]@;
                    assert(dv.take(k + 1)[m] == before[a]@);
                } else {
                    assert(dv.take(k + 1)[k as int] == remaining@[a]@);
                }
            }
            assert forall|a: int, b: int| 0 <= a < b < remaining@.len() implies #[trigger] remaining@[a]@ != #[trigger] remaining@[b]@ by {
                if b == before.len() {
                    let m = choose|m: int| 0 <= m < k && dv.take(k as int)[m] == before[a]@;
                    assert(dv[m] == before[a]@);
                }
            }
            assert forall|a: int| 0 <= a < k + 1 && count_of(tv, dv[a]) > 5 implies strings_view(remaining@).contains(#[trigger] dv[a]) by {
                if a < k {
                    let m = choose|m: int| 0 <= m < before.len() && strings_view(before)[m] == dv[a];
                    assert(strings_view(remaining@)[m] == dv[a]);
                } else {
                    assert(strings_view(remaining@)[before.len() as int] == dv[a]);
                }
            }
        } else {
            assert forall|a: int| 0 <= a < remaining@.len() implies dv.take(k + 1).contains(#[trigger] remaining@[a]@) by {
                let m = choose|m: int| 0 <= m < k && dv.take(k as int)[m] == remaining@[a]@;
                assert(dv.take(k + 1)[m] == remaining@[a]@);
            }
        }
        k += 1;
    }
    // Every crowded topic is left to report.
    assert forall|t: Seq<char>| count_of(tv, t) > 5 implies strings_view(remaining@).contains(t) by {
        lemma_count_positive_contains(tv, t);
        assert(dv.contains(t));
        let m = choose|m: int| 0 <= m < dv.len() && dv[m] == t;
        assert(strings_view(remaining@).contains(dv[m]));
    }
    // Report them smallest first.
    let mut out: Vec<String> = Vec::new();
    let ghost mut ts: Seq<Seq<char>> = Seq::empty();
    while remaining.len() > 0
        invariant
            ts.len() == out@.len(),
            forall|a: int, b: int| 0 <= a < b < ts.len() ==> chars_lt(#[trigger] ts[a], #[trigger] ts[b]),
            forall|a: int|
                0 <= a < ts.len() ==> count_of(tv, #[trigger] ts[a]) > 5 && out@[a]@ == topic_warning(
                    ts[a],
                    count_of(tv, ts[a]),
                ),
            forall|a: int| 0 <= a < remaining@.len() ==> count_of(tv, #[trigger] remaining@[a]@) > 5,
            forall|a: int, b: int|
                0 <= a < b < remaining@.len() ==> #[trigger] remaining@[a]@ != #[trigger] remaining@[b]@,
            ts.len() > 0 ==> forall|a: int| 0 <= a < remaining@.len() ==> chars_lt(ts.last(), #[trigger] remaining@[a]@),
            forall|t: Seq<char>| count_of(tv, t) > 5 ==> #[trigger] ts.contains(t) || strings_view(remaining@).contains(t),
            tv == strings_view(topics@),
        decreases remaining.len(),
    {
        let mut m: usize = 0;
        let mut j: usize = 1;
        while j < remaining.len()
            invariant
                m < j <= remaining.len(),
                forall|a: int| 0 <= a < j && a != m ==> chars_lt(remaining@[m as int]@, #[trigger] remaining@[a]@),
                forall|a: int, b: int|
                    0 <= a < b < remaining@.len() ==> #[trigger] remaining@[a]@ != #[trigger] remaining@[b]@,
            decreases remaining.len() - j,
        {
            proof {
                lemma_chars_lt_total(remaining@[j as int]@, remaining@[m as int]@);
            }
            if str_lt(remaining[j].as_str(), remaining[m].as_str()) {
                assert forall|a: int| 0 <= a < j + 1 && a != j implies chars_lt(remaining@[j as int]@, #[trigger] remaining@[a]@) by {
                    if a != m {
                        lemma_chars_lt_transitive(remaining@[j as int]@, remaining@[m as int]@, remaining@[a]@);
                    }
                }
                m = j;
            }
            j += 1;
        }
        let ghost before = remaining@;
        let chosen = remaining.remove(m);
        let n = count_in(&topics, chosen.as_str());
        let mut warning = "Topic \"".to_owned();
        push_str(&mut warning, chosen.as_str());
        push_str(&mut warning, "\" currently has ");
        let count_text = u64_to_string(n as u64);
        push_str(&mut warning, count_text.as_str());
        push_str(&mut warning, " matched memories; consider merging them into a tighter summary.");
        assert(warning@ =~= topic_warning(chosen@, count_of(tv, chosen@)));
        out.push(warning);
        proof {
            let old_ts = ts;
            ts = ts.push(chosen@);
            assert forall|a: int, b: int| 0 <= a < b < ts.len() implies chars_lt(#[trigger] ts[a], #[trigger] ts[b]) by {
                if b == ts.len() - 1 && a < old_ts.len() {
                    if a == old_ts.len() - 1 {
                        assert(chars_lt(old_ts.last(), before[m as int]@));
                    } else {
                        assert(chars_lt(old_ts[a], old_ts.last()));
                        assert(chars_lt(old_ts.last(), before[m as int]@));
                        lemma_chars_lt_transitive(old_ts[a], old_ts.last(), before[m as int]@);
                    }
                }
            }
            assert forall|a: int| 0 <= a < ts.len() implies count_of(tv, #[trigger] ts[a]) > 5 && out@[a]@ == topic_warning(ts[a], count_of(tv, ts[a])) by {
                if a < old_ts.len() {
                    assert(ts[a] == old_ts[a]);
                }
            }
            assert forall|a: int| 0 <= a < remaining@.len() implies chars_lt(ts.last(), #[trigger] remaining@[a]@) by {
                let b = if a < m { a } else { a + 1 };
                assert(remaining@[a] == before[b]);
            }
            assert forall|a: int| 0 <= a < remaining@.len() implies count_of(tv, #[trigger] remaining@[a]@) > 5 by {
                let b = if a < m { a } else { a + 1 };
                assert(remaining@[a] == before[b]);
            }
            assert forall|a: int, b: int| 0 <= a < b < remaining@.len() implies #[trigger] remaining@[a]@ != #[trigger] remaining@[b]@ by {
                let a2 = if a < m { a } else { a + 1 };
                let b2 = if b < m { b } else { b + 1 };
                assert(remaining@[a] == before[a2] && remaining@[b] == before[b2]);
            }
            assert forall|t: Seq<char>| count_of(tv, t) > 5 implies #[trigger] ts.contains(t) || strings_view(remaining@).contains(t) by {
                if !old_ts.contains(t) {
                    assert(strings_view(before).contains(t));
                    let q = choose|q: int| 0 <= q < before.len() && strings_view(before)[q] == t;
                    if q == m {
                        assert(ts[ts.len() - 1] == t);
                    } else {
                        let r = if q < m { q } else { q - 1 };
                        assert(strings_view(remaining@)[r] == t);
                    }
                } else {
                    let q = choose|q: int| 0 <= q < old_ts.len() && old_ts[q] == t;
                    assert(ts[q] == t);
                }
            }
        }
    }
    assert(ts.len() == strings_view(out@).len());
    assert forall|a: int| 0 <= a < ts.len() implies count_of(tv, #[trigger] ts[a]) > 5 && strings_view(out@)[a] == topic_warning(ts[a], count_of(tv, ts[a])) by {}
    assert forall|t: Seq<char>| count_of(tv, t) > 5 implies #[trigger] ts.contains(t) by {
        if strings_view(remaining@).contains(t) {
            let q = choose|q: int| 0 <= q < remaining@.len() && strings_view(remaining@)[q] == t;
        }
    }
    out
}

} // verus!

verus! {

/// The search terms of a text are distinct, and they are exactly the terms
/// that occur in it.
pub proof fn lemma_search_terms_distinct(raw: Seq<char>)
    ensures
        forall|i: int, j: int| 0 <= i < j < terms_of(raw).len() ==> #[trigger] terms_of(raw)[i] != #[trigger] terms_of(raw)[j],
        forall|t: Seq<char>|
            #[trigger] terms_of(raw).contains(t) <==> piece_terms(jieba_pieces(prepare_terms(raw))).contains(t),
{
    lemma_distinct_in_order(piece_terms(jieba_pieces(prepare_terms(raw))));
}

} // verus!

verus! {

/// Above this context pressure, in percent, the memory search is skipped.
pub const LOW_CONTEXT_PRESSURE_SKIP_THRESHOLD: u8 = 95;

/// Up to this many visible memories, the search shows them all.
pub const SHOW_ALL_MEMORIES_UP_TO: usize = 50;

/// How a memory search goes.
#[derive(Debug, Clone, Copy, PartialEq, Eq, Structural)]
pub enum SearchPlan {
    /// Show nothing: the context is too full, or no memory is visible.
    Skip,
    /// Rank the visible memories and show the first `take`. `full_text`:
    /// full-text scores count; `keep_all`: memories scoring zero are shown
    /// too.
    Rank { full_text: bool, keep_all: bool, take: usize },
}

/// The plan of a search over `visible` memories at the given context
/// pressure, for at most `limit` memories, with or without query words.
pub open spec fn search_plan_of(visible: usize, pressure: Option<u8>, limit: usize, has_query_terms: bool) -> SearchPlan {
    let p = match pressure {
        Some(v) => v,
        None => 0u8,
    };
    if p > LOW_CONTEXT_PRESSURE_SKIP_THRESHOLD || visible == 0 {
        SearchPlan::Skip
    } else if visible <= SHOW_ALL_MEMORIES_UP_TO {
        SearchPlan::Rank { full_text: false, keep_all: true, take: visible }
    } else {
        SearchPlan::Rank { full_text: has_query_terms, keep_all: false, take: if limit == 0 { 1 } else { limit } }
    }
}

/// Decides how a memory search goes.
pub fn search_plan(visible: usize, pressure: Option<u8>, limit: usize, has_query_terms: bool) -> (out: SearchPlan)
    ensures
        out == search_plan_of(visible, pressure, limit, has_query_terms),
{
    let p: u8 = match pressure {
        Some(v) => v,
        None => 0,
    };
    if p > LOW_CONTEXT_PRESSURE_SKIP_THRESHOLD || visible == 0 {
        SearchPlan::Skip
    } else if visible <= SHOW_ALL_MEMORIES_UP_TO {
        SearchPlan::Rank { full_text: false, keep_all: true, take: visible }
    } else {
        SearchPlan::Rank { full_text: has_query_terms, keep_all: false, take: if limit == 0 { 1 } else { limit } }
    }
}

/// Up to the skip threshold the context pressure does not change the plan: a
/// search at any such pressure goes exactly as one for which no pressure was
/// reported. Over that many visible memories, full-text scores count exactly
/// when the query has words, memories scoring zero are dropped, and `limit`
/// memories are shown (at least one); up to it, every visible memory is shown.
pub proof fn lemma_search_plan_pressure_below_threshold(
    visible: usize,
    pressure: u8,
    limit: usize,
    has_query_terms: bool,
)
    requires
        pressure <= LOW_CONTEXT_PRESSURE_SKIP_THRESHOLD,
    ensures
        search_plan_of(visible, Some(pressure), limit, has_query_terms) == search_plan_of(
            visible,
            None,
            limit,
            has_query_terms,
        ),
        visible > SHOW_ALL_MEMORIES_UP_TO ==> search_plan_of(visible, Some(pressure), limit, has_query_terms)
            == (SearchPlan::Rank { full_text: has_query_terms, keep_all: false, take: if limit == 0 { 1 } else { limit } }),
        0 < visible <= SHOW_ALL_MEMORIES_UP_TO ==> search_plan_of(visible, Some(pressure), limit, has_query_terms)
            == (SearchPlan::Rank { full_text: false, keep_all: true, take: visible }),
{
}

/// A search is skipped exactly when no memory is visible or the context
/// pressure is over the threshold; it never depends on the query for that.
pub proof fn lemma_search_plan_skip(visible: usize, pressure: Option<u8>, limit: usize, has_query_terms: bool)
    ensures
        (search_plan_of(visible, pressure, limit, has_query_terms) is Skip) <==> (visible == 0 || (pressure is Some
            && pressure->0 > LOW_CONTEXT_PRESSURE_SKIP_THRESHOLD)),
        search_plan_of(visible, pressure, limit, has_query_terms) is Rank ==> search_plan_of(
            visible,
            pressure,
            limit,
            has_query_terms,
        )->full_text == (visible > SHOW_ALL_MEMORIES_UP_TO && has_query_terms),
{
}

} // verus!
