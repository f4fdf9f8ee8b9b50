use vstd::prelude::*;

use crate::memory::{
    body_content, body_title, frontmatter_line, frontmatter_pair, frontmatter_pairs,
    frontmatter_value, memory_file_text, project_memory_view, scope_from_text, scope_text,
    split_document, MemoryLevel, MemoryRecordView,
};
use crate::numbers::{lemma_decimal_digits, lemma_parse_i64_decimal, lemma_parse_u32_decimal, is_digit, all_digits};
use crate::text::{
    ascii_lower, decimal, find_char_from, first_occurrence, is_ws, join, lemma_find_char_from,
    lemma_find_from, lemma_join_after_empty, lemma_join_char_source, lemma_join_of_lines,
    lemma_joined_breaks, lemma_joined_words_trimmed, lemma_lines_of_joined,
    lemma_lines_state_concat, lemma_replace_crlf_unchanged, lemma_split_joined_words,
    lemma_trim_after_space, lemma_trim_after_ws, lemma_trim_unchanged, lemma_trim_ws_tail, lemma_trimmed_ends, lines,
    lines_state, occurs_at, replace_crlf, split_ws, starts_with, trim,
};

verus! {

/// A value that fits on one frontmatter line: trimmed, with no line break or
/// carriage return.
pub open spec fn one_line_value(s: Seq<char>) -> bool {
    &&& trim(s) == s
    &&& forall|i: int| 0 <= i < s.len() ==> #[trigger] s[i] != '\n' && s[i] != '\r'
}

/// A memory the project memory file format stores exactly: a project memory
/// whose stable id is its id, whose one-line fields and title are trimmed
/// and one line each (the title not empty), whose content is trimmed without
/// carriage returns, whose tags are non-empty words, whose agent scope (if
/// any) is a one-line name other than `shared`, and whose timestamps fit the
/// signed form they are stored in.
pub open spec fn storable_memory(m: MemoryRecordView) -> bool {
    &&& m.level == MemoryLevel::Project
    &&& m.stable_id == m.id
    &&& one_line_value(m.memory_type)
    &&& one_line_value(m.topic)
    &&& one_line_value(m.title)
    &&& m.title.len() > 0
    &&& trim(m.content) == m.content
    &&& forall|i: int| 0 <= i < m.content.len() ==> #[trigger] m.content[i] != '\r'
    &&& forall|k: int| 0 <= k < m.tags.len() ==> (#[trigger] m.tags[k]).len() > 0
    &&& forall|k: int, i: int| 0 <= k < m.tags.len() && 0 <= i < m.tags[k].len() ==> !is_ws(#[trigger] m.tags[k][i])
    &&& match m.scope {
        None => true,
        Some(n) => one_line_value(n) && n.len() > 0 && ascii_lower(n) != ascii_lower("shared"@),
    }
    &&& m.created_at <= i64::MAX
    &&& m.updated_at <= i64::MAX
}

/// The frontmatter keys and values of a memory file, in the order written.
pub open spec fn file_entries(m: MemoryRecordView) -> Seq<(Seq<char>, Seq<char>)> {
    seq![
        ("access_count"@, decimal(m.access_count as nat)),
        ("created_at"@, decimal(m.created_at as nat)),
        ("scope"@, scope_text(m.scope)),
        ("skip_count"@, decimal(m.skip_count as nat)),
        ("tags"@, join(m.tags, " "@)),
        ("topic"@, m.topic),
        ("type"@, m.memory_type),
        ("updated_at"@, decimal(m.updated_at as nat)),
    ]
}

/// The frontmatter lines of a memory file, without their line breaks.
pub open spec fn file_lines(m: MemoryRecordView) -> Seq<Seq<char>> {
    file_entries(m).map_values(|e: (Seq<char>, Seq<char>)| e.0 + ": "@ + e.1)
}

/// The body of a memory file: the title as a heading, then the content.
pub open spec fn file_body(m: MemoryRecordView) -> Seq<char> {
    "# "@ + trim(m.title) + "\n\n"@ + trim(m.content) + "\n"@
}

proof fn lemma_file_text_shape(m: MemoryRecordView)
    ensures
        memory_file_text(m) == "---\n"@ + join(file_lines(m), "\n"@) + "\n---\n"@ + file_body(m),
{
    reveal_with_fuel(join, 9);
    reveal_strlit("\n");
    reveal_strlit("---\n");
    reveal_strlit("\n---\n");
    let ls = file_lines(m);
    assert(ls.len() == 8);
    assert(ls.drop_last().drop_last().drop_last().drop_last().drop_last().drop_last().drop_last() =~= seq![ls[0]]);
    assert(memory_file_text(m) =~= "---\n"@ + join(ls, "\n"@) + "\n---\n"@ + file_body(m));
}


/// The frontmatter keys are non-empty, and hold no whitespace, `:` or `-`.
pub open spec fn plain_key(k: Seq<char>) -> bool {
    &&& k.len() > 0
    &&& forall|i: int| 0 <= i < k.len() ==> !is_ws(#[trigger] k[i]) && k[i] != ':' && k[i] != '-' && k[i] != '\n'
}

proof fn lemma_decimal_one_line(n: nat)
    ensures
        one_line_value(decimal(n)),
        decimal(n).len() > 0,
{
    lemma_decimal_digits(n);
    let d = decimal(n);
    assert forall|i: int| 0 <= i < d.len() implies #[trigger] d[i] != '\n' && d[i] != '\r' by {
        assert(is_digit(d[i]));
    }
    assert(is_digit(d[0]));
    assert(is_digit(d[d.len() - 1]));
    lemma_trim_unchanged(d);
}

proof fn lemma_file_entries_plain(m: MemoryRecordView)
    requires
        storable_memory(m),
    ensures
        forall|k: int| 0 <= k < 8 ==> plain_key(#[trigger] file_entries(m)[k].0),
        forall|k: int| 0 <= k < 8 ==> one_line_value(#[trigger] file_entries(m)[k].1),
        file_entries(m).len() == 8,
{
    reveal_strlit("access_count");
    reveal_strlit("created_at");
    reveal_strlit("scope");
    reveal_strlit("skip_count");
    reveal_strlit("tags");
    reveal_strlit("topic");
    reveal_strlit("type");
    reveal_strlit("updated_at");
    reveal_strlit("shared");
    let es = file_entries(m);
    lemma_decimal_one_line(m.access_count as nat);
    lemma_decimal_one_line(m.created_at as nat);
    lemma_decimal_one_line(m.skip_count as nat);
    lemma_decimal_one_line(m.updated_at as nat);
    match m.scope {
        None => {
            lemma_trim_unchanged("shared"@);
        },
        Some(n) => {},
    }
    let t = join(m.tags, " "@);
    lemma_joined_words_trimmed(m.tags);
    assert forall|i: int| 0 <= i < t.len() implies #[trigger] t[i] != '\n' && t[i] != '\r' by {
        reveal_strlit(" ");
        lemma_join_char_source(m.tags, " "@, i);
        if exists|k: int, j: int| 0 <= k < m.tags.len() && 0 <= j < m.tags[k].len() && #[trigger] m.tags[k][j] == t[i] {
            let (k, j) = choose|k: int, j: int| 0 <= k < m.tags.len() && 0 <= j < m.tags[k].len() && #[trigger] m.tags[k][j] == t[i];
            assert(!is_ws(m.tags[k][j]));
        }
    }
    assert forall|k: int| 0 <= k < 8 implies plain_key(#[trigger] es[k].0) by {}
    assert forall|k: int| 0 <= k < 8 implies one_line_value(#[trigger] es[k].1) by {}
}


proof fn lemma_file_lines_facts(m: MemoryRecordView)
    requires
        storable_memory(m),
    ensures
        file_lines(m).len() == 8,
        forall|k: int| 0 <= k < 8 ==> (#[trigger] file_lines(m)[k]).len() > 0,
        forall|k: int| 0 <= k < 8 ==> (#[trigger] file_lines(m)[k])[0] != '-',
        forall|k: int, i: int| 0 <= k < 8 && 0 <= i < file_lines(m)[k].len() ==> #[trigger] file_lines(m)[k][i] != '\n',
        forall|k: int| 0 <= k < 8 ==> (#[trigger] file_lines(m)[k]).last() != '\r',
{
    reveal_strlit(": ");
    lemma_file_entries_plain(m);
    let es = file_entries(m);
    let ls = file_lines(m);
    assert forall|k: int| 0 <= k < 8 implies (#[trigger] ls[k]).len() > 0 && ls[k][0] != '-' && ls[k].last() != '\r' by {
        assert(plain_key(es[k].0));
        assert(one_line_value(es[k].1));
        assert(ls[k] == es[k].0 + ": "@ + es[k].1);
        assert(ls[k][0] == es[k].0[0]);
        if es[k].1.len() > 0 {
            assert(ls[k].last() == es[k].1[es[k].1.len() - 1]);
        }
    }
    assert forall|k: int, i: int| 0 <= k < 8 && 0 <= i < ls[k].len() implies #[trigger] ls[k][i] != '\n' by {
        assert(plain_key(es[k].0));
        assert(one_line_value(es[k].1));
        assert(ls[k] == es[k].0 + ": "@ + es[k].1);
        let kl = es[k].0.len();
        if i < kl {
            assert(ls[k][i] == es[k].0[i]);
        } else if i >= kl + 2 {
            assert(ls[k][i] == es[k].1[i - kl - 2]);
        }
    }
}

proof fn lemma_file_frontmatter_end(m: MemoryRecordView)
    requires
        storable_memory(m),
    ensures
        starts_with(memory_file_text(m), "---\n"@),
        memory_file_text(m).skip(4) == join(file_lines(m), "\n"@) + "\n---\n"@ + file_body(m),
        first_occurrence(memory_file_text(m).skip(4), "\n---\n"@) == join(file_lines(m), "\n"@).len(),
{
    reveal_strlit("---\n");
    reveal_strlit("\n---\n");
    reveal_strlit("\n");
    lemma_file_text_shape(m);
    lemma_file_lines_facts(m);
    let ls = file_lines(m);
    let j = join(ls, "\n"@);
    let d = memory_file_text(m);
    let pat = "\n---\n"@;
    let rest = j + pat + file_body(m);
    assert(d.take(4) =~= "---\n"@);
    assert(d.skip(4) =~= rest);
    assert(rest.subrange(j.len() as int, j.len() as int + 5) =~= pat);
    assert(occurs_at(rest, pat, j.len() as int));
    assert forall|i: int| 0 <= i < j.len() implies !#[trigger] occurs_at(rest, pat, i) by {
        if occurs_at(rest, pat, i) {
            assert(rest.subrange(i, i + 5)[0] == pat[0]);
            assert(rest[i] == '\n');
            assert(j[i] == '\n');
            assert forall|k: int| 0 <= k < ls.len() implies (#[trigger] ls[k]).len() > 0 by {}
            assert forall|k: int, x: int| 0 <= k < ls.len() && 0 <= x < ls[k].len() implies #[trigger] ls[k][x] != '\n' by {}
            lemma_joined_breaks(ls, i);
            let k = choose|k: int| 0 <= k < ls.len() && j[i + 1] == (#[trigger] ls[k])[0];
            assert(rest.subrange(i, i + 5)[1] == pat[1]);
            assert(rest[i + 1] == j[i + 1]);
            assert(ls[k][0] != '-');
        }
    }
    lemma_find_from(rest, pat, 0);
    let r = crate::text::find_from(rest, pat, 0);
    if r == -1 {
        assert(!occurs_at(rest, pat, j.len() as int));
    } else if r < j.len() {
        assert(!occurs_at(rest, pat, r));
    } else if r > j.len() {
        assert(!occurs_at(rest, pat, j.len() as int));
    }
}


/// A `key: value` line reads back as its key and value.
proof fn lemma_frontmatter_pair_of_line(k: Seq<char>, v: Seq<char>)
    requires
        plain_key(k),
        one_line_value(v),
    ensures
        frontmatter_pair(k + ": "@ + v) == Some((k, v)),
{
    reveal_strlit(": ");
    reveal_strlit(":");
    reveal_strlit(" ");
    let line = k + ": "@ + v;
    let t = trim(line);
    let kc = k + ":"@;
    assert(!is_ws(k[0]));
    if v.len() > 0 {
        lemma_trimmed_ends(v);
        assert(line.last() == v.last());
        assert(line[0] == k[0]);
        lemma_trim_unchanged(line);
        assert(t == line);
    } else {
        assert(line =~= kc + " "@);
        assert(kc[0] == k[0]);
        assert(kc.last() == ':');
        assert forall|i: int| 0 <= i < " "@.len() implies is_ws(#[trigger] " "@[i]) by {}
        lemma_trim_ws_tail(kc, " "@);
        assert(t == kc);
    }
    // The first `:` is the one after the key.
    let kl = k.len() as int;
    assert(t[kl] == ':');
    assert forall|i: int| 0 <= i < kl implies t[i] != ':' by {
        assert(t[i] == k[i]);
    }
    lemma_find_char_from(t, ':', 0);
    let f = find_char_from(t, ':', 0);
    if f == -1 {
        assert(t[kl] != ':');
    } else if f < kl {
        assert(t[f] != ':');
    } else if f > kl {
        assert(t[kl] != ':');
    }
    assert(t.take(kl) =~= k);
    assert forall|i: int| 0 <= i < k.len() implies !is_ws(#[trigger] k[i]) by {}
    lemma_trim_unchanged(k);
    if v.len() > 0 {
        assert(t.skip(kl + 1) =~= seq![' '] + v);
        lemma_trim_after_space(v);
    } else {
        assert(t.skip(kl + 1) =~= Seq::<char>::empty());
        lemma_trim_unchanged(Seq::<char>::empty());
    }
}

proof fn lemma_frontmatter_pairs_of_lines(ls: Seq<Seq<char>>, es: Seq<(Seq<char>, Seq<char>)>)
    requires
        ls.len() == es.len(),
        forall|k: int| 0 <= k < ls.len() ==> frontmatter_pair(#[trigger] ls[k]) == Some(es[k]),
    ensures
        frontmatter_pairs(ls) == es,
    decreases ls.len(),
{
    if ls.len() > 0 {
        assert forall|k: int| 0 <= k < ls.drop_last().len() implies frontmatter_pair(#[trigger] ls.drop_last()[k]) == Some(es.drop_last()[k]) by {
            assert(ls.drop_last()[k] == ls[k]);
        }
        lemma_frontmatter_pairs_of_lines(ls.drop_last(), es.drop_last());
        assert(frontmatter_pair(ls[ls.len() - 1]) == Some(es[es.len() - 1]));
        assert(es.drop_last().push(es.last()) =~= es);
    } else {
        assert(es =~= Seq::<(Seq<char>, Seq<char>)>::empty());
    }
}

proof fn lemma_file_has_no_cr(m: MemoryRecordView)
    requires
        storable_memory(m),
    ensures
        forall|i: int| 0 <= i < memory_file_text(m).len() ==> #[trigger] memory_file_text(m)[i] != '\r',
{
    reveal_strlit("---\n");
    reveal_strlit("\n---\n");
    reveal_strlit("\n");
    reveal_strlit("\n\n");
    reveal_strlit("# ");
    reveal_strlit(": ");
    lemma_file_text_shape(m);
    lemma_file_entries_plain(m);
    let ls = file_lines(m);
    let j = join(ls, "\n"@);
    let es = file_entries(m);
    let b = file_body(m);
    let d = memory_file_text(m);
    assert forall|i: int| 0 <= i < j.len() implies #[trigger] j[i] != '\r' by {
        lemma_join_char_source(ls, "\n"@, i);
        if exists|k: int, x: int| 0 <= k < ls.len() && 0 <= x < ls[k].len() && #[trigger] ls[k][x] == j[i] {
            let (k, x) = choose|k: int, x: int| 0 <= k < ls.len() && 0 <= x < ls[k].len() && #[trigger] ls[k][x] == j[i];
            assert(plain_key(es[k].0));
            assert(one_line_value(es[k].1));
            assert(ls[k] == es[k].0 + ": "@ + es[k].1);
            let kl = es[k].0.len();
            if x < kl {
                assert(ls[k][x] == es[k].0[x]);
            } else if x >= kl + 2 {
                assert(ls[k][x] == es[k].1[x - kl - 2]);
            }
        }
    }
    let title = m.title;
    let content = m.content;
    assert(trim(title) == title);
    assert(trim(content) == content);
    assert forall|i: int| 0 <= i < b.len() implies #[trigger] b[i] != '\r' by {
        if 2 <= i < 2 + title.len() {
            assert(b[i] == title[i - 2]);
        } else if 4 + title.len() <= i < 4 + title.len() + content.len() {
            assert(b[i] == content[i - 4 - title.len()]);
        }
    }
    assert forall|i: int| 0 <= i < d.len() implies #[trigger] d[i] != '\r' by {
        if 4 <= i < 4 + j.len() {
            assert(d[i] == j[i - 4]);
        } else if i >= 9 + j.len() {
            assert(d[i] == b[i - 9 - j.len()]);
        }
    }
}

/// A memory file splits into the frontmatter it was written with and its body.
proof fn lemma_file_split(m: MemoryRecordView)
    requires
        storable_memory(m),
    ensures
        split_document(memory_file_text(m)) == (file_entries(m), file_body(m)),
{
    reveal_strlit("\n---\n");
    lemma_file_has_no_cr(m);
    lemma_replace_crlf_unchanged(memory_file_text(m));
    lemma_file_frontmatter_end(m);
    lemma_file_lines_facts(m);
    lemma_file_entries_plain(m);
    let ls = file_lines(m);
    let j = join(ls, "\n"@);
    let rest = memory_file_text(m).skip(4);
    assert(rest.take(j.len() as int) =~= j);
    assert(rest.skip(j.len() as int + 5) =~= file_body(m));
    assert(ls.last() == ls[7]);
    assert forall|k: int, i: int| 0 <= k < ls.len() && 0 <= i < ls[k].len() implies #[trigger] ls[k][i] != '\n' by {}
    assert forall|k: int| 0 <= k < ls.len() && (#[trigger] ls[k]).len() > 0 implies ls[k].last() != '\r' by {}
    lemma_lines_of_joined(ls);
    let es = file_entries(m);
    assert forall|k: int| 0 <= k < ls.len() implies frontmatter_pair(#[trigger] ls[k]) == Some(es[k]) by {
        assert(ls[k] == es[k].0 + ": "@ + es[k].1);
        lemma_frontmatter_pair_of_line(es[k].0, es[k].1);
    }
    lemma_frontmatter_pairs_of_lines(ls, es);
}


proof fn lemma_file_body(m: MemoryRecordView)
    requires
        storable_memory(m),
    ensures
        body_title(file_body(m)) == m.title,
        body_content(file_body(m)) == m.content,
{
    reveal_strlit("# ");
    reveal_strlit("\n\n");
    reveal_strlit("\n");
    reveal_strlit("\n\n\n");
    let title = m.title;
    let content = m.content;
    assert(trim(title) == title);
    assert(trim(content) == content);
    let b = file_body(m);
    let head = "# "@ + title;
    lemma_trimmed_ends(title);
    assert(head[0] == '#');
    assert(head.last() == title.last());
    assert forall|i: int| 0 <= i < head.len() implies #[trigger] head[i] != '\n' && head[i] != '\r' by {
        if i >= 2 {
            assert(head[i] == title[i - 2]);
        }
    }
    if content.len() == 0 {
        assert(b =~= head + "\n\n\n"@);
        assert forall|i: int| 0 <= i < "\n\n\n"@.len() implies is_ws(#[trigger] "\n\n\n"@[i]) by {
            reveal_strlit("\n\n\n");
        }
        lemma_trim_ws_tail(head, "\n\n\n"@);
        lemma_replace_crlf_unchanged(head);
        let ls = seq![head];
        assert(join(ls, "\n"@) == head);
        assert forall|k: int, i: int| 0 <= k < ls.len() && 0 <= i < ls[k].len() implies #[trigger] ls[k][i] != '\n' by {}
        lemma_lines_of_joined(ls);
        assert(lines(head) == ls);
        assert(head.skip(2) =~= title);
        assert(head.take(2) =~= "# "@);
        assert(ls.skip(1) =~= Seq::<Seq<char>>::empty());
        lemma_trim_unchanged(Seq::<char>::empty());
    } else {
        lemma_trimmed_ends(content);
        let a = head + "\n\n"@;
        let x = a + content;
        assert(b =~= x + "\n"@);
        assert(x[0] == '#');
        assert(x.last() == content.last());
        assert forall|i: int| 0 <= i < "\n"@.len() implies is_ws(#[trigger] "\n"@[i]) by {}
        lemma_trim_ws_tail(x, "\n"@);
        assert forall|i: int| 0 <= i < x.len() implies #[trigger] x[i] != '\r' by {
            if i < head.len() {
                assert(x[i] == head[i]);
            } else if i >= head.len() + 2 {
                assert(x[i] == content[i - head.len() - 2]);
            }
        }
        lemma_replace_crlf_unchanged(x);
        // The heading line and the blank line, then the content's lines.
        crate::text::lemma_lines_state_append_line(Seq::empty(), head);
        assert(Seq::<char>::empty() + head =~= head);
        let a1 = head.push('\n');
        assert(a1.drop_last() =~= head);
        assert(head.len() == 0 || head.last() != '\r');
        let a2 = a1.push('\n');
        assert(a2.drop_last() =~= a1);
        assert(a =~= a2);
        assert(lines_state(head) == (Seq::<Seq<char>>::empty(), Seq::<char>::empty() + head));
        assert(lines_state(head).1 =~= head);
        assert(crate::text::strip_cr(head) == head);
        assert(lines_state(a1) == (Seq::<Seq<char>>::empty().push(head), Seq::<char>::empty()));
        assert(crate::text::strip_cr(Seq::<char>::empty()) == Seq::<char>::empty());
        assert(lines_state(a2) == (Seq::<Seq<char>>::empty().push(head).push(Seq::<char>::empty()), Seq::<char>::empty()));
        assert(Seq::<Seq<char>>::empty().push(head).push(Seq::<char>::empty()) =~= seq![head, Seq::<char>::empty()]);
        assert(lines_state(a) == (seq![head, Seq::<char>::empty()], Seq::<char>::empty()));
        lemma_lines_state_concat(a, content);
        lemma_join_of_lines(content);
        let lc = lines(content);
        assert(lines(x) =~= seq![head, Seq::<char>::empty()] + lc);
        assert(lines(x)[0] == head);
        assert(head.skip(2) =~= title);
        assert(head.take(2) =~= "# "@);
        assert(lines(x).skip(1) =~= seq![Seq::<char>::empty()] + lc);
        crate::text::lemma_join_after_empty(lc);
        assert("\n"@ == seq!['\n']);
        lemma_trim_after_ws('\n', content);
    }
}

proof fn lemma_value_of_key(es: Seq<(Seq<char>, Seq<char>)>, j: int)
    requires
        0 <= j < es.len(),
        forall|a: int, b: int| 0 <= a < b < es.len() ==> (#[trigger] es[a]).0 != (#[trigger] es[b]).0,
    ensures
        frontmatter_value(es, es[j].0) == Some(es[j].1),
    decreases es.len(),
{
    if j < es.len() - 1 {
        assert(es.last() == es[es.len() - 1]);
        assert(es.last().0 != es[j].0);
        assert(es.drop_last()[j] == es[j]);
        lemma_value_of_key(es.drop_last(), j);
    }
}

proof fn lemma_file_keys_distinct(m: MemoryRecordView)
    ensures
        forall|a: int, b: int|
            0 <= a < b < file_entries(m).len() ==> (#[trigger] file_entries(m)[a]).0 != (#[trigger] file_entries(m)[b]).0,
{
    reveal_strlit("access_count");
    reveal_strlit("created_at");
    reveal_strlit("scope");
    reveal_strlit("skip_count");
    reveal_strlit("tags");
    reveal_strlit("topic");
    reveal_strlit("type");
    reveal_strlit("updated_at");
    let es = file_entries(m);
    assert forall|a: int, b: int| 0 <= a < b < es.len() implies (#[trigger] es[a]).0 != (#[trigger] es[b]).0 by {
        let x = es[a].0;
        let y = es[b].0;
        if x.len() == y.len() {
            if x[0] == y[0] {
                assert(x[1] != y[1]);
            } else {
                assert(x[0] != y[0]);
            }
        }
    }
}

/// Writing a memory to a project memory file and reading the file back gives
/// the same memory, for every memory the format can hold (`storable_memory`),
/// whatever time the file is read at.
pub proof fn lemma_memory_file_roundtrip(m: MemoryRecordView, now: u64)
    requires
        storable_memory(m),
    ensures
        project_memory_view(m.id, memory_file_text(m), now) == Some(m),
{
    reveal_strlit("access_count");
    reveal_strlit("created_at");
    reveal_strlit("scope");
    reveal_strlit("skip_count");
    reveal_strlit("tags");
    reveal_strlit("topic");
    reveal_strlit("type");
    reveal_strlit("updated_at");
    reveal_strlit("shared");
    lemma_file_split(m);
    lemma_file_body(m);
    lemma_file_keys_distinct(m);
    let es = file_entries(m);
    lemma_value_of_key(es, 0);
    lemma_value_of_key(es, 1);
    lemma_value_of_key(es, 2);
    lemma_value_of_key(es, 3);
    lemma_value_of_key(es, 4);
    lemma_value_of_key(es, 5);
    lemma_value_of_key(es, 6);
    lemma_value_of_key(es, 7);
    lemma_parse_u32_decimal(m.access_count);
    lemma_parse_u32_decimal(m.skip_count);
    lemma_parse_i64_decimal(m.created_at);
    lemma_parse_i64_decimal(m.updated_at);
    lemma_split_joined_words(m.tags);
    match m.scope {
        None => {
            lemma_trim_unchanged("shared"@);
        },
        Some(n) => {},
    }
    let r = project_memory_view(m.id, memory_file_text(m), now);
    assert(r == Some(m));
}

} // verus!
