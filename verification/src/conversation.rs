use vstd::prelude::*;

use crate::agents::opt_view;
use crate::memory::contains_string;
use crate::search::distinct_in_order;
use crate::text::{
    ascii_lower, chars_contain_char, chars_of, lower_chars, split_whitespace_chars, split_ws,
    string_from_chars, strings_view, sub_chars, trim, trim_chars, trim_str, char_vecs_view,
};
use crate::timeline::{
    spec_turn_agent_id, turn_agent_id, ContentBlock, PersistedReplyRef, PersistedTaskTimelineEntry,
    PersistedTurnTrigger,
};

verus! {

broadcast use vstd::string::group_string_axioms;

/// What a message sent from the UI replies to.
#[derive(Debug, Clone, PartialEq, Eq)]
pub enum UiReplyRef {
    Turn { id: String },
    UserMessage { id: String },
}

/// What started a turn, as the UI reports it.
#[derive(Debug, Clone, PartialEq, Eq)]
pub enum UiTurnTrigger {
    User { id: String },
    Turn { id: String },
}

/// A block of content written in the UI's composer.
#[derive(Debug, Clone)]
pub enum UiComposerContentBlock {
    Text { text: String },
    Image { media_type: String, data_base64: String, source_path: Option<String>, name: Option<String> },
}

pub fn reply_ref_from_ui(reply: UiReplyRef) -> (out: PersistedReplyRef)
    ensures
        match (reply, out) {
            (UiReplyRef::Turn { id: a }, PersistedReplyRef::Turn { id: b }) => a@ == b@,
            (UiReplyRef::UserMessage { id: a }, PersistedReplyRef::UserMessage { id: b }) => a@ == b@,
            _ => false,
        },
{
    match reply {
        UiReplyRef::Turn { id } => PersistedReplyRef::Turn { id },
        UiReplyRef::UserMessage { id } => PersistedReplyRef::UserMessage { id },
    }
}

pub fn turn_trigger_from_ui(trigger: UiTurnTrigger) -> (out: PersistedTurnTrigger)
    ensures
        match (trigger, out) {
            (UiTurnTrigger::User { id: a }, PersistedTurnTrigger::User { id: b }) => a@ == b@,
            (UiTurnTrigger::Turn { id: a }, PersistedTurnTrigger::Turn { id: b }) => a@ == b@,
            _ => false,
        },
{
    match trigger {
        UiTurnTrigger::User { id } => PersistedTurnTrigger::User { id },
        UiTurnTrigger::Turn { id } => PersistedTurnTrigger::Turn { id },
    }
}

pub fn content_block_from_ui(block: UiComposerContentBlock) -> (out: ContentBlock)
    ensures
        match (block, out) {
            (UiComposerContentBlock::Text { text: a }, ContentBlock::Text { text: b }) => a@ == b@,
            (
                UiComposerContentBlock::Image { media_type: m1, data_base64: d1, source_path: s1, name: n1 },
                ContentBlock::Image { media_type: m2, data_base64: d2, source_path: s2, name: n2 },
            ) => m1@ == m2@ && d1@ == d2@ && opt_view(s1) == opt_view(s2) && opt_view(n1) == opt_view(n2),
            _ => false,
        },
{
    match block {
        UiComposerContentBlock::Text { text } => ContentBlock::Text { text },
        UiComposerContentBlock::Image { media_type, data_base64, source_path, name } => ContentBlock::Image {
            media_type,
            data_base64,
            source_path,
            name,
        },
    }
}

/// Whether a message says nothing: no blocks, or only blank text blocks.
pub open spec fn is_empty_message(blocks: Seq<ContentBlock>) -> bool {
    forall|i: int|
        0 <= i < blocks.len() ==> match #[trigger] blocks[i] {
            ContentBlock::Text { text } => trim(text@).len() == 0,
            ContentBlock::Image { .. } => false,
        }
}

/// Refuses a message that says nothing.
pub fn validate_message_content(content_blocks: &[ContentBlock]) -> (out: Result<(), String>)
    ensures
        match out {
            Ok(()) => !is_empty_message(content_blocks@),
            Err(m) => is_empty_message(content_blocks@) && m@ == "message cannot be empty"@,
        },
{
    let mut i: usize = 0;
    while i < content_blocks.len()
        invariant
            i <= content_blocks.len(),
            forall|k: int|
                0 <= k < i ==> match #[trigger] content_blocks@[k] {
                    ContentBlock::Text { text } => trim(text@).len() == 0,
                    ContentBlock::Image { .. } => false,
                },
        decreases content_blocks.len() - i,
    {
        let filled = match &content_blocks[i] {
            ContentBlock::Text { text } => {
                let t = trim_str(text.as_str());
                !t.as_str().is_empty()
            },
            ContentBlock::Image { .. } => true,
        };
        if filled {
            return Ok(());
        }
        i += 1;
    }
    Err("message cannot be empty".to_owned())
}

/// Whether `c` is trimmed from the ends of a mention.
pub open spec fn is_mention_trim(c: char) -> bool {
    c == ',' || c == ':' || c == '，' || c == '：' || c == '。' || c == '!'
}

/// Index of the first character at or after `i` that is not `@`.
pub open spec fn at_end(s: Seq<char>, i: int) -> int
    decreases s.len() - i,
{
    if 0 <= i < s.len() && s[i] == '@' {
        at_end(s, i + 1)
    } else {
        i
    }
}

/// Index of the first character at or after `i` that is not trimmed from a mention.
pub open spec fn mention_lead(s: Seq<char>, i: int) -> int
    decreases s.len() - i,
{
    if 0 <= i < s.len() && is_mention_trim(s[i]) {
        mention_lead(s, i + 1)
    } else {
        i
    }
}

/// Index just past the last kept character before `j`, not before `lo`.
pub open spec fn mention_trail(s: Seq<char>, lo: int, j: int) -> int
    decreases j,
{
    if 0 <= lo < j <= s.len() && is_mention_trim(s[j - 1]) {
        mention_trail(s, lo, j - 1)
    } else {
        j
    }
}

/// The agent name a word that mentions one stands for: without the leading
/// `@`s and the punctuation around it, lowercased.
pub open spec fn mention_candidate(word: Seq<char>) -> Seq<char> {
    let t = trim(word);
    let u = t.skip(at_end(t, 0));
    let i = mention_lead(u, 0);
    ascii_lower(u.subrange(i, mention_trail(u, i, u.len() as int)))
}

/// The known agents mentioned in the words, in order, each once.
pub open spec fn mentions_in(words: Seq<Seq<char>>, known: Seq<Seq<char>>) -> Seq<Seq<char>>
    decreases words.len(),
{
    if words.len() == 0 {
        Seq::empty()
    } else {
        let prev = mentions_in(words.drop_last(), known);
        let w = words.last();
        let c = mention_candidate(w);
        if w.contains('@') && c.len() > 0 && known.contains(c) && !prev.contains(c) {
            prev.push(c)
        } else {
            prev
        }
    }
}

proof fn lemma_at_end(s: Seq<char>, i: int)
    requires
        0 <= i <= s.len(),
    ensures
        i <= at_end(s, i) <= s.len(),
    decreases s.len() - i,
{
    if i < s.len() && s[i] == '@' {
        lemma_at_end(s, i + 1);
    }
}

fn mention_candidate_of(word: &[char]) -> (out: Vec<char>)
    ensures
        out@ == mention_candidate(word@),
{
    let t = trim_chars(word);
    let mut a: usize = 0;
    while a < t.len() && t[a] == '@'
        invariant
            a <= t.len(),
            at_end(t@, a as int) == at_end(t@, 0),
        decreases t.len() - a,
    {
        a += 1;
    }
    let u = sub_chars(t.as_slice(), a, t.len());
    assert(u@ =~= t@.skip(a as int));
    let mut i: usize = 0;
    while i < u.len() && (u[i] == ',' || u[i] == ':' || u[i] == '，' || u[i] == '：' || u[i] == '。'
        || u[i] == '!')
        invariant
            i <= u.len(),
            mention_lead(u@, i as int) == mention_lead(u@, 0),
        decreases u.len() - i,
    {
        i += 1;
    }
    let mut j: usize = u.len();
    while j > i && (u[j - 1] == ',' || u[j - 1] == ':' || u[j - 1] == '，' || u[j - 1] == '：' || u[j
        - 1] == '。' || u[j - 1] == '!')
        invariant
            i <= j <= u.len(),
            mention_trail(u@, i as int, j as int) == mention_trail(u@, i as int, u.len() as int),
        decreases j,
    {
        j -= 1;
    }
    let core = sub_chars(u.as_slice(), i, j);
    lower_chars(core.as_slice())
}

/// The known agents a message mentions with `@name`, in order, each once.
pub fn extract_agent_mentions(text: &str, known_agents: &Vec<String>) -> (out: Vec<String>)
    ensures
        strings_view(out@) == mentions_in(split_ws(text@), strings_view(known_agents@)),
{
    let chars = chars_of(text);
    let words = split_whitespace_chars(chars.as_slice());
    let ghost wv = char_vecs_view(words@);
    let ghost kv = strings_view(known_agents@);
    let mut out: Vec<String> = Vec::new();
    let mut i: usize = 0;
    while i < words.len()
        invariant
            i <= words.len(),
            wv == char_vecs_view(words@),
            wv == split_ws(text@),
            kv == strings_view(known_agents@),
            strings_view(out@) == mentions_in(wv.take(i as int), kv),
        decreases words.len() - i,
    {
        assert(wv.take(i + 1).drop_last() =~= wv.take(i as int));
        assert(wv.take(i + 1).last() == words@[i as int]@);
        if chars_contain_char(words[i].as_slice(), '@') {
            let c = mention_candidate_of(words[i].as_slice());
            let name = string_from_chars(c.as_slice());
            if c.len() > 0 && contains_string(known_agents, name.as_str()) && !contains_string(
                &out,
                name.as_str(),
            ) {
                let ghost before = out@;
                out.push(name);
                assert(strings_view(out@) =~= strings_view(before).push(c@));
            }
        }
        i += 1;
    }
    assert(wv.take(words.len() as int) =~= wv);
    out
}

/// The agents a message is first routed to: those it mentions, then the
/// agents of the turns it replies to, each once.
pub open spec fn initial_agents(
    mentions: Seq<Seq<char>>,
    replies: Seq<UiReplyRef>,
    timeline: Seq<PersistedTaskTimelineEntry>,
) -> Seq<Seq<char>> {
    distinct_in_order(mentions + reply_agents(replies, timeline))
}

/// The agents of the turns replied to that the timeline holds, in order.
pub open spec fn reply_agents(replies: Seq<UiReplyRef>, timeline: Seq<PersistedTaskTimelineEntry>) -> Seq<
    Seq<char>,
>
    decreases replies.len(),
{
    if replies.len() == 0 {
        Seq::empty()
    } else {
        let prev = reply_agents(replies.drop_last(), timeline);
        match replies.last() {
            UiReplyRef::Turn { id } => match spec_turn_agent_id(timeline, id@) {
                Some(a) => prev.push(a),
                None => prev,
            },
            UiReplyRef::UserMessage { .. } => prev,
        }
    }
}

pub fn resolve_initial_agents(
    mentions: Vec<String>,
    replies: &[UiReplyRef],
    timeline: &Vec<PersistedTaskTimelineEntry>,
) -> (out: Vec<String>)
    ensures
        strings_view(out@) == initial_agents(strings_view(mentions@), replies@, timeline@),
{
    let ghost mv = strings_view(mentions@);
    let mut agents: Vec<String> = Vec::new();
    let mut i: usize = 0;
    while i < mentions.len()
        invariant
            i <= mentions.len(),
            mv == strings_view(mentions@),
            strings_view(agents@) == distinct_in_order(mv.take(i as int)),
        decreases mentions.len() - i,
    {
        assert(mv.take(i + 1).drop_last() =~= mv.take(i as int));
        assert(mv.take(i + 1).last() == mentions@[i as int]@);
        if !contains_string(&agents, mentions[i].as_str()) {
            let ghost before = agents@;
            agents.push(mentions[i].clone());
            assert(strings_view(agents@) =~= strings_view(before).push(mentions@[i as int]@));
        }
        i += 1;
    }
    assert(mv.take(mentions.len() as int) =~= mv);
    let ghost mut acc = mv;
    assert(acc =~= mv + reply_agents(replies@.take(0), timeline@));
    let mut k: usize = 0;
    while k < replies.len()
        invariant
            k <= replies.len(),
            acc == mv + reply_agents(replies@.take(k as int), timeline@),
            strings_view(agents@) == distinct_in_order(acc),
        decreases replies.len() - k,
    {
        assert(replies@.take(k + 1).drop_last() =~= replies@.take(k as int));
        assert(replies@.take(k + 1).last() == replies@[k as int]);
        match &replies[k] {
            UiReplyRef::Turn { id } => {
                match turn_agent_id(timeline, id.as_str()) {
                    Some(agent_id) => {
                        let ghost prev_acc = acc;
                        proof {
                            acc = acc.push(agent_id@);
                            assert(acc.drop_last() =~= prev_acc);
                            assert(acc =~= mv + reply_agents(replies@.take(k + 1), timeline@));
                        }
                        if !contains_string(&agents, agent_id.as_str()) {
                            let ghost before = agents@;
                            agents.push(agent_id);
                            assert(strings_view(agents@) =~= strings_view(before).push(acc.last()));
                        }
                    },
                    None => {},
                }
            },
            UiReplyRef::UserMessage { .. } => {},
        }
        k += 1;
    }
    assert(replies@.take(replies.len() as int) =~= replies@);
    agents
}

/// Whether a task's title is made up from its first message: the title is
/// still the default one, not locked, the task has no history, and the
/// message has at least four characters.
pub open spec fn auto_titled(
    title_is_default: bool,
    title_locked: bool,
    timeline_is_empty: bool,
    user_message: Seq<char>,
) -> bool {
    title_is_default && !title_locked && timeline_is_empty && trim(user_message).len() >= 4
}

pub fn should_auto_title(
    title_is_default: bool,
    title_locked: bool,
    timeline_is_empty: bool,
    user_message: &str,
) -> (out: bool)
    ensures
        out == auto_titled(title_is_default, title_locked, timeline_is_empty, user_message@),
{
    let t = chars_of(user_message);
    let trimmed = trim_chars(t.as_slice());
    title_is_default && !title_locked && timeline_is_empty && trimmed.len() >= 4
}

/// The extension of a file name: the text after its last `.`, unless the
/// name has no `.` but a leading one, or is `..`.
pub open spec fn extension_of(file_name: Seq<char>) -> Option<Seq<char>> {
    let k = last_dot(file_name, file_name.len() as int);
    if k <= 0 || file_name == ".."@ {
        None
    } else {
        Some(file_name.skip(k + 1))
    }
}

/// Index of the last `.` before `j`, or -1.
pub open spec fn last_dot(s: Seq<char>, j: int) -> int
    decreases j,
{
    if j <= 0 || j > s.len() {
        -1
    } else if s[j - 1] == '.' {
        j - 1
    } else {
        last_dot(s, j - 1)
    }
}

/// The media type of an image file, by the extension of its name.
pub open spec fn image_media_type(file_name: Seq<char>) -> Option<Seq<char>> {
    match extension_of(file_name) {
        Some(e) => {
            let l = ascii_lower(e);
            if l == "png"@ {
                Some("image/png"@)
            } else if l == "jpg"@ || l == "jpeg"@ {
                Some("image/jpeg"@)
            } else if l == "gif"@ {
                Some("image/gif"@)
            } else if l == "webp"@ {
                Some("image/webp"@)
            } else if l == "bmp"@ {
                Some("image/bmp"@)
            } else if l == "svg"@ {
                Some("image/svg+xml"@)
            } else {
                None
            }
        },
        None => None,
    }
}

pub fn infer_image_media_type(file_name: &str) -> (out: Option<&'static str>)
    ensures
        match out {
            Some(m) => image_media_type(file_name@) == Some(m@),
            None => image_media_type(file_name@) is None,
        },
{
    let chars = chars_of(file_name);
    let mut j: usize = chars.len();
    while j > 0 && chars[j - 1] != '.'
        invariant
            j <= chars.len(),
            last_dot(chars@, j as int) == last_dot(chars@, chars@.len() as int),
        decreases j,
    {
        j -= 1;
    }
    if j <= 1 || crate::text::str_eq(file_name, "..") {
        return None;
    }
    let k = j - 1;
    let e = sub_chars(chars.as_slice(), k + 1, chars.len());
    assert(e@ =~= chars@.skip(k + 1));
    let l = lower_chars(e.as_slice());
    let ext = string_from_chars(l.as_slice());
    let x = ext.as_str();
    if crate::text::str_eq(x, "png") {
        Some("image/png")
    } else if crate::text::str_eq(x, "jpg") || crate::text::str_eq(x, "jpeg") {
        Some("image/jpeg")
    } else if crate::text::str_eq(x, "gif") {
        Some("image/gif")
    } else if crate::text::str_eq(x, "webp") {
        Some("image/webp")
    } else if crate::text::str_eq(x, "bmp") {
        Some("image/bmp")
    } else if crate::text::str_eq(x, "svg") {
        Some("image/svg+xml")
    } else {
        None
    }
}

} // verus!
