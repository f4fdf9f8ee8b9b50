use vstd::prelude::*;

use crate::numbers::{parse_i64, parse_u32, parsed_i64, parsed_u32};
use crate::text::{
    ascii_lower, chars_find, chars_find_char, chars_of, chars_starts_with, eq_ignore_ascii_case,
    find_char_from, first_occurrence, join, join_strings, lemma_find_char_from, lines,
    lines_chars, push_char, push_chars, push_str, replace_crlf, replace_crlf_chars, split_ws,
    split_whitespace_chars, starts_with, str_eq, string_from_chars, strings_view, sub_chars,
    to_ascii_lowercase, trim, trim_chars, trim_str, char_vecs_view, u64_to_string, decimal,
    i64_to_string, signed_decimal,
};

verus! {

broadcast use vstd::string::group_string_axioms;

/// Where a memory is kept: in the project's memory directory, or in the
/// global settings database.
#[derive(Debug, Clone, Copy, PartialEq, Eq, Structural)]
pub enum MemoryLevel {
    Project,
    Global,
}

/// The one-letter prefix of a level in prefixed memory ids.
pub open spec fn level_prefix(level: MemoryLevel) -> Seq<char> {
    match level {
        MemoryLevel::Project => "p"@,
        MemoryLevel::Global => "g"@,
    }
}

impl MemoryLevel {
    pub fn prefix(self) -> (out: &'static str)
        ensures
            out@ == level_prefix(self),
    {
        match self {
            MemoryLevel::Project => "p",
            MemoryLevel::Global => "g",
        }
    }
}

/// Who sees a memory: every agent, or one agent by name.
#[derive(Debug, Clone, PartialEq, Eq)]
pub enum MemoryScope {
    Shared,
    Agent(String),
}

/// The agent a scope is restricted to; `None` for a shared memory.
pub open spec fn scope_agent(scope: MemoryScope) -> Option<Seq<char>> {
    match scope {
        MemoryScope::Shared => None,
        MemoryScope::Agent(name) => Some(name@),
    }
}

/// The scope stored as `raw`: shared when blank or `shared` in any case.
pub open spec fn scope_from_text(raw: Seq<char>) -> Option<Seq<char>> {
    let t = trim(raw);
    if t.len() == 0 || ascii_lower(t) == ascii_lower("shared"@) {
        None
    } else {
        Some(t)
    }
}

/// How a scope is stored.
pub open spec fn scope_text(scope: Option<Seq<char>>) -> Seq<char> {
    match scope {
        None => "shared"@,
        Some(name) => name,
    }
}

impl MemoryScope {
    pub fn from_storage(raw: &str) -> (out: MemoryScope)
        ensures
            scope_agent(out) == scope_from_text(raw@),
    {
        let trimmed = trim_str(raw);
        if trimmed.as_str().is_empty() || eq_ignore_ascii_case(trimmed.as_str(), "shared") {
            MemoryScope::Shared
        } else {
            MemoryScope::Agent(trimmed)
        }
    }

    pub fn as_storage(&self) -> (out: String)
        ensures
            out@ == scope_text(scope_agent(*self)),
    {
        match self {
            MemoryScope::Shared => "shared".to_owned(),
            MemoryScope::Agent(name) => name.clone(),
        }
    }

    pub fn is_visible_to(&self, active_agent: &str) -> (out: bool)
        ensures
            out == match scope_agent(*self) {
                None => true,
                Some(name) => ascii_lower(name) == ascii_lower(active_agent@),
            },
    {
        match self {
            MemoryScope::Shared => true,
            MemoryScope::Agent(name) => eq_ignore_ascii_case(name.as_str(), active_agent),
        }
    }
}

/// A stored memory. Times are whole seconds since the Unix epoch, the
/// resolution at which memories are persisted.
#[derive(Debug, Clone, PartialEq, Eq)]
pub struct MemoryRecord {
    pub id: String,
    pub level: MemoryLevel,
    pub scope: MemoryScope,
    pub stable_id: String,
    pub memory_type: String,
    pub topic: String,
    pub title: String,
    pub content: String,
    pub tags: Vec<String>,
    pub access_count: u32,
    pub skip_count: u32,
    pub created_at: u64,
    pub updated_at: u64,
}

/// The plain value of a memory record.
pub struct MemoryRecordView {
    pub id: Seq<char>,
    pub level: MemoryLevel,
    pub scope: Option<Seq<char>>,
    pub stable_id: Seq<char>,
    pub memory_type: Seq<char>,
    pub topic: Seq<char>,
    pub title: Seq<char>,
    pub content: Seq<char>,
    pub tags: Seq<Seq<char>>,
    pub access_count: u32,
    pub skip_count: u32,
    pub created_at: u64,
    pub updated_at: u64,
}

impl View for MemoryRecord {
    type V = MemoryRecordView;

    open spec fn view(&self) -> MemoryRecordView {
        MemoryRecordView {
            id: self.id@,
            level: self.level,
            scope: scope_agent(self.scope),
            stable_id: self.stable_id@,
            memory_type: self.memory_type@,
            topic: self.topic@,
            title: self.title@,
            content: self.content@,
            tags: strings_view(self.tags@),
            access_count: self.access_count,
            skip_count: self.skip_count,
            created_at: self.created_at,
            updated_at: self.updated_at,
        }
    }
}

impl MemoryRecord {
    /// The id with its level's prefix, as the model sees it (`p:..`, `g:..`).
    pub fn prefixed_id(&self) -> (out: String)
        ensures
            out@ == level_prefix(self.level) + ":"@ + self.id@,
    {
        let mut out = self.level.prefix().to_owned();
        push_char(&mut out, ':');
        push_str(&mut out, self.id.as_str());
        proof {
            reveal_strlit(":");
        }
        out
    }
}

/// What the memory search looks at: the task, the conversation and the open files.
#[derive(Debug, Clone, Default)]
pub struct MemoryQuery {
    pub task_name: Option<String>,
    pub latest_user_message: Option<String>,
    pub open_file_paths: Vec<String>,
    pub recent_assistant_messages: Vec<String>,
    pub active_agent: String,
    pub context_pressure_percent: Option<u8>,
}

/// A request to store a new memory.
#[derive(Debug, Clone)]
pub struct MemorizeRequest {
    pub id: String,
    pub memory_type: String,
    pub topic: String,
    pub title: String,
    pub content: String,
    pub tags: Vec<String>,
    pub scope: Option<String>,
    pub level: Option<String>,
}

/// A request to change some fields of a stored memory.
#[derive(Debug, Clone, Default)]
pub struct UpdateMemoryRequest {
    pub id: String,
    pub title: Option<String>,
    pub content: Option<String>,
    pub tags: Option<Vec<String>>,
    pub topic: Option<String>,
    pub memory_type: Option<String>,
}


/// The title of a memory's markdown body: the text of a leading `# ` heading,
/// or `Untitled memory`.
pub open spec fn body_title(body: Seq<char>) -> Seq<char> {
    let ls = lines(replace_crlf(trim(body)));
    if ls.len() > 0 && starts_with(ls[0], "# "@) && trim(ls[0].skip(2)).len() > 0 {
        trim(ls[0].skip(2))
    } else {
        "Untitled memory"@
    }
}

/// The content of a memory's markdown body: every line after the first, trimmed.
pub open spec fn body_content(body: Seq<char>) -> Seq<char> {
    let ls = lines(replace_crlf(trim(body)));
    if ls.len() == 0 {
        Seq::empty()
    } else {
        trim(join(ls.skip(1), "\n"@))
    }
}

/// Splits a memory's markdown body into its title and its content.
pub fn parse_memory_body(body: &str) -> (out: (String, String))
    ensures
        out.0@ == body_title(body@),
        out.1@ == body_content(body@),
{
    proof {
        reveal_strlit("# ");
    }
    let chars = chars_of(body);
    let t = trim_chars(chars.as_slice());
    let n = replace_crlf_chars(t.as_slice());
    let mut ls = lines_chars(n.as_slice());
    let ghost all = char_vecs_view(ls@);
    let mut title = "Untitled memory".to_owned();
    if ls.len() == 0 {
        return (title, String::new());
    }
    let first = ls.remove(0);
    assert(char_vecs_view(ls@) =~= all.skip(1));
    let prefix = chars_of("# ");
    if chars_starts_with(first.as_slice(), prefix.as_slice()) {
        let rest = sub_chars(first.as_slice(), 2, first.len());
        assert(rest@ == first@.skip(2));
        let tt = trim_chars(rest.as_slice());
        if tt.len() > 0 {
            title = string_from_chars(tt.as_slice());
        }
    }
    let nl = chars_of("\n");
    let joined = crate::text::join_chars(&ls, nl.as_slice());
    let ct = trim_chars(joined.as_slice());
    (title, string_from_chars(ct.as_slice()))
}

/// One line of a frontmatter block read as `key: value`: the trimmed text
/// before the first `:` and the trimmed text after it.
pub open spec fn frontmatter_pair(line: Seq<char>) -> Option<(Seq<char>, Seq<char>)> {
    let t = trim(line);
    let k = find_char_from(t, ':', 0);
    if k < 0 {
        None
    } else {
        Some((trim(t.take(k)), trim(t.skip(k + 1))))
    }
}

/// The `key: value` pairs of the frontmatter lines, in order.
pub open spec fn frontmatter_pairs(ls: Seq<Seq<char>>) -> Seq<(Seq<char>, Seq<char>)>
    decreases ls.len(),
{
    if ls.len() == 0 {
        Seq::empty()
    } else {
        let prev = frontmatter_pairs(ls.drop_last());
        match frontmatter_pair(ls.last()) {
            Some(p) => prev.push(p),
            None => prev,
        }
    }
}

/// A memory file split into its frontmatter pairs and its body. The file is
/// read with `\r\n` as `\n`; without an opening `---` line and a closing one,
/// there is no frontmatter and the body is the whole text.
pub open spec fn split_document(raw: Seq<char>) -> (Seq<(Seq<char>, Seq<char>)>, Seq<char>) {
    let n = replace_crlf(raw);
    if !starts_with(n, "---\n"@) {
        (Seq::empty(), n)
    } else {
        let rest = n.skip(4);
        let k = first_occurrence(rest, "\n---\n"@);
        if k < 0 {
            (Seq::empty(), n)
        } else {
            (frontmatter_pairs(lines(rest.take(k))), rest.skip(k + 5))
        }
    }
}

/// The plain value of a list of key/value string pairs.
pub open spec fn pairs_view(v: Seq<(String, String)>) -> Seq<(Seq<char>, Seq<char>)> {
    v.map_values(|p: (String, String)| (p.0@, p.1@))
}

/// The value of the last pair with the given key: later lines override earlier ones.
pub open spec fn frontmatter_value(pairs: Seq<(Seq<char>, Seq<char>)>, key: Seq<char>) -> Option<
    Seq<char>,
>
    decreases pairs.len(),
{
    if pairs.len() == 0 {
        None
    } else if pairs.last().0 == key {
        Some(pairs.last().1)
    } else {
        frontmatter_value(pairs.drop_last(), key)
    }
}

fn frontmatter_pair_of(line: &[char]) -> (out: Option<(String, String)>)
    ensures
        match out {
            None => frontmatter_pair(line@) is None,
            Some(p) => frontmatter_pair(line@) == Some((p.0@, p.1@)),
        },
{
    let t = trim_chars(line);
    let tl = t.len();
    match chars_find_char(t.as_slice(), ':') {
        None => None,
        Some(k) => {
            assert(k < tl);
            let before = sub_chars(t.as_slice(), 0, k);
            let after = sub_chars(t.as_slice(), k + 1, tl);
            assert(before@ == t@.take(k as int));
            assert(after@ == t@.skip(k + 1));
            let key = trim_chars(before.as_slice());
            let value = trim_chars(after.as_slice());
            Some((string_from_chars(key.as_slice()), string_from_chars(value.as_slice())))
        },
    }
}

fn frontmatter_pairs_of(ls: &Vec<Vec<char>>) -> (out: Vec<(String, String)>)
    ensures
        pairs_view(out@) == frontmatter_pairs(char_vecs_view(ls@)),
{
    let mut out: Vec<(String, String)> = Vec::new();
    let mut i: usize = 0;
    while i < ls.len()
        invariant
            i <= ls.len(),
            pairs_view(out@) == frontmatter_pairs(char_vecs_view(ls@.take(i as int))),
        decreases ls.len() - i,
    {
        let ghost before = out@;
        assert(char_vecs_view(ls@.take(i + 1)).drop_last() =~= char_vecs_view(ls@.take(i as int)));
        assert(char_vecs_view(ls@.take(i + 1)).last() == ls@[i as int]@);
        match frontmatter_pair_of(ls[i].as_slice()) {
            Some(p) => {
                out.push(p);
                assert(pairs_view(out@) =~= pairs_view(before).push((out@.last().0@, out@.last().1@)));
            },
            None => {},
        }
        i += 1;
    }
    assert(ls@.take(ls.len() as int) =~= ls@);
    out
}

/// Splits a memory file into its frontmatter pairs and its body.
pub fn split_frontmatter(raw: &str) -> (out: (Vec<(String, String)>, String))
    ensures
        pairs_view(out.0@) == split_document(raw@).0,
        out.1@ == split_document(raw@).1,
{
    proof {
        reveal_strlit("---\n");
        reveal_strlit("\n---\n");
    }
    let chars = chars_of(raw);
    let n = replace_crlf_chars(chars.as_slice());
    let open = chars_of("---\n");
    if !chars_starts_with(n.as_slice(), open.as_slice()) {
        return (Vec::new(), string_from_chars(n.as_slice()));
    }
    let rest = sub_chars(n.as_slice(), 4, n.len());
    assert(rest@ == n@.skip(4));
    let close = chars_of("\n---\n");
    match chars_find(rest.as_slice(), close.as_slice()) {
        None => (Vec::new(), string_from_chars(n.as_slice())),
        Some(k) => {
            proof {
                crate::text::lemma_find_from(rest@, close@, 0);
            }
            let fm = sub_chars(rest.as_slice(), 0, k);
            let body = sub_chars(rest.as_slice(), k + 5, rest.len());
            assert(fm@ == rest@.take(k as int));
            assert(body@ == rest@.skip(k + 5));
            let ls = lines_chars(fm.as_slice());
            (frontmatter_pairs_of(&ls), string_from_chars(body.as_slice()))
        },
    }
}

/// The value of `key` in a frontmatter block: the last line that sets it.
pub fn frontmatter_get(pairs: &Vec<(String, String)>, key: &str) -> (out: Option<String>)
    ensures
        match out {
            None => frontmatter_value(pairs_view(pairs@), key@) is None,
            Some(v) => frontmatter_value(pairs_view(pairs@), key@) == Some(v@),
        },
{
    let ghost pv = pairs_view(pairs@);
    let mut i: usize = pairs.len();
    assert(pv.take(i as int) =~= pv);
    while i > 0
        invariant
            i <= pairs.len(),
            pv == pairs_view(pairs@),
            frontmatter_value(pv.take(i as int), key@) == frontmatter_value(pv, key@),
        decreases i,
    {
        assert(pv.take(i as int).drop_last() =~= pv.take(i - 1));
        assert(pv.take(i as int).last() == pv[i - 1]);
        if str_eq(pairs[i - 1].0.as_str(), key) {
            return Some(pairs[i - 1].1.clone());
        }
        i -= 1;
    }
    None
}

/// Seconds since the Unix epoch as a stored timestamp.
pub fn unix_timestamp(secs: u64) -> (out: Result<i64, String>)
    ensures
        match out {
            Ok(v) => secs <= i64::MAX && v == secs,
            Err(m) => secs > i64::MAX && m@ == "unix timestamp overflow"@,
        },
{
    if secs > 9223372036854775807u64 {
        Err("unix timestamp overflow".to_owned())
    } else {
        Ok(secs as i64)
    }
}

/// A stored timestamp as seconds since the Unix epoch.
pub fn from_unix_timestamp(value: i64) -> (out: Result<u64, String>)
    ensures
        match out {
            Ok(v) => value >= 0 && v == value,
            Err(m) => value < 0 && m@ == "negative unix timestamp"@,
        },
{
    if value < 0 {
        Err("negative unix timestamp".to_owned())
    } else {
        Ok(value as u64)
    }
}


/// What a frontmatter key holds, or `default` when no line sets it.
pub open spec fn value_or(pairs: Seq<(Seq<char>, Seq<char>)>, key: Seq<char>, default: Seq<char>) -> Seq<char> {
    match frontmatter_value(pairs, key) {
        Some(v) => v,
        None => default,
    }
}

/// A counter kept in the frontmatter: 0 when missing or not a `u32`.
pub open spec fn counter_value(pairs: Seq<(Seq<char>, Seq<char>)>, key: Seq<char>) -> u32 {
    match frontmatter_value(pairs, key) {
        Some(v) => match parsed_u32(v) {
            Some(n) => n,
            None => 0,
        },
        None => 0,
    }
}

/// A timestamp kept in the frontmatter, when it reads as an `i64`.
pub open spec fn time_value(pairs: Seq<(Seq<char>, Seq<char>)>, key: Seq<char>) -> Option<i64> {
    match frontmatter_value(pairs, key) {
        Some(v) => parsed_i64(v),
        None => None,
    }
}

/// Whether a read timestamp is before the Unix epoch.
pub open spec fn is_negative_time(t: Option<i64>) -> bool {
    match t {
        Some(v) => v < 0,
        None => false,
    }
}

/// The project memory stored in the file with the given id and text, read at
/// time `now`; `None` when a stored timestamp is before the Unix epoch.
pub open spec fn project_memory_view(id: Seq<char>, raw: Seq<char>, now: u64) -> Option<MemoryRecordView> {
    let (pairs, body) = split_document(raw);
    let created = time_value(pairs, "created_at"@);
    let updated = time_value(pairs, "updated_at"@);
    if is_negative_time(created) || is_negative_time(updated) {
        None
    } else {
        let created_at: u64 = match created {
            Some(c) => c as u64,
            None => now,
        };
        Some(
            MemoryRecordView {
                id,
                level: MemoryLevel::Project,
                scope: scope_from_text(value_or(pairs, "scope"@, "shared"@)),
                stable_id: id,
                memory_type: value_or(pairs, "type"@, "fact"@),
                topic: value_or(pairs, "topic"@, "general"@),
                title: body_title(body),
                content: body_content(body),
                tags: match frontmatter_value(pairs, "tags"@) {
                    Some(v) => split_ws(v),
                    None => Seq::empty(),
                },
                access_count: counter_value(pairs, "access_count"@),
                skip_count: counter_value(pairs, "skip_count"@),
                created_at,
                updated_at: match updated {
                    Some(u) => u as u64,
                    None => created_at,
                },
            },
        )
    }
}

fn counter_of(pairs: &Vec<(String, String)>, key: &str) -> (out: u32)
    ensures
        out == counter_value(pairs_view(pairs@), key@),
{
    match frontmatter_get(pairs, key) {
        Some(v) => match parse_u32(v.as_str()) {
            Some(n) => n,
            None => 0,
        },
        None => 0,
    }
}

fn time_of(pairs: &Vec<(String, String)>, key: &str) -> (out: Option<i64>)
    ensures
        out == time_value(pairs_view(pairs@), key@),
{
    match frontmatter_get(pairs, key) {
        Some(v) => parse_i64(v.as_str()),
        None => None,
    }
}

fn value_of(pairs: &Vec<(String, String)>, key: &str, default: &str) -> (out: String)
    ensures
        out@ == value_or(pairs_view(pairs@), key@, default@),
{
    match frontmatter_get(pairs, key) {
        Some(v) => v,
        None => default.to_owned(),
    }
}

/// Reads a project memory file. `id` is the file's name without `.md`, and
/// `now` (seconds since the Unix epoch) stands in for a missing creation time.
pub fn parse_project_memory_file(id: &str, raw: &str, now: u64) -> (out: Result<MemoryRecord, String>)
    ensures
        match out {
            Ok(r) => project_memory_view(id@, raw@, now) == Some(r@),
            Err(m) => project_memory_view(id@, raw@, now) is None && m@ == "negative unix timestamp"@,
        },
{
    let (pairs, body) = split_frontmatter(raw);
    let scope_raw = value_of(&pairs, "scope", "shared");
    let scope = MemoryScope::from_storage(scope_raw.as_str());
    let memory_type = value_of(&pairs, "type", "fact");
    let topic = value_of(&pairs, "topic", "general");
    let tags: Vec<String> = match frontmatter_get(&pairs, "tags") {
        Some(v) => {
            let chars = chars_of(v.as_str());
            let words = split_whitespace_chars(chars.as_slice());
            strings_of(&words)
        },
        None => Vec::new(),
    };
    let access_count = counter_of(&pairs, "access_count");
    let skip_count = counter_of(&pairs, "skip_count");
    let created_at: u64 = match time_of(&pairs, "created_at") {
        Some(c) => match from_unix_timestamp(c) {
            Ok(v) => v,
            Err(m) => {
                return Err(m);
            },
        },
        None => now,
    };
    let updated = time_of(&pairs, "updated_at");
    let updated_at: u64 = match updated {
        Some(u) => match from_unix_timestamp(u) {
            Ok(v) => v,
            Err(m) => {
                return Err(m);
            },
        },
        None => created_at,
    };
    let (title, content) = parse_memory_body(body.as_str());
    let record = MemoryRecord {
        id: id.to_owned(),
        level: MemoryLevel::Project,
        scope,
        stable_id: id.to_owned(),
        memory_type,
        topic,
        title,
        content,
        tags,
        access_count,
        skip_count,
        created_at,
        updated_at,
    };
    assert(record@.tags == project_memory_view(id@, raw@, now)->0.tags);
    Ok(record)
}

/// Strings holding the given character vectors.
pub fn strings_of(words: &Vec<Vec<char>>) -> (out: Vec<String>)
    ensures
        strings_view(out@) == char_vecs_view(words@),
{
    let mut out: Vec<String> = Vec::new();
    let mut i: usize = 0;
    while i < words.len()
        invariant
            i <= words.len(),
            strings_view(out@) == char_vecs_view(words@.take(i as int)),
        decreases words.len() - i,
    {
        let ghost before = out@;
        let s = string_from_chars(words[i].as_slice());
        out.push(s);
        assert(strings_view(out@) =~= strings_view(before).push(words@[i as int]@));
        assert(char_vecs_view(words@.take(i + 1)) =~= char_vecs_view(words@.take(i as int)).push(
            words@[i as int]@,
        ));
        i += 1;
    }
    assert(words@.take(words.len() as int) =~= words@);
    out
}


/// The text of a project memory file: the frontmatter keys in sorted order,
/// then the title as a heading and the content.
pub open spec fn memory_file_text(m: MemoryRecordView) -> Seq<char> {
    "---\n"@ + frontmatter_line("access_count"@, decimal(m.access_count as nat)) + frontmatter_line(
        "created_at"@,
        decimal(m.created_at as nat),
    ) + frontmatter_line("scope"@, scope_text(m.scope)) + frontmatter_line(
        "skip_count"@,
        decimal(m.skip_count as nat),
    ) + frontmatter_line("tags"@, join(m.tags, " "@)) + frontmatter_line("topic"@, m.topic)
        + frontmatter_line("type"@, m.memory_type) + frontmatter_line(
        "updated_at"@,
        decimal(m.updated_at as nat),
    ) + "---\n"@ + "# "@ + trim(m.title) + "\n\n"@ + trim(m.content) + "\n"@
}

/// One `key: value` line of a frontmatter block.
pub open spec fn frontmatter_line(key: Seq<char>, value: Seq<char>) -> Seq<char> {
    key + ": "@ + value + "\n"@
}

fn push_line(out: &mut String, key: &str, value: &str)
    ensures
        final(out)@ == old(out)@ + frontmatter_line(key@, value@),
{
    let ghost start = out@;
    push_str(out, key);
    push_str(out, ": ");
    push_str(out, value);
    push_str(out, "\n");
    assert(out@ =~= start + frontmatter_line(key@, value@));
}

/// The text written to a project memory's file. Fails when a timestamp does
/// not fit the signed 64-bit form in which it is stored.
pub fn project_memory_file_text(memory: &MemoryRecord) -> (out: Result<String, String>)
    ensures
        match out {
            Ok(text) => memory.created_at <= i64::MAX && memory.updated_at <= i64::MAX && text@
                == memory_file_text(memory@),
            Err(m) => (memory.created_at > i64::MAX || memory.updated_at > i64::MAX) && m@
                == "unix timestamp overflow"@,
        },
{
    let created = match unix_timestamp(memory.created_at) {
        Ok(v) => v,
        Err(m) => {
            return Err(m);
        },
    };
    let updated = match unix_timestamp(memory.updated_at) {
        Ok(v) => v,
        Err(m) => {
            return Err(m);
        },
    };
    let mut out = "---\n".to_owned();
    let access = u64_to_string(memory.access_count as u64);
    push_line(&mut out, "access_count", access.as_str());
    let created_text = u64_to_string(created as u64);
    push_line(&mut out, "created_at", created_text.as_str());
    let scope = memory.scope.as_storage();
    push_line(&mut out, "scope", scope.as_str());
    let skip = u64_to_string(memory.skip_count as u64);
    push_line(&mut out, "skip_count", skip.as_str());
    let tags = join_strings(&memory.tags, " ");
    push_line(&mut out, "tags", tags.as_str());
    push_line(&mut out, "topic", memory.topic.as_str());
    push_line(&mut out, "type", memory.memory_type.as_str());
    let updated_text = u64_to_string(updated as u64);
    push_line(&mut out, "updated_at", updated_text.as_str());
    push_str(&mut out, "---\n");
    push_str(&mut out, "# ");
    let title = trim_str(memory.title.as_str());
    push_str(&mut out, title.as_str());
    push_str(&mut out, "\n\n");
    let content = trim_str(memory.content.as_str());
    push_str(&mut out, content.as_str());
    push_str(&mut out, "\n");
    assert(out@ =~= memory_file_text(memory@));
    Ok(out)
}

/// The level a new memory is stored at: the one named, or else global for a
/// preference and project-level for everything else.
pub open spec fn inferred_level(explicit: Option<Seq<char>>, memory_type: Seq<char>) -> Result<MemoryLevel, Seq<char>> {
    match explicit {
        Some(e) => {
            let l = ascii_lower(trim(e));
            if l == "project"@ {
                Ok(MemoryLevel::Project)
            } else if l == "global"@ {
                Ok(MemoryLevel::Global)
            } else {
                Err("unsupported memory level "@ + l)
            }
        },
        None => if ascii_lower(trim(memory_type)) == ascii_lower("preference"@) {
            Ok(MemoryLevel::Global)
        } else {
            Ok(MemoryLevel::Project)
        },
    }
}

/// A level named explicitly is read without regard to case or surrounding
/// blanks: `project` stores the memory in the project, `global` globally,
/// whatever its type, and a name is refused exactly when it is neither, with
/// the lowered name in the message. With no level named, only a preference
/// is stored globally.
pub proof fn lemma_explicit_level_names(e: Seq<char>, memory_type: Seq<char>)
    ensures
        ascii_lower(trim(e)) == "project"@ ==> inferred_level(Some(e), memory_type) == Ok::<
            MemoryLevel,
            Seq<char>,
        >(MemoryLevel::Project),
        ascii_lower(trim(e)) == "global"@ ==> inferred_level(Some(e), memory_type) == Ok::<
            MemoryLevel,
            Seq<char>,
        >(MemoryLevel::Global),
        (inferred_level(Some(e), memory_type) is Err) <==> (ascii_lower(trim(e)) != "project"@ && ascii_lower(
            trim(e),
        ) != "global"@),
        inferred_level(Some(e), memory_type) is Err ==> inferred_level(Some(e), memory_type)->Err_0
            == "unsupported memory level "@ + ascii_lower(trim(e)),
        (inferred_level(None, memory_type) == Ok::<MemoryLevel, Seq<char>>(MemoryLevel::Global)) <==> ascii_lower(
            trim(memory_type),
        ) == ascii_lower("preference"@),
        inferred_level(None, memory_type) is Ok,
{
    reveal_strlit("project");
    reveal_strlit("global");
    assert("project"@.len() != "global"@.len());
}

pub fn infer_level(explicit: Option<&str>, memory_type: &str) -> (out: Result<MemoryLevel, String>)
    ensures
        match out {
            Ok(level) => inferred_level(opt_str_view(explicit), memory_type@) == Ok::<MemoryLevel, Seq<char>>(level),
            Err(m) => inferred_level(opt_str_view(explicit), memory_type@) == Err::<MemoryLevel, Seq<char>>(m@),
        },
{
    match explicit {
        Some(e) => {
            let t = trim_str(e);
            let l = to_ascii_lowercase(t.as_str());
            if str_eq(l.as_str(), "project") {
                Ok(MemoryLevel::Project)
            } else if str_eq(l.as_str(), "global") {
                Ok(MemoryLevel::Global)
            } else {
                let mut m = "unsupported memory level ".to_owned();
                push_str(&mut m, l.as_str());
                Err(m)
            }
        },
        None => {
            let t = trim_str(memory_type);
            if eq_ignore_ascii_case(t.as_str(), "preference") {
                Ok(MemoryLevel::Global)
            } else {
                Ok(MemoryLevel::Project)
            }
        },
    }
}

/// The plain value of an optional string slice.
pub open spec fn opt_str_view(s: Option<&str>) -> Option<Seq<char>> {
    match s {
        Some(v) => Some(v@),
        None => None,
    }
}

/// The stable id a memory is stored under: the id without surrounding whitespace.
pub fn normalize_stable_id(level: MemoryLevel, raw: &str) -> (out: String)
    ensures
        out@ == trim(raw@),
{
    match level {
        MemoryLevel::Project => trim_str(raw),
        MemoryLevel::Global => trim_str(raw),
    }
}

/// The scope a new memory gets: shared unless an agent is named; the active
/// agent's own name as given when it names that agent in another case.
pub open spec fn normalized_scope(explicit: Option<Seq<char>>, active_agent: Seq<char>) -> Option<Seq<char>> {
    match explicit {
        None => None,
        Some(e) => {
            let t = trim(e);
            if t.len() == 0 || ascii_lower(t) == ascii_lower("shared"@) {
                None
            } else if ascii_lower(t) == ascii_lower(active_agent) {
                Some(active_agent)
            } else {
                Some(t)
            }
        },
    }
}

pub fn normalize_scope(explicit: Option<&str>, active_agent: &str) -> (out: MemoryScope)
    ensures
        scope_agent(out) == normalized_scope(opt_str_view(explicit), active_agent@),
{
    match explicit {
        None => MemoryScope::Shared,
        Some(e) => {
            let t = trim_str(e);
            if t.as_str().is_empty() || eq_ignore_ascii_case(t.as_str(), "shared") {
                MemoryScope::Shared
            } else if eq_ignore_ascii_case(t.as_str(), active_agent) {
                MemoryScope::Agent(active_agent.to_owned())
            } else {
                MemoryScope::Agent(t)
            }
        },
    }
}

/// Tags without surrounding whitespace, the empty ones dropped and each kept
/// once, at its first place.
pub open spec fn cleaned_tags(tags: Seq<Seq<char>>) -> Seq<Seq<char>>
    decreases tags.len(),
{
    if tags.len() == 0 {
        Seq::empty()
    } else {
        let prev = cleaned_tags(tags.drop_last());
        let t = trim(tags.last());
        if t.len() == 0 || prev.contains(t) {
            prev
        } else {
            prev.push(t)
        }
    }
}

/// Whether `v` holds a string equal to `s`.
pub fn contains_string(v: &Vec<String>, s: &str) -> (out: bool)
    ensures
        out == strings_view(v@).contains(s@),
{
    let mut i: usize = 0;
    while i < v.len()
        invariant
            i <= v.len(),
            forall|k: int| 0 <= k < i ==> v@[k]@ != s@,
        decreases v.len() - i,
    {
        if str_eq(v[i].as_str(), s) {
            assert(strings_view(v@)[i as int] == s@);
            return true;
        }
        i += 1;
    }
    proof {
        if strings_view(v@).contains(s@) {
            let k = choose|k: int| 0 <= k < strings_view(v@).len() && strings_view(v@)[k] == s@;
            assert(v@[k]@ == s@);
        }
    }
    false
}

pub fn normalize_tags(tags: Vec<String>) -> (out: Vec<String>)
    ensures
        strings_view(out@) == cleaned_tags(strings_view(tags@)),
{
    let mut out: Vec<String> = Vec::new();
    let mut i: usize = 0;
    while i < tags.len()
        invariant
            i <= tags.len(),
            strings_view(out@) == cleaned_tags(strings_view(tags@.take(i as int))),
        decreases tags.len() - i,
    {
        let ghost before = out@;
        assert(strings_view(tags@.take(i + 1)).drop_last() =~= strings_view(tags@.take(i as int)));
        assert(strings_view(tags@.take(i + 1)).last() == tags@[i as int]@);
        let t = trim_str(tags[i].as_str());
        if !t.as_str().is_empty() && !contains_string(&out, t.as_str()) {
            out.push(t);
            assert(strings_view(out@) =~= strings_view(before).push(out@.last()@));
        }
        i += 1;
    }
    assert(tags@.take(tags.len() as int) =~= tags@);
    out
}

/// The first required field of a memory that is blank, as an error message.
pub open spec fn record_error(m: MemoryRecordView) -> Option<Seq<char>> {
    if trim(m.id).len() == 0 {
        Some("memory id cannot be empty"@)
    } else if trim(m.title).len() == 0 {
        Some("memory title cannot be empty"@)
    } else if trim(m.content).len() == 0 {
        Some("memory content cannot be empty"@)
    } else if trim(m.topic).len() == 0 {
        Some("memory topic cannot be empty"@)
    } else if trim(m.memory_type).len() == 0 {
        Some("memory_type cannot be empty"@)
    } else {
        None
    }
}

fn is_blank(s: &str) -> (out: bool)
    ensures
        out == (trim(s@).len() == 0),
{
    let t = trim_str(s);
    t.as_str().is_empty()
}

/// Checks that a memory has every required field.
pub fn validate_record(memory: &MemoryRecord) -> (out: Result<(), String>)
    ensures
        match out {
            Ok(()) => record_error(memory@) is None,
            Err(m) => record_error(memory@) == Some(m@),
        },
{
    if is_blank(memory.id.as_str()) {
        return Err("memory id cannot be empty".to_owned());
    }
    if is_blank(memory.title.as_str()) {
        return Err("memory title cannot be empty".to_owned());
    }
    if is_blank(memory.content.as_str()) {
        return Err("memory content cannot be empty".to_owned());
    }
    if is_blank(memory.topic.as_str()) {
        return Err("memory topic cannot be empty".to_owned());
    }
    if is_blank(memory.memory_type.as_str()) {
        return Err("memory_type cannot be empty".to_owned());
    }
    Ok(())
}

/// The numeric row id of a global memory, from its id text.
pub fn parse_global_numeric_id(raw: &str) -> (out: Result<i64, String>)
    ensures
        match out {
            Ok(v) => parsed_i64(trim(raw@)) == Some(v),
            Err(m) => parsed_i64(trim(raw@)) is None && m@ == "invalid global memory id "@ + raw@,
        },
{
    let t = trim_str(raw);
    match parse_i64(t.as_str()) {
        Some(v) => Ok(v),
        None => {
            let mut m = "invalid global memory id ".to_owned();
            push_str(&mut m, raw);
            Err(m)
        },
    }
}

} // verus!
