use vstd::prelude::*;

use crate::settings::{
    agent_mention_name, normalize_agent_name, optional_text, AgentProfileRecord,
    ProviderSettingsSnapshot, DEFAULT_AVATAR_COLOR,
};
use crate::text::{
    chars_find, chars_of, chars_starts_with, first_occurrence, lemma_find_from, lines,
    lines_chars, push_str, starts_with, string_from_chars, sub_chars, trim, trim_chars, trim_str,
    char_vecs_view, find_char_from, chars_find_char, chars_lt, str_lt, str_eq,
    lemma_chars_lt_irreflexive, lemma_chars_lt_total, lemma_chars_lt_transitive,
};

verus! {

broadcast use vstd::string::group_string_axioms;

/// The name of the built-in agent.
pub const MARCH_AGENT_NAME: &'static str = "march";

/// The scope name of memories that every agent sees.
pub const SHARED_SCOPE: &'static str = "shared";

/// Where an agent profile was defined.
#[derive(Debug, Clone, Copy, PartialEq, Eq, Structural)]
pub enum AgentProfileSource {
    BuiltIn,
    User,
    Project,
}

/// An agent the user can talk to with `@name`.
#[derive(Debug, Clone, PartialEq, Eq)]
pub struct AgentProfile {
    pub name: String,
    pub display_name: String,
    pub description: String,
    pub system_prompt: String,
    pub avatar_color: String,
    pub provider_id: Option<i64>,
    pub model_id: Option<String>,
    pub source: AgentProfileSource,
}

/// The plain value of an agent profile.
pub struct AgentProfileView {
    pub name: Seq<char>,
    pub display_name: Seq<char>,
    pub description: Seq<char>,
    pub system_prompt: Seq<char>,
    pub avatar_color: Seq<char>,
    pub provider_id: Option<i64>,
    pub model_id: Option<Seq<char>>,
    pub source: AgentProfileSource,
}

/// The plain value of an optional string.
pub open spec fn opt_view(s: Option<String>) -> Option<Seq<char>> {
    match s {
        Some(v) => Some(v@),
        None => None,
    }
}

impl View for AgentProfile {
    type V = AgentProfileView;

    open spec fn view(&self) -> AgentProfileView {
        AgentProfileView {
            name: self.name@,
            display_name: self.display_name@,
            description: self.description@,
            system_prompt: self.system_prompt@,
            avatar_color: self.avatar_color@,
            provider_id: self.provider_id,
            model_id: opt_view(self.model_id),
            source: self.source,
        }
    }
}

/// The description of the built-in agent.
pub const MARCH_DESCRIPTION: &'static str = "默认通用搭档，负责通用 coding、查证和推进。";

impl AgentProfile {
    /// The built-in agent, with the given system prompt.
    pub fn built_in_march(system_prompt: String) -> (out: AgentProfile)
        ensures
            out@ == (AgentProfileView {
                name: MARCH_AGENT_NAME@,
                display_name: "March"@,
                description: MARCH_DESCRIPTION@,
                system_prompt: system_prompt@,
                avatar_color: DEFAULT_AVATAR_COLOR@,
                provider_id: None,
                model_id: None,
                source: AgentProfileSource::BuiltIn,
            }),
    {
        AgentProfile {
            name: MARCH_AGENT_NAME.to_owned(),
            display_name: "March".to_owned(),
            description: MARCH_DESCRIPTION.to_owned(),
            system_prompt,
            avatar_color: DEFAULT_AVATAR_COLOR.to_owned(),
            provider_id: None,
            model_id: None,
            source: AgentProfileSource::BuiltIn,
        }
    }
}

/// Index of the first character at or after `i` that is not `c`.
pub open spec fn lead_end(s: Seq<char>, c: char, i: int) -> int
    decreases s.len() - i,
{
    if 0 <= i < s.len() && s[i] == c {
        lead_end(s, c, i + 1)
    } else {
        i
    }
}

/// Index just past the last character before `j`, and not before `lo`, that is not `c`.
pub open spec fn trail_start(s: Seq<char>, c: char, lo: int, j: int) -> int
    decreases j,
{
    if 0 <= lo < j <= s.len() && s[j - 1] == c {
        trail_start(s, c, lo, j - 1)
    } else {
        j
    }
}

/// `s` without any `c` at either end (`str::trim_matches` with a character).
pub open spec fn trim_char(s: Seq<char>, c: char) -> Seq<char> {
    let i = lead_end(s, c, 0);
    s.subrange(i, trail_start(s, c, i, s.len() as int))
}

proof fn lemma_lead_end(s: Seq<char>, c: char, i: int)
    requires
        0 <= i <= s.len(),
    ensures
        i <= lead_end(s, c, i) <= s.len(),
    decreases s.len() - i,
{
    if i < s.len() && s[i] == c {
        lemma_lead_end(s, c, i + 1);
    }
}

proof fn lemma_trail_start(s: Seq<char>, c: char, lo: int, j: int)
    requires
        0 <= lo <= j <= s.len(),
    ensures
        lo <= trail_start(s, c, lo, j) <= j,
    decreases j,
{
    if lo < j && s[j - 1] == c {
        lemma_trail_start(s, c, lo, j - 1);
    }
}

/// Removes every `c` at either end of `s`.
pub fn trim_char_chars(s: &[char], c: char) -> (out: Vec<char>)
    ensures
        out@ == trim_char(s@, c),
{
    let mut i: usize = 0;
    while i < s.len() && s[i] == c
        invariant
            i <= s.len(),
            lead_end(s@, c, i as int) == lead_end(s@, c, 0),
        decreases s.len() - i,
    {
        i += 1;
    }
    let mut j: usize = s.len();
    while j > i && s[j - 1] == c
        invariant
            i <= j <= s.len(),
            trail_start(s@, c, i as int, j as int) == trail_start(s@, c, i as int, s.len() as int),
        decreases j,
    {
        j -= 1;
    }
    sub_chars(s, i, j)
}

/// A frontmatter value with its wrapping quotes removed.
pub open spec fn unquoted(raw: Seq<char>) -> Seq<char> {
    trim_char(trim_char(raw, '"'), '\'')
}

/// Removes double quotes, then single quotes, from both ends of a value.
pub fn trim_wrapped_quotes(raw: &str) -> (out: String)
    ensures
        out@ == unquoted(raw@),
{
    let chars = chars_of(raw);
    let a = trim_char_chars(chars.as_slice(), '"');
    let b = trim_char_chars(a.as_slice(), '\'');
    string_from_chars(b.as_slice())
}

/// A model binding: the trimmed text, none when blank or missing.
pub open spec fn model_binding(raw: Option<Seq<char>>) -> Option<Seq<char>> {
    match raw {
        Some(r) => optional_text(r),
        None => None,
    }
}

/// The plain value of an optional string slice.
pub open spec fn opt_str_view(s: Option<&str>) -> Option<Seq<char>> {
    match s {
        Some(v) => Some(v@),
        None => None,
    }
}

pub fn parse_model_binding(raw: Option<&str>) -> (out: Option<String>)
    ensures
        opt_view(out) == model_binding(opt_str_view(raw)),
{
    match raw {
        Some(r) => {
            let t = trim_str(r);
            if t.as_str().is_empty() {
                None
            } else {
                Some(t)
            }
        },
        None => None,
    }
}

/// Index of the first line, at or after `i`, that is not blank; `ls.len()` when none is.
pub open spec fn first_filled(ls: Seq<Seq<char>>, i: int) -> int
    decreases ls.len() - i,
{
    if 0 <= i < ls.len() && trim(ls[i]).len() == 0 {
        first_filled(ls, i + 1)
    } else {
        i
    }
}

proof fn lemma_first_filled(ls: Seq<Seq<char>>, i: int)
    requires
        0 <= i <= ls.len(),
    ensures
        i <= first_filled(ls, i) <= ls.len(),
        first_filled(ls, i) < ls.len() ==> trim(ls[first_filled(ls, i)]).len() > 0,
    decreases ls.len() - i,
{
    if i < ls.len() && trim(ls[i]).len() == 0 {
        lemma_first_filled(ls, i + 1);
    }
}

/// The first non-blank line of a text, trimmed.
pub open spec fn first_filled_line(text: Seq<char>) -> Option<Seq<char>> {
    let ls = lines(text);
    let k = first_filled(ls, 0);
    if k < ls.len() {
        Some(trim(ls[k]))
    } else {
        None
    }
}

fn first_filled_line_of(text: &str) -> (out: Option<Vec<char>>)
    ensures
        match out {
            Some(l) => first_filled_line(text@) == Some(l@),
            None => first_filled_line(text@) is None,
        },
{
    let chars = chars_of(text);
    let ls = lines_chars(chars.as_slice());
    let ghost lv = char_vecs_view(ls@);
    let mut i: usize = 0;
    while i < ls.len()
        invariant
            i <= ls.len(),
            lv == char_vecs_view(ls@),
            lv == lines(text@),
            first_filled(lv, i as int) == first_filled(lv, 0),
        decreases ls.len() - i,
    {
        let t = trim_chars(ls[i].as_slice());
        assert(lv[i as int] == ls@[i as int]@);
        if t.len() > 0 {
            return Some(t);
        }
        i += 1;
    }
    None
}

/// Whether `c` is trimmed from the ends of a summary line.
pub open spec fn is_summary_trim(c: char) -> bool {
    c == '"' || c == '\'' || c == '。' || c == '.' || c == '：' || c == ':'
}

/// Index of the first character at or after `i` that is not trimmed from a summary.
pub open spec fn summary_lead(s: Seq<char>, i: int) -> int
    decreases s.len() - i,
{
    if 0 <= i < s.len() && is_summary_trim(s[i]) {
        summary_lead(s, i + 1)
    } else {
        i
    }
}

/// Index just past the last character before `j`, not before `lo`, that is kept.
pub open spec fn summary_trail(s: Seq<char>, lo: int, j: int) -> int
    decreases j,
{
    if 0 <= lo < j <= s.len() && is_summary_trim(s[j - 1]) {
        summary_trail(s, lo, j - 1)
    } else {
        j
    }
}

/// A line without quotes, full stops and colons at its ends.
pub open spec fn summary_core(s: Seq<char>) -> Seq<char> {
    let i = summary_lead(s, 0);
    s.subrange(i, summary_trail(s, i, s.len() as int))
}

proof fn lemma_summary_bounds(s: Seq<char>, i: int, lo: int, j: int)
    requires
        0 <= i <= s.len(),
        0 <= lo <= j <= s.len(),
    ensures
        i <= summary_lead(s, i) <= s.len(),
        lo <= summary_trail(s, lo, j) <= j,
    decreases s.len() - i + j,
{
    if i < s.len() && is_summary_trim(s[i]) {
        lemma_summary_bounds(s, i + 1, lo, j);
    } else if lo < j && is_summary_trim(s[j - 1]) {
        lemma_summary_bounds(s, i, lo, j - 1);
    }
}

fn summary_core_chars(s: &[char]) -> (out: Vec<char>)
    ensures
        out@ == summary_core(s@),
{
    let mut i: usize = 0;
    while i < s.len() && (s[i] == '"' || s[i] == '\'' || s[i] == '。' || s[i] == '.' || s[i] == '：'
        || s[i] == ':')
        invariant
            i <= s.len(),
            summary_lead(s@, i as int) == summary_lead(s@, 0),
        decreases s.len() - i,
    {
        i += 1;
    }
    let mut j: usize = s.len();
    while j > i && (s[j - 1] == '"' || s[j - 1] == '\'' || s[j - 1] == '。' || s[j - 1] == '.'
        || s[j - 1] == '：' || s[j - 1] == ':')
        invariant
            i <= j <= s.len(),
            summary_trail(s@, i as int, j as int) == summary_trail(s@, i as int, s.len() as int),
        decreases j,
    {
        j -= 1;
    }
    sub_chars(s, i, j)
}

/// The first `n` characters of `s`, or all of it.
pub open spec fn take_chars(s: Seq<char>, n: nat) -> Seq<char> {
    if s.len() <= n {
        s
    } else {
        s.take(n as int)
    }
}

fn take_chars_of(s: &[char], n: usize) -> (out: Vec<char>)
    ensures
        out@ == take_chars(s@, n as nat),
{
    if s.len() <= n {
        sub_chars(s, 0, s.len())
    } else {
        sub_chars(s, 0, n)
    }
}

/// The description made up for an agent that has none.
pub open spec fn fallback_description(display_name: Seq<char>) -> Seq<char> {
    "负责 "@ + display_name + " 相关工作。"@
}

fn fallback_description_of(display_name: &str) -> (out: String)
    ensures
        out@ == fallback_description(display_name@),
{
    let mut out = "负责 ".to_owned();
    push_str(&mut out, display_name);
    push_str(&mut out, " 相关工作。");
    out
}

/// A description taken from an agent's prompt: its first non-blank line,
/// without wrapping quotes, full stops or colons, cut to 60 characters.
pub open spec fn summarized_description(display_name: Seq<char>, system_prompt: Seq<char>) -> Seq<char> {
    match first_filled_line(system_prompt) {
        Some(line) => if summary_core(line).len() > 0 {
            take_chars(summary_core(line), 60)
        } else {
            fallback_description(display_name)
        },
        None => fallback_description(display_name),
    }
}

pub fn summarize_agent_description(display_name: &str, system_prompt: &str) -> (out: String)
    ensures
        out@ == summarized_description(display_name@, system_prompt@),
{
    match first_filled_line_of(system_prompt) {
        Some(line) => {
            let core = summary_core_chars(line.as_slice());
            if core.len() > 0 {
                let cut = take_chars_of(core.as_slice(), 60);
                string_from_chars(cut.as_slice())
            } else {
                fallback_description_of(display_name)
            }
        },
        None => fallback_description_of(display_name),
    }
}

/// An agent's description: the one given, trimmed, or one made from its prompt.
pub open spec fn agent_description(
    explicit: Option<Seq<char>>,
    display_name: Seq<char>,
    system_prompt: Seq<char>,
) -> Seq<char> {
    match explicit {
        Some(e) => if trim(e).len() > 0 {
            trim(e)
        } else {
            summarized_description(display_name, system_prompt)
        },
        None => summarized_description(display_name, system_prompt),
    }
}

pub fn normalize_agent_description(
    explicit: Option<String>,
    display_name: &str,
    system_prompt: &str,
) -> (out: String)
    ensures
        out@ == agent_description(opt_view(explicit), display_name@, system_prompt@),
{
    match explicit {
        Some(e) => {
            let t = trim_str(e.as_str());
            if t.as_str().is_empty() {
                summarize_agent_description(display_name, system_prompt)
            } else {
                t
            }
        },
        None => summarize_agent_description(display_name, system_prompt),
    }
}


/// Index of the first character at or after `i` that is not a byte order mark.
pub open spec fn bom_end(s: Seq<char>, i: int) -> int
    decreases s.len() - i,
{
    if 0 <= i < s.len() && s[i] == '\u{feff}' {
        bom_end(s, i + 1)
    } else {
        i
    }
}

/// An agent file split into its frontmatter, when it has one, and its body.
/// Leading byte order marks are dropped; the file opens with a `---` line
/// ended by `\n` or `\r\n`, and the frontmatter runs to the next line that
/// starts with `---` (with the same line ending).
pub open spec fn agent_document(content: Seq<char>) -> (Option<Seq<char>>, Seq<char>) {
    let n = content.skip(bom_end(content, 0));
    let crlf = starts_with(n, "---\r\n"@);
    if !starts_with(n, "---\n"@) && !crlf {
        (None, n)
    } else {
        let sep = if crlf {
            "\r\n---"@
        } else {
            "\n---"@
        };
        let start: int = if crlf {
            5
        } else {
            4
        };
        let rest = n.skip(start);
        let k = first_occurrence(rest, sep);
        if k < 0 {
            (None, n)
        } else {
            let body = rest.skip(k + sep.len());
            let body = if starts_with(body, "\r\n"@) {
                body.skip(2)
            } else if starts_with(body, "\n"@) {
                body.skip(1)
            } else {
                body
            };
            (Some(rest.take(k)), body)
        }
    }
}

proof fn lemma_bom_end(s: Seq<char>, i: int)
    requires
        0 <= i <= s.len(),
    ensures
        i <= bom_end(s, i) <= s.len(),
    decreases s.len() - i,
{
    if i < s.len() && s[i] == '\u{feff}' {
        lemma_bom_end(s, i + 1);
    }
}

/// Splits an agent file into its frontmatter, if any, and its body.
pub fn split_frontmatter(content: &str) -> (out: (Option<String>, String))
    ensures
        opt_view(out.0) == agent_document(content@).0,
        out.1@ == agent_document(content@).1,
{
    proof {
        reveal_strlit("---\r\n");
        reveal_strlit("---\n");
        reveal_strlit("\r\n---");
        reveal_strlit("\n---");
        reveal_strlit("\r\n");
        reveal_strlit("\n");
    }
    let chars = chars_of(content);
    let mut b: usize = 0;
    while b < chars.len() && chars[b] == '\u{feff}'
        invariant
            b <= chars.len(),
            bom_end(chars@, b as int) == bom_end(chars@, 0),
        decreases chars.len() - b,
    {
        b += 1;
    }
    let n = sub_chars(chars.as_slice(), b, chars.len());
    assert(n@ == chars@.skip(b as int));
    let crlf_open = chars_of("---\r\n");
    let lf_open = chars_of("---\n");
    let crlf = chars_starts_with(n.as_slice(), crlf_open.as_slice());
    if !chars_starts_with(n.as_slice(), lf_open.as_slice()) && !crlf {
        return (None, string_from_chars(n.as_slice()));
    }
    let sep = if crlf {
        chars_of("\r\n---")
    } else {
        chars_of("\n---")
    };
    let start: usize = if crlf {
        5
    } else {
        4
    };
    let rest = sub_chars(n.as_slice(), start, n.len());
    assert(rest@ == n@.skip(start as int));
    match chars_find(rest.as_slice(), sep.as_slice()) {
        None => (None, string_from_chars(n.as_slice())),
        Some(k) => {
            proof {
                lemma_find_from(rest@, sep@, 0);
            }
            let fm = sub_chars(rest.as_slice(), 0, k);
            assert(fm@ == rest@.take(k as int));
            let body = sub_chars(rest.as_slice(), k + sep.len(), rest.len());
            assert(body@ == rest@.skip(k + sep@.len()));
            let crlf_mark = chars_of("\r\n");
            let lf_mark = chars_of("\n");
            let body2 = if chars_starts_with(body.as_slice(), crlf_mark.as_slice()) {
                sub_chars(body.as_slice(), 2, body.len())
            } else if chars_starts_with(body.as_slice(), lf_mark.as_slice()) {
                sub_chars(body.as_slice(), 1, body.len())
            } else {
                sub_chars(body.as_slice(), 0, body.len())
            };
            assert(body@.subrange(0, body@.len() as int) =~= body@);
            assert(body@.subrange(2, body@.len() as int) =~= body@.skip(2));
            assert(body@.subrange(1, body@.len() as int) =~= body@.skip(1));
            (Some(string_from_chars(fm.as_slice())), string_from_chars(body2.as_slice()))
        },
    }
}

/// A frontmatter line of an agent file read as a setting: the key before the
/// first `:` and the unquoted value after it. Blank lines and `#` comments set nothing.
pub open spec fn agent_setting(line: Seq<char>) -> Option<(Seq<char>, Seq<char>)> {
    let t = trim(line);
    let k = find_char_from(t, ':', 0);
    if t.len() == 0 || t[0] == '#' || k < 0 {
        None
    } else {
        Some((trim(t.take(k)), unquoted(trim(t.skip(k + 1)))))
    }
}

/// The value the last line that sets `key` gives it.
pub open spec fn agent_field(ls: Seq<Seq<char>>, key: Seq<char>) -> Option<Seq<char>>
    decreases ls.len(),
{
    if ls.len() == 0 {
        None
    } else {
        match agent_setting(ls.last()) {
            Some(kv) => if kv.0 == key {
                Some(kv.1)
            } else {
                agent_field(ls.drop_last(), key)
            },
            None => agent_field(ls.drop_last(), key),
        }
    }
}

fn agent_setting_of(line: &[char]) -> (out: Option<(String, String)>)
    ensures
        match out {
            None => agent_setting(line@) is None,
            Some(kv) => agent_setting(line@) == Some((kv.0@, kv.1@)),
        },
{
    let t = trim_chars(line);
    let tl = t.len();
    if tl == 0 || t[0] == '#' {
        return None;
    }
    match chars_find_char(t.as_slice(), ':') {
        None => None,
        Some(k) => {
            assert(k < tl);
            let before = sub_chars(t.as_slice(), 0, k);
            let after = sub_chars(t.as_slice(), k + 1, tl);
            assert(before@ == t@.take(k as int));
            assert(after@ == t@.skip(k + 1));
            let key = trim_chars(before.as_slice());
            let value = trim_chars(after.as_slice());
            let value_text = string_from_chars(value.as_slice());
            Some((string_from_chars(key.as_slice()), trim_wrapped_quotes(value_text.as_str())))
        },
    }
}

/// The settings of an agent file's frontmatter: name, display name,
/// description, avatar color and model, each as the last line sets it.
fn agent_settings_of(frontmatter: &str) -> (out: (
    Option<String>,
    Option<String>,
    Option<String>,
    Option<String>,
    Option<String>,
))
    ensures
        opt_view(out.0) == agent_field(lines(frontmatter@), "name"@),
        opt_view(out.1) == agent_field(lines(frontmatter@), "display_name"@),
        opt_view(out.2) == agent_field(lines(frontmatter@), "description"@),
        opt_view(out.3) == agent_field(lines(frontmatter@), "avatar_color"@),
        opt_view(out.4) == agent_field(lines(frontmatter@), "model"@),
{
    let chars = chars_of(frontmatter);
    let ls = lines_chars(chars.as_slice());
    let ghost lv = char_vecs_view(ls@);
    let mut name: Option<String> = None;
    let mut display_name: Option<String> = None;
    let mut description: Option<String> = None;
    let mut avatar_color: Option<String> = None;
    let mut model: Option<String> = None;
    let mut i: usize = 0;
    while i < ls.len()
        invariant
            i <= ls.len(),
            lv == char_vecs_view(ls@),
            opt_view(name) == agent_field(lv.take(i as int), "name"@),
            opt_view(display_name) == agent_field(lv.take(i as int), "display_name"@),
            opt_view(description) == agent_field(lv.take(i as int), "description"@),
            opt_view(avatar_color) == agent_field(lv.take(i as int), "avatar_color"@),
            opt_view(model) == agent_field(lv.take(i as int), "model"@),
        decreases ls.len() - i,
    {
        assert(lv.take(i + 1).drop_last() =~= lv.take(i as int));
        assert(lv.take(i + 1).last() == ls@[i as int]@);
        proof {
            reveal_strlit("name");
            reveal_strlit("display_name");
            reveal_strlit("description");
            reveal_strlit("avatar_color");
            reveal_strlit("model");
            assert("name"@.len() != "display_name"@.len());
            assert("name"@.len() != "description"@.len());
            assert("name"@.len() != "avatar_color"@.len());
            assert("name"@[0] != "model"@[0]);
            assert("display_name"@[0] != "description"@[1]);
            assert("display_name"@.len() != "description"@.len());
            assert("display_name"@[0] != "avatar_color"@[0]);
            assert("display_name"@.len() != "model"@.len());
            assert("description"@.len() != "avatar_color"@.len());
            assert("description"@.len() != "model"@.len());
            assert("avatar_color"@.len() != "model"@.len());
        }
        match agent_setting_of(ls[i].as_slice()) {
            Some(kv) => {
                let (key, value) = kv;
                if crate::text::str_eq(key.as_str(), "name") {
                    name = Some(value);
                } else if crate::text::str_eq(key.as_str(), "display_name") {
                    display_name = Some(value);
                } else if crate::text::str_eq(key.as_str(), "description") {
                    description = Some(value);
                } else if crate::text::str_eq(key.as_str(), "avatar_color") {
                    avatar_color = Some(value);
                } else if crate::text::str_eq(key.as_str(), "model") {
                    model = Some(value);
                }
            },
            None => {},
        }
        i += 1;
    }
    assert(lv.take(ls.len() as int) =~= lv);
    (name, display_name, description, avatar_color, model)
}


/// The profile an agent file defines, if any. `stem` is the file name without
/// its extension; `in_user_dir` tells whether the file is in the user's own
/// agents directory rather than the project's.
pub open spec fn parsed_agent(stem: Option<Seq<char>>, content: Seq<char>, in_user_dir: bool) -> Option<
    AgentProfileView,
> {
    if trim(content).len() == 0 {
        None
    } else {
        let (fm, body) = agent_document(content);
        let ls = lines(
            match fm {
                Some(f) => f,
                None => Seq::empty(),
            },
        );
        let stem_text = trim(
            match stem {
                Some(st) => st,
                None => "agent"@,
            },
        );
        let name = agent_mention_name(
            match agent_field(ls, "name"@) {
                Some(n) => n,
                None => stem_text,
            },
        );
        if name.len() == 0 {
            None
        } else {
            let display_name = match agent_field(ls, "display_name"@) {
                Some(d) => d,
                None => name,
            };
            let system_prompt = trim(body);
            Some(
                AgentProfileView {
                    name,
                    display_name,
                    description: agent_description(
                        agent_field(ls, "description"@),
                        display_name,
                        system_prompt,
                    ),
                    system_prompt,
                    avatar_color: match agent_field(ls, "avatar_color"@) {
                        Some(a) => a,
                        None => DEFAULT_AVATAR_COLOR@,
                    },
                    provider_id: None,
                    model_id: model_binding(agent_field(ls, "model"@)),
                    source: if in_user_dir {
                        AgentProfileSource::User
                    } else {
                        AgentProfileSource::Project
                    },
                },
            )
        }
    }
}

/// Reads the agent profile an agent file defines.
pub fn parse_agent_profile(stem: Option<&str>, content: &str, in_user_dir: bool) -> (out: Option<
    AgentProfile,
>)
    ensures
        match out {
            Some(p) => parsed_agent(opt_str_view(stem), content@, in_user_dir) == Some(p@),
            None => parsed_agent(opt_str_view(stem), content@, in_user_dir) is None,
        },
{
    let trimmed = trim_str(content);
    if trimmed.as_str().is_empty() {
        return None;
    }
    let (frontmatter, body) = split_frontmatter(content);
    let fm_text = match frontmatter {
        Some(f) => f,
        None => String::new(),
    };
    let (name, display_name, description, avatar_color, model) = agent_settings_of(fm_text.as_str());
    let stem_text = match stem {
        Some(st) => trim_str(st),
        None => "agent".to_owned(),
    };
    proof {
        reveal_strlit("agent");
        assert(trim("agent"@) =~= "agent"@) by {
            assert(!crate::text::is_ws("agent"@[0]));
            assert(!crate::text::is_ws("agent"@[4]));
            crate::text::lemma_ws_prefix_end_bounds("agent"@, 0);
            crate::text::lemma_ws_suffix_start_bounds("agent"@, 5);
        }
    }
    let raw_name = match name {
        Some(n) => n,
        None => stem_text,
    };
    let name = normalize_agent_name(raw_name.as_str());
    if name.as_str().is_empty() {
        return None;
    }
    let model_id = parse_model_binding(
        match &model {
            Some(m) => Some(m.as_str()),
            None => None,
        },
    );
    let display_name = match display_name {
        Some(d) => d,
        None => name.clone(),
    };
    let system_prompt = trim_str(body.as_str());
    let description = normalize_agent_description(
        description,
        display_name.as_str(),
        system_prompt.as_str(),
    );
    let avatar_color = match avatar_color {
        Some(a) => a,
        None => DEFAULT_AVATAR_COLOR.to_owned(),
    };
    Some(
        AgentProfile {
            name,
            display_name,
            description,
            system_prompt,
            avatar_color,
            provider_id: None,
            model_id,
            source: if in_user_dir {
                AgentProfileSource::User
            } else {
                AgentProfileSource::Project
            },
        },
    )
}


/// The plain values of a list of profiles.
pub open spec fn profiles_view(v: Seq<AgentProfile>) -> Seq<AgentProfileView> {
    v.map_values(|p: AgentProfile| p@)
}

/// Profiles in strictly increasing order of name, so each name occurs once.
pub open spec fn names_sorted(v: Seq<AgentProfileView>) -> bool {
    forall|i: int, j: int| 0 <= i < j < v.len() ==> chars_lt(#[trigger] v[i].name, #[trigger] v[j].name)
}

/// The last profile of `all` with the given name: the definition that wins.
pub open spec fn last_named(all: Seq<AgentProfileView>, name: Seq<char>) -> Option<AgentProfileView>
    decreases all.len(),
{
    if all.len() == 0 {
        None
    } else if all.last().name == name {
        Some(all.last())
    } else {
        last_named(all.drop_last(), name)
    }
}

/// Whether some profile of `v` has the given name.
pub open spec fn has_name(v: Seq<AgentProfileView>, name: Seq<char>) -> bool {
    exists|i: int| 0 <= i < v.len() && #[trigger] v[i].name == name
}

/// `out` holds, once each, the winning definition of every name defined in `all`.
pub open spec fn winning_profiles(out: Seq<AgentProfileView>, all: Seq<AgentProfileView>) -> bool {
    &&& forall|i: int| 0 <= i < out.len() ==> last_named(all, #[trigger] out[i].name) == Some(out[i])
    &&& forall|k: int| 0 <= k < all.len() ==> has_name(out, #[trigger] all[k].name)
}

/// `after` is `before` with `pv` added in order of name, in place of the
/// profile of the same name if there was one.
pub open spec fn upserted(after: Seq<AgentProfileView>, before: Seq<AgentProfileView>, pv: AgentProfileView) -> bool {
    &&& names_sorted(after)
    &&& after.contains(pv)
    &&& forall|m: int|
        0 <= m < after.len() ==> #[trigger] after[m] == pv || (after[m].name != pv.name
            && before.contains(after[m]))
    &&& forall|j: int| 0 <= j < before.len() && #[trigger] before[j].name != pv.name ==> after.contains(before[j])
}

proof fn lemma_upsert_replace(before: Seq<AgentProfileView>, i: int, pv: AgentProfileView)
    requires
        names_sorted(before),
        0 <= i < before.len(),
        before[i].name == pv.name,
    ensures
        upserted(before.update(i, pv), before, pv),
{
    let after = before.update(i, pv);
    assert(after[i] == pv);
    assert forall|j: int| 0 <= j < before.len() && #[trigger] before[j].name != pv.name implies after.contains(
        before[j],
    ) by {
        assert(after[j] == before[j]);
    }
    assert forall|m: int| 0 <= m < after.len() implies #[trigger] after[m] == pv || (after[m].name
        != pv.name && before.contains(after[m])) by {
        if m != i {
            assert(before[m] == after[m]);
            if after[m].name == pv.name {
                if m < i {
                    assert(chars_lt(before[m].name, before[i].name));
                } else {
                    assert(chars_lt(before[i].name, before[m].name));
                }
                lemma_chars_lt_irreflexive(pv.name);
            }
        }
    }
}

proof fn lemma_upsert_insert(before: Seq<AgentProfileView>, i: int, pv: AgentProfileView)
    requires
        names_sorted(before),
        0 <= i <= before.len(),
        forall|k: int| 0 <= k < i ==> chars_lt(#[trigger] before[k].name, pv.name),
        i < before.len() ==> chars_lt(pv.name, before[i].name),
    ensures
        upserted(before.insert(i, pv), before, pv),
{
    let after = before.insert(i, pv);
    assert(after[i] == pv);
    assert forall|a: int, b: int| 0 <= a < b < after.len() implies chars_lt(
        #[trigger] after[a].name,
        #[trigger] after[b].name,
    ) by {
        if b < i {
            assert(after[a] == before[a] && after[b] == before[b]);
        } else if b == i {
            assert(after[a] == before[a]);
        } else if a < i {
            assert(after[a] == before[a] && after[b] == before[b - 1]);
            assert(chars_lt(before[a].name, pv.name));
            if b - 1 > i {
                assert(chars_lt(before[i].name, before[b - 1].name));
                lemma_chars_lt_transitive(pv.name, before[i].name, before[b - 1].name);
            }
            lemma_chars_lt_transitive(before[a].name, pv.name, before[b - 1].name);
        } else if a == i {
            assert(after[b] == before[b - 1]);
            if b - 1 > i {
                assert(chars_lt(before[i].name, before[b - 1].name));
                lemma_chars_lt_transitive(pv.name, before[i].name, before[b - 1].name);
            }
        } else {
            assert(after[a] == before[a - 1] && after[b] == before[b - 1]);
        }
    }
    assert forall|j: int| 0 <= j < before.len() && #[trigger] before[j].name != pv.name implies after.contains(
        before[j],
    ) by {
        if j < i {
            assert(after[j] == before[j]);
        } else {
            assert(after[j + 1] == before[j]);
        }
    }
    assert forall|m: int| 0 <= m < after.len() implies #[trigger] after[m] == pv || (after[m].name
        != pv.name && before.contains(after[m])) by {
        if m < i {
            assert(before[m] == after[m]);
            lemma_chars_lt_irreflexive(pv.name);
        } else if m > i {
            assert(before[m - 1] == after[m]);
            if m - 1 > i {
                assert(chars_lt(before[i].name, before[m - 1].name));
                lemma_chars_lt_transitive(pv.name, before[i].name, before[m - 1].name);
            }
            lemma_chars_lt_irreflexive(pv.name);
        }
    }
}

/// Adds a profile to a list kept in order of name, in place of the one with
/// the same name if there is one.
fn upsert_profile(list: &mut Vec<AgentProfile>, p: AgentProfile)
    requires
        names_sorted(profiles_view(old(list)@)),
    ensures
        upserted(profiles_view(final(list)@), profiles_view(old(list)@), p@),
{
    let ghost before = profiles_view(list@);
    let mut i: usize = 0;
    while i < list.len() && str_lt(list[i].name.as_str(), p.name.as_str())
        invariant
            i <= list.len(),
            before == profiles_view(list@),
            forall|k: int| 0 <= k < i ==> chars_lt(#[trigger] before[k].name, p@.name),
        decreases list.len() - i,
    {
        assert(before[i as int] == list@[i as int]@);
        i += 1;
    }
    let ghost pv = p@;
    if i < list.len() && str_eq(list[i].name.as_str(), p.name.as_str()) {
        assert(before[i as int] == list@[i as int]@);
        list.set(i, p);
        assert(profiles_view(list@) =~= before.update(i as int, pv));
        proof {
            lemma_upsert_replace(before, i as int, pv);
        }
    } else {
        proof {
            if i < list.len() {
                assert(before[i as int] == list@[i as int]@);
                lemma_chars_lt_total(before[i as int].name, pv.name);
            }
        }
        list.insert(i, p);
        assert(profiles_view(list@) =~= before.insert(i as int, pv));
        proof {
            lemma_upsert_insert(before, i as int, pv);
        }
    }
}


proof fn lemma_winning_step(
    after: Seq<AgentProfileView>,
    before: Seq<AgentProfileView>,
    all: Seq<AgentProfileView>,
    pv: AgentProfileView,
)
    requires
        winning_profiles(before, all),
        upserted(after, before, pv),
    ensures
        winning_profiles(after, all.push(pv)),
{
    let all2 = all.push(pv);
    assert(all2.drop_last() =~= all);
    assert forall|i: int| 0 <= i < after.len() implies last_named(all2, #[trigger] after[i].name) == Some(
        after[i],
    ) by {
        if after[i] != pv {
            let j = choose|j: int| 0 <= j < before.len() && before[j] == after[i];
            assert(last_named(all, before[j].name) == Some(before[j]));
        }
    }
    assert forall|k: int| 0 <= k < all2.len() implies has_name(after, #[trigger] all2[k].name) by {
        let c = choose|c: int| 0 <= c < after.len() && after[c] == pv;
        assert(after[c].name == pv.name);
        if k < all.len() {
            assert(all2[k] == all[k]);
            assert(has_name(before, all[k].name));
            let j = choose|j: int| 0 <= j < before.len() && #[trigger] before[j].name == all[k].name;
            if before[j].name != pv.name {
                let m = choose|m: int| 0 <= m < after.len() && after[m] == before[j];
                assert(after[m].name == all[k].name);
            }
        }
    }
}

/// Adds profiles in order to a list kept in order of name; later ones win.
fn upsert_all(list: &mut Vec<AgentProfile>, items: Vec<AgentProfile>, Ghost(all): Ghost<Seq<AgentProfileView>>)
    requires
        names_sorted(profiles_view(old(list)@)),
        winning_profiles(profiles_view(old(list)@), all),
    ensures
        names_sorted(profiles_view(final(list)@)),
        winning_profiles(profiles_view(final(list)@), all + profiles_view(items@)),
{
    let ghost iv = profiles_view(items@);
    let mut items = items;
    let ghost mut done: Seq<AgentProfileView> = Seq::empty();
    assert(all + done =~= all);
    assert(done + profiles_view(items@) =~= iv);
    while items.len() > 0
        invariant
            names_sorted(profiles_view(list@)),
            winning_profiles(profiles_view(list@), all + done),
            done + profiles_view(items@) == iv,
        decreases items.len(),
    {
        let ghost rest = profiles_view(items@);
        let ghost before = profiles_view(list@);
        let p = items.remove(0);
        assert(rest =~= seq![p@] + profiles_view(items@));
        upsert_profile(list, p);
        proof {
            lemma_winning_step(profiles_view(list@), before, all + done, p@);
            assert((all + done).push(p@) =~= all + done.push(p@));
            done = done.push(p@);
            assert(done + profiles_view(items@) =~= iv);
        }
    }
    assert(profiles_view(items@) =~= Seq::<AgentProfileView>::empty());
    assert(done =~= iv);
}


/// The profile a stored agent record defines.
pub open spec fn record_profile(r: AgentProfileRecord) -> AgentProfileView {
    AgentProfileView {
        name: r.name@,
        display_name: r.display_name@,
        description: r.description@,
        system_prompt: r.system_prompt@,
        avatar_color: r.avatar_color@,
        provider_id: r.provider_id,
        model_id: opt_view(r.model_id),
        source: AgentProfileSource::User,
    }
}

/// The profiles stored in the settings, in stored order.
pub open spec fn stored_profiles(settings: Option<&ProviderSettingsSnapshot>) -> Seq<AgentProfileView> {
    match settings {
        Some(st) => st.agent_profiles@.map_values(|r: AgentProfileRecord| record_profile(r)),
        None => Seq::empty(),
    }
}

/// The built-in agent's prompt: the custom one when the settings enable one.
pub open spec fn march_prompt(default_prompt: Seq<char>, settings: Option<&ProviderSettingsSnapshot>) -> Seq<char> {
    match settings {
        Some(st) => if st.use_custom_system_core && st.custom_system_core is Some {
            st.custom_system_core->0@
        } else {
            default_prompt
        },
        None => default_prompt,
    }
}

/// Every profile definition, in the order in which later ones win: stored
/// profiles, the built-in agent, the user's agent files, the project's.
pub open spec fn profile_definitions(
    default_prompt: Seq<char>,
    settings: Option<&ProviderSettingsSnapshot>,
    user_profiles: Seq<AgentProfileView>,
    project_profiles: Seq<AgentProfileView>,
) -> Seq<AgentProfileView> {
    stored_profiles(settings) + seq![
        AgentProfileView {
            name: MARCH_AGENT_NAME@,
            display_name: "March"@,
            description: MARCH_DESCRIPTION@,
            system_prompt: march_prompt(default_prompt, settings),
            avatar_color: DEFAULT_AVATAR_COLOR@,
            provider_id: None,
            model_id: None,
            source: AgentProfileSource::BuiltIn,
        },
    ] + user_profiles + project_profiles
}

fn profile_from_record(r: &AgentProfileRecord) -> (out: AgentProfile)
    ensures
        out@ == record_profile(*r),
{
    AgentProfile {
        name: r.name.clone(),
        display_name: r.display_name.clone(),
        description: r.description.clone(),
        system_prompt: r.system_prompt.clone(),
        avatar_color: r.avatar_color.clone(),
        provider_id: r.provider_id,
        model_id: match &r.model_id {
            Some(m) => Some(m.clone()),
            None => None,
        },
        source: AgentProfileSource::User,
    }
}

/// The agents available in a project, from every place they can be defined:
/// each name once, with its last definition, the built-in agent first and the
/// others in order of name.
pub fn merge_agent_profiles(
    default_system_prompt: String,
    settings: Option<&ProviderSettingsSnapshot>,
    user_profiles: Vec<AgentProfile>,
    project_profiles: Vec<AgentProfile>,
) -> (out: Vec<AgentProfile>)
    ensures
        out@.len() >= 1,
        out@[0]@.name == MARCH_AGENT_NAME@,
        forall|i: int| 1 <= i < out@.len() ==> #[trigger] out@[i]@.name != MARCH_AGENT_NAME@,
        names_sorted(profiles_view(out@).skip(1)),
        winning_profiles(
            profiles_view(out@),
            profile_definitions(
                default_system_prompt@,
                settings,
                profiles_view(user_profiles@),
                profiles_view(project_profiles@),
            ),
        ),
{
    let ghost all = profile_definitions(
        default_system_prompt@,
        settings,
        profiles_view(user_profiles@),
        profiles_view(project_profiles@),
    );
    let mut march = AgentProfile::built_in_march(default_system_prompt);
    let mut stored: Vec<AgentProfile> = Vec::new();
    match settings {
        Some(st) => {
            if st.use_custom_system_core {
                match &st.custom_system_core {
                    Some(core) => {
                        march.system_prompt = core.clone();
                    },
                    None => {},
                }
            }
            let mut k: usize = 0;
            while k < st.agent_profiles.len()
                invariant
                    k <= st.agent_profiles.len(),
                    profiles_view(stored@) == st.agent_profiles@.take(k as int).map_values(
                        |r: AgentProfileRecord| record_profile(r),
                    ),
                decreases st.agent_profiles.len() - k,
            {
                let ghost before = stored@;
                let p = profile_from_record(&st.agent_profiles[k]);
                stored.push(p);
                assert(profiles_view(stored@) =~= profiles_view(before).push(
                    record_profile(st.agent_profiles@[k as int]),
                ));
                assert(st.agent_profiles@.take(k + 1) =~= st.agent_profiles@.take(k as int).push(
                    st.agent_profiles@[k as int],
                ));
                assert(st.agent_profiles@.take(k + 1).map_values(
                    |r: AgentProfileRecord| record_profile(r),
                ) =~= st.agent_profiles@.take(k as int).map_values(
                    |r: AgentProfileRecord| record_profile(r),
                ).push(record_profile(st.agent_profiles@[k as int])));
                k += 1;
            }
            assert(st.agent_profiles@.take(st.agent_profiles.len() as int) =~= st.agent_profiles@);
        },
        None => {},
    }
    assert(profiles_view(stored@) =~= stored_profiles(settings));
    let ghost march_view = march@;
    let mut list: Vec<AgentProfile> = Vec::new();
    assert(winning_profiles(profiles_view(list@), Seq::<AgentProfileView>::empty()));
    upsert_all(&mut list, stored, Ghost(Seq::<AgentProfileView>::empty()));
    let mut single: Vec<AgentProfile> = Vec::new();
    single.push(march);
    assert(profiles_view(single@) =~= seq![march_view]);
    upsert_all(&mut list, single, Ghost(Seq::<AgentProfileView>::empty() + stored_profiles(settings)));
    let ghost so_far = Seq::<AgentProfileView>::empty() + stored_profiles(settings) + seq![march_view];
    upsert_all(&mut list, user_profiles, Ghost(so_far));
    let ghost so_far2 = so_far + profiles_view(user_profiles@);
    upsert_all(&mut list, project_profiles, Ghost(so_far2));
    assert(so_far2 + profiles_view(project_profiles@) =~= all);
    let ghost lv = profiles_view(list@);
    // The built-in agent is defined, so some entry carries its name.
    assert(all[stored_profiles(settings).len() as int].name == MARCH_AGENT_NAME@);
    assert(has_name(lv, MARCH_AGENT_NAME@));
    let mut m: usize = 0;
    while m < list.len() && !str_eq(list[m].name.as_str(), MARCH_AGENT_NAME)
        invariant
            m <= list.len(),
            lv == profiles_view(list@),
            has_name(lv, MARCH_AGENT_NAME@),
            forall|k: int| 0 <= k < m ==> #[trigger] lv[k].name != MARCH_AGENT_NAME@,
        decreases list.len() - m,
    {
        assert(lv[m as int] == list@[m as int]@);
        m += 1;
    }
    proof {
        if m == list.len() {
            let w = choose|w: int| 0 <= w < lv.len() && #[trigger] lv[w].name == MARCH_AGENT_NAME@;
            assert(lv[w].name != MARCH_AGENT_NAME@);
        }
    }
    assert(lv[m as int] == list@[m as int]@);
    let first = list.remove(m);
    let ghost rest = profiles_view(list@);
    assert(rest =~= lv.remove(m as int));
    list.insert(0, first);
    let ghost out_v = profiles_view(list@);
    assert(out_v =~= seq![lv[m as int]] + rest);
    assert(out_v.skip(1) =~= rest);
    assert(list@[0]@ == out_v[0]);
    assert forall|a: int, b: int| 0 <= a < b < rest.len() implies chars_lt(
        #[trigger] rest[a].name,
        #[trigger] rest[b].name,
    ) by {
        let a2 = if a < m { a } else { a + 1 };
        let b2 = if b < m { b } else { b + 1 };
        assert(rest[a] == lv[a2] && rest[b] == lv[b2]);
    }
    assert forall|i: int| 1 <= i < list@.len() implies #[trigger] list@[i]@.name != MARCH_AGENT_NAME@ by {
        assert(list@[i]@ == out_v[i]);
        let j = if i - 1 < m { i - 1 } else { i };
        assert(out_v[i] == lv[j]);
        assert(j != m);
        if j < m {
            assert(chars_lt(lv[j].name, lv[m as int].name));
        } else {
            assert(chars_lt(lv[m as int].name, lv[j].name));
        }
        lemma_chars_lt_irreflexive(MARCH_AGENT_NAME@);
    }
    assert forall|i: int| 0 <= i < out_v.len() implies last_named(all, #[trigger] out_v[i].name) == Some(
        out_v[i],
    ) by {
        let j = if i == 0 { m as int } else if i - 1 < m { i - 1 } else { i };
        assert(out_v[i] == lv[j]);
    }
    assert forall|k: int| 0 <= k < all.len() implies has_name(out_v, #[trigger] all[k].name) by {
        assert(has_name(lv, all[k].name));
        let j = choose|j: int| 0 <= j < lv.len() && #[trigger] lv[j].name == all[k].name;
        let i = if j == m { 0 } else if j < m { j + 1 } else { j };
        assert(out_v[i] == lv[j]);
    }
    list
}

} // verus!

verus! {

/// The first non-blank line of a text, trimmed.
pub fn first_filled_line_text(text: &str) -> (out: Option<String>)
    ensures
        opt_view(out) == first_filled_line(text@),
{
    match first_filled_line_of(text) {
        Some(l) => Some(string_from_chars(l.as_slice())),
        None => None,
    }
}

/// The first `n` characters of a text.
pub fn take_chars_text(s: &str, n: usize) -> (out: String)
    ensures
        out@ == take_chars(s@, n as nat),
{
    let chars = chars_of(s);
    let t = take_chars_of(chars.as_slice(), n);
    string_from_chars(t.as_slice())
}

/// The description made up for an agent without one.
pub fn fallback_description_text(display_name: &str) -> (out: String)
    ensures
        out@ == fallback_description(display_name@),
{
    fallback_description_of(display_name)
}

} // verus!
