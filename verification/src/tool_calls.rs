use vstd::prelude::*;

use crate::agents::{first_filled_line, take_chars};
use crate::text::{
    chars_contains, chars_of, contains_seq, lines, lines_chars, push_str, string_from_chars,
    strings_view, sub_chars, trim, trim_chars, char_vecs_view,
};
use crate::memory::{level_prefix, MemoryLevel, MemoryRecord};
use crate::text::{decimal, i64_to_string, signed_decimal, u64_to_string};
use crate::timeline::ToolSummary;

verus! {

broadcast use vstd::string::group_string_axioms;

/// What a tool call gives back: the text the model reads, and the summary
/// shown in the conversation history.
#[derive(Debug, Clone)]
pub struct ToolOutcome {
    pub result_text: String,
    pub summary: Option<ToolSummary>,
}

/// An outcome with its text and a history summary under the tool's name.
pub fn simple_tool(result_text: String, name: &str, summary: String) -> (out: ToolOutcome)
    ensures
        out.result_text@ == result_text@,
        out.summary is Some,
        out.summary->0.name@ == name@,
        out.summary->0.summary@ == summary@,
{
    ToolOutcome { result_text, summary: Some(ToolSummary { name: name.to_owned(), summary }) }
}

/// The message a failed tool call gives the model; `error` is the error's
/// full description.
pub open spec fn tool_error_text(tool_name: Seq<char>, error: Seq<char>) -> Seq<char> {
    "Tool `"@ + tool_name + "` failed.\nError: "@ + error
}

pub fn format_tool_error(tool_name: &str, error: &str) -> (out: String)
    ensures
        out@ == tool_error_text(tool_name@, error@),
{
    let mut out = "Tool `".to_owned();
    push_str(&mut out, tool_name);
    push_str(&mut out, "` failed.\nError: ");
    push_str(&mut out, error);
    out
}

/// The preview of a tool's result: its first non-blank line, trimmed, cut to
/// 120 characters with an ellipsis when longer.
pub open spec fn result_preview(result_text: Seq<char>) -> Option<Seq<char>> {
    match first_filled_line(result_text) {
        Some(line) => if line.len() > 120 {
            Some(take_chars(line, 120) + "…"@)
        } else {
            Some(line)
        },
        None => None,
    }
}

pub fn preview_tool_result(result_text: &str) -> (out: Option<String>)
    ensures
        crate::agents::opt_view(out) == result_preview(result_text@),
{
    let chars = chars_of(result_text);
    let ls = lines_chars(chars.as_slice());
    let ghost lv = char_vecs_view(ls@);
    let mut i: usize = 0;
    while i < ls.len()
        invariant
            i <= ls.len(),
            lv == char_vecs_view(ls@),
            lv == lines(result_text@),
            crate::agents::first_filled(lv, i as int) == crate::agents::first_filled(lv, 0),
        decreases ls.len() - i,
    {
        let t = trim_chars(ls[i].as_slice());
        assert(lv[i as int] == ls@[i as int]@);
        if t.len() > 0 {
            if t.len() > 120 {
                let cut = sub_chars(t.as_slice(), 0, 120);
                let mut out = string_from_chars(cut.as_slice());
                push_str(&mut out, "…");
                return Some(out);
            } else {
                return Some(string_from_chars(t.as_slice()));
            }
        }
        i += 1;
    }
    None
}

/// Whether a text looks like several JSON objects written one after another.
pub open spec fn multiple_json_objects(value: Seq<char>) -> bool {
    let t = trim(value);
    contains_seq(t, "}{"@) || contains_seq(t, "}\n{"@) || contains_seq(t, "}\r\n{"@)
}

pub fn looks_like_multiple_json_objects(value: &str) -> (out: bool)
    ensures
        out == multiple_json_objects(value@),
{
    let chars = chars_of(value);
    let t = trim_chars(chars.as_slice());
    let a = chars_of("}{");
    let b = chars_of("}\n{");
    let c = chars_of("}\r\n{");
    chars_contains(t.as_slice(), a.as_slice()) || chars_contains(t.as_slice(), b.as_slice())
        || chars_contains(t.as_slice(), c.as_slice())
}

/// Whether `c` separates tags written as one text: a comma, ASCII or full width.
pub open spec fn is_tag_separator(c: char) -> bool {
    c == ',' || c == '，'
}

/// The pieces of a text between tag separators, and the piece in progress.
pub open spec fn tag_pieces_state(s: Seq<char>) -> (Seq<Seq<char>>, Seq<char>)
    decreases s.len(),
{
    if s.len() == 0 {
        (Seq::empty(), Seq::empty())
    } else {
        let (acc, cur) = tag_pieces_state(s.drop_last());
        if is_tag_separator(s.last()) {
            (acc.push(cur), Seq::empty())
        } else {
            (acc, cur.push(s.last()))
        }
    }
}

/// The non-blank pieces, trimmed.
pub open spec fn filled_trimmed(pieces: Seq<Seq<char>>) -> Seq<Seq<char>>
    decreases pieces.len(),
{
    if pieces.len() == 0 {
        Seq::empty()
    } else if trim(pieces.last()).len() > 0 {
        filled_trimmed(pieces.drop_last()).push(trim(pieces.last()))
    } else {
        filled_trimmed(pieces.drop_last())
    }
}

/// The tags a text gives: its comma-separated pieces, trimmed, the blank ones dropped.
pub open spec fn tags_in_text(s: Seq<char>) -> Seq<Seq<char>> {
    let (acc, cur) = tag_pieces_state(s);
    filled_trimmed(acc.push(cur))
}

/// Splits a tag list given as one text, such as `a, b，c`.
pub fn split_tag_text(text: &str) -> (out: Vec<String>)
    ensures
        strings_view(out@) == tags_in_text(text@),
{
    let chars = chars_of(text);
    let mut pieces: Vec<Vec<char>> = Vec::new();
    let mut cur: Vec<char> = Vec::new();
    let mut i: usize = 0;
    while i < chars.len()
        invariant
            i <= chars.len(),
            chars@ == text@,
            (char_vecs_view(pieces@), cur@) == tag_pieces_state(chars@.take(i as int)),
        decreases chars.len() - i,
    {
        assert(chars@.take(i + 1).drop_last() =~= chars@.take(i as int));
        let c = chars[i];
        if c == ',' || c == '，' {
            let done = cur;
            cur = Vec::new();
            let ghost before = pieces@;
            pieces.push(done);
            assert(char_vecs_view(pieces@) =~= char_vecs_view(before).push(done@));
        } else {
            cur.push(c);
        }
        i += 1;
    }
    assert(chars@.take(chars.len() as int) =~= chars@);
    let ghost before = pieces@;
    pieces.push(cur);
    let ghost all = char_vecs_view(pieces@);
    assert(all =~= char_vecs_view(before).push(pieces@.last()@));
    let mut out: Vec<String> = Vec::new();
    let mut k: usize = 0;
    while k < pieces.len()
        invariant
            k <= pieces.len(),
            all == char_vecs_view(pieces@),
            strings_view(out@) == filled_trimmed(all.take(k as int)),
        decreases pieces.len() - k,
    {
        assert(all.take(k + 1).drop_last() =~= all.take(k as int));
        assert(all.take(k + 1).last() == pieces@[k as int]@);
        let t = trim_chars(pieces[k].as_slice());
        if t.len() > 0 {
            let ghost prev = out@;
            out.push(string_from_chars(t.as_slice()));
            assert(strings_view(out@) =~= strings_view(prev).push(t@));
        }
        k += 1;
    }
    assert(all.take(pieces.len() as int) =~= all);
    out
}


/// A tool call that was carried out, with what its messages report.
pub enum ToolDone {
    /// `output` is the command's output as the model reads it.
    RunCommand { output: String, command: String, exit_code: i32 },
    OpenFile { path: String },
    CloseFile { path: String },
    /// `diff` is the rendered diff of the edit.
    WriteFile { path: String, diff: String },
    ReplaceLines { path: String, start_line: usize, end_line: usize, diff: String },
    InsertLines { path: String, after_line: usize, diff: String },
    DeleteLines { path: String, start_line: usize, end_line: usize, diff: String },
    WriteNote { id: String },
    RemoveNote { id: String },
    /// `prefixed_id` is the stored memory's id with its level prefix.
    Memorize { prefixed_id: String },
    RecallMemory { memory: MemoryRecord },
    UpdateMemory { prefixed_id: String },
    ForgetMemory { id: String },
    CreateAgent { name: String, display_name: String },
    UpdateMarchPrompt,
    UpdateAgent { name: String, display_name: String },
    /// `reassigned` counts the agent's private memories made shared.
    DeleteAgent { name: String, reassigned: usize },
}

pub const OPENED_FILE_NOTE: &'static str =
    "\n\nThe file's full contents are now rendered in the [open_files] section of your context. Read them there to complete the task — do not call read tools on this path again unless you need a view outside the watcher snapshot.";

/// How a memory level is written in a recalled memory (`Debug`).
pub open spec fn level_name(level: MemoryLevel) -> Seq<char> {
    match level {
        MemoryLevel::Project => "Project"@,
        MemoryLevel::Global => "Global"@,
    }
}

/// The text of a recalled memory.
pub open spec fn recalled_text(m: MemoryRecord) -> Seq<char> {
    "id: "@ + level_prefix(m.level) + ":"@ + m.id@ + "\nlevel: "@ + level_name(m.level)
        + "\ntype: "@ + m.memory_type@ + "\ntopic: "@ + m.topic@ + "\ntitle: "@ + m.title@
        + "\ncontent:\n"@ + m.content@
}

/// What a carried-out tool call reports: the text the model reads, the tool's
/// name and the summary shown in the history.
pub open spec fn done_report(d: ToolDone) -> (Seq<char>, Seq<char>, Seq<char>) {
    match d {
        ToolDone::RunCommand { output, command, exit_code } => (
            output@,
            "run_command"@,
            command@ + " (exit code "@ + signed_decimal(exit_code as int) + ")"@,
        ),
        ToolDone::OpenFile { path } => (
            "opened "@ + path@ + OPENED_FILE_NOTE@,
            "open_file"@,
            "开始追踪 "@ + path@,
        ),
        ToolDone::CloseFile { path } => ("closed "@ + path@, "close_file"@, "停止追踪 "@ + path@),
        ToolDone::WriteFile { path, diff } => (diff@, "write_file"@, "写入了 "@ + path@),
        ToolDone::ReplaceLines { path, start_line, end_line, diff } => (
            diff@,
            "replace_lines"@,
            "修改了 "@ + path@ + " 第 "@ + decimal(start_line as nat) + "-"@ + decimal(
                end_line as nat,
            ) + " 行"@,
        ),
        ToolDone::InsertLines { path, after_line, diff } => (
            diff@,
            "insert_lines"@,
            "在 "@ + path@ + " 第 "@ + decimal(after_line as nat) + " 行后插入内容"@,
        ),
        ToolDone::DeleteLines { path, start_line, end_line, diff } => (
            diff@,
            "delete_lines"@,
            "删除了 "@ + path@ + " 第 "@ + decimal(start_line as nat) + "-"@ + decimal(
                end_line as nat,
            ) + " 行"@,
        ),
        ToolDone::WriteNote { id } => ("stored note "@ + id@, "write_note"@, "更新了 note "@ + id@),
        ToolDone::RemoveNote { id } => (
            "removed note "@ + id@,
            "remove_note"@,
            "移除了 note "@ + id@,
        ),
        ToolDone::Memorize { prefixed_id } => (
            "stored memory "@ + prefixed_id@,
            "memorize"@,
            "写入了记忆 "@ + prefixed_id@,
        ),
        ToolDone::RecallMemory { memory } => (
            recalled_text(memory),
            "recall_memory"@,
            "查看了记忆 "@ + level_prefix(memory.level) + ":"@ + memory.id@,
        ),
        ToolDone::UpdateMemory { prefixed_id } => (
            "updated memory "@ + prefixed_id@,
            "update_memory"@,
            "更新了记忆 "@ + prefixed_id@,
        ),
        ToolDone::ForgetMemory { id } => (
            "forgot memory "@ + id@,
            "forget_memory"@,
            "删除了记忆 "@ + id@,
        ),
        ToolDone::CreateAgent { name, display_name } => (
            "created agent "@ + name@,
            "create_agent"@,
            "创建了角色 "@ + display_name@,
        ),
        ToolDone::UpdateMarchPrompt => (
            "updated march system prompt"@,
            "update_agent"@,
            "更新了 March 角色提示词"@,
        ),
        ToolDone::UpdateAgent { name, display_name } => (
            "updated agent "@ + name@,
            "update_agent"@,
            "更新了角色 "@ + display_name@,
        ),
        ToolDone::DeleteAgent { name, reassigned } => (
            "deleted agent "@ + name@,
            "delete_agent"@,
            "删除了角色 "@ + name@ + "，并把 "@ + decimal(reassigned as nat) + " 条私有记忆转成共享"@,
        ),
    }
}

fn cat2(a: &str, b: &str) -> (out: String)
    ensures
        out@ == a@ + b@,
{
    let mut out = a.to_owned();
    push_str(&mut out, b);
    out
}

fn line_span(prefix: &str, path: &str, start: usize, end: usize) -> (out: String)
    ensures
        out@ == prefix@ + path@ + " 第 "@ + decimal(start as nat) + "-"@ + decimal(end as nat)
            + " 行"@,
{
    let mut out = cat2(prefix, path);
    push_str(&mut out, " 第 ");
    let a = u64_to_string(start as u64);
    push_str(&mut out, a.as_str());
    push_str(&mut out, "-");
    let b = u64_to_string(end as u64);
    push_str(&mut out, b.as_str());
    push_str(&mut out, " 行");
    out
}

fn recalled_memory_text(m: &MemoryRecord) -> (out: String)
    ensures
        out@ == recalled_text(*m),
{
    let mut out = "id: ".to_owned();
    let pid = m.prefixed_id();
    push_str(&mut out, pid.as_str());
    push_str(&mut out, "\nlevel: ");
    match m.level {
        MemoryLevel::Project => push_str(&mut out, "Project"),
        MemoryLevel::Global => push_str(&mut out, "Global"),
    }
    push_str(&mut out, "\ntype: ");
    push_str(&mut out, m.memory_type.as_str());
    push_str(&mut out, "\ntopic: ");
    push_str(&mut out, m.topic.as_str());
    push_str(&mut out, "\ntitle: ");
    push_str(&mut out, m.title.as_str());
    push_str(&mut out, "\ncontent:\n");
    push_str(&mut out, m.content.as_str());
    out
}

/// The outcome a carried-out tool call reports.
pub fn tool_outcome(done: ToolDone) -> (out: ToolOutcome)
    ensures
        out.result_text@ == done_report(done).0,
        out.summary is Some,
        out.summary->0.name@ == done_report(done).1,
        out.summary->0.summary@ == done_report(done).2,
{
    match done {
        ToolDone::RunCommand { output, command, exit_code } => {
            let mut summary = command.clone();
            push_str(&mut summary, " (exit code ");
            let n = i64_to_string(exit_code as i64);
            push_str(&mut summary, n.as_str());
            push_str(&mut summary, ")");
            simple_tool(output, "run_command", summary)
        },
        ToolDone::OpenFile { path } => {
            let mut text = cat2("opened ", path.as_str());
            push_str(&mut text, OPENED_FILE_NOTE);
            simple_tool(text, "open_file", cat2("开始追踪 ", path.as_str()))
        },
        ToolDone::CloseFile { path } => simple_tool(
            cat2("closed ", path.as_str()),
            "close_file",
            cat2("停止追踪 ", path.as_str()),
        ),
        ToolDone::WriteFile { path, diff } => simple_tool(
            diff,
            "write_file",
            cat2("写入了 ", path.as_str()),
        ),
        ToolDone::ReplaceLines { path, start_line, end_line, diff } => simple_tool(
            diff,
            "replace_lines",
            line_span("修改了 ", path.as_str(), start_line, end_line),
        ),
        ToolDone::InsertLines { path, after_line, diff } => {
            let mut summary = cat2("在 ", path.as_str());
            push_str(&mut summary, " 第 ");
            let n = u64_to_string(after_line as u64);
            push_str(&mut summary, n.as_str());
            push_str(&mut summary, " 行后插入内容");
            simple_tool(diff, "insert_lines", summary)
        },
        ToolDone::DeleteLines { path, start_line, end_line, diff } => simple_tool(
            diff,
            "delete_lines",
            line_span("删除了 ", path.as_str(), start_line, end_line),
        ),
        ToolDone::WriteNote { id } => simple_tool(
            cat2("stored note ", id.as_str()),
            "write_note",
            cat2("更新了 note ", id.as_str()),
        ),
        ToolDone::RemoveNote { id } => simple_tool(
            cat2("removed note ", id.as_str()),
            "remove_note",
            cat2("移除了 note ", id.as_str()),
        ),
        ToolDone::Memorize { prefixed_id } => simple_tool(
            cat2("stored memory ", prefixed_id.as_str()),
            "memorize",
            cat2("写入了记忆 ", prefixed_id.as_str()),
        ),
        ToolDone::RecallMemory { memory } => {
            let pid = memory.prefixed_id();
            simple_tool(
                recalled_memory_text(&memory),
                "recall_memory",
                cat2("查看了记忆 ", pid.as_str()),
            )
        },
        ToolDone::UpdateMemory { prefixed_id } => simple_tool(
            cat2("updated memory ", prefixed_id.as_str()),
            "update_memory",
            cat2("更新了记忆 ", prefixed_id.as_str()),
        ),
        ToolDone::ForgetMemory { id } => simple_tool(
            cat2("forgot memory ", id.as_str()),
            "forget_memory",
            cat2("删除了记忆 ", id.as_str()),
        ),
        ToolDone::CreateAgent { name, display_name } => simple_tool(
            cat2("created agent ", name.as_str()),
            "create_agent",
            cat2("创建了角色 ", display_name.as_str()),
        ),
        ToolDone::UpdateMarchPrompt => simple_tool(
            "updated march system prompt".to_owned(),
            "update_agent",
            "更新了 March 角色提示词".to_owned(),
        ),
        ToolDone::UpdateAgent { name, display_name } => simple_tool(
            cat2("updated agent ", name.as_str()),
            "update_agent",
            cat2("更新了角色 ", display_name.as_str()),
        ),
        ToolDone::DeleteAgent { name, reassigned } => {
            let mut summary = cat2("删除了角色 ", name.as_str());
            push_str(&mut summary, "，并把 ");
            let n = u64_to_string(reassigned as u64);
            push_str(&mut summary, n.as_str());
            push_str(&mut summary, " 条私有记忆转成共享");
            simple_tool(cat2("deleted agent ", name.as_str()), "delete_agent", summary)
        },
    }
}

} // verus!
