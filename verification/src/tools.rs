use vstd::prelude::*;

use crate::shells::{shell_label, AvailableShell};
use crate::text::{join, push_str, str_eq, strings_view, trim_end, trim_end_str};

verus! {

broadcast use vstd::string::group_string_axioms;

/// What the tool-use section of the system prompt opens with.
pub const TOOL_PROMPT_HEADER: &'static str = "The following tools are available in this session.\n\nTool selection principles:\n- Choose the narrowest tool that directly matches the task.\n- For inspecting or editing workspace files, prefer the file tools (open_file, write_file, line-based edits) over run_command. File tools are deterministic, cross-platform, and integrated with the watcher-backed open-files context layer.\n- Reserve run_command for capabilities that require the external environment: compilation, tests, git, grep, shell pipelines, or CLI tools.\n- All file content in the open-files context is shown with line numbers. Line-based edit tools (replace_lines, insert_lines, delete_lines) use these line numbers as absolute positions — no text matching is needed.\n\n";

/// A parameter of a tool offered to the model.
#[derive(Debug, Clone)]
pub struct ToolParameter {
    pub name: &'static str,
    pub kind: &'static str,
    pub required: bool,
    pub description: &'static str,
}

/// A tool offered to the model: how it is named, described and called.
#[derive(Debug, Clone)]
pub struct ToolDefinition {
    pub name: &'static str,
    pub description: &'static str,
    pub parameters: Vec<ToolParameter>,
    pub notes: Vec<String>,
}

/// The tools the model can call in the current session.
#[derive(Debug, Clone)]
pub struct ToolRuntime {
    pub tools: Vec<ToolDefinition>,
}

/// A parameter's name, kind and whether it is required.
pub open spec fn param_signature(p: ToolParameter) -> (Seq<char>, Seq<char>, bool) {
    (p.name@, p.kind@, p.required)
}

/// The signatures of a tool's parameters, in order.
pub open spec fn tool_params(t: ToolDefinition) -> Seq<(Seq<char>, Seq<char>, bool)> {
    t.parameters@.map_values(|p: ToolParameter| param_signature(p))
}

/// A tool's description, its parameters (name, kind, whether required,
/// description) and its usage notes.
pub type ToolText = (Seq<char>, Seq<(Seq<char>, Seq<char>, bool, Seq<char>)>, Seq<Seq<char>>);

/// A parameter's name, kind, whether it is required, and its description.
pub open spec fn param_text(p: ToolParameter) -> (Seq<char>, Seq<char>, bool, Seq<char>) {
    (p.name@, p.kind@, p.required, p.description@)
}

/// What a tool tells the model, besides its name.
pub open spec fn tool_text(t: ToolDefinition) -> ToolText {
    (t.description@, t.parameters@.map_values(|p: ToolParameter| param_text(p)), strings_view(t.notes@))
}

/// How a detected shell is listed: its label, and the program in brackets when
/// that differs from the label.
pub open spec fn shell_listing(shell: AvailableShell) -> Seq<char> {
    if shell.program@ == shell_label(shell.kind) {
        shell_label(shell.kind)
    } else {
        shell_label(shell.kind) + " ("@ + shell.program@ + ")"@
    }
}

/// The detected shells, listed and separated by commas.
pub open spec fn shells_listing(shells: Seq<AvailableShell>) -> Seq<char> {
    join(shells.map_values(|s: AvailableShell| shell_listing(s)), ", "@)
}

/// Lists the shells detected for the session.
pub fn format_available_shells(available_shells: &[AvailableShell]) -> (out: String)
    ensures
        out@ == shells_listing(available_shells@),
{
    let ghost items = available_shells@.map_values(|s: AvailableShell| shell_listing(s));
    let mut out = String::new();
    let mut i: usize = 0;
    while i < available_shells.len()
        invariant
            i <= available_shells.len(),
            items == available_shells@.map_values(|s: AvailableShell| shell_listing(s)),
            out@ == join(items.take(i as int), ", "@),
        decreases available_shells.len() - i,
    {
        let shell = &available_shells[i];
        let label = shell.kind.label();
        let ghost before = out@;
        if i > 0 {
            push_str(&mut out, ", ");
        }
        push_str(&mut out, label);
        if !str_eq(shell.program.as_str(), label) {
            push_str(&mut out, " (");
            push_str(&mut out, shell.program.as_str());
            push_str(&mut out, ")");
        }
        assert(items.take(i + 1).drop_last() =~= items.take(i as int));
        assert(items.take(i + 1).last() == shell_listing(available_shells@[i as int]));
        assert(out@ =~= join(items.take(i + 1), ", "@));
        i += 1;
    }
    assert(items.take(available_shells.len() as int) =~= items);
    out
}

/// The description, parameters and usage notes of `run_command`.
pub open spec fn run_command_text(available_shells: Seq<AvailableShell>, working_directory: Seq<char>) -> ToolText {
    ("Run a shell command in the workspace. Use this for capabilities that require the external environment: compilation, tests, git, grep/search, shell pipelines, build scripts, or any installed CLI tool. The command runs in a specified shell interpreter with the workspace root as the working directory."@, seq![("shell"@, "enum"@, true, "The shell interpreter to use for this command."@), ("command"@, "string"@, true, "The exact command text to execute in that shell."@), ("timeout_secs"@, "integer"@, false, "Optional command timeout in seconds. If omitted, March defaults to 10 seconds."@)], seq!["Available shells in this session: "@ + shells_listing(available_shells) + "."@, "Current working directory for every run_command call: "@ + working_directory + "."@, "Default timeout for run_command is 10 seconds."@, "Set timeout_secs when the command is expected to take longer or should fail faster."@, "Only choose a shell from the available-shell list above."@, "Each run_command tool call may execute exactly one command. The arguments must be a single JSON object with required fields shell and command, plus optional timeout_secs."@, "If you need to run two commands, emit two separate run_command tool calls instead of concatenating commands or JSON objects."@, "Use run_command when you need external environment capabilities such as git, compilers, test runners, shell pipelines, or existing CLI tools."@, "Do not use run_command just to read a file that is already present in the open-files context layer; use that watcher-backed snapshot directly."@])
}

fn run_command_tool(available_shells: &[AvailableShell], working_directory: &str) -> (out: ToolDefinition)
    ensures
        out.name@ == "run_command"@,
        tool_params(out) == seq![("shell"@, "enum"@, true), ("command"@, "string"@, true), ("timeout_secs"@, "integer"@, false)],
        out.notes@.len() == 9,
        out.notes@[0]@ == "Available shells in this session: "@ + shells_listing(available_shells@) + "."@,
        out.notes@[1]@ == "Current working directory for every run_command call: "@ + working_directory@ + "."@,
        tool_text(out) == run_command_text(available_shells@, working_directory@),
{
    let listing = format_available_shells(available_shells);
    let mut shells_note = "Available shells in this session: ".to_owned();
    push_str(&mut shells_note, listing.as_str());
    push_str(&mut shells_note, ".");
    let mut directory_note = "Current working directory for every run_command call: ".to_owned();
    push_str(&mut directory_note, working_directory);
    push_str(&mut directory_note, ".");
    let out = ToolDefinition {
        name: "run_command",
        description: "Run a shell command in the workspace. Use this for capabilities that require the external environment: compilation, tests, git, grep/search, shell pipelines, build scripts, or any installed CLI tool. The command runs in a specified shell interpreter with the workspace root as the working directory.",
        parameters: vec![
            ToolParameter {
                name: "shell",
                kind: "enum",
                required: true,
                description: "The shell interpreter to use for this command.",
            },
            ToolParameter {
                name: "command",
                kind: "string",
                required: true,
                description: "The exact command text to execute in that shell.",
            },
            ToolParameter {
                name: "timeout_secs",
                kind: "integer",
                required: false,
                description: "Optional command timeout in seconds. If omitted, March defaults to 10 seconds.",
            },
        ],
        notes: vec![
            shells_note,
            directory_note,
            "Default timeout for run_command is 10 seconds.".to_owned(),
            "Set timeout_secs when the command is expected to take longer or should fail faster.".to_owned(),
            "Only choose a shell from the available-shell list above.".to_owned(),
            "Each run_command tool call may execute exactly one command. The arguments must be a single JSON object with required fields shell and command, plus optional timeout_secs.".to_owned(),
            "If you need to run two commands, emit two separate run_command tool calls instead of concatenating commands or JSON objects.".to_owned(),
            "Use run_command when you need external environment capabilities such as git, compilers, test runners, shell pipelines, or existing CLI tools.".to_owned(),
            "Do not use run_command just to read a file that is already present in the open-files context layer; use that watcher-backed snapshot directly.".to_owned(),
        ],
    };
    assert(out.parameters@.map_values(|p: ToolParameter| param_text(p)) =~= seq![("shell"@, "enum"@, true, "The shell interpreter to use for this command."@), ("command"@, "string"@, true, "The exact command text to execute in that shell."@), ("timeout_secs"@, "integer"@, false, "Optional command timeout in seconds. If omitted, March defaults to 10 seconds."@)]);
    assert(strings_view(out.notes@) =~= seq!["Available shells in this session: "@ + shells_listing(available_shells@) + "."@, "Current working directory for every run_command call: "@ + working_directory@ + "."@, "Default timeout for run_command is 10 seconds."@, "Set timeout_secs when the command is expected to take longer or should fail faster."@, "Only choose a shell from the available-shell list above."@, "Each run_command tool call may execute exactly one command. The arguments must be a single JSON object with required fields shell and command, plus optional timeout_secs."@, "If you need to run two commands, emit two separate run_command tool calls instead of concatenating commands or JSON objects."@, "Use run_command when you need external environment capabilities such as git, compilers, test runners, shell pipelines, or existing CLI tools."@, "Do not use run_command just to read a file that is already present in the open-files context layer; use that watcher-backed snapshot directly."@]);
    out
}

/// The description, parameters and usage notes of `open_file`.
pub open spec fn open_file_text() -> ToolText {
    ("Start tracking a file so its latest watcher-backed snapshot appears in the open-files context layer. The snapshot is kept in sync with disk: any external change is automatically reflected, and the content shown always includes line numbers for precise editing."@, seq![("path"@, "path"@, true, "The file to add into Ma's open-file set."@)], seq!["There is no read_file tool: opening a file IS reading it. The real on-disk content appears in context immediately and stays up to date via the file watcher."@, "Prefer open_file over run_command when the goal is to inspect a workspace file's content."@, "Once a file is open, reuse the open-files context instead of re-reading the same path through shell commands."@, "Use open_file before line-based edits when the file is not already present in the open-files layer."@, "Content limits: binary files (null bytes in the first 8 KB) are rejected. Text files are truncated at 2,000 lines, each line is capped at 1,000 characters, and overall rendered content is capped at 100 KB. If a file is truncated, a header note explains the limits — use run_command with grep/head/tail to access the rest."@])
}

fn open_file_tool() -> (out: ToolDefinition)
    ensures
        out.name@ == "open_file"@,
        tool_params(out) == seq![("path"@, "path"@, true)],
        tool_text(out) == open_file_text(),
{
    let out = ToolDefinition {
        name: "open_file",
        description: "Start tracking a file so its latest watcher-backed snapshot appears in the open-files context layer. The snapshot is kept in sync with disk: any external change is automatically reflected, and the content shown always includes line numbers for precise editing.",
        parameters: vec![ToolParameter {
            name: "path",
            kind: "path",
            required: true,
            description: "The file to add into Ma's open-file set.",
        }],
        notes: vec![
            "There is no read_file tool: opening a file IS reading it. The real on-disk content appears in context immediately and stays up to date via the file watcher.".to_owned(),
            "Prefer open_file over run_command when the goal is to inspect a workspace file's content.".to_owned(),
            "Once a file is open, reuse the open-files context instead of re-reading the same path through shell commands.".to_owned(),
            "Use open_file before line-based edits when the file is not already present in the open-files layer.".to_owned(),
            "Content limits: binary files (null bytes in the first 8 KB) are rejected. Text files are truncated at 2,000 lines, each line is capped at 1,000 characters, and overall rendered content is capped at 100 KB. If a file is truncated, a header note explains the limits — use run_command with grep/head/tail to access the rest.".to_owned(),
        ],
    };
    assert(out.parameters@.map_values(|p: ToolParameter| param_text(p)) =~= seq![("path"@, "path"@, true, "The file to add into Ma's open-file set."@)]);
    assert(strings_view(out.notes@) =~= seq!["There is no read_file tool: opening a file IS reading it. The real on-disk content appears in context immediately and stays up to date via the file watcher."@, "Prefer open_file over run_command when the goal is to inspect a workspace file's content."@, "Once a file is open, reuse the open-files context instead of re-reading the same path through shell commands."@, "Use open_file before line-based edits when the file is not already present in the open-files layer."@, "Content limits: binary files (null bytes in the first 8 KB) are rejected. Text files are truncated at 2,000 lines, each line is capped at 1,000 characters, and overall rendered content is capped at 100 KB. If a file is truncated, a header note explains the limits — use run_command with grep/head/tail to access the rest."@]);
    out
}

/// The description, parameters and usage notes of `close_file`.
pub open spec fn close_file_text() -> ToolText {
    ("Remove a tracked file from the open-files context layer and stop watching it."@, seq![("path"@, "path"@, true, "The file to remove from context."@)], seq!["Use close_file to shrink context when a file is no longer relevant."@])
}

fn close_file_tool() -> (out: ToolDefinition)
    ensures
        out.name@ == "close_file"@,
        tool_params(out) == seq![("path"@, "path"@, true)],
        tool_text(out) == close_file_text(),
{
    let out = ToolDefinition {
        name: "close_file",
        description: "Remove a tracked file from the open-files context layer and stop watching it.",
        parameters: vec![ToolParameter {
            name: "path",
            kind: "path",
            required: true,
            description: "The file to remove from context.",
        }],
        notes: vec![
            "Use close_file to shrink context when a file is no longer relevant.".to_owned(),
        ],
    };
    assert(out.parameters@.map_values(|p: ToolParameter| param_text(p)) =~= seq![("path"@, "path"@, true, "The file to remove from context."@)]);
    assert(strings_view(out.notes@) =~= seq!["Use close_file to shrink context when a file is no longer relevant."@]);
    out
}

/// The description, parameters and usage notes of `write_file`.
pub open spec fn write_file_text() -> ToolText {
    ("Create a new file or overwrite an existing file with the given content in one operation. The file is automatically added to the watcher-backed open-files set so its snapshot stays current."@, seq![("path"@, "path"@, true, "The file to create or overwrite. Parent directories are created if they do not exist."@), ("content"@, "string"@, true, "The exact file content to write."@)], seq!["Prefer write_file for creating a new file or replacing a file wholesale."@, "After write_file, the file is tracked and its snapshot in the open-files context reflects the written content."@, "On success, write_file returns a unified diff immediately so you can verify the change within the same turn without reopening the file."@, "Use line-based edit tools (replace_lines, insert_lines, delete_lines) instead when only a small region needs to change — they save tokens by only outputting the diff."@])
}

fn write_file_tool() -> (out: ToolDefinition)
    ensures
        out.name@ == "write_file"@,
        tool_params(out) == seq![("path"@, "path"@, true), ("content"@, "string"@, true)],
        tool_text(out) == write_file_text(),
{
    let out = ToolDefinition {
        name: "write_file",
        description: "Create a new file or overwrite an existing file with the given content in one operation. The file is automatically added to the watcher-backed open-files set so its snapshot stays current.",
        parameters: vec![
            ToolParameter {
                name: "path",
                kind: "path",
                required: true,
                description: "The file to create or overwrite. Parent directories are created if they do not exist.",
            },
            ToolParameter {
                name: "content",
                kind: "string",
                required: true,
                description: "The exact file content to write.",
            },
        ],
        notes: vec![
            "Prefer write_file for creating a new file or replacing a file wholesale.".to_owned(),
            "After write_file, the file is tracked and its snapshot in the open-files context reflects the written content.".to_owned(),
            "On success, write_file returns a unified diff immediately so you can verify the change within the same turn without reopening the file.".to_owned(),
            "Use line-based edit tools (replace_lines, insert_lines, delete_lines) instead when only a small region needs to change — they save tokens by only outputting the diff.".to_owned(),
        ],
    };
    assert(out.parameters@.map_values(|p: ToolParameter| param_text(p)) =~= seq![("path"@, "path"@, true, "The file to create or overwrite. Parent directories are created if they do not exist."@), ("content"@, "string"@, true, "The exact file content to write."@)]);
    assert(strings_view(out.notes@) =~= seq!["Prefer write_file for creating a new file or replacing a file wholesale."@, "After write_file, the file is tracked and its snapshot in the open-files context reflects the written content."@, "On success, write_file returns a unified diff immediately so you can verify the change within the same turn without reopening the file."@, "Use line-based edit tools (replace_lines, insert_lines, delete_lines) instead when only a small region needs to change — they save tokens by only outputting the diff."@]);
    out
}

/// The description, parameters and usage notes of `replace_lines`.
pub open spec fn replace_lines_text() -> ToolText {
    ("Replace an inclusive line range [start_line, end_line] with new content. Line numbers come from the open-files snapshot — they are absolute positions, not text patterns."@, seq![("path"@, "path"@, true, "The file to edit (must be in the open-files set)."@), ("start_line"@, "integer"@, true, "The first line to replace (1-based, inclusive)."@), ("end_line"@, "integer"@, true, "The last line to replace (1-based, inclusive)."@), ("new_content"@, "string"@, true, "The replacement text. Can be fewer or more lines than the replaced range."@)], seq!["Use replace_lines for in-place edits where you only need to output the changed lines, saving tokens compared to write_file."@, "The new_content may differ in line count from the replaced range — subsequent line numbers shift accordingly."@, "If the file was modified externally after you last saw it, the watcher will detect the change and warn before the edit is applied."@, "On success, replace_lines returns a unified diff immediately so you can verify the exact hunk without reopening the file."@])
}

fn replace_lines_tool() -> (out: ToolDefinition)
    ensures
        out.name@ == "replace_lines"@,
        tool_params(out) == seq![("path"@, "path"@, true), ("start_line"@, "integer"@, true), ("end_line"@, "integer"@, true), ("new_content"@, "string"@, true)],
        tool_text(out) == replace_lines_text(),
{
    let out = ToolDefinition {
        name: "replace_lines",
        description: "Replace an inclusive line range [start_line, end_line] with new content. Line numbers come from the open-files snapshot — they are absolute positions, not text patterns.",
        parameters: vec![
            ToolParameter {
                name: "path",
                kind: "path",
                required: true,
                description: "The file to edit (must be in the open-files set).",
            },
            ToolParameter {
                name: "start_line",
                kind: "integer",
                required: true,
                description: "The first line to replace (1-based, inclusive).",
            },
            ToolParameter {
                name: "end_line",
                kind: "integer",
                required: true,
                description: "The last line to replace (1-based, inclusive).",
            },
            ToolParameter {
                name: "new_content",
                kind: "string",
                required: true,
                description: "The replacement text. Can be fewer or more lines than the replaced range.",
            },
        ],
        notes: vec![
            "Use replace_lines for in-place edits where you only need to output the changed lines, saving tokens compared to write_file.".to_owned(),
            "The new_content may differ in line count from the replaced range — subsequent line numbers shift accordingly.".to_owned(),
            "If the file was modified externally after you last saw it, the watcher will detect the change and warn before the edit is applied.".to_owned(),
            "On success, replace_lines returns a unified diff immediately so you can verify the exact hunk without reopening the file.".to_owned(),
        ],
    };
    assert(out.parameters@.map_values(|p: ToolParameter| param_text(p)) =~= seq![("path"@, "path"@, true, "The file to edit (must be in the open-files set)."@), ("start_line"@, "integer"@, true, "The first line to replace (1-based, inclusive)."@), ("end_line"@, "integer"@, true, "The last line to replace (1-based, inclusive)."@), ("new_content"@, "string"@, true, "The replacement text. Can be fewer or more lines than the replaced range."@)]);
    assert(strings_view(out.notes@) =~= seq!["Use replace_lines for in-place edits where you only need to output the changed lines, saving tokens compared to write_file."@, "The new_content may differ in line count from the replaced range — subsequent line numbers shift accordingly."@, "If the file was modified externally after you last saw it, the watcher will detect the change and warn before the edit is applied."@, "On success, replace_lines returns a unified diff immediately so you can verify the exact hunk without reopening the file."@]);
    out
}

/// The description, parameters and usage notes of `insert_lines`.
pub open spec fn insert_lines_text() -> ToolText {
    ("Insert new lines after a specific line number without replacing any existing content."@, seq![("path"@, "path"@, true, "The file to edit (must be in the open-files set)."@), ("after_line"@, "integer"@, true, "Insert new content after this line number (1-based). Use 0 to prepend before the first line."@), ("new_content"@, "string"@, true, "The content to insert. Can be one or more lines."@)], seq!["Use insert_lines for purely additive edits — adding new functions, imports, or blocks without touching existing lines."@, "Subsequent line numbers shift down by the number of inserted lines."@, "On success, insert_lines returns a unified diff immediately so you can inspect the inserted hunk without reopening the file."@])
}

fn insert_lines_tool() -> (out: ToolDefinition)
    ensures
        out.name@ == "insert_lines"@,
        tool_params(out) == seq![("path"@, "path"@, true), ("after_line"@, "integer"@, true), ("new_content"@, "string"@, true)],
        tool_text(out) == insert_lines_text(),
{
    let out = ToolDefinition {
        name: "insert_lines",
        description: "Insert new lines after a specific line number without replacing any existing content.",
        parameters: vec![
            ToolParameter {
                name: "path",
                kind: "path",
                required: true,
                description: "The file to edit (must be in the open-files set).",
            },
            ToolParameter {
                name: "after_line",
                kind: "integer",
                required: true,
                description: "Insert new content after this line number (1-based). Use 0 to prepend before the first line.",
            },
            ToolParameter {
                name: "new_content",
                kind: "string",
                required: true,
                description: "The content to insert. Can be one or more lines.",
            },
        ],
        notes: vec![
            "Use insert_lines for purely additive edits — adding new functions, imports, or blocks without touching existing lines.".to_owned(),
            "Subsequent line numbers shift down by the number of inserted lines.".to_owned(),
            "On success, insert_lines returns a unified diff immediately so you can inspect the inserted hunk without reopening the file.".to_owned(),
        ],
    };
    assert(out.parameters@.map_values(|p: ToolParameter| param_text(p)) =~= seq![("path"@, "path"@, true, "The file to edit (must be in the open-files set)."@), ("after_line"@, "integer"@, true, "Insert new content after this line number (1-based). Use 0 to prepend before the first line."@), ("new_content"@, "string"@, true, "The content to insert. Can be one or more lines."@)]);
    assert(strings_view(out.notes@) =~= seq!["Use insert_lines for purely additive edits — adding new functions, imports, or blocks without touching existing lines."@, "Subsequent line numbers shift down by the number of inserted lines."@, "On success, insert_lines returns a unified diff immediately so you can inspect the inserted hunk without reopening the file."@]);
    out
}

/// The description, parameters and usage notes of `delete_lines`.
pub open spec fn delete_lines_text() -> ToolText {
    ("Delete an inclusive line range [start_line, end_line] from a file without replacing it with new content."@, seq![("path"@, "path"@, true, "The file to edit (must be in the open-files set)."@), ("start_line"@, "integer"@, true, "The first line to delete (1-based, inclusive)."@), ("end_line"@, "integer"@, true, "The last line to delete (1-based, inclusive)."@)], seq!["Use delete_lines for pure removal — dropping imports, dead code, or empty blocks."@, "Subsequent line numbers shift up by the number of deleted lines."@, "On success, delete_lines returns a unified diff immediately so you can confirm the removed hunk without reopening the file."@])
}

fn delete_lines_tool() -> (out: ToolDefinition)
    ensures
        out.name@ == "delete_lines"@,
        tool_params(out) == seq![("path"@, "path"@, true), ("start_line"@, "integer"@, true), ("end_line"@, "integer"@, true)],
        tool_text(out) == delete_lines_text(),
{
    let out = ToolDefinition {
        name: "delete_lines",
        description: "Delete an inclusive line range [start_line, end_line] from a file without replacing it with new content.",
        parameters: vec![
            ToolParameter {
                name: "path",
                kind: "path",
                required: true,
                description: "The file to edit (must be in the open-files set).",
            },
            ToolParameter {
                name: "start_line",
                kind: "integer",
                required: true,
                description: "The first line to delete (1-based, inclusive).",
            },
            ToolParameter {
                name: "end_line",
                kind: "integer",
                required: true,
                description: "The last line to delete (1-based, inclusive).",
            },
        ],
        notes: vec![
            "Use delete_lines for pure removal — dropping imports, dead code, or empty blocks."
                .to_owned(),
            "Subsequent line numbers shift up by the number of deleted lines.".to_owned(),
            "On success, delete_lines returns a unified diff immediately so you can confirm the removed hunk without reopening the file.".to_owned(),
        ],
    };
    assert(out.parameters@.map_values(|p: ToolParameter| param_text(p)) =~= seq![("path"@, "path"@, true, "The file to edit (must be in the open-files set)."@), ("start_line"@, "integer"@, true, "The first line to delete (1-based, inclusive)."@), ("end_line"@, "integer"@, true, "The last line to delete (1-based, inclusive)."@)]);
    assert(strings_view(out.notes@) =~= seq!["Use delete_lines for pure removal — dropping imports, dead code, or empty blocks."@, "Subsequent line numbers shift up by the number of deleted lines."@, "On success, delete_lines returns a unified diff immediately so you can confirm the removed hunk without reopening the file."@]);
    out
}

/// The description, parameters and usage notes of `write_note`.
pub open spec fn write_note_text() -> ToolText {
    ("Create or overwrite a persistent note in the AI's cross-turn working memory. Reusing an existing id replaces that note's content instead of creating a second similar entry."@, seq![("id"@, "string"@, true, "The stable identifier for this note. If this id already exists, write_note overwrites the existing note in place."@), ("content"@, "string"@, true, "The full note body to store as the current content for this id."@)], seq!["Use write_note to preserve important state across turns, such as the current task target, a build error summary, or a working plan."@, "Treat note ids as stable memory slots: reuse the same id when updating the same fact, plan, identity, or status. Recommended ids: target, plan, build_output, user_identity."@, "If a note with that id already exists, write_note replaces it (upsert semantics); it does not append a second note."@, "Do not invent near-duplicate ids like target_v2 or latest_target — overwrite the original id instead."@, "Create a new id only when the new information truly needs to coexist with existing notes in future turns."@])
}

fn write_note_tool() -> (out: ToolDefinition)
    ensures
        out.name@ == "write_note"@,
        tool_params(out) == seq![("id"@, "string"@, true), ("content"@, "string"@, true)],
        tool_text(out) == write_note_text(),
{
    let out = ToolDefinition {
        name: "write_note",
        description: "Create or overwrite a persistent note in the AI's cross-turn working memory. Reusing an existing id replaces that note's content instead of creating a second similar entry.",
        parameters: vec![
            ToolParameter {
                name: "id",
                kind: "string",
                required: true,
                description: "The stable identifier for this note. If this id already exists, write_note overwrites the existing note in place.",
            },
            ToolParameter {
                name: "content",
                kind: "string",
                required: true,
                description: "The full note body to store as the current content for this id.",
            },
        ],
        notes: vec![
            "Use write_note to preserve important state across turns, such as the current task target, a build error summary, or a working plan.".to_owned(),
            "Treat note ids as stable memory slots: reuse the same id when updating the same fact, plan, identity, or status. Recommended ids: target, plan, build_output, user_identity.".to_owned(),
            "If a note with that id already exists, write_note replaces it (upsert semantics); it does not append a second note.".to_owned(),
            "Do not invent near-duplicate ids like target_v2 or latest_target — overwrite the original id instead.".to_owned(),
            "Create a new id only when the new information truly needs to coexist with existing notes in future turns.".to_owned(),
        ],
    };
    assert(out.parameters@.map_values(|p: ToolParameter| param_text(p)) =~= seq![("id"@, "string"@, true, "The stable identifier for this note. If this id already exists, write_note overwrites the existing note in place."@), ("content"@, "string"@, true, "The full note body to store as the current content for this id."@)]);
    assert(strings_view(out.notes@) =~= seq!["Use write_note to preserve important state across turns, such as the current task target, a build error summary, or a working plan."@, "Treat note ids as stable memory slots: reuse the same id when updating the same fact, plan, identity, or status. Recommended ids: target, plan, build_output, user_identity."@, "If a note with that id already exists, write_note replaces it (upsert semantics); it does not append a second note."@, "Do not invent near-duplicate ids like target_v2 or latest_target — overwrite the original id instead."@, "Create a new id only when the new information truly needs to coexist with existing notes in future turns."@]);
    out
}

/// The description, parameters and usage notes of `remove_note`.
pub open spec fn remove_note_text() -> ToolText {
    ("Delete a note that is no longer useful in cross-turn context."@, seq![("id"@, "string"@, true, "The note identifier to remove."@)], seq!["Use remove_note once the stored state becomes stale, solved, or irrelevant."@])
}

fn remove_note_tool() -> (out: ToolDefinition)
    ensures
        out.name@ == "remove_note"@,
        tool_params(out) == seq![("id"@, "string"@, true)],
        tool_text(out) == remove_note_text(),
{
    let out = ToolDefinition {
        name: "remove_note",
        description: "Delete a note that is no longer useful in cross-turn context.",
        parameters: vec![ToolParameter {
            name: "id",
            kind: "string",
            required: true,
            description: "The note identifier to remove.",
        }],
        notes: vec![
            "Use remove_note once the stored state becomes stale, solved, or irrelevant."
                .to_owned(),
        ],
    };
    assert(out.parameters@.map_values(|p: ToolParameter| param_text(p)) =~= seq![("id"@, "string"@, true, "The note identifier to remove."@)]);
    assert(strings_view(out.notes@) =~= seq!["Use remove_note once the stored state becomes stale, solved, or irrelevant."@]);
    out
}

/// The description, parameters and usage notes of `create_agent`.
pub open spec fn create_agent_text() -> ToolText {
    ("Create a reusable agent profile that can later be invoked with @agent_name in chat."@, seq![("name"@, "string"@, true, "Stable agent name used in @mentions, usually lowercase and concise."@), ("display_name"@, "string"@, true, "Human-friendly label shown in the UI."@), ("description"@, "string"@, true, "One-sentence summary of what this agent is for."@), ("system_prompt"@, "string"@, true, "The role instruction that defines how this agent behaves."@), ("avatar_color"@, "string"@, false, "Optional hex color used to distinguish this agent in the UI."@), ("provider_id"@, "integer"@, false, "Optional provider binding. Omit to follow the task default."@), ("model"@, "string"@, false, "Optional model binding. Omit to follow the task default."@)], seq!["Use create_agent when the user asks you to create a reusable auditor, architect, planner, or similar role."@, "Agent names are normalized to lowercase mention names such as auditor or architect."@])
}

fn create_agent_tool() -> (out: ToolDefinition)
    ensures
        out.name@ == "create_agent"@,
        tool_params(out) == seq![("name"@, "string"@, true), ("display_name"@, "string"@, true), ("description"@, "string"@, true), ("system_prompt"@, "string"@, true), ("avatar_color"@, "string"@, false), ("provider_id"@, "integer"@, false), ("model"@, "string"@, false)],
        tool_text(out) == create_agent_text(),
{
    let out = ToolDefinition {
        name: "create_agent",
        description: "Create a reusable agent profile that can later be invoked with @agent_name in chat.",
        parameters: vec![
            ToolParameter {
                name: "name",
                kind: "string",
                required: true,
                description: "Stable agent name used in @mentions, usually lowercase and concise.",
            },
            ToolParameter {
                name: "display_name",
                kind: "string",
                required: true,
                description: "Human-friendly label shown in the UI.",
            },
            ToolParameter {
                name: "description",
                kind: "string",
                required: true,
                description: "One-sentence summary of what this agent is for.",
            },
            ToolParameter {
                name: "system_prompt",
                kind: "string",
                required: true,
                description: "The role instruction that defines how this agent behaves.",
            },
            ToolParameter {
                name: "avatar_color",
                kind: "string",
                required: false,
                description: "Optional hex color used to distinguish this agent in the UI.",
            },
            ToolParameter {
                name: "provider_id",
                kind: "integer",
                required: false,
                description: "Optional provider binding. Omit to follow the task default.",
            },
            ToolParameter {
                name: "model",
                kind: "string",
                required: false,
                description: "Optional model binding. Omit to follow the task default.",
            },
        ],
        notes: vec![
            "Use create_agent when the user asks you to create a reusable auditor, architect, planner, or similar role.".to_owned(),
            "Agent names are normalized to lowercase mention names such as auditor or architect.".to_owned(),
        ],
    };
    assert(out.parameters@.map_values(|p: ToolParameter| param_text(p)) =~= seq![("name"@, "string"@, true, "Stable agent name used in @mentions, usually lowercase and concise."@), ("display_name"@, "string"@, true, "Human-friendly label shown in the UI."@), ("description"@, "string"@, true, "One-sentence summary of what this agent is for."@), ("system_prompt"@, "string"@, true, "The role instruction that defines how this agent behaves."@), ("avatar_color"@, "string"@, false, "Optional hex color used to distinguish this agent in the UI."@), ("provider_id"@, "integer"@, false, "Optional provider binding. Omit to follow the task default."@), ("model"@, "string"@, false, "Optional model binding. Omit to follow the task default."@)]);
    assert(strings_view(out.notes@) =~= seq!["Use create_agent when the user asks you to create a reusable auditor, architect, planner, or similar role."@, "Agent names are normalized to lowercase mention names such as auditor or architect."@]);
    out
}

/// The description, parameters and usage notes of `memorize`.
pub open spec fn memorize_text() -> ToolText {
    ("Create or overwrite a long-term memory that survives across tasks and sessions. Project memories are stored in `.march/memories/*.md`; global memories are stored in the user settings database."@, seq![("id"@, "string"@, true, "Stable memory id. For project memories this becomes the markdown filename. Reuse the same id to refresh an existing memory instead of creating duplicates."@), ("memory_type"@, "string"@, true, "Free-form memory type such as fact, decision, pattern, preference, or caveat."@), ("topic"@, "string"@, true, "Topic bucket used for grouping related memories, such as auth, testing, style, or deployment."@), ("title"@, "string"@, true, "One-line summary shown in the memory index."@), ("content"@, "string"@, true, "The full memory detail body."@), ("tags"@, "string_array"@, true, "Keyword list for retrieval. Provide it as an array of strings."@), ("scope"@, "string"@, false, "Optional scope: shared or a specific agent name."@), ("level"@, "string"@, false, "Optional level: project or global. When omitted, preference defaults to global and everything else defaults to project."@)], seq!["Before calling memorize, check whether the same memory already exists in the Memory Index. If it does, reuse that exact id."@, "Prefer update_memory for changing an existing durable fact or preference. Use memorize only when you are creating a genuinely new memory slot."@, "Do not create near-duplicate memories with fresh ids when an indexed memory already represents the same fact, preference, or decision."@, "Use memories for durable project knowledge, decisions, workflows, and user preferences — not for short-lived task state."@])
}

fn memorize_tool() -> (out: ToolDefinition)
    ensures
        out.name@ == "memorize"@,
        tool_params(out) == seq![("id"@, "string"@, true), ("memory_type"@, "string"@, true), ("topic"@, "string"@, true), ("title"@, "string"@, true), ("content"@, "string"@, true), ("tags"@, "string_array"@, true), ("scope"@, "string"@, false), ("level"@, "string"@, false)],
        tool_text(out) == memorize_text(),
{
    let out = ToolDefinition {
        name: "memorize",
        description: "Create or overwrite a long-term memory that survives across tasks and sessions. Project memories are stored in `.march/memories/*.md`; global memories are stored in the user settings database.",
        parameters: vec![
            ToolParameter {
                name: "id",
                kind: "string",
                required: true,
                description: "Stable memory id. For project memories this becomes the markdown filename. Reuse the same id to refresh an existing memory instead of creating duplicates.",
            },
            ToolParameter {
                name: "memory_type",
                kind: "string",
                required: true,
                description: "Free-form memory type such as fact, decision, pattern, preference, or caveat.",
            },
            ToolParameter {
                name: "topic",
                kind: "string",
                required: true,
                description: "Topic bucket used for grouping related memories, such as auth, testing, style, or deployment.",
            },
            ToolParameter {
                name: "title",
                kind: "string",
                required: true,
                description: "One-line summary shown in the memory index.",
            },
            ToolParameter {
                name: "content",
                kind: "string",
                required: true,
                description: "The full memory detail body.",
            },
            ToolParameter {
                name: "tags",
                kind: "string_array",
                required: true,
                description: "Keyword list for retrieval. Provide it as an array of strings.",
            },
            ToolParameter {
                name: "scope",
                kind: "string",
                required: false,
                description: "Optional scope: shared or a specific agent name.",
            },
            ToolParameter {
                name: "level",
                kind: "string",
                required: false,
                description: "Optional level: project or global. When omitted, preference defaults to global and everything else defaults to project.",
            },
        ],
        notes: vec![
            "Before calling memorize, check whether the same memory already exists in the Memory Index. If it does, reuse that exact id.".to_owned(),
            "Prefer update_memory for changing an existing durable fact or preference. Use memorize only when you are creating a genuinely new memory slot.".to_owned(),
            "Do not create near-duplicate memories with fresh ids when an indexed memory already represents the same fact, preference, or decision.".to_owned(),
            "Use memories for durable project knowledge, decisions, workflows, and user preferences — not for short-lived task state.".to_owned(),
        ],
    };
    assert(out.parameters@.map_values(|p: ToolParameter| param_text(p)) =~= seq![("id"@, "string"@, true, "Stable memory id. For project memories this becomes the markdown filename. Reuse the same id to refresh an existing memory instead of creating duplicates."@), ("memory_type"@, "string"@, true, "Free-form memory type such as fact, decision, pattern, preference, or caveat."@), ("topic"@, "string"@, true, "Topic bucket used for grouping related memories, such as auth, testing, style, or deployment."@), ("title"@, "string"@, true, "One-line summary shown in the memory index."@), ("content"@, "string"@, true, "The full memory detail body."@), ("tags"@, "string_array"@, true, "Keyword list for retrieval. Provide it as an array of strings."@), ("scope"@, "string"@, false, "Optional scope: shared or a specific agent name."@), ("level"@, "string"@, false, "Optional level: project or global. When omitted, preference defaults to global and everything else defaults to project."@)]);
    assert(strings_view(out.notes@) =~= seq!["Before calling memorize, check whether the same memory already exists in the Memory Index. If it does, reuse that exact id."@, "Prefer update_memory for changing an existing durable fact or preference. Use memorize only when you are creating a genuinely new memory slot."@, "Do not create near-duplicate memories with fresh ids when an indexed memory already represents the same fact, preference, or decision."@, "Use memories for durable project knowledge, decisions, workflows, and user preferences — not for short-lived task state."@]);
    out
}

/// The description, parameters and usage notes of `recall_memory`.
pub open spec fn recall_memory_text() -> ToolText {
    ("Load the full content for one indexed memory by id."@, seq![("id"@, "string"@, true, "Memory id from the memory index, usually prefixed like p:auth-policy or g:user-style."@)], seq!["recall_memory increments the memory's access count and resets its skip count."@])
}

fn recall_memory_tool() -> (out: ToolDefinition)
    ensures
        out.name@ == "recall_memory"@,
        tool_params(out) == seq![("id"@, "string"@, true)],
        tool_text(out) == recall_memory_text(),
{
    let out = ToolDefinition {
        name: "recall_memory",
        description: "Load the full content for one indexed memory by id.",
        parameters: vec![ToolParameter {
            name: "id",
            kind: "string",
            required: true,
            description: "Memory id from the memory index, usually prefixed like p:auth-policy or g:user-style.",
        }],
        notes: vec![
            "recall_memory increments the memory's access count and resets its skip count."
                .to_owned(),
        ],
    };
    assert(out.parameters@.map_values(|p: ToolParameter| param_text(p)) =~= seq![("id"@, "string"@, true, "Memory id from the memory index, usually prefixed like p:auth-policy or g:user-style."@)]);
    assert(strings_view(out.notes@) =~= seq!["recall_memory increments the memory's access count and resets its skip count."@]);
    out
}

/// The description, parameters and usage notes of `update_memory`.
pub open spec fn update_memory_text() -> ToolText {
    ("Update selected fields on an existing long-term memory."@, seq![("id"@, "string"@, true, "Existing memory id, prefixed or raw."@), ("title"@, "string"@, false, "Optional replacement title."@), ("content"@, "string"@, false, "Optional replacement content."@), ("tags"@, "string_array"@, false, "Optional replacement tag array."@), ("topic"@, "string"@, false, "Optional replacement topic."@), ("memory_type"@, "string"@, false, "Optional replacement memory type."@)], seq!["When the Memory Index already shows the target memory, treat its displayed id as the source of truth for edits."@, "Use update_memory when the same durable fact still exists but needs a cleaner title, fresher content, or new retrieval tags."@, "Prefer update_memory over memorize whenever the new information replaces or refines an existing memory instead of introducing a separate one."@])
}

fn update_memory_tool() -> (out: ToolDefinition)
    ensures
        out.name@ == "update_memory"@,
        tool_params(out) == seq![("id"@, "string"@, true), ("title"@, "string"@, false), ("content"@, "string"@, false), ("tags"@, "string_array"@, false), ("topic"@, "string"@, false), ("memory_type"@, "string"@, false)],
        tool_text(out) == update_memory_text(),
{
    let out = ToolDefinition {
        name: "update_memory",
        description: "Update selected fields on an existing long-term memory.",
        parameters: vec![
            ToolParameter {
                name: "id",
                kind: "string",
                required: true,
                description: "Existing memory id, prefixed or raw.",
            },
            ToolParameter {
                name: "title",
                kind: "string",
                required: false,
                description: "Optional replacement title.",
            },
            ToolParameter {
                name: "content",
                kind: "string",
                required: false,
                description: "Optional replacement content.",
            },
            ToolParameter {
                name: "tags",
                kind: "string_array",
                required: false,
                description: "Optional replacement tag array.",
            },
            ToolParameter {
                name: "topic",
                kind: "string",
                required: false,
                description: "Optional replacement topic.",
            },
            ToolParameter {
                name: "memory_type",
                kind: "string",
                required: false,
                description: "Optional replacement memory type.",
            },
        ],
        notes: vec![
            "When the Memory Index already shows the target memory, treat its displayed id as the source of truth for edits.".to_owned(),
            "Use update_memory when the same durable fact still exists but needs a cleaner title, fresher content, or new retrieval tags.".to_owned(),
            "Prefer update_memory over memorize whenever the new information replaces or refines an existing memory instead of introducing a separate one.".to_owned(),
        ],
    };
    assert(out.parameters@.map_values(|p: ToolParameter| param_text(p)) =~= seq![("id"@, "string"@, true, "Existing memory id, prefixed or raw."@), ("title"@, "string"@, false, "Optional replacement title."@), ("content"@, "string"@, false, "Optional replacement content."@), ("tags"@, "string_array"@, false, "Optional replacement tag array."@), ("topic"@, "string"@, false, "Optional replacement topic."@), ("memory_type"@, "string"@, false, "Optional replacement memory type."@)]);
    assert(strings_view(out.notes@) =~= seq!["When the Memory Index already shows the target memory, treat its displayed id as the source of truth for edits."@, "Use update_memory when the same durable fact still exists but needs a cleaner title, fresher content, or new retrieval tags."@, "Prefer update_memory over memorize whenever the new information replaces or refines an existing memory instead of introducing a separate one."@]);
    out
}

/// The description, parameters and usage notes of `forget_memory`.
pub open spec fn forget_memory_text() -> ToolText {
    ("Delete an outdated or redundant long-term memory."@, seq![("id"@, "string"@, true, "Existing memory id, prefixed or raw."@)], seq!["Use forget_memory when the stored information is no longer true or a new consolidated memory has replaced several older ones."@])
}

fn forget_memory_tool() -> (out: ToolDefinition)
    ensures
        out.name@ == "forget_memory"@,
        tool_params(out) == seq![("id"@, "string"@, true)],
        tool_text(out) == forget_memory_text(),
{
    let out = ToolDefinition {
        name: "forget_memory",
        description: "Delete an outdated or redundant long-term memory.",
        parameters: vec![ToolParameter {
            name: "id",
            kind: "string",
            required: true,
            description: "Existing memory id, prefixed or raw.",
        }],
        notes: vec![
            "Use forget_memory when the stored information is no longer true or a new consolidated memory has replaced several older ones.".to_owned(),
        ],
    };
    assert(out.parameters@.map_values(|p: ToolParameter| param_text(p)) =~= seq![("id"@, "string"@, true, "Existing memory id, prefixed or raw."@)]);
    assert(strings_view(out.notes@) =~= seq!["Use forget_memory when the stored information is no longer true or a new consolidated memory has replaced several older ones."@]);
    out
}

/// The description, parameters and usage notes of `update_agent`.
pub open spec fn update_agent_text() -> ToolText {
    ("Update an existing agent profile, including its prompt, display name, color, or model binding."@, seq![("name"@, "string"@, true, "The existing agent name to update."@), ("display_name"@, "string"@, false, "Optional new UI label."@), ("description"@, "string"@, false, "Optional new one-sentence role summary."@), ("system_prompt"@, "string"@, false, "Optional replacement role instruction."@), ("avatar_color"@, "string"@, false, "Optional replacement avatar color."@), ("provider_id"@, "integer"@, false, "Optional provider binding. Use null with clear_model_binding to follow the task default."@), ("model"@, "string"@, false, "Optional replacement model binding."@), ("clear_model_binding"@, "boolean"@, false, "When true, clears provider/model binding so the agent follows the task default."@)], seq!["Use update_agent when refining an existing role after the user asks for prompt or model changes."@, "If the target is march, only the system prompt is persisted as March customization; name itself cannot be renamed."@])
}

fn update_agent_tool() -> (out: ToolDefinition)
    ensures
        out.name@ == "update_agent"@,
        tool_params(out) == seq![("name"@, "string"@, true), ("display_name"@, "string"@, false), ("description"@, "string"@, false), ("system_prompt"@, "string"@, false), ("avatar_color"@, "string"@, false), ("provider_id"@, "integer"@, false), ("model"@, "string"@, false), ("clear_model_binding"@, "boolean"@, false)],
        tool_text(out) == update_agent_text(),
{
    let out = ToolDefinition {
        name: "update_agent",
        description: "Update an existing agent profile, including its prompt, display name, color, or model binding.",
        parameters: vec![
            ToolParameter {
                name: "name",
                kind: "string",
                required: true,
                description: "The existing agent name to update.",
            },
            ToolParameter {
                name: "display_name",
                kind: "string",
                required: false,
                description: "Optional new UI label.",
            },
            ToolParameter {
                name: "description",
                kind: "string",
                required: false,
                description: "Optional new one-sentence role summary.",
            },
            ToolParameter {
                name: "system_prompt",
                kind: "string",
                required: false,
                description: "Optional replacement role instruction.",
            },
            ToolParameter {
                name: "avatar_color",
                kind: "string",
                required: false,
                description: "Optional replacement avatar color.",
            },
            ToolParameter {
                name: "provider_id",
                kind: "integer",
                required: false,
                description: "Optional provider binding. Use null with clear_model_binding to follow the task default.",
            },
            ToolParameter {
                name: "model",
                kind: "string",
                required: false,
                description: "Optional replacement model binding.",
            },
            ToolParameter {
                name: "clear_model_binding",
                kind: "boolean",
                required: false,
                description: "When true, clears provider/model binding so the agent follows the task default.",
            },
        ],
        notes: vec![
            "Use update_agent when refining an existing role after the user asks for prompt or model changes.".to_owned(),
            "If the target is march, only the system prompt is persisted as March customization; name itself cannot be renamed.".to_owned(),
        ],
    };
    assert(out.parameters@.map_values(|p: ToolParameter| param_text(p)) =~= seq![("name"@, "string"@, true, "The existing agent name to update."@), ("display_name"@, "string"@, false, "Optional new UI label."@), ("description"@, "string"@, false, "Optional new one-sentence role summary."@), ("system_prompt"@, "string"@, false, "Optional replacement role instruction."@), ("avatar_color"@, "string"@, false, "Optional replacement avatar color."@), ("provider_id"@, "integer"@, false, "Optional provider binding. Use null with clear_model_binding to follow the task default."@), ("model"@, "string"@, false, "Optional replacement model binding."@), ("clear_model_binding"@, "boolean"@, false, "When true, clears provider/model binding so the agent follows the task default."@)]);
    assert(strings_view(out.notes@) =~= seq!["Use update_agent when refining an existing role after the user asks for prompt or model changes."@, "If the target is march, only the system prompt is persisted as March customization; name itself cannot be renamed."@]);
    out
}

/// The description, parameters and usage notes of `delete_agent`.
pub open spec fn delete_agent_text() -> ToolText {
    ("Delete a reusable agent profile."@, seq![("name"@, "string"@, true, "The agent name to delete."@)], seq!["Do not delete the built-in march agent."@, "Deleting the currently active non-March agent is rejected to avoid invalidating the running turn."@])
}

fn delete_agent_tool() -> (out: ToolDefinition)
    ensures
        out.name@ == "delete_agent"@,
        tool_params(out) == seq![("name"@, "string"@, true)],
        tool_text(out) == delete_agent_text(),
{
    let out = ToolDefinition {
        name: "delete_agent",
        description: "Delete a reusable agent profile.",
        parameters: vec![ToolParameter {
            name: "name",
            kind: "string",
            required: true,
            description: "The agent name to delete.",
        }],
        notes: vec![
            "Do not delete the built-in march agent.".to_owned(),
            "Deleting the currently active non-March agent is rejected to avoid invalidating the running turn.".to_owned(),
        ],
    };
    assert(out.parameters@.map_values(|p: ToolParameter| param_text(p)) =~= seq![("name"@, "string"@, true, "The agent name to delete."@)]);
    assert(strings_view(out.notes@) =~= seq!["Do not delete the built-in march agent."@, "Deleting the currently active non-March agent is rejected to avoid invalidating the running turn."@]);
    out
}

/// The names of the tools offered in every session, in the order offered.
pub open spec fn session_tool_names() -> Seq<Seq<char>> {
    seq!["run_command"@, "open_file"@, "close_file"@, "write_file"@, "replace_lines"@, "insert_lines"@, "delete_lines"@, "write_note"@, "remove_note"@, "memorize"@, "recall_memory"@, "update_memory"@, "forget_memory"@, "create_agent"@, "update_agent"@, "delete_agent"@]
}

/// The parameter signatures of the tools offered in every session.
pub open spec fn session_tool_params() -> Seq<Seq<(Seq<char>, Seq<char>, bool)>> {
    seq![
        seq![("shell"@, "enum"@, true), ("command"@, "string"@, true), ("timeout_secs"@, "integer"@, false)],
        seq![("path"@, "path"@, true)],
        seq![("path"@, "path"@, true)],
        seq![("path"@, "path"@, true), ("content"@, "string"@, true)],
        seq![("path"@, "path"@, true), ("start_line"@, "integer"@, true), ("end_line"@, "integer"@, true), ("new_content"@, "string"@, true)],
        seq![("path"@, "path"@, true), ("after_line"@, "integer"@, true), ("new_content"@, "string"@, true)],
        seq![("path"@, "path"@, true), ("start_line"@, "integer"@, true), ("end_line"@, "integer"@, true)],
        seq![("id"@, "string"@, true), ("content"@, "string"@, true)],
        seq![("id"@, "string"@, true)],
        seq![("id"@, "string"@, true), ("memory_type"@, "string"@, true), ("topic"@, "string"@, true), ("title"@, "string"@, true), ("content"@, "string"@, true), ("tags"@, "string_array"@, true), ("scope"@, "string"@, false), ("level"@, "string"@, false)],
        seq![("id"@, "string"@, true)],
        seq![("id"@, "string"@, true), ("title"@, "string"@, false), ("content"@, "string"@, false), ("tags"@, "string_array"@, false), ("topic"@, "string"@, false), ("memory_type"@, "string"@, false)],
        seq![("id"@, "string"@, true)],
        seq![("name"@, "string"@, true), ("display_name"@, "string"@, true), ("description"@, "string"@, true), ("system_prompt"@, "string"@, true), ("avatar_color"@, "string"@, false), ("provider_id"@, "integer"@, false), ("model"@, "string"@, false)],
        seq![("name"@, "string"@, true), ("display_name"@, "string"@, false), ("description"@, "string"@, false), ("system_prompt"@, "string"@, false), ("avatar_color"@, "string"@, false), ("provider_id"@, "integer"@, false), ("model"@, "string"@, false), ("clear_model_binding"@, "boolean"@, false)],
        seq![("name"@, "string"@, true)],
    ]
}

/// What each tool offered in a session tells the model, in the order offered.
pub open spec fn session_tool_texts(available_shells: Seq<AvailableShell>, working_directory: Seq<char>) -> Seq<ToolText> {
    seq![run_command_text(available_shells, working_directory), open_file_text(), close_file_text(), write_file_text(), replace_lines_text(), insert_lines_text(), delete_lines_text(), write_note_text(), remove_note_text(), memorize_text(), recall_memory_text(), update_memory_text(), forget_memory_text(), create_agent_text(), update_agent_text(), delete_agent_text()]
}

/// The name of a tool.
pub open spec fn tool_name(t: ToolDefinition) -> Seq<char> {
    t.name@
}

impl ToolRuntime {
    /// The tools of a session whose commands run in `working_directory` with
    /// the given shells.
    pub fn for_session(available_shells: &[AvailableShell], working_directory: &str) -> (out: ToolRuntime)
        ensures
            out.tools@.map_values(|t: ToolDefinition| tool_name(t)) == session_tool_names(),
            out.tools@.map_values(|t: ToolDefinition| tool_params(t)) == session_tool_params(),
            out.tools@[0].notes@[0]@ == "Available shells in this session: "@ + shells_listing(available_shells@) + "."@,
            out.tools@[0].notes@[1]@ == "Current working directory for every run_command call: "@ + working_directory@ + "."@,
            out.tools@.map_values(|t: ToolDefinition| tool_text(t)) == session_tool_texts(available_shells@, working_directory@),
    {
        let tools = vec![
            run_command_tool(available_shells, working_directory),
            open_file_tool(),
            close_file_tool(),
            write_file_tool(),
            replace_lines_tool(),
            insert_lines_tool(),
            delete_lines_tool(),
            write_note_tool(),
            remove_note_tool(),
            memorize_tool(),
            recall_memory_tool(),
            update_memory_tool(),
            forget_memory_tool(),
            create_agent_tool(),
            update_agent_tool(),
            delete_agent_tool(),
        ];
        let out = ToolRuntime { tools };
        assert(out.tools@.map_values(|t: ToolDefinition| tool_name(t)) =~= session_tool_names());
        assert(out.tools@.map_values(|t: ToolDefinition| tool_params(t)) =~= session_tool_params());
        assert(out.tools@.map_values(|t: ToolDefinition| tool_text(t)) =~= session_tool_texts(available_shells@, working_directory@));
        out
    }
}


/// The prompt line of one parameter.
pub open spec fn param_line(p: ToolParameter) -> Seq<char> {
    "- "@ + p.name@ + " ("@ + p.kind@ + ")"@ + (if p.required {
        ", required"@
    } else {
        Seq::empty()
    }) + ": "@ + p.description@ + "\n"@
}

/// The prompt lines of a tool's parameters.
pub open spec fn param_lines(ps: Seq<ToolParameter>) -> Seq<char>
    decreases ps.len(),
{
    if ps.len() == 0 {
        Seq::empty()
    } else {
        param_lines(ps.drop_last()) + param_line(ps.last())
    }
}

/// The prompt lines of a tool's usage notes.
pub open spec fn note_lines(ns: Seq<String>) -> Seq<char>
    decreases ns.len(),
{
    if ns.len() == 0 {
        Seq::empty()
    } else {
        note_lines(ns.drop_last()) + "- "@ + ns.last()@ + "\n"@
    }
}

/// The prompt section of one tool: a heading, its description, its
/// parameters and its usage notes, and a blank line.
pub open spec fn tool_section(t: ToolDefinition) -> Seq<char> {
    "## "@ + t.name@ + "\n"@ + t.description@ + "\n"@ + (if t.parameters@.len() > 0 {
        "Parameters:\n"@ + param_lines(t.parameters@)
    } else {
        Seq::empty()
    }) + (if t.notes@.len() > 0 {
        "Usage notes:\n"@ + note_lines(t.notes@)
    } else {
        Seq::empty()
    }) + "\n"@
}

/// The prompt sections of several tools, in order.
pub open spec fn tool_sections(ts: Seq<ToolDefinition>) -> Seq<char>
    decreases ts.len(),
{
    if ts.len() == 0 {
        Seq::empty()
    } else {
        tool_sections(ts.drop_last()) + tool_section(ts.last())
    }
}

fn push_tool_section(out: &mut String, tool: &ToolDefinition)
    ensures
        final(out)@ == old(out)@ + tool_section(*tool),
{
    let ghost start = out@;
    push_str(out, "## ");
    push_str(out, tool.name);
    push_str(out, "\n");
    push_str(out, tool.description);
    push_str(out, "\n");
    let ghost mid = out@;
    if tool.parameters.len() > 0 {
        push_str(out, "Parameters:\n");
        let ghost ps = tool.parameters@;
        let ghost base = out@;
        let mut i: usize = 0;
        while i < tool.parameters.len()
            invariant
                i <= tool.parameters.len(),
                ps == tool.parameters@,
                out@ == base + param_lines(ps.take(i as int)),
            decreases tool.parameters.len() - i,
        {
            let p = &tool.parameters[i];
            push_str(out, "- ");
            push_str(out, p.name);
            push_str(out, " (");
            push_str(out, p.kind);
            push_str(out, ")");
            if p.required {
                push_str(out, ", required");
            }
            push_str(out, ": ");
            push_str(out, p.description);
            push_str(out, "\n");
            assert(ps.take(i + 1).drop_last() =~= ps.take(i as int));
            assert(out@ =~= base + param_lines(ps.take(i + 1)));
            i += 1;
        }
        assert(ps.take(ps.len() as int) =~= ps);
    }
    let ghost mid2 = out@;
    if tool.notes.len() > 0 {
        push_str(out, "Usage notes:\n");
        let ghost ns = tool.notes@;
        let ghost base = out@;
        let mut i: usize = 0;
        while i < tool.notes.len()
            invariant
                i <= tool.notes.len(),
                ns == tool.notes@,
                out@ == base + note_lines(ns.take(i as int)),
            decreases tool.notes.len() - i,
        {
            push_str(out, "- ");
            push_str(out, tool.notes[i].as_str());
            push_str(out, "\n");
            assert(ns.take(i + 1).drop_last() =~= ns.take(i as int));
            assert(out@ =~= base + note_lines(ns.take(i + 1)));
            i += 1;
        }
        assert(ns.take(ns.len() as int) =~= ns);
    }
    push_str(out, "\n");
    assert(out@ =~= start + tool_section(*tool));
}

/// The tool-use section of the system prompt for the given tools.
pub open spec fn prompt_section(tools: Seq<ToolDefinition>) -> Seq<char> {
    trim_end(TOOL_PROMPT_HEADER@ + tool_sections(tools))
}

impl ToolRuntime {
    /// Describes the session's tools for the system prompt.
    pub fn render_prompt_section(&self) -> (out: String)
        ensures
            out@ == prompt_section(self.tools@),
    {
        let mut output = TOOL_PROMPT_HEADER.to_owned();
        let ghost ts = self.tools@;
        let mut i: usize = 0;
        while i < self.tools.len()
            invariant
                i <= self.tools.len(),
                ts == self.tools@,
                output@ == TOOL_PROMPT_HEADER@ + tool_sections(ts.take(i as int)),
            decreases self.tools.len() - i,
        {
            push_tool_section(&mut output, &self.tools[i]);
            assert(ts.take(i + 1).drop_last() =~= ts.take(i as int));
            assert(output@ =~= TOOL_PROMPT_HEADER@ + tool_sections(ts.take(i + 1)));
            i += 1;
        }
        assert(ts.take(ts.len() as int) =~= ts);
        trim_end_str(output.as_str())
    }
}

} // verus!
