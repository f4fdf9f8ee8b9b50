use vstd::prelude::*;

use crate::messages::{
    block_part_matches, message_content_from_blocks, part_text, MessageContent, RequestMessage,
};
use crate::text::{join, join_strings, push_str, strings_view, trim_end, trim_end_str, u64_to_string, decimal};
use crate::timeline::ContentBlock;

verus! {

broadcast use vstd::string::group_string_axioms;

/// One line of the memory index shown to the model.
#[derive(Debug, Clone)]
pub struct MemoryIndexLine {
    pub id: String,
    pub memory_type: String,
    pub topic: String,
    pub title: String,
}

/// The memories matched for a turn, and warnings about crowded topics.
#[derive(Debug, Clone, Default)]
pub struct MemoryIndexSummary {
    pub entries: Vec<MemoryIndexLine>,
    pub topic_warnings: Vec<String>,
}

/// `s` padded with spaces on the right to at least `width` characters (`{:<width}`).
pub open spec fn pad_right(s: Seq<char>, width: nat) -> Seq<char> {
    if s.len() >= width {
        s
    } else {
        s + Seq::new((width - s.len()) as nat, |i: int| ' ')
    }
}

fn push_padded(out: &mut String, s: &str, width: usize)
    ensures
        final(out)@ == old(out)@ + pad_right(s@, width as nat),
{
    let ghost start = out@;
    push_str(out, s);
    let n = crate::text::chars_of(s).len();
    let mut k: usize = n;
    while k < width
        invariant
            n == s@.len(),
            n <= k,
            k <= width || k == n,
            out@ == start + s@ + Seq::new((k - n) as nat, |i: int| ' '),
        decreases width - k,
    {
        crate::text::push_char(out, ' ');
        assert(Seq::new((k + 1 - n) as nat, |i: int| ' ') =~= Seq::new((k - n) as nat, |i: int| ' ').push(' '));
        k += 1;
    }
    proof {
        if n >= width {
            assert(Seq::new((k - n) as nat, |i: int| ' ') =~= Seq::<char>::empty());
            assert(out@ =~= start + s@);
        }
    }
}

/// The index line of one memory.
pub open spec fn index_line(e: MemoryIndexLine) -> Seq<char> {
    "  "@ + pad_right(e.id@, 24) + " ["@ + pad_right(e.memory_type@, 10) + "] "@ + pad_right(e.topic@, 12)
        + " "@ + e.title@ + "\n"@
}

/// The index lines of several memories.
pub open spec fn index_lines(es: Seq<MemoryIndexLine>) -> Seq<char>
    decreases es.len(),
{
    if es.len() == 0 {
        Seq::empty()
    } else {
        index_lines(es.drop_last()) + index_line(es.last())
    }
}

/// The warning lines.
pub open spec fn warning_lines(ws: Seq<String>) -> Seq<char>
    decreases ws.len(),
{
    if ws.len() == 0 {
        Seq::empty()
    } else {
        warning_lines(ws.drop_last()) + "! "@ + ws.last()@ + "\n"@
    }
}

/// How the memory index is shown to the model.
pub open spec fn memory_index_text(m: MemoryIndexSummary) -> Seq<char> {
    if m.entries@.len() == 0 {
        Seq::empty()
    } else {
        trim_end(
            "Matched "@ + decimal(m.entries@.len() as nat)
                + " relevant memories. Use recall_memory(id) for full details.\n\n"@ + index_lines(
                m.entries@,
            ) + if m.topic_warnings@.len() > 0 {
                "\n"@ + warning_lines(m.topic_warnings@)
            } else {
                Seq::empty()
            },
        )
    }
}

impl MemoryIndexSummary {
    pub fn is_empty(&self) -> (out: bool)
        ensures
            out == (self.entries@.len() == 0),
    {
        self.entries.len() == 0
    }

    /// The memory index as shown to the model: a count, one aligned line per
    /// memory, then the topic warnings.
    pub fn render_for_prompt(&self) -> (out: String)
        ensures
            out@ == memory_index_text(*self),
    {
        if self.entries.len() == 0 {
            return String::new();
        }
        let mut output = "Matched ".to_owned();
        let count = u64_to_string(self.entries.len() as u64);
        push_str(&mut output, count.as_str());
        push_str(&mut output, " relevant memories. Use recall_memory(id) for full details.\n\n");
        let ghost head = output@;
        let mut i: usize = 0;
        while i < self.entries.len()
            invariant
                i <= self.entries.len(),
                output@ == head + index_lines(self.entries@.take(i as int)),
            decreases self.entries.len() - i,
        {
            let e = &self.entries[i];
            let ghost before = output@;
            push_str(&mut output, "  ");
            push_padded(&mut output, e.id.as_str(), 24);
            push_str(&mut output, " [");
            push_padded(&mut output, e.memory_type.as_str(), 10);
            push_str(&mut output, "] ");
            push_padded(&mut output, e.topic.as_str(), 12);
            push_str(&mut output, " ");
            push_str(&mut output, e.title.as_str());
            push_str(&mut output, "\n");
            assert(output@ =~= before + index_line(*e));
            assert(self.entries@.take(i + 1).drop_last() =~= self.entries@.take(i as int));
            i += 1;
        }
        assert(self.entries@.take(self.entries.len() as int) =~= self.entries@);
        let ghost mid = output@;
        if self.topic_warnings.len() > 0 {
            push_str(&mut output, "\n");
            let ghost base = output@;
            let mut k: usize = 0;
            while k < self.topic_warnings.len()
                invariant
                    k <= self.topic_warnings.len(),
                    output@ == base + warning_lines(self.topic_warnings@.take(k as int)),
                decreases self.topic_warnings.len() - k,
            {
                push_str(&mut output, "! ");
                push_str(&mut output, self.topic_warnings[k].as_str());
                push_str(&mut output, "\n");
                assert(self.topic_warnings@.take(k + 1).drop_last() =~= self.topic_warnings@.take(k as int));
                assert(output@ =~= base + warning_lines(self.topic_warnings@.take(k + 1)));
                k += 1;
            }
            assert(self.topic_warnings@.take(self.topic_warnings.len() as int) =~= self.topic_warnings@);
        }
        assert(output@ =~= "Matched "@ + decimal(self.entries@.len() as nat)
            + " relevant memories. Use recall_memory(id) for full details.\n\n"@ + index_lines(
            self.entries@,
        ) + if self.topic_warnings@.len() > 0 {
            "\n"@ + warning_lines(self.topic_warnings@)
        } else {
            Seq::empty()
        });
        trim_end_str(output.as_str())
    }
}


/// A piece of extra context given to the model for one turn.
#[derive(Debug, Clone)]
pub struct Injection {
    pub id: String,
    pub content: String,
}

/// Facts about the session shown at the top of the context.
#[derive(Debug, Clone)]
pub struct SessionStatus {
    pub workspace_root: String,
    pub platform: String,
    pub shell: String,
    pub available_shells: Vec<String>,
    pub workspace_entries: Vec<String>,
}

/// How full the context window is.
#[derive(Debug, Clone)]
pub struct ContextPressure {
    pub used_percent: u64,
    pub message: String,
}

/// The state of the running session shown to the model.
#[derive(Debug, Clone)]
pub struct RuntimeStatus {
    pub locked_files: Vec<String>,
    pub context_pressure: Option<ContextPressure>,
}

/// Who said something in the conversation.
#[derive(Debug, Clone, Copy, PartialEq, Eq, Structural)]
pub enum Role {
    System,
    User,
    Assistant,
    Tool,
}

/// A past message of the conversation.
#[derive(Debug, Clone)]
pub struct ChatTurn {
    pub role: Role,
    pub content: Vec<ContentBlock>,
}

/// What the model is given for a turn. Sections that hold nothing are `None`
/// or empty; the open files come already rendered, in prompt order.
pub struct PromptContext {
    pub system_core: String,
    pub injections: Vec<Injection>,
    pub session_status: Option<SessionStatus>,
    pub open_file_snapshots: Vec<String>,
    pub notes: Vec<(String, String)>,
    pub memory_index: Option<MemoryIndexSummary>,
    pub runtime_status: Option<RuntimeStatus>,
    pub hints: Vec<String>,
    pub recent_chat: Vec<ChatTurn>,
}

/// Each text as a list item line.
pub open spec fn item_lines(items: Seq<String>) -> Seq<char>
    decreases items.len(),
{
    if items.len() == 0 {
        Seq::empty()
    } else {
        item_lines(items.drop_last()) + "- "@ + items.last()@ + "\n"@
    }
}

fn push_item_lines(out: &mut String, items: &Vec<String>)
    ensures
        final(out)@ == old(out)@ + item_lines(items@),
{
    let ghost start = out@;
    let mut i: usize = 0;
    while i < items.len()
        invariant
            i <= items.len(),
            out@ == start + item_lines(items@.take(i as int)),
        decreases items.len() - i,
    {
        push_str(out, "- ");
        push_str(out, items[i].as_str());
        push_str(out, "\n");
        assert(items@.take(i + 1).drop_last() =~= items@.take(i as int));
        assert(out@ =~= start + item_lines(items@.take(i + 1)));
        i += 1;
    }
    assert(items@.take(items.len() as int) =~= items@);
}

/// The injections section.
pub open spec fn injection_lines(items: Seq<Injection>) -> Seq<char>
    decreases items.len(),
{
    if items.len() == 0 {
        Seq::empty()
    } else {
        injection_lines(items.drop_last()) + "## "@ + items.last().id@ + "\n"@ + items.last().content@
            + "\n"@
    }
}

/// The extra context of a turn, as a system message.
pub fn render_injections(context: &PromptContext) -> (out: String)
    ensures
        out@ == "[injections]\n"@ + injection_lines(context.injections@),
{
    let mut output = "[injections]\n".to_owned();
    let ghost start = output@;
    let mut i: usize = 0;
    while i < context.injections.len()
        invariant
            i <= context.injections.len(),
            output@ == start + injection_lines(context.injections@.take(i as int)),
            start == "[injections]\n"@,
        decreases context.injections.len() - i,
    {
        let inj = &context.injections[i];
        push_str(&mut output, "## ");
        push_str(&mut output, inj.id.as_str());
        push_str(&mut output, "\n");
        push_str(&mut output, inj.content.as_str());
        push_str(&mut output, "\n");
        assert(context.injections@.take(i + 1).drop_last() =~= context.injections@.take(i as int));
        assert(output@ =~= start + injection_lines(context.injections@.take(i + 1)));
        i += 1;
    }
    assert(context.injections@.take(context.injections.len() as int) =~= context.injections@);
    output
}

/// The session status section's lines.
pub open spec fn session_text(st: Option<SessionStatus>) -> Seq<char> {
    match st {
        None => "(none)\n"@,
        Some(s) => "workspace_root: "@ + s.workspace_root@ + "\nplatform: "@ + s.platform@
            + "\ndefault_shell: "@ + s.shell@ + "\n"@ + shells_text(s.available_shells@)
            + entries_text(s.workspace_entries@),
    }
}

/// The `available_shells` line of the session status.
pub open spec fn shells_text(shells: Seq<String>) -> Seq<char> {
    if shells.len() == 0 {
        "available_shells: (none)\n"@
    } else {
        "available_shells: "@ + join(strings_view(shells), ", "@) + "\n"@
    }
}

/// The `workspace_entries` part of the session status.
pub open spec fn entries_text(entries: Seq<String>) -> Seq<char> {
    if entries.len() == 0 {
        "workspace_entries: (none)\n"@
    } else {
        "workspace_entries:\n"@ + item_lines(entries)
    }
}

/// The note lines, `id: content` each.
pub open spec fn note_lines(notes: Seq<(String, String)>) -> Seq<char>
    decreases notes.len(),
{
    if notes.len() == 0 {
        Seq::empty()
    } else {
        note_lines(notes.drop_last()) + notes.last().0@ + ": "@ + notes.last().1@ + "\n"@
    }
}

/// The open file snapshots, each followed by a line break.
pub open spec fn snapshot_lines(snapshots: Seq<String>) -> Seq<char>
    decreases snapshots.len(),
{
    if snapshots.len() == 0 {
        Seq::empty()
    } else {
        snapshot_lines(snapshots.drop_last()) + snapshots.last()@ + "\n"@
    }
}

/// What tells the model how to read the open files.
pub const OPEN_FILES_PREAMBLE: &'static str = "These watcher-backed snapshots are the authoritative current file contents for this turn. Reuse them instead of re-reading the same files via shell commands unless you need a different external view.\n\n";

/// The runtime status section's lines.
pub open spec fn runtime_text(rs: Option<RuntimeStatus>) -> Seq<char> {
    match rs {
        None => "(none)\n"@,
        Some(r) => (if r.locked_files@.len() == 0 {
            "locked_files: (none)\n"@
        } else {
            "locked_files:\n"@ + item_lines(r.locked_files@)
        }) + match r.context_pressure {
            Some(p) => "context_pressure: "@ + decimal(p.used_percent as nat) + "% - "@ + p.message@
                + "\n"@,
            None => Seq::empty(),
        },
    }
}

/// The context body of a turn: session status, open files, notes, memory
/// index, runtime status and hints, each under its heading.
pub open spec fn context_body(c: PromptContext) -> Seq<char> {
    "[session_status]\n"@ + session_text(c.session_status) + "\n[open_files]\n"@ + (
    if c.open_file_snapshots@.len() == 0 {
        "(none)\n"@
    } else {
        OPEN_FILES_PREAMBLE@ + snapshot_lines(c.open_file_snapshots@)
    }) + "[notes]\n"@ + (if c.notes@.len() == 0 {
        "(none)\n"@
    } else {
        note_lines(c.notes@)
    }) + "\n[memory_index]\n"@ + match c.memory_index {
        Some(m) => if m.entries@.len() == 0 {
            "(none)\n"@
        } else {
            memory_index_text(m) + "\n"@
        },
        None => "(none)\n"@,
    } + "\n[runtime_status]\n"@ + runtime_text(c.runtime_status) + "\n[hints]\n"@ + (
    if c.hints@.len() == 0 {
        "(none)\n"@
    } else {
        item_lines(c.hints@)
    })
}

fn push_shells_line(out: &mut String, shells: &Vec<String>)
    ensures
        final(out)@ == old(out)@ + shells_text(shells@),
{
    if shells.len() == 0 {
        push_str(out, "available_shells: (none)\n");
    } else {
        push_str(out, "available_shells: ");
        let joined = join_strings(shells, ", ");
        push_str(out, joined.as_str());
        push_str(out, "\n");
    }
}

fn push_entries_lines(out: &mut String, entries: &Vec<String>)
    ensures
        final(out)@ == old(out)@ + entries_text(entries@),
{
    if entries.len() == 0 {
        push_str(out, "workspace_entries: (none)\n");
    } else {
        let ghost start = out@;
        push_str(out, "workspace_entries:\n");
        push_item_lines(out, entries);
        assert(out@ =~= start + entries_text(entries@));
    }
}

fn push_session_status(out: &mut String, st: &Option<SessionStatus>)
    ensures
        final(out)@ == old(out)@ + session_text(*st),
{
    let ghost start = out@;
    match st {
        None => {
            push_str(out, "(none)\n");
        },
        Some(s) => {
            push_str(out, "workspace_root: ");
            push_str(out, s.workspace_root.as_str());
            push_str(out, "\nplatform: ");
            push_str(out, s.platform.as_str());
            push_str(out, "\ndefault_shell: ");
            push_str(out, s.shell.as_str());
            push_str(out, "\n");
            push_shells_line(out, &s.available_shells);
            push_entries_lines(out, &s.workspace_entries);
            assert(out@ =~= start + session_text(*st));
        },
    }
}

fn push_runtime_status(out: &mut String, rs: &Option<RuntimeStatus>)
    ensures
        final(out)@ == old(out)@ + runtime_text(*rs),
{
    let ghost start = out@;
    match rs {
        None => {
            push_str(out, "(none)\n");
        },
        Some(r) => {
            if r.locked_files.len() == 0 {
                push_str(out, "locked_files: (none)\n");
            } else {
                push_str(out, "locked_files:\n");
                push_item_lines(out, &r.locked_files);
            }
            let ghost a = out@;
            match &r.context_pressure {
                Some(p) => {
                    push_str(out, "context_pressure: ");
                    let n = u64_to_string(p.used_percent);
                    push_str(out, n.as_str());
                    push_str(out, "% - ");
                    push_str(out, p.message.as_str());
                    push_str(out, "\n");
                },
                None => {},
            }
            assert(out@ =~= start + runtime_text(*rs));
        },
    }
}

fn push_notes(out: &mut String, notes: &Vec<(String, String)>)
    ensures
        final(out)@ == old(out)@ + note_lines(notes@),
{
    let ghost start = out@;
    let mut i: usize = 0;
    while i < notes.len()
        invariant
            i <= notes.len(),
            out@ == start + note_lines(notes@.take(i as int)),
        decreases notes.len() - i,
    {
        push_str(out, notes[i].0.as_str());
        push_str(out, ": ");
        push_str(out, notes[i].1.as_str());
        push_str(out, "\n");
        assert(notes@.take(i + 1).drop_last() =~= notes@.take(i as int));
        assert(out@ =~= start + note_lines(notes@.take(i + 1)));
        i += 1;
    }
    assert(notes@.take(notes.len() as int) =~= notes@);
}

fn push_snapshots(out: &mut String, snapshots: &Vec<String>)
    ensures
        final(out)@ == old(out)@ + snapshot_lines(snapshots@),
{
    let ghost start = out@;
    let mut i: usize = 0;
    while i < snapshots.len()
        invariant
            i <= snapshots.len(),
            out@ == start + snapshot_lines(snapshots@.take(i as int)),
        decreases snapshots.len() - i,
    {
        push_str(out, snapshots[i].as_str());
        push_str(out, "\n");
        assert(snapshots@.take(i + 1).drop_last() =~= snapshots@.take(i as int));
        assert(out@ =~= start + snapshot_lines(snapshots@.take(i + 1)));
        i += 1;
    }
    assert(snapshots@.take(snapshots.len() as int) =~= snapshots@);
}

/// The context body of a turn, as sent in the first user message.
pub fn render_context_body(context: &PromptContext) -> (out: String)
    ensures
        out@ == context_body(*context),
{
    let mut output = "[session_status]\n".to_owned();
    push_session_status(&mut output, &context.session_status);
    push_str(&mut output, "\n[open_files]\n");
    if context.open_file_snapshots.len() == 0 {
        push_str(&mut output, "(none)\n");
    } else {
        push_str(&mut output, OPEN_FILES_PREAMBLE);
        push_snapshots(&mut output, &context.open_file_snapshots);
    }
    push_str(&mut output, "[notes]\n");
    if context.notes.len() == 0 {
        push_str(&mut output, "(none)\n");
    } else {
        push_notes(&mut output, &context.notes);
    }
    push_str(&mut output, "\n[memory_index]\n");
    match &context.memory_index {
        Some(m) => {
            if m.is_empty() {
                push_str(&mut output, "(none)\n");
            } else {
                let rendered = m.render_for_prompt();
                push_str(&mut output, rendered.as_str());
                push_str(&mut output, "\n");
            }
        },
        None => {
            push_str(&mut output, "(none)\n");
        },
    }
    push_str(&mut output, "\n[runtime_status]\n");
    push_runtime_status(&mut output, &context.runtime_status);
    push_str(&mut output, "\n[hints]\n");
    if context.hints.len() == 0 {
        push_str(&mut output, "(none)\n");
    } else {
        push_item_lines(&mut output, &context.hints);
    }
    assert(output@ =~= context_body(*context));
    output
}

/// The request message for a past turn of the conversation.
pub fn request_message_from_chat_turn(turn: &ChatTurn) -> (out: RequestMessage)
    requires
        turn.role == Role::User || turn.role == Role::Assistant,
    ensures
        out.role@ == (if turn.role == Role::User {
            "user"@
        } else {
            "assistant"@
        }),
        out.content is Some,
        out.content->0.spec_parts().len() == turn.content@.len(),
        forall|i: int|
            0 <= i < turn.content@.len() ==> block_part_matches(
                turn.content@[i],
                #[trigger] out.content->0.spec_parts()[i],
            ),
        out.tool_call_id is None,
        out.tool_calls@.len() == 0,
{
    let content = message_content_from_blocks(turn.content.as_slice());
    match turn.role {
        Role::User => RequestMessage::user(content),
        _ => RequestMessage::assistant_text(content),
    }
}


/// The text of a message that has exactly one part, a text part.
pub open spec fn single_text(m: RequestMessage) -> Option<Seq<char>> {
    match m.content {
        Some(c) => if c.spec_parts().len() == 1 {
            part_text(c.spec_parts()[0])
        } else {
            None
        },
        None => None,
    }
}

/// Where the conversation starts among a request's messages, less one: after
/// the system core, the injections when there are any, and the context body.
pub open spec fn chat_offset(context: PromptContext) -> int {
    if context.injections@.len() > 0 {
        2
    } else {
        1
    }
}

/// Whether a request message carries a conversation turn: the turn's role,
/// and one content part for each of its blocks, in order.
pub open spec fn carries_turn(turn: ChatTurn, m: RequestMessage) -> bool {
    &&& m.role@ == (if turn.role == Role::User {
        "user"@
    } else {
        "assistant"@
    })
    &&& m.content is Some
    &&& m.content->0.spec_parts().len() == turn.content@.len()
    &&& forall|j: int|
        0 <= j < turn.content@.len() ==> block_part_matches(turn.content@[j], #[trigger] m.content->0.spec_parts()[j])
    &&& m.tool_call_id is None
    &&& m.tool_calls@.len() == 0
}

/// The messages of a request: the system core, the injections when there are
/// any, the context body as a user message, then the recent conversation.
pub fn build_messages(context: &PromptContext) -> (out: Vec<RequestMessage>)
    requires
        forall|i: int|
            0 <= i < context.recent_chat@.len() ==> (#[trigger] context.recent_chat@[i]).role == Role::User
                || context.recent_chat@[i].role == Role::Assistant,
    ensures
        out@.len() == chat_offset(*context) + 1 + context.recent_chat@.len(),
        out@[0].role@ == "system"@,
        single_text(out@[0]) == Some(context.system_core@),
        context.injections@.len() > 0 ==> out@[1].role@ == "system"@ && single_text(out@[1]) == Some(
            "[injections]\n"@ + injection_lines(context.injections@),
        ),
        out@[chat_offset(*context)].role@ == "user"@,
        single_text(out@[chat_offset(*context)]) == Some(context_body(*context)),
        forall|i: int|
            0 <= i < context.recent_chat@.len() ==> carries_turn(
                #[trigger] context.recent_chat@[i],
                out@[chat_offset(*context) + 1 + i],
            ),
{
    let mut messages: Vec<RequestMessage> = Vec::new();
    messages.push(RequestMessage::system(context.system_core.clone()));
    if context.injections.len() > 0 {
        messages.push(RequestMessage::system(render_injections(context)));
    }
    let body = render_context_body(context);
    messages.push(RequestMessage::user(MessageContent::from_text(body)));
    let ghost k: int = chat_offset(*context);
    let ghost head = messages@;
    let mut i: usize = 0;
    while i < context.recent_chat.len()
        invariant
            i <= context.recent_chat.len(),
            k == chat_offset(*context),
            messages@.len() == k + 1 + i,
            forall|j: int| 0 <= j <= k ==> #[trigger] messages@[j] == head[j],
            head.len() == k + 1,
            forall|j: int|
                0 <= j < context.recent_chat@.len() ==> (#[trigger] context.recent_chat@[j]).role == Role::User
                    || context.recent_chat@[j].role == Role::Assistant,
            forall|j: int| 0 <= j < i ==> carries_turn(#[trigger] context.recent_chat@[j], messages@[k + 1 + j]),
        decreases context.recent_chat.len() - i,
    {
        let m = request_message_from_chat_turn(&context.recent_chat[i]);
        messages.push(m);
        assert(messages@[k + 1 + i] == m);
        assert(carries_turn(context.recent_chat@[i as int], m));
        i += 1;
    }
    assert(messages@[0] == head[0]);
    assert(messages@[k] == head[k]);
    messages
}

} // verus!
