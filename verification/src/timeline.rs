use vstd::prelude::*;

use crate::text::{push_str, str_eq};

verus! {

broadcast use vstd::string::group_string_axioms;

#[derive(Debug, Clone)]
/// What a user message replies to.
pub enum PersistedReplyRef {
    Turn { id: String },
    UserMessage { id: String },
}

#[derive(Debug, Clone)]
/// What started an agent turn.
pub enum PersistedTurnTrigger {
    User { id: String },
    Turn { id: String },
}

#[derive(Debug, Clone, Copy, PartialEq, Eq, Structural)]
pub enum PersistedAssistantMessageState {
    Streaming,
    Done,
}

#[derive(Debug, Clone, Copy, PartialEq, Eq, Structural)]
pub enum PersistedTurnState {
    Streaming,
    Done,
    Failed,
    Cancelled,
}

#[derive(Debug, Clone, Copy, PartialEq, Eq, Structural)]
pub enum PersistedToolCallState {
    Running,
    Succeeded,
    Error,
}

#[derive(Debug, Clone)]
/// A block of message content: text, or an image given inline.
pub enum ContentBlock {
    Text { text: String },
    Image {
        media_type: String,
        data_base64: String,
        source_path: Option<String>,
        name: Option<String>,
    },
}

#[derive(Debug, Clone)]
/// A tool call as shown in conversation history.
pub struct ToolSummary {
    pub name: String,
    pub summary: String,
}

#[derive(Debug, Clone)]
/// One entry of an assistant message's timeline.
pub enum PersistedAssistantTimelineEntry {
    Text { text: String },
    Tool {
        tool_call_id: String,
        tool_name: String,
        arguments: String,
        status: PersistedToolCallState,
        preview: Option<String>,
        duration_ms: Option<u64>,
    },
}

#[derive(Debug, Clone)]
pub struct PersistedAssistantMessage {
    pub message_id: String,
    pub turn_id: String,
    pub state: PersistedAssistantMessageState,
    pub reasoning: String,
    pub timeline: Vec<PersistedAssistantTimelineEntry>,
}

#[derive(Debug, Clone)]
/// A user message; `timestamp` is in seconds since the Unix epoch.
pub struct PersistedUserMessage {
    pub user_message_id: String,
    pub content: Vec<ContentBlock>,
    pub mentions: Vec<String>,
    pub replies: Vec<PersistedReplyRef>,
    pub timestamp: u64,
}

#[derive(Debug, Clone)]
/// An agent turn; `timestamp` is in seconds since the Unix epoch.
pub struct PersistedTurn {
    pub turn_id: String,
    pub agent_id: String,
    pub trigger: PersistedTurnTrigger,
    pub state: PersistedTurnState,
    pub error_message: Option<String>,
    pub timestamp: u64,
    pub messages: Vec<PersistedAssistantMessage>,
}

#[derive(Debug, Clone)]
pub enum PersistedTaskTimelineEntry {
    UserMessage(PersistedUserMessage),
    Turn(PersistedTurn),
}

// ----- mathematical model of the assistant side of the timeline -----

pub enum EntryView {
    Text { text: Seq<char> },
    Tool {
        tool_call_id: Seq<char>,
        tool_name: Seq<char>,
        arguments: Seq<char>,
        status: PersistedToolCallState,
        preview: Option<Seq<char>>,
        duration_ms: Option<u64>,
    },
}

pub struct MessageView {
    pub message_id: Seq<char>,
    pub turn_id: Seq<char>,
    pub state: PersistedAssistantMessageState,
    pub reasoning: Seq<char>,
    pub timeline: Seq<EntryView>,
}

pub struct TurnView {
    pub turn_id: Seq<char>,
    pub agent_id: Seq<char>,
    pub state: PersistedTurnState,
    pub error_message: Option<Seq<char>>,
    pub timestamp: u64,
    pub messages: Seq<MessageView>,
}

pub open spec fn opt_view(o: Option<String>) -> Option<Seq<char>> {
    match o {
        Some(s) => Some(s@),
        None => None,
    }
}

impl View for PersistedAssistantTimelineEntry {
    type V = EntryView;

    open spec fn view(&self) -> EntryView {
        match self {
            PersistedAssistantTimelineEntry::Text { text } => EntryView::Text { text: text@ },
            PersistedAssistantTimelineEntry::Tool {
                tool_call_id,
                tool_name,
                arguments,
                status,
                preview,
                duration_ms,
            } => EntryView::Tool {
                tool_call_id: tool_call_id@,
                tool_name: tool_name@,
                arguments: arguments@,
                status: *status,
                preview: opt_view(*preview),
                duration_ms: *duration_ms,
            },
        }
    }
}

pub open spec fn entries_view(v: Seq<PersistedAssistantTimelineEntry>) -> Seq<EntryView> {
    v.map_values(|e: PersistedAssistantTimelineEntry| e@)
}

impl View for PersistedAssistantMessage {
    type V = MessageView;

    open spec fn view(&self) -> MessageView {
        MessageView {
            message_id: self.message_id@,
            turn_id: self.turn_id@,
            state: self.state,
            reasoning: self.reasoning@,
            timeline: entries_view(self.timeline@),
        }
    }
}

pub open spec fn messages_view(v: Seq<PersistedAssistantMessage>) -> Seq<MessageView> {
    v.map_values(|m: PersistedAssistantMessage| m@)
}

impl View for PersistedTurn {
    type V = TurnView;

    open spec fn view(&self) -> TurnView {
        TurnView {
            turn_id: self.turn_id@,
            agent_id: self.agent_id@,
            state: self.state,
            error_message: opt_view(self.error_message),
            timestamp: self.timestamp,
            messages: messages_view(self.messages@),
        }
    }
}

/// The turn that an entry holds, if it is a turn.
pub open spec fn entry_turn(e: PersistedTaskTimelineEntry) -> Option<TurnView> {
    match e {
        PersistedTaskTimelineEntry::Turn(t) => Some(t@),
        PersistedTaskTimelineEntry::UserMessage(_) => None,
    }
}

/// Whether entry `e` is the turn with id `turn_id`.
pub open spec fn is_turn_with_id(e: PersistedTaskTimelineEntry, turn_id: Seq<char>) -> bool {
    match e {
        PersistedTaskTimelineEntry::Turn(t) => t.turn_id@ == turn_id,
        PersistedTaskTimelineEntry::UserMessage(_) => false,
    }
}

/// Index of the first turn with id `turn_id` at or after `i`, or the length
/// when there is none.
pub open spec fn find_turn_from(
    timeline: Seq<PersistedTaskTimelineEntry>,
    turn_id: Seq<char>,
    i: int,
) -> int
    decreases timeline.len() - i,
{
    if i < 0 || i >= timeline.len() {
        timeline.len() as int
    } else if is_turn_with_id(timeline[i], turn_id) {
        i
    } else {
        find_turn_from(timeline, turn_id, i + 1)
    }
}

/// Index of the first turn with id `turn_id`, or the length when none.
pub open spec fn find_turn(timeline: Seq<PersistedTaskTimelineEntry>, turn_id: Seq<char>) -> int {
    find_turn_from(timeline, turn_id, 0)
}

pub proof fn lemma_find_turn_from(
    timeline: Seq<PersistedTaskTimelineEntry>,
    turn_id: Seq<char>,
    i: int,
)
    requires
        0 <= i <= timeline.len(),
    ensures
        i <= find_turn_from(timeline, turn_id, i) <= timeline.len(),
        find_turn_from(timeline, turn_id, i) < timeline.len() ==> is_turn_with_id(
            timeline[find_turn_from(timeline, turn_id, i)],
            turn_id,
        ),
        forall|k: int|
            i <= k < find_turn_from(timeline, turn_id, i) ==> !is_turn_with_id(
                #[trigger] timeline[k],
                turn_id,
            ),
    decreases timeline.len() - i,
{
    if i < timeline.len() && !is_turn_with_id(timeline[i], turn_id) {
        lemma_find_turn_from(timeline, turn_id, i + 1);
    }
}

/// Finds the index of the first turn with the given id.
pub fn position_of_turn(timeline: &Vec<PersistedTaskTimelineEntry>, turn_id: &str) -> (out: usize)
    ensures
        out == find_turn(timeline@, turn_id@),
        out <= timeline@.len(),
{
    let mut i: usize = 0;
    while i < timeline.len()
        invariant
            i <= timeline.len(),
            find_turn_from(timeline@, turn_id@, i as int) == find_turn(timeline@, turn_id@),
        decreases timeline.len() - i,
    {
        let hit = match &timeline[i] {
            PersistedTaskTimelineEntry::Turn(t) => str_eq(t.turn_id.as_str(), turn_id),
            PersistedTaskTimelineEntry::UserMessage(_) => false,
        };
        if hit {
            return i;
        }
        i += 1;
    }
    proof {
        lemma_find_turn_from(timeline@, turn_id@, 0);
    }
    i
}

/// The agent that ran the turn with id `turn_id`, if the timeline has one.
pub open spec fn spec_turn_agent_id(
    timeline: Seq<PersistedTaskTimelineEntry>,
    turn_id: Seq<char>,
) -> Option<Seq<char>> {
    let k = find_turn(timeline, turn_id);
    if k < timeline.len() {
        match timeline[k] {
            PersistedTaskTimelineEntry::Turn(t) => Some(t.agent_id@),
            PersistedTaskTimelineEntry::UserMessage(_) => None,
        }
    } else {
        None
    }
}

/// The agent of the first turn in the timeline with the given id.
pub fn turn_agent_id(timeline: &Vec<PersistedTaskTimelineEntry>, turn_id: &str) -> (out: Option<
    String,
>)
    ensures
        opt_view(out) == spec_turn_agent_id(timeline@, turn_id@),
{
    let k = position_of_turn(timeline, turn_id);
    if k < timeline.len() {
        match &timeline[k] {
            PersistedTaskTimelineEntry::Turn(t) => Some(t.agent_id.clone()),
            PersistedTaskTimelineEntry::UserMessage(_) => None,
        }
    } else {
        None
    }
}

// ----- flattening a turn for conversation history -----

/// The texts of a message timeline, concatenated.
pub open spec fn entries_text(entries: Seq<EntryView>) -> Seq<char>
    decreases entries.len(),
{
    if entries.len() == 0 {
        Seq::empty()
    } else {
        entries_text(entries.drop_last()) + match entries.last() {
            EntryView::Text { text } => text,
            EntryView::Tool { .. } => Seq::empty(),
        }
    }
}

/// The texts of all messages of a turn, in order, concatenated.
pub open spec fn messages_text(messages: Seq<MessageView>) -> Seq<char>
    decreases messages.len(),
{
    if messages.len() == 0 {
        Seq::empty()
    } else {
        messages_text(messages.drop_last()) + entries_text(messages.last().timeline)
    }
}

/// All assistant text of a turn, without tool calls.
pub fn flatten_turn_text(turn: &PersistedTurn) -> (out: String)
    ensures
        out@ == messages_text(turn@.messages),
{
    let mut out = String::new();
    let mut i: usize = 0;
    while i < turn.messages.len()
        invariant
            i <= turn.messages.len(),
            out@ == messages_text(messages_view(turn.messages@.take(i as int))),
        decreases turn.messages.len() - i,
    {
        let message = &turn.messages[i];
        let ghost before = out@;
        let mut j: usize = 0;
        while j < message.timeline.len()
            invariant
                j <= message.timeline.len(),
                out@ == before + entries_text(entries_view(message.timeline@.take(j as int))),
            decreases message.timeline.len() - j,
        {
            assert(entries_view(message.timeline@.take(j + 1)) == entries_view(
                message.timeline@.take(j as int),
            ).push(message.timeline@[j as int]@));
            let ghost mid = out@;
            let ghost x = entries_view(message.timeline@.take(j + 1));
            assert(x.drop_last() == entries_view(message.timeline@.take(j as int)));
            assert(x.last() == message.timeline@[j as int]@);
            match &message.timeline[j] {
                PersistedAssistantTimelineEntry::Text { text } => {
                    push_str(&mut out, text.as_str());
                    assert(out@ =~= before + (entries_text(entries_view(message.timeline@.take(j as int))) + text@));

                },
                PersistedAssistantTimelineEntry::Tool { .. } => {
                    assert(out@ =~= before + (entries_text(entries_view(message.timeline@.take(j as int))) + Seq::<char>::empty()));
                },
            }
            j += 1;
        }
        assert(message.timeline@.take(message.timeline.len() as int) == message.timeline@);
        assert(messages_view(turn.messages@.take(i + 1)) == messages_view(
            turn.messages@.take(i as int),
        ).push(message@));
        assert(out@ =~= messages_text(messages_view(turn.messages@.take(i as int))) + entries_text(message@.timeline));
        let ghost y = messages_view(turn.messages@.take(i + 1));
        assert(y.drop_last() == messages_view(turn.messages@.take(i as int)));
        assert(y.last() == message@);
        i += 1;
    }
    assert(turn.messages@.take(turn.messages.len() as int) == turn.messages@);
    out
}

/// The tool calls of a message timeline as history summaries: the preview, or
/// the tool name when there is none.
pub open spec fn entries_tool_summaries(entries: Seq<EntryView>) -> Seq<(Seq<char>, Seq<char>)>
    decreases entries.len(),
{
    if entries.len() == 0 {
        Seq::empty()
    } else {
        let prefix = entries_tool_summaries(entries.drop_last());
        match entries.last() {
            EntryView::Tool { tool_name, preview, .. } => prefix.push(
                (
                    tool_name,
                    match preview {
                        Some(p) => p,
                        None => tool_name,
                    },
                ),
            ),
            EntryView::Text { .. } => prefix,
        }
    }
}

/// The tool summaries of all messages of a turn, in order.
pub open spec fn messages_tool_summaries(messages: Seq<MessageView>) -> Seq<(Seq<char>, Seq<char>)>
    decreases messages.len(),
{
    if messages.len() == 0 {
        Seq::empty()
    } else {
        messages_tool_summaries(messages.drop_last()) + entries_tool_summaries(
            messages.last().timeline,
        )
    }
}

pub open spec fn summaries_view(v: Seq<ToolSummary>) -> Seq<(Seq<char>, Seq<char>)> {
    v.map_values(|s: ToolSummary| (s.name@, s.summary@))
}

/// The tool calls of a turn, summarized for conversation history.
pub fn flatten_turn_tool_summaries(turn: &PersistedTurn) -> (out: Vec<ToolSummary>)
    ensures
        summaries_view(out@) == messages_tool_summaries(turn@.messages),
{
    let mut out: Vec<ToolSummary> = Vec::new();
    let mut i: usize = 0;
    while i < turn.messages.len()
        invariant
            i <= turn.messages.len(),
            summaries_view(out@) == messages_tool_summaries(
                messages_view(turn.messages@.take(i as int)),
            ),
        decreases turn.messages.len() - i,
    {
        let message = &turn.messages[i];
        let ghost before = summaries_view(out@);
        let mut j: usize = 0;
        while j < message.timeline.len()
            invariant
                j <= message.timeline.len(),
                summaries_view(out@) == before + entries_tool_summaries(
                    entries_view(message.timeline@.take(j as int)),
                ),
            decreases message.timeline.len() - j,
        {
            assert(entries_view(message.timeline@.take(j + 1)) == entries_view(
                message.timeline@.take(j as int),
            ).push(message.timeline@[j as int]@));
            let ghost x = entries_view(message.timeline@.take(j + 1));
            assert(x.drop_last() == entries_view(message.timeline@.take(j as int)));
            assert(x.last() == message.timeline@[j as int]@);
            match &message.timeline[j] {
                PersistedAssistantTimelineEntry::Tool { tool_name, preview, .. } => {
                    let summary = match preview {
                        Some(p) => p.clone(),
                        None => tool_name.clone(),
                    };
                    let item = ToolSummary { name: tool_name.clone(), summary };
                    let ghost prev = summaries_view(out@);
                    out.push(item);
                    assert(summaries_view(out@) =~= prev.push((item.name@, item.summary@)));
                    assert(summaries_view(out@) =~= before + entries_tool_summaries(
                        entries_view(message.timeline@.take(j as int)),
                    ).push((item.name@, item.summary@)));
                },
                PersistedAssistantTimelineEntry::Text { .. } => {},
            }
            j += 1;
        }
        assert(message.timeline@.take(message.timeline.len() as int) == message.timeline@);
        assert(messages_view(turn.messages@.take(i + 1)) == messages_view(
            turn.messages@.take(i as int),
        ).push(message@));
        assert(summaries_view(out@) =~= messages_tool_summaries(
            messages_view(turn.messages@.take(i as int)),
        ) + entries_tool_summaries(message@.timeline));
        let ghost y = messages_view(turn.messages@.take(i + 1));
        assert(y.drop_last() == messages_view(turn.messages@.take(i as int)));
        assert(y.last() == message@);
        i += 1;
    }
    assert(turn.messages@.take(turn.messages.len() as int) == turn.messages@);
    out
}

// ----- database encodings of states -----

pub open spec fn message_state_name(state: PersistedAssistantMessageState) -> Seq<char> {
    match state {
        PersistedAssistantMessageState::Streaming => "streaming"@,
        PersistedAssistantMessageState::Done => "done"@,
    }
}

pub open spec fn turn_state_name(state: PersistedTurnState) -> Seq<char> {
    match state {
        PersistedTurnState::Streaming => "streaming"@,
        PersistedTurnState::Done => "done"@,
        PersistedTurnState::Failed => "failed"@,
        PersistedTurnState::Cancelled => "cancelled"@,
    }
}

pub open spec fn tool_call_state_name(state: PersistedToolCallState) -> Seq<char> {
    match state {
        PersistedToolCallState::Running => "running"@,
        PersistedToolCallState::Succeeded => "ok"@,
        PersistedToolCallState::Error => "error"@,
    }
}

pub fn encode_message_state(state: PersistedAssistantMessageState) -> (out: &'static str)
    ensures
        out@ == message_state_name(state),
{
    match state {
        PersistedAssistantMessageState::Streaming => "streaming",
        PersistedAssistantMessageState::Done => "done",
    }
}

pub fn encode_turn_state(state: PersistedTurnState) -> (out: &'static str)
    ensures
        out@ == turn_state_name(state),
{
    match state {
        PersistedTurnState::Streaming => "streaming",
        PersistedTurnState::Done => "done",
        PersistedTurnState::Failed => "failed",
        PersistedTurnState::Cancelled => "cancelled",
    }
}

pub fn encode_tool_call_state(state: PersistedToolCallState) -> (out: &'static str)
    ensures
        out@ == tool_call_state_name(state),
{
    match state {
        PersistedToolCallState::Running => "running",
        PersistedToolCallState::Succeeded => "ok",
        PersistedToolCallState::Error => "error",
    }
}

pub open spec fn message_state_from_name(raw: Seq<char>) -> Option<PersistedAssistantMessageState> {
    if raw == "streaming"@ {
        Some(PersistedAssistantMessageState::Streaming)
    } else if raw == "done"@ {
        Some(PersistedAssistantMessageState::Done)
    } else {
        None
    }
}

pub open spec fn turn_state_from_name(raw: Seq<char>) -> Option<PersistedTurnState> {
    if raw == "streaming"@ {
        Some(PersistedTurnState::Streaming)
    } else if raw == "done"@ {
        Some(PersistedTurnState::Done)
    } else if raw == "failed"@ {
        Some(PersistedTurnState::Failed)
    } else if raw == "cancelled"@ {
        Some(PersistedTurnState::Cancelled)
    } else {
        None
    }
}

pub open spec fn tool_call_state_from_name(raw: Seq<char>) -> Option<PersistedToolCallState> {
    if raw == "running"@ {
        Some(PersistedToolCallState::Running)
    } else if raw == "ok"@ {
        Some(PersistedToolCallState::Succeeded)
    } else if raw == "error"@ {
        Some(PersistedToolCallState::Error)
    } else {
        None
    }
}

/// Decodes a stored message state; unknown names are an error.
pub fn decode_message_state(raw: &str) -> (out: Result<PersistedAssistantMessageState, String>)
    ensures
        match out {
            Ok(state) => message_state_from_name(raw@) == Some(state),
            Err(message) => message_state_from_name(raw@) is None && message@
                == "unknown message state in database: "@ + raw@,
        },
{
    if str_eq(raw, "streaming") {
        Ok(PersistedAssistantMessageState::Streaming)
    } else if str_eq(raw, "done") {
        Ok(PersistedAssistantMessageState::Done)
    } else {
        let mut message = "unknown message state in database: ".to_owned();
        push_str(&mut message, raw);
        Err(message)
    }
}

/// Decodes a stored turn state; a missing state is a finished turn.
pub fn decode_turn_state(raw: Option<&str>) -> (out: Result<PersistedTurnState, String>)
    ensures
        ({
            let name = match raw {
                Some(r) => r@,
                None => "done"@,
            };
            match out {
                Ok(state) => turn_state_from_name(name) == Some(state),
                Err(message) => turn_state_from_name(name) is None && message@
                    == "unknown turn state in database: "@ + name,
            }
        }),
{
    let name = match raw {
        Some(r) => r,
        None => "done",
    };
    if str_eq(name, "streaming") {
        Ok(PersistedTurnState::Streaming)
    } else if str_eq(name, "done") {
        Ok(PersistedTurnState::Done)
    } else if str_eq(name, "failed") {
        Ok(PersistedTurnState::Failed)
    } else if str_eq(name, "cancelled") {
        Ok(PersistedTurnState::Cancelled)
    } else {
        let mut message = "unknown turn state in database: ".to_owned();
        push_str(&mut message, name);
        Err(message)
    }
}

/// Decodes a stored tool call state; a missing state is a successful call.
pub fn decode_tool_call_state(raw: Option<&str>) -> (out: Result<PersistedToolCallState, String>)
    ensures
        ({
            let name = match raw {
                Some(r) => r@,
                None => "ok"@,
            };
            match out {
                Ok(state) => tool_call_state_from_name(name) == Some(state),
                Err(message) => tool_call_state_from_name(name) is None && message@
                    == "unknown tool call state in database: "@ + name,
            }
        }),
{
    let name = match raw {
        Some(r) => r,
        None => "ok",
    };
    if str_eq(name, "running") {
        Ok(PersistedToolCallState::Running)
    } else if str_eq(name, "ok") {
        Ok(PersistedToolCallState::Succeeded)
    } else if str_eq(name, "error") {
        Ok(PersistedToolCallState::Error)
    } else {
        let mut message = "unknown tool call state in database: ".to_owned();
        push_str(&mut message, name);
        Err(message)
    }
}

/// Every stored state decodes to the state that was stored.
pub proof fn lemma_state_encoding_roundtrip(
    m: PersistedAssistantMessageState,
    t: PersistedTurnState,
    c: PersistedToolCallState,
)
    ensures
        message_state_from_name(message_state_name(m)) == Some(m),
        turn_state_from_name(turn_state_name(t)) == Some(t),
        tool_call_state_from_name(tool_call_state_name(c)) == Some(c),
{
    reveal_strlit("streaming");
    reveal_strlit("done");
    reveal_strlit("failed");
    reveal_strlit("cancelled");
    reveal_strlit("running");
    reveal_strlit("ok");
    reveal_strlit("error");
    assert("streaming"@.len() == 9 && "done"@.len() == 4 && "failed"@.len() == 6);
    assert("cancelled"@.len() == 9 && "streaming"@[0] != "cancelled"@[0]);
    assert("running"@.len() == 7 && "ok"@.len() == 2 && "error"@.len() == 5);
}

} // verus!
