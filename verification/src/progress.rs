use vstd::prelude::*;

use crate::agent::{AgentProgressEvent, AgentToolStatus};
use crate::text::{push_str, str_eq};
use crate::timeline::{
    entries_view, find_turn, messages_view, position_of_turn, EntryView, MessageView,
    PersistedAssistantMessage, PersistedAssistantMessageState, PersistedAssistantTimelineEntry,
    PersistedTaskTimelineEntry, PersistedToolCallState, PersistedTurn, PersistedTurnState,
    PersistedUserMessage, TurnView,
};

verus! {

broadcast use vstd::string::group_string_axioms;

// ----- the model: how progress events change a turn -----

/// Index of the first message with id `id` at or after `i`, or the length.
pub open spec fn find_message_from(msgs: Seq<MessageView>, id: Seq<char>, i: int) -> int
    decreases msgs.len() - i,
{
    if i < 0 || i >= msgs.len() {
        msgs.len() as int
    } else if msgs[i].message_id == id {
        i
    } else {
        find_message_from(msgs, id, i + 1)
    }
}

pub open spec fn find_message(msgs: Seq<MessageView>, id: Seq<char>) -> int {
    find_message_from(msgs, id, 0)
}

pub proof fn lemma_find_message_from(msgs: Seq<MessageView>, id: Seq<char>, i: int)
    requires
        0 <= i <= msgs.len(),
    ensures
        i <= find_message_from(msgs, id, i) <= msgs.len(),
        find_message_from(msgs, id, i) < msgs.len() ==> msgs[find_message_from(msgs, id, i)].message_id
            == id,
        forall|k: int|
            i <= k < find_message_from(msgs, id, i) ==> (#[trigger] msgs[k]).message_id != id,
    decreases msgs.len() - i,
{
    if i < msgs.len() && msgs[i].message_id != id {
        lemma_find_message_from(msgs, id, i + 1);
    }
}

/// A new, empty, streaming message.
pub open spec fn new_message(id: Seq<char>, turn_id: Seq<char>) -> MessageView {
    MessageView {
        message_id: id,
        turn_id: turn_id,
        state: PersistedAssistantMessageState::Streaming,
        reasoning: Seq::empty(),
        timeline: Seq::empty(),
    }
}

/// The turn, with a new message `id` added at the end unless it has one.
pub open spec fn ensure_message(turn: TurnView, id: Seq<char>) -> TurnView {
    if find_message(turn.messages, id) < turn.messages.len() {
        turn
    } else {
        TurnView { messages: turn.messages.push(new_message(id, turn.turn_id)), ..turn }
    }
}

/// The turn with message `k` replaced.
pub open spec fn with_message(turn: TurnView, k: int, m: MessageView) -> TurnView {
    TurnView { messages: turn.messages.update(k, m), ..turn }
}

/// Whether an entry is the tool call `tool_call_id`.
pub open spec fn is_tool_for(e: EntryView, tool_call_id: Seq<char>) -> bool {
    match e {
        EntryView::Tool { tool_call_id: id, .. } => id == tool_call_id,
        EntryView::Text { .. } => false,
    }
}

/// Index of the first tool entry for `tool_call_id`, or the length.
pub open spec fn find_tool_from(entries: Seq<EntryView>, tool_call_id: Seq<char>, i: int) -> int
    decreases entries.len() - i,
{
    if i < 0 || i >= entries.len() {
        entries.len() as int
    } else if is_tool_for(entries[i], tool_call_id) {
        i
    } else {
        find_tool_from(entries, tool_call_id, i + 1)
    }
}

pub proof fn lemma_find_tool_from(entries: Seq<EntryView>, tool_call_id: Seq<char>, i: int)
    requires
        0 <= i <= entries.len(),
    ensures
        i <= find_tool_from(entries, tool_call_id, i) <= entries.len(),
        find_tool_from(entries, tool_call_id, i) < entries.len() ==> is_tool_for(
            entries[find_tool_from(entries, tool_call_id, i)],
            tool_call_id,
        ),
    decreases entries.len() - i,
{
    if i < entries.len() && !is_tool_for(entries[i], tool_call_id) {
        lemma_find_tool_from(entries, tool_call_id, i + 1);
    }
}

/// The persisted state of a finished tool call.
pub open spec fn tool_status_state(status: AgentToolStatus) -> PersistedToolCallState {
    match status {
        AgentToolStatus::Success => PersistedToolCallState::Succeeded,
        AgentToolStatus::Error => PersistedToolCallState::Error,
    }
}

/// A message with a running tool call appended.
pub open spec fn started_tool(
    m: MessageView,
    tool_call_id: Seq<char>,
    tool_name: Seq<char>,
    summary: Seq<char>,
) -> MessageView {
    MessageView {
        timeline: m.timeline.push(
            EntryView::Tool {
                tool_call_id,
                tool_name,
                arguments: Seq::empty(),
                status: PersistedToolCallState::Running,
                preview: Some(summary),
                duration_ms: None,
            },
        ),
        ..m
    }
}

/// A message whose first entry for the tool call records how it finished;
/// unchanged when it has no such entry.
pub open spec fn finished_tool(
    m: MessageView,
    tool_call_id: Seq<char>,
    status: AgentToolStatus,
    summary: Seq<char>,
    preview: Option<Seq<char>>,
) -> MessageView {
    let k = find_tool_from(m.timeline, tool_call_id, 0);
    if k < m.timeline.len() {
        match m.timeline[k] {
            EntryView::Tool { tool_call_id: id, tool_name, arguments, duration_ms, .. } => MessageView {
                timeline: m.timeline.update(
                    k,
                    EntryView::Tool {
                        tool_call_id: id,
                        tool_name,
                        arguments,
                        status: tool_status_state(status),
                        preview: match preview {
                            Some(p) => Some(p),
                            None => Some(summary),
                        },
                        duration_ms,
                    },
                ),
                ..m
            },
            EntryView::Text { .. } => m,
        }
    } else {
        m
    }
}

/// A message with streamed text added: appended to its last text entry, or as
/// a new text entry when the last entry is not text.
pub open spec fn streamed_text(m: MessageView, delta: Seq<char>) -> MessageView {
    if m.timeline.len() > 0 && m.timeline.last() is Text {
        MessageView {
            timeline: m.timeline.update(
                m.timeline.len() - 1,
                EntryView::Text { text: m.timeline.last()->Text_text + delta },
            ),
            ..m
        }
    } else {
        MessageView { timeline: m.timeline.push(EntryView::Text { text: delta }), ..m }
    }
}

/// A message marked as finished.
pub open spec fn finished_message(m: MessageView) -> MessageView {
    MessageView { state: PersistedAssistantMessageState::Done, ..m }
}

/// The turn after `f` is applied to message `id`, which is added first when missing.
pub open spec fn on_message(turn: TurnView, id: Seq<char>, f: spec_fn(MessageView) -> MessageView) -> TurnView {
    let t = ensure_message(turn, id);
    let k = find_message(t.messages, id);
    with_message(t, k, f(t.messages[k]))
}

/// How one progress event changes a turn.
pub open spec fn apply_event(turn: TurnView, event: AgentProgressEvent) -> TurnView {
    match event {
        AgentProgressEvent::MessageStarted { message_id } => ensure_message(turn, message_id@),
        AgentProgressEvent::ToolStarted { message_id, tool_call_id, tool_name, summary } => on_message(
            turn,
            message_id@,
            |m: MessageView| started_tool(m, tool_call_id@, tool_name@, summary@),
        ),
        AgentProgressEvent::ToolFinished { message_id, tool_call_id, status, summary, preview } =>
        on_message(
            turn,
            message_id@,
            |m: MessageView|
                finished_tool(
                    m,
                    tool_call_id@,
                    status,
                    summary@,
                    crate::timeline::opt_view(preview),
                ),
        ),
        AgentProgressEvent::AssistantTextPreview { message_id, delta } => on_message(
            turn,
            message_id@,
            |m: MessageView| streamed_text(m, delta@),
        ),
        AgentProgressEvent::MessageFinished { message_id } => on_message(
            turn,
            message_id@,
            |m: MessageView| finished_message(m),
        ),
        _ => turn,
    }
}

/// Entry `after` is the turn `before` changed by `f` on its model, with the
/// same trigger.
pub open spec fn turn_changed(
    before: PersistedTaskTimelineEntry,
    after: PersistedTaskTimelineEntry,
    f: spec_fn(TurnView) -> TurnView,
) -> bool {
    match (before, after) {
        (PersistedTaskTimelineEntry::Turn(a), PersistedTaskTimelineEntry::Turn(b)) => b@ == f(a@)
            && b.trigger == a.trigger,
        _ => false,
    }
}

/// `after` is `before` with only the first turn with id `turn_id` changed by
/// `f`; unchanged when there is no such turn.
pub open spec fn timeline_turn_changed(
    before: Seq<PersistedTaskTimelineEntry>,
    after: Seq<PersistedTaskTimelineEntry>,
    turn_id: Seq<char>,
    f: spec_fn(TurnView) -> TurnView,
) -> bool {
    let k = find_turn(before, turn_id);
    if k < before.len() {
        after.len() == before.len() && (forall|i: int|
            0 <= i < before.len() && i != k ==> #[trigger] after[i] == before[i]) && turn_changed(
            before[k],
            after[k],
            f,
        )
    } else {
        after == before
    }
}

// ----- executable steps -----

/// Makes sure the turn has a message with the given id, adding an empty
/// streaming one at the end if needed, and returns its position.
pub fn ensure_persisted_message(turn: &mut PersistedTurn, message_id: &str) -> (idx: usize)
    ensures
        final(turn)@ == ensure_message(old(turn)@, message_id@),
        final(turn).trigger == old(turn).trigger,
        idx == find_message(final(turn)@.messages, message_id@),
        idx < final(turn).messages@.len(),
{
    let mut i: usize = 0;
    while i < turn.messages.len()
        invariant
            i <= turn.messages.len(),
            find_message_from(turn@.messages, message_id@, i as int) == find_message(
                turn@.messages,
                message_id@,
            ),
        decreases turn.messages.len() - i,
    {
        if str_eq(turn.messages[i].message_id.as_str(), message_id) {
            proof {
                lemma_find_message_from(turn@.messages, message_id@, 0);
            }
            return i;
        }
        i += 1;
    }
    let ghost before = turn@;
    let message = PersistedAssistantMessage {
        message_id: message_id.to_owned(),
        turn_id: turn.turn_id.clone(),
        state: PersistedAssistantMessageState::Streaming,
        reasoning: String::new(),
        timeline: Vec::new(),
    };
    assert(entries_view(message.timeline@) =~= Seq::<EntryView>::empty());
    turn.messages.push(message);
    assert(turn@.messages =~= before.messages.push(new_message(message_id@, before.turn_id)));
    proof {
        lemma_find_message_from(turn@.messages, message_id@, 0);
        lemma_find_message_from(before.messages, message_id@, 0);
        let n = before.messages.len() as int;
        assert forall|k: int| 0 <= k < n implies (#[trigger] turn@.messages[k]).message_id
            != message_id@ by {
            assert(turn@.messages[k] == before.messages[k]);
        }
        lemma_find_message_first(turn@.messages, message_id@, n);
    }
    turn.messages.len() - 1
}

/// If no message before `n` has the id and message `n` does, the first match is `n`.
pub proof fn lemma_find_message_first(msgs: Seq<MessageView>, id: Seq<char>, n: int)
    requires
        0 <= n < msgs.len(),
        msgs[n].message_id == id,
        forall|k: int| 0 <= k < n ==> (#[trigger] msgs[k]).message_id != id,
    ensures
        find_message(msgs, id) == n,
{
    lemma_find_message_step(msgs, id, 0, n);
}

proof fn lemma_find_message_step(msgs: Seq<MessageView>, id: Seq<char>, i: int, n: int)
    requires
        0 <= i <= n < msgs.len(),
        msgs[n].message_id == id,
        forall|k: int| 0 <= k < n ==> (#[trigger] msgs[k]).message_id != id,
    ensures
        find_message_from(msgs, id, i) == n,
    decreases n - i,
{
    if i < n {
        lemma_find_message_step(msgs, id, i + 1, n);
    }
}

/// Replaces message `k` of a turn with `m`.
fn put_message(turn: &mut PersistedTurn, k: usize, m: PersistedAssistantMessage)
    requires
        k < old(turn).messages@.len(),
    ensures
        final(turn)@ == with_message(old(turn)@, k as int, m@),
        final(turn).trigger == old(turn).trigger,
        final(turn).messages@.len() == old(turn).messages@.len(),
{
    let ghost before = turn@;
    let _old = turn.messages.remove(k);
    turn.messages.insert(k, m);
    assert(turn@.messages =~= before.messages.update(k as int, m@));
}

/// Takes message `k` out of a turn, leaving an empty placeholder.
fn take_message(turn: &mut PersistedTurn, k: usize) -> (m: PersistedAssistantMessage)
    requires
        k < old(turn).messages@.len(),
    ensures
        m@ == old(turn)@.messages[k as int],
        final(turn)@ == with_message(old(turn)@, k as int, new_message(Seq::empty(), Seq::empty())),
        final(turn).messages@.len() == old(turn).messages@.len(),
        final(turn).turn_id == old(turn).turn_id,
        final(turn).agent_id == old(turn).agent_id,
        final(turn).state == old(turn).state,
        final(turn).error_message == old(turn).error_message,
        final(turn).timestamp == old(turn).timestamp,
        final(turn).trigger == old(turn).trigger,
        forall|i: int|
            0 <= i < old(turn).messages@.len() && i != k ==> #[trigger] final(turn).messages@[i]
                == old(turn).messages@[i],
{
    let placeholder = PersistedAssistantMessage {
        message_id: String::new(),
        turn_id: String::new(),
        state: PersistedAssistantMessageState::Streaming,
        reasoning: String::new(),
        timeline: Vec::new(),
    };
    let ghost before = turn@;
    let m = turn.messages.remove(k);
    assert(entries_view(placeholder.timeline@) =~= Seq::<EntryView>::empty());
    turn.messages.insert(k, placeholder);
    assert(turn@.messages =~= before.messages.update(k as int, new_message(Seq::empty(), Seq::empty())));
    m
}

fn start_tool(
    m: &mut PersistedAssistantMessage,
    tool_call_id: String,
    tool_name: String,
    summary: String,
)
    ensures
        final(m)@ == started_tool(old(m)@, tool_call_id@, tool_name@, summary@),
{
    let ghost before = m@;
    let entry = PersistedAssistantTimelineEntry::Tool {
        tool_call_id,
        tool_name,
        arguments: String::new(),
        status: PersistedToolCallState::Running,
        preview: Some(summary),
        duration_ms: None,
    };
    m.timeline.push(entry);
    assert(m@.timeline =~= before.timeline.push(entry@));
}

/// Position of the first tool entry for the call, or the length.
fn position_of_tool(timeline: &Vec<PersistedAssistantTimelineEntry>, tool_call_id: &str) -> (out:
    usize)
    ensures
        out == find_tool_from(entries_view(timeline@), tool_call_id@, 0),
{
    let mut i: usize = 0;
    while i < timeline.len()
        invariant
            i <= timeline.len(),
            find_tool_from(entries_view(timeline@), tool_call_id@, i as int) == find_tool_from(
                entries_view(timeline@),
                tool_call_id@,
                0,
            ),
        decreases timeline.len() - i,
    {
        let hit = match &timeline[i] {
            PersistedAssistantTimelineEntry::Tool { tool_call_id: id, .. } => str_eq(
                id.as_str(),
                tool_call_id,
            ),
            PersistedAssistantTimelineEntry::Text { .. } => false,
        };
        if hit {
            return i;
        }
        i += 1;
    }
    i
}

fn finish_tool(
    m: &mut PersistedAssistantMessage,
    tool_call_id: &str,
    status: AgentToolStatus,
    summary: String,
    preview: Option<String>,
)
    ensures
        final(m)@ == finished_tool(
            old(m)@,
            tool_call_id@,
            status,
            summary@,
            crate::timeline::opt_view(preview),
        ),
{
    let ghost before = m@;
    let i = position_of_tool(&m.timeline, tool_call_id);
    proof {
        lemma_find_tool_from(m@.timeline, tool_call_id@, 0);
    }
    if i < m.timeline.len() {
        let entry = m.timeline.remove(i);
        match entry {
            PersistedAssistantTimelineEntry::Tool {
                tool_call_id: id,
                tool_name,
                arguments,
                status: _,
                preview: _,
                duration_ms,
            } => {
                let new_status = match status {
                    AgentToolStatus::Success => PersistedToolCallState::Succeeded,
                    AgentToolStatus::Error => PersistedToolCallState::Error,
                };
                let new_preview = match preview {
                    Some(p) => Some(p),
                    None => Some(summary),
                };
                let updated = PersistedAssistantTimelineEntry::Tool {
                    tool_call_id: id,
                    tool_name,
                    arguments,
                    status: new_status,
                    preview: new_preview,
                    duration_ms,
                };
                m.timeline.insert(i, updated);
                assert(m@.timeline =~= before.timeline.update(i as int, updated@));
            },
            PersistedAssistantTimelineEntry::Text { text } => {
                m.timeline.insert(i, PersistedAssistantTimelineEntry::Text { text });
                assert(m@.timeline =~= before.timeline);
            },
        }
    }
}

fn stream_text(m: &mut PersistedAssistantMessage, delta: String)
    ensures
        final(m)@ == streamed_text(old(m)@, delta@),
{
    let ghost before = m@;
    let n = m.timeline.len();
    let last_is_text = n > 0 && match &m.timeline[n - 1] {
        PersistedAssistantTimelineEntry::Text { .. } => true,
        PersistedAssistantTimelineEntry::Tool { .. } => false,
    };
    if last_is_text {
        let last = m.timeline.pop();
        match last {
            Some(PersistedAssistantTimelineEntry::Text { text }) => {
                let mut text = text;
                push_str(&mut text, delta.as_str());
                let entry = PersistedAssistantTimelineEntry::Text { text };
                m.timeline.push(entry);
                assert(m@.timeline =~= before.timeline.update(n - 1, entry@));
            },
            Some(other) => {
                m.timeline.push(other);
            },
            None => {},
        }
    } else {
        let entry = PersistedAssistantTimelineEntry::Text { text: delta };
        m.timeline.push(entry);
        assert(m@.timeline =~= before.timeline.push(entry@));
    }
}

/// Applies a progress event to a turn.
pub fn apply_event_to_turn(turn: &mut PersistedTurn, event: AgentProgressEvent)
    ensures
        final(turn)@ == apply_event(old(turn)@, event),
        final(turn).trigger == old(turn).trigger,
{
    let ghost ev = event;
    match event {
        AgentProgressEvent::MessageStarted { message_id } => {
            let _ = ensure_persisted_message(turn, message_id.as_str());
        },
        AgentProgressEvent::ToolStarted { message_id, tool_call_id, tool_name, summary } => {
            let k = ensure_persisted_message(turn, message_id.as_str());
            let ghost t = turn@;
            let mut m = take_message(turn, k);
            start_tool(&mut m, tool_call_id, tool_name, summary);
            put_message(turn, k, m);
            assert(turn@.messages =~= t.messages.update(k as int, m@));
        },
        AgentProgressEvent::ToolFinished { message_id, tool_call_id, status, summary, preview } => {
            let k = ensure_persisted_message(turn, message_id.as_str());
            let ghost t = turn@;
            let mut m = take_message(turn, k);
            finish_tool(&mut m, tool_call_id.as_str(), status, summary, preview);
            put_message(turn, k, m);
            assert(turn@.messages =~= t.messages.update(k as int, m@));
        },
        AgentProgressEvent::AssistantTextPreview { message_id, delta } => {
            let k = ensure_persisted_message(turn, message_id.as_str());
            let ghost t = turn@;
            let mut m = take_message(turn, k);
            stream_text(&mut m, delta);
            put_message(turn, k, m);
            assert(turn@.messages =~= t.messages.update(k as int, m@));
        },
        AgentProgressEvent::MessageFinished { message_id } => {
            let k = ensure_persisted_message(turn, message_id.as_str());
            let ghost t = turn@;
            let mut m = take_message(turn, k);
            m.state = PersistedAssistantMessageState::Done;
            put_message(turn, k, m);
            assert(turn@.messages =~= t.messages.update(k as int, m@));
        },
        _ => {},
    }
}

/// Applies a progress event to the first turn with the given id; the timeline
/// is returned unchanged when it has no such turn.
pub fn apply_agent_progress_to_persisted_timeline(
    timeline: Vec<PersistedTaskTimelineEntry>,
    turn_id: &str,
    event: AgentProgressEvent,
) -> (out: Vec<PersistedTaskTimelineEntry>)
    ensures
        timeline_turn_changed(timeline@, out@, turn_id@, |t: TurnView| apply_event(t, event)),
{
    let mut timeline = timeline;
    let ghost before = timeline@;
    let k = position_of_turn(&timeline, turn_id);
    proof {
        crate::timeline::lemma_find_turn_from(before, turn_id@, 0);
    }
    if k < timeline.len() {
        let entry = timeline.remove(k);
        match entry {
            PersistedTaskTimelineEntry::Turn(mut turn) => {
                let ghost t = turn;
                apply_event_to_turn(&mut turn, event);
                let updated = PersistedTaskTimelineEntry::Turn(turn);
                timeline.insert(k, updated);
                assert(turn_changed(before[k as int], updated, |t: TurnView| apply_event(t, event)));
                assert forall|i: int| 0 <= i < before.len() && i != k implies #[trigger] timeline@[i]
                    == before[i] by {}
            },
            PersistedTaskTimelineEntry::UserMessage(message) => {
                timeline.insert(k, PersistedTaskTimelineEntry::UserMessage(message));
                assert(timeline@ =~= before);
            },
        }
    }
    timeline
}

/// A turn that ended: its final state and error, with every message finished.
pub open spec fn finished_turn(turn: TurnView, state: PersistedTurnState, error: Option<Seq<char>>) -> TurnView {
    TurnView {
        state,
        error_message: error,
        messages: turn.messages.map_values(|m: MessageView| finished_message(m)),
        ..turn
    }
}

/// Marks the first turn with the given id as ended with `state`, records the
/// error message, and marks all its messages finished.
pub fn finish_persisted_turn(
    timeline: Vec<PersistedTaskTimelineEntry>,
    turn_id: &str,
    state: PersistedTurnState,
    error_message: Option<String>,
) -> (out: Vec<PersistedTaskTimelineEntry>)
    ensures
        timeline_turn_changed(
            timeline@,
            out@,
            turn_id@,
            |t: TurnView| finished_turn(t, state, crate::timeline::opt_view(error_message)),
        ),
{
    let mut timeline = timeline;
    let ghost before = timeline@;
    let ghost err = crate::timeline::opt_view(error_message);
    let k = position_of_turn(&timeline, turn_id);
    proof {
        crate::timeline::lemma_find_turn_from(before, turn_id@, 0);
    }
    if k < timeline.len() {
        let entry = timeline.remove(k);
        match entry {
            PersistedTaskTimelineEntry::Turn(mut turn) => {
                let ghost t = turn@;
                let ghost trig = turn.trigger;
                turn.state = state;
                turn.error_message = error_message;
                let mut j: usize = 0;
                while j < turn.messages.len()
                    invariant
                        j <= turn.messages.len(),
                        turn.messages@.len() == t.messages.len(),
                        turn.trigger == trig,
                        turn@ == (TurnView {
                            state,
                            error_message: err,
                            messages: turn@.messages,
                            ..t
                        }),
                        forall|i: int|
                            0 <= i < j ==> #[trigger] turn@.messages[i] == finished_message(
                                t.messages[i],
                            ),
                        forall|i: int|
                            j <= i < t.messages.len() ==> #[trigger] turn@.messages[i]
                                == t.messages[i],
                    decreases turn.messages.len() - j,
                {
                    let mut m = take_message(&mut turn, j);
                    m.state = PersistedAssistantMessageState::Done;
                    put_message(&mut turn, j, m);
                    j += 1;
                }
                assert(turn@.messages =~= t.messages.map_values(|m: MessageView| finished_message(m)));
                let updated = PersistedTaskTimelineEntry::Turn(turn);
                timeline.insert(k, updated);
                assert(turn_changed(before[k as int], updated, |t: TurnView| finished_turn(t, state, err)));
                assert forall|i: int| 0 <= i < before.len() && i != k implies #[trigger] timeline@[i]
                    == before[i] by {}
            },
            PersistedTaskTimelineEntry::UserMessage(message) => {
                timeline.insert(k, PersistedTaskTimelineEntry::UserMessage(message));
                assert(timeline@ =~= before);
            },
        }
    }
    timeline
}

/// The timeline with a user message appended.
pub fn append_persisted_user_message(
    timeline: Vec<PersistedTaskTimelineEntry>,
    message: PersistedUserMessage,
) -> (out: Vec<PersistedTaskTimelineEntry>)
    ensures
        out@ == timeline@.push(PersistedTaskTimelineEntry::UserMessage(message)),
{
    let mut next = timeline;
    next.push(PersistedTaskTimelineEntry::UserMessage(message));
    next
}

/// The timeline with a newly started turn appended.
pub fn append_started_turn(timeline: Vec<PersistedTaskTimelineEntry>, turn: PersistedTurn) -> (out:
    Vec<PersistedTaskTimelineEntry>)
    ensures
        out@ == timeline@.push(PersistedTaskTimelineEntry::Turn(turn)),
{
    let mut next = timeline;
    next.push(PersistedTaskTimelineEntry::Turn(turn));
    next
}

/// The canonical timeline followed by what a finished turn added after the
/// baseline it started from.
pub fn merge_timeline_suffix(
    baseline_len: usize,
    canonical: Vec<PersistedTaskTimelineEntry>,
    completed: Vec<PersistedTaskTimelineEntry>,
) -> (out: Vec<PersistedTaskTimelineEntry>)
    ensures
        out@ == canonical@ + (if baseline_len <= completed@.len() {
            completed@.skip(baseline_len as int)
        } else {
            Seq::empty()
        }),
{
    let mut timeline = canonical;
    let mut completed = completed;
    if baseline_len <= completed.len() {
        let mut tail = completed.split_off(baseline_len);
        timeline.append(&mut tail);
    }
    timeline
}

/// Counts progress events of a turn: each call gives the next sequence number.
pub struct TurnProgressContext {
    pub user_message_id: String,
    pub next_seq: u64,
}

impl TurnProgressContext {
    pub fn new(user_message_id: String) -> (out: Self)
        ensures
            out.user_message_id == user_message_id,
            out.next_seq == 0,
    {
        TurnProgressContext { user_message_id, next_seq: 0 }
    }

    /// The next sequence number: one more than the last one given out.
    pub fn next_seq(&mut self) -> (out: u64)
        requires
            old(self).next_seq < u64::MAX,
        ensures
            out == old(self).next_seq + 1,
            final(self).next_seq == out,
            final(self).user_message_id == old(self).user_message_id,
    {
        self.next_seq = self.next_seq + 1;
        self.next_seq
    }
}

// ----- laws -----

/// Starting the same message twice is the same as starting it once.
pub proof fn lemma_message_started_idempotent(turn: TurnView, id: Seq<char>)
    ensures
        ensure_message(ensure_message(turn, id), id) == ensure_message(turn, id),
{
    lemma_find_message_from(turn.messages, id, 0);
    let t = ensure_message(turn, id);
    lemma_find_message_from(t.messages, id, 0);
    if find_message(turn.messages, id) >= turn.messages.len() {
        let n = turn.messages.len() as int;
        assert forall|k: int| 0 <= k < n implies (#[trigger] t.messages[k]).message_id != id by {
            assert(t.messages[k] == turn.messages[k]);
        }
        lemma_find_message_first(t.messages, id, n);
    }
}

/// A finished turn has no message still streaming.
pub proof fn lemma_finished_turn_has_no_streaming_message(
    turn: TurnView,
    state: PersistedTurnState,
    error: Option<Seq<char>>,
)
    ensures
        forall|i: int|
            0 <= i < finished_turn(turn, state, error).messages.len() ==> (#[trigger] finished_turn(
                turn,
                state,
                error,
            ).messages[i]).state == PersistedAssistantMessageState::Done,
{
}

/// A progress event on a turn never removes or reorders its messages: every
/// message before the event is still there, at the same position and with the
/// same id.
pub proof fn lemma_event_keeps_messages(turn: TurnView, event: AgentProgressEvent)
    ensures
        apply_event(turn, event).messages.len() >= turn.messages.len(),
        forall|i: int|
            0 <= i < turn.messages.len() ==> (#[trigger] apply_event(turn, event).messages[i]).message_id
                == turn.messages[i].message_id,
{
    match event {
        AgentProgressEvent::MessageStarted { message_id } => {},
        AgentProgressEvent::ToolStarted { message_id, .. } => {
            lemma_on_message_keeps_ids(turn, message_id@, |m: MessageView| started_tool(m, event->ToolStarted_tool_call_id@, event->ToolStarted_tool_name@, event->ToolStarted_summary@));
        },
        AgentProgressEvent::ToolFinished { message_id, .. } => {
            lemma_on_message_keeps_ids(
                turn,
                message_id@,
                |m: MessageView|
                    finished_tool(
                        m,
                        event->ToolFinished_tool_call_id@,
                        event->ToolFinished_status,
                        event->ToolFinished_summary@,
                        crate::timeline::opt_view(event->ToolFinished_preview),
                    ),
            );
        },
        AgentProgressEvent::AssistantTextPreview { message_id, delta } => {
            lemma_on_message_keeps_ids(turn, message_id@, |m: MessageView| streamed_text(m, delta@));
        },
        AgentProgressEvent::MessageFinished { message_id } => {
            lemma_on_message_keeps_ids(turn, message_id@, |m: MessageView| finished_message(m));
        },
        _ => {},
    }
}

proof fn lemma_on_message_keeps_ids(
    turn: TurnView,
    id: Seq<char>,
    f: spec_fn(MessageView) -> MessageView,
)
    requires
        forall|m: MessageView| #[trigger] f(m).message_id == m.message_id,
    ensures
        on_message(turn, id, f).messages.len() >= turn.messages.len(),
        forall|i: int|
            0 <= i < turn.messages.len() ==> (#[trigger] on_message(turn, id, f).messages[i]).message_id
                == turn.messages[i].message_id,
{
    let t = ensure_message(turn, id);
    lemma_find_message_from(t.messages, id, 0);
    lemma_find_message_from(turn.messages, id, 0);
    lemma_message_started_idempotent(turn, id);
    assert(find_message(t.messages, id) < t.messages.len());
}

} // verus!
