use vstd::prelude::*;

use crate::json::{
    items_view, json_text, no_items, push_item, str_value, write_json, Json, JsonValue,
};
use crate::agents::MARCH_AGENT_NAME;
use crate::json::{get_field, parse_json, parsed_json, text_field, text_of};
use crate::memory::{from_unix_timestamp, unix_timestamp};
use crate::tool_args::{all_texts, decode_tag_list, texts_of};
use crate::timeline::{
    decode_message_state, decode_tool_call_state, encode_message_state, encode_tool_call_state,
    encode_turn_state, entries_view, message_state_from_name, message_state_name, opt_view,
    tool_call_state_from_name, tool_call_state_name, turn_state_name, EntryView, MessageView,
    PersistedAssistantMessage, PersistedAssistantTimelineEntry, PersistedReplyRef,
    PersistedTaskTimelineEntry, PersistedTurn, PersistedTurnTrigger, PersistedUserMessage,
    ContentBlock, decode_turn_state, turn_state_from_name,
};
use crate::text::{i64_to_string, join, join_strings, push_str, signed_decimal, str_eq, strings_view, to_owned};

verus! {

broadcast use vstd::string::group_string_axioms;

/// A stored entry of an assistant message's timeline: its message, its
/// position there, and its columns.
#[derive(Debug)]
pub struct MessageEntryRow {
    pub message_id: String,
    pub position: usize,
    pub kind: String,
    pub text: Option<String>,
    pub tool_call_id: Option<String>,
    pub tool_name: Option<String>,
    pub arguments: Option<String>,
    pub status: Option<String>,
    pub preview: Option<String>,
    pub duration_ms: Option<i64>,
}

/// The plain value of a message entry row's columns.
pub struct EntryColumns {
    pub kind: Seq<char>,
    pub text: Option<Seq<char>>,
    pub tool_call_id: Option<Seq<char>>,
    pub tool_name: Option<Seq<char>>,
    pub arguments: Option<Seq<char>>,
    pub status: Option<Seq<char>>,
    pub preview: Option<Seq<char>>,
    pub duration_ms: Option<i64>,
}

pub open spec fn entry_columns(r: MessageEntryRow) -> EntryColumns {
    EntryColumns {
        kind: r.kind@,
        text: opt_view(r.text),
        tool_call_id: opt_view(r.tool_call_id),
        tool_name: opt_view(r.tool_name),
        arguments: opt_view(r.arguments),
        status: opt_view(r.status),
        preview: opt_view(r.preview),
        duration_ms: r.duration_ms,
    }
}

/// The columns an entry is stored in: a text entry keeps its text, a tool
/// entry its call, state, preview and duration (as a signed integer).
pub open spec fn stored_entry(e: EntryView) -> EntryColumns {
    match e {
        EntryView::Text { text } => EntryColumns {
            kind: "text"@,
            text: Some(text),
            tool_call_id: None,
            tool_name: None,
            arguments: None,
            status: None,
            preview: None,
            duration_ms: None,
        },
        EntryView::Tool { tool_call_id, tool_name, arguments, status, preview, duration_ms } => EntryColumns {
            kind: "tool"@,
            text: None,
            tool_call_id: Some(tool_call_id),
            tool_name: Some(tool_name),
            arguments: Some(arguments),
            status: Some(tool_call_state_name(status)),
            preview,
            duration_ms: match duration_ms {
                Some(d) => Some(d as i64),
                None => None,
            },
        },
    }
}

/// The text of a column, or the empty text where it is null.
pub open spec fn or_empty(t: Option<Seq<char>>) -> Seq<char> {
    match t {
        Some(s) => s,
        None => Seq::empty(),
    }
}

/// The entry stored in the columns, or why they hold none: a missing text
/// reads as empty, a missing state as a successful call, a negative duration
/// as none.
pub open spec fn loaded_entry(c: EntryColumns) -> Result<EntryView, Seq<char>> {
    if c.kind == "text"@ {
        Ok(EntryView::Text { text: or_empty(c.text) })
    } else if c.kind == "tool"@ {
        let name = match c.status {
            Some(s) => s,
            None => "ok"@,
        };
        match tool_call_state_from_name(name) {
            None => Err("unknown tool call state in database: "@ + name),
            Some(status) => Ok(
                EntryView::Tool {
                    tool_call_id: or_empty(c.tool_call_id),
                    tool_name: or_empty(c.tool_name),
                    arguments: or_empty(c.arguments),
                    status,
                    preview: c.preview,
                    duration_ms: match c.duration_ms {
                        Some(d) => if d >= 0 {
                            Some(d as u64)
                        } else {
                            None
                        },
                        None => None,
                    },
                },
            ),
        }
    } else {
        Err("unknown message timeline entry kind in database: "@ + c.kind)
    }
}

fn copy_opt(s: &Option<String>) -> (out: Option<String>)
    ensures
        opt_view(out) == opt_view(*s),
{
    match s {
        Some(t) => Some(to_owned(t.as_str())),
        None => None,
    }
}

fn or_empty_string(s: Option<String>) -> (out: String)
    ensures
        out@ == or_empty(opt_view(s)),
{
    match s {
        Some(t) => t,
        None => String::new(),
    }
}

/// The row an entry of message `message_id` is stored in, at `position`.
pub fn encode_message_entry(message_id: &str, position: usize, e: &PersistedAssistantTimelineEntry) -> (out: MessageEntryRow)
    ensures
        out.message_id@ == message_id@,
        out.position == position,
        entry_columns(out) == stored_entry(e@),
{
    match e {
        PersistedAssistantTimelineEntry::Text { text } => MessageEntryRow {
            message_id: to_owned(message_id),
            position,
            kind: to_owned("text"),
            text: Some(to_owned(text.as_str())),
            tool_call_id: None,
            tool_name: None,
            arguments: None,
            status: None,
            preview: None,
            duration_ms: None,
        },
        PersistedAssistantTimelineEntry::Tool { tool_call_id, tool_name, arguments, status, preview, duration_ms } => {
            let duration = match duration_ms {
                Some(d) => Some(*d as i64),
                None => None,
            };
            MessageEntryRow {
                message_id: to_owned(message_id),
                position,
                kind: to_owned("tool"),
                text: None,
                tool_call_id: Some(to_owned(tool_call_id.as_str())),
                tool_name: Some(to_owned(tool_name.as_str())),
                arguments: Some(to_owned(arguments.as_str())),
                status: Some(to_owned(encode_tool_call_state(*status))),
                preview: copy_opt(preview),
                duration_ms: duration,
            }
        },
    }
}

/// Reads the entry a row stores.
pub fn decode_message_entry(row: MessageEntryRow) -> (out: Result<PersistedAssistantTimelineEntry, String>)
    ensures
        match loaded_entry(entry_columns(row)) {
            Ok(e) => out is Ok && out->Ok_0@ == e,
            Err(m) => out is Err && out->Err_0@ == m,
        },
{
    let ghost cols = entry_columns(row);
    if str_eq(row.kind.as_str(), "text") {
        Ok(PersistedAssistantTimelineEntry::Text { text: or_empty_string(row.text) })
    } else if str_eq(row.kind.as_str(), "tool") {
        let status_name: Option<&str> = match &row.status {
            Some(t) => Some(t.as_str()),
            None => None,
        };
        let status = match decode_tool_call_state(status_name) {
            Ok(s) => s,
            Err(e) => return Err(e),
        };
        let duration_ms = match row.duration_ms {
            Some(d) => if d >= 0 {
                Some(d as u64)
            } else {
                None
            },
            None => None,
        };
        Ok(
            PersistedAssistantTimelineEntry::Tool {
                tool_call_id: or_empty_string(row.tool_call_id),
                tool_name: or_empty_string(row.tool_name),
                arguments: or_empty_string(row.arguments),
                status,
                preview: row.preview,
                duration_ms,
            },
        )
    } else {
        let mut message = to_owned("unknown message timeline entry kind in database: ");
        push_str(&mut message, row.kind.as_str());
        Err(message)
    }
}

/// Whether an entry's duration fits the signed column it is stored in.
pub open spec fn duration_fits(e: EntryView) -> bool {
    match e {
        EntryView::Tool { duration_ms: Some(d), .. } => d <= i64::MAX,
        _ => true,
    }
}

/// Reading back the row of a stored entry gives the entry, when its
/// duration fits the signed column.
pub proof fn lemma_message_entry_roundtrip(e: EntryView)
    requires
        duration_fits(e),
    ensures
        loaded_entry(stored_entry(e)) == Ok::<EntryView, Seq<char>>(e),
{
    reveal_strlit("text");
    reveal_strlit("tool");
    assert("tool"@[2] != "text"@[2]);
    match e {
        EntryView::Tool { status, duration_ms, .. } => {
            crate::timeline::lemma_state_encoding_roundtrip(
                crate::timeline::PersistedAssistantMessageState::Done,
                crate::timeline::PersistedTurnState::Done,
                status,
            );
            match duration_ms {
                Some(d) => {
                    assert(d <= 0x7fff_ffff_ffff_ffffu64 ==> (d as i64) >= 0 && ((d as i64) as u64) == d)
                        by (bit_vector);
                },
                None => {},
            }
            let c = stored_entry(e);
            assert(c.kind == "tool"@);
            assert("tool"@[2] != "text"@[2]);
            assert("tool"@ != "text"@);
            assert(c.status == Some(tool_call_state_name(status)));
            assert(tool_call_state_from_name(tool_call_state_name(status)) == Some(status));
            assert(loaded_entry(c) is Ok);
        },
        _ => {},
    }
}

/// A stored message of a turn, at its position in the turn.
#[derive(Debug)]
pub struct MessageRow {
    pub turn_id: String,
    pub message_id: String,
    pub position: usize,
    pub state: String,
    pub reasoning: String,
}

/// The row of a message at `position` in turn `turn_id`, and the rows of
/// its timeline entries in order.
pub fn encode_message(turn_id: &str, position: usize, m: &PersistedAssistantMessage) -> (out: (MessageRow, Vec<MessageEntryRow>))
    ensures
        out.0.turn_id@ == turn_id@,
        out.0.message_id@ == m.message_id@,
        out.0.position == position,
        out.0.state@ == message_state_name(m.state),
        out.0.reasoning@ == m.reasoning@,
        out.1@.len() == m.timeline@.len(),
        forall|j: int|
            0 <= j < out.1@.len() ==> (#[trigger] out.1@[j]).message_id@ == m.message_id@
                && out.1@[j].position == j && entry_columns(out.1@[j]) == stored_entry(
                m.timeline@[j]@,
            ),
{
    let row = MessageRow {
        turn_id: to_owned(turn_id),
        message_id: to_owned(m.message_id.as_str()),
        position,
        state: to_owned(encode_message_state(m.state)),
        reasoning: to_owned(m.reasoning.as_str()),
    };
    let mut entries: Vec<MessageEntryRow> = Vec::new();
    let mut j: usize = 0;
    while j < m.timeline.len()
        invariant
            j <= m.timeline.len(),
            entries@.len() == j,
            forall|k: int|
                0 <= k < j ==> (#[trigger] entries@[k]).message_id@ == m.message_id@
                    && entries@[k].position == k && entry_columns(entries@[k]) == stored_entry(
                    m.timeline@[k]@,
                ),
        decreases m.timeline.len() - j,
    {
        entries.push(encode_message_entry(m.message_id.as_str(), j, &m.timeline[j]));
        j += 1;
    }
    (row, entries)
}

/// The message stored in a message row and the rows of its entries, in
/// order, or the first error.
pub open spec fn loaded_entries(cols: Seq<EntryColumns>) -> Result<Seq<EntryView>, Seq<char>>
    decreases cols.len(),
{
    if cols.len() == 0 {
        Ok(Seq::empty())
    } else {
        match loaded_entries(cols.drop_last()) {
            Err(e) => Err(e),
            Ok(es) => match loaded_entry(cols.last()) {
                Err(e) => Err(e),
                Ok(x) => Ok(es.push(x)),
            },
        }
    }
}

pub open spec fn rows_columns(rows: Seq<MessageEntryRow>) -> Seq<EntryColumns> {
    rows.map_values(|r: MessageEntryRow| entry_columns(r))
}

/// The message a row and its entry rows hold, or why they hold none.
pub open spec fn loaded_message(
    turn_id: Seq<char>,
    message_id: Seq<char>,
    state: Seq<char>,
    reasoning: Seq<char>,
    entries: Seq<EntryColumns>,
) -> Result<MessageView, Seq<char>> {
    match message_state_from_name(state) {
        None => Err("unknown message state in database: "@ + state),
        Some(s) => match loaded_entries(entries) {
            Err(e) => Err(e),
            Ok(timeline) => Ok(MessageView { message_id, turn_id, state: s, reasoning, timeline }),
        },
    }
}

proof fn lemma_loaded_entries_error_stays(cols: Seq<EntryColumns>, i: int, e: Seq<char>)
    requires
        0 <= i <= cols.len(),
        loaded_entries(cols.take(i)) is Err,
        loaded_entries(cols.take(i))->Err_0 == e,
    ensures
        loaded_entries(cols) is Err,
        loaded_entries(cols)->Err_0 == e,
    decreases cols.len() - i,
{
    if i < cols.len() {
        assert(cols.take(i + 1).drop_last() =~= cols.take(i));
        lemma_loaded_entries_error_stays(cols, i + 1, e);
    } else {
        assert(cols.take(i) =~= cols);
    }
}

/// Reads a message of turn `turn_id` from its row and the rows of its
/// entries, in order.
pub fn decode_message(turn_id: &str, row: MessageRow, entries: Vec<MessageEntryRow>) -> (out: Result<PersistedAssistantMessage, String>)
    ensures
        match loaded_message(turn_id@, row.message_id@, row.state@, row.reasoning@, rows_columns(entries@)) {
            Ok(m) => out is Ok && out->Ok_0@ == m,
            Err(e) => out is Err && out->Err_0@ == e,
        },
{
    let state = match decode_message_state(row.state.as_str()) {
        Ok(s) => s,
        Err(e) => return Err(e),
    };
    let ghost cols = rows_columns(entries@);
    let mut timeline: Vec<PersistedAssistantTimelineEntry> = Vec::new();
    let mut rest = entries;
    let mut reversed: Vec<MessageEntryRow> = Vec::new();
    let ghost n = rest@.len();
    while rest.len() > 0
        invariant
            rest@.len() + reversed@.len() == n,
            n == cols.len(),
            forall|k: int| 0 <= k < rest@.len() ==> #[trigger] entry_columns(rest@[k]) == cols[k],
            forall|k: int|
                0 <= k < reversed@.len() ==> #[trigger] entry_columns(reversed@[k]) == cols[n - 1 - k],
        decreases rest.len(),
    {
        let r = rest.pop().unwrap();
        reversed.push(r);
    }
    assert(cols.take(0) =~= Seq::<EntryColumns>::empty());
    assert(entries_view(timeline@) =~= Seq::<EntryView>::empty());
    while reversed.len() > 0
        invariant
            reversed@.len() <= n,
            n == cols.len(),
            forall|k: int|
                0 <= k < reversed@.len() ==> #[trigger] entry_columns(reversed@[k]) == cols[n - 1 - k],
            message_state_from_name(row.state@) == Some(state),
            cols == rows_columns(entries@),
            loaded_entries(cols.take(n - reversed@.len())) == Ok::<Seq<EntryView>, Seq<char>>(entries_view(timeline@)),
        decreases reversed.len(),
    {
        let ghost i = n - reversed@.len();
        let r = reversed.pop().unwrap();
        assert(entry_columns(r) == cols[i]);
        assert(cols.take(i + 1).drop_last() =~= cols.take(i));
        assert(cols.take(i + 1).last() == cols[i]);
        match decode_message_entry(r) {
            Ok(e) => {
                let ghost before = timeline@;
                timeline.push(e);
                assert(entries_view(timeline@) =~= entries_view(before).push(e@));
            },
            Err(e) => {
                proof {
                    lemma_loaded_entries_error_stays(cols, i + 1, e@);
                }
                return Err(e);
            },
        }
    }
    assert(cols.take(n as int) =~= cols);
    Ok(
        PersistedAssistantMessage {
            message_id: row.message_id,
            turn_id: to_owned(turn_id),
            state,
            reasoning: row.reasoning,
            timeline,
        },
    )
}

/// Whether every entry's duration fits its signed column.
pub open spec fn durations_fit(m: MessageView) -> bool {
    forall|j: int| 0 <= j < m.timeline.len() ==> duration_fits(#[trigger] m.timeline[j])
}

proof fn lemma_loaded_stored_entries(es: Seq<EntryView>)
    requires
        forall|j: int| 0 <= j < es.len() ==> duration_fits(#[trigger] es[j]),
    ensures
        loaded_entries(es.map_values(|e: EntryView| stored_entry(e))) == Ok::<Seq<EntryView>, Seq<char>>(es),
    decreases es.len(),
{
    if es.len() > 0 {
        let prefix = es.drop_last();
        assert forall|j: int| 0 <= j < prefix.len() implies duration_fits(#[trigger] prefix[j]) by {
            assert(prefix[j] == es[j]);
        }
        lemma_loaded_stored_entries(prefix);
        let mapped = es.map_values(|e: EntryView| stored_entry(e));
        assert(mapped.drop_last() =~= prefix.map_values(|e: EntryView| stored_entry(e)));
        assert(duration_fits(es[es.len() - 1]));
        lemma_message_entry_roundtrip(es.last());
        assert(mapped.last() == stored_entry(es.last()));
        assert(loaded_entry(mapped.last()) == Ok::<EntryView, Seq<char>>(es.last()));
        assert(prefix.push(es.last()) =~= es);
        assert(loaded_entries(mapped) == Ok::<Seq<EntryView>, Seq<char>>(prefix.push(es.last())));
    } else {
        assert(es =~= Seq::<EntryView>::empty());
        assert(es.map_values(|e: EntryView| stored_entry(e)) =~= Seq::<EntryColumns>::empty());
    }
}

/// Reading back the rows a message is stored in gives the message, when
/// every entry's duration fits its signed column.
pub proof fn lemma_message_roundtrip(m: MessageView)
    requires
        durations_fit(m),
    ensures
        loaded_message(
            m.turn_id,
            m.message_id,
            message_state_name(m.state),
            m.reasoning,
            m.timeline.map_values(|e: EntryView| stored_entry(e)),
        ) == Ok::<MessageView, Seq<char>>(m),
{
    crate::timeline::lemma_state_encoding_roundtrip(
        m.state,
        crate::timeline::PersistedTurnState::Done,
        crate::timeline::PersistedToolCallState::Running,
    );
    lemma_loaded_stored_entries(m.timeline);
}


// ---------------------------------------------------------------------------
// Timeline entries

/// A stored timeline entry, at its position in the task's timeline. The
/// content of a user message is stored beside these columns.
#[derive(Debug)]
pub struct TimelineEntryRow {
    pub position: usize,
    pub kind: String,
    pub user_message_id: Option<String>,
    pub turn_id: Option<String>,
    pub mentions_json: Option<String>,
    pub replies_json: Option<String>,
    pub agent_id: Option<String>,
    pub trigger_json: Option<String>,
    pub state: Option<String>,
    pub error_message: Option<String>,
    pub created_at: i64,
}

/// A reply reference as a plain value: whether it names a turn, and the id.
pub open spec fn reply_view(r: PersistedReplyRef) -> (bool, Seq<char>) {
    match r {
        PersistedReplyRef::Turn { id } => (true, id@),
        PersistedReplyRef::UserMessage { id } => (false, id@),
    }
}

pub open spec fn replies_view(rs: Seq<PersistedReplyRef>) -> Seq<(bool, Seq<char>)> {
    rs.map_values(|r: PersistedReplyRef| reply_view(r))
}

/// A turn trigger as a plain value: whether it is a user message, and the id.
pub open spec fn trigger_view(t: PersistedTurnTrigger) -> (bool, Seq<char>) {
    match t {
        PersistedTurnTrigger::User { id } => (true, id@),
        PersistedTurnTrigger::Turn { id } => (false, id@),
    }
}

/// The JSON text of a tagged reference: `{"kind":<kind>,"id":<id>}`.
pub open spec fn tagged_text(kind: Seq<char>, id: Seq<char>) -> Seq<char> {
    "{\"kind\":\""@ + kind + "\",\"id\":"@ + json_text(Json::Str(id)) + "}"@
}

pub open spec fn reply_text(r: (bool, Seq<char>)) -> Seq<char> {
    tagged_text(if r.0 { "turn"@ } else { "user_message"@ }, r.1)
}

pub open spec fn trigger_text(t: (bool, Seq<char>)) -> Seq<char> {
    tagged_text(if t.0 { "user"@ } else { "turn"@ }, t.1)
}

/// The JSON text of a list of reply references.
pub open spec fn replies_text(rs: Seq<(bool, Seq<char>)>) -> Seq<char> {
    "["@ + join(rs.map_values(|r: (bool, Seq<char>)| reply_text(r)), ","@) + "]"@
}

/// The JSON text of a list of mentions.
pub open spec fn mentions_text(ms: Seq<Seq<char>>) -> Seq<char> {
    json_text(Json::Array(ms.map_values(|m: Seq<char>| Json::Str(m))))
}

/// The plain value of a timeline entry row's columns.
pub struct TimelineColumns {
    pub kind: Seq<char>,
    pub user_message_id: Option<Seq<char>>,
    pub turn_id: Option<Seq<char>>,
    pub mentions_json: Option<Seq<char>>,
    pub replies_json: Option<Seq<char>>,
    pub agent_id: Option<Seq<char>>,
    pub trigger_json: Option<Seq<char>>,
    pub state: Option<Seq<char>>,
    pub error_message: Option<Seq<char>>,
    pub created_at: i64,
}

pub open spec fn timeline_columns(r: TimelineEntryRow) -> TimelineColumns {
    TimelineColumns {
        kind: r.kind@,
        user_message_id: opt_view(r.user_message_id),
        turn_id: opt_view(r.turn_id),
        mentions_json: opt_view(r.mentions_json),
        replies_json: opt_view(r.replies_json),
        agent_id: opt_view(r.agent_id),
        trigger_json: opt_view(r.trigger_json),
        state: opt_view(r.state),
        error_message: opt_view(r.error_message),
        created_at: r.created_at,
    }
}

/// The time an entry was made, in seconds since the Unix epoch.
pub open spec fn entry_timestamp(e: PersistedTaskTimelineEntry) -> u64 {
    match e {
        PersistedTaskTimelineEntry::UserMessage(m) => m.timestamp,
        PersistedTaskTimelineEntry::Turn(t) => t.timestamp,
    }
}

/// The columns a timeline entry is stored in (its timestamp fitting `i64`).
pub open spec fn stored_timeline_entry(e: PersistedTaskTimelineEntry) -> TimelineColumns {
    match e {
        PersistedTaskTimelineEntry::UserMessage(m) => TimelineColumns {
            kind: "user_message"@,
            user_message_id: Some(m.user_message_id@),
            turn_id: None,
            mentions_json: Some(mentions_text(strings_view(m.mentions@))),
            replies_json: Some(replies_text(replies_view(m.replies@))),
            agent_id: None,
            trigger_json: None,
            state: None,
            error_message: None,
            created_at: m.timestamp as i64,
        },
        PersistedTaskTimelineEntry::Turn(t) => TimelineColumns {
            kind: "turn"@,
            user_message_id: None,
            turn_id: Some(t.turn_id@),
            mentions_json: None,
            replies_json: None,
            agent_id: Some(t.agent_id@),
            trigger_json: Some(trigger_text(trigger_view(t.trigger))),
            state: Some(turn_state_name(t.state)),
            error_message: opt_view(t.error_message),
            created_at: t.timestamp as i64,
        },
    }
}

fn json_string_text(s: &str) -> (out: String)
    ensures
        out@ == json_text(Json::Str(s@)),
{
    let v = str_value(s);
    write_json(&v)
}

fn tagged_json(kind: &str, id: &str) -> (out: String)
    ensures
        out@ == tagged_text(kind@, id@),
{
    let mut out = to_owned("{\"kind\":\"");
    push_str(&mut out, kind);
    push_str(&mut out, "\",\"id\":");
    let quoted = json_string_text(id);
    push_str(&mut out, quoted.as_str());
    push_str(&mut out, "}");
    out
}

fn encode_replies(replies: &Vec<PersistedReplyRef>) -> (out: String)
    ensures
        out@ == replies_text(replies_view(replies@)),
{
    let mut items: Vec<String> = Vec::new();
    let mut i: usize = 0;
    while i < replies.len()
        invariant
            i <= replies.len(),
            strings_view(items@) == replies_view(replies@.take(i as int)).map_values(
                |r: (bool, Seq<char>)| reply_text(r),
            ),
        decreases replies.len() - i,
    {
        let t = match &replies[i] {
            PersistedReplyRef::Turn { id } => tagged_json("turn", id.as_str()),
            PersistedReplyRef::UserMessage { id } => tagged_json("user_message", id.as_str()),
        };
        let ghost before = items@;
        let ghost tv = t@;
        items.push(t);
        assert(strings_view(items@) =~= strings_view(before).push(tv));
        assert(replies_view(replies@.take(i + 1)).map_values(|r: (bool, Seq<char>)| reply_text(r)) =~= replies_view(
            replies@.take(i as int),
        ).map_values(|r: (bool, Seq<char>)| reply_text(r)).push(reply_text(reply_view(replies@[i as int]))));
        i += 1;
    }
    assert(replies@.take(replies.len() as int) =~= replies@);
    let mut out = to_owned("[");
    let joined = join_strings(&items, ",");
    push_str(&mut out, joined.as_str());
    push_str(&mut out, "]");
    out
}

fn encode_mentions(mentions: &Vec<String>) -> (out: String)
    ensures
        out@ == mentions_text(strings_view(mentions@)),
{
    let mut items = no_items();
    let mut i: usize = 0;
    while i < mentions.len()
        invariant
            i <= mentions.len(),
            items_view(items@) == strings_view(mentions@.take(i as int)).map_values(|m: Seq<char>| Json::Str(m)),
        decreases mentions.len() - i,
    {
        push_item(&mut items, str_value(mentions[i].as_str()));
        assert(strings_view(mentions@.take(i + 1)).map_values(|m: Seq<char>| Json::Str(m)) =~= strings_view(
            mentions@.take(i as int),
        ).map_values(|m: Seq<char>| Json::Str(m)).push(Json::Str(mentions@[i as int]@)));
        i += 1;
    }
    assert(mentions@.take(mentions.len() as int) =~= mentions@);
    let array = JsonValue::Array(items);
    write_json(&array)
}

/// The row a timeline entry is stored in, at `position`; the entry's time
/// must fit the signed column.
pub fn encode_timeline_entry(position: usize, e: &PersistedTaskTimelineEntry) -> (out: Result<TimelineEntryRow, String>)
    ensures
        match out {
            Ok(row) => entry_timestamp(*e) <= i64::MAX && row.position == position && timeline_columns(row)
                == stored_timeline_entry(*e),
            Err(m) => entry_timestamp(*e) > i64::MAX && m@ == "unix timestamp overflow"@,
        },
{
    match e {
        PersistedTaskTimelineEntry::UserMessage(m) => {
            let created_at = match unix_timestamp(m.timestamp) {
                Ok(t) => t,
                Err(msg) => return Err(msg),
            };
            Ok(
                TimelineEntryRow {
                    position,
                    kind: to_owned("user_message"),
                    user_message_id: Some(to_owned(m.user_message_id.as_str())),
                    turn_id: None,
                    mentions_json: Some(encode_mentions(&m.mentions)),
                    replies_json: Some(encode_replies(&m.replies)),
                    agent_id: None,
                    trigger_json: None,
                    state: None,
                    error_message: None,
                    created_at,
                },
            )
        },
        PersistedTaskTimelineEntry::Turn(t) => {
            let created_at = match unix_timestamp(t.timestamp) {
                Ok(v) => v,
                Err(msg) => return Err(msg),
            };
            let trigger = match &t.trigger {
                PersistedTurnTrigger::User { id } => tagged_json("user", id.as_str()),
                PersistedTurnTrigger::Turn { id } => tagged_json("turn", id.as_str()),
            };
            Ok(
                TimelineEntryRow {
                    position,
                    kind: to_owned("turn"),
                    user_message_id: None,
                    turn_id: Some(to_owned(t.turn_id.as_str())),
                    mentions_json: None,
                    replies_json: None,
                    agent_id: Some(to_owned(t.agent_id.as_str())),
                    trigger_json: Some(trigger),
                    state: Some(to_owned(encode_turn_state(t.state))),
                    error_message: copy_opt(&t.error_message),
                    created_at,
                },
            )
        },
    }
}


/// The mentions a column stores, or `None` where it holds no list of strings;
/// a null column holds none.
pub open spec fn loaded_mentions(raw: Option<Seq<char>>) -> Option<Seq<Seq<char>>> {
    match raw {
        None => Some(Seq::empty()),
        Some(t) => match parsed_json(t) {
            Some(JsonValue::Array(items)) => if all_texts(items@) {
                Some(texts_of(items@))
            } else {
                None
            },
            _ => None,
        },
    }
}

/// A tagged reference read from JSON: its kind's flag by `turn_kind` (the
/// kind that gives `true`) and `other_kind`, and its id.
pub open spec fn loaded_tagged(v: JsonValue, true_kind: Seq<char>, false_kind: Seq<char>) -> Option<(bool, Seq<char>)> {
    match (text_field(v, "kind"@), text_field(v, "id"@)) {
        (Some(k), Some(id)) => if k == true_kind {
            Some((true, id))
        } else if k == false_kind {
            Some((false, id))
        } else {
            None
        },
        _ => None,
    }
}

/// The reply references a column stores, or `None` where it holds none; a
/// null column holds an empty list.
pub open spec fn loaded_replies(raw: Option<Seq<char>>) -> Option<Seq<(bool, Seq<char>)>> {
    match raw {
        None => Some(Seq::empty()),
        Some(t) => match parsed_json(t) {
            Some(JsonValue::Array(items)) => if forall|i: int|
                0 <= i < items@.len() ==> (#[trigger] loaded_tagged(items@[i], "turn"@, "user_message"@)) is Some {
                Some(Seq::new(items@.len(), |i: int| loaded_tagged(items@[i], "turn"@, "user_message"@)->0))
            } else {
                None
            },
            _ => None,
        },
    }
}

/// The trigger a column stores, or `None` where it holds none; a null column
/// is read as a user message with a placeholder id.
pub open spec fn loaded_trigger(raw: Option<Seq<char>>) -> Option<(bool, Seq<char>)> {
    match raw {
        None => Some((true, "legacy-missing-trigger"@)),
        Some(t) => match parsed_json(t) {
            Some(v) => loaded_tagged(v, "user"@, "turn"@),
            None => None,
        },
    }
}

/// The state name of a turn row; a null column reads as `done`.
pub open spec fn turn_state_column(c: TimelineColumns) -> Seq<char> {
    match c.state {
        Some(s) => s,
        None => "done"@,
    }
}

/// Why a timeline entry row of task `task_id` holds no entry, if it does not.
pub open spec fn timeline_entry_error(task_id: i64, c: TimelineColumns) -> Option<Seq<char>> {
    if c.kind == "user_message"@ {
        if c.user_message_id is None {
            Some("missing user_message_id for task "@ + signed_decimal(task_id as int))
        } else if loaded_mentions(c.mentions_json) is None {
            Some("failed to decode string list from json"@)
        } else if loaded_replies(c.replies_json) is None {
            Some("failed to decode reply refs from json"@)
        } else if c.created_at < 0 {
            Some("negative unix timestamp"@)
        } else {
            None
        }
    } else if c.kind == "turn"@ {
        if c.turn_id is None {
            Some("missing turn_id for task "@ + signed_decimal(task_id as int))
        } else if loaded_trigger(c.trigger_json) is None {
            Some("failed to decode turn trigger from json"@)
        } else if turn_state_from_name(turn_state_column(c)) is None {
            Some("unknown turn state in database: "@ + turn_state_column(c))
        } else if c.created_at < 0 {
            Some("negative unix timestamp"@)
        } else {
            None
        }
    } else {
        Some("unknown task timeline entry kind in database: "@ + c.kind)
    }
}

/// Whether `e` is the entry a row holds, with the content and messages
/// loaded beside it; a turn without an agent is March's.
pub open spec fn timeline_entry_fits(
    c: TimelineColumns,
    content: Seq<ContentBlock>,
    messages: Seq<PersistedAssistantMessage>,
    e: PersistedTaskTimelineEntry,
) -> bool {
    match e {
        PersistedTaskTimelineEntry::UserMessage(m) => {
            &&& c.kind == "user_message"@
            &&& c.user_message_id == Some(m.user_message_id@)
            &&& m.content@ == content
            &&& loaded_mentions(c.mentions_json) == Some(strings_view(m.mentions@))
            &&& loaded_replies(c.replies_json) == Some(replies_view(m.replies@))
            &&& m.timestamp == c.created_at
        },
        PersistedTaskTimelineEntry::Turn(t) => {
            &&& c.kind == "turn"@
            &&& c.turn_id == Some(t.turn_id@)
            &&& t.agent_id@ == match c.agent_id {
                Some(a) => a,
                None => MARCH_AGENT_NAME@,
            }
            &&& loaded_trigger(c.trigger_json) == Some(trigger_view(t.trigger))
            &&& turn_state_from_name(turn_state_column(c)) == Some(t.state)
            &&& opt_view(t.error_message) == c.error_message
            &&& t.timestamp == c.created_at
            &&& t.messages@ == messages
        },
    }
}

fn decode_json_list(raw: &Option<String>) -> (out: Option<Vec<String>>)
    ensures
        match out {
            Some(ms) => loaded_mentions(opt_view(*raw)) == Some(strings_view(ms@)),
            None => loaded_mentions(opt_view(*raw)) is None,
        },
{
    match raw {
        None => {
            let v: Vec<String> = Vec::new();
            assert(strings_view(v@) =~= Seq::<Seq<char>>::empty());
            Some(v)
        },
        Some(t) => match parse_json(t.as_str()) {
            Some(v) => match decode_tag_list(&v) {
                Some(Some(list)) => match v {
                    JsonValue::Array(_) => Some(list),
                    _ => None,
                },
                _ => None,
            },
            None => None,
        },
    }
}

fn decode_tagged(v: &JsonValue, true_kind: &str, false_kind: &str) -> (out: Option<(bool, String)>)
    ensures
        match out {
            Some((flag, id)) => loaded_tagged(*v, true_kind@, false_kind@) == Some((flag, id@)),
            None => loaded_tagged(*v, true_kind@, false_kind@) is None,
        },
{
    let kind = match text_of(get_field(v, "kind")) {
        Some(k) => k,
        None => return None,
    };
    let id = match text_of(get_field(v, "id")) {
        Some(i) => to_owned(i),
        None => return None,
    };
    if str_eq(kind, true_kind) {
        Some((true, id))
    } else if str_eq(kind, false_kind) {
        Some((false, id))
    } else {
        None
    }
}

fn decode_reply_refs(raw: &Option<String>) -> (out: Option<Vec<PersistedReplyRef>>)
    ensures
        match out {
            Some(rs) => loaded_replies(opt_view(*raw)) == Some(replies_view(rs@)),
            None => loaded_replies(opt_view(*raw)) is None,
        },
{
    match raw {
        None => {
            let v: Vec<PersistedReplyRef> = Vec::new();
            assert(replies_view(v@) =~= Seq::<(bool, Seq<char>)>::empty());
            Some(v)
        },
        Some(t) => {
            let parsed = match parse_json(t.as_str()) {
                Some(p) => p,
                None => return None,
            };
            let items = match &parsed {
                JsonValue::Array(items) => items,
                _ => return None,
            };
            let ghost want = Seq::new(items@.len(), |i: int| loaded_tagged(items@[i], "turn"@, "user_message"@)->0);
            let mut out: Vec<PersistedReplyRef> = Vec::new();
            let mut i: usize = 0;
            while i < items.len()
                invariant
                    i <= items.len(),
                    parsed == JsonValue::Array(*items),
                    opt_view(*raw) == Some(t@),
                    parsed_json(t@) == Some(parsed),
                    want == Seq::new(items@.len(), |i: int| loaded_tagged(items@[i], "turn"@, "user_message"@)->0),
                    forall|k: int| 0 <= k < i ==> (#[trigger] loaded_tagged(items@[k], "turn"@, "user_message"@)) is Some,
                    replies_view(out@) == want.take(i as int),
                decreases items.len() - i,
            {
                match decode_tagged(&items[i], "turn", "user_message") {
                    Some((flag, id)) => {
                        let r = if flag {
                            PersistedReplyRef::Turn { id }
                        } else {
                            PersistedReplyRef::UserMessage { id }
                        };
                        let ghost before = out@;
                        let ghost rv = reply_view(r);
                        out.push(r);
                        assert(replies_view(out@) =~= replies_view(before).push(rv));
                        assert(want.take(i + 1) =~= want.take(i as int).push(want[i as int]));
                    },
                    None => {
                        assert(loaded_tagged(items@[i as int], "turn"@, "user_message"@) is None);
                        return None;
                    },
                }
                i += 1;
            }
            assert(want.take(items.len() as int) =~= want);
            Some(out)
        },
    }
}

fn decode_turn_trigger(raw: &Option<String>) -> (out: Option<PersistedTurnTrigger>)
    ensures
        match out {
            Some(t) => loaded_trigger(opt_view(*raw)) == Some(trigger_view(t)),
            None => loaded_trigger(opt_view(*raw)) is None,
        },
{
    match raw {
        None => Some(PersistedTurnTrigger::User { id: to_owned("legacy-missing-trigger") }),
        Some(t) => match parse_json(t.as_str()) {
            Some(v) => match decode_tagged(&v, "user", "turn") {
                Some((true, id)) => Some(PersistedTurnTrigger::User { id }),
                Some((false, id)) => Some(PersistedTurnTrigger::Turn { id }),
                None => None,
            },
            None => None,
        },
    }
}

fn task_message(prefix: &str, task_id: i64) -> (out: String)
    ensures
        out@ == prefix@ + signed_decimal(task_id as int),
{
    let mut out = to_owned(prefix);
    let n = i64_to_string(task_id);
    push_str(&mut out, n.as_str());
    out
}

/// Reads the entry a timeline row of task `task_id` holds; `content` is the
/// decoded content of a user message's row, `messages` the loaded messages of
/// a turn's.
pub fn decode_timeline_entry(
    task_id: i64,
    row: TimelineEntryRow,
    content: Vec<ContentBlock>,
    messages: Vec<PersistedAssistantMessage>,
) -> (out: Result<PersistedTaskTimelineEntry, String>)
    ensures
        match out {
            Ok(e) => timeline_entry_error(task_id, timeline_columns(row)) is None && timeline_entry_fits(
                timeline_columns(row),
                content@,
                messages@,
                e,
            ),
            Err(m) => timeline_entry_error(task_id, timeline_columns(row)) == Some(m@),
        },
{
    let ghost c = timeline_columns(row);
    if str_eq(row.kind.as_str(), "user_message") {
        let user_message_id = match row.user_message_id {
            Some(id) => id,
            None => return Err(task_message("missing user_message_id for task ", task_id)),
        };
        let mentions = match decode_json_list(&row.mentions_json) {
            Some(m) => m,
            None => return Err(to_owned("failed to decode string list from json")),
        };
        let replies = match decode_reply_refs(&row.replies_json) {
            Some(r) => r,
            None => return Err(to_owned("failed to decode reply refs from json")),
        };
        let timestamp = match from_unix_timestamp(row.created_at) {
            Ok(t) => t,
            Err(e) => return Err(e),
        };
        Ok(
            PersistedTaskTimelineEntry::UserMessage(
                PersistedUserMessage { user_message_id, content, mentions, replies, timestamp },
            ),
        )
    } else if str_eq(row.kind.as_str(), "turn") {
        let turn_id = match row.turn_id {
            Some(id) => id,
            None => return Err(task_message("missing turn_id for task ", task_id)),
        };
        let agent_id = match row.agent_id {
            Some(a) => a,
            None => to_owned(MARCH_AGENT_NAME),
        };
        let trigger = match decode_turn_trigger(&row.trigger_json) {
            Some(t) => t,
            None => return Err(to_owned("failed to decode turn trigger from json")),
        };
        let state_name: Option<&str> = match &row.state {
            Some(s) => Some(s.as_str()),
            None => None,
        };
        let state = match decode_turn_state(state_name) {
            Ok(s) => s,
            Err(e) => return Err(e),
        };
        let timestamp = match from_unix_timestamp(row.created_at) {
            Ok(t) => t,
            Err(e) => return Err(e),
        };
        Ok(
            PersistedTaskTimelineEntry::Turn(
                PersistedTurn {
                    turn_id,
                    agent_id,
                    trigger,
                    state,
                    error_message: row.error_message,
                    timestamp,
                    messages,
                },
            ),
        )
    } else {
        let mut message = to_owned("unknown task timeline entry kind in database: ");
        push_str(&mut message, row.kind.as_str());
        Err(message)
    }
}


// ---------------------------------------------------------------------------
// A whole timeline

/// The rows a task's timeline is stored in: one per entry, one per message
/// of each turn, one per entry of each message.
#[derive(Debug)]
pub struct TimelineRows {
    pub entries: Vec<TimelineEntryRow>,
    pub messages: Vec<MessageRow>,
    pub message_entries: Vec<MessageEntryRow>,
}

/// The plain value of a message row.
pub open spec fn message_row_view(r: MessageRow) -> (Seq<char>, Seq<char>, usize, Seq<char>, Seq<char>) {
    (r.turn_id@, r.message_id@, r.position, r.state@, r.reasoning@)
}

/// The plain value of a message entry row.
pub open spec fn entry_row_view(r: MessageEntryRow) -> (Seq<char>, usize, EntryColumns) {
    (r.message_id@, r.position, entry_columns(r))
}

/// The rows of a turn's messages.
pub open spec fn turn_message_rows(t: PersistedTurn) -> Seq<(Seq<char>, Seq<char>, usize, Seq<char>, Seq<char>)> {
    Seq::new(
        t.messages@.len(),
        |k: int|
            (
                t.turn_id@,
                t.messages@[k].message_id@,
                k as usize,
                message_state_name(t.messages@[k].state),
                t.messages@[k].reasoning@,
            ),
    )
}

/// The rows of a message's entries.
pub open spec fn message_entry_rows(m: PersistedAssistantMessage) -> Seq<(Seq<char>, usize, EntryColumns)> {
    Seq::new(m.timeline@.len(), |j: int| (m.message_id@, j as usize, stored_entry(m.timeline@[j]@)))
}

/// The entry rows of the messages, in order.
pub open spec fn messages_entry_rows(ms: Seq<PersistedAssistantMessage>) -> Seq<(Seq<char>, usize, EntryColumns)>
    decreases ms.len(),
{
    if ms.len() == 0 {
        Seq::empty()
    } else {
        messages_entry_rows(ms.drop_last()) + message_entry_rows(ms.last())
    }
}

/// The message rows of a timeline, turn by turn.
pub open spec fn timeline_message_rows(tl: Seq<PersistedTaskTimelineEntry>) -> Seq<(Seq<char>, Seq<char>, usize, Seq<char>, Seq<char>)>
    decreases tl.len(),
{
    if tl.len() == 0 {
        Seq::empty()
    } else {
        timeline_message_rows(tl.drop_last()) + match tl.last() {
            PersistedTaskTimelineEntry::Turn(t) => turn_message_rows(t),
            _ => Seq::empty(),
        }
    }
}

/// The message entry rows of a timeline, turn by turn and message by message.
pub open spec fn timeline_entry_rows(tl: Seq<PersistedTaskTimelineEntry>) -> Seq<(Seq<char>, usize, EntryColumns)>
    decreases tl.len(),
{
    if tl.len() == 0 {
        Seq::empty()
    } else {
        timeline_entry_rows(tl.drop_last()) + match tl.last() {
            PersistedTaskTimelineEntry::Turn(t) => messages_entry_rows(t.messages@),
            _ => Seq::empty(),
        }
    }
}

fn push_turn_rows(
    messages: &mut Vec<MessageRow>,
    message_entries: &mut Vec<MessageEntryRow>,
    t: &PersistedTurn,
)
    ensures
        final(messages)@.map_values(|r: MessageRow| message_row_view(r)) == old(messages)@.map_values(
            |r: MessageRow| message_row_view(r),
        ) + turn_message_rows(*t),
        final(message_entries)@.map_values(|r: MessageEntryRow| entry_row_view(r)) == old(
            message_entries,
        )@.map_values(|r: MessageEntryRow| entry_row_view(r)) + messages_entry_rows(t.messages@),
{
    let ghost m0 = messages@.map_values(|r: MessageRow| message_row_view(r));
    let ghost e0 = message_entries@.map_values(|r: MessageEntryRow| entry_row_view(r));
    let mut k: usize = 0;
    assert(t.messages@.take(0) =~= Seq::<PersistedAssistantMessage>::empty());
    assert(m0 + turn_message_rows(*t).take(0) =~= m0);
    assert(e0 + messages_entry_rows(t.messages@.take(0)) =~= e0);
    while k < t.messages.len()
        invariant
            k <= t.messages.len(),
            messages@.map_values(|r: MessageRow| message_row_view(r)) == m0 + turn_message_rows(*t).take(k as int),
            message_entries@.map_values(|r: MessageEntryRow| entry_row_view(r)) == e0 + messages_entry_rows(
                t.messages@.take(k as int),
            ),
        decreases t.messages.len() - k,
    {
        let m = &t.messages[k];
        let (row, mut rows) = encode_message(t.turn_id.as_str(), k, m);
        let ghost mb = messages@;
        let ghost rv = message_row_view(row);
        messages.push(row);
        assert(messages@.map_values(|r: MessageRow| message_row_view(r)) =~= mb.map_values(
            |r: MessageRow| message_row_view(r),
        ).push(rv));
        assert(turn_message_rows(*t).take(k + 1) =~= turn_message_rows(*t).take(k as int).push(rv));
        let ghost eb = message_entries@;
        let ghost added = rows@;
        message_entries.append(&mut rows);
        assert(added.map_values(|r: MessageEntryRow| entry_row_view(r)) =~= message_entry_rows(*m));
        assert(message_entries@.map_values(|r: MessageEntryRow| entry_row_view(r)) =~= eb.map_values(
            |r: MessageEntryRow| entry_row_view(r),
        ) + added.map_values(|r: MessageEntryRow| entry_row_view(r)));
        assert(t.messages@.take(k + 1).drop_last() =~= t.messages@.take(k as int));
        assert(t.messages@.take(k + 1).last() == *m);
        k += 1;
    }
    assert(t.messages@.take(t.messages.len() as int) =~= t.messages@);
    assert(turn_message_rows(*t).take(t.messages.len() as int) =~= turn_message_rows(*t));
}

/// The rows a task's timeline is stored in, or an error where an entry's
/// time does not fit the signed column.
pub fn timeline_rows(timeline: &[PersistedTaskTimelineEntry]) -> (out: Result<TimelineRows, String>)
    ensures
        match out {
            Ok(rows) => {
                &&& forall|i: int| 0 <= i < timeline@.len() ==> entry_timestamp(#[trigger] timeline@[i]) <= i64::MAX
                &&& rows.entries@.len() == timeline@.len()
                &&& forall|i: int|
                    0 <= i < timeline@.len() ==> (#[trigger] rows.entries@[i]).position == i
                        && timeline_columns(rows.entries@[i]) == stored_timeline_entry(timeline@[i])
                &&& rows.messages@.map_values(|r: MessageRow| message_row_view(r)) == timeline_message_rows(
                    timeline@,
                )
                &&& rows.message_entries@.map_values(|r: MessageEntryRow| entry_row_view(r))
                    == timeline_entry_rows(timeline@)
            },
            Err(m) => (exists|i: int|
                0 <= i < timeline@.len() && entry_timestamp(#[trigger] timeline@[i]) > i64::MAX)
                && m@ == "unix timestamp overflow"@,
        },
{
    let mut entries: Vec<TimelineEntryRow> = Vec::new();
    let mut messages: Vec<MessageRow> = Vec::new();
    let mut message_entries: Vec<MessageEntryRow> = Vec::new();
    let mut i: usize = 0;
    assert(timeline@.take(0) =~= Seq::<PersistedTaskTimelineEntry>::empty());
    assert(messages@.map_values(|r: MessageRow| message_row_view(r)) =~= timeline_message_rows(timeline@.take(0)));
    assert(message_entries@.map_values(|r: MessageEntryRow| entry_row_view(r)) =~= timeline_entry_rows(timeline@.take(0)));
    while i < timeline.len()
        invariant
            i <= timeline.len(),
            entries@.len() == i,
            forall|k: int| 0 <= k < i ==> entry_timestamp(#[trigger] timeline@[k]) <= i64::MAX,
            forall|k: int|
                0 <= k < i ==> (#[trigger] entries@[k]).position == k && timeline_columns(entries@[k])
                    == stored_timeline_entry(timeline@[k]),
            messages@.map_values(|r: MessageRow| message_row_view(r)) == timeline_message_rows(timeline@.take(i as int)),
            message_entries@.map_values(|r: MessageEntryRow| entry_row_view(r)) == timeline_entry_rows(
                timeline@.take(i as int),
            ),
        decreases timeline.len() - i,
    {
        let e = &timeline[i];
        let row = match encode_timeline_entry(i, e) {
            Ok(r) => r,
            Err(m) => {
                assert(entry_timestamp(timeline@[i as int]) > i64::MAX);
                return Err(m);
            },
        };
        entries.push(row);
        assert(timeline@.take(i + 1).drop_last() =~= timeline@.take(i as int));
        assert(timeline@.take(i + 1).last() == *e);
        match e {
            PersistedTaskTimelineEntry::Turn(t) => {
                push_turn_rows(&mut messages, &mut message_entries, t);
            },
            PersistedTaskTimelineEntry::UserMessage(_) => {
                assert(timeline_message_rows(timeline@.take(i + 1)) =~= timeline_message_rows(timeline@.take(i as int)));
                assert(timeline_entry_rows(timeline@.take(i + 1)) =~= timeline_entry_rows(timeline@.take(i as int)));
            },
        }
        i += 1;
    }
    assert(timeline@.take(timeline.len() as int) =~= timeline@);
    Ok(TimelineRows { entries, messages, message_entries })
}

} // verus!
