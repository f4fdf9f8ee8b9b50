use march_core::history::history_from_timeline;
use march_core::prompt::Role;
use march_core::schema::{note_column_migrations, task_column_migrations, StepParam};
use march_core::task_rows::{
    decode_message, decode_message_entry, decode_timeline_entry, encode_message,
    encode_message_entry, encode_timeline_entry, timeline_rows, TimelineEntryRow,
};
use march_core::timeline::{
    ContentBlock, PersistedAssistantMessage, PersistedAssistantMessageState,
    PersistedAssistantTimelineEntry, PersistedReplyRef, PersistedTaskTimelineEntry,
    PersistedToolCallState, PersistedTurn, PersistedTurnState, PersistedTurnTrigger,
    PersistedUserMessage,
};

fn tool_entry(duration_ms: Option<u64>) -> PersistedAssistantTimelineEntry {
    PersistedAssistantTimelineEntry::Tool {
        tool_call_id: "call-1".to_string(),
        tool_name: "open_file".to_string(),
        arguments: "{}".to_string(),
        status: PersistedToolCallState::Error,
        preview: Some("no such file".to_string()),
        duration_ms,
    }
}

fn message() -> PersistedAssistantMessage {
    PersistedAssistantMessage {
        message_id: "m-1".to_string(),
        turn_id: "t-1".to_string(),
        state: PersistedAssistantMessageState::Done,
        reasoning: "why".to_string(),
        timeline: vec![PersistedAssistantTimelineEntry::Text { text: "hi".to_string() }, tool_entry(Some(42))],
    }
}

fn timeline() -> Vec<PersistedTaskTimelineEntry> {
    vec![
        PersistedTaskTimelineEntry::UserMessage(PersistedUserMessage {
            user_message_id: "u-1".to_string(),
            content: vec![ContentBlock::Text { text: "hello".to_string() }],
            mentions: vec!["auditor".to_string()],
            replies: vec![PersistedReplyRef::Turn { id: "t-0".to_string() }],
            timestamp: 1_700_000_000,
        }),
        PersistedTaskTimelineEntry::Turn(PersistedTurn {
            turn_id: "t-1".to_string(),
            agent_id: "auditor".to_string(),
            trigger: PersistedTurnTrigger::User { id: "u-1".to_string() },
            state: PersistedTurnState::Failed,
            error_message: Some("boom".to_string()),
            timestamp: 1_700_000_100,
            messages: vec![message()],
        }),
    ]
}

#[test]
fn message_entries_roundtrip_through_their_rows() {
    let row = encode_message_entry("m-1", 3, &tool_entry(Some(7)));
    assert_eq!(row.kind, "tool");
    assert_eq!(row.status.as_deref(), Some("error"));
    assert_eq!(row.duration_ms, Some(7));
    match decode_message_entry(row).unwrap() {
        PersistedAssistantTimelineEntry::Tool { tool_call_id, status, preview, duration_ms, .. } => {
            assert_eq!(tool_call_id, "call-1");
            assert_eq!(status, PersistedToolCallState::Error);
            assert_eq!(preview.as_deref(), Some("no such file"));
            assert_eq!(duration_ms, Some(7));
        }
        other => panic!("unexpected entry {other:?}"),
    }
    let mut odd = encode_message_entry("m-1", 0, &tool_entry(None));
    odd.kind = "image".to_string();
    assert_eq!(decode_message_entry(odd).unwrap_err(), "unknown message timeline entry kind in database: image");
    let mut negative = encode_message_entry("m-1", 0, &tool_entry(Some(5)));
    negative.duration_ms = Some(-5);
    match decode_message_entry(negative).unwrap() {
        PersistedAssistantTimelineEntry::Tool { duration_ms, .. } => assert_eq!(duration_ms, None),
        other => panic!("unexpected entry {other:?}"),
    }
}

#[test]
fn messages_roundtrip_through_their_rows() {
    let (row, entries) = encode_message("t-1", 0, &message());
    assert_eq!(row.state, "done");
    assert_eq!(entries.len(), 2);
    assert_eq!(entries[1].position, 1);
    let back = decode_message("t-1", row, entries).unwrap();
    assert_eq!(back.message_id, "m-1");
    assert_eq!(back.reasoning, "why");
    assert_eq!(back.timeline.len(), 2);
}

#[test]
fn timeline_rows_follow_the_original_layout() {
    let rows = timeline_rows(&timeline()).unwrap();
    assert_eq!(rows.entries.len(), 2);
    assert_eq!(rows.entries[0].kind, "user_message");
    assert_eq!(rows.entries[0].mentions_json.as_deref(), Some("[\"auditor\"]"));
    assert_eq!(rows.entries[0].replies_json.as_deref(), Some("[{\"kind\":\"turn\",\"id\":\"t-0\"}]"));
    assert_eq!(rows.entries[1].trigger_json.as_deref(), Some("{\"kind\":\"user\",\"id\":\"u-1\"}"));
    assert_eq!(rows.entries[1].state.as_deref(), Some("failed"));
    assert_eq!(rows.entries[1].created_at, 1_700_000_100);
    assert_eq!(rows.messages.len(), 1);
    assert_eq!(rows.messages[0].turn_id, "t-1");
    assert_eq!(rows.message_entries.len(), 2);

    let mut late = timeline();
    if let PersistedTaskTimelineEntry::Turn(turn) = &mut late[1] {
        turn.timestamp = u64::MAX;
    }
    assert_eq!(timeline_rows(&late).unwrap_err(), "unix timestamp overflow");
}

#[test]
fn timeline_entries_are_read_back_from_their_rows() {
    let row = encode_timeline_entry(0, &timeline()[0]).unwrap();
    let content = vec![ContentBlock::Text { text: "hello".to_string() }];
    match decode_timeline_entry(9, row, content, vec![]).unwrap() {
        PersistedTaskTimelineEntry::UserMessage(m) => {
            assert_eq!(m.mentions, vec!["auditor".to_string()]);
            assert!(matches!(&m.replies[0], PersistedReplyRef::Turn { id } if id == "t-0"));
            assert_eq!(m.timestamp, 1_700_000_000);
        }
        other => panic!("unexpected entry {other:?}"),
    }
    let legacy = TimelineEntryRow {
        position: 1,
        kind: "turn".to_string(),
        user_message_id: None,
        turn_id: Some("t-9".to_string()),
        mentions_json: None,
        replies_json: None,
        agent_id: None,
        trigger_json: None,
        state: None,
        error_message: None,
        created_at: 5,
    };
    match decode_timeline_entry(9, legacy, vec![], vec![]).unwrap() {
        PersistedTaskTimelineEntry::Turn(t) => {
            assert_eq!(t.agent_id, "march");
            assert!(matches!(&t.trigger, PersistedTurnTrigger::User { id } if id == "legacy-missing-trigger"));
            assert_eq!(t.state, PersistedTurnState::Done);
        }
        other => panic!("unexpected entry {other:?}"),
    }
    let broken = TimelineEntryRow {
        position: 0,
        kind: "user_message".to_string(),
        user_message_id: None,
        turn_id: None,
        mentions_json: None,
        replies_json: None,
        agent_id: None,
        trigger_json: None,
        state: None,
        error_message: None,
        created_at: 0,
    };
    assert_eq!(decode_timeline_entry(9, broken, vec![], vec![]).unwrap_err(), "missing user_message_id for task 9");
}

#[test]
fn schema_migrations_add_only_missing_columns() {
    let all: Vec<String> = [
        "title_source", "title_locked", "working_directory", "selected_model_config_id",
        "selected_model", "model_temperature", "model_top_p", "model_presence_penalty",
        "model_frequency_penalty", "model_max_output_tokens", "active_agent", "last_event_seq",
    ]
    .iter()
    .map(|c| c.to_string())
    .collect();
    let steps = task_column_migrations(&all);
    assert_eq!(steps.len(), 3);
    assert_eq!(steps[0].param, StepParam::WorkspaceRoot);
    assert_eq!(steps[1].param, StepParam::DefaultAgent);

    let legacy = vec!["id".to_string(), "name".to_string()];
    let steps = task_column_migrations(&legacy);
    assert_eq!(steps.len(), 15);
    assert!(steps[0].sql.contains("title_source"));
    assert_eq!(steps[3].failure, "failed to backfill tasks.working_directory column");

    let notes = note_column_migrations(&vec!["scope".to_string()]);
    assert_eq!(notes.len(), 1);
}

#[test]
fn history_shows_user_messages_and_flattened_turns() {
    let history = history_from_timeline(&timeline());
    assert_eq!(history.len(), 2);
    assert_eq!(history[0].role, Role::User);
    assert_eq!(history[0].agent, "user");
    assert!(matches!(&history[0].content[0], ContentBlock::Text { text } if text == "hello"));
    assert!(history[0].tool_calls.is_empty());
    assert_eq!(history[1].role, Role::Assistant);
    assert_eq!(history[1].agent, "auditor");
    assert!(matches!(&history[1].content[0], ContentBlock::Text { text } if text == "hi"));
    assert_eq!(history[1].tool_calls.len(), 1);
    assert_eq!(history[1].tool_calls[0].name, "open_file");
    assert_eq!(history[1].tool_calls[0].summary, "no such file");
    assert_eq!(history[1].timestamp, 1_700_000_100);
}
