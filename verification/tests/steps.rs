use march_core::json::JsonValue;
use march_core::memory::{MemorizeRequest, MemoryLevel};
use march_core::memory_store::{memorized_record, update_loaded_memory, LoadedMemories};
use march_core::search::{search_plan, SearchPlan};
use march_core::sending::{first_turn_agents_for, send_step, TurnEnd};
use march_core::settings::{ProviderType, ServerToolCapability, ServerToolFormat};
use march_core::shells::{
    collect_step, needs_final_snapshot, CollectAction, CollectEvent, CommandCollection, StreamKind,
};
use march_core::tool_args::{run_command_args_from_object, RUN_COMMAND_EXPECTS_ONE_OBJECT};
use march_core::ui::UiTurnFinishedReason;
use march_core::wire::chat_stream_chunk_from_json;

#[test]
fn stored_names_read_back_in_any_case() {
    assert_eq!(ProviderType::from_db_value(ProviderType::DeepSeek.as_db_value()), Some(ProviderType::DeepSeek));
    assert_eq!(ProviderType::from_db_value("  OpenAI_Compat "), Some(ProviderType::OpenAiCompat));
    assert_eq!(ProviderType::from_db_value("openai-compat"), None);
    assert_eq!(
        ServerToolCapability::from_db_value(" WEB_SEARCH "),
        Some(ServerToolCapability::WebSearch)
    );
    assert_eq!(ServerToolCapability::from_db_value("browse"), None);
    assert_eq!(
        ServerToolFormat::from_db_value(ServerToolFormat::Gemini.as_db_value()),
        Some(ServerToolFormat::Gemini)
    );
    assert_eq!(ServerToolFormat::from_db_value("openai"), None);
}

#[test]
fn search_plan_skips_under_pressure_and_shows_small_sets_whole() {
    assert_eq!(search_plan(10, Some(96), 5, true), SearchPlan::Skip);
    assert_eq!(search_plan(0, None, 5, true), SearchPlan::Skip);
    assert_eq!(
        search_plan(12, Some(95), 5, true),
        SearchPlan::Rank { full_text: false, keep_all: true, take: 12 }
    );
    assert_eq!(
        search_plan(51, None, 0, true),
        SearchPlan::Rank { full_text: true, keep_all: false, take: 1 }
    );
    assert_eq!(
        search_plan(80, None, 7, false),
        SearchPlan::Rank { full_text: false, keep_all: false, take: 7 }
    );
}

#[test]
fn command_collection_steps() {
    let mut state = CommandCollection { stdout: Vec::new(), stderr: Vec::new(), pending_output: false };
    assert_eq!(collect_step(&mut state, CollectEvent::OutputTick, 10), CollectAction::Wait);
    assert_eq!(
        collect_step(&mut state, CollectEvent::Chunk { stream: StreamKind::Stdout, bytes: b"hi".to_vec() }, 10),
        CollectAction::Wait
    );
    assert_eq!(state.stdout, b"hi".to_vec());
    assert!(needs_final_snapshot(&state, 0, 0));
    assert_eq!(collect_step(&mut state, CollectEvent::OutputTick, 10), CollectAction::EmitSnapshot);
    assert!(!needs_final_snapshot(&state, 2, 0));
    assert_eq!(
        collect_step(&mut state, CollectEvent::TimedOut, 10),
        CollectAction::Interrupt { reason: "command timed out after 10.000s (timeout 10.000s)".to_string() }
    );
    assert_eq!(
        collect_step(&mut state, CollectEvent::Cancelled, 10),
        CollectAction::Interrupt { reason: "turn cancelled".to_string() }
    );
    assert_eq!(collect_step(&mut state, CollectEvent::Exited, 10), CollectAction::Complete);
}

#[test]
fn send_steps_launch_handovers_and_finish_when_idle() {
    let mut running = vec!["t1".to_string(), "t2".to_string()];
    let action = send_step(
        &mut running,
        "t1",
        TurnEnd::Completed { next_agents: vec!["coder".to_string()] },
    );
    assert_eq!(action.reason, UiTurnFinishedReason::Idle);
    assert_eq!(action.launches.len(), 1);
    assert_eq!(action.launches[0].agent_name, "coder");
    assert_eq!(action.launches[0].after_turn, "t1");
    assert!(!action.done);
    assert_eq!(running, vec!["t2".to_string()]);
    let last = send_step(&mut running, "t2", TurnEnd::Failed { cancelled: true });
    assert_eq!(last.reason, UiTurnFinishedReason::Cancelled);
    assert!(last.launches.is_empty());
    assert!(last.done);
    assert!(running.is_empty());
}

#[test]
fn a_message_without_mentions_goes_to_the_active_agent() {
    let agents = first_turn_agents_for(Vec::new(), &[], &Vec::new(), "march");
    assert_eq!(agents, vec!["march".to_string()]);
    let mentioned = first_turn_agents_for(vec!["coder".to_string()], &[], &Vec::new(), "march");
    assert_eq!(mentioned, vec!["coder".to_string()]);
}

#[test]
fn run_command_object_is_read_after_parsing() {
    let object = JsonValue::Object(vec![
        ("shell".to_string(), JsonValue::Str("bash".to_string())),
        ("command".to_string(), JsonValue::Str("ls".to_string())),
    ]);
    let args = run_command_args_from_object(&object).unwrap();
    assert_eq!(args.shell, "bash");
    assert_eq!(args.command, "ls");
    assert_eq!(args.timeout_secs, None);
    let err = run_command_args_from_object(&JsonValue::Object(Vec::new())).unwrap_err();
    assert_eq!(err, RUN_COMMAND_EXPECTS_ONE_OBJECT);
}

#[test]
fn chat_chunk_is_read_from_its_parsed_payload() {
    let payload = JsonValue::Object(vec![(
        "choices".to_string(),
        JsonValue::Array(vec![JsonValue::Object(vec![(
            "delta".to_string(),
            JsonValue::Object(vec![("content".to_string(), JsonValue::Str("hi".to_string()))]),
        )])]),
    )]);
    let events = chat_stream_chunk_from_json(&payload).unwrap();
    assert_eq!(events.len(), 1);
    let empty = chat_stream_chunk_from_json(&JsonValue::Object(Vec::new())).unwrap();
    assert!(empty.is_empty());
}

fn global_request(title: &str) -> MemorizeRequest {
    MemorizeRequest {
        id: "user-style".to_string(),
        memory_type: "preference".to_string(),
        topic: "style".to_string(),
        title: title.to_string(),
        content: "Keep comments sparse.".to_string(),
        tags: vec!["style".to_string()],
        scope: None,
        level: Some("global".to_string()),
    }
}

#[test]
fn memorizing_a_global_memory_twice_keeps_one() {
    let mut mem = LoadedMemories { project: Vec::new(), global: Vec::new() };
    let first = memorized_record(&mem, global_request("Avoid noisy comments"), "march", 100).unwrap();
    assert_eq!(first.level, MemoryLevel::Global);
    update_loaded_memory(&mut mem, &first);
    let second = memorized_record(&mem, global_request("Prefer sparse comments"), "march", 200).unwrap();
    assert_eq!(second.id, first.id);
    assert_eq!(second.created_at, 100);
    update_loaded_memory(&mut mem, &second);
    assert_eq!(mem.global.len(), 1);
    assert_eq!(mem.global[0].title, "Prefer sparse comments");
    assert_eq!(mem.global[0].stable_id, "user-style");
}
