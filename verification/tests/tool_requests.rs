use march_core::file_diffs::format_file_diff;
use march_core::json::{get_field, items_of, text_of, JsonValue};
use march_core::memory::{MemoryLevel, MemoryRecord, MemoryScope};
use march_core::messages::build_parameters_schema;
use march_core::shells::CommandShell;
use march_core::tool_args::{
    parse_run_command_args, parse_tool_request, summarize_tool_call, MemorizeArgs, ToolRequest,
    UpdateMemoryArgs,
};
use march_core::tool_calls::{tool_outcome, ToolDone};
use march_core::tools::ToolParameter;

fn s(text: &str) -> JsonValue {
    JsonValue::Str(text.to_string())
}

fn n(value: u64) -> JsonValue {
    JsonValue::Number { unsigned: Some(value), signed: Some(value as i64), text: value.to_string() }
}

fn obj(members: Vec<(&str, JsonValue)>) -> JsonValue {
    JsonValue::Object(members.into_iter().map(|(k, v)| (k.to_string(), v)).collect())
}

#[test]
fn parse_run_command_args_accepts_direct_object() {
    let args = parse_run_command_args(
        obj(vec![("shell", s("powershell")), ("command", s("Get-ChildItem"))]),
        r#"{"shell":"powershell","command":"Get-ChildItem"}"#,
    )
    .expect("direct object should parse");

    assert_eq!(args.shell, "powershell");
    assert_eq!(args.command, "Get-ChildItem");
    assert_eq!(args.timeout_secs, None);
}

#[test]
fn parse_run_command_args_accepts_stringified_single_object() {
    let args = parse_run_command_args(
        s(r#"{"shell":"powershell","command":"Get-ChildItem"}"#),
        r#""{\"shell\":\"powershell\",\"command\":\"Get-ChildItem\"}""#,
    )
    .expect("stringified single object should parse");

    assert_eq!(args.shell, "powershell");
    assert_eq!(args.command, "Get-ChildItem");
    assert_eq!(args.timeout_secs, None);
}

#[test]
fn parse_run_command_args_accepts_optional_timeout() {
    let args = parse_run_command_args(
        obj(vec![("shell", s("powershell")), ("command", s("Get-ChildItem")), ("timeout_secs", n(42))]),
        r#"{"shell":"powershell","command":"Get-ChildItem","timeout_secs":42}"#,
    )
    .expect("timeout should parse");

    assert_eq!(args.shell, "powershell");
    assert_eq!(args.command, "Get-ChildItem");
    assert_eq!(args.timeout_secs, Some(42));
}

#[test]
fn parse_run_command_args_reports_concatenated_objects_clearly() {
    let error = parse_run_command_args(
        s(r#"{"shell":"powershell","command":"Get-Content a"}{"shell":"powershell","command":"Get-Content b"}"#),
        r#""{\"shell\":\"powershell\",\"command\":\"Get-Content a\"}{\"shell\":\"powershell\",\"command\":\"Get-Content b\"}""#,
    )
    .expect_err("concatenated objects should fail");

    assert!(error.contains("multiple concatenated JSON objects"));
    assert!(error.contains("split them into separate tool calls"));
}

#[test]
fn memorize_args_accept_comma_separated_tag_string() {
    let args = MemorizeArgs::from_json(&obj(vec![
        ("id", s("user-preference-title")),
        ("memory_type", s("preference")),
        ("topic", s("style")),
        ("title", s("Preferred title")),
        ("content", s("Call the user 老大.")),
        ("tags", s("称呼,偏好,老大")),
    ]))
    .expect("comma-separated tag string should parse");

    assert_eq!(args.tags, vec!["称呼", "偏好", "老大"]);
}

#[test]
fn update_memory_args_accept_tag_array() {
    let args = UpdateMemoryArgs::from_json(&obj(vec![
        ("id", s("g:user-preference-title")),
        ("tags", JsonValue::Array(vec![s("称呼"), s("偏好"), s("老大")])),
    ]))
    .expect("tag array should parse");

    assert_eq!(args.tags, Some(vec!["称呼".into(), "偏好".into(), "老大".into()]));
}

#[test]
fn string_array_parameters_render_as_json_array_schema() {
    let schema = build_parameters_schema(&[ToolParameter {
        name: "tags",
        kind: "string_array",
        required: true,
        description: "Keyword list.",
    }]);

    let tags = get_field(get_field(&schema, "properties").unwrap(), "tags").unwrap();
    assert_eq!(text_of(get_field(tags, "type")), Some("array"));
    assert_eq!(text_of(get_field(get_field(tags, "items").unwrap(), "type")), Some("string"));
}

#[test]
fn formats_unified_diff_with_headers() {
    let diff = format_file_diff(
        "src/main.rs",
        "fn main() {\n    println!(\"old\");\n}\n",
        "fn main() {\n    println!(\"new\");\n}\n",
    );

    assert!(diff.rendered.contains("--- a/src/main.rs"));
    assert!(diff.rendered.contains("+++ b/src/main.rs"));
    assert!(diff.rendered.contains("-    println!(\"old\");"));
    assert!(diff.rendered.contains("+    println!(\"new\");"));
}

#[test]
fn truncates_long_diff_with_summary_line() {
    let before = (0..260).map(|index| format!("before-{index}")).collect::<Vec<_>>().join("\n");
    let after = (0..260).map(|index| format!("after-{index}")).collect::<Vec<_>>().join("\n");

    let diff = format_file_diff("src/huge.txt", &before, &after);

    assert!(diff.rendered.contains("[diff 共 "));
    assert!(diff.rendered.contains("仅显示前 200 行"));
    assert_eq!(diff.rendered.lines().count(), 201);
}

#[test]
fn identical_texts_give_an_empty_diff() {
    let diff = format_file_diff("a.txt", "same\n", "same\n");
    assert_eq!(diff.rendered, "");
}

#[test]
fn run_command_requests_resolve_shell_and_timeout() {
    match parse_tool_request("run_command", r#"{"shell":"pwsh","command":"dir"}"#, "march").unwrap() {
        ToolRequest::RunCommand { shell, command, timeout_secs } => {
            assert_eq!(shell, CommandShell::PowerShell);
            assert_eq!(command, "dir");
            assert_eq!(timeout_secs, 10);
        }
        other => panic!("unexpected request {other:?}"),
    }
    let zero = parse_tool_request("run_command", r#"{"shell":"sh","command":"ls","timeout_secs":0}"#, "march");
    assert_eq!(zero.unwrap_err(), "invalid run_command args: timeout_secs must be at least 1");
    let shell = parse_tool_request("run_command", r#"{"shell":"fish","command":"ls"}"#, "march");
    assert_eq!(shell.unwrap_err(), "unsupported shell fish");
    let plain = parse_tool_request("run_command", r#""ls -la""#, "march");
    assert!(plain.unwrap_err().starts_with("invalid run_command args: expected a JSON object with fields shell and command, but received a plain string. Raw args: "));
    let number = parse_tool_request("run_command", "7", "march");
    assert_eq!(
        number.unwrap_err(),
        "invalid run_command args: expected a JSON object with fields shell and command. Raw args: 7"
    );
}

#[test]
fn file_tool_requests_read_paths_and_lines() {
    match parse_tool_request("replace_lines", r#"{"path":"a.rs","start_line":2,"end_line":3,"new_content":"x"}"#, "march").unwrap() {
        ToolRequest::ReplaceLines { path, start_line, end_line, new_content } => {
            assert_eq!((path.as_str(), start_line, end_line, new_content.as_str()), ("a.rs", 2, 3, "x"));
        }
        other => panic!("unexpected request {other:?}"),
    }
    let missing = parse_tool_request("open_file", r#"{"file":"a.rs"}"#, "march");
    assert_eq!(missing.unwrap_err(), "invalid open_file args");
    let negative = parse_tool_request("delete_lines", r#"{"path":"a.rs","start_line":-1,"end_line":3}"#, "march");
    assert_eq!(negative.unwrap_err(), "invalid delete_lines args");
    let broken = parse_tool_request("open_file", "{not json", "march");
    assert_eq!(broken.unwrap_err(), "failed to decode arguments for tool open_file: {not json");
    let unknown = parse_tool_request("teleport", "{}", "march");
    assert_eq!(unknown.unwrap_err(), "unknown tool call: teleport");
}

#[test]
fn agent_tool_requests_guard_march_and_the_active_agent() {
    let create = parse_tool_request(
        "create_agent",
        r#"{"name":" March ","display_name":"M","description":"d","system_prompt":"p"}"#,
        "march",
    );
    assert_eq!(create.unwrap_err(), "cannot create march via create_agent");
    match parse_tool_request("update_agent", r#"{"name":"MARCH","system_prompt":"be brief"}"#, "march").unwrap() {
        ToolRequest::UpdateMarchPrompt { system_prompt } => assert_eq!(system_prompt.as_deref(), Some("be brief")),
        other => panic!("unexpected request {other:?}"),
    }
    match parse_tool_request("update_agent", r#"{"name":" Auditor ","clear_model_binding":true}"#, "march").unwrap() {
        ToolRequest::UpdateAgent(args) => {
            assert_eq!(args.name, "auditor");
            assert_eq!(args.clear_model_binding, Some(true));
        }
        other => panic!("unexpected request {other:?}"),
    }
    let empty = parse_tool_request("update_agent", r#"{"name":"   "}"#, "march");
    assert_eq!(empty.unwrap_err(), "agent name cannot be empty");
    let active = parse_tool_request("delete_agent", r#"{"name":"Auditor"}"#, "auditor");
    assert_eq!(active.unwrap_err(), "cannot delete the currently active agent auditor");
    let march = parse_tool_request("delete_agent", r#"{"name":"march"}"#, "auditor");
    assert_eq!(march.unwrap_err(), "cannot delete march");
}

#[test]
fn memory_tool_requests_need_tags_when_memorizing() {
    let missing_tags = parse_tool_request(
        "memorize",
        r#"{"id":"a","memory_type":"fact","topic":"t","title":"T","content":"c"}"#,
        "march",
    );
    assert_eq!(missing_tags.unwrap_err(), "invalid memorize args");
    match parse_tool_request(
        "memorize",
        r#"{"id":"a","memory_type":"fact","topic":"t","title":"T","content":"c","tags":null}"#,
        "march",
    )
    .unwrap()
    {
        ToolRequest::Memorize(args) => assert!(args.tags.is_empty()),
        other => panic!("unexpected request {other:?}"),
    }
    let bad_tags = parse_tool_request("update_memory", r#"{"id":"a","tags":[1,2]}"#, "march");
    assert_eq!(bad_tags.unwrap_err(), "invalid update_memory args");
}

#[test]
fn tool_calls_are_summarized_for_progress() {
    assert_eq!(
        summarize_tool_call("run_command", r#"{"shell":"bash","command":"ls","timeout_secs":5}"#),
        "run_command bash ls (timeout 5s)"
    );
    assert_eq!(summarize_tool_call("run_command", r#"{"command":"ls"}"#), "run_command shell ls");
    assert_eq!(summarize_tool_call("run_command", "not json"), "run_command");
    assert_eq!(
        summarize_tool_call("replace_lines", r#"{"path":"a.rs","start_line":1,"end_line":4}"#),
        "replace_lines a.rs:1-4"
    );
    assert_eq!(summarize_tool_call("insert_lines", r#"{"path":"a.rs","after_line":0}"#), "insert_lines");
    assert_eq!(summarize_tool_call("recall_memory", r#"{"id":"p:x"}"#), "recall_memory p:x");
    assert_eq!(summarize_tool_call("delete_agent", r#"{"name":"auditor"}"#), "delete_agent auditor");
    assert_eq!(summarize_tool_call("mystery", r#"{"id":"x"}"#), "mystery");
}

#[test]
fn tool_outcomes_report_text_and_summary() {
    let out = tool_outcome(ToolDone::ReplaceLines {
        path: "a.rs".to_string(),
        start_line: 2,
        end_line: 5,
        diff: "DIFF".to_string(),
    });
    assert_eq!(out.result_text, "DIFF");
    let summary = out.summary.unwrap();
    assert_eq!(summary.name, "replace_lines");
    assert_eq!(summary.summary, "修改了 a.rs 第 2-5 行");

    let out = tool_outcome(ToolDone::RunCommand {
        output: "ok".to_string(),
        command: "ls".to_string(),
        exit_code: -1,
    });
    assert_eq!(out.summary.unwrap().summary, "ls (exit code -1)");

    let out = tool_outcome(ToolDone::DeleteAgent { name: "auditor".to_string(), reassigned: 3 });
    assert_eq!(out.result_text, "deleted agent auditor");
    assert_eq!(out.summary.unwrap().summary, "删除了角色 auditor，并把 3 条私有记忆转成共享");

    let memory = MemoryRecord {
        id: "policy".to_string(),
        level: MemoryLevel::Global,
        scope: MemoryScope::Shared,
        stable_id: "policy".to_string(),
        memory_type: "fact".to_string(),
        topic: "auth".to_string(),
        title: "Policy".to_string(),
        content: "Rotate.".to_string(),
        tags: vec![],
        access_count: 0,
        skip_count: 0,
        created_at: 0,
        updated_at: 0,
    };
    let out = tool_outcome(ToolDone::RecallMemory { memory });
    assert_eq!(
        out.result_text,
        "id: g:policy\nlevel: Global\ntype: fact\ntopic: auth\ntitle: Policy\ncontent:\nRotate."
    );
    assert_eq!(out.summary.unwrap().summary, "查看了记忆 g:policy");
}

#[test]
fn json_lookups_take_the_first_member() {
    let v = obj(vec![("a", n(1)), ("a", n(2))]);
    assert!(matches!(get_field(&v, "a"), Some(JsonValue::Number { unsigned: Some(1), .. })));
    assert!(get_field(&s("x"), "a").is_none());
    assert!(items_of(get_field(&v, "a")).is_none());
}
