use march_core::diagnostics::{format_timestamp_ms, sanitize_segment, DiagnosticFields, DiagnosticLevel};
use march_core::messages::{
    build_parameters_schema, json_type_for_parameter, message_content_from_blocks,
    parameter_schema, render_tool_description, server_tool_definition, validate_messages,
    MessageContent, MessageContentPart, RequestMessage,
};
use march_core::json::{get_field, items_of, text_of, JsonValue};
use march_core::prompt::{
    build_messages, render_context_body, render_injections, ChatTurn, ContextPressure, Injection,
    MemoryIndexLine, MemoryIndexSummary, PromptContext, Role, RuntimeStatus, SessionStatus,
};
use march_core::settings::{ServerToolCapability, ServerToolConfig, ServerToolFormat};
use march_core::timeline::ContentBlock;
use march_core::tools::{format_available_shells, ToolDefinition, ToolParameter, ToolRuntime, TOOL_PROMPT_HEADER};
use march_core::shells::{AvailableShell, CommandShell};

fn empty_context() -> PromptContext {
    PromptContext {
        system_core: "core".to_string(),
        injections: vec![],
        session_status: None,
        open_file_snapshots: vec![],
        notes: vec![],
        memory_index: None,
        runtime_status: None,
        hints: vec![],
        recent_chat: vec![],
    }
}

#[test]
fn timestamps_show_three_decimals() {
    assert_eq!(format_timestamp_ms(1234), "1.234");
    assert_eq!(format_timestamp_ms(5), "0.005");
    assert_eq!(format_timestamp_ms(60_070), "60.070");
    assert_eq!(sanitize_segment("  a \t b\n"), "a b");
    assert_eq!(DiagnosticLevel::Error.as_str(), "ERROR");
}

#[test]
fn diagnostic_fields_stay_sorted_and_unique() {
    let mut fields = DiagnosticFields::new();
    fields.insert("b".to_string(), "1".to_string());
    fields.insert("a".to_string(), "2".to_string());
    fields.insert("b".to_string(), "3".to_string());
    let entries: Vec<(String, String)> = fields.entries().clone();
    assert_eq!(
        entries,
        vec![("a".to_string(), "2".to_string()), ("b".to_string(), "3".to_string())]
    );
}

#[test]
fn session_tools_come_in_order() {
    let runtime = ToolRuntime::for_session(&[], "/work");
    let names: Vec<&str> = runtime.tools.iter().map(|t| t.name).collect();
    assert_eq!(names.len(), 16);
    assert_eq!(
        names,
        vec![
            "run_command", "open_file", "close_file", "write_file", "replace_lines",
            "insert_lines", "delete_lines", "write_note", "remove_note", "memorize",
            "recall_memory", "update_memory", "forget_memory", "create_agent",
            "update_agent", "delete_agent",
        ]
    );
    assert_eq!(
        runtime.tools[1].description,
        "Start tracking a file so its latest watcher-backed snapshot appears in the open-files context layer. The snapshot is kept in sync with disk: any external change is automatically reflected, and the content shown always includes line numbers for precise editing."
    );
    assert_eq!(runtime.tools[0].notes[2], "Default timeout for run_command is 10 seconds.");
    assert_eq!(
        runtime.tools[0].notes[1],
        "Current working directory for every run_command call: /work."
    );
    let prompt = runtime.render_prompt_section();
    assert!(prompt.starts_with(TOOL_PROMPT_HEADER));
    assert!(!prompt.ends_with('\n'));
}

#[test]
fn shells_are_listed_with_their_programs() {
    let shells = vec![
        AvailableShell { kind: CommandShell::Bash, program: "bash".to_string() },
        AvailableShell { kind: CommandShell::Sh, program: "/bin/dash".to_string() },
    ];
    assert_eq!(format_available_shells(&shells), "bash, sh (/bin/dash)");
    assert_eq!(format_available_shells(&[]), "");
}

#[test]
fn tool_descriptions_carry_their_notes() {
    let tool = ToolDefinition {
        name: "t",
        description: "Does t.",
        parameters: vec![],
        notes: vec!["one".to_string(), "two".to_string()],
    };
    assert_eq!(render_tool_description(&tool), "Does t.\n\nUsage notes:\n- one\n- two");
    let bare = ToolDefinition { name: "t", description: "Does t.", parameters: vec![], notes: vec![] };
    assert_eq!(render_tool_description(&bare), "Does t.");
}

#[test]
fn parameter_schemas_map_kinds_to_json_types() {
    let tags = ToolParameter { name: "tags", kind: "string_array", required: true, description: "Keyword list." };
    let schema = parameter_schema(&tags);
    assert_eq!(text_of(get_field(&schema, "type")), Some("array"));
    assert_eq!(text_of(get_field(get_field(&schema, "items").unwrap(), "type")), Some("string"));
    assert_eq!(text_of(get_field(&schema, "description")), Some("Keyword list."));
    let count = ToolParameter { name: "n", kind: "integer", required: false, description: "d" };
    assert_eq!(json_type_for_parameter(&count), "integer");
    let path = ToolParameter { name: "p", kind: "path", required: true, description: "d" };
    assert_eq!(json_type_for_parameter(&path), "string");
    let schema = build_parameters_schema(&[tags, count, path]);
    assert_eq!(text_of(get_field(&schema, "type")), Some("object"));
    let properties = get_field(&schema, "properties").unwrap();
    assert_eq!(text_of(get_field(get_field(properties, "n").unwrap(), "type")), Some("integer"));
    assert_eq!(text_of(get_field(get_field(properties, "p").unwrap(), "type")), Some("string"));
    let required: Vec<&str> = items_of(get_field(&schema, "required"))
        .unwrap()
        .iter()
        .map(|v| text_of(Some(v)).unwrap())
        .collect();
    assert_eq!(required, vec!["tags", "p"]);
    assert!(matches!(get_field(&schema, "additionalProperties"), Some(JsonValue::Bool(false))));
}

#[test]
fn server_tools_are_declared_per_format() {
    let web_gemini = ServerToolConfig { capability: ServerToolCapability::WebSearch, format: ServerToolFormat::Gemini };
    let web = server_tool_definition(&web_gemini);
    assert!(matches!(get_field(&web, "googleSearch"), Some(JsonValue::Object(members)) if members.is_empty()));
    let code_anthropic = ServerToolConfig { capability: ServerToolCapability::CodeExecution, format: ServerToolFormat::Anthropic };
    let code = server_tool_definition(&code_anthropic);
    assert_eq!(text_of(get_field(&code, "type")), Some("code_execution_20250522"));
    let files_gemini = ServerToolConfig { capability: ServerToolCapability::FileSearch, format: ServerToolFormat::Gemini };
    let files = server_tool_definition(&files_gemini);
    assert_eq!(text_of(get_field(&files, "type")), Some("file_search"));
}

#[test]
fn message_content_joins_only_text() {
    let content = MessageContent::from_parts(vec![
        MessageContentPart::Text("a".to_string()),
        MessageContentPart::Image { media_type: "image/png".to_string(), data_base64: "x".to_string(), name: None },
        MessageContentPart::Text("b".to_string()),
    ]);
    assert_eq!(content.joined_texts(), Some("ab".to_string()));
    assert_eq!(MessageContent::from_text(" \n".to_string()).joined_texts(), None);
    let blocks = vec![ContentBlock::Text { text: "hi".to_string() }];
    assert_eq!(message_content_from_blocks(&blocks).parts().len(), 1);
}

#[test]
fn tool_messages_need_a_call_id() {
    let ok = vec![RequestMessage::tool("call_1".to_string(), "out".to_string())];
    assert_eq!(validate_messages(&ok), Ok(()));
    let mut orphan = RequestMessage::tool("call_1".to_string(), "out".to_string());
    orphan.tool_call_id = None;
    assert_eq!(
        validate_messages(&[orphan]),
        Err("tool message missing tool_call_id".to_string())
    );
}

#[test]
fn memory_index_lines_are_aligned() {
    let index = MemoryIndexSummary {
        entries: vec![MemoryIndexLine {
            id: "p:a".to_string(),
            memory_type: "fact".to_string(),
            topic: "auth".to_string(),
            title: "Title".to_string(),
        }],
        topic_warnings: vec!["w".to_string()],
    };
    let expected = format!(
        "Matched 1 relevant memories. Use recall_memory(id) for full details.\n\n  {:<24} [{:<10}] {:<12} {}\n\n! w",
        "p:a", "fact", "auth", "Title"
    );
    assert_eq!(index.render_for_prompt(), expected);
    assert_eq!(MemoryIndexSummary::default().render_for_prompt(), "");
}

#[test]
fn empty_context_sections_say_none() {
    let body = render_context_body(&empty_context());
    assert_eq!(
        body,
        "[session_status]\n(none)\n\n[open_files]\n(none)\n[notes]\n(none)\n\n[memory_index]\n(none)\n\n[runtime_status]\n(none)\n\n[hints]\n(none)\n"
    );
}

#[test]
fn filled_context_sections_are_rendered() {
    let mut context = empty_context();
    context.session_status = Some(SessionStatus {
        workspace_root: "/w".to_string(),
        platform: "Linux".to_string(),
        shell: "bash".to_string(),
        available_shells: vec!["bash".to_string(), "sh".to_string()],
        workspace_entries: vec![],
    });
    context.notes = vec![("plan".to_string(), "do it".to_string())];
    context.runtime_status = Some(RuntimeStatus {
        locked_files: vec!["a.rs".to_string()],
        context_pressure: Some(ContextPressure { used_percent: 80, message: "high".to_string() }),
    });
    context.hints = vec!["be brief".to_string()];
    let body = render_context_body(&context);
    assert!(body.contains("workspace_root: /w\nplatform: Linux\ndefault_shell: bash\navailable_shells: bash, sh\nworkspace_entries: (none)\n"));
    assert!(body.contains("[notes]\nplan: do it\n"));
    assert!(body.contains("locked_files:\n- a.rs\ncontext_pressure: 80% - high\n"));
    assert!(body.contains("[hints]\n- be brief\n"));
}

#[test]
fn request_messages_follow_the_context() {
    let mut context = empty_context();
    context.injections = vec![Injection { id: "i1".to_string(), content: "extra".to_string() }];
    context.recent_chat = vec![
        ChatTurn { role: Role::User, content: vec![ContentBlock::Text { text: "q".to_string() }] },
        ChatTurn { role: Role::Assistant, content: vec![ContentBlock::Text { text: "a".to_string() }] },
    ];
    assert_eq!(render_injections(&context), "[injections]\n## i1\nextra\n");
    let messages = build_messages(&context);
    let roles: Vec<&str> = messages.iter().map(|m| m.role.as_str()).collect();
    assert_eq!(roles, vec!["system", "system", "user", "user", "assistant"]);
}
