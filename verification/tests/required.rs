use march_core::capabilities::get_model_capabilities;
use march_core::diagnostics::{
    serialize_record, DiagnosticChannel, DiagnosticFields, DiagnosticLevel, DiagnosticRecord,
};
use march_core::memory::parse_memory_body;
use march_core::paths::clean_path;
use march_core::search::{tokenize_terms, TermSegmenter};
use march_core::shells::{
    append_shutdown_warnings, decode_command_output, resolve_shell_program_with, AvailableShell,
    CommandShell, ShutdownStatus,
};
use march_core::tool_calls::looks_like_multiple_json_objects;
use march_core::tools::ToolRuntime;

#[test]
fn shell_detection_requires_successful_probe() {
    let resolved = resolve_shell_program_with(
        CommandShell::Bash,
        |candidate: &str| Some(format!("C:/fake/{candidate}.exe")),
        |_: CommandShell, _: &String| false,
    );

    assert_eq!(resolved, None);
}

#[test]
fn shell_detection_returns_first_runnable_candidate() {
    let resolved = resolve_shell_program_with(
        CommandShell::PowerShell,
        |candidate: &str| match candidate {
            "powershell" => Some("C:/fake/powershell.exe".to_string()),
            "pwsh" => Some("C:/fake/pwsh.exe".to_string()),
            _ => None,
        },
        |_: CommandShell, path: &String| path.ends_with("pwsh.exe"),
    );

    assert_eq!(resolved.as_deref(), Some("pwsh"));
}

#[test]
fn shell_detection_prefers_pwsh_when_multiple_powershells_work() {
    let resolved = resolve_shell_program_with(
        CommandShell::PowerShell,
        |candidate: &str| match candidate {
            "powershell" => Some("C:/fake/powershell.exe".to_string()),
            "pwsh" => Some("C:/fake/pwsh.exe".to_string()),
            _ => None,
        },
        |_: CommandShell, _: &String| true,
    );

    assert_eq!(resolved.as_deref(), Some("pwsh"));
}

#[test]
fn decode_command_output_falls_back_to_gbk_on_windows_style_bytes() {
    let decoded = decode_command_output(&[0xB2, 0xE2, 0xCA, 0xD4]);
    assert_eq!(decoded, "测试");
}

#[test]
fn append_shutdown_warnings_adds_human_readable_cleanup_notes() {
    let mut stderr_bytes = b"Partial stderr".to_vec();

    append_shutdown_warnings(
        &mut stderr_bytes,
        true,
        ShutdownStatus {
            child_wait_timed_out: true,
            pipe_reader_join_timed_out: true,
            pipe_channel_drain_timed_out: false,
        },
    );

    let stderr = String::from_utf8(stderr_bytes).expect("valid utf8");
    assert!(stderr.contains("Partial stderr"));
    assert!(stderr.contains("timed out while waiting for the shell process to exit"));
    assert!(stderr.contains("timed out while waiting for command output readers to finish"));
}

#[test]
fn multiple_json_object_detector_catches_common_shapes() {
    assert!(looks_like_multiple_json_objects(r#"{"a":1}{"b":2}"#));
    assert!(looks_like_multiple_json_objects("{\"a\":1}\n{\"b\":2}"));
    assert!(!looks_like_multiple_json_objects(r#"{"a":1}"#));
}

#[test]
fn serialize_record_flattens_whitespace_in_message_and_fields() {
    let mut fields = DiagnosticFields::new();
    fields.insert(String::from("reason"), String::from("took\n too long"));
    let line = serialize_record(&DiagnosticRecord {
        timestamp_ms: 42,
        level: DiagnosticLevel::Warn,
        channel: DiagnosticChannel::Backend,
        scope: "command".to_string(),
        event: "timed_out".to_string(),
        message: "timed  out\nnow".to_string(),
        fields,
    });

    assert_eq!(
        line,
        "[0.042] WARN command timed_out timed out now reason=took too long\n"
    );
}

#[test]
fn memory_tokenization_keeps_cjk_and_path_words_searchable() {
    let segmenter = TermSegmenter::new();
    let tokens = tokenize_terms(&segmenter, "src/auth/middleware.rs 刷新令牌");
    assert!(tokens.contains(&"src".to_string()));
    assert!(tokens.contains(&"auth".to_string()));
    assert!(tokens.contains(&"middleware".to_string()));
    assert!(tokens.iter().any(|token| token.contains("刷新")));
}

#[test]
fn memory_memory_body_parsing_extracts_heading_as_title() {
    let (title, content) = parse_memory_body("# JWT 规则\n\naccess token 15 分钟");
    assert_eq!(title, "JWT 规则");
    assert_eq!(content, "access token 15 分钟");
}

#[test]
fn tests_tokenization_keeps_cjk_and_path_words_searchable() {
    let segmenter = TermSegmenter::new();
    let tokens = tokenize_terms(&segmenter, "src/auth/middleware.rs 刷新令牌");
    assert!(tokens.contains(&"src".to_string()));
    assert!(tokens.contains(&"auth".to_string()));
    assert!(tokens.contains(&"middleware".to_string()));
    assert!(tokens.iter().any(|token| token.contains("刷新")));
}

#[test]
fn tests_memory_body_parsing_extracts_heading_as_title() {
    let (title, content) = parse_memory_body("# JWT 规则\n\naccess token 15 分钟");
    assert_eq!(title, "JWT 规则");
    assert_eq!(content, "access token 15 分钟");
}

#[test]
fn test_get_capabilities() {
    let gpt4o = get_model_capabilities("gpt-4o");
    assert!(gpt4o.is_some());
    assert_eq!(gpt4o.unwrap().context_window, 128000);
}

#[test]
fn test_unknown_model() {
    let unknown = get_model_capabilities("unknown-model-xyz");
    assert!(unknown.is_none());
}

#[test]
fn clean_path_strips_windows_verbatim_prefix() {
    let raw = r"\\?\D:\playground\MA\AGENTS.md";
    let cleaned = clean_path(raw);

    if std::path::MAIN_SEPARATOR == '\\' {
        assert_eq!(cleaned, r"D:\playground\MA\AGENTS.md");
    } else {
        assert_eq!(cleaned, r"\\?\D:\playground\MA\AGENTS.md");
    }
}

#[test]
fn tooling_prompt_mentions_design_level_tools() {
    let runtime = ToolRuntime::for_session(
        &[
            AvailableShell {
                kind: CommandShell::PowerShell,
                program: "pwsh".to_string(),
            },
            AvailableShell {
                kind: CommandShell::Cmd,
                program: "cmd".to_string(),
            },
        ],
        "D:/playground/MA",
    );

    let prompt = runtime.render_prompt_section();

    assert!(prompt.contains("## run_command"));

    assert!(prompt.contains("Available shells in this session: powershell (pwsh), cmd."));
    assert!(prompt.contains("Default timeout for run_command is 10 seconds."));
    assert!(prompt.contains("timeout_secs"));
    assert!(prompt.contains("Each run_command tool call may execute exactly one command."));
    assert!(prompt.contains("emit two separate run_command tool calls"));
    assert!(prompt.contains("## open_file"));
    assert!(prompt.contains("Prefer open_file over run_command"));
    assert!(prompt.contains("Do not use run_command just to read a file"));
    assert!(prompt.contains("Prefer update_memory over memorize"));
    assert!(prompt.contains("Do not create near-duplicate memories with fresh ids"));
    assert!(prompt.contains("## close_file"));
    assert!(prompt.contains("## replace_lines"));
    assert!(prompt.contains("## write_note"));
    assert!(prompt.contains("## remove_note"));
}
