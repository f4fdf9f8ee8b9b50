use march_core::json::{get_field, items_of, text_of, JsonValue};
use march_core::messages::{
    ApiToolCallRequest, ApiToolFunctionCallRequest, FunctionToolDefinition, MessageContent,
    MessageContentPart, RequestMessage,
};
use march_core::provider::{
    after_plain_failure, after_stream_failure, exhausted_failure_context, PlainStep,
    RuntimeProviderConfig, StreamStep, WireKind, WireStreamDelta,
};
use march_core::requests::{build_request, RequestOptions};
use march_core::settings::{ProviderType, ServerToolCapability, ServerToolConfig, ServerToolFormat};
use march_core::wire::{parse_openai_tool_calls, parse_response, parse_stream_event};

fn s(text: &str) -> JsonValue {
    JsonValue::Str(text.to_string())
}

fn n(value: u64) -> JsonValue {
    JsonValue::Number { unsigned: Some(value), signed: Some(value as i64), text: value.to_string() }
}

fn obj(members: Vec<(&str, JsonValue)>) -> JsonValue {
    JsonValue::Object(members.into_iter().map(|(k, v)| (k.to_string(), v)).collect())
}

fn arr(items: Vec<JsonValue>) -> JsonValue {
    JsonValue::Array(items)
}

fn tool_delta(d: &WireStreamDelta) -> (usize, Option<&str>, Option<&str>, &str) {
    match d {
        WireStreamDelta::ToolCallDelta { index, id, name, arguments_fragment } => {
            (*index, id.as_deref(), name.as_deref(), arguments_fragment.as_str())
        }
        other => panic!("not a tool call delta: {other:?}"),
    }
}

#[test]
fn chat_replies_give_text_and_tool_calls() {
    let body = obj(vec![(
        "choices",
        arr(vec![obj(vec![(
            "message",
            obj(vec![
                ("content", s("  ")),
                ("reasoning_content", s("  thinking  ")),
                (
                    "tool_calls",
                    arr(vec![obj(vec![
                        ("id", s("call_1")),
                        ("function", obj(vec![("name", s("open_file"))])),
                    ])]),
                ),
            ]),
        )])]),
    )]);
    let reply = parse_response(WireKind::OpenAi, &body).unwrap();
    assert_eq!(reply.content.as_deref(), Some("thinking"));
    assert_eq!(reply.tool_calls.len(), 1);
    assert_eq!(reply.tool_calls[0].id, "call_1");
    assert_eq!(reply.tool_calls[0].arguments_json, "{}");

    let missing = parse_response(WireKind::OpenAi, &obj(vec![("choices", arr(vec![]))]));
    assert_eq!(missing.unwrap_err(), "provider response missing choices[0].message");

    let calls = arr(vec![obj(vec![("id", s("a"))])]);
    assert_eq!(parse_openai_tool_calls(Some(&calls)).unwrap_err(), "OpenAI tool call missing function");
}

#[test]
fn responses_replies_join_output_text() {
    let body = obj(vec![
        ("object", s("response")),
        (
            "output",
            arr(vec![
                obj(vec![
                    ("type", s("message")),
                    (
                        "content",
                        arr(vec![
                            obj(vec![("type", s("output_text")), ("text", s("Hello "))]),
                            obj(vec![("type", s("refusal")), ("text", s("no"))]),
                            obj(vec![("type", s("output_text")), ("text", s("world"))]),
                        ]),
                    ),
                ]),
                obj(vec![
                    ("type", s("function_call")),
                    ("id", s("item_1")),
                    ("name", s("write_note")),
                    ("arguments", s("{\"id\":\"n\"}")),
                ]),
            ]),
        ),
    ]);
    let reply = parse_response(WireKind::OpenAi, &body).unwrap();
    assert_eq!(reply.content.as_deref(), Some("Hello world"));
    assert_eq!(reply.tool_calls[0].id, "item_1");
    assert_eq!(reply.tool_calls[0].arguments_json, "{\"id\":\"n\"}");
}

#[test]
fn anthropic_replies_encode_tool_input() {
    let body = obj(vec![(
        "content",
        arr(vec![
            obj(vec![("type", s("text")), ("text", s("Sure."))]),
            obj(vec![
                ("type", s("tool_use")),
                ("id", s("toolu_1")),
                ("name", s("open_file")),
                ("input", obj(vec![("path", s("a.rs"))])),
            ]),
        ]),
    )]);
    let reply = parse_response(WireKind::Anthropic, &body).unwrap();
    assert_eq!(reply.content.as_deref(), Some("Sure."));
    assert_eq!(reply.tool_calls[0].arguments_json, "{\"path\":\"a.rs\"}");

    let no_name = obj(vec![("content", arr(vec![obj(vec![("type", s("tool_use")), ("id", s("x"))])]))]);
    assert_eq!(parse_response(WireKind::Anthropic, &no_name).unwrap_err(), "anthropic tool_use missing name");
}

#[test]
fn gemini_replies_name_calls_by_position() {
    let body = obj(vec![(
        "candidates",
        arr(vec![obj(vec![(
            "content",
            obj(vec![(
                "parts",
                arr(vec![
                    obj(vec![("text", s("Looking."))]),
                    obj(vec![("functionCall", obj(vec![("name", s("open_file")), ("args", obj(vec![("path", s("b"))]))]))]),
                ]),
            )]),
        )])]),
    )]);
    let reply = parse_response(WireKind::Gemini, &body).unwrap();
    assert_eq!(reply.content.as_deref(), Some("Looking."));
    assert_eq!(reply.tool_calls[0].id, "gemini-tool-1");
    assert_eq!(reply.tool_calls[0].arguments_json, "{\"path\":\"b\"}");
    assert_eq!(
        parse_response(WireKind::Gemini, &obj(vec![])).unwrap_err(),
        "gemini response missing candidates[0].content.parts"
    );
}

#[test]
fn stream_events_become_deltas() {
    let done = parse_stream_event(WireKind::OpenAi, None, " [DONE] ").unwrap();
    assert!(matches!(done.as_slice(), [WireStreamDelta::Done]));

    let chunk = r#"{"choices":[{"delta":{"content":"Hi","tool_calls":[{"index":1,"id":"c","function":{"name":"n","arguments":"{\"a\""}}]}}]}"#;
    let events = parse_stream_event(WireKind::OpenAi, None, chunk).unwrap();
    assert!(matches!(&events[0], WireStreamDelta::ContentDelta(t) if t == "Hi"));
    assert_eq!(tool_delta(&events[1]), (1, Some("c"), Some("n"), "{\"a\""));

    let added = r#"{"type":"response.output_item.added","output_index":2,"item":{"type":"function_call","call_id":"k","name":"m"}}"#;
    let events = parse_stream_event(WireKind::OpenAi, Some("response.output_item.added"), added).unwrap();
    assert_eq!(tool_delta(&events[0]), (2, Some("k"), Some("m"), ""));

    let broken = parse_stream_event(WireKind::OpenAi, None, "{");
    assert_eq!(broken.unwrap_err(), "failed to decode OpenAI-compatible stream event");

    let stop = parse_stream_event(WireKind::Anthropic, Some("message_stop"), "{}").unwrap();
    assert!(matches!(stop.as_slice(), [WireStreamDelta::Done]));
    let quiet = parse_stream_event(WireKind::Anthropic, Some("message_delta"), "  ").unwrap();
    assert!(quiet.is_empty());
    let start = r#"{"index":0,"content_block":{"type":"tool_use","id":"t","name":"x","input":{}}}"#;
    let events = parse_stream_event(WireKind::Anthropic, Some("content_block_start"), start).unwrap();
    assert_eq!(tool_delta(&events[0]), (0, Some("t"), Some("x"), "{}"));
    let partial = r#"{"index":0,"delta":{"type":"input_json_delta","partial_json":"{\"p"}}"#;
    let events = parse_stream_event(WireKind::Anthropic, Some("content_block_delta"), partial).unwrap();
    assert_eq!(tool_delta(&events[0]), (0, None, None, "{\"p"));

    let gemini = r#"{"candidates":[{"content":{"parts":[{"text":""},{"text":"a","functionCall":{"name":"f"}}]}}]}"#;
    let events = parse_stream_event(WireKind::Gemini, None, gemini).unwrap();
    assert_eq!(events.len(), 2);
    assert!(matches!(&events[0], WireStreamDelta::ContentDelta(t) if t == "a"));
    assert_eq!(tool_delta(&events[1]), (1, None, Some("f"), ""));
}

fn options(stream: bool) -> RequestOptions {
    RequestOptions {
        model: "m-1".to_string(),
        stream,
        temperature: JsonValue::Number { unsigned: None, signed: None, text: "0.5".to_string() },
        top_p: None,
        presence_penalty: None,
        frequency_penalty: None,
        max_output_tokens: Some(512),
    }
}

fn config(provider_type: ProviderType, api_key: &str) -> RuntimeProviderConfig {
    RuntimeProviderConfig {
        provider_type,
        base_url: Some("https://example.com/v1".to_string()),
        api_key: api_key.to_string(),
    }
}

fn conversation() -> Vec<RequestMessage> {
    let call = ApiToolCallRequest {
        id: "call_1".to_string(),
        tool_type: "function".to_string(),
        function: ApiToolFunctionCallRequest {
            name: "open_file".to_string(),
            arguments: "{\"path\":\"a.rs\"}".to_string(),
        },
    };
    vec![
        RequestMessage::system("Be brief.".to_string()),
        RequestMessage::user(MessageContent::from_text("hello".to_string())),
        RequestMessage::assistant_tool_calls(vec![call]),
        RequestMessage::tool("call_1".to_string(), "opened".to_string()),
    ]
}

fn tools() -> Vec<FunctionToolDefinition> {
    vec![FunctionToolDefinition {
        name: "open_file".to_string(),
        description: "Open a file.".to_string(),
        parameters: obj(vec![("type", s("object"))]),
    }]
}

#[test]
fn chat_requests_carry_messages_tools_and_auth() {
    let server = [ServerToolConfig { capability: ServerToolCapability::WebSearch, format: ServerToolFormat::OpenAiChatCompletions }];
    let request = build_request(&config(ProviderType::DeepSeek, "sk-1"), &conversation(), &tools(), &server, &options(true)).unwrap();
    assert_eq!(request.url, "https://example.com/v1/chat/completions");
    assert_eq!(request.headers[1], ("authorization".to_string(), "Bearer sk-1".to_string()));
    let messages = items_of(get_field(&request.body, "messages")).unwrap();
    assert_eq!(messages.len(), 4);
    assert!(get_field(&messages[2], "content").is_none());
    let calls = items_of(get_field(&messages[2], "tool_calls")).unwrap();
    assert_eq!(text_of(get_field(&calls[0], "id")), Some("call_1"));
    assert_eq!(text_of(get_field(&messages[3], "tool_call_id")), Some("call_1"));
    let declared = items_of(get_field(&request.body, "tools")).unwrap();
    assert_eq!(declared.len(), 2);
    assert_eq!(text_of(get_field(&declared[1], "type")), Some("web_search_preview"));
    assert!(matches!(get_field(&request.body, "max_tokens"), Some(JsonValue::Number { unsigned: Some(512), .. })));
    assert!(get_field(&request.body, "top_p").is_none());

    let orphan = vec![RequestMessage {
        role: "tool".to_string(),
        content: None,
        tool_call_id: None,
        tool_calls: vec![],
    }];
    let refused = build_request(&config(ProviderType::DeepSeek, ""), &orphan, &[], &[], &options(false));
    assert_eq!(refused.unwrap_err(), "tool message missing tool_call_id");
    let bad_key = build_request(&config(ProviderType::DeepSeek, "bad\nkey"), &conversation(), &[], &[], &options(false));
    assert_eq!(bad_key.unwrap_err(), "invalid bearer authorization header");
}

#[test]
fn responses_requests_move_system_text_to_instructions() {
    let request = build_request(&config(ProviderType::OpenAi, ""), &conversation(), &tools(), &[], &options(false)).unwrap();
    assert_eq!(request.url, "https://example.com/v1/responses");
    assert_eq!(request.headers.len(), 1);
    assert_eq!(text_of(get_field(&request.body, "instructions")), Some("Be brief."));
    let input = items_of(get_field(&request.body, "input")).unwrap();
    assert_eq!(input.len(), 4);
    assert_eq!(text_of(get_field(&input[2], "type")), Some("function_call"));
    assert_eq!(text_of(get_field(&input[3], "output")), Some("opened"));
    assert!(matches!(get_field(&request.body, "store"), Some(JsonValue::Bool(false))));
    assert!(matches!(get_field(&request.body, "max_output_tokens"), Some(JsonValue::Number { unsigned: Some(512), .. })));
}

#[test]
fn anthropic_requests_turn_tool_results_into_user_blocks() {
    let request = build_request(&config(ProviderType::Anthropic, "key"), &conversation(), &tools(), &[], &options(false)).unwrap();
    assert_eq!(request.url, "https://example.com/v1/messages");
    assert_eq!(request.headers[1], ("x-api-key".to_string(), "key".to_string()));
    assert_eq!(request.headers[2], ("anthropic-version".to_string(), "2023-06-01".to_string()));
    let system = items_of(get_field(&request.body, "system")).unwrap();
    assert_eq!(text_of(get_field(&system[0], "text")), Some("Be brief."));
    let messages = items_of(get_field(&request.body, "messages")).unwrap();
    assert_eq!(messages.len(), 3);
    let blocks = items_of(get_field(&messages[1], "content")).unwrap();
    assert_eq!(text_of(get_field(&blocks[0], "type")), Some("tool_use"));
    assert_eq!(text_of(get_field(get_field(&blocks[0], "input").unwrap(), "path")), Some("a.rs"));
    let result = items_of(get_field(&messages[2], "content")).unwrap();
    assert_eq!(text_of(get_field(&result[0], "tool_use_id")), Some("call_1"));
    let declared = items_of(get_field(&request.body, "tools")).unwrap();
    assert!(get_field(&declared[0], "input_schema").is_some());
}

#[test]
fn gemini_requests_name_tool_answers_after_their_calls() {
    let request = build_request(&config(ProviderType::Gemini, "g-key"), &conversation(), &tools(), &[], &options(true)).unwrap();
    assert_eq!(request.url, "https://example.com/v1/models/m-1:streamGenerateContent?alt=sse&key=g-key");
    let contents = items_of(get_field(&request.body, "contents")).unwrap();
    assert_eq!(contents.len(), 3);
    assert_eq!(text_of(get_field(&contents[1], "role")), Some("model"));
    let parts = items_of(get_field(&contents[2], "parts")).unwrap();
    let response = get_field(&parts[0], "functionResponse").unwrap();
    assert_eq!(text_of(get_field(response, "name")), Some("open_file"));
    let generation = get_field(&request.body, "generationConfig").unwrap();
    assert!(matches!(get_field(generation, "maxOutputTokens"), Some(JsonValue::Number { unsigned: Some(512), .. })));
    assert!(get_field(&request.body, "system_instruction").is_some());

    let plain = build_request(&config(ProviderType::Gemini, "  "), &conversation(), &[], &[], &options(false)).unwrap();
    assert_eq!(plain.url, "https://example.com/v1/models/m-1:generateContent");
}

#[test]
fn delivery_retries_follow_the_backoff() {
    assert_eq!(after_stream_failure(0, false, true, false), StreamStep::RetryStream { delay_ms: 1000 });
    assert_eq!(after_stream_failure(2, false, true, false), StreamStep::RetryStream { delay_ms: 4000 });
    assert_eq!(after_stream_failure(3, false, true, false), StreamStep::FallBack);
    assert_eq!(after_stream_failure(0, false, true, true), StreamStep::FallBack);
    assert_eq!(after_stream_failure(0, true, true, false), StreamStep::GiveUp);
    assert_eq!(after_plain_failure(1, false), PlainStep::Retry { delay_ms: 4000 });
    assert_eq!(after_plain_failure(2, false), PlainStep::Exhausted);
    assert_eq!(after_plain_failure(0, true), PlainStep::GiveUp);
    assert_eq!(
        exhausted_failure_context(Some("timeout")),
        "provider streaming failed (timeout) and non-stream request also failed after 3 attempts"
    );
    assert_eq!(exhausted_failure_context(Some("")), "non-stream provider request failed after 3 attempts");
}
