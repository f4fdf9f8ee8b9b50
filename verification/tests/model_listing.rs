use march_core::models::{model_list_request, parse_model_list};
use march_core::provider::RuntimeProviderConfig;
use march_core::settings::ProviderType;

fn ids(body: &str) -> Vec<(String, Option<usize>)> {
    parse_model_list(body)
        .unwrap()
        .into_iter()
        .map(|m| (m.id, m.context_window_tokens))
        .collect()
}

#[test]
fn listing_reads_data_entries_with_windows() {
    let body = r#"{"data":[{"id":"gpt-4o","context_window":128000},{"id":"mini","max_input_tokens":" 64000 "},{"name":"named"}]}"#;
    assert_eq!(
        ids(body),
        vec![
            ("gpt-4o".to_string(), Some(128000)),
            ("mini".to_string(), Some(64000)),
            ("named".to_string(), None),
        ]
    );
}

#[test]
fn listing_falls_back_to_models_when_data_is_empty() {
    let body = r#"{"data":[],"models":[{"name":"models/gemini-2.5-pro","input_token_limit":1048576}]}"#;
    assert_eq!(ids(body), vec![("models/gemini-2.5-pro".to_string(), Some(1048576))]);
}

#[test]
fn listing_skips_unreadable_window_fields() {
    let body = r#"{"data":[{"id":"m","context_window":"lots","max_input_tokens":4096}]}"#;
    assert_eq!(ids(body), vec![("m".to_string(), Some(4096))]);
}

#[test]
fn listing_without_entries_is_empty() {
    assert!(ids("{}").is_empty());
}

#[test]
fn listing_errors_name_the_problem() {
    assert_eq!(
        parse_model_list(r#"{"data":[1]}"#).unwrap_err(),
        "provider model entry was not an object"
    );
    assert_eq!(
        parse_model_list(r#"{"data":[{"id":7}]}"#).unwrap_err(),
        "provider model entry missing string id"
    );
    assert_eq!(
        parse_model_list("not json").unwrap_err(),
        "failed to decode model list response"
    );
    assert_eq!(
        parse_model_list(r#"{"data":{}}"#).unwrap_err(),
        "failed to decode model list response"
    );
}

#[test]
fn model_list_request_puts_the_key_where_the_provider_wants_it() {
    let openai = RuntimeProviderConfig {
        provider_type: ProviderType::OpenAi,
        base_url: None,
        api_key: "sk-1".to_string(),
    };
    let r = model_list_request(&openai).unwrap().unwrap();
    assert!(r.url.ends_with("/models"));
    assert_eq!(r.headers, vec![("authorization".to_string(), "Bearer sk-1".to_string())]);

    let gemini = RuntimeProviderConfig {
        provider_type: ProviderType::Gemini,
        base_url: None,
        api_key: "g-key".to_string(),
    };
    let r = model_list_request(&gemini).unwrap().unwrap();
    assert!(r.url.ends_with("/models?key=g-key"));
    assert!(r.headers.is_empty());

    let anthropic = RuntimeProviderConfig {
        provider_type: ProviderType::Anthropic,
        base_url: None,
        api_key: "a".to_string(),
    };
    assert!(model_list_request(&anthropic).is_none());

    let blank = RuntimeProviderConfig {
        provider_type: ProviderType::OpenAi,
        base_url: None,
        api_key: "  ".to_string(),
    };
    assert!(model_list_request(&blank).unwrap().unwrap().headers.is_empty());
}

use march_core::probes::{
    connection_report, first_listed_model, ping_tool, probe_model_choice, probe_options,
    probe_reply_text, tool_probe_passed, vision_probe_messages, vision_probe_passed, ProbeModel,
};
use march_core::provider::{WireResponse, WireToolCall};

fn reply(content: Option<&str>, tools: &[&str]) -> WireResponse {
    WireResponse {
        content: content.map(|c| c.to_string()),
        tool_calls: tools
            .iter()
            .map(|name| WireToolCall {
                id: "c".to_string(),
                name: name.to_string(),
                arguments_json: "{}".to_string(),
            })
            .collect(),
    }
}

#[test]
fn tool_probe_passes_only_on_a_ping_call() {
    assert!(tool_probe_passed(&reply(None, &["other", "ping"])));
    assert!(!tool_probe_passed(&reply(Some("pong"), &["other"])));
    assert_eq!(ping_tool().name, "ping");
}

#[test]
fn vision_probe_needs_text() {
    assert!(vision_probe_passed(&reply(Some(" a red dot "), &[])));
    assert!(!vision_probe_passed(&reply(Some("  "), &[])));
    assert!(!vision_probe_passed(&reply(None, &[])));
    assert_eq!(vision_probe_messages().len(), 1);
}

#[test]
fn probe_reply_is_trimmed_or_missing() {
    assert_eq!(probe_reply_text(&reply(Some(" MARCH_OK \n"), &[])).unwrap(), "MARCH_OK");
    assert_eq!(
        probe_reply_text(&reply(Some(" "), &[])).unwrap_err(),
        "provider probe response did not contain text"
    );
}

#[test]
fn probe_model_comes_from_config_or_listing() {
    assert_eq!(
        probe_model_choice(" gpt-4o ", ProviderType::OpenAi).unwrap(),
        ProbeModel::Configured("gpt-4o".to_string())
    );
    assert_eq!(probe_model_choice("", ProviderType::Ollama).unwrap(), ProbeModel::FromList);
    assert_eq!(
        probe_model_choice("", ProviderType::OpenAi).unwrap_err(),
        "provider probe model is empty"
    );
    let listed = vec![" ".to_string(), "llama3".to_string()];
    assert_eq!(first_listed_model(&listed).unwrap(), "llama3");
    assert!(first_listed_model(&vec![]).is_err());
}

#[test]
fn connection_report_names_channel_model_and_reply() {
    assert_eq!(
        connection_report(ProviderType::OpenAi, "gpt-4o", "MARCH_OK"),
        "连接成功，已按 openai 通道完成最小消息往返，测试模型 gpt-4o 返回：MARCH_OK"
    );
    let options = probe_options("m", 16);
    assert_eq!(options.max_output_tokens, Some(16));
    assert!(!options.stream);
}
