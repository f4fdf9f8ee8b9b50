use march_core::agents::{
    merge_agent_profiles, normalize_agent_description, parse_agent_profile, parse_model_binding,
    split_frontmatter, summarize_agent_description, trim_wrapped_quotes, AgentProfile,
    AgentProfileSource,
};
use march_core::settings::{AgentProfileRecord, ProviderSettingsSnapshot};

fn profile(name: &str, prompt: &str, source: AgentProfileSource) -> AgentProfile {
    AgentProfile {
        name: name.to_string(),
        display_name: name.to_string(),
        description: String::new(),
        system_prompt: prompt.to_string(),
        avatar_color: "#000000".to_string(),
        provider_id: None,
        model_id: None,
        source,
    }
}

#[test]
fn agent_frontmatter_accepts_crlf_and_byte_order_marks() {
    let (front, body) = split_frontmatter("\u{feff}---\r\nname: x\r\n---\r\nBody");
    assert_eq!(front.as_deref(), Some("name: x"));
    assert_eq!(body, "Body");
    let (front, body) = split_frontmatter("no frontmatter");
    assert_eq!(front, None);
    assert_eq!(body, "no frontmatter");
}

#[test]
fn quotes_and_bindings_are_cleaned() {
    assert_eq!(trim_wrapped_quotes("\"'Auditor'\""), "Auditor");
    assert_eq!(trim_wrapped_quotes("\"\"\""), "");
    assert_eq!(parse_model_binding(Some("  gpt-5  ")), Some("gpt-5".to_string()));
    assert_eq!(parse_model_binding(Some("   ")), None);
    assert_eq!(parse_model_binding(None), None);
}

#[test]
fn descriptions_fall_back_to_the_prompt() {
    assert_eq!(
        summarize_agent_description("Auditor", "\n  \"Focus on risks first.\"  \nMore"),
        "Focus on risks first"
    );
    assert_eq!(
        summarize_agent_description("Auditor", "  \n "),
        "负责 Auditor 相关工作。"
    );
    let long = "x".repeat(80);
    assert_eq!(summarize_agent_description("R", &long).chars().count(), 60);
    assert_eq!(
        normalize_agent_description(Some("  given ".to_string()), "R", "prompt"),
        "given"
    );
    assert_eq!(normalize_agent_description(Some(" ".to_string()), "R", "prompt"), "prompt");
}

#[test]
fn agent_files_define_profiles() {
    let content = "---\nname: Code Auditor\ndisplay_name: \"Code Auditor\"\n# comment\nmodel: ' gpt-5 '\n---\nFocus on implementation risks first.\n";
    let profile = parse_agent_profile(Some("file"), content, false).expect("profile");
    assert_eq!(profile.name, "code-auditor");
    assert_eq!(profile.display_name, "Code Auditor");
    assert_eq!(profile.description, "Focus on implementation risks first");
    assert_eq!(profile.system_prompt, "Focus on implementation risks first.");
    assert_eq!(profile.avatar_color, "#64748B");
    assert_eq!(profile.model_id, Some("gpt-5".to_string()));
    assert_eq!(profile.source, AgentProfileSource::Project);

    let from_stem = parse_agent_profile(Some(" Writer "), "Write well.", true).expect("profile");
    assert_eq!(from_stem.name, "writer");
    assert_eq!(from_stem.source, AgentProfileSource::User);

    assert!(parse_agent_profile(Some("x"), "   \n", false).is_none());
}

#[test]
fn merged_profiles_put_march_first_and_later_definitions_win() {
    let settings = ProviderSettingsSnapshot {
        providers: vec![],
        model_configs: vec![],
        agent_profiles: vec![AgentProfileRecord {
            id: 1,
            name: "zed".to_string(),
            display_name: "Zed".to_string(),
            description: "stored".to_string(),
            system_prompt: "stored prompt".to_string(),
            avatar_color: "#111111".to_string(),
            model_config_id: None,
            provider_id: Some(3),
            model_id: None,
            created_at: 0,
            updated_at: 0,
        }],
        default_model_config_id: None,
        custom_system_core: Some("custom core".to_string()),
        use_custom_system_core: true,
    };
    let user = vec![profile("alpha", "user alpha", AgentProfileSource::User)];
    let project = vec![
        profile("zed", "project zed", AgentProfileSource::Project),
        profile("beta", "project beta", AgentProfileSource::Project),
    ];
    let merged = merge_agent_profiles("default core".to_string(), Some(&settings), user, project);
    let names: Vec<&str> = merged.iter().map(|p| p.name.as_str()).collect();
    assert_eq!(names, vec!["march", "alpha", "beta", "zed"]);
    assert_eq!(merged[0].system_prompt, "custom core");
    assert_eq!(merged[3].system_prompt, "project zed");

    let plain = merge_agent_profiles("default core".to_string(), None, vec![], vec![]);
    assert_eq!(plain.len(), 1);
    assert_eq!(plain[0], AgentProfile::built_in_march("default core".to_string()));
}
