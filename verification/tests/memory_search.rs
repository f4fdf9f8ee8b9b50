use march_core::memory::{MemoryLevel, MemoryQuery, MemoryRecord, MemoryScope};
use march_core::search::{
    collect_open_path_segments, query_tokens, tokenize_terms, tokenize_text,
    topic_warnings_for_entries, TermSegmenter,
};

fn memory(id: &str, topic: &str) -> MemoryRecord {
    MemoryRecord {
        id: id.to_string(),
        level: MemoryLevel::Project,
        scope: MemoryScope::Shared,
        stable_id: id.to_string(),
        memory_type: "fact".to_string(),
        topic: topic.to_string(),
        title: "t".to_string(),
        content: "c".to_string(),
        tags: vec!["Auth".to_string(), "auth".to_string()],
        access_count: 0,
        skip_count: 0,
        created_at: 0,
        updated_at: 0,
    }
}

#[test]
fn terms_are_lowercase_distinct_and_skip_punctuation() {
    let segmenter = TermSegmenter::new();
    let terms = tokenize_terms(&segmenter, "Auth auth !!! src/Auth.rs");
    assert_eq!(terms.iter().filter(|t| t.as_str() == "auth").count(), 1);
    assert!(terms.contains(&"src".to_string()));
    assert!(terms.contains(&"rs".to_string()));
    assert!(!terms.iter().any(|t| t == "!!!"));
}

#[test]
fn tokenized_text_joins_terms_with_spaces() {
    let segmenter = TermSegmenter::new();
    assert_eq!(tokenize_text(&segmenter, "Alpha_beta"), "alpha beta");
}

#[test]
fn query_tokens_cover_task_message_and_paths() {
    let segmenter = TermSegmenter::new();
    let query = MemoryQuery {
        task_name: Some("nebula preflight".to_string()),
        latest_user_message: Some("check build".to_string()),
        open_file_paths: vec!["src/main.rs".to_string()],
        recent_assistant_messages: vec![],
        active_agent: "march".to_string(),
        context_pressure_percent: None,
    };
    let tokens = query_tokens(&segmenter, &query);
    for word in ["nebula", "preflight", "check", "build", "src", "main", "rs"] {
        assert!(tokens.contains(&word.to_string()), "missing {word}");
    }
}

#[test]
fn open_path_segments_are_distinct() {
    let segmenter = TermSegmenter::new();
    let segments = collect_open_path_segments(
        &segmenter,
        &vec!["src/auth.rs".to_string(), "src/auth/mod.rs".to_string()],
    );
    assert_eq!(segments.iter().filter(|s| s.as_str() == "src").count(), 1);
    assert!(segments.contains(&"mod".to_string()));
}

#[test]
fn normalized_tags_are_distinct_terms() {
    let segmenter = TermSegmenter::new();
    assert_eq!(memory("a", "t").normalized_tags(&segmenter), vec!["auth".to_string()]);
}

#[test]
fn crowded_topics_are_warned_about_in_order() {
    let project: Vec<MemoryRecord> = (0..6).map(|i| memory(&format!("m{i}"), "zeta")).collect();
    let global: Vec<MemoryRecord> = (0..7).map(|i| memory(&format!("{i}"), "alpha")).collect();
    let mut ids: Vec<String> = (0..6).map(|i| format!("p:m{i}")).collect();
    ids.extend((0..7).map(|i| format!("g:{i}")));
    ids.push("x:unknown".to_string());
    ids.push("p:missing".to_string());
    let warnings = topic_warnings_for_entries(&ids, &project, &global);
    assert_eq!(
        warnings,
        vec![
            "Topic \"alpha\" currently has 7 matched memories; consider merging them into a tighter summary.".to_string(),
            "Topic \"zeta\" currently has 6 matched memories; consider merging them into a tighter summary.".to_string(),
        ]
    );
}

#[test]
fn five_matches_are_not_crowded() {
    let project: Vec<MemoryRecord> = (0..5).map(|i| memory(&format!("m{i}"), "zeta")).collect();
    let ids: Vec<String> = (0..5).map(|i| format!("p:m{i}")).collect();
    assert!(topic_warnings_for_entries(&ids, &project, &Vec::new()).is_empty());
}
