use march_core::memory::{
    frontmatter_get, from_unix_timestamp, infer_level, normalize_scope, normalize_stable_id,
    normalize_tags, parse_global_numeric_id, parse_project_memory_file, project_memory_file_text,
    split_frontmatter, unix_timestamp, validate_record, MemoryLevel, MemoryRecord, MemoryScope,
};

fn sample_record() -> MemoryRecord {
    MemoryRecord {
        id: "auth-policy".to_string(),
        level: MemoryLevel::Project,
        scope: MemoryScope::Agent("auditor".to_string()),
        stable_id: "auth-policy".to_string(),
        memory_type: "fact".to_string(),
        topic: "auth".to_string(),
        title: "JWT refresh policy".to_string(),
        content: "Refresh token lives in httpOnly cookie.\nRotate on use.".to_string(),
        tags: vec!["jwt".to_string(), "cookie".to_string()],
        access_count: 3,
        skip_count: 1,
        created_at: 1_700_000_000,
        updated_at: 1_700_000_500,
    }
}

#[test]
fn memory_file_roundtrips_a_stored_memory() {
    let record = sample_record();
    let text = project_memory_file_text(&record).expect("timestamps fit");
    let parsed = parse_project_memory_file("auth-policy", &text, 42).expect("file parses");
    assert_eq!(parsed, record);
}

#[test]
fn memory_file_text_lists_keys_in_sorted_order() {
    let text = project_memory_file_text(&sample_record()).unwrap();
    assert_eq!(
        text,
        "---\naccess_count: 3\ncreated_at: 1700000000\nscope: auditor\nskip_count: 1\ntags: jwt cookie\ntopic: auth\ntype: fact\nupdated_at: 1700000500\n---\n# JWT refresh policy\n\nRefresh token lives in httpOnly cookie.\nRotate on use.\n"
    );
}

#[test]
fn memory_file_text_rejects_timestamps_past_i64() {
    let mut record = sample_record();
    record.updated_at = u64::MAX;
    assert_eq!(
        project_memory_file_text(&record),
        Err("unix timestamp overflow".to_string())
    );
}

#[test]
fn memory_file_defaults_fill_missing_frontmatter() {
    let parsed = parse_project_memory_file("note", "plain body without heading", 99).unwrap();
    assert_eq!(parsed.scope, MemoryScope::Shared);
    assert_eq!(parsed.memory_type, "fact");
    assert_eq!(parsed.topic, "general");
    assert_eq!(parsed.title, "Untitled memory");
    assert_eq!(parsed.content, "");
    assert!(parsed.tags.is_empty());
    assert_eq!(parsed.access_count, 0);
    assert_eq!(parsed.created_at, 99);
    assert_eq!(parsed.updated_at, 99);
    assert_eq!(parsed.stable_id, "note");
    assert_eq!(parsed.level, MemoryLevel::Project);
}

#[test]
fn memory_file_updated_at_defaults_to_created_at() {
    let raw = "---\ncreated_at: 10\naccess_count: nope\n---\n# T\n\nC\n";
    let parsed = parse_project_memory_file("x", raw, 99).unwrap();
    assert_eq!(parsed.created_at, 10);
    assert_eq!(parsed.updated_at, 10);
    assert_eq!(parsed.access_count, 0);
}

#[test]
fn memory_file_rejects_negative_timestamps() {
    let raw = "---\ncreated_at: -5\n---\n# T\n";
    assert_eq!(
        parse_project_memory_file("x", raw, 1),
        Err("negative unix timestamp".to_string())
    );
}

#[test]
fn frontmatter_later_lines_override_earlier_ones() {
    let (pairs, body) = split_frontmatter("---\r\ntopic: a\r\n topic :  b \r\n---\r\nbody\r\n");
    assert_eq!(frontmatter_get(&pairs, "topic"), Some("b".to_string()));
    assert_eq!(body, "body\n");
}

#[test]
fn frontmatter_without_closing_marker_is_all_body() {
    let (pairs, body) = split_frontmatter("---\ntopic: a\n");
    assert!(pairs.is_empty());
    assert_eq!(body, "---\ntopic: a\n");
}

#[test]
fn memory_scope_storage_forms() {
    assert_eq!(MemoryScope::from_storage("  "), MemoryScope::Shared);
    assert_eq!(MemoryScope::from_storage("SHARED"), MemoryScope::Shared);
    assert_eq!(MemoryScope::from_storage(" coder "), MemoryScope::Agent("coder".to_string()));
    assert_eq!(MemoryScope::Shared.as_storage(), "shared");
    assert!(MemoryScope::Agent("Coder".to_string()).is_visible_to("coder"));
    assert!(!MemoryScope::Agent("coder".to_string()).is_visible_to("march"));
    assert!(MemoryScope::Shared.is_visible_to("anyone"));
}

#[test]
fn prefixed_ids_carry_the_level() {
    let mut record = sample_record();
    assert_eq!(record.prefixed_id(), "p:auth-policy");
    record.level = MemoryLevel::Global;
    assert_eq!(record.prefixed_id(), "g:auth-policy");
}

#[test]
fn memory_level_is_inferred_from_type() {
    assert_eq!(infer_level(None, " Preference "), Ok(MemoryLevel::Global));
    assert_eq!(infer_level(None, "fact"), Ok(MemoryLevel::Project));
    assert_eq!(infer_level(Some(" GLOBAL "), "fact"), Ok(MemoryLevel::Global));
    assert_eq!(
        infer_level(Some("Team"), "fact"),
        Err("unsupported memory level team".to_string())
    );
}

#[test]
fn memory_scope_is_normalized_against_the_active_agent() {
    assert_eq!(normalize_scope(None, "march"), MemoryScope::Shared);
    assert_eq!(normalize_scope(Some("  "), "march"), MemoryScope::Shared);
    assert_eq!(normalize_scope(Some("Shared"), "march"), MemoryScope::Shared);
    assert_eq!(normalize_scope(Some("MARCH"), "march"), MemoryScope::Agent("march".to_string()));
    assert_eq!(normalize_scope(Some(" coder "), "march"), MemoryScope::Agent("coder".to_string()));
}

#[test]
fn tags_are_trimmed_and_deduplicated() {
    let tags = vec![" a ".to_string(), "".to_string(), "b".to_string(), "a".to_string()];
    assert_eq!(normalize_tags(tags), vec!["a".to_string(), "b".to_string()]);
}

#[test]
fn blank_required_fields_are_reported_in_order() {
    let mut record = sample_record();
    assert_eq!(validate_record(&record), Ok(()));
    record.topic = " ".to_string();
    assert_eq!(validate_record(&record), Err("memory topic cannot be empty".to_string()));
    record.title = "".to_string();
    assert_eq!(validate_record(&record), Err("memory title cannot be empty".to_string()));
}

#[test]
fn global_ids_parse_as_numbers() {
    assert_eq!(parse_global_numeric_id(" 42 "), Ok(42));
    assert_eq!(
        parse_global_numeric_id("x1"),
        Err("invalid global memory id x1".to_string())
    );
    assert_eq!(normalize_stable_id(MemoryLevel::Global, " user-style "), "user-style");
}

#[test]
fn timestamps_convert_between_signed_and_unsigned() {
    assert_eq!(unix_timestamp(5), Ok(5));
    assert_eq!(
        unix_timestamp(u64::MAX),
        Err("unix timestamp overflow".to_string())
    );
    assert_eq!(from_unix_timestamp(7), Ok(7));
    assert_eq!(
        from_unix_timestamp(-1),
        Err("negative unix timestamp".to_string())
    );
}
