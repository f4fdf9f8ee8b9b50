use march_core::memory::{
    MemorizeRequest, MemoryLevel, MemoryRecord, MemoryScope, UpdateMemoryRequest,
};
use march_core::memory_store::{
    find_memory, forget_target, list_visible, memorized_record, memory_by_prefixed_id,
    memory_by_raw_id, memory_by_stable_id, peek, reassign_scope_targets, recall,
    update_loaded_memory, updated_record, visible_memories, LoadedMemories,
};

fn record(id: &str, level: MemoryLevel, scope: MemoryScope, updated_at: u64) -> MemoryRecord {
    MemoryRecord {
        id: id.to_string(),
        level,
        scope,
        stable_id: format!("stable-{}", id),
        memory_type: "fact".to_string(),
        topic: "auth".to_string(),
        title: format!("title {}", id),
        content: "body".to_string(),
        tags: vec!["jwt".to_string()],
        access_count: 2,
        skip_count: 4,
        created_at: 100,
        updated_at,
    }
}

fn loaded() -> LoadedMemories {
    LoadedMemories {
        project: vec![
            record("alpha", MemoryLevel::Project, MemoryScope::Shared, 300),
            record("beta", MemoryLevel::Project, MemoryScope::Agent("Coder".to_string()), 500),
        ],
        global: vec![
            record("7", MemoryLevel::Global, MemoryScope::Shared, 300),
            record("alpha", MemoryLevel::Global, MemoryScope::Agent("auditor".to_string()), 200),
        ],
    }
}

fn request(id: &str, level: Option<&str>) -> MemorizeRequest {
    MemorizeRequest {
        id: id.to_string(),
        memory_type: " fact ".to_string(),
        topic: " auth ".to_string(),
        title: " New title ".to_string(),
        content: " New body ".to_string(),
        tags: vec![" a ".to_string(), "b".to_string(), "a".to_string(), " ".to_string()],
        scope: None,
        level: level.map(|l| l.to_string()),
    }
}

#[test]
fn prefixed_ids_pick_the_level() {
    let mem = loaded();
    let p = memory_by_prefixed_id(&mem, " p:alpha ").unwrap();
    assert_eq!(p.level, MemoryLevel::Project);
    let g = memory_by_prefixed_id(&mem, "g:alpha").unwrap();
    assert_eq!(g.level, MemoryLevel::Global);
    assert!(memory_by_prefixed_id(&mem, "alpha").is_none());
    assert!(memory_by_prefixed_id(&mem, "x:alpha").is_none());
}

#[test]
fn raw_ids_prefer_project_memories() {
    let mem = loaded();
    assert_eq!(memory_by_raw_id(&mem, "alpha").unwrap().level, MemoryLevel::Project);
    assert_eq!(memory_by_raw_id(&mem, " 7 ").unwrap().level, MemoryLevel::Global);
    assert!(memory_by_raw_id(&mem, "missing").is_none());
}

#[test]
fn stable_ids_are_found_in_both_levels() {
    let mem = loaded();
    assert_eq!(memory_by_stable_id(&mem, "stable-7").unwrap().id, "7");
    assert_eq!(find_memory(&mem, "stable-beta").unwrap().id, "beta");
}

#[test]
fn peek_reports_missing_and_hidden_memories() {
    let mem = loaded();
    assert_eq!(peek(&mem, "p:beta", "coder").unwrap().id, "beta");
    assert_eq!(peek(&mem, "nope", "coder").unwrap_err(), "memory nope not found");
    assert_eq!(
        peek(&mem, "p:beta", "march").unwrap_err(),
        "memory p:beta is not visible to agent march"
    );
}

#[test]
fn recall_counts_an_access_and_clears_skips() {
    let mut mem = loaded();
    let r = recall(&mut mem, "p:alpha", "march").unwrap();
    assert_eq!(r.access_count, 3);
    assert_eq!(r.skip_count, 0);
    assert_eq!(mem.project[0].access_count, 3);
    assert_eq!(mem.project.len(), 2);
    assert_eq!(mem.global[0].access_count, 2);
}

#[test]
fn recall_saturates_the_access_count() {
    let mut mem = loaded();
    mem.project[0].access_count = u32::MAX;
    let r = recall(&mut mem, "p:alpha", "march").unwrap();
    assert_eq!(r.access_count, u32::MAX);
}

#[test]
fn loaded_memory_is_replaced_or_added_by_id() {
    let mut mem = loaded();
    let mut changed = record("beta", MemoryLevel::Project, MemoryScope::Shared, 900);
    changed.title = "changed".to_string();
    update_loaded_memory(&mut mem, &changed);
    assert_eq!(mem.project.len(), 2);
    assert_eq!(mem.project[1].title, "changed");
    let fresh = record("gamma", MemoryLevel::Global, MemoryScope::Shared, 900);
    update_loaded_memory(&mut mem, &fresh);
    assert_eq!(mem.global.len(), 3);
    assert_eq!(memory_by_prefixed_id(&mem, "g:gamma").unwrap().updated_at, 900);
}

#[test]
fn memorize_new_project_memory_trims_and_cleans() {
    let mem = loaded();
    let r = memorized_record(&mem, request(" delta ", None), "coder", 1000).unwrap();
    assert_eq!(r.id, "delta");
    assert_eq!(r.stable_id, "delta");
    assert_eq!(r.level, MemoryLevel::Project);
    assert_eq!(r.scope, MemoryScope::Shared);
    assert_eq!(r.title, "New title");
    assert_eq!(r.content, "New body");
    assert_eq!(r.tags, vec!["a".to_string(), "b".to_string()]);
    assert_eq!(r.access_count, 0);
    assert_eq!(r.created_at, 1000);
    assert_eq!(r.updated_at, 1000);
}

#[test]
fn memorize_existing_project_memory_keeps_counters() {
    let mem = loaded();
    let r = memorized_record(&mem, request("alpha", None), "coder", 1000).unwrap();
    assert_eq!(r.access_count, 2);
    assert_eq!(r.skip_count, 4);
    assert_eq!(r.created_at, 100);
    assert_eq!(r.updated_at, 1000);
    assert_eq!(r.title, "New title");
}

#[test]
fn memorize_global_memory_reuses_stable_or_numeric_id() {
    let mem = loaded();
    let by_stable = memorized_record(&mem, request("stable-7", Some("global")), "coder", 1000).unwrap();
    assert_eq!(by_stable.id, "7");
    assert_eq!(by_stable.stable_id, "stable-7");
    let by_number = memorized_record(&mem, request("07", Some("global")), "coder", 1000).unwrap();
    assert_eq!(by_number.id, "7");
    assert_eq!(by_number.stable_id, "07");
    let fresh = memorized_record(&mem, request("user-style", Some("Global")), "coder", 1000).unwrap();
    assert_eq!(fresh.id, "user-style");
    assert_eq!(fresh.level, MemoryLevel::Global);
}

#[test]
fn memorize_reports_bad_level_and_blank_fields() {
    let mem = loaded();
    assert_eq!(
        memorized_record(&mem, request("x", Some("team")), "coder", 1).unwrap_err(),
        "unsupported memory level team"
    );
    let mut blank = request("x", None);
    blank.title = "  ".to_string();
    assert_eq!(
        memorized_record(&mem, blank, "coder", 1).unwrap_err(),
        "memory title cannot be empty"
    );
}

#[test]
fn update_sets_only_named_fields() {
    let mem = loaded();
    let req = UpdateMemoryRequest {
        id: "p:alpha".to_string(),
        title: Some("  Fresh  ".to_string()),
        tags: Some(vec!["x".to_string(), "x".to_string()]),
        ..UpdateMemoryRequest::default()
    };
    let r = updated_record(&mem, req, 777).unwrap();
    assert_eq!(r.title, "Fresh");
    assert_eq!(r.content, "body");
    assert_eq!(r.tags, vec!["x".to_string()]);
    assert_eq!(r.updated_at, 777);
    let missing = UpdateMemoryRequest { id: "zzz".to_string(), ..UpdateMemoryRequest::default() };
    assert_eq!(updated_record(&mem, missing, 1).unwrap_err(), "memory zzz not found");
}

#[test]
fn forget_finds_the_memory_or_reports_it_missing() {
    let mem = loaded();
    assert_eq!(forget_target(&mem, "g:7").unwrap().level, MemoryLevel::Global);
    assert_eq!(forget_target(&mem, "gone").unwrap_err(), "memory gone not found");
}

#[test]
fn reassign_makes_an_agents_memories_shared() {
    let mem = loaded();
    let changed = reassign_scope_targets(&mem, " coder ", 42);
    assert_eq!(changed.len(), 1);
    assert_eq!(changed[0].id, "beta");
    assert_eq!(changed[0].scope, MemoryScope::Shared);
    assert_eq!(changed[0].updated_at, 42);
    assert!(reassign_scope_targets(&mem, "  ", 42).is_empty());
}

#[test]
fn visible_memories_follow_scope() {
    let mem = loaded();
    let seen: Vec<String> = visible_memories(&mem, "march").iter().map(|m| m.id.clone()).collect();
    assert_eq!(seen, vec!["alpha".to_string(), "7".to_string()]);
}

#[test]
fn listing_puts_recent_first_then_prefixed_id() {
    let mem = loaded();
    let listed: Vec<String> = list_visible(&mem, "auditor")
        .iter()
        .map(|m| m.prefixed_id())
        .collect();
    assert_eq!(listed, vec!["g:7".to_string(), "p:alpha".to_string(), "g:alpha".to_string()]);
}
