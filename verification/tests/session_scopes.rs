use march_core::agents::{AgentProfile, AgentProfileSource};
use march_core::notes::{
    notes_by_scope, notes_for_active_agent, persisted_notes, remove_note_in_scope,
    write_note_in_scope, Note, NoteScope, PersistedNote,
};
use march_core::prompt::Injection;
use march_core::scopes::{
    add_injection, available_agents_for_prompt, close_file_in_scope, display_name_for_agent,
    open_file_in_scope, open_paths_for_active_agent, set_active_agent, set_lock_file_in_scope,
    system_core_for_active_agent,
};
use march_core::tasks::PersistedOpenFile;

fn profile(name: &str, display_name: &str, description: &str, prompt: &str) -> AgentProfile {
    AgentProfile {
        name: name.to_string(),
        display_name: display_name.to_string(),
        description: description.to_string(),
        system_prompt: prompt.to_string(),
        avatar_color: "#336699".to_string(),
        provider_id: None,
        model_id: None,
        source: AgentProfileSource::Project,
    }
}

fn note_ids(notes: &[Note]) -> Vec<(String, String)> {
    notes.iter().map(|n| (n.id.clone(), n.content.clone())).collect()
}

fn stored(notes: &[PersistedNote]) -> Vec<(String, String, String)> {
    notes
        .iter()
        .map(|n| (n.scope.clone(), n.id.clone(), n.content.clone()))
        .collect()
}

#[test]
fn opening_a_file_twice_in_a_scope_keeps_one_entry() {
    let mut files: Vec<PersistedOpenFile> = Vec::new();
    open_file_in_scope(&mut files, "shared", "src/main.rs");
    open_file_in_scope(&mut files, "shared", "src/main.rs");
    open_file_in_scope(&mut files, "coder", "src/main.rs");
    assert_eq!(files.len(), 2);
    assert!(!files[0].locked);
    assert_eq!(files[1].scope, "coder");
}

#[test]
fn locked_file_cannot_be_closed_until_unlocked() {
    let mut files: Vec<PersistedOpenFile> = Vec::new();
    open_file_in_scope(&mut files, "shared", "a.rs");
    set_lock_file_in_scope(&mut files, "shared", "a.rs", true).unwrap();
    let err = close_file_in_scope(&mut files, "shared", "a.rs").unwrap_err();
    assert_eq!(err, "cannot close locked file a.rs");
    assert_eq!(files.len(), 1);
    set_lock_file_in_scope(&mut files, "shared", "a.rs", false).unwrap();
    let still_open = close_file_in_scope(&mut files, "shared", "a.rs").unwrap();
    assert!(!still_open);
    assert!(files.is_empty());
}

#[test]
fn locking_an_unopened_file_is_refused() {
    let mut files: Vec<PersistedOpenFile> = Vec::new();
    let err = set_lock_file_in_scope(&mut files, "shared", "b.rs", true).unwrap_err();
    assert_eq!(err, "cannot lock unopened file b.rs");
}

#[test]
fn open_paths_list_shared_then_private_once_each() {
    let mut files: Vec<PersistedOpenFile> = Vec::new();
    open_file_in_scope(&mut files, "coder", "b.rs");
    open_file_in_scope(&mut files, "shared", "a.rs");
    open_file_in_scope(&mut files, "coder", "a.rs");
    open_file_in_scope(&mut files, "other", "c.rs");
    let paths = open_paths_for_active_agent(&files, "coder");
    assert_eq!(paths, vec!["a.rs".to_string(), "b.rs".to_string()]);
}

#[test]
fn injection_with_same_id_replaces_content_in_place() {
    let mut injections: Vec<Injection> = Vec::new();
    add_injection(&mut injections, "a", "one");
    add_injection(&mut injections, "b", "two");
    add_injection(&mut injections, "a", "three");
    assert_eq!(injections.len(), 2);
    assert_eq!(injections[0].id, "a");
    assert_eq!(injections[0].content, "three");
    assert_eq!(injections[1].content, "two");
}

#[test]
fn display_name_falls_back_to_march_then_name() {
    let profiles = vec![profile("coder", "Code Writer", "writes code", "")];
    assert_eq!(display_name_for_agent(&profiles, "coder"), "Code Writer");
    assert_eq!(display_name_for_agent(&profiles, "MARCH"), "March");
    assert_eq!(display_name_for_agent(&profiles, "ghost"), "ghost");
}

#[test]
fn active_agent_changes_only_to_a_known_agent() {
    let profiles = vec![profile("coder", "Code Writer", "writes code", "")];
    assert_eq!(set_active_agent(&profiles, "march", "coder"), "coder");
    assert_eq!(set_active_agent(&profiles, "march", "nobody"), "march");
}

#[test]
fn roster_marks_the_active_agent() {
    let profiles = vec![
        profile("march", "March", "lead", ""),
        profile("coder", "Code Writer", "writes code", ""),
    ];
    assert_eq!(
        available_agents_for_prompt(&profiles, "coder"),
        "- march | March | lead\n- coder | Code Writer | writes code (you)"
    );
}

#[test]
fn system_core_adds_roster_and_trimmed_role() {
    let profiles = vec![profile("coder", "Code Writer", "writes code", "  Be terse.  ")];
    let core = system_core_for_active_agent(&profiles, "coder", "SESSION", "BASE");
    assert_eq!(
        core,
        "BASE\n\n# Available Agents\n- coder | Code Writer | writes code (you)\n\n# Agent Role\nBe terse."
    );
    let unknown = system_core_for_active_agent(&profiles, "nobody", "SESSION", "BASE");
    assert_eq!(unknown, "SESSION");
}

#[test]
fn writing_a_note_twice_replaces_it() {
    let mut notes: Vec<NoteScope> = Vec::new();
    write_note_in_scope(&mut notes, "shared", "plan", "first");
    write_note_in_scope(&mut notes, "coder", "todo", "x");
    write_note_in_scope(&mut notes, "shared", "plan", "second");
    assert_eq!(notes.len(), 2);
    assert_eq!(notes[0].scope, "shared");
    assert_eq!(note_ids(&notes[0].notes), vec![("plan".to_string(), "second".to_string())]);
}

#[test]
fn removing_a_note_keeps_the_scope() {
    let mut notes: Vec<NoteScope> = Vec::new();
    write_note_in_scope(&mut notes, "shared", "a", "1");
    write_note_in_scope(&mut notes, "shared", "b", "2");
    remove_note_in_scope(&mut notes, "shared", "a");
    remove_note_in_scope(&mut notes, "nobody", "a");
    assert_eq!(notes.len(), 1);
    assert_eq!(note_ids(&notes[0].notes), vec![("b".to_string(), "2".to_string())]);
    remove_note_in_scope(&mut notes, "shared", "b");
    assert_eq!(notes.len(), 1);
    assert!(notes[0].notes.is_empty());
}

#[test]
fn private_note_overrides_shared_note_with_same_id() {
    let mut notes: Vec<NoteScope> = Vec::new();
    write_note_in_scope(&mut notes, "coder", "plan", "mine");
    write_note_in_scope(&mut notes, "shared", "plan", "ours");
    write_note_in_scope(&mut notes, "shared", "goal", "ship");
    write_note_in_scope(&mut notes, "other", "secret", "hidden");
    let seen = notes_for_active_agent(&notes, "coder");
    assert_eq!(
        note_ids(&seen),
        vec![
            ("plan".to_string(), "mine".to_string()),
            ("goal".to_string(), "ship".to_string()),
        ]
    );
}

#[test]
fn persisted_notes_put_shared_first_then_scope_then_id() {
    let mut notes: Vec<NoteScope> = Vec::new();
    write_note_in_scope(&mut notes, "zeta", "b", "1");
    write_note_in_scope(&mut notes, "alpha", "z", "2");
    write_note_in_scope(&mut notes, "shared", "y", "3");
    write_note_in_scope(&mut notes, "alpha", "a", "4");
    write_note_in_scope(&mut notes, "shared", "x", "5");
    let rows = persisted_notes(&notes);
    assert_eq!(
        stored(&rows),
        vec![
            ("shared".to_string(), "x".to_string(), "5".to_string()),
            ("shared".to_string(), "y".to_string(), "3".to_string()),
            ("alpha".to_string(), "a".to_string(), "4".to_string()),
            ("alpha".to_string(), "z".to_string(), "2".to_string()),
            ("zeta".to_string(), "b".to_string(), "1".to_string()),
        ]
    );
}

#[test]
fn persisted_notes_grouped_again_give_the_same_notes() {
    let mut notes: Vec<NoteScope> = Vec::new();
    write_note_in_scope(&mut notes, "coder", "b", "1");
    write_note_in_scope(&mut notes, "shared", "target", "实现上下文持久化");
    write_note_in_scope(&mut notes, "coder", "a", "2");
    let restored = notes_by_scope(persisted_notes(&notes));
    assert_eq!(restored.len(), 2);
    assert_eq!(restored[0].scope, "shared");
    assert_eq!(
        note_ids(&restored[0].notes),
        vec![("target".to_string(), "实现上下文持久化".to_string())]
    );
    assert_eq!(restored[1].scope, "coder");
    assert_eq!(
        note_ids(&restored[1].notes),
        vec![("a".to_string(), "2".to_string()), ("b".to_string(), "1".to_string())]
    );
}

#[test]
fn open_file_view_keeps_scope_path_and_lock() {
    use_open_file_view();
}

fn use_open_file_view() {
    let view = march_core::ui::UiOpenFileView::from_persisted(PersistedOpenFile {
        scope: "shared".to_string(),
        path: "src/lib.rs".to_string(),
        locked: true,
    });
    assert_eq!(view.scope, "shared");
    assert_eq!(view.path, "src/lib.rs");
    assert!(view.locked);
    assert!(view.snapshot.is_none());
    let moved = march_core::ui::UiFileSnapshotView::Moved {
        path: "a.rs".to_string(),
        new_path: "b.rs".to_string(),
        last_seen_at: 1,
        modified_by: march_core::ui::UiModifiedByView::External,
    };
    assert_eq!(moved.path(), "a.rs");
}

#[test]
fn workspace_image_is_a_base64_data_url() {
    let view = march_core::ui::workspace_image_view(
        "img/a.png".to_string(),
        "image/png",
        b"hello",
        "a.png".to_string(),
    );
    assert_eq!(view.data_url, "data:image/png;base64,aGVsbG8=");
    assert_eq!(view.media_type, "image/png");
}
