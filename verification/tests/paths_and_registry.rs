use acemcp_core::paths::normalize_path_key;
use acemcp_core::registry::IndexStatusRegistry;
use acemcp_core::registry::remove_blob_record;
use acemcp_core::status::IndexStatus;
use acemcp_core::status::ProjectIndexStatus;
use acemcp_core::status::compute_progress;
use acemcp_core::watcher::FileWatcherManager;

#[test]
fn backslashes_become_forward_slashes() {
    assert_eq!(normalize_path_key("C:\\work\\proj"), "C:/work/proj");
    assert_eq!(normalize_path_key("/home/dev/proj"), "/home/dev/proj");
}

#[test]
fn extended_path_prefixes_are_stripped() {
    assert_eq!(normalize_path_key("\\\\?\\C:\\work\\proj"), "C:/work/proj");
    assert_eq!(normalize_path_key("//?/C:/work/proj"), "C:/work/proj");
}

#[test]
fn normalizing_twice_changes_nothing() {
    for p in ["C:\\a\\b", "\\\\?\\C:\\a", "//?///?/x", "plain", ""] {
        let once = normalize_path_key(p);
        let twice = normalize_path_key(&once);
        assert_eq!(once, twice);
    }
}

#[test]
fn separator_style_and_prefix_do_not_matter() {
    let a = normalize_path_key("C:\\work\\proj");
    let b = normalize_path_key("C:/work/proj");
    let c = normalize_path_key("\\\\?\\C:/work\\proj");
    assert_eq!(a, b);
    assert_eq!(a, c);
}

#[test]
fn progress_is_a_clamped_percentage() {
    assert_eq!(compute_progress(0, 0, 0), 0);
    assert_eq!(compute_progress(50, 50, 0), 50);
    assert_eq!(compute_progress(1, 2, 1), 25);
    assert_eq!(compute_progress(10, 0, 0), 100);
}

#[test]
fn absent_project_reads_as_idle_default() {
    let registry = IndexStatusRegistry::new();
    let st = registry.get("C:\\nowhere");
    assert_eq!(st.status, IndexStatus::Idle);
    assert_eq!(st.progress, 0);
    assert_eq!(st.total_files, 0);
    assert_eq!(st.project_root, "C:/nowhere");
}

#[test]
fn progress_never_decreases_within_one_indexing_run() {
    let mut registry = IndexStatusRegistry::new();
    registry.record_progress("/p", 50, 50, 0);
    assert_eq!(registry.get("/p").progress, 50);
    // fewer indexed files reported later in the same run: the shown
    // progress holds its ground
    registry.record_progress("/p", 25, 75, 0);
    assert_eq!(registry.get("/p").progress, 50);
    registry.record_progress("/p", 80, 20, 0);
    assert_eq!(registry.get("/p").progress, 80);
    assert_eq!(registry.get("/p").status, IndexStatus::Indexing);
}

#[test]
fn status_runs_through_the_state_machine() {
    let mut st = ProjectIndexStatus::default();
    assert_eq!(st.status, IndexStatus::Idle);
    st.begin_indexing();
    assert_eq!(st.status, IndexStatus::Indexing);
    assert_eq!(st.progress, 0);
    st.record_progress(3, 1, 0);
    assert_eq!(st.progress, 75);
    assert_eq!(st.total_files, 4);
    st.complete_success(1700000000000);
    assert_eq!(st.status, IndexStatus::Synced);
    assert_eq!(st.progress, 100);
    assert_eq!(st.last_success_time, Some(1700000000000));
    st.begin_indexing();
    st.record_progress(1, 3, 0);
    st.complete_failure(1700000001000, "upload refused".to_string());
    assert_eq!(st.status, IndexStatus::Failed);
    assert_eq!(st.last_error.as_deref(), Some("upload refused"));
    assert_eq!(st.last_failure_time, Some(1700000001000));
    assert_eq!(st.last_success_time, Some(1700000000000));
}

#[test]
fn removing_a_project_clears_registry_and_watch() {
    let mut registry = IndexStatusRegistry::new();
    let mut watcher = FileWatcherManager::new(true);
    registry.record_progress("C:\\proj", 1, 1, 0);
    watcher.start_watching("C:\\proj", 500);
    assert!(watcher.is_watching("C:/proj"));
    assert!(registry.get_all().projects.iter().any(|(k, _)| k == "C:/proj"));

    let removed = registry.remove("C:\\proj");
    let stopped = watcher.stop_watching("C:\\proj");
    assert!(removed);
    assert!(stopped);
    assert!(!watcher.is_watching("C:/proj"));
    assert!(!registry.get_all().projects.iter().any(|(k, _)| k == "C:/proj"));
    // removing again finds nothing, and is still not an error
    assert!(!registry.remove("C:/proj"));
    assert!(!watcher.stop_watching("C:/proj"));
}

#[test]
fn blob_records_match_under_normalization() {
    let mut records: Vec<(String, Vec<String>)> = vec![
        ("\\\\?\\C:\\one".to_string(), vec!["b1".to_string()]),
        ("C:/two".to_string(), vec!["b2".to_string()]),
    ];
    assert!(remove_blob_record(&mut records, "C:/one"));
    assert_eq!(records.len(), 1);
    assert_eq!(records[0].0, "C:/two");
    assert!(!remove_blob_record(&mut records, "C:/one"));
}

#[test]
fn watching_is_idempotent() {
    let mut watcher = FileWatcherManager::new(true);
    assert!(watcher.start_watching("/p", 100));
    assert!(!watcher.start_watching("/p", 100));
    assert_eq!(watcher.get_watching_projects(), vec!["/p".to_string()]);
    watcher.start_watching("/q", 100);
    watcher.stop_all();
    assert!(watcher.get_watching_projects().is_empty());
}

#[test]
fn rapid_events_coalesce_into_one_pass() {
    let mut watcher = FileWatcherManager::new(true);
    watcher.start_watching("/p", 1000);
    // five rapid events inside the debounce window
    for t in [10u64, 20, 30, 40, 50] {
        assert!(watcher.note_file_event("/p", t));
    }
    // the timer set by the early events has been pushed back
    assert!(!watcher.fire_deadline("/p", 60));
    // once the window elapses quietly, exactly one pass starts
    assert!(watcher.fire_deadline("/p", 1050));
    // the consumed deadline cannot fire again
    assert!(!watcher.fire_deadline("/p", 2000));
    assert!(!watcher.complete_pass("/p"));
}

#[test]
fn overlapping_trigger_is_deferred_until_the_pass_ends() {
    let mut watcher = FileWatcherManager::new(true);
    watcher.start_watching("/p", 100);
    watcher.note_file_event("/p", 0);
    assert!(watcher.fire_deadline("/p", 100)); // first pass starts
    watcher.note_file_event("/p", 150);
    assert!(!watcher.fire_deadline("/p", 250)); // deferred: a pass is running
    assert!(watcher.complete_pass("/p")); // the deferred pass starts now
}

#[test]
fn auto_index_gate_suppresses_triggering_only() {
    let mut watcher = FileWatcherManager::new(true);
    watcher.start_watching("/p", 100);
    watcher.set_auto_index_enabled(false);
    assert!(!watcher.is_auto_index_enabled());
    watcher.note_file_event("/p", 0);
    assert!(!watcher.fire_deadline("/p", 100));
    // the watch itself stays registered
    assert!(watcher.is_watching("/p"));
    watcher.set_auto_index_enabled(true);
    watcher.note_file_event("/p", 200);
    assert!(watcher.fire_deadline("/p", 300));
}
