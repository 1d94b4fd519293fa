use audioqueue::errors::ErrorKind;
use audioqueue::item::{DownloadState, QueueItem, FULL_MILLI};
use audioqueue::queue::Queue;
use audioqueue::worker::{begin_work, record_outcome};

fn item(id: &str, title: &str) -> QueueItem {
    QueueItem::fresh(
        id.to_string(),
        format!("https://example.invalid/{id}"),
        title.to_string(),
        "Artist".to_string(),
        None,
        Some(120),
    )
}

fn states(q: &Queue) -> Vec<(String, DownloadState)> {
    q.list().into_iter().map(|it| (it.id, it.state)).collect()
}

#[test]
fn insert_and_list() {
    let mut q = Queue::new();
    let stored = q.insert(item("a", "First")).unwrap();
    assert_eq!(stored.id, "a");
    assert_eq!(q.len(), 1);
    let all = q.list();
    assert_eq!(all.len(), 1);
    assert_eq!(all[0].title, "First");
    assert!(matches!(all[0].state, DownloadState::Waiting));
    assert_eq!(all[0].progress, None);
    assert_eq!(all[0].error, None);
}

#[test]
fn duplicate_insert_conflicts_and_leaves_queue_unchanged() {
    let mut q = Queue::new();
    q.insert(item("a", "First")).unwrap();
    q.insert(item("b", "Second")).unwrap();
    let before = states(&q);
    let err = q.insert(item("a", "Imposter")).unwrap_err();
    assert_eq!(err.kind, ErrorKind::Conflict);
    assert_eq!(states(&q), before);
    assert_eq!(q.list()[0].title, "First");
}

#[test]
fn remove_unknown_id_is_not_found() {
    let mut q = Queue::new();
    q.insert(item("a", "First")).unwrap();
    let err = q.remove("zz").unwrap_err();
    assert_eq!(err.kind, ErrorKind::NotFound);
    assert_eq!(q.len(), 1);
    q.remove("a").unwrap();
    assert_eq!(q.len(), 0);
}

#[test]
fn update_fields_sanitizes_and_skips_empty() {
    let mut q = Queue::new();
    q.insert(item("a", "First")).unwrap();
    let updated = q
        .update_fields("a", Some("New/Name?".to_string()), Some(":*".to_string()))
        .unwrap();
    // Reserved characters are stripped; an all-reserved patch is ignored.
    assert_eq!(updated.title, "NewName");
    assert_eq!(updated.artist, "Artist");
    let err = q
        .update_fields("zz", Some("x".to_string()), None)
        .unwrap_err();
    assert_eq!(err.kind, ErrorKind::NotFound);
}

#[test]
fn transition_and_progress_on_deleted_id_do_nothing() {
    let mut q = Queue::new();
    q.insert(item("a", "First")).unwrap();
    q.insert(item("b", "Second")).unwrap();
    q.remove("a").unwrap();
    let before = states(&q);
    q.transition("a", DownloadState::Working, None);
    q.set_progress("a", 5000);
    assert_eq!(states(&q), before);
    assert_eq!(q.len(), 1);
}

#[test]
fn progress_is_clamped_and_needs_a_working_item() {
    let mut q = Queue::new();
    q.insert(item("a", "First")).unwrap();
    // Not working yet: ignored.
    q.set_progress("a", 5000);
    assert_eq!(q.list()[0].progress, None);
    q.transition("a", DownloadState::Working, None);
    assert_eq!(q.list()[0].progress, Some(0));
    q.set_progress("a", 42500);
    assert_eq!(q.list()[0].progress, Some(42500));
    q.set_progress("a", 2 * FULL_MILLI);
    assert_eq!(q.list()[0].progress, Some(FULL_MILLI));
    // Last write wins, even when lower.
    q.set_progress("a", 10000);
    assert_eq!(q.list()[0].progress, Some(10000));
}

#[test]
fn successful_lifecycle_ends_complete_at_exactly_full_progress() {
    let mut q = Queue::new();
    q.insert(item("a", "First")).unwrap();
    begin_work(&mut q, "a");
    q.set_progress("a", 42500);
    record_outcome(&mut q, "a", None);
    let it = &q.list()[0];
    assert!(matches!(it.state, DownloadState::Complete));
    assert_eq!(it.progress, Some(FULL_MILLI));
    assert_eq!(it.error, None);
}

#[test]
fn failed_lifecycle_ends_failed_with_reason_and_no_progress() {
    let mut q = Queue::new();
    q.insert(item("a", "First")).unwrap();
    begin_work(&mut q, "a");
    q.set_progress("a", 99000);
    record_outcome(&mut q, "a", Some("yt-dlp download failed".to_string()));
    let it = &q.list()[0];
    assert!(matches!(it.state, DownloadState::Failed));
    assert_eq!(it.progress, None);
    assert_eq!(it.error.as_deref(), Some("yt-dlp download failed"));
    assert!(!it.error.as_deref().unwrap().is_empty());
}

#[test]
fn redispatched_complete_item_starts_again_at_zero_progress() {
    let mut q = Queue::new();
    q.insert(item("a", "First")).unwrap();
    begin_work(&mut q, "a");
    record_outcome(&mut q, "a", None);
    assert_eq!(q.list()[0].progress, Some(FULL_MILLI));
    // A fresh sweep picks the completed item back up: progress restarts
    // at zero, not at the pinned 100%.
    begin_work(&mut q, "a");
    let it = &q.list()[0];
    assert!(matches!(it.state, DownloadState::Working));
    assert_eq!(it.progress, Some(0));
    assert_eq!(it.error, None);
}

#[test]
fn working_is_reentered_with_cleared_error() {
    let mut q = Queue::new();
    q.insert(item("a", "First")).unwrap();
    begin_work(&mut q, "a");
    record_outcome(&mut q, "a", Some("boom".to_string()));
    begin_work(&mut q, "a");
    let it = &q.list()[0];
    assert!(matches!(it.state, DownloadState::Working));
    assert_eq!(it.error, None);
    assert_eq!(it.progress, Some(0));
}

#[test]
fn clear_failed_removes_only_failed_items() {
    let mut q = Queue::new();
    q.insert(item("w", "Waiting")).unwrap();
    q.insert(item("g", "Going")).unwrap();
    q.insert(item("c", "Done")).unwrap();
    q.insert(item("f", "Broken")).unwrap();
    q.transition("g", DownloadState::Working, None);
    q.transition("c", DownloadState::Complete, None);
    q.transition("f", DownloadState::Failed, Some("x".to_string()));
    let kept = q.clear("failed").unwrap();
    let ids: Vec<String> = kept.into_iter().map(|it| it.id).collect();
    assert_eq!(ids, vec!["w".to_string(), "g".to_string(), "c".to_string()]);
}

#[test]
fn clear_complete_removes_only_complete_items() {
    let mut q = Queue::new();
    q.insert(item("w", "Waiting")).unwrap();
    q.insert(item("c", "Done")).unwrap();
    q.transition("c", DownloadState::Complete, None);
    let kept = q.clear("complete").unwrap();
    let ids: Vec<String> = kept.into_iter().map(|it| it.id).collect();
    assert_eq!(ids, vec!["w".to_string()]);
}

#[test]
fn clear_all_and_non_working_retain_only_working() {
    for mode in ["all", "non_working"] {
        let mut q = Queue::new();
        q.insert(item("w", "Waiting")).unwrap();
        q.insert(item("g", "Going")).unwrap();
        q.insert(item("f", "Broken")).unwrap();
        q.transition("g", DownloadState::Working, None);
        q.transition("f", DownloadState::Failed, Some("x".to_string()));
        let kept = q.clear(mode).unwrap();
        let ids: Vec<String> = kept.into_iter().map(|it| it.id).collect();
        assert_eq!(ids, vec!["g".to_string()], "mode {mode}");
    }
}

#[test]
fn unknown_clear_mode_is_rejected() {
    let mut q = Queue::new();
    q.insert(item("a", "First")).unwrap();
    let err = q.clear("everything").unwrap_err();
    assert_eq!(err.kind, ErrorKind::BadRequest);
    assert_eq!(err.message, "unknown clear mode");
    assert_eq!(q.len(), 1);
}

#[test]
fn sweep_reselects_failed_and_complete_but_not_working() {
    let mut q = Queue::new();
    q.insert(item("c", "Done")).unwrap();
    q.insert(item("f", "Broken")).unwrap();
    q.insert(item("g", "Going")).unwrap();
    q.insert(item("w", "Waiting")).unwrap();
    q.transition("c", DownloadState::Complete, None);
    q.transition("f", DownloadState::Failed, Some("x".to_string()));
    q.transition("g", DownloadState::Working, None);
    let ids = q.eligible_ids();
    assert_eq!(
        ids,
        vec!["c".to_string(), "f".to_string(), "w".to_string()]
    );
}
