use audioqueue::errors::{AppError, ErrorKind};
use audioqueue::item::DownloadState;
use audioqueue::orchestrate::start_plan;
use audioqueue::queue::Queue;

#[test]
fn error_constructors_carry_kind_and_message() {
    let e = AppError::bad_request("bad".to_string());
    assert_eq!(e.kind, ErrorKind::BadRequest);
    assert_eq!(e.message, "bad");
    let e = AppError::not_found("missing".to_string());
    assert_eq!(e.kind, ErrorKind::NotFound);
    assert_eq!(e.message, "missing");
    let e = AppError::conflict("dup".to_string());
    assert_eq!(e.kind, ErrorKind::Conflict);
    assert_eq!(e.message, "dup");
    let e = AppError::internal("boom".to_string());
    assert_eq!(e.kind, ErrorKind::Internal);
    assert_eq!(e.message, "boom");
}

#[test]
fn rerun_after_one_failure_and_one_success_selects_both() {
    let mut q = Queue::new();
    for id in ["x", "y"] {
        q.insert(audioqueue::item::QueueItem::fresh(
            id.to_string(),
            format!("https://example.invalid/{id}"),
            id.to_string(),
            "A".to_string(),
            None,
            None,
        ))
        .unwrap();
    }
    q.transition("x", DownloadState::Failed, Some("download failed".to_string()));
    q.transition("y", DownloadState::Complete, None);
    // No item is working: a fresh sweep re-selects both.
    let (_, ids) = start_plan(&q, "flac").unwrap();
    assert_eq!(ids, vec!["x".to_string(), "y".to_string()]);
}
