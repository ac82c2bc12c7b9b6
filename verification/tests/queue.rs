use yood::error::AppErrorKind;
use yood::models::{DownloadRequest, DownloadStatus, Timestamp};
use yood::queue::DownloadQueue;

fn request() -> DownloadRequest {
    DownloadRequest { url: "https://www.youtube.com/watch?v=abc".into(), ..Default::default() }
}

fn at(secs: i64) -> Timestamp {
    Timestamp { secs, nanos: 0 }
}

#[test]
fn commands_move_downloads_between_states() {
    let mut q = DownloadQueue::new();
    let item = q.enqueue_with(request(), "a".into(), at(1)).unwrap();
    assert_eq!(item.status, DownloadStatus::Queued);
    assert_eq!(item.title, "Queued download");
    q.pause("a").unwrap();
    assert_eq!(q.item("a").unwrap().status, DownloadStatus::Paused);
    q.resume("a").unwrap();
    assert_eq!(q.item("a").unwrap().status, DownloadStatus::Queued);
    q.cancel("a").unwrap();
    assert_eq!(q.item("a").unwrap().status, DownloadStatus::Cancelled);
    let refused = q.cancel("a").unwrap_err();
    assert_eq!(refused.to_string(), "invalid input: download is already finished");
    q.retry("a").unwrap();
    assert_eq!(q.item("a").unwrap().status, DownloadStatus::Queued);
    assert_eq!(q.remove("a").unwrap_err().kind(), AppErrorKind::InvalidInput);
    assert_eq!(q.pause("missing").unwrap_err().to_string(), "resource not found: missing");
}

#[test]
fn history_lists_newest_first() {
    let mut q = DownloadQueue::new();
    q.enqueue_with(request(), "old".into(), at(1)).unwrap();
    q.enqueue_with(request(), "new".into(), at(3)).unwrap();
    q.enqueue_with(request(), "mid".into(), at(2)).unwrap();
    let ids: Vec<String> = q.list().into_iter().map(|i| i.id).collect();
    assert_eq!(ids, vec!["new", "mid", "old"]);
    assert!(q.has_queued());
    assert!(q.has_active_downloads());
    assert_eq!(q.next_queued().as_deref(), Some("old"));
    assert_eq!(q.item("old").unwrap().status, DownloadStatus::Downloading);
}

#[test]
fn rejected_requests_are_not_queued() {
    let mut q = DownloadQueue::new();
    let bad = DownloadRequest { url: "https://example.test/".into(), ..Default::default() };
    assert!(q.enqueue_with(bad, "x".into(), at(1)).is_err());
    assert!(q.items().is_empty());
}

#[test]
fn restored_history_marks_running_downloads_interrupted() {
    let mut q = DownloadQueue::new();
    q.enqueue_with(request(), "a".into(), at(1)).unwrap();
    q.next_queued();
    let restored = DownloadQueue::from_history(q.items());
    let item = restored.item("a").unwrap();
    assert_eq!(item.status, DownloadStatus::Interrupted);
    assert_eq!(item.error.as_deref(), Some("Yood closed while this download was active"));
}

#[test]
fn completed_downloads_refuse_commands_and_can_be_removed() {
    let mut q = DownloadQueue::new();
    q.enqueue_with(request(), "a".into(), at(1)).unwrap();
    q.enqueue_with(request(), "b".into(), at(2)).unwrap();
    q.next_queued();
    let done = q.finish("a", DownloadStatus::Completed, None, Some("/tmp/a.mp4".into()), at(5)).unwrap();
    assert_eq!(done.status, DownloadStatus::Completed);
    assert_eq!(done.output_path.as_deref(), Some("/tmp/a.mp4"));
    assert_eq!(q.pause("a").unwrap_err().to_string(), "invalid input: download cannot be paused in its current state");
    assert_eq!(q.resume("a").unwrap_err().to_string(), "invalid input: download is not paused or interrupted");
    assert_eq!(q.cancel("a").unwrap_err().to_string(), "invalid input: download is already finished");
    assert_eq!(q.retry("a").unwrap_err().to_string(), "invalid input: only failed or cancelled downloads can be retried");
    assert_eq!(q.item("a").unwrap().status, DownloadStatus::Completed);
    assert_eq!(
        q.remove("b").unwrap_err().to_string(),
        "invalid input: active downloads must be cancelled first"
    );
    q.remove("a").unwrap();
    let ids: Vec<String> = q.items().into_iter().map(|i| i.id).collect();
    assert_eq!(ids, vec!["b"]);
    assert_eq!(q.finish("a", DownloadStatus::Failed, None, None, at(6)).unwrap_err().to_string(), "resource not found: a");
}

#[test]
fn history_keeps_at_most_the_newest_thousand() {
    let mut q = DownloadQueue::new();
    for n in 0..1005i64 {
        q.enqueue_with(request(), format!("id{n}"), at(n)).unwrap();
    }
    let items = q.items();
    assert_eq!(items.len(), yood::queue::MAX_HISTORY);
    assert!(items.iter().all(|i| i.id != "id0" && i.id != "id4"));
    assert!(items.iter().any(|i| i.id == "id1004"));
    let restored = DownloadQueue::from_history(items);
    assert_eq!(restored.items().len(), 1000);
}

#[test]
fn downloads_created_together_keep_their_order() {
    let mut q = DownloadQueue::new();
    q.enqueue_with(request(), "first".into(), at(5)).unwrap();
    q.enqueue_with(request(), "older".into(), at(1)).unwrap();
    q.enqueue_with(request(), "second".into(), at(5)).unwrap();
    let ids: Vec<String> = q.list().into_iter().map(|i| i.id).collect();
    assert_eq!(ids, vec!["first", "second", "older"]);
}

#[test]
fn removing_keeps_the_rest_of_the_listing_in_order() {
    let mut q = DownloadQueue::new();
    for (id, t) in [("a", 3), ("b", 1), ("c", 3), ("d", 2)] {
        q.enqueue_with(request(), id.into(), at(t)).unwrap();
    }
    q.cancel("c").unwrap();
    let before: Vec<String> = q.list().into_iter().map(|i| i.id).collect();
    assert_eq!(before, vec!["a", "c", "d", "b"]);
    q.remove("c").unwrap();
    let after: Vec<String> = q.list().into_iter().map(|i| i.id).collect();
    assert_eq!(after, vec!["a", "d", "b"]);
}
