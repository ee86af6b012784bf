use youtube_downloader_gui::progress::{Decimal, DownloadProgress};
use youtube_downloader_gui::queue::{DownloadManager, DownloadOutcome, LoopAction, QueueError};
use youtube_downloader_gui::storage::QueueState;
use youtube_downloader_gui::task::{DownloadItem, DownloadStatus, DownloadTask};

fn item(id: &str, status: DownloadStatus) -> DownloadItem {
    DownloadItem {
        id: id.to_string(),
        video_id: format!("video-{}", id),
        title: format!("Test Video {}", id),
        thumbnail: "https://example.com/thumb.jpg".to_string(),
        status,
        progress: Decimal::whole(0),
        speed: 0,
        eta: 0,
        save_path: format!("/Users/test/Downloads/{}.mp4", id),
        error: None,
        url: format!("https://www.youtube.com/watch?v={}", id),
        platform: "YouTube".to_string(),
    }
}

fn status_of(m: &DownloadManager, id: &str) -> DownloadStatus {
    m.get_queue_status().into_iter().find(|i| i.id == id).unwrap().status
}

fn downloading(m: &DownloadManager) -> usize {
    m.get_queue_status().iter().filter(|i| i.status == DownloadStatus::Downloading).count()
}

#[test]
fn test_queue_state_default() {
    let queue = QueueState::default();

    assert!(queue.items.is_empty());
    assert!(!queue.last_updated.is_empty());
}

#[test]
fn test_queue_state_add_items() {
    let mut queue = QueueState::default();

    let item = DownloadItem {
        id: "test-1".to_string(),
        video_id: "dQw4w9WgXcQ".to_string(),
        title: "Test Video".to_string(),
        thumbnail: "https://example.com/thumb.jpg".to_string(),
        status: DownloadStatus::Queued,
        progress: Decimal::whole(0),
        speed: 0,
        eta: 0,
        save_path: "/Users/test/Downloads/video.mp4".to_string(),
        error: None,
        url: "https://www.youtube.com/watch?v=dQw4w9WgXcQ".to_string(),
        platform: "YouTube".to_string(),
    };

    queue.items.push(item);

    assert_eq!(queue.items.len(), 1);
    assert_eq!(queue.items[0].video_id, "dQw4w9WgXcQ");
    assert_eq!(queue.items[0].status, DownloadStatus::Queued);
}

#[test]
fn test_download_item_status_transitions() {
    let mut item = item("test-1", DownloadStatus::Queued);

    item.status = DownloadStatus::Downloading;
    assert_eq!(item.status, DownloadStatus::Downloading);

    item.status = DownloadStatus::Paused;
    assert_eq!(item.status, DownloadStatus::Paused);

    item.status = DownloadStatus::Downloading;
    assert_eq!(item.status, DownloadStatus::Downloading);

    item.status = DownloadStatus::Completed;
    item.progress = Decimal::whole(100);
    assert_eq!(item.status, DownloadStatus::Completed);
    assert_eq!(item.progress, Decimal::whole(100));
}

#[test]
fn test_download_item_with_error() {
    let mut item = item("test-1", DownloadStatus::Failed);
    item.progress = Decimal::whole(25);
    item.error = Some("Network error: Connection timeout".to_string());

    assert_eq!(item.status, DownloadStatus::Failed);
    assert!(item.error.is_some());
    assert!(item.error.unwrap().contains("Network error"));
}

#[test]
fn test_queue_state_multiple_items() {
    let mut queue = QueueState::default();
    for i in 0..5 {
        let status = match i {
            0 => DownloadStatus::Completed,
            1 => DownloadStatus::Downloading,
            2 => DownloadStatus::Queued,
            3 => DownloadStatus::Paused,
            _ => DownloadStatus::Failed,
        };
        let mut it = item(&format!("test-{}", i), status);
        it.progress = if i == 0 { Decimal::whole(100) } else { Decimal::whole(i * 10) };
        if i == 4 {
            it.error = Some("Test error".to_string());
        }
        queue.items.push(it);
    }

    assert_eq!(queue.items.len(), 5);
    let count = |s: DownloadStatus| queue.items.iter().filter(|i| i.status == s).count();
    assert_eq!(count(DownloadStatus::Completed), 1);
    assert_eq!(count(DownloadStatus::Downloading), 1);
    assert_eq!(count(DownloadStatus::Queued), 1);
    assert_eq!(count(DownloadStatus::Paused), 1);
    assert_eq!(count(DownloadStatus::Failed), 1);
}

#[test]
fn test_queue_state_restore_after_crash() {
    let mut queue = QueueState::default();
    let mut item1 = item("test-1", DownloadStatus::Downloading);
    item1.progress = Decimal::whole(45);
    item1.speed = 1024 * 1024;
    item1.eta = 60;
    let item2 = item("test-2", DownloadStatus::Queued);
    queue.items.push(item1);
    queue.items.push(item2);

    let mut restored = queue.clone();
    for item in &mut restored.items {
        item.restore();
    }

    assert_eq!(restored.items.len(), 2);
    assert_eq!(restored.items[0].status, DownloadStatus::Queued);
    assert_eq!(restored.items[1].status, DownloadStatus::Queued);
}

#[test]
fn test_download_status_equality() {
    assert_eq!(DownloadStatus::Queued, DownloadStatus::Queued);
    assert_ne!(DownloadStatus::Queued, DownloadStatus::Downloading);
    assert_ne!(DownloadStatus::Completed, DownloadStatus::Failed);
}

#[test]
fn downloading_never_exceeds_cap() {
    for cap in 1..=5 {
        let mut m = DownloadManager::new();
        m.set_max_concurrent(cap);
        let items: Vec<DownloadItem> =
            (0..8).map(|i| item(&format!("j{}", i), DownloadStatus::Queued)).collect();
        m.add_to_queue(items).unwrap();
        for _ in 0..20 {
            m.process_next_item();
            assert!(downloading(&m) <= cap);
        }
        assert_eq!(downloading(&m), cap);
        assert_eq!(m.active_downloads(), cap);
        m.finish_download("j0", DownloadOutcome::Succeeded);
        m.process_next_item();
        assert!(downloading(&m) <= cap);
    }
}

#[test]
fn cap_is_clamped() {
    let mut m = DownloadManager::new();
    assert_eq!(m.max_concurrent(), 3);
    m.set_max_concurrent(0);
    assert_eq!(m.max_concurrent(), 1);
    m.set_max_concurrent(9);
    assert_eq!(m.max_concurrent(), 5);
    m.set_max_concurrent(4);
    assert_eq!(m.max_concurrent(), 4);
}

#[test]
fn admission_takes_first_queued_by_position() {
    let mut m = DownloadManager::new();
    m.add_to_queue(vec![item("a", DownloadStatus::Queued), item("b", DownloadStatus::Queued)]).unwrap();
    m.reorder_queue(1, 0);
    let admitted = m.process_next_item().unwrap();
    assert_eq!(admitted.id, "b");
    assert_eq!(admitted.status, DownloadStatus::Downloading);
    assert_eq!(status_of(&m, "a"), DownloadStatus::Queued);
}

#[test]
fn enqueued_jobs_start_queued() {
    let mut m = DownloadManager::new();
    m.add_to_queue(vec![item("a", DownloadStatus::Completed)]).unwrap();
    assert_eq!(status_of(&m, "a"), DownloadStatus::Queued);
}

#[test]
fn duplicate_ids_are_refused() {
    let mut m = DownloadManager::new();
    m.add_to_queue(vec![item("a", DownloadStatus::Queued)]).unwrap();
    match m.add_to_queue(vec![item("b", DownloadStatus::Queued), item("a", DownloadStatus::Queued)]) {
        Err(QueueError::DuplicateId(id)) => assert_eq!(id, "a"),
        Ok(_) => panic!("duplicate accepted"),
    }
    assert_eq!(m.len(), 1);
    assert!(m.add_to_queue(vec![item("c", DownloadStatus::Queued), item("c", DownloadStatus::Queued)]).is_err());
    assert_eq!(m.len(), 1);
}

#[test]
fn queued_never_skips_to_completed() {
    let mut m = DownloadManager::new();
    m.add_to_queue(vec![item("a", DownloadStatus::Queued)]).unwrap();
    assert_eq!(m.finish_download("a", DownloadOutcome::Succeeded), None);
    assert_eq!(status_of(&m, "a"), DownloadStatus::Queued);
    m.process_next_item();
    assert_eq!(m.finish_download("a", DownloadOutcome::Succeeded), Some(DownloadStatus::Completed));
    assert_eq!(status_of(&m, "a"), DownloadStatus::Completed);
    assert!(!DownloadStatus::Queued.can_transition_to(DownloadStatus::Completed));
    assert!(DownloadStatus::Queued.can_transition_to(DownloadStatus::Downloading));
    assert!(DownloadStatus::Paused.can_transition_to(DownloadStatus::Queued));
    assert!(!DownloadStatus::Cancelled.can_transition_to(DownloadStatus::Queued));
}

#[test]
fn cancellation_wins_over_clean_exit() {
    let mut m = DownloadManager::new();
    m.add_to_queue(vec![item("a", DownloadStatus::Queued)]).unwrap();
    m.process_next_item();
    assert!(m.cancel_download("a"));
    assert!(m.is_cancelled("a"));
    assert_eq!(status_of(&m, "a"), DownloadStatus::Cancelled);
    assert_eq!(m.finish_download("a", DownloadOutcome::Succeeded), None);
    assert_eq!(status_of(&m, "a"), DownloadStatus::Cancelled);
    assert_eq!(m.active_downloads(), 0);
}

#[test]
fn failure_and_timeout_leave_messages() {
    let mut m = DownloadManager::new();
    m.add_to_queue(vec![item("a", DownloadStatus::Queued), item("b", DownloadStatus::Queued)]).unwrap();
    m.process_next_item();
    m.process_next_item();
    m.finish_download("a", DownloadOutcome::Failed("Download failed: exit 1".to_string()));
    m.finish_download("b", DownloadOutcome::TimedOut);
    let q = m.get_queue_status();
    assert_eq!(q[0].status, DownloadStatus::Failed);
    assert_eq!(q[0].error.as_deref(), Some("Download failed: exit 1"));
    assert_eq!(q[1].status, DownloadStatus::Failed);
    assert!(q[1].error.as_ref().unwrap().starts_with("Download timed out after 30 minutes"));
    assert_eq!(m.active_downloads(), 0);
}

#[test]
fn pause_resume_cancel_rules() {
    let mut m = DownloadManager::new();
    m.add_to_queue(vec![item("a", DownloadStatus::Queued), item("b", DownloadStatus::Queued)]).unwrap();
    m.process_next_item();
    assert!(m.update_progress("a", DownloadProgress {
        percentage: Decimal { mantissa: 458, scale: 1 },
        downloaded_bytes: 10,
        total_bytes: 100,
        speed: 2048,
        eta: 42,
    }));
    assert!(m.pause_download("a"));
    assert_eq!(status_of(&m, "a"), DownloadStatus::Paused);
    assert!(!m.pause_download("b"));
    assert_eq!(status_of(&m, "b"), DownloadStatus::Paused);
    assert_eq!(m.resume_download("a"), Some(false));
    let a = m.get_queue_status().into_iter().find(|i| i.id == "a").unwrap();
    assert_eq!(a.status, DownloadStatus::Queued);
    assert_eq!(a.progress, Decimal::whole(0));
    assert_eq!(a.speed, 0);
    assert_eq!(a.eta, 0);
    // the paused attempt is still winding down: "a" is not admitted again yet
    assert!(m.process_next_item().is_none());
    assert_eq!(m.finish_download("a", DownloadOutcome::Succeeded), None);
    assert_eq!(m.process_next_item().unwrap().id, "a");
    assert_eq!(m.resume_download("unknown"), None);
    assert!(!m.cancel_download("unknown"));
    m.finish_download("a", DownloadOutcome::Succeeded);
    assert!(!m.cancel_download("a"));
    assert!(!m.pause_download("a"));
    assert_eq!(status_of(&m, "a"), DownloadStatus::Completed);
}

#[test]
fn restore_requeues_interrupted_jobs() {
    let mut m = DownloadManager::new();
    let mut a = item("a", DownloadStatus::Downloading);
    a.progress = Decimal::whole(45);
    a.speed = 1000;
    a.eta = 30;
    let b = item("b", DownloadStatus::Completed);
    m.restore_queue_state(vec![a, b]).unwrap();
    let q = m.get_queue_status();
    assert_eq!(q[0].status, DownloadStatus::Queued);
    assert_eq!(q[0].progress, Decimal::whole(0));
    assert_eq!(q[0].speed, 0);
    assert_eq!(q[0].eta, 0);
    assert_eq!(q[1].status, DownloadStatus::Completed);
    assert_eq!(m.active_downloads(), 0);
    assert!(m.restore_queue_state(vec![item("x", DownloadStatus::Queued), item("x", DownloadStatus::Queued)]).is_err());
    assert_eq!(m.len(), 2);
}

#[test]
fn reorder_keeps_downloading_jobs() {
    let mut m = DownloadManager::new();
    m.set_max_concurrent(1);
    m.add_to_queue(vec![
        item("a", DownloadStatus::Queued),
        item("b", DownloadStatus::Queued),
        item("c", DownloadStatus::Queued),
    ]).unwrap();
    m.process_next_item();
    m.reorder_queue(0, 2);
    let ids: Vec<String> = m.get_queue_status().into_iter().map(|i| i.id).collect();
    assert_eq!(ids, vec!["b", "c", "a"]);
    assert_eq!(status_of(&m, "a"), DownloadStatus::Downloading);
    assert_eq!(downloading(&m), 1);
    m.reorder_queue(0, 7);
    let ids: Vec<String> = m.get_queue_status().into_iter().map(|i| i.id).collect();
    assert_eq!(ids, vec!["b", "c", "a"]);
}

#[test]
fn loop_admits_waits_and_stops() {
    let mut m = DownloadManager::new();
    assert!(m.start_processing());
    assert!(!m.start_processing());
    m.add_to_queue(vec![item("a", DownloadStatus::Queued)]).unwrap();
    assert_eq!(m.next_loop_action(), LoopAction::Admit);
    m.process_next_item();
    assert_eq!(m.next_loop_action(), LoopAction::Wait);
    m.finish_download("a", DownloadOutcome::Succeeded);
    assert_eq!(m.next_loop_action(), LoopAction::Stop);
    assert!(!m.is_processing());
}

#[test]
fn task_signal_is_idempotent() {
    let mut t = DownloadTask::new(item("a", DownloadStatus::Downloading));
    assert!(!t.is_cancelled());
    t.cancel();
    t.cancel();
    assert!(t.is_cancelled());
    assert_eq!(t.item().id, "a");
}

#[test]
fn recorded_progress_is_capped_and_never_lowered() {
    let mut m = DownloadManager::new();
    m.add_to_queue(vec![item("a", DownloadStatus::Queued)]).unwrap();
    m.process_next_item();
    let p = |mantissa: u64, scale: u32, speed: u64| DownloadProgress {
        percentage: Decimal { mantissa, scale },
        downloaded_bytes: 0,
        total_bytes: 0,
        speed,
        eta: 1,
    };
    m.update_progress("a", p(458, 1, 10));
    m.update_progress("a", p(12, 0, 20));
    let a = m.get_queue_status().remove(0);
    assert_eq!(a.progress, Decimal { mantissa: 458, scale: 1 });
    assert_eq!(a.speed, 20);
    m.update_progress("a", p(4581, 2, 30));
    assert_eq!(m.get_queue_status()[0].progress, Decimal { mantissa: 4581, scale: 2 });
    m.update_progress("a", p(1005, 1, 30));
    assert_eq!(m.get_queue_status()[0].progress, Decimal::whole(100));
    assert!(Decimal { mantissa: 5, scale: 0 }.at_most(&Decimal { mantissa: 50, scale: 1 }));
    assert!(!Decimal { mantissa: 51, scale: 1 }.at_most(&Decimal { mantissa: 5, scale: 0 }));
    assert!(Decimal { mantissa: 0, scale: 30 }.at_most(&Decimal { mantissa: 0, scale: 0 }));
    assert!(!Decimal { mantissa: 1, scale: 0 }.at_most(&Decimal { mantissa: 1, scale: 25 }));
}

#[test]
fn enqueue_resume_and_restore_start_the_loop() {
    let mut m = DownloadManager::new();
    assert!(!m.is_processing());
    assert_eq!(m.add_to_queue(vec![item("a", DownloadStatus::Queued)]).ok(), Some(true));
    assert!(m.is_processing());
    assert_eq!(m.add_to_queue(vec![item("b", DownloadStatus::Queued)]).ok(), Some(false));
    m.process_next_item();
    m.pause_download("a");
    m.finish_download("a", DownloadOutcome::Succeeded);
    m.cancel_download("b");
    assert_eq!(m.next_loop_action(), LoopAction::Stop);
    assert!(!m.is_processing());
    assert_eq!(m.resume_download("a"), Some(true));
    assert!(m.is_processing());
    assert_eq!(m.resume_download("a"), None);
    let mut fresh = DownloadManager::new();
    assert_eq!(fresh.restore_queue_state(vec![item("x", DownloadStatus::Downloading)]).ok(), Some(true));
    assert!(fresh.is_processing());
}
