use youtube_downloader_gui::progress::{Decimal, DownloadProgress};
use youtube_downloader_gui::throttle::ProgressThrottler;

fn progress(percent: u64) -> DownloadProgress {
    DownloadProgress { percentage: Decimal::whole(percent), downloaded_bytes: 0, total_bytes: 0, speed: 0, eta: 0 }
}

#[test]
fn test_throttle_basic() {
    let mut throttler = ProgressThrottler::new(100);
    assert!(throttler.should_update_at(1_000));
    assert!(!throttler.should_update_at(1_000));
    assert!(throttler.should_update_at(1_150));
}

#[test]
fn test_force_update() {
    let mut throttler = ProgressThrottler::new(100);
    throttler.should_update_at(1_000);
    throttler.force_update_at(1_050);
    assert!(!throttler.should_update_at(1_120));
    assert!(throttler.should_update_at(1_150));
}

#[test]
fn gate_at_exactly_the_interval() {
    let mut t = ProgressThrottler::with_default_interval();
    assert!(t.should_update_at(10));
    assert!(!t.should_update_at(509));
    assert!(t.should_update_at(510));
    // a clock that went back reads as no time passed
    assert!(!t.should_update_at(5));
}

#[test]
fn completion_always_passes() {
    let mut t = ProgressThrottler::new(500);
    assert!(t.throttled_call_at(&progress(10), 0));
    assert!(!t.throttled_call_at(&progress(20), 100));
    assert!(t.throttled_call_at(&progress(100), 200));
    assert!(t.throttled_call_at(&DownloadProgress { percentage: Decimal { mantissa: 1005, scale: 1 }, ..progress(0) }, 250));
    assert!(!t.throttled_call_at(&DownloadProgress { percentage: Decimal { mantissa: 999, scale: 1 }, ..progress(0) }, 300));
}

#[test]
fn wall_clock_gate() {
    let mut t = ProgressThrottler::new(60_000);
    assert!(t.should_update());
    assert!(!t.should_update());
    t.force_update();
    assert!(!t.should_update());
}
