use mirrorstar_core::perf::{FramePerfTracker, FrameReport};

const MS: u128 = 1_000_000;

#[test]
fn fps_tracker_counts_frames_and_reports() {
    let mut tracker = FramePerfTracker::new("test", 3, 100, 0);
    tracker.record_frame(100000000, 100000000);
    tracker.record_frame(200000000, 200000000);
    tracker.record_frame(300000000, 300000000);
    assert_eq!(tracker.frames_since_report, 0);
}

#[test]
fn fps_tracker_reset_clears_state() {
    let mut tracker = FramePerfTracker::new("test", 100, 100, 0);
    tracker.record_frame(400000000, 400000000);
    tracker.record_frame(500000000, 500000000);
    assert_eq!(tracker.frames_since_report, 2);
    tracker.reset(600_000_000);
    assert_eq!(tracker.frames_since_report, 0);
    assert!(tracker.last_frame.is_none());
}

#[test]
fn fps_tracker_records_paint_stats() {
    let mut tracker = FramePerfTracker::new("test", 100, 100, 0);
    tracker.record_paint(500);
    tracker.record_paint(800);
    assert_eq!(tracker.paint_count, 2);
    assert_eq!(tracker.paint_total_us, 1300);
    assert_eq!(tracker.paint_max_us, 800);
}

#[test]
fn fps_tracker_slow_threshold_floor() {
    let tracker = FramePerfTracker::new("test", 100, 0, 0);
    assert!(tracker.slow_threshold_ms >= 33);
}

#[test]
fn a_summary_counts_slow_frames_and_paintings() {
    let mut tracker = FramePerfTracker::new("test", 3, 100, 0);
    assert_eq!(tracker.slow_threshold_ms, 166);
    tracker.record_paint(500);
    assert_eq!(tracker.record_frame(100 * MS, 100 * MS), None);
    assert_eq!(tracker.record_frame(400 * MS, 400 * MS), None);
    tracker.record_paint(700);
    assert_eq!(
        tracker.record_frame(500 * MS, 501 * MS),
        Some(FrameReport {
            frames: 3,
            slow_frames: 1,
            elapsed_nanos: 501 * MS,
            paint_total_us: 1200,
            paint_max_us: 700,
            paint_count: 2,
        })
    );
    assert_eq!(tracker.paint_count, 0);
}

#[test]
fn the_slow_threshold_follows_the_delay() {
    assert_eq!(FramePerfTracker::new("test", 100, 0, 0).slow_threshold_ms, 33);
    assert_eq!(FramePerfTracker::new("test", 100, 12, 0).slow_threshold_ms, 34);
    assert_eq!(FramePerfTracker::new("test", 100, 1000, 0).slow_threshold_ms, 1516);
}

#[test]
fn the_count_starts_anew_on_every_nth_frame() {
    for n in 1..6 {
        let mut tracker = FramePerfTracker::new("test", n, 100, 0);
        for k in 1..20 {
            tracker.record_paint(k as u128);
            let at = k as u128 * MS;
            assert_eq!(tracker.record_frame(at, at).is_some(), k % n == 0);
            assert_eq!(tracker.frames_since_report, k % n);
        }
    }
}

#[test]
fn the_order_of_paintings_makes_no_difference() {
    for order in [[500, 800, 20], [800, 20, 500], [20, 500, 800]] {
        let mut tracker = FramePerfTracker::new("test", 100, 100, 0);
        for us in order {
            tracker.record_paint(us);
            tracker.record_frame(us * MS, us * MS);
        }
        assert_eq!(tracker.paint_count, 3);
        assert_eq!(tracker.paint_total_us, 1320);
        assert_eq!(tracker.paint_max_us, 800);
        assert_eq!(tracker.frames_since_report, 3);
    }
}

#[test]
fn a_frame_that_comes_very_late_is_slow() {
    let mut tracker = FramePerfTracker::new("test", 100, 100, 0);
    tracker.record_frame(0, 0);
    let at = (1u128 << 32) * MS;
    tracker.record_frame(at, at);
    assert_eq!(tracker.slow_frames_since_report, 1);
    let in_time = at + 167 * MS - 1;
    tracker.record_frame(in_time, in_time);
    assert_eq!(tracker.slow_frames_since_report, 1);
}
