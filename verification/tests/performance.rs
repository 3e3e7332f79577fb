use breeze_shell::performance::{FrameRate, TabPerformance, LAST_SCROLL_FPS_VISIBLE_FOR_US};

fn fps(rate: FrameRate) -> f64 {
    rate.intervals as f64 * 1_000_000.0 / rate.elapsed_us as f64
}

const MS: u64 = 1_000;

#[test]
fn snapshot_reports_recent_frames_and_ignores_idle_history() {
    let start = 10_000 * MS;
    let mut performance = TabPerformance::new();
    performance.begin_frame_sequence(start);
    for index in 0..=60 {
        performance.record_frame(start + index * 16 * MS, 4 * MS);
    }
    performance.end_frame_sequence(start + 960 * MS);
    let active = performance.snapshot(start + 960 * MS);
    assert!(active.fps.is_some_and(|rate| (62.0..=63.0).contains(&fps(rate))));
    assert_eq!(active.frame_p95_us, 16 * MS);

    let idle = performance.snapshot(start + 2_000 * MS);
    assert_eq!(idle.fps, None);
    assert!(idle.last_scroll_fps.is_some_and(|rate| (62.0..=63.0).contains(&fps(rate))));
}

#[test]
fn fps_uses_the_current_animation_instead_of_an_older_idle_gap() {
    let start = 10_000 * MS;
    let mut performance = TabPerformance::new();
    performance.record_frame(start, 4 * MS);
    let animation = start + 500 * MS;
    performance.begin_frame_sequence(animation);
    for index in 0..=12 {
        performance.record_frame(animation + index * 16 * MS, 3 * MS);
    }
    performance.end_frame_sequence(animation + 192 * MS);
    let snapshot = performance.snapshot(animation + 200 * MS);
    assert!(snapshot.fps.is_some_and(|rate| (62.0..=63.0).contains(&fps(rate))));
    assert!(snapshot.last_scroll_fps.is_some_and(|rate| (62.0..=63.0).contains(&fps(rate))));
    assert_eq!(snapshot.frame_maximum_us, 500 * MS);
}

#[test]
fn completed_scroll_fps_expires_instead_of_following_a_tab_forever() {
    let start = 10_000 * MS;
    let mut performance = TabPerformance::new();
    performance.begin_frame_sequence(start);
    for index in 0..=12 {
        performance.record_frame(start + index * 16 * MS, 3 * MS);
    }
    performance.end_frame_sequence(start + 192 * MS);

    let expired = performance.snapshot(start + LAST_SCROLL_FPS_VISIBLE_FOR_US + 1_000 * MS);
    assert_eq!(expired.last_scroll_fps, None);
}

#[test]
fn snapshot_sums_recent_paint_and_counts_long_frames() {
    let start = 10_000 * MS;
    let mut performance = TabPerformance::new();
    performance.record_frame(start, 2 * MS);
    performance.record_frame(start + 50 * MS, 3 * MS);
    performance.record_frame(start + 60 * MS, 5 * MS);
    let snapshot = performance.snapshot(start + 100 * MS);
    assert_eq!(snapshot.paint_time_us, 10 * MS);
    assert_eq!(snapshot.long_frames, 1);
    assert_eq!(snapshot.frame_history, vec![50 * MS, 10 * MS]);
    assert_eq!(snapshot.frame_maximum_us, 50 * MS);
}
