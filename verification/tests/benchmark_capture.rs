use breeze_shell::benchmark::BenchmarkRun;
use breeze_shell::diagnostics::{media_runtime_json, MediaRuntimeReport, PageTitles, MAX_DIAGNOSTIC_TITLE_BYTES};
use breeze_shell::early_scroll::{ActivityDelta, EarlyScrollSample, TraceSummary};
use breeze_shell::filmstrip::Filmstrip;
use breeze_shell::runtime_timeline::{RuntimeTimeline, MAX_RUNTIME_TIMELINE_SAMPLES};
use breeze_shell::video::{MediaState, VideoCadence};

fn json(text: &str) -> serde_json::Value {
    serde_json::from_str(text).unwrap()
}

#[test]
fn report_keeps_renderer_title_independent_from_browser_tab_title() {
    let mut titles = PageTitles::new();
    assert_eq!(json(&titles.json("Loading"))["document_title"], serde_json::Value::Null);

    titles.record_document_title("First document");
    titles.record_document_title("Second \"document\"\n☃");
    let serialized = titles.json("First document");
    let report = json(&serialized);
    assert_eq!(report["document_title"], "Second \"document\"\n☃");
    assert_eq!(report["browser_title"], "First document");
    assert_eq!(report["document_title_truncated"], false);
    assert_eq!(report["browser_title_truncated"], false);
}

#[test]
fn report_bounds_both_titles_at_utf8_boundaries_and_marks_truncation() {
    let long_title = format!("{}☃tail", "a".repeat(MAX_DIAGNOSTIC_TITLE_BYTES - 1));
    let mut titles = PageTitles::new();
    titles.record_document_title(&long_title);
    let report = json(&titles.json(&long_title));
    for field in ["document_title", "browser_title"] {
        assert_eq!(report[field], "a".repeat(MAX_DIAGNOSTIC_TITLE_BYTES - 1));
    }
    assert_eq!(report["document_title_truncated"], true);
    assert_eq!(report["browser_title_truncated"], true);

    titles.record_document_title("");
    let report = json(&titles.json(&"b".repeat(MAX_DIAGNOSTIC_TITLE_BYTES)));
    assert_eq!(report["document_title"], "");
    assert_eq!(report["document_title_truncated"], false);
    assert_eq!(report["browser_title_truncated"], false);
}

fn sample(timestamp_ms: u64, latency_ms: u64) -> EarlyScrollSample {
    EarlyScrollSample {
        scheduled_us: timestamp_ms * 1_000,
        handled_us: timestamp_ms * 1_000,
        input_to_paint_us: latency_ms * 1_000,
        frame_work_us: 4_000,
        scroll_y: 0,
        activity: ActivityDelta::default(),
    }
}

#[test]
fn detects_a_continuous_input_backlog() {
    let samples = (16..=5_000)
        .step_by(16)
        .map(|timestamp| {
            let latency = if (512..=1_008).contains(&timestamp) { 120 } else { 4 };
            sample(timestamp, latency)
        })
        .collect::<Vec<_>>();
    let summary = TraceSummary::from_samples(&samples);

    assert!(summary.longest_below_30_fps_us >= 496_000);
    assert!(summary.maximum_input_to_paint_us >= 120_000);
    assert!(!summary.meets_acceptance);
}

#[test]
fn a_smooth_trace_meets_acceptance_and_serializes() {
    let samples = (16..=5_000).step_by(16).map(|timestamp| sample(timestamp, 4)).collect::<Vec<_>>();
    let summary = TraceSummary::from_samples(&samples);
    assert!(summary.meets_acceptance);
    assert_eq!(summary.time_to_smooth_us, 256_000);
    let report = json(&summary.to_json());
    assert_eq!(report["meets_acceptance"], true);
    assert_eq!(report["median_frame_work_ms"], 4.0);
}

#[test]
fn retained_anchor_survives_later_document_navigations() {
    let mut filmstrip = Filmstrip::new("frames".to_string(), 500, 5_000).unwrap();
    let now = 1_000_000_u64;
    assert_eq!(filmstrip.remaining(now), None);
    filmstrip.started_us = Some(now);
    let remaining = filmstrip.remaining(now).unwrap();
    assert!(remaining > 5_000_000);
    assert!(remaining <= 5_250_000);
}

#[test]
fn filmstrip_schedules_need_a_whole_number_of_frames() {
    assert!(Filmstrip::new("f".to_string(), 0, 1_000).is_err());
    assert!(Filmstrip::new("f".to_string(), 300, 1_000).is_err());
    assert!(Filmstrip::new("f".to_string(), 10, 1_300).is_err());
    let filmstrip = Filmstrip::new("f".to_string(), 250, 1_000).unwrap();
    assert_eq!(filmstrip.path(0), None);
    assert_eq!(filmstrip.path(2).unwrap().1, 500);
    assert_eq!(filmstrip.path(5), None);
}

#[test]
fn completion_marker_finishes_once_and_preserves_console_history() {
    let mut benchmark = BenchmarkRun::new(
        "https://example.test".into(),
        "report.json".into(),
        None,
        10_000,
        Some("__DONE__".into()),
        0,
        false,
        Vec::new(),
        1280,
        720,
        0,
    );

    assert!(!benchmark.record_script_console(&vec!["starting".into()]));
    assert!(benchmark.record_script_console(&vec!["log: __DONE__{}".into()]));
    assert!(!benchmark.record_script_console(&vec!["log: __DONE__{}".into()]));
    assert_eq!(
        benchmark.script_console,
        ["starting".to_string(), "log: __DONE__{}".to_string(), "log: __DONE__{}".to_string()]
    );
}

#[test]
fn runtime_timeline_is_bounded_and_serializes_milliseconds() {
    let mut timeline = RuntimeTimeline::new();
    timeline.record(None, 1, 1, 1, 1, true);
    assert!(timeline.samples.is_empty());
    timeline.record(Some(1_500), 2, 3, 250, 7, false);
    assert_eq!(
        timeline.to_json(),
        "[\n    {\"elapsed_ms\": 1.500, \"scripts\": 2, \"mutations\": 3, \"script_ms\": 0.250, \"script_fetch_wait_ms\": 0.007, \"rendered\": false}\n  ]"
    );
    for _ in 0..MAX_RUNTIME_TIMELINE_SAMPLES + 3 {
        timeline.record(Some(1), 0, 0, 0, 0, true);
    }
    assert_eq!(timeline.samples.len(), MAX_RUNTIME_TIMELINE_SAMPLES);
    assert_eq!(RuntimeTimeline::new().to_json(), "[\n\n  ]");
}

#[test]
fn media_report_is_valid_json_with_seconds() {
    assert_eq!(media_runtime_json(None), "null");
    let media = MediaRuntimeReport {
        active: true,
        playing: false,
        ended: true,
        current_time_100ns: 12_345_678,
        duration_100ns: 600_000_000,
        backend: "mf".into(),
        mime_type: "video/mp4".into(),
        video_codec: "h264\"x".into(),
        audio_codec: String::new(),
        encoded_queue_bytes: 1,
        encoded_queue_limit_bytes: 2,
        decoded_frame_queue_depth: 3,
        decoded_frame_queue_limit: 4,
        frames_submitted: 5,
        dropped_frames: 6,
        width: 640,
        height: 360,
        failure: None,
    };
    let text = media_runtime_json(Some(&media));
    assert!(text.contains("\"current_time_seconds\":1.235,\"duration_seconds\":60.000"));
    let report = json(&text);
    assert_eq!(report["video_codec"], "h264\"x");
    assert_eq!(report["failure"], serde_json::Value::Null);
    assert_eq!(report["width"], 640);
}

#[test]
fn video_cadence_counts_intervals_and_keeps_state_changes() {
    let mut cadence = VideoCadence::new();
    cadence.painted(1_000_000);
    cadence.painted(1_016_000);
    cadence.painted(1_056_000);
    let playing = MediaState { playing: true, ended: false, current_time_100ns: 10_000_000 };
    cadence.observe(2_000, Some(playing));
    cadence.observe(3_000, Some(playing));
    cadence.observe(4_000, None);
    let report = json(&cadence.json());
    assert_eq!(report["painted_frames"], 3);
    assert_eq!(report["interval_p95_ms_capped_at_1000"], 40);
    assert_eq!(report["maximum_interval_ms"], 40.0);
    assert_eq!(report["fps"], 35.714);
    assert_eq!(report["state_transitions"].as_array().unwrap().len(), 1);
    assert_eq!(report["state_transitions"][0]["position_seconds"], 1.0);
}
