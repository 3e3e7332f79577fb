use breeze_shell::geometry::Rect;
use breeze_shell::incident_log::IncidentLog;
use breeze_shell::performance::{FrameRate, PerformanceSnapshot};
use breeze_shell::performance_report::{
    detail_line_count, detail_lines, diagnostics_report, format_ms, graph_bars, metric_rows,
    performance_counter, FpsTone, QueueDepths, RendererStatus, TabDiagnostics,
};

fn snapshot(fps: Option<FrameRate>, last: Option<FrameRate>) -> PerformanceSnapshot {
    PerformanceSnapshot {
        fps,
        last_scroll_fps: last,
        frame_p95_us: 16_000,
        frame_maximum_us: 40_049,
        long_frames: 2,
        paint_time_us: 3_250,
        script_time_us: 0,
        style_time_us: 150,
        layout_time_us: 99_999,
        resource_time_us: 1,
        frame_history: vec![16_000, 17_140],
    }
}

fn renderer() -> RendererStatus {
    RendererStatus {
        state: "Ready".into(),
        process_id: 42,
        session_id: 7,
        context_id: 3,
        uptime_us: 9_000_000,
        last_pong_age_us: 1_500,
        active_task: Some("layout".into()),
        active_task_elapsed_us: Some(2_499),
        queues: QueueDepths {
            browser_commands: 1,
            renderer_commands: 2,
            renderer_messages: 3,
            browser_events: 4,
            state_updates: 5,
        },
        working_set: 100,
        private_memory: 200,
        peak_working_set: 300,
        handle_count: 12,
        cpu_ticks: 99,
        pending_state_updates: 0,
        submitted_state_updates: 10,
        coalesced_state_updates: 2,
        exit_reason: "None".into(),
    }
}

#[test]
fn durations_read_as_milliseconds_with_one_decimal() {
    assert_eq!(format_ms(0), "0.0 ms");
    assert_eq!(format_ms(16_049), "16.0 ms");
    assert_eq!(format_ms(16_051), "16.1 ms");
    assert_eq!(format_ms(16_250), "16.2 ms");
    assert_eq!(format_ms(16_750), "16.8 ms");
    assert_eq!(format_ms(1_234_567), "1234.6 ms");
}

#[test]
fn metric_rows_show_the_running_or_last_scroll_rate() {
    let rate = FrameRate { intervals: 60, elapsed_us: 955_000 };
    let rows = metric_rows(&snapshot(Some(rate), None));
    assert_eq!(rows.len(), 9);
    assert_eq!((rows[0].label.as_str(), rows[0].value.as_str()), ("Scroll FPS", "63"));
    assert_eq!(rows[1].value, "16.0 ms");
    assert_eq!(rows[3].value, "2");
    assert_eq!(rows[7].value, "100.0 ms");
    let rows = metric_rows(&snapshot(None, Some(rate)));
    assert_eq!(rows[0].value, "63 (last)");
    let rows = metric_rows(&snapshot(None, None));
    assert_eq!(rows[0].value, "idle");
}

#[test]
fn counter_caps_the_rate_and_colours_it_by_threshold() {
    let (label, tone) = performance_counter(&snapshot(Some(FrameRate { intervals: 60, elapsed_us: 1_000_000 }), None));
    assert_eq!((label.as_str(), tone), ("FPS 60", FpsTone::Good));
    let (label, tone) = performance_counter(&snapshot(None, Some(FrameRate { intervals: 4, elapsed_us: 1_000_000 })));
    assert_eq!((label.as_str(), tone), ("FPS  4", FpsTone::Poor));
    let (label, tone) = performance_counter(&snapshot(Some(FrameRate { intervals: 45, elapsed_us: 1_000_000 }), None));
    assert_eq!((label.as_str(), tone), ("FPS 45", FpsTone::Fair));
    let (label, _) = performance_counter(&snapshot(Some(FrameRate { intervals: 5_000, elapsed_us: 1_000_000 }), None));
    assert_eq!(label, "FPS 999");
    let (label, _) = performance_counter(&snapshot(Some(FrameRate { intervals: 5, elapsed_us: 2_000_000 }), None));
    assert_eq!(label, "FPS  2");
    let (label, _) = performance_counter(&snapshot(Some(FrameRate { intervals: 7, elapsed_us: 2_000_000 }), None));
    assert_eq!(label, "FPS  4");
    let (label, tone) = performance_counter(&snapshot(None, None));
    assert_eq!((label.as_str(), tone), ("FPS --", FpsTone::Muted));
}

#[test]
fn detail_lines_put_the_summary_before_recent_incidents() {
    let mut incidents = IncidentLog::new();
    incidents.navigations = 2;
    incidents.record("net", "done", 1_000);
    let lines = detail_lines(&Some(renderer()), &incidents);
    assert_eq!(lines.len(), 6);
    assert_eq!(lines[0], ("Renderer: Ready \u{00b7} PID 42 \u{00b7} pong 2 ms".to_string(), true));
    assert_eq!(lines[1].0, "Active task: layout \u{00b7} 2 ms");
    assert_eq!(lines[2].0, "Queues: commands 1 \u{00b7} IPC out/in 2/3 \u{00b7} events 4 \u{00b7} state 5");
    assert_eq!(lines[3].0, "State sync: 0 pending \u{00b7} 10 submitted \u{00b7} 2 coalesced");
    assert_eq!(lines[4].0, "Activity: 2 nav \u{00b7} 0 presentations \u{00b7} 0 runtime \u{00b7} 0 fetch batches");
    assert!(!lines[5].1);
    assert!(lines[5].0.ends_with("net        done"));
    let lines = detail_lines(&None, &IncidentLog::new());
    assert_eq!(lines[0].0, "Renderer: unavailable");
    assert_eq!(lines[1].0, "Active task: unavailable");
    assert_eq!(detail_line_count(3), 8);
    assert_eq!(detail_line_count(500), 69);
}

#[test]
fn report_lists_every_section_in_order() {
    let tab = TabDiagnostics {
        version: "0.1.0".into(),
        url: "https://example.test/".into(),
        captured_unix_ms: 1_700_000_000_000,
        status_text: "Done".into(),
        crashed: false,
        history_len: 3,
        history_index: 2,
        revision: 9,
        work_pending: true,
        next_timer_us: Some(16_700),
    };
    let incidents = IncidentLog::new();
    let report = diagnostics_report(&tab, &Some(renderer()), &snapshot(Some(FrameRate { intervals: 1, elapsed_us: 3 }), None), &incidents);
    assert!(report.starts_with("Breeze incident diagnostics\nVersion: 0.1.0\nURL: https://example.test/\n"));
    assert!(report.contains("Document: revision=9, work_pending=true, next_timer_ms=16.7\n\nRenderer\nState: Ready; PID: 42; session: 7; context: 3\n"));
    assert!(report.contains("Uptime: 9000.0 ms; last pong age: 1.5 ms\n"));
    assert!(report.contains("FPS (active scroll): 333333.3\nLast completed scroll FPS: unavailable\n"));
    assert!(report.contains("Frame intervals (ms, oldest to newest): 16.0, 17.1\n\nIncident history\nCounters: navigations=0"));
    let report = diagnostics_report(&tab, &None, &snapshot(None, None), &incidents);
    assert!(report.contains("\nRenderer\nUnavailable\n\nPerformance (rolling 2 s)\nFPS (active scroll): idle\n"));
}

#[test]
fn graph_bars_share_the_width_and_mark_long_frames() {
    let graph = Rect { left: 10, top: 0, right: 110, bottom: 50 };
    let bars = graph_bars(graph, &vec![16_000, 40_000, 0]);
    assert_eq!(bars.len(), 3);
    assert_eq!(bars[0].rect, Rect { left: 10, top: 26, right: 43, bottom: 50 });
    assert!(!bars[0].long);
    assert_eq!(bars[1].rect, Rect { left: 43, top: 0, right: 76, bottom: 50 });
    assert!(bars[1].long);
    assert_eq!(bars[2].rect, Rect { left: 76, top: 48, right: 109, bottom: 50 });
}
