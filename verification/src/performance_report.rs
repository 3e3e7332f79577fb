//! The text of the diagnostics panel and of the report copied from it, and
//! the frame-interval graph's bars.
use crate::geometry::Rect;
use crate::incident_log::IncidentLog;
use crate::performance::{FrameRate, PerformanceSnapshot};
use crate::float_decimal::{decimal_places, per_second_f64, per_second_places};
use crate::text::{
    decimal, millis0, millis1, push_decimal, push_decimal_wide, push_millis0, push_millis1, push_str,
    string_of,
};
use vstd::prelude::*;

verus! {

/// Queue depths of the renderer's broker.
#[derive(Clone, Copy, Debug, PartialEq, Eq, Structural)]
pub struct QueueDepths {
    pub browser_commands: u64,
    pub renderer_commands: u64,
    pub renderer_messages: u64,
    pub browser_events: u64,
    pub state_updates: u64,
}

/// What the browser last learned about a tab's renderer process.
pub struct RendererStatus {
    /// The process state's name.
    pub state: String,
    pub process_id: u64,
    pub session_id: u64,
    pub context_id: u64,
    pub uptime_us: u64,
    pub last_pong_age_us: u64,
    pub active_task: Option<String>,
    pub active_task_elapsed_us: Option<u64>,
    pub queues: QueueDepths,
    pub working_set: u64,
    pub private_memory: u64,
    pub peak_working_set: u64,
    pub handle_count: u64,
    pub cpu_ticks: u64,
    pub pending_state_updates: u64,
    pub submitted_state_updates: u64,
    pub coalesced_state_updates: u64,
    /// The exit reason's description (`None` while running).
    pub exit_reason: String,
}

/// The tab's own state at the time of the report.
pub struct TabDiagnostics {
    pub version: String,
    pub url: String,
    pub captured_unix_ms: u64,
    pub status_text: String,
    pub crashed: bool,
    pub history_len: u64,
    pub history_index: u64,
    pub revision: u64,
    pub work_pending: bool,
    pub next_timer_us: Option<u64>,
}

pub open spec fn bool_text(b: bool) -> Seq<char> {
    if b {
        "true"@
    } else {
        "false"@
    }
}

/// A duration in microseconds as milliseconds with one decimal.
pub open spec fn ms_text(us: nat) -> Seq<char> {
    millis1(us) + " ms"@
}

/// Frames per second as the monitor shows them, with `places` decimals
/// (0 or 1); an empty measurement reads as the float division would.
pub open spec fn fps_text(rate: FrameRate, places: nat) -> Seq<char> {
    if rate.elapsed_us == 0 {
        if rate.intervals == 0 {
            "NaN"@
        } else {
            "inf"@
        }
    } else if places == 0 {
        decimal(decimal_places(per_second_f64(rate.intervals as nat, rate.elapsed_us as nat), 1))
    } else {
        let q = decimal_places(per_second_f64(rate.intervals as nat, rate.elapsed_us as nat), 10);
        decimal(q / 10) + seq!['.'] + decimal(q % 10)
    }
}

/// `duration_us` as `"x.y ms"`.
pub fn format_ms(duration_us: u64) -> (s: String)
    ensures
        s@ == ms_text(duration_us as nat),
{
    let mut v: Vec<char> = Vec::new();
    push_millis1(&mut v, duration_us);
    push_str(&mut v, " ms");
    string_of(v.as_slice())
}

fn push_fps(out: &mut Vec<char>, rate: FrameRate, places: usize)
    requires
        places <= 1,
    ensures
        final(out)@ == old(out)@ + fps_text(rate, places as nat),
{
    if rate.elapsed_us == 0 {
        if rate.intervals == 0 {
            push_str(out, "NaN");
        } else {
            push_str(out, "inf");
        }
    } else if places == 0 {
        push_decimal_wide(out, per_second_places(rate.intervals as u64, rate.elapsed_us, 1));
    } else {
        let q = per_second_places(rate.intervals as u64, rate.elapsed_us, 10);
        push_decimal_wide(out, q / 10);
        out.push('.');
        push_decimal_wide(out, q % 10);
    }
}

fn push_ms(out: &mut Vec<char>, us: u64)
    ensures
        final(out)@ == old(out)@ + ms_text(us as nat),
{
    push_millis1(out, us);
    push_str(out, " ms");
    assert(final(out)@ =~= old(out)@ + ms_text(us as nat));
}

fn push_bool(out: &mut Vec<char>, b: bool)
    ensures
        final(out)@ == old(out)@ + bool_text(b),
{
    if b {
        push_str(out, "true");
    } else {
        push_str(out, "false");
    }
}

/// The report's opening lines about the tab.
pub open spec fn tab_section(t: TabDiagnostics) -> Seq<char> {
    "Breeze incident diagnostics\n"@ + "Version: "@ + t.version@ + "\n"@ + "URL: "@ + t.url@ + "\n"@
        + "Captured (Unix ms): "@ + decimal(t.captured_unix_ms as nat) + "\n"@ + "Tab status: "@
        + t.status_text@ + "\n"@ + "Crashed: "@ + bool_text(t.crashed) + "\n"@ + "History: "@
        + decimal(t.history_len as nat) + " entries, index "@ + decimal(t.history_index as nat)
        + "\n"@ + "Document: revision="@ + decimal(t.revision as nat) + ", work_pending="@
        + bool_text(t.work_pending) + ", next_timer_ms="@ + (match t.next_timer_us {
        Some(us) => millis1(us as nat),
        None => "none"@,
    }) + "\n"@
}

fn tab_text(t: &TabDiagnostics) -> (v: Vec<char>)
    ensures
        v@ == tab_section(*t),
{
    let mut v: Vec<char> = Vec::new();
    let out = &mut v;
    push_str(out, "Breeze incident diagnostics\n");
    assert(out@ =~= "Breeze incident diagnostics\n"@);
    push_str(out, "Version: ");
    push_str(out, t.version.as_str());
    push_str(out, "\n");
    push_str(out, "URL: ");
    push_str(out, t.url.as_str());
    push_str(out, "\n");
    push_str(out, "Captured (Unix ms): ");
    push_decimal(out, t.captured_unix_ms);
    push_str(out, "\n");
    push_str(out, "Tab status: ");
    push_str(out, t.status_text.as_str());
    push_str(out, "\n");
    push_str(out, "Crashed: ");
    push_bool(out, t.crashed);
    push_str(out, "\n");
    push_str(out, "History: ");
    push_decimal(out, t.history_len);
    push_str(out, " entries, index ");
    push_decimal(out, t.history_index);
    push_str(out, "\n");
    push_str(out, "Document: revision=");
    push_decimal(out, t.revision);
    push_str(out, ", work_pending=");
    push_bool(out, t.work_pending);
    push_str(out, ", next_timer_ms=");
    match t.next_timer_us {
        Some(us) => push_millis1(out, us),
        None => push_str(out, "none"),
    }
    push_str(out, "\n");
    v
}

/// The report's lines about the renderer process.
pub open spec fn renderer_section(r: Option<RendererStatus>) -> Seq<char> {
    match r {
        None => "Unavailable\n"@,
        Some(r) => "State: "@ + r.state@ + "; PID: "@ + decimal(r.process_id as nat) + "; session: "@
            + decimal(r.session_id as nat) + "; context: "@ + decimal(r.context_id as nat) + "\n"@
            + "Uptime: "@ + ms_text(r.uptime_us as nat) + "; last pong age: "@ + ms_text(
            r.last_pong_age_us as nat,
        ) + "\n"@ + "Active task: "@ + (match r.active_task {
            Some(task) => task@,
            None => "idle"@,
        }) + "; elapsed: "@ + (match r.active_task_elapsed_us {
            Some(us) => ms_text(us as nat),
            None => "n/a"@,
        }) + "\n"@ + "Queue depths: browser commands="@ + decimal(r.queues.browser_commands as nat)
            + "; renderer commands="@ + decimal(r.queues.renderer_commands as nat)
            + "; renderer messages="@ + decimal(r.queues.renderer_messages as nat)
            + "; browser events="@ + decimal(r.queues.browser_events as nat) + "; state updates="@
            + decimal(r.queues.state_updates as nat) + "\n"@ + "Memory: working_set="@ + decimal(
            r.working_set as nat,
        ) + " bytes; private="@ + decimal(r.private_memory as nat) + " bytes; peak="@ + decimal(
            r.peak_working_set as nat,
        ) + " bytes; handles="@ + decimal(r.handle_count as nat) + "\n"@ + "CPU ticks: "@ + decimal(
            r.cpu_ticks as nat,
        ) + "\n"@ + "State sync: pending="@ + decimal(r.pending_state_updates as nat)
            + "; submitted="@ + decimal(r.submitted_state_updates as nat) + "; coalesced="@
            + decimal(r.coalesced_state_updates as nat) + "\n"@ + "Exit reason: "@ + r.exit_reason@
            + "\n"@,
    }
}

fn renderer_text(r: &Option<RendererStatus>) -> (v: Vec<char>)
    ensures
        v@ == renderer_section(*r),
{
    let mut v: Vec<char> = Vec::new();
    match r {
        None => {
            push_str(&mut v, "Unavailable\n");
            assert(v@ =~= "Unavailable\n"@);
        },
        Some(r) => {
            let out = &mut v;
            push_str(out, "State: ");
            assert(out@ =~= "State: "@);
            push_str(out, r.state.as_str());
            push_str(out, "; PID: ");
            push_decimal(out, r.process_id);
            push_str(out, "; session: ");
            push_decimal(out, r.session_id);
            push_str(out, "; context: ");
            push_decimal(out, r.context_id);
            push_str(out, "\n");
            push_str(out, "Uptime: ");
            push_ms(out, r.uptime_us);
            push_str(out, "; last pong age: ");
            push_ms(out, r.last_pong_age_us);
            push_str(out, "\n");
            push_str(out, "Active task: ");
            match &r.active_task {
                Some(task) => push_str(out, task.as_str()),
                None => push_str(out, "idle"),
            }
            push_str(out, "; elapsed: ");
            match r.active_task_elapsed_us {
                Some(us) => push_ms(out, us),
                None => push_str(out, "n/a"),
            }
            push_str(out, "\n");
            push_str(out, "Queue depths: browser commands=");
            push_decimal(out, r.queues.browser_commands);
            push_str(out, "; renderer commands=");
            push_decimal(out, r.queues.renderer_commands);
            push_str(out, "; renderer messages=");
            push_decimal(out, r.queues.renderer_messages);
            push_str(out, "; browser events=");
            push_decimal(out, r.queues.browser_events);
            push_str(out, "; state updates=");
            push_decimal(out, r.queues.state_updates);
            push_str(out, "\n");
            push_str(out, "Memory: working_set=");
            push_decimal(out, r.working_set);
            push_str(out, " bytes; private=");
            push_decimal(out, r.private_memory);
            push_str(out, " bytes; peak=");
            push_decimal(out, r.peak_working_set);
            push_str(out, " bytes; handles=");
            push_decimal(out, r.handle_count);
            push_str(out, "\n");
            push_str(out, "CPU ticks: ");
            push_decimal(out, r.cpu_ticks);
            push_str(out, "\n");
            push_str(out, "State sync: pending=");
            push_decimal(out, r.pending_state_updates);
            push_str(out, "; submitted=");
            push_decimal(out, r.submitted_state_updates);
            push_str(out, "; coalesced=");
            push_decimal(out, r.coalesced_state_updates);
            push_str(out, "\n");
            push_str(out, "Exit reason: ");
            push_str(out, r.exit_reason.as_str());
            push_str(out, "\n");
        },
    }
    v
}

/// Frame intervals in milliseconds with one decimal, separated by `", "`.
pub open spec fn interval_list(h: Seq<u64>) -> Seq<char>
    decreases h.len(),
{
    if h.len() == 0 {
        Seq::empty()
    } else if h.len() == 1 {
        millis1(h[0] as nat)
    } else {
        interval_list(h.drop_last()) + ", "@ + millis1(h.last() as nat)
    }
}

/// The report's lines about frame pacing and work over the last two seconds.
pub open spec fn performance_section(s: PerformanceSnapshot) -> Seq<char> {
    "FPS (active scroll): "@ + (match s.fps {
        Some(r) => fps_text(r, 1),
        None => "idle"@,
    }) + "\n"@ + "Last completed scroll FPS: "@ + (match s.last_scroll_fps {
        Some(r) => fps_text(r, 1),
        None => "unavailable"@,
    }) + "\n"@ + "Frame interval p95: "@ + ms_text(s.frame_p95_us as nat) + "\n"@
        + "Slowest interval: "@ + ms_text(s.frame_maximum_us as nat) + "\n"@
        + "Long frames (>33 ms): "@ + decimal(s.long_frames as nat) + "\n"@ + "Paint: "@ + ms_text(
        s.paint_time_us as nat,
    ) + "\n"@ + "JavaScript: "@ + ms_text(s.script_time_us as nat) + "\n"@ + "Style: "@ + ms_text(
        s.style_time_us as nat,
    ) + "\n"@ + "Layout: "@ + ms_text(s.layout_time_us as nat) + "\n"@ + "Resources: "@ + ms_text(
        s.resource_time_us as nat,
    ) + "\n"@ + "Frame intervals (ms, oldest to newest): "@ + interval_list(s.frame_history@) + "\n"@
}

fn performance_text(s: &PerformanceSnapshot) -> (v: Vec<char>)
    ensures
        v@ == performance_section(*s),
{
    let mut list: Vec<char> = Vec::new();
    let mut i: usize = 0;
    while i < s.frame_history.len()
        invariant
            i <= s.frame_history@.len(),
            list@ == interval_list(s.frame_history@.take(i as int)),
        decreases s.frame_history@.len() - i,
    {
        proof {
            assert(s.frame_history@.take(i + 1).drop_last() =~= s.frame_history@.take(i as int));
        }
        if i > 0 {
            push_str(&mut list, ", ");
        }
        push_millis1(&mut list, s.frame_history[i]);
        proof {
            if i == 0 {
                assert(list@ =~= interval_list(s.frame_history@.take(1)));
            } else {
                assert(list@ =~= interval_list(s.frame_history@.take(i + 1)));
            }
        }
        i = i + 1;
    }
    proof {
        assert(s.frame_history@.take(s.frame_history@.len() as int) =~= s.frame_history@);
    }
    let mut v: Vec<char> = Vec::new();
    let out = &mut v;
    push_str(out, "FPS (active scroll): ");
    assert(out@ =~= "FPS (active scroll): "@);
    match s.fps {
        Some(r) => push_fps(out, r, 1),
        None => push_str(out, "idle"),
    }
    push_str(out, "\n");
    push_str(out, "Last completed scroll FPS: ");
    match s.last_scroll_fps {
        Some(r) => push_fps(out, r, 1),
        None => push_str(out, "unavailable"),
    }
    push_str(out, "\n");
    push_str(out, "Frame interval p95: ");
    push_ms(out, s.frame_p95_us);
    push_str(out, "\n");
    push_str(out, "Slowest interval: ");
    push_ms(out, s.frame_maximum_us);
    push_str(out, "\n");
    push_str(out, "Long frames (>33 ms): ");
    push_decimal(out, s.long_frames as u64);
    push_str(out, "\n");
    push_str(out, "Paint: ");
    push_ms(out, s.paint_time_us);
    push_str(out, "\n");
    push_str(out, "JavaScript: ");
    push_ms(out, s.script_time_us);
    push_str(out, "\n");
    push_str(out, "Style: ");
    push_ms(out, s.style_time_us);
    push_str(out, "\n");
    push_str(out, "Layout: ");
    push_ms(out, s.layout_time_us);
    push_str(out, "\n");
    push_str(out, "Resources: ");
    push_ms(out, s.resource_time_us);
    push_str(out, "\n");
    push_str(out, "Frame intervals (ms, oldest to newest): ");
    crate::text::push_all(out, list.as_slice());
    push_str(out, "\n");
    v
}

/// The whole diagnostics report, sections in order, ending with the tab's
/// incident history.
pub open spec fn report_text(t: TabDiagnostics, r: Option<RendererStatus>, s: PerformanceSnapshot, incidents: Seq<char>) -> Seq<char> {
    tab_section(t) + "\nRenderer\n"@ + renderer_section(r) + "\nPerformance (rolling 2 s)\n"@
        + performance_section(s) + "\nIncident history\n"@ + incidents
}

/// The report copied to the clipboard from the diagnostics panel.
pub fn diagnostics_report(tab: &TabDiagnostics, renderer: &Option<RendererStatus>, snapshot: &PerformanceSnapshot, incidents: &IncidentLog) -> (text: String)
    ensures
        text@ == report_text(*tab, *renderer, *snapshot, incidents.report_text()),
{
    let a = tab_text(tab);
    let b = renderer_text(renderer);
    let c = performance_text(snapshot);
    let d = incidents.report();
    let mut v: Vec<char> = Vec::new();
    crate::text::push_all(&mut v, a.as_slice());
    assert(v@ =~= a@);
    push_str(&mut v, "\nRenderer\n");
    crate::text::push_all(&mut v, b.as_slice());
    push_str(&mut v, "\nPerformance (rolling 2 s)\n");
    crate::text::push_all(&mut v, c.as_slice());
    push_str(&mut v, "\nIncident history\n");
    push_str(&mut v, d.as_str());
    string_of(v.as_slice())
}


/// Labels of the panel's metric rows, top to bottom.
pub open spec fn metric_labels() -> Seq<Seq<char>> {
    seq![
        "Scroll FPS"@,
        "Frame interval p95"@,
        "Slowest interval"@,
        "Long frames (>33 ms)"@,
        "Paint"@,
        "JavaScript"@,
        "Style"@,
        "Layout"@,
        "Resources"@,
    ]
}

/// The panel's frame-rate value: the running scroll, else the last finished
/// one, else idle.
pub open spec fn scroll_fps_value(s: PerformanceSnapshot) -> Seq<char> {
    match s.fps {
        Some(r) => fps_text(r, 0),
        None => match s.last_scroll_fps {
            Some(r) => fps_text(r, 0) + " (last)"@,
            None => "idle"@,
        },
    }
}

/// Values of the panel's metric rows, top to bottom.
pub open spec fn metric_values(s: PerformanceSnapshot) -> Seq<Seq<char>> {
    seq![
        scroll_fps_value(s),
        ms_text(s.frame_p95_us as nat),
        ms_text(s.frame_maximum_us as nat),
        decimal(s.long_frames as nat),
        ms_text(s.paint_time_us as nat),
        ms_text(s.script_time_us as nat),
        ms_text(s.style_time_us as nat),
        ms_text(s.layout_time_us as nat),
        ms_text(s.resource_time_us as nat),
    ]
}

/// One labelled value of the panel.
pub struct MetricRow {
    pub label: String,
    pub value: String,
}

fn metric_row(label: &str, value: Vec<char>) -> (r: MetricRow)
    ensures
        r.label@ == label@,
        r.value@ == value@,
{
    MetricRow { label: crate::text::string_from(label), value: string_of(value.as_slice()) }
}

fn ms_chars(us: u64) -> (v: Vec<char>)
    ensures
        v@ == ms_text(us as nat),
{
    let mut v: Vec<char> = Vec::new();
    push_ms(&mut v, us);
    assert(v@ =~= ms_text(us as nat));
    v
}

/// The panel's metric rows for a snapshot.
#[verifier::rlimit(40)]
#[verifier::spinoff_prover]
pub fn metric_rows(s: &PerformanceSnapshot) -> (rows: Vec<MetricRow>)
    ensures
        rows@.len() == 9,
        forall|i: int| 0 <= i < 9 ==> #[trigger] rows@[i].label@ == metric_labels()[i] && rows@[i].value@
            == metric_values(*s)[i],
{
    let mut fps: Vec<char> = Vec::new();
    match s.fps {
        Some(r) => push_fps(&mut fps, r, 0),
        None => match s.last_scroll_fps {
            Some(r) => {
                push_fps(&mut fps, r, 0);
                push_str(&mut fps, " (last)");
            },
            None => push_str(&mut fps, "idle"),
        },
    }
    assert(fps@ =~= scroll_fps_value(*s));
    let mut long: Vec<char> = Vec::new();
    push_decimal(&mut long, s.long_frames as u64);
    assert(long@ =~= decimal(s.long_frames as nat));
    let mut rows: Vec<MetricRow> = Vec::new();
    rows.push(metric_row("Scroll FPS", fps));
    rows.push(metric_row("Frame interval p95", ms_chars(s.frame_p95_us)));
    rows.push(metric_row("Slowest interval", ms_chars(s.frame_maximum_us)));
    rows.push(metric_row("Long frames (>33 ms)", long));
    rows.push(metric_row("Paint", ms_chars(s.paint_time_us)));
    rows.push(metric_row("JavaScript", ms_chars(s.script_time_us)));
    rows.push(metric_row("Style", ms_chars(s.style_time_us)));
    rows.push(metric_row("Layout", ms_chars(s.layout_time_us)));
    rows.push(metric_row("Resources", ms_chars(s.resource_time_us)));
    rows
}

/// The panel's summary lines about the renderer and the tab's activity.
pub open spec fn summary_lines(r: Option<RendererStatus>, incidents: IncidentLog) -> Seq<Seq<char>> {
    seq![
        match r {
            None => "Renderer: unavailable"@,
            Some(r) => "Renderer: "@ + r.state@ + " \u{00b7} PID "@ + decimal(r.process_id as nat)
                + " \u{00b7} pong "@ + millis0(r.last_pong_age_us as nat) + " ms"@,
        },
        match r {
            None => "Active task: unavailable"@,
            Some(r) => match r.active_task {
                None => "Active task: idle"@,
                Some(task) => "Active task: "@ + task@ + " \u{00b7} "@ + (match r.active_task_elapsed_us {
                    Some(us) => millis0(us as nat) + " ms"@,
                    None => "elapsed unavailable"@,
                }),
            },
        },
        match r {
            None => "Queues: unavailable"@,
            Some(r) => "Queues: commands "@ + decimal(r.queues.browser_commands as nat)
                + " \u{00b7} IPC out/in "@ + decimal(r.queues.renderer_commands as nat) + "/"@
                + decimal(r.queues.renderer_messages as nat) + " \u{00b7} events "@ + decimal(
                r.queues.browser_events as nat,
            ) + " \u{00b7} state "@ + decimal(r.queues.state_updates as nat),
        },
        match r {
            None => "State sync: unavailable"@,
            Some(r) => "State sync: "@ + decimal(r.pending_state_updates as nat) + " pending \u{00b7} "@
                + decimal(r.submitted_state_updates as nat) + " submitted \u{00b7} "@ + decimal(
                r.coalesced_state_updates as nat,
            ) + " coalesced"@,
        },
        "Activity: "@ + decimal(incidents.navigations as nat) + " nav \u{00b7} "@ + decimal(
            incidents.presentations as nat,
        ) + " presentations \u{00b7} "@ + decimal(incidents.runtime_updates as nat)
            + " runtime \u{00b7} "@ + decimal(incidents.fetch_batches as nat) + " fetch batches"@,
    ]
}

fn renderer_line(r: &Option<RendererStatus>) -> (v: Vec<char>)
    ensures
        v@ == match *r {
            None => "Renderer: unavailable"@,
            Some(r) => "Renderer: "@ + r.state@ + " \u{00b7} PID "@ + decimal(r.process_id as nat)
                + " \u{00b7} pong "@ + millis0(r.last_pong_age_us as nat) + " ms"@,
        },
{
    let mut v: Vec<char> = Vec::new();
    match r {
        None => {
            push_str(&mut v, "Renderer: unavailable");
            assert(v@ =~= "Renderer: unavailable"@);
        },
        Some(r) => {
            push_str(&mut v, "Renderer: ");
            assert(v@ =~= "Renderer: "@);
            push_str(&mut v, r.state.as_str());
            push_str(&mut v, " \u{00b7} PID ");
            push_decimal(&mut v, r.process_id);
            push_str(&mut v, " \u{00b7} pong ");
            push_millis0(&mut v, r.last_pong_age_us);
            push_str(&mut v, " ms");
        },
    }
    v
}

fn task_line(r: &Option<RendererStatus>) -> (v: Vec<char>)
    ensures
        v@ == match *r {
            None => "Active task: unavailable"@,
            Some(r) => match r.active_task {
                None => "Active task: idle"@,
                Some(task) => "Active task: "@ + task@ + " \u{00b7} "@ + (match r.active_task_elapsed_us {
                    Some(us) => millis0(us as nat) + " ms"@,
                    None => "elapsed unavailable"@,
                }),
            },
        },
{
    let mut v: Vec<char> = Vec::new();
    match r {
        None => {
            push_str(&mut v, "Active task: unavailable");
            assert(v@ =~= "Active task: unavailable"@);
        },
        Some(r) => match &r.active_task {
            None => {
                push_str(&mut v, "Active task: idle");
                assert(v@ =~= "Active task: idle"@);
            },
            Some(task) => {
                push_str(&mut v, "Active task: ");
                assert(v@ =~= "Active task: "@);
                push_str(&mut v, task.as_str());
                push_str(&mut v, " \u{00b7} ");
                match r.active_task_elapsed_us {
                    Some(us) => {
                        push_millis0(&mut v, us);
                        push_str(&mut v, " ms");
                    },
                    None => push_str(&mut v, "elapsed unavailable"),
                }
            },
        },
    }
    v
}

fn queue_line(r: &Option<RendererStatus>) -> (v: Vec<char>)
    ensures
        v@ == match *r {
            None => "Queues: unavailable"@,
            Some(r) => "Queues: commands "@ + decimal(r.queues.browser_commands as nat)
                + " \u{00b7} IPC out/in "@ + decimal(r.queues.renderer_commands as nat) + "/"@
                + decimal(r.queues.renderer_messages as nat) + " \u{00b7} events "@ + decimal(
                r.queues.browser_events as nat,
            ) + " \u{00b7} state "@ + decimal(r.queues.state_updates as nat),
        },
{
    let mut v: Vec<char> = Vec::new();
    match r {
        None => {
            push_str(&mut v, "Queues: unavailable");
            assert(v@ =~= "Queues: unavailable"@);
        },
        Some(r) => {
            push_str(&mut v, "Queues: commands ");
            assert(v@ =~= "Queues: commands "@);
            push_decimal(&mut v, r.queues.browser_commands);
            push_str(&mut v, " \u{00b7} IPC out/in ");
            push_decimal(&mut v, r.queues.renderer_commands);
            push_str(&mut v, "/");
            push_decimal(&mut v, r.queues.renderer_messages);
            push_str(&mut v, " \u{00b7} events ");
            push_decimal(&mut v, r.queues.browser_events);
            push_str(&mut v, " \u{00b7} state ");
            push_decimal(&mut v, r.queues.state_updates);
        },
    }
    v
}

fn state_line(r: &Option<RendererStatus>) -> (v: Vec<char>)
    ensures
        v@ == match *r {
            None => "State sync: unavailable"@,
            Some(r) => "State sync: "@ + decimal(r.pending_state_updates as nat) + " pending \u{00b7} "@
                + decimal(r.submitted_state_updates as nat) + " submitted \u{00b7} "@ + decimal(
                r.coalesced_state_updates as nat,
            ) + " coalesced"@,
        },
{
    let mut v: Vec<char> = Vec::new();
    match r {
        None => {
            push_str(&mut v, "State sync: unavailable");
            assert(v@ =~= "State sync: unavailable"@);
        },
        Some(r) => {
            push_str(&mut v, "State sync: ");
            assert(v@ =~= "State sync: "@);
            push_decimal(&mut v, r.pending_state_updates);
            push_str(&mut v, " pending \u{00b7} ");
            push_decimal(&mut v, r.submitted_state_updates);
            push_str(&mut v, " submitted \u{00b7} ");
            push_decimal(&mut v, r.coalesced_state_updates);
            push_str(&mut v, " coalesced");
        },
    }
    v
}

fn activity_line(incidents: &IncidentLog) -> (v: Vec<char>)
    ensures
        v@ == "Activity: "@ + decimal(incidents.navigations as nat) + " nav \u{00b7} "@ + decimal(
            incidents.presentations as nat,
        ) + " presentations \u{00b7} "@ + decimal(incidents.runtime_updates as nat)
            + " runtime \u{00b7} "@ + decimal(incidents.fetch_batches as nat) + " fetch batches"@,
{
    let mut v: Vec<char> = Vec::new();
    push_str(&mut v, "Activity: ");
    assert(v@ =~= "Activity: "@);
    push_decimal(&mut v, incidents.navigations);
    push_str(&mut v, " nav \u{00b7} ");
    push_decimal(&mut v, incidents.presentations);
    push_str(&mut v, " presentations \u{00b7} ");
    push_decimal(&mut v, incidents.runtime_updates);
    push_str(&mut v, " runtime \u{00b7} ");
    push_decimal(&mut v, incidents.fetch_batches);
    push_str(&mut v, " fetch batches");
    v
}

/// The panel's detail lines: five summary lines, then the newest incident
/// labels (at most `MAX_PANEL_INCIDENTS`). The flag marks summary lines.
#[verifier::spinoff_prover]
pub fn detail_lines(r: &Option<RendererStatus>, incidents: &IncidentLog) -> (lines: Vec<(String, bool)>)
    ensures
        ({
            let h = incidents.history();
            let start = if h.len() > MAX_PANEL_INCIDENTS { h.len() - MAX_PANEL_INCIDENTS } else { 0 };
            &&& lines@.len() == 5 + (h.len() - start)
            &&& forall|i: int| 0 <= i < 5 ==> #[trigger] lines@[i].0@ == summary_lines(*r, *incidents)[i] && lines@[i].1
            &&& forall|i: int|
                5 <= i < lines@.len() ==> #[trigger] lines@[i].0@ == crate::incident_log::record_label(h[start + i - 5])
                    && !lines@[i].1
        }),
{
    let mut lines: Vec<(String, bool)> = Vec::new();
    let a = renderer_line(r);
    lines.push((string_of(a.as_slice()), true));
    let b = task_line(r);
    lines.push((string_of(b.as_slice()), true));
    let c = queue_line(r);
    lines.push((string_of(c.as_slice()), true));
    let d = state_line(r);
    lines.push((string_of(d.as_slice()), true));
    let e = activity_line(incidents);
    lines.push((string_of(e.as_slice()), true));
    let labels = incidents.recent_labels(MAX_PANEL_INCIDENTS);
    let ghost h = incidents.history();
    let ghost start = if h.len() > MAX_PANEL_INCIDENTS { h.len() - MAX_PANEL_INCIDENTS } else { 0 };
    let mut i: usize = 0;
    while i < labels.len()
        invariant
            i <= labels@.len(),
            labels@.len() == h.len() - start,
            forall|k: int| 0 <= k < labels@.len() ==> #[trigger] labels@[k]@ == crate::incident_log::record_label(h[start + k]),
            lines@.len() == 5 + i,
            forall|k: int| 0 <= k < 5 ==> #[trigger] lines@[k].0@ == summary_lines(*r, *incidents)[k] && lines@[k].1,
            forall|k: int|
                5 <= k < lines@.len() ==> #[trigger] lines@[k].0@ == crate::incident_log::record_label(h[start + k - 5])
                    && !lines@[k].1,
        decreases labels@.len() - i,
    {
        let text = crate::text::string_from(labels[i].as_str());
        lines.push((text, false));
        i = i + 1;
    }
    assert forall|k: int| 5 <= k < lines@.len() implies #[trigger] lines@[k].0@
        == crate::incident_log::record_label(h[start + k - 5]) && !lines@[k].1 by {}
    lines
}

/// Incident labels the panel lists at most.
pub const MAX_PANEL_INCIDENTS: usize = 64;

/// Summary lines above the incident labels in the panel.
pub const SUMMARY_LINE_COUNT: usize = 5;

/// Lines the panel's detail list holds for a log with `records` records.
pub fn detail_line_count(records: usize) -> (n: usize)
    ensures
        n == SUMMARY_LINE_COUNT + (if records < MAX_PANEL_INCIDENTS { records } else { MAX_PANEL_INCIDENTS }),
{
    SUMMARY_LINE_COUNT + if records < MAX_PANEL_INCIDENTS { records } else { MAX_PANEL_INCIDENTS }
}

/// How the frame-rate counter is coloured.
#[derive(Clone, Copy, Debug, PartialEq, Eq, Structural)]
pub enum FpsTone {
    Muted,
    Good,
    Fair,
    Poor,
}

/// The rate shown by the toolbar counter: the running scroll, else the last one.
pub open spec fn displayed_rate(s: PerformanceSnapshot) -> Option<FrameRate> {
    match s.fps {
        Some(r) => Some(r),
        None => s.last_scroll_fps,
    }
}

/// The counter's text: `FPS` and the rate capped at 999, right-aligned in two
/// columns, or `FPS --` without a rate.
pub open spec fn counter_label(rate: Option<FrameRate>) -> Seq<char> {
    match rate {
        None => "FPS --"@,
        Some(r) => "FPS "@ + crate::text::pad_left(
            if r.elapsed_us == 0 || r.intervals as nat * 1_000_000 >= 999 * (r.elapsed_us as nat) {
                "999"@
            } else {
                fps_text(r, 0)
            },
            2,
        ),
    }
}

/// The counter's colour: 55 fps and up is good, 30 and up fair, else poor.
pub open spec fn counter_tone(rate: Option<FrameRate>) -> FpsTone {
    match rate {
        None => FpsTone::Muted,
        Some(r) => if r.elapsed_us == 0 {
            if r.intervals > 0 {
                FpsTone::Good
            } else {
                FpsTone::Poor
            }
        } else if r.intervals as nat * 1_000_000 >= 55 * (r.elapsed_us as nat) {
            FpsTone::Good
        } else if r.intervals as nat * 1_000_000 >= 30 * (r.elapsed_us as nat) {
            FpsTone::Fair
        } else {
            FpsTone::Poor
        },
    }
}

/// The toolbar counter's text and colour.
pub fn performance_counter(s: &PerformanceSnapshot) -> (r: (String, FpsTone))
    ensures
        r.0@ == counter_label(displayed_rate(*s)),
        r.1 == counter_tone(displayed_rate(*s)),
{
    let rate = match s.fps {
        Some(r) => Some(r),
        None => s.last_scroll_fps,
    };
    let mut v: Vec<char> = Vec::new();
    let tone = match rate {
        None => {
            push_str(&mut v, "FPS --");
            assert(v@ =~= "FPS --"@);
            FpsTone::Muted
        },
        Some(r) => {
            push_str(&mut v, "FPS ");
            assert(v@ =~= "FPS "@);
            let scaled = r.intervals as u128 * 1_000_000;
            let mut value: Vec<char> = Vec::new();
            if r.elapsed_us == 0 || scaled >= 999 * r.elapsed_us as u128 {
                push_str(&mut value, "999");
                assert(value@ =~= "999"@);
            } else {
                push_fps(&mut value, r, 0);
                assert(value@ =~= fps_text(r, 0));
            }
            crate::text::push_padded_left(&mut v, value.as_slice(), 2);
            if r.elapsed_us == 0 {
                if r.intervals > 0 {
                    FpsTone::Good
                } else {
                    FpsTone::Poor
                }
            } else if scaled >= 55 * r.elapsed_us as u128 {
                FpsTone::Good
            } else if scaled >= 30 * r.elapsed_us as u128 {
                FpsTone::Fair
            } else {
                FpsTone::Poor
            }
        },
    };
    (string_of(v.as_slice()), tone)
}

/// One bar of the frame-interval graph.
#[derive(Clone, Copy, Debug, PartialEq, Eq, Structural)]
pub struct GraphBar {
    pub rect: Rect,
    /// The interval exceeded a 30 fps frame.
    pub long: bool,
}

/// Height of the bar for an interval of `us` in a graph `height` tall: the
/// interval's share of a 30 fps frame, between 4% and 100%, rounded, at
/// least one pixel.
pub open spec fn bar_height(height: nat, us: nat) -> int {
    let share: nat = if 30 * us < 40_000 {
        40_000
    } else if 30 * us > 1_000_000 {
        1_000_000
    } else {
        30 * us
    };
    let h: int = ((2 * height * share + 1_000_000) / 2_000_000) as int;
    if h >= 1 {
        h
    } else {
        1
    }
}

/// Width of each bar: the graph split evenly, at least one pixel.
pub open spec fn bar_width(width: int, count: nat) -> int {
    let c = if count >= 1 { count as int } else { 1 };
    if width / c >= 1 {
        width / c
    } else {
        1
    }
}

/// Bar `k` of a graph whose bars are `w` wide, for an interval of `us`.
pub open spec fn bar_ok(graph: Rect, w: int, k: int, us: u64, bar: GraphBar) -> bool {
    let left = graph.left + k * w;
    &&& bar.rect.left == left
    &&& bar.rect.right == (if left + w <= graph.right { left + w } else { graph.right as int })
    &&& bar.rect.bottom == graph.bottom
    &&& bar.rect.top == graph.bottom - bar_height(graph.spec_height() as nat, us as nat)
    &&& bar.long == (us > 33_333)
}

/// The bars for the frame intervals `history` (oldest first), left to right
/// from the graph's left edge, standing on its bottom edge.
pub fn graph_bars(graph: Rect, history: &Vec<u64>) -> (bars: Vec<GraphBar>)
    requires
        graph.extents_fit(),
        graph.left <= graph.right,
        graph.top <= graph.bottom,
        graph.left + 60 <= i32::MAX,
        graph.bottom > i32::MIN,
        history@.len() <= 60,
    ensures
        bars@.len() == history@.len(),
        forall|i: int|
            0 <= i < bars@.len() ==> #[trigger] bar_ok(
                graph,
                bar_width(graph.spec_width(), history@.len()),
                i,
                history@[i],
                bars@[i],
            ),
{
    let width = graph.width();
    let height = graph.height();
    let count: i32 = if history.len() >= 1 { history.len() as i32 } else { 1 };
    let w: i32 = if width / count >= 1 { width / count } else { 1 };
    assert(w as int == bar_width(graph.spec_width(), history@.len()));
    let mut bars: Vec<GraphBar> = Vec::new();
    let mut i: usize = 0;
    while i < history.len()
        invariant
            graph.extents_fit(),
            graph.left <= graph.right,
            graph.top <= graph.bottom,
            graph.left + 60 <= i32::MAX,
            graph.bottom > i32::MIN,
            count as int == (if history@.len() >= 1 { history@.len() as int } else { 1 }),
            width == graph.spec_width(),
            height == graph.spec_height(),
            history@.len() <= 60,
            1 <= w,
            w <= (if width >= 1 { width as int } else { 1 }),
            w as int == bar_width(graph.spec_width(), history@.len()),
            i <= history@.len(),
            bars@.len() == i,
            forall|k: int| 0 <= k < bars@.len() ==> #[trigger] bar_ok(graph, w as int, k, history@[k], bars@[k]),
        decreases history@.len() - i,
    {
        let us = history[i];
        let scaled: u128 = 30 * us as u128;
        let share: u128 = if scaled < 40_000 {
            40_000
        } else if scaled > 1_000_000 {
            1_000_000
        } else {
            scaled
        };
        assert(2 * (height as u128) * share <= 2 * 0x7fff_ffff * 1_000_000) by (nonlinear_arith)
            requires
                0 <= height <= 0x7fff_ffff,
                share <= 1_000_000,
        ;
        let raw: u128 = (2 * height as u128 * share + 1_000_000) / 2_000_000;
        assert(raw <= height) by (nonlinear_arith)
            requires
                raw == (2 * height as u128 * share + 1_000_000) / 2_000_000,
                share <= 1_000_000,
                0 <= height,
        ;
        let h: i32 = if raw >= 1 { raw as i32 } else { 1 };
        proof {
            if width / count >= 1 {
                assert(i * w <= width) by (nonlinear_arith)
                    requires
                        i < count,
                        w == width / count,
                        count >= 1,
                        width >= 0,
                ;
            }
        }
        let left: i32 = graph.left + i as i32 * w;
        let right: i32 = if left as i64 + w as i64 <= graph.right as i64 {
            left + w
        } else {
            graph.right
        };
        let bar = GraphBar {
            rect: Rect { left, top: graph.bottom - h, right, bottom: graph.bottom },
            long: us > 33_333,
        };
        proof {
            assert(h as int == bar_height(graph.spec_height() as nat, us as nat));
            assert(left as int == graph.left + i * w);
        }
        let ghost before = bars@;
        bars.push(bar);
        proof {
            assert forall|k: int| 0 <= k < bars@.len() implies #[trigger] bar_ok(graph, w as int, k, history@[k], bars@[k]) by {
                if k < i {
                    assert(bars@[k] == before[k]);
                    assert(bar_ok(graph, w as int, k, history@[k], before[k]));
                } else {
                    assert(bars@[k] == bar);
                }
            }
        }
        i = i + 1;
    }
    bars
}

} // verus!
