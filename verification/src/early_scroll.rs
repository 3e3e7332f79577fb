//! Page-ready scrolling trace: direction bouncing, per-tick samples, the
//! acceptance summary and the JSON report. All times are microseconds.
use crate::stats::{maximum, max_value, percentile, spec_percentile};
use crate::text::{
    decimal, millis3, push_all, push_decimal, push_millis3, push_signed, push_str, signed_decimal,
    string_of,
};
use vstd::prelude::*;

verus! {

/// Spacing of the scroll ticks (16 ms).
pub const TRACE_INTERVAL_US: u64 = 16_000;

/// Tail left after the last tick so deferred work is still observed (250 ms).
pub const COMPLETION_GRACE_US: u64 = 250_000;

/// Samples scheduled before this offset are warm-up and not analysed (250 ms).
pub const ANALYSIS_START_US: u64 = 250_000;

/// Samples scheduled after this offset are not analysed (5 s).
pub const ANALYSIS_END_US: u64 = 5_000_000;

/// Saturating subtraction on naturals.
pub open spec fn sat_sub(a: int, b: int) -> int {
    if a >= b { a - b } else { 0 }
}

/// Cumulative benchmark work counters.
#[derive(Clone, Copy, Debug, PartialEq, Eq, Structural)]
pub struct BenchmarkActivity {
    pub style_time_us: u64,
    pub layout_time_us: u64,
    pub paint_time_us: u64,
    pub resource_time_us: u64,
    pub script_time_us: u64,
    pub layout_rebuilds: usize,
    pub display_items_invalidated: usize,
    pub paint_count: usize,
    pub resource_completions: usize,
    pub script_tasks: usize,
    pub invalidated_nodes: usize,
    pub full_style_rebuilds: usize,
}

/// Work done between two activity snapshots.
#[derive(Clone, Copy, Debug, PartialEq, Eq, Structural)]
pub struct ActivityDelta {
    pub style_time_us: u64,
    pub layout_time_us: u64,
    pub paint_time_us: u64,
    pub resource_time_us: u64,
    pub script_time_us: u64,
    pub layout_rebuilds: usize,
    pub display_items_invalidated: usize,
    pub paint_count: usize,
    pub resource_completions: usize,
    pub script_tasks: usize,
    pub invalidated_nodes: usize,
    pub full_style_rebuilds: usize,
}

impl Default for BenchmarkActivity {
    fn default() -> (r: Self)
        ensures
            r == BenchmarkActivity::zero_spec(),
    {
        BenchmarkActivity::zero()
    }
}

impl Default for ActivityDelta {
    fn default() -> (r: Self)
        ensures
            r == (ActivityDelta {
                style_time_us: 0,
                layout_time_us: 0,
                paint_time_us: 0,
                resource_time_us: 0,
                script_time_us: 0,
                layout_rebuilds: 0,
                display_items_invalidated: 0,
                paint_count: 0,
                resource_completions: 0,
                script_tasks: 0,
                invalidated_nodes: 0,
                full_style_rebuilds: 0,
            }),
    {
        ActivityDelta {
            style_time_us: 0,
            layout_time_us: 0,
            paint_time_us: 0,
            resource_time_us: 0,
            script_time_us: 0,
            layout_rebuilds: 0,
            display_items_invalidated: 0,
            paint_count: 0,
            resource_completions: 0,
            script_tasks: 0,
            invalidated_nodes: 0,
            full_style_rebuilds: 0,
        }
    }
}

impl BenchmarkActivity {
    pub open spec fn zero_spec() -> BenchmarkActivity {
        BenchmarkActivity {
            style_time_us: 0,
            layout_time_us: 0,
            paint_time_us: 0,
            resource_time_us: 0,
            script_time_us: 0,
            layout_rebuilds: 0,
            display_items_invalidated: 0,
            paint_count: 0,
            resource_completions: 0,
            script_tasks: 0,
            invalidated_nodes: 0,
            full_style_rebuilds: 0,
        }
    }

    /// No work recorded yet.
    pub fn zero() -> (r: Self)
        ensures
            r == Self::zero_spec(),
    {
        BenchmarkActivity {
            style_time_us: 0,
            layout_time_us: 0,
            paint_time_us: 0,
            resource_time_us: 0,
            script_time_us: 0,
            layout_rebuilds: 0,
            display_items_invalidated: 0,
            paint_count: 0,
            resource_completions: 0,
            script_tasks: 0,
            invalidated_nodes: 0,
            full_style_rebuilds: 0,
        }
    }

    /// Field-wise saturating difference from an earlier snapshot.
    pub open spec fn spec_since(self, previous: Self) -> ActivityDelta {
        ActivityDelta {
            style_time_us: sat_sub(self.style_time_us as int, previous.style_time_us as int) as u64,
            layout_time_us: sat_sub(self.layout_time_us as int, previous.layout_time_us as int) as u64,
            paint_time_us: sat_sub(self.paint_time_us as int, previous.paint_time_us as int) as u64,
            resource_time_us: sat_sub(
                self.resource_time_us as int,
                previous.resource_time_us as int,
            ) as u64,
            script_time_us: sat_sub(self.script_time_us as int, previous.script_time_us as int) as u64,
            layout_rebuilds: sat_sub(self.layout_rebuilds as int, previous.layout_rebuilds as int) as usize,
            display_items_invalidated: sat_sub(
                self.display_items_invalidated as int,
                previous.display_items_invalidated as int,
            ) as usize,
            paint_count: sat_sub(self.paint_count as int, previous.paint_count as int) as usize,
            resource_completions: sat_sub(
                self.resource_completions as int,
                previous.resource_completions as int,
            ) as usize,
            script_tasks: sat_sub(self.script_tasks as int, previous.script_tasks as int) as usize,
            invalidated_nodes: sat_sub(
                self.invalidated_nodes as int,
                previous.invalidated_nodes as int,
            ) as usize,
            full_style_rebuilds: sat_sub(
                self.full_style_rebuilds as int,
                previous.full_style_rebuilds as int,
            ) as usize,
        }
    }

    /// Work done since `previous`; a counter that went backwards counts as zero.
    pub fn since(self, previous: Self) -> (d: ActivityDelta)
        ensures
            d == self.spec_since(previous),
    {
        ActivityDelta {
            style_time_us: self.style_time_us.saturating_sub(previous.style_time_us),
            layout_time_us: self.layout_time_us.saturating_sub(previous.layout_time_us),
            paint_time_us: self.paint_time_us.saturating_sub(previous.paint_time_us),
            resource_time_us: self.resource_time_us.saturating_sub(previous.resource_time_us),
            script_time_us: self.script_time_us.saturating_sub(previous.script_time_us),
            layout_rebuilds: self.layout_rebuilds.saturating_sub(previous.layout_rebuilds),
            display_items_invalidated: self.display_items_invalidated.saturating_sub(
                previous.display_items_invalidated,
            ),
            paint_count: self.paint_count.saturating_sub(previous.paint_count),
            resource_completions: self.resource_completions.saturating_sub(
                previous.resource_completions,
            ),
            script_tasks: self.script_tasks.saturating_sub(previous.script_tasks),
            invalidated_nodes: self.invalidated_nodes.saturating_sub(previous.invalidated_nodes),
            full_style_rebuilds: self.full_style_rebuilds.saturating_sub(
                previous.full_style_rebuilds,
            ),
        }
    }
}

/// One scroll tick as observed by the UI thread.
#[derive(Clone, Copy, Debug, PartialEq, Eq, Structural)]
pub struct EarlyScrollSample {
    /// When the tick was due, relative to the trace start.
    pub scheduled_us: u64,
    /// When the UI thread handled it, relative to the trace start.
    pub handled_us: u64,
    /// From the due time to the completed paint.
    pub input_to_paint_us: u64,
    /// From handling to the completed paint.
    pub frame_work_us: u64,
    pub scroll_y: i32,
    pub activity: ActivityDelta,
}

/// When the trace's ticks and its completion are due.
#[derive(Clone, Copy, Debug, PartialEq, Eq, Structural)]
pub struct TraceSchedule {
    /// Ticks numbered `1..=sample_count`, tick `n` due `n * 16 ms` after the start.
    pub sample_count: usize,
    /// Delay from the start until the benchmark finishes.
    pub finish_after_us: u64,
}

/// A fixed-length early scrolling trace.
pub struct EarlyScrollTrace {
    pub duration_us: u64,
    pub started_us: Option<u64>,
    pub previous_activity: BenchmarkActivity,
    pub samples: Vec<EarlyScrollSample>,
    /// `1` while scrolling down, `-1` while scrolling up.
    pub direction: i32,
}

/// Where the next tick scrolls to, and the direction after it.
pub open spec fn spec_target_scroll(current: int, maximum: int, step: int, direction: int) -> (res: (int, int)) {
    if maximum <= 0 {
        (0, direction)
    } else {
        let next = sat_i32(current + sat_i32(step * direction));
        if next >= maximum {
            (maximum, -1)
        } else if next <= 0 {
            (0, 1)
        } else {
            (next, direction)
        }
    }
}

/// Scroll targets bounce between the top and the bottom of the page: a target
/// stays within `0..=maximum`; reaching or passing the bottom yields the bottom
/// and turns the trace upward, reaching or passing the top yields the top and
/// turns it downward, and a step that lands strictly inside the page moves by
/// exactly `step` in the current direction and keeps that direction.
pub proof fn lemma_targets_bounce(current: int, maximum: int, step: int, direction: int)
    requires
        maximum > 0,
        i32::MIN <= current <= i32::MAX,
        i32::MIN <= step * direction <= i32::MAX,
        i32::MIN <= current + step * direction <= i32::MAX,
    ensures
        ({
            let (target, next_direction) = spec_target_scroll(current, maximum, step, direction);
            let moved = current + step * direction;
            &&& 0 <= target <= maximum
            &&& moved >= maximum ==> target == maximum && next_direction == -1
            &&& moved <= 0 ==> target == 0 && next_direction == 1
            &&& 0 < moved < maximum ==> target == moved && next_direction == direction
        }),
{
}

/// At the bottom a downward trace turns and stays at the bottom, and the
/// next tick moves one step up; at the top an upward trace turns and stays at
/// the top, and the next tick moves one step down.
pub proof fn lemma_turned_trace_moves_back(maximum: int, step: int)
    requires
        0 < step < maximum <= i32::MAX,
    ensures
        spec_target_scroll(maximum, maximum, step, 1) == (maximum, -1int),
        spec_target_scroll(maximum, maximum, step, -1) == (maximum - step, -1int),
        spec_target_scroll(0, maximum, step, -1) == (0int, 1int),
        spec_target_scroll(0, maximum, step, 1) == (step, 1int),
{
    assert(step * 1 == step);
    assert(step * -1 == -step);
}

/// Clamps to the `i32` range, as `i32`'s saturating operations do.
pub open spec fn sat_i32(v: int) -> int {
    if v > i32::MAX {
        i32::MAX as int
    } else if v < i32::MIN {
        i32::MIN as int
    } else {
        v
    }
}

/// Narrows to `i32`, saturating at its bounds.
pub fn clamp_i32(v: i64) -> (r: i32)
    ensures
        r == sat_i32(v as int),
{
    if v > i32::MAX as i64 {
        i32::MAX
    } else if v < i32::MIN as i64 {
        i32::MIN
    } else {
        v as i32
    }
}

/// The sample that `record` adds.
pub open spec fn spec_sample(
    started: u64,
    sequence: usize,
    handled_at: u64,
    painted_at: u64,
    scroll_y: i32,
    activity: ActivityDelta,
) -> EarlyScrollSample {
    let scheduled = TRACE_INTERVAL_US * ((sequence as int) % 0x1_0000_0000);
    EarlyScrollSample {
        scheduled_us: scheduled as u64,
        handled_us: sat_sub(handled_at as int, started as int) as u64,
        input_to_paint_us: sat_sub(painted_at as int, started + scheduled) as u64,
        frame_work_us: sat_sub(painted_at as int, handled_at as int) as u64,
        scroll_y,
        activity,
    }
}

impl EarlyScrollTrace {
    /// A six-second trace that has not started.
    pub fn six_seconds() -> (t: Self)
        ensures
            t.duration_us == 6_000_000,
            t.started_us is None,
            t.previous_activity == BenchmarkActivity::zero_spec(),
            t.samples@.len() == 0,
            t.direction == 1,
    {
        EarlyScrollTrace {
            duration_us: 6_000_000,
            started_us: None,
            previous_activity: BenchmarkActivity::zero(),
            samples: Vec::new(),
            direction: 1,
        }
    }

    /// Starts the trace at `now_us` and says when its ticks and its end are due.
    pub fn schedule(&mut self, now_us: u64, settle_us: u64, activity: BenchmarkActivity) -> (plan: TraceSchedule)
        requires
            old(self).duration_us <= u64::MAX - COMPLETION_GRACE_US,
        ensures
            final(self).started_us == Some(now_us),
            final(self).previous_activity == activity,
            final(self).duration_us == old(self).duration_us,
            final(self).samples@ == old(self).samples@,
            final(self).direction == old(self).direction,
            plan.sample_count == (if old(self).duration_us / 1000 / 16 >= 1 {
                old(self).duration_us / 1000 / 16
            } else {
                1
            }) as usize,
            plan.finish_after_us as int == (if settle_us >= old(self).duration_us
                + COMPLETION_GRACE_US {
                settle_us as int
            } else {
                old(self).duration_us + COMPLETION_GRACE_US
            }),
    {
        self.started_us = Some(now_us);
        self.previous_activity = activity;
        let ticks = self.duration_us / 1000 / 16;
        let sample_count = (if ticks >= 1 { ticks } else { 1 }) as usize;
        let tail = self.duration_us + COMPLETION_GRACE_US;
        TraceSchedule {
            sample_count,
            finish_after_us: if settle_us >= tail { settle_us } else { tail },
        }
    }

    /// Next scroll position, bouncing between `0` and `maximum`.
    pub fn target_scroll(&mut self, current: i32, maximum: i32, step: i32) -> (target: i32)
        ensures
            maximum > 0 ==> 0 <= target <= maximum,
            maximum > 0 && target == maximum ==> final(self).direction == -1,
            maximum > 0 && target == 0 ==> final(self).direction == 1,
            maximum > 0 && 0 < target < maximum ==> final(self).direction == old(self).direction,
            (target as int, final(self).direction as int) == spec_target_scroll(
                current as int,
                maximum as int,
                step as int,
                old(self).direction as int,
            ),
            final(self).duration_us == old(self).duration_us,
            final(self).started_us == old(self).started_us,
            final(self).previous_activity == old(self).previous_activity,
            final(self).samples@ == old(self).samples@,
    {
        if maximum <= 0 {
            return 0;
        }
        assert(-0x8000_0000 * 0x8000_0000 <= step as i64 * self.direction as i64 <= 0x8000_0000 * 0x8000_0000) by (nonlinear_arith)
            requires
                -0x8000_0000 <= step <= 0x7fff_ffff,
                -0x8000_0000 <= self.direction <= 0x7fff_ffff,
        ;
        let next = clamp_i32(current as i64 + clamp_i32(step as i64 * self.direction as i64) as i64);
        if next >= maximum {
            self.direction = -1;
            maximum
        } else if next <= 0 {
            self.direction = 1;
            0
        } else {
            next
        }
    }

    /// Records tick `sequence`; ignored until the trace has started.
    pub fn record(
        &mut self,
        sequence: usize,
        handled_at_us: u64,
        painted_at_us: u64,
        scroll_y: i32,
        activity: BenchmarkActivity,
    )
        requires
            old(self).started_us matches Some(s) ==> s + TRACE_INTERVAL_US * ((sequence as int)
                % 0x1_0000_0000) <= u64::MAX,
        ensures
            final(self).duration_us == old(self).duration_us,
            final(self).started_us == old(self).started_us,
            final(self).direction == old(self).direction,
            match old(self).started_us {
                None => final(self).samples@ == old(self).samples@ && final(self).previous_activity
                    == old(self).previous_activity,
                Some(started) => final(self).samples@ == old(self).samples@.push(
                    spec_sample(
                        started,
                        sequence,
                        handled_at_us,
                        painted_at_us,
                        scroll_y,
                        activity.spec_since(old(self).previous_activity),
                    ),
                ) && final(self).previous_activity == activity,
            },
    {
        let started = match self.started_us {
            Some(s) => s,
            None => return ,
        };
        let ticks = sequence as u32;
        assert(ticks as int == (sequence as int) % 0x1_0000_0000) by (bit_vector)
            requires
                ticks == sequence as u32,
        ;
        let scheduled: u64 = TRACE_INTERVAL_US * (ticks as u64);
        let expected = started + scheduled;
        let sample = EarlyScrollSample {
            scheduled_us: scheduled,
            handled_us: handled_at_us.saturating_sub(started),
            input_to_paint_us: painted_at_us.saturating_sub(expected),
            frame_work_us: painted_at_us.saturating_sub(handled_at_us),
            scroll_y,
            activity: activity.since(self.previous_activity),
        };
        self.previous_activity = activity;
        self.samples.push(sample);
    }
}


/// A tick inside the analysed part of the trace.
pub open spec fn in_analysis_window(sample: EarlyScrollSample) -> bool {
    ANALYSIS_START_US <= sample.scheduled_us <= ANALYSIS_END_US
}

/// The analysed ticks, in order.
pub open spec fn analysis_window(s: Seq<EarlyScrollSample>) -> Seq<EarlyScrollSample>
    decreases s.len(),
{
    if s.len() == 0 {
        s
    } else if in_analysis_window(s.last()) {
        analysis_window(s.drop_last()).push(s.last())
    } else {
        analysis_window(s.drop_last())
    }
}

pub open spec fn frame_works(w: Seq<EarlyScrollSample>) -> Seq<u64> {
    Seq::new(w.len(), |i: int| w[i].frame_work_us)
}

pub open spec fn latencies(w: Seq<EarlyScrollSample>) -> Seq<u64> {
    Seq::new(w.len(), |i: int| w[i].input_to_paint_us)
}

/// Slower than 30 frames per second (more than 1000/30 ms from due time to paint).
pub open spec fn is_slow(sample: EarlyScrollSample) -> bool {
    sample.input_to_paint_us * 30 > 1_000_000
}

/// Length of the trailing run of slow ticks, and of the longest such run.
pub open spec fn slow_runs(w: Seq<EarlyScrollSample>) -> (res: (nat, nat))
    decreases w.len(),
{
    if w.len() == 0 {
        (0, 0)
    } else {
        let (current, longest) = slow_runs(w.drop_last());
        if is_slow(w.last()) {
            let c = current + 1;
            (c, if c > longest { c } else { longest })
        } else {
            (0, longest)
        }
    }
}

/// Index just after the last slow tick, or zero.
pub open spec fn last_slow_end(w: Seq<EarlyScrollSample>) -> nat
    decreases w.len(),
{
    if w.len() == 0 {
        0
    } else if is_slow(w.last()) {
        w.len()
    } else {
        last_slow_end(w.drop_last())
    }
}

/// Due time of the first tick after which every tick is smooth; the analysis end otherwise.
pub open spec fn spec_time_to_smooth(w: Seq<EarlyScrollSample>) -> u64 {
    let k = last_slow_end(w);
    if k < w.len() {
        w[k as int].scheduled_us
    } else {
        ANALYSIS_END_US
    }
}

/// Sums of layout and full-style rebuilds: over all ticks, and over ticks without
/// resource completions or script tasks.
pub open spec fn rebuild_sums(w: Seq<EarlyScrollSample>) -> (res: (nat, nat, nat, nat))
    decreases w.len(),
{
    if w.len() == 0 {
        (0, 0, 0, 0)
    } else {
        let (layouts, styles, quiet_layouts, quiet_styles) = rebuild_sums(w.drop_last());
        let a = w.last().activity;
        let quiet = a.resource_completions == 0 && a.script_tasks == 0;
        (
            (layouts + a.layout_rebuilds) as nat,
            (styles + a.full_style_rebuilds) as nat,
            if quiet { (quiet_layouts + a.layout_rebuilds) as nat } else { quiet_layouts },
            if quiet { (quiet_styles + a.full_style_rebuilds) as nat } else { quiet_styles },
        )
    }
}

/// Acceptance figures of the analysed window.
#[derive(Clone, Copy, Debug, PartialEq, Eq, Structural)]
pub struct TraceSummary {
    pub sample_count: usize,
    pub median_frame_work_us: u64,
    pub p95_frame_work_us: u64,
    pub median_input_to_paint_us: u64,
    pub p95_input_to_paint_us: u64,
    pub maximum_input_to_paint_us: u64,
    pub longest_below_30_fps_us: u64,
    pub time_to_smooth_us: u64,
    pub layout_rebuilds: usize,
    pub full_style_rebuilds: usize,
    pub scrolling_only_layout_rebuilds: usize,
    pub scrolling_only_style_rebuilds: usize,
    pub meets_acceptance: bool,
}

/// The summary of a trace's samples.
pub open spec fn spec_summary(samples: Seq<EarlyScrollSample>) -> TraceSummary {
    let w = analysis_window(samples);
    let (layouts, styles, quiet_layouts, quiet_styles) = rebuild_sums(w);
    let longest = slow_runs(w).1 * TRACE_INTERVAL_US;
    let longest_us = if longest > u64::MAX { u64::MAX as int } else { longest as int };
    let median_fw = spec_percentile(frame_works(w), 1, 2);
    let p95_fw = spec_percentile(frame_works(w), 95, 100);
    let max_latency = max_value(latencies(w));
    let tts = spec_time_to_smooth(w);
    TraceSummary {
        sample_count: w.len() as usize,
        median_frame_work_us: median_fw,
        p95_frame_work_us: p95_fw,
        median_input_to_paint_us: spec_percentile(latencies(w), 1, 2),
        p95_input_to_paint_us: spec_percentile(latencies(w), 95, 100),
        maximum_input_to_paint_us: max_latency,
        longest_below_30_fps_us: longest_us as u64,
        time_to_smooth_us: tts,
        layout_rebuilds: layouts as usize,
        full_style_rebuilds: styles as usize,
        scrolling_only_layout_rebuilds: quiet_layouts as usize,
        scrolling_only_style_rebuilds: quiet_styles as usize,
        meets_acceptance: w.len() > 0 && median_fw <= 16_700 && p95_fw <= 33_300 && longest_us
            <= 250_000 && max_latency <= 100_000 && tts <= 500_000 && quiet_layouts == 0
            && quiet_styles == 0,
    }
}

/// A trace meets acceptance exactly when it analysed at least one tick, its
/// median and 95th-percentile frame work stay within 16.7 ms and 33.3 ms, no
/// run below 30 fps lasts over 250 ms, no tick waits over 100 ms from input to
/// paint, it is smooth by 500 ms, and no tick without resource completions or
/// script tasks rebuilt layout or full style. Those scrolling-only rebuilds
/// are counted among all rebuilds.
pub proof fn lemma_acceptance_criteria(samples: Seq<EarlyScrollSample>)
    requires
        samples.len() <= usize::MAX,
        rebuild_sums_fit(samples),
    ensures
        ({
            let t = spec_summary(samples);
            &&& t.meets_acceptance <==> (t.sample_count > 0 && t.median_frame_work_us <= 16_700
                && t.p95_frame_work_us <= 33_300 && t.longest_below_30_fps_us <= 250_000
                && t.maximum_input_to_paint_us <= 100_000 && t.time_to_smooth_us <= 500_000
                && t.scrolling_only_layout_rebuilds == 0 && t.scrolling_only_style_rebuilds == 0)
            &&& t.scrolling_only_layout_rebuilds <= t.layout_rebuilds
            &&& t.scrolling_only_style_rebuilds <= t.full_style_rebuilds
        }),
{
    let w = analysis_window(samples);
    lemma_analysis_window_len(samples);
    lemma_rebuild_sums_monotone(w, w.len() as int);
}

/// The rebuild counters of the analysed window fit in `usize`.
pub open spec fn rebuild_sums_fit(samples: Seq<EarlyScrollSample>) -> bool {
    let (layouts, styles, _q1, _q2) = rebuild_sums(analysis_window(samples));
    layouts <= usize::MAX && styles <= usize::MAX
}

proof fn lemma_rebuild_sums_monotone(w: Seq<EarlyScrollSample>, i: int)
    requires
        0 <= i <= w.len(),
    ensures
        rebuild_sums(w.subrange(0, i)).0 <= rebuild_sums(w).0,
        rebuild_sums(w.subrange(0, i)).1 <= rebuild_sums(w).1,
        rebuild_sums(w).2 <= rebuild_sums(w).0,
        rebuild_sums(w).3 <= rebuild_sums(w).1,
    decreases w.len() - i,
{
    if i < w.len() {
        lemma_rebuild_sums_monotone(w, i + 1);
        assert(w.subrange(0, i + 1).drop_last() =~= w.subrange(0, i));
    } else {
        assert(w.subrange(0, i) =~= w);
    }
    lemma_quiet_le(w);
}

proof fn lemma_quiet_le(w: Seq<EarlyScrollSample>)
    ensures
        rebuild_sums(w).2 <= rebuild_sums(w).0,
        rebuild_sums(w).3 <= rebuild_sums(w).1,
    decreases w.len(),
{
    if w.len() > 0 {
        lemma_quiet_le(w.drop_last());
    }
}

proof fn lemma_slow_runs_bound(w: Seq<EarlyScrollSample>)
    ensures
        slow_runs(w).0 <= slow_runs(w).1 <= w.len(),
    decreases w.len(),
{
    if w.len() > 0 {
        lemma_slow_runs_bound(w.drop_last());
    }
}

proof fn lemma_last_slow_end_bound(w: Seq<EarlyScrollSample>)
    ensures
        last_slow_end(w) <= w.len(),
    decreases w.len(),
{
    if w.len() > 0 {
        lemma_last_slow_end_bound(w.drop_last());
    }
}

fn analysed_samples(samples: &Vec<EarlyScrollSample>) -> (w: Vec<EarlyScrollSample>)
    ensures
        w@ == analysis_window(samples@),
{
    let mut w: Vec<EarlyScrollSample> = Vec::new();
    let mut i: usize = 0;
    while i < samples.len()
        invariant
            i <= samples.len(),
            w@ == analysis_window(samples@.subrange(0, i as int)),
        decreases samples.len() - i,
    {
        let sample = samples[i];
        assert(samples@.subrange(0, i + 1).drop_last() =~= samples@.subrange(0, i as int));
        if ANALYSIS_START_US <= sample.scheduled_us && sample.scheduled_us <= ANALYSIS_END_US {
            w.push(sample);
        }
        i = i + 1;
    }
    assert(samples@.subrange(0, samples.len() as int) =~= samples@);
    w
}

impl TraceSummary {
    /// Summarises the analysed window of a trace.
    pub fn from_samples(samples: &Vec<EarlyScrollSample>) -> (summary: TraceSummary)
        requires
            rebuild_sums_fit(samples@),
        ensures
            summary == spec_summary(samples@),
            summary.meets_acceptance ==> summary.scrolling_only_layout_rebuilds == 0
                && summary.scrolling_only_style_rebuilds == 0 && summary.sample_count > 0
                && summary.median_frame_work_us <= 16_700 && summary.p95_frame_work_us <= 33_300
                && summary.longest_below_30_fps_us <= 250_000
                && summary.maximum_input_to_paint_us <= 100_000 && summary.time_to_smooth_us <= 500_000,
    {
        assert(samples@.len() == samples.len());
        proof {
            lemma_acceptance_criteria(samples@);
        }
        let window = analysed_samples(samples);
        proof {
            lemma_analysis_window_len(samples@);
        }
        let mut frame_work: Vec<u64> = Vec::new();
        let mut latency: Vec<u64> = Vec::new();
        let mut current: usize = 0;
        let mut longest: usize = 0;
        let mut slow_end: usize = 0;
        let mut layouts: usize = 0;
        let mut styles: usize = 0;
        let mut quiet_layouts: usize = 0;
        let mut quiet_styles: usize = 0;
        let ghost w = window@;
        proof {
            lemma_rebuild_sums_monotone(w, w.len() as int);
        }
        let mut i: usize = 0;
        while i < window.len()
            invariant
                i <= window.len(),
                w == window@,
                w == analysis_window(samples@),
                rebuild_sums_fit(samples@),
                frame_work@ == frame_works(w.subrange(0, i as int)),
                latency@ == latencies(w.subrange(0, i as int)),
                (current as nat, longest as nat) == slow_runs(w.subrange(0, i as int)),
                slow_end == last_slow_end(w.subrange(0, i as int)),
                (layouts as nat, styles as nat, quiet_layouts as nat, quiet_styles as nat)
                    == rebuild_sums(w.subrange(0, i as int)),
            decreases window.len() - i,
        {
            let sample = window[i];
            let ghost prefix = w.subrange(0, i + 1);
            proof {
                assert(prefix.drop_last() =~= w.subrange(0, i as int));
                assert(prefix.last() == sample);
                lemma_slow_runs_bound(w.subrange(0, i as int));
                lemma_rebuild_sums_monotone(w, i + 1);
                lemma_quiet_le(prefix);
            }
            frame_work.push(sample.frame_work_us);
            latency.push(sample.input_to_paint_us);
            assert(frame_work@ =~= frame_works(prefix));
            assert(latency@ =~= latencies(prefix));
            if sample.input_to_paint_us > 33_333 {
                current = current + 1;
                if current > longest {
                    longest = current;
                }
                slow_end = i + 1;
            } else {
                current = 0;
            }
            let a = sample.activity;
            layouts = layouts + a.layout_rebuilds;
            styles = styles + a.full_style_rebuilds;
            if a.resource_completions == 0 && a.script_tasks == 0 {
                quiet_layouts = quiet_layouts + a.layout_rebuilds;
                quiet_styles = quiet_styles + a.full_style_rebuilds;
            }
            i = i + 1;
        }
        assert(w.subrange(0, window.len() as int) =~= w);
        proof {
            lemma_slow_runs_bound(w);
            lemma_last_slow_end_bound(w);
        }
        let median_frame_work_us = percentile(&frame_work, 1, 2);
        let p95_frame_work_us = percentile(&frame_work, 95, 100);
        let median_input_to_paint_us = percentile(&latency, 1, 2);
        let p95_input_to_paint_us = percentile(&latency, 95, 100);
        let maximum_input_to_paint_us = maximum(&latency);
        let longest_below_30_fps_us: u64 = if (longest as u64) <= u64::MAX / TRACE_INTERVAL_US {
            longest as u64 * TRACE_INTERVAL_US
        } else {
            u64::MAX
        };
        let time_to_smooth_us = if slow_end < window.len() {
            window[slow_end].scheduled_us
        } else {
            ANALYSIS_END_US
        };
        let meets_acceptance = window.len() > 0 && median_frame_work_us <= 16_700
            && p95_frame_work_us <= 33_300 && longest_below_30_fps_us <= 250_000
            && maximum_input_to_paint_us <= 100_000 && time_to_smooth_us <= 500_000
            && quiet_layouts == 0 && quiet_styles == 0;
        TraceSummary {
            sample_count: window.len(),
            median_frame_work_us,
            p95_frame_work_us,
            median_input_to_paint_us,
            p95_input_to_paint_us,
            maximum_input_to_paint_us,
            longest_below_30_fps_us,
            time_to_smooth_us,
            layout_rebuilds: layouts,
            full_style_rebuilds: styles,
            scrolling_only_layout_rebuilds: quiet_layouts,
            scrolling_only_style_rebuilds: quiet_styles,
            meets_acceptance,
        }
    }
}

proof fn lemma_analysis_window_len(s: Seq<EarlyScrollSample>)
    ensures
        analysis_window(s).len() <= s.len(),
    decreases s.len(),
{
    if s.len() > 0 {
        lemma_analysis_window_len(s.drop_last());
    }
}


/// `true` or `false`.
pub open spec fn bool_text(b: bool) -> Seq<char> {
    if b {
        "true"@
    } else {
        "false"@
    }
}

pub fn push_bool(out: &mut Vec<char>, b: bool)
    ensures
        final(out)@ == old(out)@ + bool_text(b),
{
    if b {
        push_str(out, "true");
    } else {
        push_str(out, "false");
    }
}

/// JSON object of a summary, in milliseconds with three decimals.
pub open spec fn summary_json(s: TraceSummary) -> Seq<char> {
    "{\"sample_count\": "@ + decimal(s.sample_count as nat) + ", \"median_frame_work_ms\": "@
        + millis3(s.median_frame_work_us as nat) + ", \"p95_frame_work_ms\": "@ + millis3(
        s.p95_frame_work_us as nat,
    ) + ", \"median_input_to_paint_ms\": "@ + millis3(s.median_input_to_paint_us as nat)
        + ", \"p95_input_to_paint_ms\": "@ + millis3(s.p95_input_to_paint_us as nat)
        + ", \"maximum_input_to_paint_ms\": "@ + millis3(s.maximum_input_to_paint_us as nat)
        + ", \"longest_below_30_fps_ms\": "@ + millis3(s.longest_below_30_fps_us as nat)
        + ", \"time_to_smooth_ms\": "@ + millis3(s.time_to_smooth_us as nat)
        + ", \"layout_rebuilds\": "@ + decimal(s.layout_rebuilds as nat)
        + ", \"full_style_rebuilds\": "@ + decimal(s.full_style_rebuilds as nat)
        + ", \"scrolling_only_layout_rebuilds\": "@ + decimal(
        s.scrolling_only_layout_rebuilds as nat,
    ) + ", \"scrolling_only_style_rebuilds\": "@ + decimal(
        s.scrolling_only_style_rebuilds as nat,
    ) + ", \"meets_acceptance\": "@ + bool_text(s.meets_acceptance) + "}"@
}

fn summary_chars(s: &TraceSummary) -> (r: Vec<char>)
    ensures
        r@ == summary_json(*s),
{
    let mut v: Vec<char> = Vec::new();
    let out = &mut v;
    push_str(out, "{\"sample_count\": ");
    assert(out@ =~= "{\"sample_count\": "@);
    push_decimal(out, s.sample_count as u64);
    push_str(out, ", \"median_frame_work_ms\": ");
    push_millis3(out, s.median_frame_work_us);
    push_str(out, ", \"p95_frame_work_ms\": ");
    push_millis3(out, s.p95_frame_work_us);
    push_str(out, ", \"median_input_to_paint_ms\": ");
    push_millis3(out, s.median_input_to_paint_us);
    push_str(out, ", \"p95_input_to_paint_ms\": ");
    push_millis3(out, s.p95_input_to_paint_us);
    push_str(out, ", \"maximum_input_to_paint_ms\": ");
    push_millis3(out, s.maximum_input_to_paint_us);
    push_str(out, ", \"longest_below_30_fps_ms\": ");
    push_millis3(out, s.longest_below_30_fps_us);
    push_str(out, ", \"time_to_smooth_ms\": ");
    push_millis3(out, s.time_to_smooth_us);
    push_str(out, ", \"layout_rebuilds\": ");
    push_decimal(out, s.layout_rebuilds as u64);
    push_str(out, ", \"full_style_rebuilds\": ");
    push_decimal(out, s.full_style_rebuilds as u64);
    push_str(out, ", \"scrolling_only_layout_rebuilds\": ");
    push_decimal(out, s.scrolling_only_layout_rebuilds as u64);
    push_str(out, ", \"scrolling_only_style_rebuilds\": ");
    push_decimal(out, s.scrolling_only_style_rebuilds as u64);
    push_str(out, ", \"meets_acceptance\": ");
    push_bool(out, s.meets_acceptance);
    push_str(out, "}");
    v
}

impl TraceSummary {
    /// The summary as a one-line JSON object.
    pub fn to_json(&self) -> (json: String)
        ensures
            json@ == summary_json(*self),
    {
        let out = summary_chars(self);
        string_of(out.as_slice())
    }
}

/// JSON object of one sample.
pub open spec fn sample_json(s: EarlyScrollSample) -> Seq<char> {
    let a = s.activity;
    "\n      {\"scheduled_ms\": "@ + millis3(s.scheduled_us as nat) + ", \"handled_ms\": "@
        + millis3(s.handled_us as nat) + ", \"input_to_paint_ms\": "@ + millis3(
        s.input_to_paint_us as nat,
    ) + ", \"frame_work_ms\": "@ + millis3(s.frame_work_us as nat) + ", \"scroll_y\": "@
        + signed_decimal(s.scroll_y as int) + ", \"style_ms\": "@ + millis3(
        a.style_time_us as nat,
    ) + ", \"layout_ms\": "@ + millis3(a.layout_time_us as nat)
        + ", \"display_items_invalidated\": "@ + decimal(a.display_items_invalidated as nat)
        + ", \"paint_ms\": "@ + millis3(a.paint_time_us as nat) + ", \"paint_count\": "@
        + decimal(a.paint_count as nat) + ", \"resource_ms\": "@ + millis3(
        a.resource_time_us as nat,
    ) + ", \"resource_completions\": "@ + decimal(a.resource_completions as nat)
        + ", \"script_ms\": "@ + millis3(a.script_time_us as nat) + ", \"script_tasks\": "@
        + decimal(a.script_tasks as nat) + ", \"invalidated_nodes\": "@ + decimal(
        a.invalidated_nodes as nat,
    ) + ", \"layout_rebuilds\": "@ + decimal(a.layout_rebuilds as nat)
        + ", \"full_style_rebuilds\": "@ + decimal(a.full_style_rebuilds as nat) + "}"@
}

/// Samples joined with commas.
pub open spec fn samples_json(s: Seq<EarlyScrollSample>) -> Seq<char>
    decreases s.len(),
{
    if s.len() == 0 {
        Seq::empty()
    } else if s.len() == 1 {
        sample_json(s[0])
    } else {
        samples_json(s.drop_last()) + seq![','] + sample_json(s.last())
    }
}

/// The trace report: duration, interval, summary and every sample.
pub open spec fn trace_json(duration_us: u64, samples: Seq<EarlyScrollSample>) -> Seq<char> {
    "{\n    \"duration_ms\": "@ + millis3(duration_us as nat) + ",\n    \"interval_ms\": "@
        + millis3(TRACE_INTERVAL_US as nat) + ",\n    \"summary\": "@ + summary_json(
        spec_summary(samples),
    ) + ",\n    \"samples\": ["@ + samples_json(samples) + "\n    ]\n  }"@
}

fn sample_chars(s: &EarlyScrollSample) -> (r: Vec<char>)
    ensures
        r@ == sample_json(*s),
{
    let a = s.activity;
    let mut v: Vec<char> = Vec::new();
    let out = &mut v;
    push_str(out, "\n      {\"scheduled_ms\": ");
    assert(out@ =~= "\n      {\"scheduled_ms\": "@);
    push_millis3(out, s.scheduled_us);
    push_str(out, ", \"handled_ms\": ");
    push_millis3(out, s.handled_us);
    push_str(out, ", \"input_to_paint_ms\": ");
    push_millis3(out, s.input_to_paint_us);
    push_str(out, ", \"frame_work_ms\": ");
    push_millis3(out, s.frame_work_us);
    push_str(out, ", \"scroll_y\": ");
    push_signed(out, s.scroll_y as i64);
    push_str(out, ", \"style_ms\": ");
    push_millis3(out, a.style_time_us);
    push_str(out, ", \"layout_ms\": ");
    push_millis3(out, a.layout_time_us);
    push_str(out, ", \"display_items_invalidated\": ");
    push_decimal(out, a.display_items_invalidated as u64);
    push_str(out, ", \"paint_ms\": ");
    push_millis3(out, a.paint_time_us);
    push_str(out, ", \"paint_count\": ");
    push_decimal(out, a.paint_count as u64);
    push_str(out, ", \"resource_ms\": ");
    push_millis3(out, a.resource_time_us);
    push_str(out, ", \"resource_completions\": ");
    push_decimal(out, a.resource_completions as u64);
    push_str(out, ", \"script_ms\": ");
    push_millis3(out, a.script_time_us);
    push_str(out, ", \"script_tasks\": ");
    push_decimal(out, a.script_tasks as u64);
    push_str(out, ", \"invalidated_nodes\": ");
    push_decimal(out, a.invalidated_nodes as u64);
    push_str(out, ", \"layout_rebuilds\": ");
    push_decimal(out, a.layout_rebuilds as u64);
    push_str(out, ", \"full_style_rebuilds\": ");
    push_decimal(out, a.full_style_rebuilds as u64);
    push_str(out, "}");
    v
}

#[verifier::spinoff_prover]
#[verifier::rlimit(30)]
fn samples_chars(samples: &Vec<EarlyScrollSample>) -> (r: Vec<char>)
    ensures
        r@ == samples_json(samples@),
{
    let mut out: Vec<char> = Vec::new();
    let mut i: usize = 0;
    while i < samples.len()
        invariant
            i <= samples.len(),
            out@ == samples_json(samples@.subrange(0, i as int)),
        decreases samples.len() - i,
    {
        if i > 0 {
            out.push(',');
        }
        let sample_text = sample_chars(&samples[i]);
        push_all(&mut out, sample_text.as_slice());
        proof {
            let p = samples@.subrange(0, i + 1);
            assert(p.drop_last() =~= samples@.subrange(0, i as int));
            if i == 0 {
                assert(p[0] == samples@[0]);
                assert(out@ =~= samples_json(p));
            } else {
                assert(out@ =~= samples_json(p));
            }
        }
        i = i + 1;
    }
    assert(samples@.subrange(0, samples.len() as int) =~= samples@);
    out
}

impl EarlyScrollTrace {
    /// The trace report as JSON (an object indented for the benchmark report).
    pub fn to_json(&self) -> (json: String)
        requires
            rebuild_sums_fit(self.samples@),
        ensures
            json@ == trace_json(self.duration_us, self.samples@),
    {
        let summary = TraceSummary::from_samples(&self.samples);
        let summary_text = summary_chars(&summary);
        let samples_text = samples_chars(&self.samples);
        let mut v: Vec<char> = Vec::new();
        let out = &mut v;
        push_str(out, "{\n    \"duration_ms\": ");
        assert(out@ =~= "{\n    \"duration_ms\": "@);
        push_millis3(out, self.duration_us);
        push_str(out, ",\n    \"interval_ms\": ");
        push_millis3(out, TRACE_INTERVAL_US);
        push_str(out, ",\n    \"summary\": ");
        push_all(out, summary_text.as_slice());
        push_str(out, ",\n    \"samples\": [");
        push_all(out, samples_text.as_slice());
        push_str(out, "\n    ]\n  }");
        string_of(v.as_slice())
    }
}

} // verus!
