//! Per-tab rolling responsiveness metrics: recent frames, work by kind,
//! animation frame rates and the snapshot the monitor shows. Times are
//! microseconds on one monotonic clock.
use crate::stats::{max_value, maximum, percentile, spec_percentile};
use vstd::prelude::*;
use std::collections::VecDeque;

verus! {

/// Frames and work older than this are dropped (2 s).
pub const FRAME_WINDOW_US: u64 = 2_000_000;
/// Frame rate looks at most this far back (1 s).
pub const FPS_WINDOW_US: u64 = 1_000_000;
/// No frame for this long means the page is idle (350 ms).
pub const FPS_IDLE_AFTER_US: u64 = 350_000;
/// A finished animation's rate stays visible this long (30 s).
pub const LAST_SCROLL_FPS_VISIBLE_FOR_US: u64 = 30_000_000;
pub const MAX_FRAME_SAMPLES: usize = 240;
pub const MAX_ACTIVITY_SAMPLES: usize = 512;
/// Frames slower than this count as long (just over 30 fps).
pub const LONG_FRAME_US: u64 = 33_333;

/// A completed paint.
#[derive(Clone, Copy, Debug, PartialEq, Eq, Structural)]
pub struct TimedDuration {
    pub completed_us: u64,
    pub duration_us: u64,
}

/// Kinds of page work attributed to a tab.
#[derive(Clone, Copy, Debug, PartialEq, Eq, Structural)]
pub enum PerformanceActivity {
    Script,
    Style,
    Layout,
    Resource,
}

#[derive(Clone, Copy, Debug, PartialEq, Eq, Structural)]
pub struct ActivitySample {
    pub completed_us: u64,
    pub duration_us: u64,
    pub kind: PerformanceActivity,
}

/// A frame rate as `intervals` frame intervals over `elapsed_us`.
#[derive(Clone, Copy, Debug, PartialEq, Eq, Structural)]
pub struct FrameRate {
    pub intervals: usize,
    pub elapsed_us: u64,
}

#[derive(Clone, Copy, Debug, PartialEq, Eq, Structural)]
pub struct CompletedFrameSequence {
    pub completed_us: u64,
    pub fps: FrameRate,
}

/// Rolling per-tab measurements.
pub struct TabPerformance {
    pub frames: VecDeque<TimedDuration>,
    pub activity: VecDeque<ActivitySample>,
    pub frame_sequence_started_us: Option<u64>,
    pub frame_sequence_completed_us: Option<u64>,
    pub last_frame_sequence: Option<CompletedFrameSequence>,
}

/// What the monitor shows.
pub struct PerformanceSnapshot {
    pub fps: Option<FrameRate>,
    pub last_scroll_fps: Option<FrameRate>,
    pub frame_p95_us: u64,
    pub frame_maximum_us: u64,
    pub long_frames: usize,
    pub paint_time_us: u64,
    pub script_time_us: u64,
    pub style_time_us: u64,
    pub layout_time_us: u64,
    pub resource_time_us: u64,
    /// The most recent (at most 60) intervals between frames, oldest first.
    pub frame_history: Vec<u64>,
}

pub open spec fn elapsed(now: u64, then: u64) -> int {
    if now >= then {
        now - then
    } else {
        0
    }
}

/// Drops frames from the front while there are more than `maximum` or the oldest is older
/// than `window` at `now`.
pub open spec fn pruned_frames(s: Seq<TimedDuration>, now: u64, window: u64, maximum: nat) -> Seq<TimedDuration>
    decreases s.len(),
{
    if s.len() > 0 && (s.len() > maximum || elapsed(now, s[0].completed_us) > window) {
        pruned_frames(s.drop_first(), now, window, maximum)
    } else {
        s
    }
}

/// The same for work samples.
pub open spec fn pruned_activity(s: Seq<ActivitySample>, now: u64, window: u64, maximum: nat) -> Seq<ActivitySample>
    decreases s.len(),
{
    if s.len() > 0 && (s.len() > maximum || elapsed(now, s[0].completed_us) > window) {
        pruned_activity(s.drop_first(), now, window, maximum)
    } else {
        s
    }
}

/// Drops stale and surplus frames from the front.
pub fn prune_timed(samples: &mut VecDeque<TimedDuration>, now_us: u64, window_us: u64, maximum: usize)
    ensures
        final(samples)@ == pruned_frames(old(samples)@, now_us, window_us, maximum as nat),
{
    while samples.len() > 0 && (samples.len() > maximum || now_us.saturating_sub(samples[0].completed_us)
        > window_us)
        invariant
            pruned_frames(samples@, now_us, window_us, maximum as nat) == pruned_frames(
                old(samples)@,
                now_us,
                window_us,
                maximum as nat,
            ),
        decreases samples@.len(),
    {
        let _ = samples.pop_front();
    }
}

fn prune_activity(samples: &mut VecDeque<ActivitySample>, now_us: u64)
    ensures
        final(samples)@ == pruned_activity(old(samples)@, now_us, FRAME_WINDOW_US, MAX_ACTIVITY_SAMPLES as nat),
{
    while samples.len() > 0 && (samples.len() > MAX_ACTIVITY_SAMPLES || now_us.saturating_sub(
        samples[0].completed_us,
    ) > FRAME_WINDOW_US)
        invariant
            pruned_activity(samples@, now_us, FRAME_WINDOW_US, MAX_ACTIVITY_SAMPLES as nat)
                == pruned_activity(old(samples)@, now_us, FRAME_WINDOW_US, MAX_ACTIVITY_SAMPLES as nat),
        decreases samples@.len(),
    {
        let _ = samples.pop_front();
    }
}

/// Frames completed within `[started, completed]`, in order.
pub open spec fn frames_between(s: Seq<TimedDuration>, started: u64, completed: u64) -> Seq<TimedDuration>
    decreases s.len(),
{
    if s.len() == 0 {
        s
    } else {
        let rest = frames_between(s.drop_last(), started, completed);
        if started <= s.last().completed_us <= completed {
            rest.push(s.last())
        } else {
            rest
        }
    }
}

/// Intervals per elapsed time between the first and last frame in `[started, completed]`.
pub open spec fn spec_frames_per_second(s: Seq<TimedDuration>, started: u64, completed: u64) -> Option<FrameRate> {
    let m = frames_between(s, started, completed);
    if m.len() < 2 {
        None
    } else {
        let span = elapsed(m.last().completed_us, m[0].completed_us);
        if span == 0 {
            None
        } else {
            Some(FrameRate { intervals: (m.len() - 1) as usize, elapsed_us: span as u64 })
        }
    }
}

proof fn lemma_frames_between_len(s: Seq<TimedDuration>, started: u64, completed: u64)
    ensures
        frames_between(s, started, completed).len() <= s.len(),
    decreases s.len(),
{
    if s.len() > 0 {
        lemma_frames_between_len(s.drop_last(), started, completed);
    }
}

/// Frame rate over the frames completed within `[started, completed]`.
pub fn frames_per_second(frames: &Vec<TimedDuration>, started_us: u64, completed_us: u64) -> (r: Option<FrameRate>)
    ensures
        r == spec_frames_per_second(frames@, started_us, completed_us),
{
    let mut count: usize = 0;
    let mut first: u64 = 0;
    let mut last: u64 = 0;
    let mut i: usize = 0;
    let ghost s = frames@;
    while i < frames.len()
        invariant
            i <= frames.len(),
            s == frames@,
            count == frames_between(s.subrange(0, i as int), started_us, completed_us).len(),
            count > 0 ==> first == frames_between(s.subrange(0, i as int), started_us, completed_us)[0].completed_us,
            count > 0 ==> last == frames_between(s.subrange(0, i as int), started_us, completed_us).last().completed_us,
        decreases frames.len() - i,
    {
        proof {
            let p = s.subrange(0, i + 1);
            assert(p.drop_last() =~= s.subrange(0, i as int));
            lemma_frames_between_len(s.subrange(0, i as int), started_us, completed_us);
        }
        let c = frames[i].completed_us;
        if started_us <= c && c <= completed_us {
            if count == 0 {
                first = c;
            }
            last = c;
            count = count + 1;
        }
        i = i + 1;
    }
    assert(s.subrange(0, frames.len() as int) =~= s);
    if count < 2 {
        return None;
    }
    let span = last.saturating_sub(first);
    if span == 0 {
        None
    } else {
        Some(FrameRate { intervals: count - 1, elapsed_us: span })
    }
}

/// Frames completed at or after `cutoff`.
pub open spec fn recent_frames(s: Seq<TimedDuration>, cutoff: u64) -> Seq<TimedDuration>
    decreases s.len(),
{
    if s.len() == 0 {
        s
    } else {
        let rest = recent_frames(s.drop_last(), cutoff);
        if s.last().completed_us >= cutoff {
            rest.push(s.last())
        } else {
            rest
        }
    }
}

/// Gaps between consecutive frames.
pub open spec fn frame_intervals(f: Seq<TimedDuration>) -> Seq<u64> {
    Seq::new(
        if f.len() >= 1 { (f.len() - 1) as nat } else { 0 },
        |i: int| elapsed(f[i + 1].completed_us, f[i].completed_us) as u64,
    )
}

pub open spec fn paint_sum(f: Seq<TimedDuration>) -> nat
    decreases f.len(),
{
    if f.len() == 0 {
        0
    } else {
        paint_sum(f.drop_last()) + f.last().duration_us as nat
    }
}

pub open spec fn count_long(v: Seq<u64>) -> nat
    decreases v.len(),
{
    if v.len() == 0 {
        0
    } else {
        count_long(v.drop_last()) + if v.last() > LONG_FRAME_US { 1nat } else { 0nat }
    }
}

/// Time spent on `kind` by work completed at or after `cutoff`.
pub open spec fn activity_sum(s: Seq<ActivitySample>, cutoff: u64, kind: PerformanceActivity) -> nat
    decreases s.len(),
{
    if s.len() == 0 {
        0
    } else {
        activity_sum(s.drop_last(), cutoff, kind) + if s.last().completed_us >= cutoff
            && s.last().kind == kind {
            s.last().duration_us as nat
        } else {
            0nat
        }
    }
}

/// The monitor's view at `now`.
pub open spec fn window_cutoff(now: u64, window: u64) -> u64 {
    if now >= window {
        (now - window) as u64
    } else {
        now
    }
}

pub open spec fn spec_fps(p: TabPerformance, now: u64) -> Option<FrameRate> {
    let frames = recent_frames(p.frames@, window_cutoff(now, FRAME_WINDOW_US));
    if frames.len() == 0 || elapsed(now, frames.last().completed_us) > FPS_IDLE_AFTER_US {
        None
    } else {
        match p.frame_sequence_started_us {
            None => None,
            Some(started) => {
                let fps_cutoff = window_cutoff(now, FPS_WINDOW_US);
                let start = if started >= fps_cutoff { started } else { fps_cutoff };
                let end = match p.frame_sequence_completed_us {
                    Some(c) => c,
                    None => now,
                };
                spec_frames_per_second(frames, start, end)
            },
        }
    }
}

pub open spec fn spec_last_scroll_fps(p: TabPerformance, now: u64) -> Option<FrameRate> {
    match p.last_frame_sequence {
        Some(seq) => if elapsed(now, seq.completed_us) <= LAST_SCROLL_FPS_VISIBLE_FOR_US {
            Some(seq.fps)
        } else {
            None
        },
        None => None,
    }
}

/// The sums a snapshot adds fit in microsecond counters.
pub open spec fn snapshot_sums_fit(p: TabPerformance) -> bool {
    &&& paint_sum(p.frames@) <= u64::MAX
    &&& activity_sum(p.activity@, 0, PerformanceActivity::Script) <= u64::MAX
    &&& activity_sum(p.activity@, 0, PerformanceActivity::Style) <= u64::MAX
    &&& activity_sum(p.activity@, 0, PerformanceActivity::Layout) <= u64::MAX
    &&& activity_sum(p.activity@, 0, PerformanceActivity::Resource) <= u64::MAX
}


fn frames_vec(frames: &VecDeque<TimedDuration>) -> (v: Vec<TimedDuration>)
    ensures
        v@ == frames@,
{
    let mut v: Vec<TimedDuration> = Vec::new();
    let mut i: usize = 0;
    while i < frames.len()
        invariant
            i <= frames.len(),
            v@ == frames@.subrange(0, i as int),
        decreases frames.len() - i,
    {
        v.push(frames[i]);
        assert(frames@.subrange(0, i + 1) =~= frames@.subrange(0, i as int).push(frames@[i as int]));
        i = i + 1;
    }
    assert(frames@.subrange(0, frames.len() as int) =~= frames@);
    v
}

proof fn lemma_paint_sum_recent(s: Seq<TimedDuration>, cutoff: u64)
    ensures
        paint_sum(recent_frames(s, cutoff)) <= paint_sum(s),
        recent_frames(s, cutoff).len() <= s.len(),
    decreases s.len(),
{
    if s.len() > 0 {
        lemma_paint_sum_recent(s.drop_last(), cutoff);
        let rest = recent_frames(s.drop_last(), cutoff);
        if s.last().completed_us >= cutoff {
            assert(rest.push(s.last()).drop_last() =~= rest);
        }
    }
}

proof fn lemma_activity_sum_le(s: Seq<ActivitySample>, cutoff: u64, kind: PerformanceActivity)
    ensures
        activity_sum(s, cutoff, kind) <= activity_sum(s, 0, kind),
    decreases s.len(),
{
    if s.len() > 0 {
        lemma_activity_sum_le(s.drop_last(), cutoff, kind);
    }
}

proof fn lemma_paint_sum_prefix(s: Seq<TimedDuration>, i: int)
    requires
        0 <= i <= s.len(),
    ensures
        paint_sum(s.subrange(0, i)) <= paint_sum(s),
    decreases s.len() - i,
{
    if i < s.len() {
        lemma_paint_sum_prefix(s, i + 1);
        assert(s.subrange(0, i + 1).drop_last() =~= s.subrange(0, i));
    } else {
        assert(s.subrange(0, i) =~= s);
    }
}

proof fn lemma_activity_sum_prefix(s: Seq<ActivitySample>, i: int, cutoff: u64, kind: PerformanceActivity)
    requires
        0 <= i <= s.len(),
    ensures
        activity_sum(s.subrange(0, i), cutoff, kind) <= activity_sum(s, cutoff, kind),
    decreases s.len() - i,
{
    if i < s.len() {
        lemma_activity_sum_prefix(s, i + 1, cutoff, kind);
        assert(s.subrange(0, i + 1).drop_last() =~= s.subrange(0, i));
    } else {
        assert(s.subrange(0, i) =~= s);
    }
}

impl TabPerformance {
    /// No measurements yet.
    pub fn new() -> (p: Self)
        ensures
            p.frames@.len() == 0,
            p.activity@.len() == 0,
            p.frame_sequence_started_us is None,
            p.frame_sequence_completed_us is None,
            p.last_frame_sequence is None,
    {
        TabPerformance {
            frames: VecDeque::new(),
            activity: VecDeque::new(),
            frame_sequence_started_us: None,
            frame_sequence_completed_us: None,
            last_frame_sequence: None,
        }
    }

    /// An animation or scroll starts producing frames.
    pub fn begin_frame_sequence(&mut self, started_us: u64)
        ensures
            final(self).frame_sequence_started_us == Some(started_us),
            final(self).frame_sequence_completed_us is None,
            final(self).frames@ == old(self).frames@,
            final(self).activity@ == old(self).activity@,
            final(self).last_frame_sequence == old(self).last_frame_sequence,
    {
        self.frame_sequence_started_us = Some(started_us);
        self.frame_sequence_completed_us = None;
    }

    /// The current animation ends; its frame rate is kept when it can be measured.
    pub fn end_frame_sequence(&mut self, completed_us: u64)
        ensures
            final(self).frames@ == old(self).frames@,
            final(self).activity@ == old(self).activity@,
            final(self).frame_sequence_started_us == old(self).frame_sequence_started_us,
            final(self).frame_sequence_completed_us == match old(self).frame_sequence_started_us {
                Some(_) => Some(completed_us),
                None => old(self).frame_sequence_completed_us,
            },
            final(self).last_frame_sequence == match old(self).frame_sequence_started_us {
                Some(started) => match spec_frames_per_second(old(self).frames@, started, completed_us) {
                    Some(fps) => Some(CompletedFrameSequence { completed_us, fps }),
                    None => old(self).last_frame_sequence,
                },
                None => old(self).last_frame_sequence,
            },
    {
        if let Some(started) = self.frame_sequence_started_us {
            self.frame_sequence_completed_us = Some(completed_us);
            let frames = frames_vec(&self.frames);
            if let Some(fps) = frames_per_second(&frames, started, completed_us) {
                self.last_frame_sequence = Some(CompletedFrameSequence { completed_us, fps });
            }
        }
    }

    /// Records a completed paint and forgets stale or surplus ones.
    pub fn record_frame(&mut self, completed_us: u64, duration_us: u64)
        ensures
            final(self).frames@ == pruned_frames(
                old(self).frames@.push(TimedDuration { completed_us, duration_us }),
                completed_us,
                FRAME_WINDOW_US,
                MAX_FRAME_SAMPLES as nat,
            ),
            final(self).activity@ == old(self).activity@,
            final(self).frame_sequence_started_us == old(self).frame_sequence_started_us,
            final(self).frame_sequence_completed_us == old(self).frame_sequence_completed_us,
            final(self).last_frame_sequence == old(self).last_frame_sequence,
    {
        self.frames.push_back(TimedDuration { completed_us, duration_us });
        prune_timed(&mut self.frames, completed_us, FRAME_WINDOW_US, MAX_FRAME_SAMPLES);
    }

    /// Records page work; zero-length work is ignored.
    pub fn record_activity(&mut self, completed_us: u64, kind: PerformanceActivity, duration_us: u64)
        ensures
            duration_us == 0 ==> final(self).activity@ == old(self).activity@,
            duration_us != 0 ==> final(self).activity@ == pruned_activity(
                old(self).activity@.push(ActivitySample { completed_us, duration_us, kind }),
                completed_us,
                FRAME_WINDOW_US,
                MAX_ACTIVITY_SAMPLES as nat,
            ),
            final(self).frames@ == old(self).frames@,
            final(self).frame_sequence_started_us == old(self).frame_sequence_started_us,
            final(self).frame_sequence_completed_us == old(self).frame_sequence_completed_us,
            final(self).last_frame_sequence == old(self).last_frame_sequence,
    {
        if duration_us == 0 {
            return;
        }
        self.activity.push_back(ActivitySample { completed_us, duration_us, kind });
        prune_activity(&mut self.activity, completed_us);
    }

    /// Measurements over the last two seconds at `now_us`.
    #[verifier::rlimit(40)]
    pub fn snapshot(&self, now_us: u64) -> (s: PerformanceSnapshot)
        requires
            snapshot_sums_fit(*self),
        ensures
            ({
                let cutoff = window_cutoff(now_us, FRAME_WINDOW_US);
                let frames = recent_frames(self.frames@, cutoff);
                let intervals = frame_intervals(frames);
                &&& s.fps == spec_fps(*self, now_us)
                &&& s.last_scroll_fps == spec_last_scroll_fps(*self, now_us)
                &&& s.frame_p95_us == spec_percentile(intervals, 95, 100)
                &&& s.frame_maximum_us == max_value(intervals)
                &&& s.long_frames == count_long(intervals)
                &&& s.paint_time_us == paint_sum(frames)
                &&& s.script_time_us == activity_sum(self.activity@, cutoff, PerformanceActivity::Script)
                &&& s.style_time_us == activity_sum(self.activity@, cutoff, PerformanceActivity::Style)
                &&& s.layout_time_us == activity_sum(self.activity@, cutoff, PerformanceActivity::Layout)
                &&& s.resource_time_us == activity_sum(self.activity@, cutoff, PerformanceActivity::Resource)
                &&& s.frame_history@ == intervals.subrange(
                    if intervals.len() > 60 { intervals.len() - 60 } else { 0 },
                    intervals.len() as int,
                )
            }),
    {
        let cutoff = if now_us >= FRAME_WINDOW_US { now_us - FRAME_WINDOW_US } else { now_us };
        let ghost all = self.frames@;
        let mut frames: Vec<TimedDuration> = Vec::new();
        let mut paint_time_us: u64 = 0;
        let mut i: usize = 0;
        proof {
            lemma_paint_sum_recent(all, cutoff);
        }
        while i < self.frames.len()
            invariant
                i <= self.frames.len(),
                all == self.frames@,
                paint_sum(all) <= u64::MAX,
                frames@ == recent_frames(all.subrange(0, i as int), cutoff),
                paint_time_us == paint_sum(frames@),
            decreases self.frames.len() - i,
        {
            proof {
                let p = all.subrange(0, i + 1);
                assert(p.drop_last() =~= all.subrange(0, i as int));
                lemma_paint_sum_recent(p, cutoff);
                lemma_paint_sum_prefix(all, i + 1);
            }
            let sample = self.frames[i];
            if sample.completed_us >= cutoff {
                frames.push(sample);
                assert(frames@.drop_last() =~= recent_frames(all.subrange(0, i as int), cutoff));
                paint_time_us = paint_time_us + sample.duration_us;
            }
            i = i + 1;
        }
        assert(all.subrange(0, self.frames.len() as int) =~= all);
        let ghost fr = frames@;
        let fps = if frames.len() > 0 && now_us.saturating_sub(frames[frames.len() - 1].completed_us)
            <= FPS_IDLE_AFTER_US {
            match self.frame_sequence_started_us {
                None => None,
                Some(started) => {
                    let fps_cutoff = if now_us >= FPS_WINDOW_US { now_us - FPS_WINDOW_US } else { now_us };
                    let start = if started >= fps_cutoff { started } else { fps_cutoff };
                    let end = match self.frame_sequence_completed_us {
                        Some(c) => c,
                        None => now_us,
                    };
                    frames_per_second(&frames, start, end)
                },
            }
        } else {
            None
        };
        let last_scroll_fps = match self.last_frame_sequence {
            Some(sequence) => {
                if now_us.saturating_sub(sequence.completed_us) <= LAST_SCROLL_FPS_VISIBLE_FOR_US {
                    Some(sequence.fps)
                } else {
                    None
                }
            },
            None => None,
        };
        let mut intervals: Vec<u64> = Vec::new();
        let mut long_frames: usize = 0;
        let mut k: usize = 1;
        while k < frames.len()
            invariant
                1 <= k,
                frames@ == fr,
                fr.len() >= 1 ==> k <= fr.len(),
                fr.len() == 0 ==> k == 1,
                intervals@ == frame_intervals(fr).subrange(0, (k - 1) as int),
                long_frames == count_long(intervals@),
                long_frames <= k,
            decreases frames.len() - k,
        {
            let gap = frames[k].completed_us.saturating_sub(frames[k - 1].completed_us);
            intervals.push(gap);
            proof {
                assert(intervals@ =~= frame_intervals(fr).subrange(0, k as int));
                assert(intervals@.drop_last() =~= frame_intervals(fr).subrange(0, (k - 1) as int));
            }
            if gap > LONG_FRAME_US {
                long_frames = long_frames + 1;
            }
            k = k + 1;
        }
        proof {
            if fr.len() >= 1 {
                assert(k == fr.len());
                assert(frame_intervals(fr).len() == fr.len() - 1);
                assert(intervals@ =~= frame_intervals(fr));
            } else {
                assert(intervals@ =~= frame_intervals(fr));
            }
        }
        let n = intervals.len();
        let from = if n > 60 { n - 60 } else { 0 };
        let mut frame_history: Vec<u64> = Vec::new();
        let mut h: usize = from;
        while h < n
            invariant
                from <= h <= n == intervals.len(),
                frame_history@ == intervals@.subrange(from as int, h as int),
            decreases n - h,
        {
            frame_history.push(intervals[h]);
            assert(intervals@.subrange(from as int, h + 1) =~= intervals@.subrange(from as int, h as int).push(intervals@[h as int]));
            h = h + 1;
        }
        let frame_p95_us = percentile(&intervals, 95, 100);
        let frame_maximum_us = maximum(&intervals);
        let mut script: u64 = 0;
        let mut style: u64 = 0;
        let mut layout: u64 = 0;
        let mut resource: u64 = 0;
        let ghost act = self.activity@;
        proof {
            lemma_activity_sum_le(act, cutoff, PerformanceActivity::Script);
            lemma_activity_sum_le(act, cutoff, PerformanceActivity::Style);
            lemma_activity_sum_le(act, cutoff, PerformanceActivity::Layout);
            lemma_activity_sum_le(act, cutoff, PerformanceActivity::Resource);
        }
        let mut j: usize = 0;
        while j < self.activity.len()
            invariant
                j <= self.activity.len(),
                act == self.activity@,
                activity_sum(act, cutoff, PerformanceActivity::Script) <= u64::MAX,
                activity_sum(act, cutoff, PerformanceActivity::Style) <= u64::MAX,
                activity_sum(act, cutoff, PerformanceActivity::Layout) <= u64::MAX,
                activity_sum(act, cutoff, PerformanceActivity::Resource) <= u64::MAX,
                script == activity_sum(act.subrange(0, j as int), cutoff, PerformanceActivity::Script),
                style == activity_sum(act.subrange(0, j as int), cutoff, PerformanceActivity::Style),
                layout == activity_sum(act.subrange(0, j as int), cutoff, PerformanceActivity::Layout),
                resource == activity_sum(act.subrange(0, j as int), cutoff, PerformanceActivity::Resource),
            decreases self.activity.len() - j,
        {
            proof {
                let p = act.subrange(0, j + 1);
                assert(p.drop_last() =~= act.subrange(0, j as int));
                lemma_activity_sum_prefix(act, j + 1, cutoff, PerformanceActivity::Script);
                lemma_activity_sum_prefix(act, j + 1, cutoff, PerformanceActivity::Style);
                lemma_activity_sum_prefix(act, j + 1, cutoff, PerformanceActivity::Layout);
                lemma_activity_sum_prefix(act, j + 1, cutoff, PerformanceActivity::Resource);
            }
            let sample = self.activity[j];
            if sample.completed_us >= cutoff {
                match sample.kind {
                    PerformanceActivity::Script => script = script + sample.duration_us,
                    PerformanceActivity::Style => style = style + sample.duration_us,
                    PerformanceActivity::Layout => layout = layout + sample.duration_us,
                    PerformanceActivity::Resource => resource = resource + sample.duration_us,
                }
            }
            j = j + 1;
        }
        assert(act.subrange(0, self.activity.len() as int) =~= act);
        PerformanceSnapshot {
            fps,
            last_scroll_fps,
            frame_p95_us,
            frame_maximum_us,
            long_frames,
            paint_time_us,
            script_time_us: script,
            style_time_us: style,
            layout_time_us: layout,
            resource_time_us: resource,
            frame_history,
        }
    }
}

} // verus!
