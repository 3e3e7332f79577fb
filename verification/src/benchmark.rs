//! Hidden benchmark run state: the scripted action sequence, completion
//! markers in console output, and when the run finishes.
use crate::early_scroll::{BenchmarkActivity, EarlyScrollTrace, TraceSchedule, COMPLETION_GRACE_US};
use crate::filmstrip::Filmstrip;
use crate::text::chars_of;
use vstd::prelude::*;

verus! {

/// One scripted action run after the page is ready.
#[derive(Clone, Debug, PartialEq, Eq)]
pub enum BenchmarkNavigation {
    Address(String),
    ActivateLink(String),
    ActivateSelector(String),
    ClickPoint { x: i32, y: i32 },
    MovePoint { x: i32, y: i32 },
    Key { key: String, code: String },
    SetControlValue { selector: String, value: String },
    Wheel { x: i32, y: i32, delta: i32 },
    ScrollTo { y: i32 },
}

/// A scripted action with its text as character sequences.
pub enum NavigationView {
    Address(Seq<char>),
    ActivateLink(Seq<char>),
    ActivateSelector(Seq<char>),
    ClickPoint { x: i32, y: i32 },
    MovePoint { x: i32, y: i32 },
    Key { key: Seq<char>, code: Seq<char> },
    SetControlValue { selector: Seq<char>, value: Seq<char> },
    Wheel { x: i32, y: i32, delta: i32 },
    ScrollTo { y: i32 },
}

impl View for BenchmarkNavigation {
    type V = NavigationView;

    open spec fn view(&self) -> NavigationView {
        match self {
            BenchmarkNavigation::Address(s) => NavigationView::Address(s@),
            BenchmarkNavigation::ActivateLink(s) => NavigationView::ActivateLink(s@),
            BenchmarkNavigation::ActivateSelector(s) => NavigationView::ActivateSelector(s@),
            BenchmarkNavigation::ClickPoint { x, y } => NavigationView::ClickPoint { x: *x, y: *y },
            BenchmarkNavigation::MovePoint { x, y } => NavigationView::MovePoint { x: *x, y: *y },
            BenchmarkNavigation::Key { key, code } => NavigationView::Key { key: key@, code: code@ },
            BenchmarkNavigation::SetControlValue { selector, value } => NavigationView::SetControlValue {
                selector: selector@,
                value: value@,
            },
            BenchmarkNavigation::Wheel { x, y, delta } => NavigationView::Wheel {
                x: *x,
                y: *y,
                delta: *delta,
            },
            BenchmarkNavigation::ScrollTo { y } => NavigationView::ScrollTo { y: *y },
        }
    }
}

/// The views of a list of actions.
pub open spec fn navigation_views(v: Seq<BenchmarkNavigation>) -> Seq<NavigationView> {
    Seq::new(v.len(), |i: int| v[i]@)
}

/// The views of a list of strings.
pub open spec fn string_views(v: Seq<String>) -> Seq<Seq<char>> {
    Seq::new(v.len(), |i: int| v[i]@)
}

/// `needle` occurs as a contiguous run in `hay`.
pub open spec fn contains_seq(hay: Seq<char>, needle: Seq<char>) -> bool {
    exists|i: int|
        0 <= i && i + needle.len() <= hay.len() && #[trigger] hay.subrange(i, i + needle.len())
            == needle
}

/// Whether `needle` occurs in `hay` (`str::contains`).
pub fn contains_text(hay: &str, needle: &str) -> (b: bool)
    ensures
        b == contains_seq(hay@, needle@),
{
    let h = chars_of(hay);
    let n = chars_of(needle);
    if n.len() > h.len() {
        proof {
            assert forall|i: int|
                0 <= i && i + n@.len() <= h@.len() implies #[trigger] h@.subrange(
                i,
                i + n@.len(),
            ) != n@ by {}
        }
        return false;
    }
    let mut i: usize = 0;
    while i <= h.len() - n.len()
        invariant
            n.len() <= h.len(),
            i <= h.len() - n.len() + 1,
            h@ == hay@,
            n@ == needle@,
            forall|k: int| 0 <= k < i ==> #[trigger] h@.subrange(k, k + n@.len()) != n@,
        decreases h.len() - i,
    {
        let mut j: usize = 0;
        while j < n.len() && h[i + j] == n[j]
            invariant
                i + n.len() <= h.len(),
                j <= n.len(),
                forall|t: int| 0 <= t < j ==> h@[i + t] == n@[t],
            decreases n.len() - j,
        {
            j = j + 1;
        }
        if j == n.len() {
            assert(h@.subrange(i as int, i + n@.len()) =~= n@);
            return true;
        }
        assert(h@.subrange(i as int, i + n@.len())[j as int] != n@[j as int]);
        i = i + 1;
    }
    false
}

/// Any of the messages contains `marker`.
pub open spec fn any_contains(messages: Seq<String>, marker: Seq<char>) -> bool {
    exists|i: int| 0 <= i < messages.len() && contains_seq(#[trigger] messages[i]@, marker)
}

/// What finishing a run needs once it is requested.
#[derive(Clone, Copy, Debug, PartialEq, Eq, Structural)]
pub enum FinishPlan {
    /// A finish was already requested; nothing more to do.
    AlreadyScheduled,
    /// The early scrolling trace drives ticks and then the finish.
    Trace(TraceSchedule),
    /// Finish after this delay.
    After(u64),
}

/// How a finish request that is not a repeat proceeds.
pub open spec fn spec_finish_plan(run: BenchmarkRun, now_us: u64) -> FinishPlan {
    let settle = run.settle_ms * 1000;
    match run.early_scroll {
        Some(t) => FinishPlan::Trace(
            TraceSchedule {
                sample_count: (if t.duration_us / 1000 / 16 >= 1 {
                    t.duration_us / 1000 / 16
                } else {
                    1
                }) as usize,
                finish_after_us: (if settle >= t.duration_us + COMPLETION_GRACE_US {
                    settle
                } else {
                    t.duration_us + COMPLETION_GRACE_US
                }) as u64,
            },
        ),
        None => FinishPlan::After(
            (match run.filmstrip {
                Some(f) => match f.started_us {
                    Some(s) => {
                        let end = s + f.duration_ms * 1000 + crate::filmstrip::CAPTURE_GRACE_US;
                        let remaining = if end >= now_us {
                            end - now_us
                        } else {
                            0
                        };
                        if remaining >= settle {
                            remaining
                        } else {
                            settle
                        }
                    },
                    None => settle,
                },
                None => settle,
            }) as u64,
        ),
    }
}

/// Configuration and progress of one hidden benchmark run.
pub struct BenchmarkRun {
    pub requested_url: String,
    pub output: String,
    pub screenshot: Option<String>,
    pub settle_ms: u64,
    pub process_started_us: u64,
    pub navigation_started_us: Option<u64>,
    pub navigation_targets: Vec<BenchmarkNavigation>,
    pub navigation_delay_ms: u64,
    pub navigation_scheduled: bool,
    pub completion_marker: Option<String>,
    pub completion_observed: bool,
    pub finish_scheduled: bool,
    pub script_console: Vec<String>,
    pub scroll_samples: usize,
    pub early_scroll: Option<EarlyScrollTrace>,
    pub filmstrip: Option<Filmstrip>,
    pub activity: BenchmarkActivity,
    pub diagnostic_selectors: Vec<String>,
    pub window_width_dip: i32,
    pub window_height_dip: i32,
    pub error: Option<String>,
}

impl BenchmarkRun {
    /// A run that has not navigated, with no scripted actions and no filmstrip.
    pub fn new(
        requested_url: String,
        output: String,
        screenshot: Option<String>,
        settle_ms: u64,
        completion_marker: Option<String>,
        scroll_samples: usize,
        early_scroll: bool,
        diagnostic_selectors: Vec<String>,
        window_width_dip: i32,
        window_height_dip: i32,
        process_started_us: u64,
    ) -> (run: Self)
        ensures
            run.requested_url == requested_url,
            run.output == output,
            run.screenshot == screenshot,
            run.settle_ms == settle_ms,
            run.completion_marker == completion_marker,
            run.scroll_samples == scroll_samples,
            run.early_scroll is Some <==> early_scroll,
            run.early_scroll matches Some(t) ==> t.duration_us == 6_000_000 && t.started_us is None
                && t.samples@.len() == 0 && t.direction == 1,
            run.diagnostic_selectors@ == diagnostic_selectors@,
            run.window_width_dip == window_width_dip,
            run.window_height_dip == window_height_dip,
            run.process_started_us == process_started_us,
            run.navigation_started_us is None,
            run.navigation_targets@.len() == 0,
            run.navigation_delay_ms == 0,
            !run.navigation_scheduled,
            !run.completion_observed,
            !run.finish_scheduled,
            run.script_console@.len() == 0,
            run.filmstrip is None,
            run.activity == BenchmarkActivity::zero_spec(),
            run.error is None,
    {
        BenchmarkRun {
            requested_url,
            output,
            screenshot,
            settle_ms,
            process_started_us,
            navigation_started_us: None,
            navigation_targets: Vec::new(),
            navigation_delay_ms: 0,
            navigation_scheduled: false,
            completion_marker,
            completion_observed: false,
            finish_scheduled: false,
            script_console: Vec::new(),
            scroll_samples,
            early_scroll: if early_scroll {
                Some(EarlyScrollTrace::six_seconds())
            } else {
                None
            },
            filmstrip: None,
            activity: BenchmarkActivity::zero(),
            diagnostic_selectors,
            window_width_dip,
            window_height_dip,
            error: None,
        }
    }

    /// Appends console output; true exactly when it shows the completion marker for the
    /// first time.
    pub fn record_script_console(&mut self, messages: &Vec<String>) -> (newly_completed: bool)
        ensures
            newly_completed == (!old(self).completion_observed && match old(self).completion_marker {
                Some(m) => any_contains(messages@, m@),
                None => false,
            }),
            final(self).completion_observed == (old(self).completion_observed || newly_completed),
            final(self).script_console@ == old(self).script_console@ + messages@,
            final(self).completion_marker == old(self).completion_marker,
            final(self).navigation_targets@ == old(self).navigation_targets@,
            final(self).finish_scheduled == old(self).finish_scheduled,
    {
        let mut found = false;
        if !self.completion_observed {
            match &self.completion_marker {
                Some(marker) => {
                    let mut i: usize = 0;
                    while i < messages.len() && !found
                        invariant
                            i <= messages.len(),
                            found ==> any_contains(messages@, marker@),
                            !found ==> forall|k: int|
                                0 <= k < i ==> !contains_seq(#[trigger] messages@[k]@, marker@),
                        decreases messages.len() - i,
                    {
                        if contains_text(messages[i].as_str(), marker.as_str()) {
                            found = true;
                        }
                        i = i + 1;
                    }
                },
                None => {},
            }
        }
        self.completion_observed = self.completion_observed || found;
        let mut i: usize = 0;
        let ghost start = self.script_console@;
        while i < messages.len()
            invariant
                i <= messages.len(),
                self.script_console@ == start + messages@.subrange(0, i as int),
                self.completion_marker == old(self).completion_marker,
                self.navigation_targets@ == old(self).navigation_targets@,
                self.finish_scheduled == old(self).finish_scheduled,
                self.completion_observed == (old(self).completion_observed || found),
            decreases messages.len() - i,
        {
            self.script_console.push(messages[i].clone());
            assert(messages@.subrange(0, i + 1) =~= messages@.subrange(0, i as int).push(
                messages@[i as int],
            ));
            i = i + 1;
        }
        assert(messages@.subrange(0, messages.len() as int) =~= messages@);
        found
    }

    /// Requests the delayed start of the scripted actions; gives the delay when one is due.
    pub fn schedule_navigation(&mut self) -> (delay_ms: Option<u64>)
        ensures
            delay_ms == (if old(self).navigation_targets@.len() == 0
                || old(self).navigation_scheduled {
                None
            } else {
                Some(old(self).navigation_delay_ms)
            }),
            final(self).navigation_scheduled == (old(self).navigation_scheduled
                || old(self).navigation_targets@.len() > 0),
            final(self).navigation_targets@ == old(self).navigation_targets@,
            final(self).navigation_started_us == old(self).navigation_started_us,
    {
        if self.navigation_targets.len() == 0 || self.navigation_scheduled {
            return None;
        }
        self.navigation_scheduled = true;
        Some(self.navigation_delay_ms)
    }

    /// Takes the next scripted action and notes when it started.
    pub fn next_navigation(&mut self, now_us: u64) -> (target: Option<BenchmarkNavigation>)
        ensures
            !final(self).navigation_scheduled,
            final(self).navigation_started_us == Some(now_us),
            old(self).navigation_targets@.len() == 0 ==> target is None
                && final(self).navigation_targets@.len() == 0,
            old(self).navigation_targets@.len() > 0 ==> target == Some(
                old(self).navigation_targets@[0],
            ) && final(self).navigation_targets@ == old(self).navigation_targets@.subrange(
                1,
                old(self).navigation_targets@.len() as int,
            ),
    {
        self.navigation_scheduled = false;
        self.navigation_started_us = Some(now_us);
        if self.navigation_targets.len() == 0 {
            None
        } else {
            let t = self.navigation_targets.remove(0);
            assert(old(self).navigation_targets@.remove(0) =~= old(self).navigation_targets@.subrange(1, old(self).navigation_targets@.len() as int));
            Some(t)
        }
    }

    /// Requests the end of the run: at most once, through the scrolling trace when there is
    /// one, otherwise after the settle time or the filmstrip, whichever is later.
    pub fn schedule_finish(&mut self, now_us: u64) -> (plan: FinishPlan)
        requires
            old(self).settle_ms <= u64::MAX / 1000,
            match old(self).early_scroll {
                Some(t) => t.duration_us <= u64::MAX - COMPLETION_GRACE_US,
                None => true,
            },
            match old(self).filmstrip {
                Some(f) => match f.started_us {
                    Some(s) => s + f.duration_ms * 1000 + crate::filmstrip::CAPTURE_GRACE_US
                        <= u64::MAX,
                    None => true,
                },
                None => true,
            },
        ensures
            final(self).finish_scheduled,
            old(self).finish_scheduled ==> plan == FinishPlan::AlreadyScheduled,
            !old(self).finish_scheduled ==> plan == spec_finish_plan(*old(self), now_us),
            !old(self).finish_scheduled && old(self).early_scroll is Some ==> final(self).early_scroll is Some && final(self).early_scroll.unwrap().started_us == Some(now_us)
                && final(self).early_scroll.unwrap().previous_activity == old(self).activity,
    {
        if self.finish_scheduled {
            return FinishPlan::AlreadyScheduled;
        }
        self.finish_scheduled = true;
        let settle_us = self.settle_ms * 1000;
        let activity = self.activity;
        match &mut self.early_scroll {
            Some(trace) => {
                let plan = trace.schedule(now_us, settle_us, activity);
                return FinishPlan::Trace(plan);
            },
            None => {},
        }
        let delay = match &self.filmstrip {
            Some(f) => match f.remaining(now_us) {
                Some(remaining) => {
                    if remaining >= settle_us {
                        remaining
                    } else {
                        settle_us
                    }
                },
                None => settle_us,
            },
            None => settle_us,
        };
        FinishPlan::After(delay)
    }
}

} // verus!
