//! Completed offscreen video paints: cadence, interval histogram and the
//! playback state transitions seen by the benchmark. Times are microseconds.
use crate::float_decimal::{decimal_places, per_second_f64, per_second_places, secs_f64, secs_places};
use crate::text::{
    decimal, millis3, push_all, push_decimal, push_millis3, push_rounded3, push_str, push_thousandths,
    rounded3, string_of, thousandths,
};
use vstd::prelude::*;

verus! {

/// Interval histogram buckets: whole milliseconds, the last one collects 1000 ms and more.
pub const INTERVAL_BUCKETS: usize = 1001;
pub const MAX_TRANSITIONS: usize = 128;

/// Playback state reported by the media pipeline.
#[derive(Clone, Copy, Debug, PartialEq, Eq, Structural)]
pub struct MediaState {
    pub playing: bool,
    pub ended: bool,
    /// Playback position in 100 ns units.
    pub current_time_100ns: u64,
}

/// A change of playing/ended state at `elapsed_ms`.
#[derive(Clone, Copy, Debug, PartialEq, Eq, Structural)]
pub struct Transition {
    pub elapsed_ms: u64,
    pub playing: bool,
    pub ended: bool,
    pub position_100ns: u64,
}

pub struct VideoCadence {
    pub first_us: Option<u64>,
    pub last_us: Option<u64>,
    pub count: u64,
    pub maximum_us: u64,
    pub intervals: Vec<u64>,
    pub transitions: Vec<Transition>,
}

/// `n` capped at `u64::MAX`.
pub open spec fn saturated(n: nat) -> nat {
    if n > u64::MAX { u64::MAX as nat } else { n }
}

/// Sum of the first `k` buckets.
pub open spec fn bucket_prefix(b: Seq<u64>, k: int) -> nat
    decreases k,
{
    if k <= 0 {
        0
    } else {
        bucket_prefix(b, k - 1) + b[k - 1] as nat
    }
}

/// The buckets up to and including `k` hold at least `target` intervals.
pub open spec fn reaches(b: Seq<u64>, k: int, target: nat) -> bool {
    bucket_prefix(b, k + 1) >= target
}

/// First bucket at which the running total reaches `target`, or zero.
pub open spec fn p95_bucket(b: Seq<u64>, target: nat) -> nat {
    if exists|k: int| 0 <= k < b.len() && #[trigger] reaches(b, k, target) {
        choose|k: nat|
            k < b.len() && reaches(b, k as int, target) && forall|j: int|
                0 <= j < k ==> !#[trigger] reaches(b, j, target)
    } else {
        0
    }
}

pub open spec fn flag(b: bool) -> Seq<char> {
    if b {
        "true"@
    } else {
        "false"@
    }
}

pub open spec fn transition_json(t: Transition) -> Seq<char> {
    "{\"elapsed_ms\":"@ + decimal(t.elapsed_ms as nat) + ",\"playing\":"@ + flag(t.playing)
        + ",\"ended\":"@ + flag(t.ended) + ",\"position_seconds\":"@ + rounded3(
        t.position_100ns as nat,
        10_000_000,
    ) + "}"@
}

pub open spec fn transitions_json(s: Seq<Transition>) -> Seq<char>
    decreases s.len(),
{
    if s.len() == 0 {
        Seq::empty()
    } else if s.len() == 1 {
        transition_json(s[0])
    } else {
        transitions_json(s.drop_last()) + seq![','] + transition_json(s.last())
    }
}

impl VideoCadence {
    pub open spec fn wf(&self) -> bool {
        self.intervals@.len() == INTERVAL_BUCKETS
    }

    /// Seconds between the first and last paint, written with three decimals.
    pub open spec fn span_us(&self) -> nat {
        match (self.first_us, self.last_us) {
            (Some(f), Some(l)) => if l >= f { (l - f) as nat } else { 0 },
            _ => 0,
        }
    }

    pub open spec fn json_text(&self) -> Seq<char> {
        let span = self.span_us();
        let frames = if self.count >= 1 { (self.count - 1) as nat } else { 0 };
        let target = (saturated(frames * 95) + 99) / 100;
        "{\"painted_frames\":"@ + decimal(self.count as nat) + ",\"span_seconds\":"@ + thousandths(
            decimal_places(secs_f64(span), 1000),
        ) + ",\"fps\":"@ + (if span > 0 {
            thousandths(decimal_places(per_second_f64(frames, span), 1000))
        } else {
            "0.000"@
        }) + ",\"interval_p95_ms_capped_at_1000\":"@ + decimal(
            p95_bucket(self.intervals@, target),
        ) + ",\"maximum_interval_ms\":"@ + millis3(self.maximum_us as nat)
            + ",\"state_transitions\":["@ + transitions_json(self.transitions@) + "]}"@
    }

    /// Nothing painted or observed yet.
    pub fn new() -> (c: Self)
        ensures
            c.wf(),
            c.first_us is None,
            c.last_us is None,
            c.count == 0,
            c.maximum_us == 0,
            forall|i: int| 0 <= i < INTERVAL_BUCKETS ==> c.intervals@[i] == 0,
            c.transitions@.len() == 0,
    {
        let mut intervals: Vec<u64> = Vec::new();
        let mut i: usize = 0;
        while i < INTERVAL_BUCKETS
            invariant
                i <= INTERVAL_BUCKETS,
                intervals@.len() == i,
                forall|k: int| 0 <= k < i ==> intervals@[k] == 0,
            decreases INTERVAL_BUCKETS - i,
        {
            intervals.push(0);
            i = i + 1;
        }
        VideoCadence {
            first_us: None,
            last_us: None,
            count: 0,
            maximum_us: 0,
            intervals,
            transitions: Vec::new(),
        }
    }

    /// Notes the playback state at `elapsed_us`, keeping only changes (at most 128).
    pub fn observe(&mut self, elapsed_us: u64, media: Option<MediaState>)
        ensures
            final(self).first_us == old(self).first_us,
            final(self).last_us == old(self).last_us,
            final(self).count == old(self).count,
            final(self).maximum_us == old(self).maximum_us,
            final(self).intervals@ == old(self).intervals@,
            final(self).transitions@ == match media {
                Some(m) => if old(self).transitions@.len() < MAX_TRANSITIONS && (old(self).transitions@.len() == 0 || old(self).transitions@.last().playing != m.playing
                    || old(self).transitions@.last().ended != m.ended) {
                    old(self).transitions@.push(
                        Transition {
                            elapsed_ms: elapsed_us / 1000,
                            playing: m.playing,
                            ended: m.ended,
                            position_100ns: m.current_time_100ns,
                        },
                    )
                } else {
                    old(self).transitions@
                },
                None => old(self).transitions@,
            },
    {
        let m = match media {
            Some(m) => m,
            None => return ,
        };
        let n = self.transitions.len();
        if n < MAX_TRANSITIONS && (n == 0 || self.transitions[n - 1].playing != m.playing
            || self.transitions[n - 1].ended != m.ended) {
            self.transitions.push(
                Transition {
                    elapsed_ms: elapsed_us / 1000,
                    playing: m.playing,
                    ended: m.ended,
                    position_100ns: m.current_time_100ns,
                },
            );
        }
    }

    /// A frame finished painting at `now_us`.
    pub fn painted(&mut self, now_us: u64)
        requires
            old(self).wf(),
            old(self).count < u64::MAX,
            forall|i: int| 0 <= i < INTERVAL_BUCKETS ==> old(self).intervals@[i] < u64::MAX,
        ensures
            final(self).wf(),
            final(self).count == old(self).count + 1,
            final(self).last_us == Some(now_us),
            final(self).first_us == match old(self).first_us {
                Some(f) => Some(f),
                None => Some(now_us),
            },
            final(self).transitions@ == old(self).transitions@,
            match old(self).last_us {
                Some(last) => {
                    let gap = if now_us >= last { (now_us - last) as nat } else { 0 };
                    let bucket = if gap / 1000 < 1000 { gap / 1000 } else { 1000 };
                    &&& final(self).maximum_us == if gap > old(self).maximum_us {
                        gap as u64
                    } else {
                        old(self).maximum_us
                    }
                    &&& final(self).intervals@ == old(self).intervals@.update(
                        bucket as int,
                        (old(self).intervals@[bucket as int] + 1) as u64,
                    )
                },
                None => final(self).maximum_us == old(self).maximum_us && final(self).intervals@
                    == old(self).intervals@,
            },
    {
        if let Some(last) = self.last_us {
            let gap = now_us.saturating_sub(last);
            if gap > self.maximum_us {
                self.maximum_us = gap;
            }
            let ms = gap / 1000;
            let bucket: usize = if ms < 1000 { ms as usize } else { 1000 };
            let v = self.intervals[bucket];
            self.intervals.set(bucket, v + 1);
        }
        if self.first_us.is_none() {
            self.first_us = Some(now_us);
        }
        self.last_us = Some(now_us);
        self.count = self.count + 1;
    }

    /// The cadence report as a compact JSON object.
    pub fn json(&self) -> (j: String)
        requires
            self.wf(),
        ensures
            j@ == self.json_text(),
    {
        let span: u64 = match (self.first_us, self.last_us) {
            (Some(f), Some(l)) => l.saturating_sub(f),
            _ => 0,
        };
        let frames: u64 = self.count.saturating_sub(1);
        let scaled: u128 = if frames as u128 * 95 > u64::MAX as u128 {
            u64::MAX as u128
        } else {
            frames as u128 * 95
        };
        let target: u128 = (scaled + 99) / 100;
        let mut total: u128 = 0;
        let mut p95: usize = 0;
        let mut found = false;
        let mut k: usize = 0;
        while k < self.intervals.len() && !found
            invariant
                k <= self.intervals@.len() == INTERVAL_BUCKETS,
                total == bucket_prefix(self.intervals@, k as int),
                total <= k * 0xffff_ffff_ffff_ffff,
                !found ==> p95 == 0,
                found ==> k >= 1 && p95 == k - 1 && reaches(self.intervals@, p95 as int, target as nat),
                forall|j: int| 0 <= j < (if found { k - 1 } else { k as int }) ==> !#[trigger] reaches(self.intervals@, j, target as nat),
            decreases self.intervals@.len() - k,
        {
            total = total + self.intervals[k] as u128;
            if total >= target {
                found = true;
                p95 = k;
                assert(bucket_prefix(self.intervals@, k + 1) == total);
            }
            k = k + 1;
        }
        proof {
            let b = self.intervals@;
            if found {
                assert(reaches(b, p95 as int, target as nat));
                let c = choose|c: nat|
                    c < b.len() && reaches(b, c as int, target as nat) && forall|j: int|
                        0 <= j < c ==> !#[trigger] reaches(b, j, target as nat);
                if c < p95 {
                    assert(!reaches(b, c as int, target as nat));
                } else if c > p95 {
                    assert(!reaches(b, p95 as int, target as nat));
                }
                assert(p95_bucket(b, target as nat) == p95);
            } else {
                assert forall|j: int| 0 <= j < b.len() implies !#[trigger] reaches(b, j, target as nat) by {}
                assert(p95_bucket(b, target as nat) == 0);
            }
            assert(p95_bucket(b, target as nat) == p95);
        }
        let mut v: Vec<char> = Vec::new();
        let out = &mut v;
        push_str(out, "{\"painted_frames\":");
        assert(out@ =~= "{\"painted_frames\":"@);
        push_decimal(out, self.count);
        push_str(out, ",\"span_seconds\":");
        push_thousandths(out, secs_places(span, 1000));
        push_str(out, ",\"fps\":");
        if span > 0 {
            push_thousandths(out, per_second_places(frames, span, 1000));
        } else {
            push_str(out, "0.000");
        }
        let ghost head = out@;
        assert(head =~= "{\"painted_frames\":"@ + decimal(self.count as nat) + ",\"span_seconds\":"@ + thousandths(
            decimal_places(secs_f64(self.span_us()), 1000),
        ) + ",\"fps\":"@ + (if self.span_us() > 0 {
            thousandths(
                decimal_places(
                    per_second_f64(
                        if self.count >= 1 { (self.count - 1) as nat } else { 0 },
                        self.span_us(),
                    ),
                    1000,
                ),
            )
        } else {
            "0.000"@
        }));
        push_str(out, ",\"interval_p95_ms_capped_at_1000\":");
        push_decimal(out, p95 as u64);
        push_str(out, ",\"maximum_interval_ms\":");
        push_millis3(out, self.maximum_us);
        push_str(out, ",\"state_transitions\":[");
        let mut list: Vec<char> = Vec::new();
        let mut i: usize = 0;
        while i < self.transitions.len()
            invariant
                i <= self.transitions@.len(),
                list@ == transitions_json(self.transitions@.subrange(0, i as int)),
            decreases self.transitions@.len() - i,
        {
            if i > 0 {
                list.push(',');
            }
            let t = self.transitions[i];
            let mut e: Vec<char> = Vec::new();
            push_str(&mut e, "{\"elapsed_ms\":");
            assert(e@ =~= "{\"elapsed_ms\":"@);
            push_decimal(&mut e, t.elapsed_ms);
            push_str(&mut e, ",\"playing\":");
            if t.playing {
                push_str(&mut e, "true");
            } else {
                push_str(&mut e, "false");
            }
            push_str(&mut e, ",\"ended\":");
            if t.ended {
                push_str(&mut e, "true");
            } else {
                push_str(&mut e, "false");
            }
            push_str(&mut e, ",\"position_seconds\":");
            push_rounded3(&mut e, t.position_100ns, 10_000_000);
            push_str(&mut e, "}");
            assert(e@ == transition_json(t));
            push_all(&mut list, e.as_slice());
            proof {
                let p = self.transitions@.subrange(0, i + 1);
                assert(p.drop_last() =~= self.transitions@.subrange(0, i as int));
                if i == 0 {
                    assert(p[0] == t);
                }
                assert(list@ =~= transitions_json(p));
            }
            i = i + 1;
        }
        assert(self.transitions@.subrange(0, self.transitions@.len() as int) =~= self.transitions@);
        push_all(out, list.as_slice());
        push_str(out, "]}");
        assert(list@ == transitions_json(self.transitions@));
        proof {
            let sp = self.span_us();
            assert(sp == span as nat);
            let fr: nat = if self.count >= 1 { (self.count - 1) as nat } else { 0 };
            assert(fr == frames as nat);
            assert((saturated(fr * 95) + 99) / 100 == target as nat);
        }
        string_of(v.as_slice())
    }
}

} // verus!
