//! Navigation-anchored screenshot schedule: validation, frame names, the
//! ordered frame list and its JSON manifest.
use crate::text::{
    chars_of, decimal, json_quoted, millis3, push_all, push_decimal, push_json_string,
    push_millis3, push_str, push_zero_padded, string_of, zero_padded,
};
use vstd::prelude::*;

verus! {

/// Grace period after the last frame before the benchmark may finish (250 ms).
pub const CAPTURE_GRACE_US: u64 = 250_000;

/// Upper bound on frames in one filmstrip.
pub const MAX_FILMSTRIP_FRAMES: usize = 120;

/// A captured (or failed) frame.
#[derive(Clone, Debug, PartialEq, Eq)]
pub struct FilmstripFrame {
    pub scheduled_ms: u64,
    /// Time since the anchor when the frame was captured.
    pub captured_us: u64,
    pub file: String,
    pub error: Option<String>,
}

/// A screenshot schedule anchored at navigation start.
pub struct Filmstrip {
    pub directory: String,
    pub interval_ms: u64,
    pub duration_ms: u64,
    pub frame_count: usize,
    pub scheduled: bool,
    pub started_us: Option<u64>,
    pub frames: Vec<FilmstripFrame>,
}

/// Frames ordered by their scheduled time.
pub open spec fn frames_ordered(frames: Seq<FilmstripFrame>) -> bool {
    forall|i: int, j: int|
        0 <= i < j < frames.len() ==> frames[i].scheduled_ms <= frames[j].scheduled_ms
}

/// Why a filmstrip configuration is refused, if it is.
pub open spec fn filmstrip_error(interval_ms: u64, duration_ms: u64) -> Option<Seq<char>> {
    if interval_ms == 0 || duration_ms == 0 || duration_ms % interval_ms != 0 {
        Some("filmstrip duration must be a positive multiple of its interval"@)
    } else if duration_ms / interval_ms > usize::MAX {
        Some("filmstrip frame count is too large"@)
    } else if duration_ms / interval_ms > MAX_FILMSTRIP_FRAMES {
        Some("filmstrip requires between 1 and 120 frames"@)
    } else {
        None
    }
}

/// The file name of frame `index`, scheduled at `scheduled_ms`.
pub open spec fn frame_file_name(scheduled_ms: u64) -> Seq<char> {
    "frame-"@ + zero_padded(scheduled_ms as nat, 6) + "ms.png"@
}

/// One manifest entry.
pub open spec fn frame_json(frame: FilmstripFrame) -> Seq<char> {
    "    {\"scheduled_ms\": "@ + decimal(frame.scheduled_ms as nat) + ", \"captured_ms\": "@
        + millis3(frame.captured_us as nat) + ", \"file\": "@ + json_quoted(frame.file@)
        + ", \"error\": "@ + match frame.error {
        Some(e) => json_quoted(e@),
        None => "null"@,
    } + "}"@
}

/// Manifest entries joined with `,\n`.
pub open spec fn frames_json(frames: Seq<FilmstripFrame>) -> Seq<char>
    decreases frames.len(),
{
    if frames.len() == 0 {
        Seq::empty()
    } else if frames.len() == 1 {
        frame_json(frames[0])
    } else {
        frames_json(frames.drop_last()) + seq![',', '\n'] + frame_json(frames.last())
    }
}

/// The manifest written beside the frames.
pub open spec fn manifest_json(interval_ms: u64, duration_ms: u64, frames: Seq<FilmstripFrame>) -> Seq<
    char,
> {
    "{\n  \"anchor\": \"navigation_start\",\n  \"interval_ms\": "@ + decimal(interval_ms as nat)
        + ",\n  \"duration_ms\": "@ + decimal(duration_ms as nat) + ",\n  \"frames\": [\n"@
        + frames_json(frames) + "\n  ]\n}\n"@
}

/// Index at which a frame with `key` enters an ordered list, after every frame with an
/// equal or earlier time.
pub open spec fn insertion_point(frames: Seq<FilmstripFrame>, key: u64) -> int {
    if exists|i: int| 0 <= i < frames.len() && frames[i].scheduled_ms > key {
        choose|i: int|
            0 <= i < frames.len() && frames[i].scheduled_ms > key && forall|j: int|
                0 <= j < i ==> frames[j].scheduled_ms <= key
    } else {
        frames.len() as int
    }
}

impl Filmstrip {
    /// Consistent schedule: a positive interval dividing the duration into at most 120 frames,
    /// recorded frames in order.
    pub open spec fn wf(&self) -> bool {
        &&& self.interval_ms > 0
        &&& 1 <= self.frame_count <= MAX_FILMSTRIP_FRAMES
        &&& self.duration_ms == self.interval_ms * self.frame_count
        &&& frames_ordered(self.frames@)
    }

    /// Validates the schedule; frames fall every `interval_ms` up to `duration_ms`.
    pub fn new(directory: String, interval_ms: u64, duration_ms: u64) -> (r: Result<Self, String>)
        ensures
            match r {
                Ok(f) => filmstrip_error(interval_ms, duration_ms) is None && f.wf() && f.directory
                    == directory && f.interval_ms == interval_ms && f.duration_ms == duration_ms
                    && f.frame_count == duration_ms / interval_ms && !f.scheduled
                    && f.started_us is None && f.frames@.len() == 0,
                Err(e) => filmstrip_error(interval_ms, duration_ms) == Some(e@),
            },
    {
        if interval_ms == 0 || duration_ms == 0 || duration_ms % interval_ms != 0 {
            return Err(
                string_of(
                    chars_of("filmstrip duration must be a positive multiple of its interval").as_slice(),
                ),
            );
        }
        let count = duration_ms / interval_ms;
        assert(count >= 1) by (nonlinear_arith)
            requires
                duration_ms > 0,
                interval_ms > 0,
                duration_ms % interval_ms == 0,
                count == duration_ms / interval_ms,
        ;
        if count > usize::MAX as u64 {
            return Err(string_of(chars_of("filmstrip frame count is too large").as_slice()));
        }
        if count == 0 || count > MAX_FILMSTRIP_FRAMES as u64 {
            return Err(
                string_of(chars_of("filmstrip requires between 1 and 120 frames").as_slice()),
            );
        }
        assert(duration_ms == interval_ms * count) by (nonlinear_arith)
            requires
                duration_ms % interval_ms == 0,
                count == duration_ms / interval_ms,
                interval_ms > 0,
        ;
        Ok(
            Filmstrip {
                directory,
                interval_ms,
                duration_ms,
                frame_count: count as usize,
                scheduled: false,
                started_us: None,
                frames: Vec::new(),
            },
        )
    }

    /// Time left until the last frame plus the grace period, once started.
    pub fn remaining(&self, now_us: u64) -> (r: Option<u64>)
        requires
            self.started_us matches Some(s) ==> s + self.duration_ms * 1000 + CAPTURE_GRACE_US
                <= u64::MAX,
        ensures
            r == match self.started_us {
                Some(s) => Some(
                    (if s + self.duration_ms * 1000 + CAPTURE_GRACE_US >= now_us {
                        s + self.duration_ms * 1000 + CAPTURE_GRACE_US - now_us
                    } else {
                        0
                    }) as u64,
                ),
                None => None,
            },
    {
        match self.started_us {
            Some(s) => {
                let end = s + self.duration_ms * 1000 + CAPTURE_GRACE_US;
                Some(end.saturating_sub(now_us))
            },
            None => None,
        }
    }

    /// File name and scheduled time of frame `index` (frames are numbered from one).
    pub fn path(&self, index: usize) -> (r: Option<(String, u64)>)
        requires
            self.wf(),
        ensures
            match r {
                Some((name, ms)) => 1 <= index <= self.frame_count && ms == self.interval_ms
                    * index && name@ == frame_file_name(ms),
                None => index == 0 || index > self.frame_count,
            },
    {
        if index == 0 || index > self.frame_count {
            return None;
        }
        assert(self.interval_ms * index <= self.interval_ms * self.frame_count) by (nonlinear_arith)
            requires
                index <= self.frame_count,
        ;
        let scheduled_ms = self.interval_ms * index as u64;
        let mut v: Vec<char> = Vec::new();
        push_str(&mut v, "frame-");
        assert(v@ =~= "frame-"@);
        push_zero_padded(&mut v, scheduled_ms, 6);
        push_str(&mut v, "ms.png");
        Some((string_of(v.as_slice()), scheduled_ms))
    }

    /// Adds a frame in scheduled order and returns the manifest to write.
    pub fn record(&mut self, frame: FilmstripFrame) -> (manifest: String)
        requires
            old(self).wf(),
        ensures
            final(self).wf(),
            final(self).frames@ == old(self).frames@.insert(
                insertion_point(old(self).frames@, frame.scheduled_ms),
                frame,
            ),
            final(self).interval_ms == old(self).interval_ms,
            final(self).duration_ms == old(self).duration_ms,
            final(self).frame_count == old(self).frame_count,
            final(self).directory == old(self).directory,
            final(self).scheduled == old(self).scheduled,
            final(self).started_us == old(self).started_us,
            manifest@ == manifest_json(
                final(self).interval_ms,
                final(self).duration_ms,
                final(self).frames@,
            ),
    {
        let key = frame.scheduled_ms;
        let mut p: usize = 0;
        while p < self.frames.len() && self.frames[p].scheduled_ms <= key
            invariant
                p <= self.frames.len(),
                forall|j: int| 0 <= j < p ==> self.frames@[j].scheduled_ms <= key,
            decreases self.frames.len() - p,
        {
            p = p + 1;
        }
        proof {
            let fs = self.frames@;
            if p < fs.len() {
                assert(fs[p as int].scheduled_ms > key);
                let c = insertion_point(fs, key);
                if c < p {
                    assert(fs[c].scheduled_ms <= key);
                } else if c > p {
                    assert(fs[p as int].scheduled_ms <= key);
                }
            } else {
                assert forall|i: int| 0 <= i < fs.len() implies fs[i].scheduled_ms <= key by {}
            }
        }
        let ghost before = self.frames@;
        self.frames.insert(p, frame);
        proof {
            let fs = self.frames@;
            assert forall|i: int, j: int| 0 <= i < j < fs.len() implies fs[i].scheduled_ms
                <= fs[j].scheduled_ms by {
                if j < p {
                } else if j == p {
                } else if i < p {
                    assert(before[p as int].scheduled_ms > key);
                    assert(before[p as int].scheduled_ms <= before[j - 1].scheduled_ms || p
                        == j - 1);
                } else if i == p {
                    assert(before[p as int].scheduled_ms <= before[j - 1].scheduled_ms || p
                        == j - 1);
                } else {
                }
            }
        }
        self.manifest()
    }

    fn frame_chars(frame: &FilmstripFrame) -> (r: Vec<char>)
        ensures
            r@ == frame_json(*frame),
    {
        let mut v: Vec<char> = Vec::new();
        let out = &mut v;
        push_str(out, "    {\"scheduled_ms\": ");
        assert(out@ =~= "    {\"scheduled_ms\": "@);
        push_decimal(out, frame.scheduled_ms);
        push_str(out, ", \"captured_ms\": ");
        push_millis3(out, frame.captured_us);
        push_str(out, ", \"file\": ");
        let file = chars_of(frame.file.as_str());
        push_json_string(out, file.as_slice());
        push_str(out, ", \"error\": ");
        let ghost mid = out@;
        match &frame.error {
            Some(e) => {
                let ec = chars_of(e.as_str());
                push_json_string(out, ec.as_slice());
            },
            None => {
                push_str(out, "null");
            },
        }
        push_str(out, "}");
        v
    }

    /// The manifest for the frames recorded so far.
    pub fn manifest(&self) -> (m: String)
        ensures
            m@ == manifest_json(self.interval_ms, self.duration_ms, self.frames@),
    {
        let mut list: Vec<char> = Vec::new();
        let mut i: usize = 0;
        while i < self.frames.len()
            invariant
                i <= self.frames.len(),
                list@ == frames_json(self.frames@.subrange(0, i as int)),
            decreases self.frames.len() - i,
        {
            if i > 0 {
                list.push(',');
                list.push('\n');
            }
            let text = Self::frame_chars(&self.frames[i]);
            push_all(&mut list, text.as_slice());
            proof {
                let p = self.frames@.subrange(0, i + 1);
                assert(p.drop_last() =~= self.frames@.subrange(0, i as int));
                if i == 0 {
                    assert(p[0] == self.frames@[0]);
                }
                assert(list@ =~= frames_json(p));
            }
            i = i + 1;
        }
        assert(self.frames@.subrange(0, self.frames.len() as int) =~= self.frames@);
        let mut v: Vec<char> = Vec::new();
        let out = &mut v;
        push_str(out, "{\n  \"anchor\": \"navigation_start\",\n  \"interval_ms\": ");
        assert(out@ =~= "{\n  \"anchor\": \"navigation_start\",\n  \"interval_ms\": "@);
        push_decimal(out, self.interval_ms);
        push_str(out, ",\n  \"duration_ms\": ");
        push_decimal(out, self.duration_ms);
        push_str(out, ",\n  \"frames\": [\n");
        push_all(out, list.as_slice());
        push_str(out, "\n  ]\n}\n");
        string_of(v.as_slice())
    }
}

} // verus!
