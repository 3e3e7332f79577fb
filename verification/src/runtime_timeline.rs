//! Renderer task progress seen by the browser while a benchmark page starts,
//! for startup profiling. Times are microseconds.
use crate::text::{decimal, millis3, push_all, push_decimal, push_millis3, push_str, string_of};
use vstd::prelude::*;

verus! {

/// Samples kept at most; later ones are dropped.
pub const MAX_RUNTIME_TIMELINE_SAMPLES: usize = 4_096;

/// Renderer progress at one moment after the navigation started.
#[derive(Clone, Copy, Debug, PartialEq, Eq, Structural)]
pub struct RuntimeSample {
    pub elapsed_us: u64,
    pub scripts: u64,
    pub mutations: u64,
    pub script_us: u64,
    pub script_fetch_wait_us: u64,
    pub rendered: bool,
}

/// The samples, oldest first.
pub struct RuntimeTimeline {
    pub samples: Vec<RuntimeSample>,
}

pub open spec fn sample_json(s: RuntimeSample) -> Seq<char> {
    "    {\"elapsed_ms\": "@ + millis3(s.elapsed_us as nat) + ", \"scripts\": "@ + decimal(s.scripts as nat)
        + ", \"mutations\": "@ + decimal(s.mutations as nat) + ", \"script_ms\": "@ + millis3(
        s.script_us as nat,
    ) + ", \"script_fetch_wait_ms\": "@ + millis3(s.script_fetch_wait_us as nat) + ", \"rendered\": "@
        + (if s.rendered {
        "true"@
    } else {
        "false"@
    }) + "}"@
}

/// Samples joined by `",\n"`.
pub open spec fn samples_json(s: Seq<RuntimeSample>) -> Seq<char>
    decreases s.len(),
{
    if s.len() == 0 {
        Seq::empty()
    } else if s.len() == 1 {
        sample_json(s[0])
    } else {
        samples_json(s.drop_last()) + ",\n"@ + sample_json(s.last())
    }
}

impl RuntimeTimeline {
    pub fn new() -> (t: Self)
        ensures
            t.samples@.len() == 0,
    {
        RuntimeTimeline { samples: Vec::new() }
    }

    /// Adds a sample `navigation_elapsed_us` after the navigation started;
    /// nothing happens without a started navigation or once the timeline is full.
    pub fn record(
        &mut self,
        navigation_elapsed_us: Option<u64>,
        scripts: u64,
        mutations: u64,
        script_us: u64,
        script_fetch_wait_us: u64,
        rendered: bool,
    )
        ensures
            match navigation_elapsed_us {
                Some(elapsed_us) => if old(self).samples@.len() < MAX_RUNTIME_TIMELINE_SAMPLES {
                    final(self).samples@ == old(self).samples@.push(
                        RuntimeSample { elapsed_us, scripts, mutations, script_us, script_fetch_wait_us, rendered },
                    )
                } else {
                    final(self).samples@ == old(self).samples@
                },
                None => final(self).samples@ == old(self).samples@,
            },
    {
        let elapsed_us = match navigation_elapsed_us {
            Some(e) => e,
            None => return ,
        };
        if self.samples.len() >= MAX_RUNTIME_TIMELINE_SAMPLES {
            return ;
        }
        self.samples.push(
            RuntimeSample { elapsed_us, scripts, mutations, script_us, script_fetch_wait_us, rendered },
        );
    }

    /// The samples as an indented JSON array.
    pub fn to_json(&self) -> (j: String)
        ensures
            j@ == "[\n"@ + samples_json(self.samples@) + "\n  ]"@,
    {
        let mut list: Vec<char> = Vec::new();
        let mut i: usize = 0;
        while i < self.samples.len()
            invariant
                i <= self.samples@.len(),
                list@ == samples_json(self.samples@.take(i as int)),
            decreases self.samples@.len() - i,
        {
            proof {
                assert(self.samples@.take(i + 1).drop_last() =~= self.samples@.take(i as int));
            }
            if i > 0 {
                push_str(&mut list, ",\n");
            }
            let s = self.samples[i];
            let mut e: Vec<char> = Vec::new();
            push_str(&mut e, "    {\"elapsed_ms\": ");
            assert(e@ =~= "    {\"elapsed_ms\": "@);
            push_millis3(&mut e, s.elapsed_us);
            push_str(&mut e, ", \"scripts\": ");
            push_decimal(&mut e, s.scripts);
            push_str(&mut e, ", \"mutations\": ");
            push_decimal(&mut e, s.mutations);
            push_str(&mut e, ", \"script_ms\": ");
            push_millis3(&mut e, s.script_us);
            push_str(&mut e, ", \"script_fetch_wait_ms\": ");
            push_millis3(&mut e, s.script_fetch_wait_us);
            push_str(&mut e, ", \"rendered\": ");
            if s.rendered {
                push_str(&mut e, "true");
            } else {
                push_str(&mut e, "false");
            }
            push_str(&mut e, "}");
            assert(e@ == sample_json(s));
            push_all(&mut list, e.as_slice());
            proof {
                if i == 0 {
                    assert(list@ =~= samples_json(self.samples@.take(1)));
                } else {
                    assert(list@ =~= samples_json(self.samples@.take(i + 1)));
                }
            }
            i = i + 1;
        }
        proof {
            assert(self.samples@.take(self.samples@.len() as int) =~= self.samples@);
        }
        let mut v: Vec<char> = Vec::new();
        push_str(&mut v, "[\n");
        assert(v@ =~= "[\n"@);
        push_all(&mut v, list.as_slice());
        push_str(&mut v, "\n  ]");
        string_of(v.as_slice())
    }
}

} // verus!
