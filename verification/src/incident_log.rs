//! Bounded per-tab incident history exported by the diagnostics panel.
use crate::text::{
    chars_of, decimal, millis1, pad_left, pad_right, push_all, push_decimal, push_millis1,
    push_padded_left, push_padded_right, push_str, spec_is_whitespace, string_of, is_whitespace,
};
use vstd::prelude::*;
use std::collections::VecDeque;

verus! {

pub const MAX_INCIDENT_RECORDS: usize = 192;
pub const MAX_INCIDENT_DETAIL_CHARS: usize = 512;

/// One logged incident; `elapsed_us` is measured from the log's creation.
pub struct IncidentRecord {
    pub elapsed_us: u64,
    pub category: String,
    pub detail: String,
}

pub struct IncidentLog {
    pub records: VecDeque<IncidentRecord>,
    pub navigations: u64,
    pub presentations: u64,
    pub runtime_updates: u64,
    pub fetch_batches: u64,
    pub cookie_mutations: u64,
    pub storage_mutations: u64,
}

/// A record as character sequences.
pub struct RecordView {
    pub elapsed_us: u64,
    pub category: Seq<char>,
    pub detail: Seq<char>,
}

pub open spec fn record_views(r: Seq<IncidentRecord>) -> Seq<RecordView> {
    Seq::new(
        r.len(),
        |i: int| RecordView { elapsed_us: r[i].elapsed_us, category: r[i].category@, detail: r[i].detail@ },
    )
}

/// The newest `MAX_INCIDENT_RECORDS` of a history.
pub open spec fn newest_records(s: Seq<RecordView>) -> Seq<RecordView> {
    if s.len() > MAX_INCIDENT_RECORDS {
        s.subrange(s.len() - MAX_INCIDENT_RECORDS, s.len() as int)
    } else {
        s
    }
}

/// At most the first `n` characters.
pub open spec fn take_chars(s: Seq<char>, n: nat) -> Seq<char> {
    if s.len() > n {
        s.subrange(0, n as int)
    } else {
        s
    }
}

/// Words of `s` joined by single spaces, folded from the left: the text so far and
/// whether a separator is due before the next word.
pub open spec fn collapse_state(s: Seq<char>) -> (res: (Seq<char>, bool))
    decreases s.len(),
{
    if s.len() == 0 {
        (Seq::empty(), false)
    } else {
        let (out, pending) = collapse_state(s.drop_last());
        let c = s.last();
        if spec_is_whitespace(c) {
            (out, out.len() > 0)
        } else if pending {
            (out.push(' ').push(c), false)
        } else {
            (out.push(c), false)
        }
    }
}

/// `split_whitespace().join(" ")`.
pub open spec fn collapse_whitespace(s: Seq<char>) -> Seq<char> {
    collapse_state(s).0
}

/// The panel label of a record.
pub open spec fn record_label(r: RecordView) -> Seq<char> {
    pad_left(millis1(r.elapsed_us as nat), 8) + " ms  "@ + pad_right(r.category, 10) + seq![' ']
        + collapse_whitespace(r.detail)
}

/// The report line of a record.
pub open spec fn record_line(r: RecordView) -> Seq<char> {
    pad_left(millis1(r.elapsed_us as nat), 10) + " ms | "@ + pad_right(r.category, 12) + " | "@
        + r.detail + seq!['\n']
}

pub open spec fn record_lines(s: Seq<RecordView>) -> Seq<char>
    decreases s.len(),
{
    if s.len() == 0 {
        Seq::empty()
    } else {
        record_lines(s.drop_last()) + record_line(s.last())
    }
}

/// Collapsing whitespace leaves no line breaks or tabs: a label is one line.
pub proof fn lemma_collapse_single_line(s: Seq<char>)
    ensures
        forall|i: int|
            0 <= i < collapse_whitespace(s).len() ==> (#[trigger] collapse_whitespace(s)[i] == ' '
                || !spec_is_whitespace(collapse_whitespace(s)[i])),
    decreases s.len(),
{
    if s.len() > 0 {
        lemma_collapse_single_line(s.drop_last());
        let (out, pending) = collapse_state(s.drop_last());
        let c = s.last();
        let r = collapse_whitespace(s);
        assert forall|i: int| 0 <= i < r.len() implies (#[trigger] r[i] == ' ' || !spec_is_whitespace(
            r[i],
        )) by {
            if i < out.len() {
                assert(r[i] == out[i]);
                assert(out[i] == collapse_whitespace(s.drop_last())[i]);
            }
        }
    }
}

fn collapse(v: &[char]) -> (r: Vec<char>)
    ensures
        r@ == collapse_whitespace(v@),
{
    let mut out: Vec<char> = Vec::new();
    let mut pending = false;
    let mut i: usize = 0;
    while i < v.len()
        invariant
            i <= v.len(),
            (out@, pending) == collapse_state(v@.subrange(0, i as int)),
        decreases v.len() - i,
    {
        let c = v[i];
        proof {
            let p = v@.subrange(0, i + 1);
            assert(p.drop_last() =~= v@.subrange(0, i as int));
            assert(p.last() == c);
        }
        if is_whitespace(c) {
            pending = out.len() > 0;
        } else {
            if pending {
                out.push(' ');
            }
            out.push(c);
            pending = false;
        }
        i = i + 1;
    }
    assert(v@.subrange(0, v.len() as int) =~= v@);
    out
}

impl IncidentLog {
    pub open spec fn history(&self) -> Seq<RecordView> {
        record_views(self.records@)
    }

    /// An empty log.
    pub fn new() -> (log: Self)
        ensures
            log.records@.len() == 0,
            log.navigations == 0,
            log.presentations == 0,
            log.runtime_updates == 0,
            log.fetch_batches == 0,
            log.cookie_mutations == 0,
            log.storage_mutations == 0,
    {
        IncidentLog {
            records: VecDeque::new(),
            navigations: 0,
            presentations: 0,
            runtime_updates: 0,
            fetch_batches: 0,
            cookie_mutations: 0,
            storage_mutations: 0,
        }
    }

    pub fn record_count(&self) -> (n: usize)
        ensures
            n == self.records@.len(),
    {
        self.records.len()
    }

    /// Appends an incident with its detail cut to 512 characters, keeping the newest 192.
    pub fn record(&mut self, category: &str, detail: &str, elapsed_us: u64)
        ensures
            final(self).history() == newest_records(
                old(self).history().push(
                    RecordView {
                        elapsed_us,
                        category: category@,
                        detail: take_chars(detail@, MAX_INCIDENT_DETAIL_CHARS as nat),
                    },
                ),
            ),
            final(self).navigations == old(self).navigations,
            final(self).presentations == old(self).presentations,
            final(self).runtime_updates == old(self).runtime_updates,
            final(self).fetch_batches == old(self).fetch_batches,
            final(self).cookie_mutations == old(self).cookie_mutations,
            final(self).storage_mutations == old(self).storage_mutations,
    {
        let d = chars_of(detail);
        let cut = if d.len() > MAX_INCIDENT_DETAIL_CHARS {
            crate::text::copy_range(d.as_slice(), 0, MAX_INCIDENT_DETAIL_CHARS)
        } else {
            d
        };
        let record = IncidentRecord {
            elapsed_us,
            category: string_of(chars_of(category).as_slice()),
            detail: string_of(cut.as_slice()),
        };
        let ghost target = old(self).history().push(
            RecordView {
                elapsed_us,
                category: category@,
                detail: take_chars(detail@, MAX_INCIDENT_DETAIL_CHARS as nat),
            },
        );
        self.records.push_back(record);
        assert(self.history() =~= target);
        while self.records.len() > MAX_INCIDENT_RECORDS
            invariant
                newest_records(self.history()) == newest_records(target),
                self.navigations == old(self).navigations,
                self.presentations == old(self).presentations,
                self.runtime_updates == old(self).runtime_updates,
                self.fetch_batches == old(self).fetch_batches,
                self.cookie_mutations == old(self).cookie_mutations,
                self.storage_mutations == old(self).storage_mutations,
            decreases self.records@.len(),
        {
            let ghost before = self.history();
            let _ = self.records.pop_front();
            assert(self.history() =~= before.drop_first());
            assert(newest_records(self.history()) =~= newest_records(before));
        }
        assert(newest_records(self.history()) =~= self.history());
    }

    /// Records an accepted pointer input other than a move, under "input", as
    /// "pointer PHASE/BUTTON sequence N" (the phase and button by name).
    pub fn record_pointer(&mut self, accepted: bool, moving: bool, phase: &str, button: &str, sequence: u64, elapsed_us: u64)
        ensures
            accepted && !moving ==> final(self).history() == newest_records(
                old(self).history().push(
                    RecordView {
                        elapsed_us,
                        category: "input"@,
                        detail: take_chars(
                            "pointer "@ + phase@ + "/"@ + button@ + " sequence "@ + decimal(sequence as nat),
                            MAX_INCIDENT_DETAIL_CHARS as nat,
                        ),
                    },
                ),
            ),
            !(accepted && !moving) ==> final(self).history() == old(self).history(),
            final(self).navigations == old(self).navigations,
            final(self).presentations == old(self).presentations,
            final(self).runtime_updates == old(self).runtime_updates,
            final(self).fetch_batches == old(self).fetch_batches,
            final(self).cookie_mutations == old(self).cookie_mutations,
            final(self).storage_mutations == old(self).storage_mutations,
    {
        if !accepted || moving {
            return;
        }
        let mut v: Vec<char> = Vec::new();
        push_str(&mut v, "pointer ");
        assert(v@ =~= "pointer "@);
        push_str(&mut v, phase);
        push_str(&mut v, "/");
        push_str(&mut v, button);
        push_str(&mut v, " sequence ");
        push_decimal(&mut v, sequence);
        let detail = string_of(v.as_slice());
        self.record("input", detail.as_str(), elapsed_us);
    }

    /// Single-line labels of the newest `maximum` records, oldest first.
    pub fn recent_labels(&self, maximum: usize) -> (labels: Vec<String>)
        ensures
            ({
                let h = self.history();
                let start = if h.len() > maximum { h.len() - maximum } else { 0 };
                &&& labels@.len() == h.len() - start
                &&& forall|i: int|
                    0 <= i < labels@.len() ==> #[trigger] labels@[i]@ == record_label(h[start + i])
            }),
    {
        let ghost h = self.history();
        let n = self.records.len();
        let start = if n > maximum { n - maximum } else { 0 };
        let mut labels: Vec<String> = Vec::new();
        let mut i: usize = start;
        while i < n
            invariant
                start <= i <= n == self.records@.len(),
                h == self.history(),
                labels@.len() == i - start,
                forall|k: int| 0 <= k < labels@.len() ==> #[trigger] labels@[k]@ == record_label(h[start + k]),
            decreases n - i,
        {
            let record = &self.records[i];
            let mut v: Vec<char> = Vec::new();
            let ms = {
                let mut m: Vec<char> = Vec::new();
                push_millis1(&mut m, record.elapsed_us);
                m
            };
            push_padded_left(&mut v, ms.as_slice(), 8);
            assert(v@ =~= pad_left(millis1(record.elapsed_us as nat), 8));
            push_str(&mut v, " ms  ");
            let category = chars_of(record.category.as_str());
            push_padded_right(&mut v, category.as_slice(), 10);
            v.push(' ');
            let detail = chars_of(record.detail.as_str());
            let collapsed = collapse(detail.as_slice());
            push_all(&mut v, collapsed.as_slice());
            assert(h[i as int] == RecordView {
                elapsed_us: record.elapsed_us,
                category: record.category@,
                detail: record.detail@,
            });
            labels.push(string_of(v.as_slice()));
            i = i + 1;
        }
        labels
    }

    /// The text of `report`.
    pub open spec fn report_text(&self) -> Seq<char> {
        "Counters: navigations="@ + decimal(self.navigations as nat)
            + ", presentations="@ + decimal(self.presentations as nat) + ", runtime_updates="@
            + decimal(self.runtime_updates as nat) + ", fetch_batches="@ + decimal(
            self.fetch_batches as nat,
        ) + ", cookie_mutations="@ + decimal(self.cookie_mutations as nat)
            + ", storage_mutations="@ + decimal(self.storage_mutations as nat) + seq!['\n']
            + "Timeline (oldest to newest):\r\n"@ + record_lines(self.history())
    }

    /// The full report: counters, then every record oldest first.
    pub fn report(&self) -> (text: String)
        ensures
            text@ == self.report_text(),
            text@ == "Counters: navigations="@ + decimal(self.navigations as nat)
                + ", presentations="@ + decimal(self.presentations as nat) + ", runtime_updates="@
                + decimal(self.runtime_updates as nat) + ", fetch_batches="@ + decimal(
                self.fetch_batches as nat,
            ) + ", cookie_mutations="@ + decimal(self.cookie_mutations as nat)
                + ", storage_mutations="@ + decimal(self.storage_mutations as nat) + seq!['\n']
                + "Timeline (oldest to newest):\r\n"@ + record_lines(self.history()),
    {
        let mut lines: Vec<char> = Vec::new();
        let ghost h = self.history();
        let mut i: usize = 0;
        while i < self.records.len()
            invariant
                i <= self.records@.len(),
                h == self.history(),
                lines@ == record_lines(h.subrange(0, i as int)),
            decreases self.records@.len() - i,
        {
            let record = &self.records[i];
            let mut v: Vec<char> = Vec::new();
            let mut m: Vec<char> = Vec::new();
            push_millis1(&mut m, record.elapsed_us);
            push_padded_left(&mut v, m.as_slice(), 10);
            assert(v@ =~= pad_left(millis1(record.elapsed_us as nat), 10));
            push_str(&mut v, " ms | ");
            let category = chars_of(record.category.as_str());
            push_padded_right(&mut v, category.as_slice(), 12);
            push_str(&mut v, " | ");
            let detail = chars_of(record.detail.as_str());
            push_all(&mut v, detail.as_slice());
            v.push('\n');
            proof {
                let p = h.subrange(0, i + 1);
                assert(p.drop_last() =~= h.subrange(0, i as int));
                assert(p.last() == h[i as int]);
                assert(v@ == record_line(h[i as int]));
            }
            push_all(&mut lines, v.as_slice());
            i = i + 1;
        }
        assert(h.subrange(0, self.records@.len() as int) =~= h);
        let mut out: Vec<char> = Vec::new();
        push_str(&mut out, "Counters: navigations=");
        assert(out@ =~= "Counters: navigations="@);
        push_decimal(&mut out, self.navigations);
        push_str(&mut out, ", presentations=");
        push_decimal(&mut out, self.presentations);
        push_str(&mut out, ", runtime_updates=");
        push_decimal(&mut out, self.runtime_updates);
        push_str(&mut out, ", fetch_batches=");
        push_decimal(&mut out, self.fetch_batches);
        push_str(&mut out, ", cookie_mutations=");
        push_decimal(&mut out, self.cookie_mutations);
        push_str(&mut out, ", storage_mutations=");
        push_decimal(&mut out, self.storage_mutations);
        out.push('\n');
        push_str(&mut out, "Timeline (oldest to newest):\r\n");
        push_all(&mut out, lines.as_slice());
        string_of(out.as_slice())
    }
}

/// The history keeps the newest records, at most `MAX_INCIDENT_RECORDS` of them.
pub proof fn lemma_history_bounded(s: Seq<RecordView>)
    ensures
        newest_records(s).len() <= MAX_INCIDENT_RECORDS,
        s.len() > 0 ==> newest_records(s).last() == s.last(),
{
}

} // verus!
