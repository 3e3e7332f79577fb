//! The bounded queue that hands assistive-technology requests from the
//! adapter's thread to the window's thread.
use std::collections::VecDeque;
use vstd::prelude::*;

verus! {

/// Requests held before further ones are dropped.
pub const MAX_QUEUED_ACCESSIBILITY_ACTIONS: usize = 64;

/// Pending requests, oldest first, never more than the limit.
pub struct AccessibilityActionQueue<R> {
    pending: VecDeque<R>,
}

impl<R> View for AccessibilityActionQueue<R> {
    type V = Seq<R>;

    closed spec fn view(&self) -> Seq<R> {
        self.pending@
    }
}

impl<R> AccessibilityActionQueue<R> {
    /// An empty queue.
    pub fn new() -> (q: Self)
        ensures
            q@ == Seq::<R>::empty(),
    {
        AccessibilityActionQueue { pending: VecDeque::new() }
    }

    /// Queues `request` unless the queue is full; tells whether it was queued,
    /// in which case the window thread must be woken.
    pub fn submit(&mut self, request: R) -> (queued: bool)
        ensures
            queued == (old(self)@.len() < MAX_QUEUED_ACCESSIBILITY_ACTIONS),
            queued ==> final(self)@ == old(self)@.push(request),
            !queued ==> final(self)@ == old(self)@,
            old(self)@.len() <= MAX_QUEUED_ACCESSIBILITY_ACTIONS ==> final(self)@.len()
                <= MAX_QUEUED_ACCESSIBILITY_ACTIONS,
    {
        if self.pending.len() >= MAX_QUEUED_ACCESSIBILITY_ACTIONS {
            return false;
        }
        self.pending.push_back(request);
        true
    }

    /// Takes every pending request, oldest first.
    pub fn drain(&mut self) -> (requests: Vec<R>)
        ensures
            requests@ == old(self)@,
            final(self)@ == Seq::<R>::empty(),
    {
        let mut out: Vec<R> = Vec::new();
        let ghost all = self.pending@;
        while self.pending.len() > 0
            invariant
                out@ + self.pending@ == all,
            decreases self.pending@.len(),
        {
            let r = self.pending.pop_front().unwrap();
            let ghost rest = self.pending@;
            out.push(r);
            proof {
                assert(out@ + rest =~= all);
            }
        }
        proof {
            assert(out@ =~= all);
        }
        out
    }
}

} // verus!
