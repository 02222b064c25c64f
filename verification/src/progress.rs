//! Progress reporting, as the coordinator drives it: one `advance` per
//! completed unit with the cumulative count, then one `finish`. The reporter
//! is purely a sink — it records the calls and has no influence on control
//! flow; rendering the recorded positions is the caller's concern.

use vstd::prelude::*;

verus! {

/// Records the progress calls of one upload run.
pub struct ProgressReporter {
    /// How many units the run has in all; fixed at initialization.
    pub total: usize,
    /// The cumulative counts handed to `advance`, in call order.
    pub advances: Vec<usize>,
    /// Whether `finish` has been called.
    pub finished: bool,
}

impl ProgressReporter {
    /// The count that the latest `advance` reported, or zero before the first.
    pub open spec fn latest(&self) -> int {
        if self.advances@.len() == 0 {
            0
        } else {
            self.advances@.last() as int
        }
    }

    /// Called once, before any unit starts, with the total unit count.
    pub fn initialize(total: usize) -> (r: Self)
        ensures
            r.total == total,
            r.advances@ == Seq::<usize>::empty(),
            !r.finished,
    {
        ProgressReporter { total, advances: Vec::new(), finished: false }
    }

    /// Called once per completed unit — success and failure alike — with the
    /// cumulative completed count, which never decreases over a run.
    pub fn advance(&mut self, completed: usize)
        requires
            !old(self).finished,
            completed >= old(self).latest(),
        ensures
            final(self).total == old(self).total,
            final(self).advances@ == old(self).advances@.push(completed),
            !final(self).finished,
    {
        self.advances.push(completed);
    }

    /// Called exactly once, after the last unit completed, however many of
    /// them failed.
    pub fn finish(&mut self)
        requires
            !old(self).finished,
        ensures
            final(self).total == old(self).total,
            final(self).advances@ == old(self).advances@,
            final(self).finished,
    {
        self.finished = true;
    }
}

} // verus!
