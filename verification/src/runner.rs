//! Hands a planned step sequence out one step at a time and enforces the
//! all-or-nothing abort rule: once a failure is recorded, nothing further is
//! emitted — in particular no later command and no finish notification — and
//! the first error is kept unchanged for the caller.

use vstd::prelude::*;
use crate::command::Step;
use crate::error::FlashError;

verus! {

/// Drives one planned step sequence.  The transport asks for steps in order
/// with [`StepRunner::next_step`] and records the first command failure with
/// [`StepRunner::mark_failed`], after which the run is over.
pub struct StepRunner {
    /// The steps not yet handed out, in reverse order.
    pub remaining: Vec<Step>,
    /// The first recorded failure, if any.
    pub failure: Option<FlashError>,
}

impl StepRunner {
    /// The steps still to be handed out, in order.
    pub open spec fn pending(self) -> Seq<Step> {
        self.remaining@.reverse()
    }

    /// Starts a run over a planned step sequence.
    pub fn new(steps: Vec<Step>) -> (r: Self)
        ensures
            r.pending() == steps@,
            r.failure is None,
    {
        let mut forward = steps;
        let mut backward: Vec<Step> = Vec::new();
        while forward.len() > 0
            invariant
                forward@ + backward@.reverse() == steps@,
            decreases forward@.len(),
        {
            let ghost prev_forward = forward@;
            let ghost prev_backward = backward@;
            if let Some(step) = forward.pop() {
                backward.push(step);
                proof {
                    assert(forward@ + backward@.reverse() =~= prev_forward
                        + prev_backward.reverse());
                }
            }
        }
        proof {
            assert(backward@.reverse() =~= steps@);
        }
        StepRunner { remaining: backward, failure: None }
    }

    /// Hands out the next step, or `None` when the run is over — because every
    /// step has been handed out, or because a failure was recorded.
    pub fn next_step(&mut self) -> (r: Option<Step>)
        ensures
            final(self).failure == old(self).failure,
            old(self).failure is Some || old(self).pending().len() == 0 ==> r is None
                && final(self).pending() == old(self).pending(),
            old(self).failure is None && old(self).pending().len() > 0 ==> (r matches Some(step)
                && step == old(self).pending()[0]
                && final(self).pending() == old(self).pending().drop_first()),
    {
        if self.failure.is_some() {
            return None;
        }
        let r = self.remaining.pop();
        proof {
            if old(self).pending().len() > 0 {
                assert(final(self).pending() =~= old(self).pending().drop_first());
            }
        }
        r
    }

    /// Records that the last issued command failed with `error`.  The first
    /// recorded error is kept unchanged; every later
    /// [`StepRunner::next_step`] call returns `None`: the segment, and the
    /// whole transfer, is considered failed, with no automatic resume.
    pub fn mark_failed(&mut self, error: FlashError)
        ensures
            final(self).failure == (if old(self).failure is Some {
                old(self).failure
            } else {
                Some(error)
            }),
            final(self).pending() == old(self).pending(),
    {
        if self.failure.is_none() {
            self.failure = Some(error);
        }
    }
}

} // verus!
