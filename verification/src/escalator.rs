use vstd::prelude::*;

use crate::exit::{BackendFailure, Exit};

verus! {

/// Walks a child's shutdown sequence: each step demands an exit with the
/// given reason and allows the given time, in milliseconds, for the child
/// to terminate. When every step has been spent without the child going
/// down, the attempt is abandoned with `ShutdownFailed`.
#[derive(Debug)]
pub struct ShutdownEscalator {
    /// The (reason, timeout) steps, in escalation order.
    pub steps: Vec<(Exit, u64)>,
    /// Index of the next step to demand.
    pub next: usize,
}

impl ShutdownEscalator {
    /// An escalator at the start of the given sequence.
    pub fn new(steps: Vec<(Exit, u64)>) -> (r: ShutdownEscalator)
        ensures
            r.steps@ == steps@,
            r.next == 0,
    {
        ShutdownEscalator { steps, next: 0 }
    }

    /// The next (reason, timeout) demand, advancing the sequence; `None`
    /// once every step has been spent.
    pub fn next_demand(&mut self) -> (r: Option<(Exit, u64)>)
        ensures
            final(self).steps@ == old(self).steps@,
            old(self).next < old(self).steps@.len() ==> r == Some(
                old(self).steps@[old(self).next as int],
            ) && final(self).next == old(self).next + 1,
            old(self).next >= old(self).steps@.len() ==> r is None && final(self).next == old(
                self,
            ).next,
    {
        if self.next < self.steps.len() {
            let reason = self.steps[self.next].0.clone();
            let timeout = self.steps[self.next].1;
            self.next += 1;
            Some((reason, timeout))
        } else {
            None
        }
    }

    /// The exit reason reported when the whole sequence was spent without
    /// the child terminating.
    pub fn give_up_reason(&self) -> (r: Exit)
        ensures
            r == Exit::BackendFailure(BackendFailure::ShutdownFailed),
    {
        Exit::BackendFailure(BackendFailure::ShutdownFailed)
    }
}

} // verus!
