use vstd::prelude::*;

use crate::time::{Instant, StepSize};

verus! {

/// Report for one completed step.
#[derive(Clone, Copy, Debug, PartialEq)]
pub struct StepReport {
    start: Instant,
    end: Instant,
    step: StepSize,
    evaluations: usize,
}

impl StepReport {
    /// Start instant of the report.
    pub closed spec fn spec_start(self) -> Instant {
        self.start
    }

    /// End instant of the report.
    pub closed spec fn spec_end(self) -> Instant {
        self.end
    }

    /// Step of the report.
    pub closed spec fn spec_step(self) -> StepSize {
        self.step
    }

    /// Evaluation count of the report.
    pub closed spec fn spec_evaluations(self) -> usize {
        self.evaluations
    }

    /// Record a completed step.
    pub(crate) fn new(start: Instant, end: Instant, step: StepSize, evaluations: usize) -> (r: Self)
        ensures
            r.spec_start() == start,
            r.spec_end() == end,
            r.spec_step() == step,
            r.spec_evaluations() == evaluations,
    {
        StepReport { start, end, step, evaluations }
    }

    /// Start instant.
    pub fn start(&self) -> (r: Instant)
        ensures
            r == self.spec_start(),
    {
        self.start
    }

    /// End instant.
    pub fn end(&self) -> (r: Instant)
        ensures
            r == self.spec_end(),
    {
        self.end
    }

    /// Accepted step.
    pub fn step(&self) -> (r: StepSize)
        ensures
            r == self.spec_step(),
    {
        self.step
    }

    /// Number of right-hand-side evaluations.
    pub fn evaluations(&self) -> (r: usize)
        ensures
            r == self.spec_evaluations(),
    {
        self.evaluations
    }
}

} // verus!
