use vstd::prelude::*;

use crate::time::StepSize;
use super::StepDecision;

verus! {

/// Adaptive-controller result.
#[derive(Clone, Copy, Debug, PartialEq)]
pub struct AdaptiveReport {
    decision: StepDecision,
    normalized_error: u64,
    scale: u64,
    suggested_step: StepSize,
}

impl AdaptiveReport {
    /// The decision of the report.
    pub closed spec fn spec_decision(self) -> StepDecision {
        self.decision
    }

    /// The normalized error of the report.
    pub closed spec fn spec_normalized_error(self) -> u64 {
        self.normalized_error
    }

    /// The scale of the report.
    pub closed spec fn spec_scale(self) -> u64 {
        self.scale
    }

    /// The suggested step of the report.
    pub closed spec fn spec_suggested_step(self) -> StepSize {
        self.suggested_step
    }

    pub(crate) fn new(
        decision: StepDecision,
        normalized_error: u64,
        scale: u64,
        suggested_step: StepSize,
    ) -> (r: Self)
        ensures
            r.spec_decision() == decision,
            r.spec_normalized_error() == normalized_error,
            r.spec_scale() == scale,
            r.spec_suggested_step() == suggested_step,
    {
        AdaptiveReport { decision, normalized_error, scale, suggested_step }
    }

    /// Acceptance decision for the trial state.
    pub fn decision(&self) -> (r: StepDecision)
        ensures
            r == self.spec_decision(),
    {
        self.decision
    }

    /// Absolute error divided by the mixed absolute-relative tolerance.
    pub fn normalized_error(&self) -> (r: u64)
        ensures
            r == self.spec_normalized_error(),
    {
        self.normalized_error
    }

    /// Multiplicative scale applied to the current step.
    pub fn scale(&self) -> (r: u64)
        ensures
            r == self.spec_scale(),
    {
        self.scale
    }

    /// Validated step suggested for the next trial.
    pub fn suggested_step(&self) -> (r: StepSize)
        ensures
            r == self.spec_suggested_step(),
    {
        self.suggested_step
    }
}

} // verus!
