use vstd::prelude::*;

use crate::binary64::{computes, is_finite, is_positive_finite, total, ScalarOp, ONE_BITS};
use super::TimeError;

verus! {

/// Finite, strictly positive simulation step, in seconds, as a binary64
/// encoding.
#[derive(Clone, Copy, Debug)]
pub struct StepSize {
    bits: u64,
}

/// Whether `r` is what validating `bits` as a step yields: the step when
/// `bits` is finite and above zero, [`TimeError::NonFinite`] for NaN or an
/// infinity, and [`TimeError::NonPositiveStep`] for a finite value at or
/// below zero (either zero included).
pub open spec fn step_outcome(r: Result<StepSize, TimeError>, bits: u64) -> bool {
    match r {
        Ok(step) => is_positive_finite(bits) && step@ == bits,
        Err(error) => if !is_finite(bits) {
            error == TimeError::NonFinite
        } else {
            !is_positive_finite(bits) && error == TimeError::NonPositiveStep
        },
    }
}

impl View for StepSize {
    type V = u64;

    /// The encoding of the step (always finite and above zero).
    closed spec fn view(&self) -> u64 {
        if is_positive_finite(self.bits) {
            self.bits
        } else {
            ONE_BITS
        }
    }
}

impl StepSize {
    #[verifier::type_invariant]
    spec fn positive_encoding(self) -> bool {
        is_positive_finite(self.bits)
    }

    /// Every step encodes a finite value strictly above zero.
    pub proof fn lemma_positive(self)
        ensures
            is_positive_finite(self@),
    {
    }

    /// Validate and construct a simulation step from the encoding of a
    /// duration in seconds.
    pub fn new(time: u64) -> (r: Result<Self, TimeError>)
        ensures
            step_outcome(r, time),
    {
        if !crate::binary64::finite(time) {
            return Err(TimeError::NonFinite);
        }
        if crate::binary64::less_equal(time, crate::binary64::ZERO_BITS) {
            return Err(TimeError::NonPositiveStep);
        }
        Ok(StepSize { bits: time })
    }

    /// The encoding of the step.
    pub fn as_time(&self) -> (r: u64)
        ensures
            r == self@,
    {
        proof {
            use_type_invariant(self);
        }
        self.bits
    }

    /// The encoding of the step, consuming it.
    pub fn into_time(self) -> (r: u64)
        ensures
            r == self@,
    {
        proof {
            use_type_invariant(&self);
        }
        self.bits
    }

    /// Scale the step by `factor`, the product rounded by `arith`, and
    /// validate the result.
    pub fn scaled<A: Fn(ScalarOp) -> u64>(self, factor: u64, arith: &A) -> (r: Result<
        Self,
        TimeError,
    >)
        requires
            total(*arith),
        ensures
            exists|product: u64|
                computes(*arith, ScalarOp::Mul(self@, factor), product) && step_outcome(r, product),
    {
        let product = arith(ScalarOp::Mul(self.into_time(), factor));
        Self::new(product)
    }
}

} // verus!
