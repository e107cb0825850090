use vstd::prelude::*;

use crate::binary64::{computes, le, lt, rounds_monotonically, total, ScalarOp, ONE_BITS, ZERO_BITS};
use crate::time::{StepSize, TimeError, step_size::step_outcome};
use super::SubcycleError;

verus! {

/// The validation of a const-generic ratio: [`SubcycleError::ZeroRatio`] for
/// zero, [`SubcycleError::RatioTooLarge`] above `u32::MAX`, otherwise the
/// ratio itself.
pub open spec fn ratio_outcome(ratio: usize) -> Result<u32, SubcycleError> {
    if ratio == 0 {
        Err(SubcycleError::ZeroRatio)
    } else if ratio > u32::MAX {
        Err(SubcycleError::RatioTooLarge)
    } else {
        Ok(ratio as u32)
    }
}

/// Every ratio a `u32` can count is accepted as itself: zero is refused as
/// [`SubcycleError::ZeroRatio`], each ratio from one to `u32::MAX` is
/// accepted unchanged, and only larger ratios are refused as
/// [`SubcycleError::RatioTooLarge`]; so `SubcyclePlan::<R>::new()` succeeds
/// exactly for `1 <= R <= u32::MAX`.
pub proof fn lemma_ratio_outcome(ratio: usize)
    ensures
        ratio == 0 ==> ratio_outcome(ratio) == Err::<u32, SubcycleError>(SubcycleError::ZeroRatio),
        1 <= ratio <= u32::MAX ==> (ratio_outcome(ratio) matches Ok(counted) && counted == ratio),
        ratio > u32::MAX ==> ratio_outcome(ratio) == Err::<u32, SubcycleError>(
            SubcycleError::RatioTooLarge,
        ),
{
}

/// Zero-sized compile-time subcycle-ratio policy.
///
/// The ratio is the only modeled coupling policy. The library does not
/// invoke a coarse or fine system and does not prescribe synchronization.
#[derive(Clone, Copy, Debug, PartialEq, Eq)]
pub struct SubcyclePlan<const RATIO: usize> {
    validated: (),
}

impl<const RATIO: usize> SubcyclePlan<RATIO> {
    #[verifier::type_invariant]
    spec fn valid_ratio(self) -> bool {
        ratio_outcome(RATIO) is Ok
    }

    /// Validate and construct this const-generic ratio marker.
    ///
    /// Returns [`SubcycleError::ZeroRatio`] for zero and
    /// [`SubcycleError::RatioTooLarge`] above `u32::MAX`.
    pub fn new() -> (r: Result<Self, SubcycleError>)
        ensures
            match ratio_outcome(RATIO) {
                Ok(_) => r is Ok,
                Err(error) => r == Err::<Self, SubcycleError>(error),
            },
    {
        match validate_ratio::<RATIO>() {
            Ok(_) => Ok(SubcyclePlan { validated: () }),
            Err(error) => Err(error),
        }
    }

    /// Number of fine steps per coarse step.
    pub fn ratio(&self) -> (r: usize)
        ensures
            r == RATIO,
            1 <= r <= u32::MAX,
    {
        proof {
            use_type_invariant(self);
        }
        RATIO
    }

    /// Derive one fine step from a parent step: `parent` times the scalar
    /// reciprocal of `RATIO`, both rounded by `arith`, then validated.
    ///
    /// With correctly rounded arithmetic the child is never longer than the
    /// parent. Repeating the child `RATIO` times is subject to the scalar's rounding
    /// error and need not reconstruct `parent` exactly.
    ///
    /// Returns [`SubcycleError::ChildStep`] when the product is not a valid
    /// step (for instance when it underflows to zero).
    pub fn child_step<A: Fn(ScalarOp) -> u64>(&self, parent: StepSize, arith: &A) -> (r: Result<
        StepSize,
        SubcycleError,
    >)
        requires
            total(*arith),
        ensures
            exists|reciprocal: u64, product: u64|
                {
                    &&& computes(*arith, ScalarOp::CountReciprocal(RATIO as u32), reciprocal)
                    &&& computes(*arith, ScalarOp::Mul(parent@, reciprocal), product)
                    &&& match r {
                        Ok(child) => step_outcome(Ok(child), product),
                        Err(error) => exists|time_error: TimeError|
                            step_outcome(Err(time_error), product) && error
                                == SubcycleError::ChildStep(time_error),
                    }
                },
            r matches Ok(child) ==> (rounds_monotonically(*arith) ==> le(child@, parent@)),
    {
        proof {
            use_type_invariant(self);
        }
        let ratio = match validate_ratio::<RATIO>() {
            Ok(ratio) => ratio,
            Err(error) => return Err(error),
        };
        let reciprocal = arith(ScalarOp::CountReciprocal(ratio));
        proof {
            parent.lemma_positive();
            assert(ratio >= 1);
            assert(computes(*arith, ScalarOp::CountReciprocal(ratio), reciprocal));
            assert(rounds_monotonically(*arith) ==> lt(ZERO_BITS, reciprocal) && le(reciprocal, ONE_BITS));
        }
        let result = parent.scaled(reciprocal, arith);
        assert(computes(*arith, ScalarOp::CountReciprocal(RATIO as u32), reciprocal));
        match result {
            Ok(child) => Ok(child),
            Err(error) => Err(SubcycleError::ChildStep(error)),
        }
    }
}

/// Validate the const-generic ratio; see [`ratio_outcome`].
pub fn validate_ratio<const RATIO: usize>() -> (r: Result<u32, SubcycleError>)
    ensures
        r == ratio_outcome(RATIO),
{
    if RATIO == 0 {
        return Err(SubcycleError::ZeroRatio);
    }
    if RATIO > 0xffff_ffff {
        return Err(SubcycleError::RatioTooLarge);
    }
    Ok(RATIO as u32)
}

} // verus!
