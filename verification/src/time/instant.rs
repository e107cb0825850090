use vstd::prelude::*;

use crate::binary64::{computes, is_finite, le, lt, rounds_monotonically, total, ScalarOp, ZERO_BITS};
use super::{StepSize, TimeError, step_size::step_outcome};

verus! {

/// Finite simulation instant, in seconds, as a binary64 encoding.
#[derive(Clone, Copy, Debug)]
pub struct Instant {
    bits: u64,
}

/// Whether `r` is what validating `bits` as an instant yields: the instant
/// when `bits` is finite, [`TimeError::NonFinite`] otherwise.
pub open spec fn instant_outcome(r: Result<Instant, TimeError>, bits: u64) -> bool {
    match r {
        Ok(instant) => is_finite(bits) && instant@ == bits,
        Err(error) => !is_finite(bits) && error == TimeError::NonFinite,
    }
}

impl View for Instant {
    type V = u64;

    /// The encoding of the instant (always finite).
    closed spec fn view(&self) -> u64 {
        if is_finite(self.bits) {
            self.bits
        } else {
            ZERO_BITS
        }
    }
}

impl Instant {
    #[verifier::type_invariant]
    spec fn finite_encoding(self) -> bool {
        is_finite(self.bits)
    }

    /// The instant carrying the encoding `bits`.
    pub closed spec fn from_encoding(bits: u64) -> Self {
        Instant { bits }
    }

    /// Every instant encodes a finite value.
    pub proof fn lemma_finite(self)
        ensures
            is_finite(self@),
    {
    }

    /// Validate and construct a simulation instant from the encoding of a
    /// time in seconds.
    ///
    /// Negative instants are admitted because shifted time domains are valid;
    /// NaN and infinities are rejected so event ordering remains defined.
    pub fn new(time: u64) -> (r: Result<Self, TimeError>)
        ensures
            instant_outcome(r, time),
            r matches Ok(instant) ==> instant == Instant::from_encoding(time),
    {
        if crate::binary64::finite(time) {
            Ok(Instant { bits: time })
        } else {
            Err(TimeError::NonFinite)
        }
    }

    /// The encoding of the instant.
    pub fn as_time(&self) -> (r: u64)
        ensures
            r == self@,
            *self == Instant::from_encoding(r),
    {
        proof {
            use_type_invariant(self);
        }
        self.bits
    }

    /// The encoding of the instant, consuming it.
    pub fn into_time(self) -> (r: u64)
        ensures
            r == self@,
    {
        proof {
            use_type_invariant(&self);
        }
        self.bits
    }

    /// Advance this instant by a positive step, the sum rounded by `arith`.
    /// With correctly rounded arithmetic the end is never before the start.
    ///
    /// Returns [`TimeError::NonFinite`] when the sum is not finite.
    pub fn advance<A: Fn(ScalarOp) -> u64>(self, step: StepSize, arith: &A) -> (r: Result<
        Self,
        TimeError,
    >)
        requires
            total(*arith),
        ensures
            exists|sum: u64|
                computes(*arith, ScalarOp::Add(self@, step@), sum) && instant_outcome(r, sum),
            r matches Ok(end) ==> (rounds_monotonically(*arith) ==> le(self@, end@)),
    {
        proof {
            self.lemma_finite();
            step.lemma_positive();
        }
        let sum = arith(ScalarOp::Add(self.into_time(), step.into_time()));
        Self::new(sum)
    }

    /// The positive distance from `earlier` to this instant, the difference
    /// rounded by `arith`. With correctly rounded arithmetic there is none
    /// unless this instant is later than `earlier`, and then the only failure
    /// is an overflowing difference.
    ///
    /// Returns [`TimeError::NonPositiveStep`] when the difference is not
    /// strictly positive and [`TimeError::NonFinite`] when it overflows.
    pub fn duration_since<A: Fn(ScalarOp) -> u64>(self, earlier: Self, arith: &A) -> (r: Result<
        StepSize,
        TimeError,
    >)
        requires
            total(*arith),
        ensures
            exists|difference: u64|
                computes(*arith, ScalarOp::Sub(self@, earlier@), difference) && step_outcome(
                    r,
                    difference,
                ),
            rounds_monotonically(*arith) && !lt(earlier@, self@) ==> r is Err,
            rounds_monotonically(*arith) && lt(earlier@, self@) ==> r != Err::<StepSize, TimeError>(
                TimeError::NonPositiveStep,
            ),
    {
        proof {
            self.lemma_finite();
            earlier.lemma_finite();
        }
        let difference = arith(ScalarOp::Sub(self.into_time(), earlier.into_time()));
        proof {
            assert(computes(*arith, ScalarOp::Sub(self@, earlier@), difference));
            if !lt(earlier@, self@) {
                crate::binary64::lemma_trichotomy(earlier@, self@);
            }
        }
        StepSize::new(difference)
    }
}

} // verus!
