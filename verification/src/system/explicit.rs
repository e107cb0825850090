use vstd::prelude::*;

use crate::time::Instant;

verus! {

/// Slice-based right-hand-side evaluation for an explicit first-order system.
///
/// Implementations write `dy/dt = f(t, y)` into `derivative`, each entry the
/// encoding of a value of the caller's scalar. The library owns neither the
/// equation nor its state representation. Implementors should reject
/// incompatible slice lengths through their associated error.
pub trait ExplicitSystem<T> {
    /// System-specific evaluation failure.
    type Error;

    /// Whether this implementation states its right-hand side through
    /// [`Self::rate`]; implementations that do not (the default) promise
    /// nothing of the values they write.
    open spec fn obeys_rate() -> bool {
        false
    }

    /// The derivative `f(t, y)` at `time` and `state`, for implementations
    /// that state it.
    open spec fn rate(&self, time: Instant, state: Seq<T>) -> Seq<T> {
        Seq::empty()
    }

    /// Whether this implementation states when its evaluations succeed
    /// through [`Self::outcome`]; implementations that do not (the default)
    /// promise nothing of their results.
    open spec fn obeys_outcome() -> bool {
        false
    }

    /// The result of evaluating at `time` and `state`, for implementations
    /// that state it.
    open spec fn outcome(&self, time: Instant, state: Seq<T>) -> Result<(), Self::Error> {
        Ok(())
    }

    /// Evaluate the derivative at `time` and `state`.
    ///
    /// The slice keeps its length. On a derivative slice as long as the state,
    /// an implementation that states its outcome returns exactly
    /// [`Self::outcome`], and one that states its rate writes exactly
    /// [`Self::rate`] when it succeeds.
    fn evaluate(&self, time: Instant, state: &[T], derivative: &mut [T]) -> (r: Result<
        (),
        Self::Error,
    >)
        ensures
            final(derivative)@.len() == old(derivative)@.len(),
            Self::obeys_rate() && r is Ok && old(derivative)@.len() == state@.len()
                ==> final(derivative)@ == self.rate(time, state@),
            Self::obeys_outcome() && old(derivative)@.len() == state@.len() ==> r == self.outcome(
                time,
                state@,
            ),
    ;
}

} // verus!
