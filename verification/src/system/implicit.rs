use vstd::prelude::*;

use crate::time::Instant;
use super::ExplicitSystem;

verus! {

/// A stiff-capable system: an [`ExplicitSystem`] that also supplies its
/// Jacobian `df/dy` for implicit stepping.
pub trait ImplicitSystem<T>: ExplicitSystem<T> {
    /// Whether this implementation states its Jacobian through
    /// [`Self::jacobian_at`]; implementations that do not (the default)
    /// promise nothing of the values they write.
    open spec fn obeys_jacobian() -> bool {
        false
    }

    /// The row-major Jacobian `df/dy` at `time` and `state`, for
    /// implementations that state it.
    open spec fn jacobian_at(&self, time: Instant, state: Seq<T>) -> Seq<T> {
        Seq::empty()
    }

    /// Whether this implementation states when its Jacobians succeed through
    /// [`Self::jacobian_outcome`]; implementations that do not (the default)
    /// promise nothing of their results.
    open spec fn obeys_jacobian_outcome() -> bool {
        false
    }

    /// The result of forming the Jacobian at `time` and `state`, for
    /// implementations that state it.
    open spec fn jacobian_outcome(&self, time: Instant, state: Seq<T>) -> Result<(), Self::Error> {
        Ok(())
    }

    /// Write `df/dy` at `time` and `state` into `jacobian`.
    ///
    /// `jacobian` is a caller-owned row-major buffer of `state.len()^2`
    /// elements: entry `i * n + j` is `df_i/dy_j` for `n = state.len()`.
    /// The slice keeps its length; an implementation that states its
    /// Jacobian writes exactly [`Self::jacobian_at`] when it succeeds on a
    /// buffer of `state.len()^2` entries.
    fn jacobian(&self, time: Instant, state: &[T], jacobian: &mut [T]) -> (r: Result<
        (),
        Self::Error,
    >)
        ensures
            final(jacobian)@.len() == old(jacobian)@.len(),
            Self::obeys_jacobian() && r is Ok && old(jacobian)@.len() == state@.len() * state@.len()
                ==> final(jacobian)@ == self.jacobian_at(time, state@),
            Self::obeys_jacobian_outcome() && old(jacobian)@.len() == state@.len() * state@.len()
                ==> r == self.jacobian_outcome(time, state@),
    ;
}

} // verus!
