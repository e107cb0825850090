use vstd::prelude::*;

use super::WorkspaceError;

verus! {

/// Reusable storage for a const-generic explicit tableau.
///
/// Construction allocates the stage-state buffer (one state) and the
/// derivative buffer (one state per stage, stage after stage). Stepping
/// neither allocates nor resizes them.
pub struct StepWorkspace<T, const STAGES: usize> {
    derivatives: Vec<T>,
    stage_state: Vec<T>,
    dimension: usize,
}

impl<T, const STAGES: usize> StepWorkspace<T, STAGES> {
    /// State dimension of the workspace.
    pub closed spec fn spec_dimension(self) -> nat {
        self.dimension as nat
    }

    /// Stage-state buffer.
    pub closed spec fn spec_stage_state(self) -> Seq<T> {
        self.stage_state@
    }

    /// Derivative buffer: stage `k` occupies `k * dimension .. (k + 1) * dimension`.
    pub closed spec fn spec_derivatives(self) -> Seq<T> {
        self.derivatives@
    }

    /// Whether the buffers have the shape that the dimension and `STAGES`
    /// call for.
    pub open spec fn well_formed(self) -> bool {
        &&& self.spec_dimension() > 0
        &&& STAGES > 0
        &&& self.spec_stage_state().len() == self.spec_dimension()
        &&& self.spec_derivatives().len() == self.spec_dimension() * STAGES
    }

    /// Allocate storage for `dimension` state variables, each entry the
    /// scalar's default (zero for the floating-point scalars).
    ///
    /// Returns [`WorkspaceError::ZeroDimension`] or
    /// [`WorkspaceError::ZeroStages`] for empty structural dimensions, and
    /// [`WorkspaceError::CapacityOverflow`] when `dimension * STAGES` cannot be
    /// represented by `usize`.
    pub fn new(dimension: usize) -> (r: Result<Self, WorkspaceError>)
        where
            T: Default + Clone,
        ensures
            dimension == 0 ==> r == Err::<Self, WorkspaceError>(WorkspaceError::ZeroDimension),
            dimension > 0 && STAGES == 0 ==> r == Err::<Self, WorkspaceError>(
                WorkspaceError::ZeroStages,
            ),
            dimension > 0 && STAGES > 0 && dimension * STAGES > usize::MAX ==> r == Err::<
                Self,
                WorkspaceError,
            >(WorkspaceError::CapacityOverflow),
            dimension > 0 && STAGES > 0 && dimension * STAGES <= usize::MAX ==> (r matches Ok(
                workspace,
            ) && workspace.well_formed() && workspace.spec_dimension() == dimension),
    {
        if dimension == 0 {
            return Err(WorkspaceError::ZeroDimension);
        }
        if STAGES == 0 {
            return Err(WorkspaceError::ZeroStages);
        }
        let stage_capacity = match dimension.checked_mul(STAGES) {
            Some(capacity) => capacity,
            None => return Err(WorkspaceError::CapacityOverflow),
        };
        let derivatives = vec![T::default(); stage_capacity];
        let stage_state = vec![T::default(); dimension];
        Ok(StepWorkspace { derivatives, stage_state, dimension })
    }

    /// State dimension accepted by this workspace.
    pub fn dimension(&self) -> (r: usize)
        ensures
            r == self.spec_dimension(),
    {
        self.dimension
    }

    /// Compile-time number of stage derivative vectors.
    pub fn stages(&self) -> (r: usize)
        ensures
            r == STAGES,
    {
        STAGES
    }

    /// The derivative buffer.
    pub fn derivatives(&self) -> (r: &[T])
        ensures
            r@ == self.spec_derivatives(),
    {
        self.derivatives.as_slice()
    }

    /// Borrow the stage-state and derivative buffers for a stepping pass.
    pub(crate) fn buffers_mut(&mut self) -> (r: (&mut [T], &mut [T]))
        ensures
            r.0@ == old(self).spec_stage_state(),
            r.1@ == old(self).spec_derivatives(),
            final(self).spec_dimension() == old(self).spec_dimension(),
            final(self).spec_stage_state() == final(r.0)@,
            final(self).spec_derivatives() == final(r.1)@,
    {
        (self.stage_state.as_mut_slice(), self.derivatives.as_mut_slice())
    }
}

} // verus!
