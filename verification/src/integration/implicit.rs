//! Implicit one-step integration for stiff systems.
use vstd::prelude::*;
use vstd::string::StringExecFns;

use crate::binary64::{
    computes, is_finite, is_nan, le, lt, magnitude, total, ScalarOp, ONE_BITS, ZERO_BITS,
};
use crate::system::{ExplicitSystem, ImplicitSystem};
use crate::time::{Instant, StepSize, TimeError, instant::instant_outcome};
use super::error::{mismatch_message, mismatch_text};
use super::{SliceRole, StepReport, WorkspaceError};
use super::dense::{
    entry, lemma_cell_in_bounds, lemma_cells_distinct, singular_trace, solution_trace, solve_dense,
};
use vstd::string::to_string_from_display_ensures;

verus! {

/// Bound on Newton iterations before the step is declared non-convergent.
pub const MAX_NEWTON_ITERATIONS: usize = 16;

/// Compile-time marker for an implicit one-step method.
pub trait ImplicitMethod {
    /// Formal accuracy order of the method.
    spec fn spec_order() -> nat;

    /// Formal accuracy order of the method.
    fn order() -> (r: usize)
        ensures
            r == Self::spec_order(),
    ;
}

/// Backward Euler: `y_{n+1} = y_n + h f(t_{n+1}, y_{n+1})`.
///
/// First order and A-stable, so its step is bounded by accuracy alone rather
/// than by the fastest system timescale.
#[derive(Clone, Copy, Debug, Default, PartialEq, Eq, Structural)]
pub struct BackwardEuler;

impl ImplicitMethod for BackwardEuler {
    open spec fn spec_order() -> nat {
        1
    }

    fn order() -> (r: usize) {
        1
    }
}

/// The implicit Newton solve failed.
#[derive(Clone, Copy, Debug, PartialEq, Eq, Structural)]
#[non_exhaustive]
pub enum SolveError {
    /// Newton exhausted its iteration bound without satisfying the
    /// convergence tolerance.
    NonConvergence,
    /// The Newton matrix was numerically singular.
    SingularMatrix,
}

impl SolveError {
    /// The diagnostic text of the error.
    pub open spec fn spec_message(self) -> Seq<char> {
        match self {
            SolveError::NonConvergence => "Newton iteration did not converge"@,
            SolveError::SingularMatrix => "Newton matrix was singular"@,
        }
    }

    /// The diagnostic text of the error.
    pub fn message(&self) -> (r: String)
        ensures
            r@ == self.spec_message(),
    {
        match self {
            SolveError::NonConvergence => String::from_str("Newton iteration did not converge"),
            SolveError::SingularMatrix => String::from_str("Newton matrix was singular"),
        }
    }
}

/// Failure to complete one implicit step.
#[derive(Clone, Debug, PartialEq)]
#[non_exhaustive]
pub enum ImplicitStepError<E> {
    /// A state, output, or workspace dimension differs from the input state.
    DimensionMismatch {
        /// Slice or workspace with the mismatched dimension.
        role: SliceRole,
        /// Required dimension.
        expected: usize,
        /// Observed dimension.
        actual: usize,
    },
    /// A stage or end instant was not representable as a finite time.
    Time(TimeError),
    /// The system rejected an evaluation or Jacobian formation.
    System(E),
    /// The implicit Newton solve failed.
    Solve(SolveError),
}

impl<E: core::fmt::Display> ImplicitStepError<E> {
    /// The diagnostic text of the error; a system error contributes its own
    /// display text.
    pub fn message(&self) -> (r: String)
        ensures
            match self {
                ImplicitStepError::DimensionMismatch { role, expected, actual } => r@
                    == mismatch_message(*role, *expected, *actual),
                ImplicitStepError::Time(error) => r@ == "step time is invalid: "@
                    + error.spec_message(),
                ImplicitStepError::System(error) => exists|shown: String|
                    to_string_from_display_ensures::<E>(error, shown) && r@
                        == "system evaluation failed: "@ + shown@,
                ImplicitStepError::Solve(error) => r@ == "implicit solve failed: "@
                    + error.spec_message(),
            },
    {
        match self {
            ImplicitStepError::DimensionMismatch { role, expected, actual } => mismatch_text(
                *role,
                *expected,
                *actual,
            ),
            ImplicitStepError::Time(error) => {
                let detail = error.message();
                String::from_str("step time is invalid: ").concat(detail.as_str())
            },
            ImplicitStepError::System(error) => {
                let shown = error.to_string();
                String::from_str("system evaluation failed: ").concat(shown.as_str())
            },
            ImplicitStepError::Solve(error) => {
                let detail = error.message();
                String::from_str("implicit solve failed: ").concat(detail.as_str())
            },
        }
    }
}

/// Reusable scratch for the implicit Newton solve: one residual vector and
/// one dense row-major square Jacobian buffer, which doubles as the in-place
/// LU factorization.
pub struct ImplicitWorkspace<T> {
    residual: Vec<T>,
    jacobian: Vec<T>,
    dimension: usize,
}

impl<T> ImplicitWorkspace<T> {
    /// State dimension of the workspace.
    pub closed spec fn spec_dimension(self) -> nat {
        self.dimension as nat
    }

    /// Residual buffer.
    pub closed spec fn spec_residual(self) -> Seq<T> {
        self.residual@
    }

    /// Jacobian buffer, row-major.
    pub closed spec fn spec_jacobian(self) -> Seq<T> {
        self.jacobian@
    }

    /// Whether the buffers have the shape that the dimension calls for.
    pub open spec fn well_formed(self) -> bool {
        &&& self.spec_dimension() > 0
        &&& self.spec_residual().len() == self.spec_dimension()
        &&& self.spec_jacobian().len() == self.spec_dimension() * self.spec_dimension()
    }

    /// Allocate storage for `dimension` state variables, each entry the
    /// scalar's default (zero for the floating-point scalars).
    ///
    /// Returns [`WorkspaceError::ZeroDimension`] for an empty state and
    /// [`WorkspaceError::CapacityOverflow`] when `dimension * dimension`
    /// cannot be represented by `usize`.
    pub fn new(dimension: usize) -> (r: Result<Self, WorkspaceError>)
        where
            T: Default + Clone,
        ensures
            dimension == 0 ==> r == Err::<Self, WorkspaceError>(WorkspaceError::ZeroDimension),
            dimension > 0 && dimension * dimension > usize::MAX ==> r == Err::<
                Self,
                WorkspaceError,
            >(WorkspaceError::CapacityOverflow),
            dimension > 0 && dimension * dimension <= usize::MAX ==> (r matches Ok(workspace)
                && workspace.well_formed() && workspace.spec_dimension() == dimension),
    {
        if dimension == 0 {
            return Err(WorkspaceError::ZeroDimension);
        }
        let jacobian_capacity = match dimension.checked_mul(dimension) {
            Some(capacity) => capacity,
            None => return Err(WorkspaceError::CapacityOverflow),
        };
        let residual = vec![T::default(); dimension];
        let jacobian = vec![T::default(); jacobian_capacity];
        Ok(ImplicitWorkspace { residual, jacobian, dimension })
    }

    /// State dimension accepted by this workspace.
    pub fn dimension(&self) -> (r: usize)
        ensures
            r == self.spec_dimension(),
    {
        self.dimension
    }

    /// Borrow the residual and Jacobian buffers for a solve.
    pub(crate) fn buffers_mut(&mut self) -> (r: (&mut [T], &mut [T]))
        ensures
            r.0@ == old(self).spec_residual(),
            r.1@ == old(self).spec_jacobian(),
            final(self).spec_dimension() == old(self).spec_dimension(),
            final(self).spec_residual() == final(r.0)@,
            final(self).spec_jacobian() == final(r.1)@,
    {
        (self.residual.as_mut_slice(), self.jacobian.as_mut_slice())
    }
}

/// The infinity norm as the Newton check computes it: from `+0`, each
/// magnitude strictly larger than the running value replaces it, in order
/// (so NaN entries are passed over).
pub open spec fn residual_norm(values: Seq<u64>) -> u64
    decreases values.len(),
{
    if values.len() == 0 {
        ZERO_BITS
    } else {
        let running = residual_norm(values.drop_last());
        if lt(running, magnitude(values.last())) {
            magnitude(values.last())
        } else {
            running
        }
    }
}

/// The Newton check's norm is the infinity norm: it is at least the
/// magnitude of every entry that is not NaN, and it is `+0` or the
/// magnitude of one of the entries.
pub proof fn lemma_residual_norm_is_maximum(values: Seq<u64>)
    ensures
        !is_nan(residual_norm(values)),
        le(ZERO_BITS, residual_norm(values)),
        forall|i: int|
            0 <= i < values.len() && !is_nan(values[i]) ==> le(
                magnitude(#[trigger] values[i]),
                residual_norm(values),
            ),
        residual_norm(values) == ZERO_BITS || exists|i: int|
            0 <= i < values.len() && residual_norm(values) == magnitude(#[trigger] values[i]),
    decreases values.len(),
{
    if values.len() > 0 {
        let rest = values.drop_last();
        lemma_residual_norm_is_maximum(rest);
        let running = residual_norm(rest);
        let last = magnitude(values.last());
        assert forall|i: int| 0 <= i < values.len() && !is_nan(values[i]) implies le(
            magnitude(#[trigger] values[i]),
            residual_norm(values),
        ) by {
            if i < values.len() - 1 {
                assert(rest[i] == values[i]);
                assert(le(magnitude(rest[i]), running));
            }
        }
        if residual_norm(values) != ZERO_BITS {
            if lt(running, last) {
                assert(residual_norm(values) == magnitude(values[values.len() - 1]));
            } else {
                let k = choose|k: int| 0 <= k < rest.len() && running == magnitude(#[trigger] rest[k]);
                assert(rest[k] == values[k]);
            }
        }
    }
}

/// A Newton iterate accepted by the check leaves no residual entry above the
/// tolerance: every entry that is not NaN has magnitude at most `tolerance`.
pub proof fn lemma_accepted_residual_within_tolerance(residual: Seq<u64>, tolerance: u64)
    requires
        le(residual_norm(residual), tolerance),
    ensures
        forall|i: int|
            0 <= i < residual.len() && !is_nan(residual[i]) ==> le(
                magnitude(#[trigger] residual[i]),
                tolerance,
            ),
{
    lemma_residual_norm_is_maximum(residual);
}

/// Whether `residual` is the backward-Euler residual
/// `(iterate - previous) - h * derivative` through `arith`.
pub open spec fn residual_of<A: Fn(ScalarOp) -> u64>(
    arith: A,
    h: u64,
    iterate: u64,
    previous: u64,
    derivative: u64,
    residual: u64,
) -> bool {
    exists|difference: u64, product: u64|
        #![trigger computes(arith, ScalarOp::Sub(iterate, previous), difference), computes(arith, ScalarOp::Mul(h, derivative), product)]
        {
            &&& computes(arith, ScalarOp::Sub(iterate, previous), difference)
            &&& computes(arith, ScalarOp::Mul(h, derivative), product)
            &&& computes(arith, ScalarOp::Sub(difference, product), residual)
        }
}

/// Whether `residuals` is, componentwise, the backward-Euler residual of
/// `iterate` against `state` with the derivative `derivatives`.
pub open spec fn residuals<A: Fn(ScalarOp) -> u64>(
    arith: A,
    h: u64,
    iterate: Seq<u64>,
    state: Seq<u64>,
    derivatives: Seq<u64>,
    residuals: Seq<u64>,
) -> bool {
    &&& residuals.len() == state.len()
    &&& forall|i: int|
        0 <= i < state.len() ==> residual_of(
            arith,
            h,
            iterate[i],
            state[i],
            derivatives[i],
            #[trigger] residuals[i],
        )
}

/// Whether `matrix` is the Newton matrix `I - h * jacobian` of order `n`,
/// entry by entry through `arith`.
pub open spec fn newton_matrix<A: Fn(ScalarOp) -> u64>(
    arith: A,
    h: u64,
    n: int,
    jacobian: Seq<u64>,
    matrix: Seq<u64>,
) -> bool {
    &&& matrix.len() == n * n
    &&& forall|row: int, column: int|
        0 <= row < n && 0 <= column < n ==> newton_entry(
            arith,
            h,
            entry(jacobian, n, row, column),
            row == column,
            #[trigger] entry(matrix, n, row, column),
        )
}

/// Whether `value` is `Sub(identity, Mul(h, jacobian_entry))` through
/// `arith`, the identity entry being one on the diagonal and zero off it.
pub open spec fn newton_entry<A: Fn(ScalarOp) -> u64>(
    arith: A,
    h: u64,
    jacobian_entry: u64,
    diagonal: bool,
    value: u64,
) -> bool {
    exists|product: u64|
        #![trigger computes(arith, ScalarOp::Mul(h, jacobian_entry), product)]
        {
            &&& computes(arith, ScalarOp::Mul(h, jacobian_entry), product)
            &&& computes(
                arith,
                ScalarOp::Sub(if diagonal { ONE_BITS } else { ZERO_BITS }, product),
                value,
            )
        }
}

/// Whether `rhs` is `-residual` componentwise, as `Sub(0, g)` through `arith`.
pub open spec fn negated<A: Fn(ScalarOp) -> u64>(arith: A, residual: Seq<u64>, rhs: Seq<u64>) -> bool {
    &&& rhs.len() == residual.len()
    &&& forall|i: int|
        0 <= i < residual.len() ==> computes(arith, ScalarOp::Sub(ZERO_BITS, residual[i]), #[trigger] rhs[i])
}

/// Whether the dense solve of `(matrix, rhs)` through `arith` succeeds with
/// the solution `x` ([`solution_trace`]).
pub open spec fn solves<A: Fn(ScalarOp) -> u64>(
    arith: A,
    matrix: Seq<u64>,
    rhs: Seq<u64>,
    x: Seq<u64>,
) -> bool {
    exists|eliminated_matrix: Seq<u64>, matrices: Seq<Seq<u64>>, rhss: Seq<Seq<u64>>, pivots: Seq<int>|
        #[trigger] solution_trace(arith, matrix, rhs, eliminated_matrix, x, matrices, rhss, pivots)
}

/// Whether the dense solve of `(matrix, rhs)` through `arith` stops at a
/// zero pivot ([`singular_trace`]).
pub open spec fn singular<A: Fn(ScalarOp) -> u64>(arith: A, matrix: Seq<u64>, rhs: Seq<u64>) -> bool {
    exists|
        final_matrix: Seq<u64>,
        final_rhs: Seq<u64>,
        matrices: Seq<Seq<u64>>,
        rhss: Seq<Seq<u64>>,
        pivots: Seq<int>,
        k: int,
        pivot: int,
    |
        #[trigger] singular_trace(
            arith,
            matrix,
            rhs,
            final_matrix,
            final_rhs,
            matrices,
            rhss,
            pivots,
            k,
            pivot,
        )
}

/// Whether `next` is `iterate` plus the Newton correction: the solution of
/// `(I - h J) x = -g` for the Jacobian `jacobian` and the residual
/// `residual`, added componentwise through `arith`.
pub open spec fn corrects<A: Fn(ScalarOp) -> u64>(
    arith: A,
    h: u64,
    iterate: Seq<u64>,
    jacobian: Seq<u64>,
    residual: Seq<u64>,
    next: Seq<u64>,
) -> bool {
    exists|matrix: Seq<u64>, rhs: Seq<u64>, x: Seq<u64>|
        #[trigger] correction_with(arith, h, iterate, jacobian, residual, matrix, rhs, x, next)
}

/// [`corrects`] with its Newton matrix, right-hand side and solution named.
pub open spec fn correction_with<A: Fn(ScalarOp) -> u64>(
    arith: A,
    h: u64,
    iterate: Seq<u64>,
    jacobian: Seq<u64>,
    residual: Seq<u64>,
    matrix: Seq<u64>,
    rhs: Seq<u64>,
    x: Seq<u64>,
    next: Seq<u64>,
) -> bool {
    let n = iterate.len() as int;
    &&& newton_matrix(arith, h, n, jacobian, matrix)
    &&& negated(arith, residual, rhs)
    &&& solves(arith, matrix, rhs, x)
    &&& x.len() == n
    &&& next.len() == n
    &&& forall|i: int| 0 <= i < n ==> computes(arith, ScalarOp::Add(iterate[i], x[i]), #[trigger] next[i])
}

/// Whether `iterate` is the explicit-Euler predictor `MulAdd(h, f, state)`
/// for a derivative `f` at `start` (the system's rate when it states one).
pub open spec fn predicts<Sys: ExplicitSystem<u64>, A: Fn(ScalarOp) -> u64>(
    system: Sys,
    arith: A,
    h: u64,
    start: u64,
    state: Seq<u64>,
    iterate: Seq<u64>,
) -> bool {
    exists|derivative: Seq<u64>|
        #[trigger] prediction_with(system, arith, h, start, state, derivative, iterate)
}

/// [`predicts`] with its derivative named.
pub open spec fn prediction_with<Sys: ExplicitSystem<u64>, A: Fn(ScalarOp) -> u64>(
    system: Sys,
    arith: A,
    h: u64,
    start: u64,
    state: Seq<u64>,
    derivative: Seq<u64>,
    iterate: Seq<u64>,
) -> bool {
    &&& derivative.len() == state.len()
    &&& iterate.len() == state.len()
    &&& Sys::obeys_rate() ==> derivative == system.rate(Instant::from_encoding(start), state)
    &&& Sys::obeys_outcome() ==> system.outcome(Instant::from_encoding(start), state) is Ok
    &&& forall|i: int|
        0 <= i < state.len() ==> computes(
            arith,
            ScalarOp::MulAdd(h, derivative[i], state[i]),
            #[trigger] iterate[i],
        )
}

/// Whether `next` is one unconverged Newton iteration from `iterate`: with
/// the derivative `f` and Jacobian `J` at `end` and `iterate` (the system's
/// when it states them), the residual `g` has infinity norm above
/// `tolerance` and `next` is `iterate` corrected by `(I - h J) x = -g`.
pub open spec fn newton_step<Sys: ImplicitSystem<u64>, A: Fn(ScalarOp) -> u64>(
    system: Sys,
    arith: A,
    h: u64,
    end: u64,
    state: Seq<u64>,
    tolerance: u64,
    iterate: Seq<u64>,
    next: Seq<u64>,
) -> bool {
    exists|derivative: Seq<u64>, jacobian: Seq<u64>, residual: Seq<u64>|
        #[trigger] newton_step_with(
            system,
            arith,
            h,
            end,
            state,
            tolerance,
            iterate,
            next,
            derivative,
            jacobian,
            residual,
        )
}

/// [`newton_step`] with its derivative, Jacobian and residual named.
pub open spec fn newton_step_with<Sys: ImplicitSystem<u64>, A: Fn(ScalarOp) -> u64>(
    system: Sys,
    arith: A,
    h: u64,
    end: u64,
    state: Seq<u64>,
    tolerance: u64,
    iterate: Seq<u64>,
    next: Seq<u64>,
    derivative: Seq<u64>,
    jacobian: Seq<u64>,
    residual: Seq<u64>,
) -> bool {
    let n = state.len() as int;
    &&& iterate.len() == n
    &&& derivative.len() == n
    &&& Sys::obeys_rate() ==> derivative == system.rate(Instant::from_encoding(end), iterate)
    &&& Sys::obeys_outcome() ==> system.outcome(Instant::from_encoding(end), iterate) is Ok
    &&& residuals(arith, h, iterate, state, derivative, residual)
    &&& !le(residual_norm(residual), tolerance)
    &&& jacobian.len() == n * n
    &&& Sys::obeys_jacobian() ==> jacobian == system.jacobian_at(Instant::from_encoding(end), iterate)
    &&& Sys::obeys_jacobian_outcome() ==> system.jacobian_outcome(
        Instant::from_encoding(end),
        iterate,
    ) is Ok
    &&& corrects(arith, h, iterate, jacobian, residual, next)
}

/// Whether the Newton iteration stops at `iterate` on a singular matrix:
/// with the derivative and Jacobian at `end` and `iterate` (the system's when
/// it states them), the residual has infinity norm above `tolerance` and the
/// dense solve of `(I - h J) x = -g` meets a zero pivot.
pub open spec fn singular_step<Sys: ImplicitSystem<u64>, A: Fn(ScalarOp) -> u64>(
    system: Sys,
    arith: A,
    h: u64,
    end: u64,
    state: Seq<u64>,
    tolerance: u64,
    iterate: Seq<u64>,
) -> bool {
    exists|derivative: Seq<u64>, jacobian: Seq<u64>, residual: Seq<u64>, matrix: Seq<u64>, rhs: Seq<u64>|
        #[trigger] singular_step_with(
            system,
            arith,
            h,
            end,
            state,
            tolerance,
            iterate,
            derivative,
            jacobian,
            residual,
            matrix,
            rhs,
        )
}

/// [`singular_step`] with its values named.
pub open spec fn singular_step_with<Sys: ImplicitSystem<u64>, A: Fn(ScalarOp) -> u64>(
    system: Sys,
    arith: A,
    h: u64,
    end: u64,
    state: Seq<u64>,
    tolerance: u64,
    iterate: Seq<u64>,
    derivative: Seq<u64>,
    jacobian: Seq<u64>,
    residual: Seq<u64>,
    matrix: Seq<u64>,
    rhs: Seq<u64>,
) -> bool {
    let n = state.len() as int;
    &&& iterate.len() == n
    &&& derivative.len() == n
    &&& Sys::obeys_rate() ==> derivative == system.rate(Instant::from_encoding(end), iterate)
    &&& Sys::obeys_outcome() ==> system.outcome(Instant::from_encoding(end), iterate) is Ok
    &&& residuals(arith, h, iterate, state, derivative, residual)
    &&& !le(residual_norm(residual), tolerance)
    &&& jacobian.len() == n * n
    &&& Sys::obeys_jacobian() ==> jacobian == system.jacobian_at(Instant::from_encoding(end), iterate)
    &&& Sys::obeys_jacobian_outcome() ==> system.jacobian_outcome(
        Instant::from_encoding(end),
        iterate,
    ) is Ok
    &&& newton_matrix(arith, h, n, jacobian, matrix)
    &&& negated(arith, residual, rhs)
    &&& singular(arith, matrix, rhs)
}

/// Whether the Newton iteration stops at `iterate` on `error` from the
/// system, for a system that states its outcomes: either its evaluation at
/// `(end, iterate)` fails with `error`, or that evaluation succeeds with a
/// derivative (the system's rate when it states one) whose residual has
/// norm above `tolerance`, and forming the Jacobian there fails with
/// `error`.
pub open spec fn newton_failure_with<Sys: ImplicitSystem<u64>, A: Fn(ScalarOp) -> u64>(
    system: Sys,
    arith: A,
    h: u64,
    end: u64,
    state: Seq<u64>,
    tolerance: u64,
    iterate: Seq<u64>,
    derivative: Seq<u64>,
    residual: Seq<u64>,
    error: Sys::Error,
) -> bool {
    ||| Sys::obeys_outcome() ==> system.outcome(Instant::from_encoding(end), iterate) == Err::<
        (),
        Sys::Error,
    >(error)
    ||| {
        &&& Sys::obeys_outcome() ==> system.outcome(Instant::from_encoding(end), iterate) is Ok
        &&& derivative.len() == state.len()
        &&& Sys::obeys_rate() ==> derivative == system.rate(Instant::from_encoding(end), iterate)
        &&& residuals(arith, h, iterate, state, derivative, residual)
        &&& !le(residual_norm(residual), tolerance)
        &&& Sys::obeys_jacobian_outcome() ==> system.jacobian_outcome(
            Instant::from_encoding(end),
            iterate,
        ) == Err::<(), Sys::Error>(error)
    }
}

/// Whether the implicit step stops on `error` from the system, for a system
/// that states its outcomes, with the output going from `before` to
/// `after`: either the predictor's evaluation at `(start, state)` fails with
/// `error` and the output is left as it was, or after a recorded Newton
/// iteration ([`newton_trace`]) the last iterate meets
/// [`newton_failure_with`] and the output holds that iterate.
pub open spec fn system_failure<Sys: ImplicitSystem<u64>, A: Fn(ScalarOp) -> u64>(
    system: Sys,
    arith: A,
    h: u64,
    start: u64,
    end: u64,
    state: Seq<u64>,
    tolerance: u64,
    before: Seq<u64>,
    after: Seq<u64>,
    error: Sys::Error,
) -> bool {
    ||| {
        &&& Sys::obeys_outcome() ==> system.outcome(Instant::from_encoding(start), state) == Err::<
            (),
            Sys::Error,
        >(error)
        &&& after == before
    }
    ||| exists|iterates: Seq<Seq<u64>>, derivative: Seq<u64>, residual: Seq<u64>|
        {
            &&& #[trigger] newton_trace(system, arith, h, start, end, state, tolerance, iterates)
            &&& iterates.len() <= MAX_NEWTON_ITERATIONS
            &&& iterates.last() == after
            &&& #[trigger] newton_failure_with(
                system,
                arith,
                h,
                end,
                state,
                tolerance,
                iterates.last(),
                derivative,
                residual,
                error,
            )
        }
}

/// Whether `iterates` records a Newton iteration: the first is the
/// predictor from `start`, and each later one a [`newton_step`] from the
/// one before.
pub open spec fn newton_trace<Sys: ImplicitSystem<u64>, A: Fn(ScalarOp) -> u64>(
    system: Sys,
    arith: A,
    h: u64,
    start: u64,
    end: u64,
    state: Seq<u64>,
    tolerance: u64,
    iterates: Seq<Seq<u64>>,
) -> bool {
    &&& iterates.len() >= 1
    &&& predicts(system, arith, h, start, state, iterates[0])
    &&& forall|k: int|
        0 <= k < iterates.len() - 1 ==> #[trigger] newton_step(
            system,
            arith,
            h,
            end,
            state,
            tolerance,
            iterates[k],
            iterates[k + 1],
        )
}

/// Whether `iterate` has converged: with a derivative at `end` and
/// `iterate` (the system's when it states one), its residual is `residual`
/// and has infinity norm at most `tolerance`.
pub open spec fn converged<Sys: ExplicitSystem<u64>, A: Fn(ScalarOp) -> u64>(
    system: Sys,
    arith: A,
    h: u64,
    end: u64,
    state: Seq<u64>,
    tolerance: u64,
    iterate: Seq<u64>,
    residual: Seq<u64>,
) -> bool {
    exists|derivative: Seq<u64>|
        #[trigger] convergence_with(system, arith, h, end, state, tolerance, iterate, residual, derivative)
}

/// [`converged`] with its derivative named.
pub open spec fn convergence_with<Sys: ExplicitSystem<u64>, A: Fn(ScalarOp) -> u64>(
    system: Sys,
    arith: A,
    h: u64,
    end: u64,
    state: Seq<u64>,
    tolerance: u64,
    iterate: Seq<u64>,
    residual: Seq<u64>,
    derivative: Seq<u64>,
) -> bool {
    &&& derivative.len() == state.len()
    &&& Sys::obeys_rate() ==> derivative == system.rate(Instant::from_encoding(end), iterate)
    &&& Sys::obeys_outcome() ==> system.outcome(Instant::from_encoding(end), iterate) is Ok
    &&& residuals(arith, h, iterate, state, derivative, residual)
    &&& le(residual_norm(residual), tolerance)
}

/// Overwrite `residual`, which holds the derivative at `iterate`, with the
/// backward-Euler residual of `iterate` against `state`, and return its
/// infinity norm ([`residual_norm`]).
pub fn newton_residual_into<A: Fn(ScalarOp) -> u64>(
    iterate: &[u64],
    state: &[u64],
    h: u64,
    residual: &mut [u64],
    arith: &A,
) -> (norm: u64)
    requires
        total(*arith),
        iterate@.len() == state@.len(),
        old(residual)@.len() == state@.len(),
    ensures
        residuals(*arith, h, iterate@, state@, old(residual)@, final(residual)@),
        norm == residual_norm(final(residual)@),
        forall|i: int|
            0 <= i < state@.len() && !is_nan(final(residual)@[i]) ==> le(
                magnitude(#[trigger] final(residual)@[i]),
                norm,
            ),
        norm == ZERO_BITS || exists|i: int|
            0 <= i < state@.len() && norm == magnitude(#[trigger] final(residual)@[i]),
{
    let dimension = state.len();
    let ghost derivative = residual@;
    let mut i: usize = 0;
    while i < dimension
        invariant
            total(*arith),
            dimension == state@.len(),
            iterate@.len() == dimension,
            residual@.len() == dimension,
            derivative.len() == dimension,
            0 <= i <= dimension,
            forall|j: int| i <= j < dimension ==> #[trigger] residual@[j] == derivative[j],
            forall|j: int|
                0 <= j < i ==> residual_of(
                    *arith,
                    h,
                    iterate@[j],
                    state@[j],
                    derivative[j],
                    #[trigger] residual@[j],
                ),
        decreases dimension - i,
    {
        let slope = residual[i];
        let difference = arith(ScalarOp::Sub(iterate[i], state[i]));
        let product = arith(ScalarOp::Mul(h, slope));
        let value = arith(ScalarOp::Sub(difference, product));
        proof {
            assert(slope == derivative[i as int]);
            assert(computes(*arith, ScalarOp::Sub(iterate@[i as int], state@[i as int]), difference));
            assert(computes(*arith, ScalarOp::Mul(h, derivative[i as int]), product));
            assert(residual_of(*arith, h, iterate@[i as int], state@[i as int], derivative[i as int], value));
        }
        residual[i] = value;
        i = i + 1;
    }
    let mut norm = ZERO_BITS;
    let mut i: usize = 0;
    while i < dimension
        invariant
            residual@.len() == dimension,
            0 <= i <= dimension,
            norm == residual_norm(residual@.take(i as int)),
        decreases dimension - i,
    {
        proof {
            assert(residual@.take(i + 1).drop_last() =~= residual@.take(i as int));
        }
        let magnitude = crate::binary64::abs(residual[i]);
        if crate::binary64::less_than(norm, magnitude) {
            norm = magnitude;
        }
        i = i + 1;
    }
    proof {
        assert(residual@.take(dimension as int) =~= residual@);
        lemma_residual_norm_is_maximum(residual@);
    }
    norm
}

/// Apply one Newton correction to `iterate`: overwrite `jacobian`, which
/// holds `J`, with the Newton matrix `I - h J`, overwrite `residual`, which
/// holds `g`, with `-g`, solve the system in place ([`solve_dense`]) and add
/// the solution to `iterate`. A singular Newton matrix leaves `iterate`
/// unchanged.
pub fn newton_correction<A: Fn(ScalarOp) -> u64>(
    iterate: &mut [u64],
    jacobian: &mut [u64],
    residual: &mut [u64],
    h: u64,
    arith: &A,
) -> (r: Result<(), SolveError>)
    requires
        total(*arith),
        old(residual)@.len() == old(iterate)@.len(),
        old(jacobian)@.len() == old(iterate)@.len() * old(iterate)@.len(),
    ensures
        final(iterate)@.len() == old(iterate)@.len(),
        final(jacobian)@.len() == old(jacobian)@.len(),
        final(residual)@.len() == old(residual)@.len(),
        r is Ok ==> corrects(*arith, h, old(iterate)@, old(jacobian)@, old(residual)@, final(iterate)@),
        r is Err ==> r == Err::<(), SolveError>(SolveError::SingularMatrix)
            && final(iterate)@ == old(iterate)@ && exists|matrix: Seq<u64>, rhs: Seq<u64>|
            {
                &&& newton_matrix(*arith, h, old(iterate)@.len() as int, old(jacobian)@, matrix)
                &&& negated(*arith, old(residual)@, rhs)
                &&& singular(*arith, matrix, rhs)
            },
{
    let dimension = iterate.len();
    let cells = jacobian.len();
    let ghost n = dimension as int;
    let ghost j0 = jacobian@;
    let ghost g = residual@;
    let mut row: usize = 0;
    while row < dimension
        invariant
            total(*arith),
            n == dimension,
            jacobian@.len() == cells,
            cells == dimension * dimension,
            j0.len() == cells,
            0 <= row <= dimension,
            forall|r: int, c: int|
                0 <= r < n && 0 <= c < n && r >= row ==> #[trigger] entry(jacobian@, n, r, c) == entry(j0, n, r, c),
            forall|r: int, c: int|
                0 <= r < row && 0 <= c < n ==> newton_entry(
                    *arith,
                    h,
                    entry(j0, n, r, c),
                    r == c,
                    #[trigger] entry(jacobian@, n, r, c),
                ),
        decreases dimension - row,
    {
        let ghost row_start = jacobian@;
        let mut column: usize = 0;
        while column < dimension
            invariant
                total(*arith),
                n == dimension,
                jacobian@.len() == cells,
                cells == dimension * dimension,
                j0.len() == cells,
                0 <= row < dimension,
                0 <= column <= dimension,
                forall|r: int, c: int|
                    0 <= r < n && 0 <= c < n && !(r == row && c < column) ==> #[trigger] entry(
                        jacobian@,
                        n,
                        r,
                        c,
                    ) == entry(row_start, n, r, c),
                forall|r: int, c: int|
                    0 <= r < n && 0 <= c < n && r >= row ==> #[trigger] entry(row_start, n, r, c)
                        == entry(j0, n, r, c),
                forall|c: int|
                    0 <= c < column ==> newton_entry(
                        *arith,
                        h,
                        entry(j0, n, row as int, c),
                        row == c,
                        #[trigger] entry(jacobian@, n, row as int, c),
                    ),
            decreases dimension - column,
        {
            proof {
                lemma_cell_in_bounds(row as int, column as int, n);
            }
            let ghost before = jacobian@;
            let diagonal = if row == column {
                ONE_BITS
            } else {
                ZERO_BITS
            };
            let value = jacobian[row * dimension + column];
            let product = arith(ScalarOp::Mul(h, value));
            let updated = arith(ScalarOp::Sub(diagonal, product));
            proof {
                assert(value == entry(before, n, row as int, column as int));
                assert(entry(before, n, row as int, column as int) == entry(row_start, n, row as int, column as int));
                assert(entry(row_start, n, row as int, column as int) == entry(j0, n, row as int, column as int));
            }
            jacobian[row * dimension + column] = updated;
            proof {
                assert(entry(jacobian@, n, row as int, column as int) == updated);
                assert(computes(*arith, ScalarOp::Mul(h, entry(j0, n, row as int, column as int)), product));
                assert forall|r: int, c: int|
                    0 <= r < n && 0 <= c < n && !(r == row && c < column + 1) implies #[trigger] entry(
                    jacobian@,
                    n,
                    r,
                    c,
                ) == entry(row_start, n, r, c) by {
                    lemma_cells_distinct(r, c, row as int, column as int, n);
                    lemma_cell_in_bounds(r, c, n);
                    assert(entry(before, n, r, c) == entry(row_start, n, r, c));
                }
                assert(newton_entry(
                    *arith,
                    h,
                    entry(j0, n, row as int, column as int),
                    row == column,
                    entry(jacobian@, n, row as int, column as int),
                ));
                assert forall|c: int| 0 <= c < column + 1 implies newton_entry(
                    *arith,
                    h,
                    entry(j0, n, row as int, c),
                    row == c,
                    #[trigger] entry(jacobian@, n, row as int, c),
                ) by {
                    if c < column {
                        lemma_cells_distinct(row as int, c, row as int, column as int, n);
                        lemma_cell_in_bounds(row as int, c, n);
                        assert(entry(jacobian@, n, row as int, c) == entry(before, n, row as int, c));
                    }
                }
            }
            column = column + 1;
        }
        proof {
            assert forall|r: int, c: int| 0 <= r < row + 1 && 0 <= c < n implies newton_entry(
                *arith,
                h,
                entry(j0, n, r, c),
                r == c,
                #[trigger] entry(jacobian@, n, r, c),
            ) by {
                if r < row {
                    assert(entry(jacobian@, n, r, c) == entry(row_start, n, r, c));
                }
            }
        }
        row = row + 1;
    }
    let ghost matrix = jacobian@;
    let mut i: usize = 0;
    while i < dimension
        invariant
            total(*arith),
            residual@.len() == dimension,
            g.len() == dimension,
            0 <= i <= dimension,
            forall|j: int| i <= j < dimension ==> #[trigger] residual@[j] == g[j],
            forall|j: int|
                0 <= j < i ==> computes(*arith, ScalarOp::Sub(ZERO_BITS, g[j]), #[trigger] residual@[j]),
        decreases dimension - i,
    {
        residual[i] = arith(ScalarOp::Sub(ZERO_BITS, residual[i]));
        i = i + 1;
    }
    let ghost rhs = residual@;
    proof {
        assert(newton_matrix(*arith, h, n, j0, matrix));
        assert(negated(*arith, g, rhs));
    }
    match solve_dense(jacobian, residual, arith) {
        Ok(()) => {
            let ghost x = residual@;
            let ghost y = iterate@;
            let mut i: usize = 0;
            while i < dimension
                invariant
                    total(*arith),
                    iterate@.len() == dimension,
                    residual@ == x,
                    x.len() == dimension,
                    y.len() == dimension,
                    0 <= i <= dimension,
                    forall|j: int| i <= j < dimension ==> #[trigger] iterate@[j] == y[j],
                    forall|j: int|
                        0 <= j < i ==> computes(*arith, ScalarOp::Add(y[j], x[j]), #[trigger] iterate@[j]),
                decreases dimension - i,
            {
                iterate[i] = arith(ScalarOp::Add(iterate[i], residual[i]));
                i = i + 1;
            }
            proof {
                assert(solves(*arith, matrix, rhs, x));
                assert(correction_with(*arith, h, y, j0, g, matrix, rhs, x, iterate@));
            }
            Ok(())
        },
        Err(error) => {
            proof {
                assert(singular(*arith, matrix, rhs));
            }
            Err(error)
        },
    }
}

/// Advance `state` by one implicit step into `output`.
///
/// Uses the method named by `method` (backward Euler) with a Newton
/// iteration. The end instant is `start + step` (rounded by `arith`). From
/// the explicit-Euler predictor `MulAdd(h, f(start, state), state)` it
/// evaluates the system at `(end, y)` and forms the residual
/// `g = (y - y_n) - h f(end, y)` ([`newton_residual_into`]); it stops when
/// the infinity norm of `g` is at most `tolerance`, and otherwise asks the
/// system for its Jacobian at `(end, y)` and corrects `y` by the solution of
/// `(I - h J) x = -g` ([`newton_correction`]), at most
/// [`MAX_NEWTON_ITERATIONS`] times. Every rounding operation goes through
/// `arith`.
///
/// Returns [`ImplicitStepError::DimensionMismatch`] when the output or the
/// workspace disagrees with the state, [`ImplicitStepError::Time`] when the
/// end instant is not finite (all three before any evaluation, with `output`
/// unchanged), [`ImplicitStepError::System`] carrying the error of the first
/// evaluation or Jacobian that the system rejects, after which nothing more
/// is asked of it, and [`ImplicitStepError::Solve`] when Newton does not
/// converge or the Newton matrix is singular. On these last errors `output`
/// holds the last Newton iterate, or is left as it was when the predictor's
/// own evaluation failed.
pub fn step_implicit_into<
    Method: ImplicitMethod,
    System: ImplicitSystem<u64>,
    A: Fn(ScalarOp) -> u64,
>(
    system: &System,
    _method: Method,
    start: Instant,
    step: StepSize,
    state: &[u64],
    output: &mut [u64],
    workspace: &mut ImplicitWorkspace<u64>,
    tolerance: u64,
    arith: &A,
) -> (r: Result<StepReport, ImplicitStepError<System::Error>>)
    requires
        total(*arith),
        old(workspace).well_formed(),
    ensures
        final(workspace).well_formed(),
        final(workspace).spec_dimension() == old(workspace).spec_dimension(),
        final(output)@.len() == old(output)@.len(),
        old(output)@.len() != state@.len() ==> r == Err::<
            StepReport,
            ImplicitStepError<System::Error>,
        >(
            ImplicitStepError::DimensionMismatch {
                role: SliceRole::Output,
                expected: state@.len() as usize,
                actual: old(output)@.len() as usize,
            },
        ) && final(output)@ == old(output)@,
        old(output)@.len() == state@.len() && old(workspace).spec_dimension() != state@.len() ==> r
            == Err::<StepReport, ImplicitStepError<System::Error>>(
            ImplicitStepError::DimensionMismatch {
                role: SliceRole::Workspace,
                expected: state@.len() as usize,
                actual: old(workspace).spec_dimension() as usize,
            },
        ) && final(output)@ == old(output)@,
        old(output)@.len() == state@.len() && old(workspace).spec_dimension() == state@.len() ==> exists|
            end: u64,
        |
            {
                &&& computes(*arith, ScalarOp::Add(start@, step@), end)
                &&& !is_finite(end) ==> r == Err::<StepReport, ImplicitStepError<System::Error>>(
                    ImplicitStepError::Time(TimeError::NonFinite),
                ) && final(output)@ == old(output)@
                &&& is_finite(end) ==> match r {
                    Ok(report) => {
                        &&& report.spec_start() == start
                        &&& report.spec_step() == step
                        &&& report.spec_end()@ == end
                        &&& exists|iterates: Seq<Seq<u64>>|
                            {
                                &&& #[trigger] newton_trace(
                                    *system,
                                    *arith,
                                    step@,
                                    start@,
                                    end,
                                    state@,
                                    tolerance,
                                    iterates,
                                )
                                &&& iterates.len() <= MAX_NEWTON_ITERATIONS
                                &&& iterates.last() == final(output)@
                                &&& report.spec_evaluations() == iterates.len() + 1
                                &&& converged(
                                    *system,
                                    *arith,
                                    step@,
                                    end,
                                    state@,
                                    tolerance,
                                    final(output)@,
                                    final(workspace).spec_residual(),
                                )
                            }
                    },
                    Err(ImplicitStepError::Solve(SolveError::NonConvergence)) => exists|
                        iterates: Seq<Seq<u64>>,
                    |
                        #[trigger] newton_trace(
                            *system,
                            *arith,
                            step@,
                            start@,
                            end,
                            state@,
                            tolerance,
                            iterates,
                        ) && iterates.len() == MAX_NEWTON_ITERATIONS + 1 && iterates.last()
                            == final(output)@,
                    Err(ImplicitStepError::Solve(SolveError::SingularMatrix)) => exists|
                        iterates: Seq<Seq<u64>>,
                    |
                        #[trigger] newton_trace(
                            *system,
                            *arith,
                            step@,
                            start@,
                            end,
                            state@,
                            tolerance,
                            iterates,
                        ) && iterates.len() <= MAX_NEWTON_ITERATIONS && iterates.last()
                            == final(output)@ && singular_step(
                            *system,
                            *arith,
                            step@,
                            end,
                            state@,
                            tolerance,
                            iterates.last(),
                        ),
                    Err(ImplicitStepError::System(error)) => system_failure(
                        *system,
                        *arith,
                        step@,
                        start@,
                        end,
                        state@,
                        tolerance,
                        old(output)@,
                        final(output)@,
                        error,
                    ),
                    Err(_) => false,
                }
            },
        !(exists|end: u64, error: System::Error|
            #[trigger] system_failure(
                *system,
                *arith,
                step@,
                start@,
                end,
                state@,
                tolerance,
                old(output)@,
                final(output)@,
                error,
            )) ==> !(r matches Err(ImplicitStepError::System(_))),
        r is Ok ==> forall|i: int|
            0 <= i < state@.len() && !is_nan(final(workspace).spec_residual()[i]) ==> le(
                magnitude(#[trigger] final(workspace).spec_residual()[i]),
                tolerance,
            ),
{
    let dimension = state.len();
    if output.len() != dimension {
        return Err(
            ImplicitStepError::DimensionMismatch {
                role: SliceRole::Output,
                expected: dimension,
                actual: output.len(),
            },
        );
    }
    if workspace.dimension() != dimension {
        return Err(
            ImplicitStepError::DimensionMismatch {
                role: SliceRole::Workspace,
                expected: dimension,
                actual: workspace.dimension(),
            },
        );
    }
    let end = match start.advance(step, arith) {
        Ok(end) => end,
        Err(error) => return Err(ImplicitStepError::Time(error)),
    };
    let h = step.as_time();
    let start_bits = start.as_time();
    let end_bits = end.as_time();
    let ghost ws_final = *final(workspace);
    let (residual, jacobian) = workspace.buffers_mut();
    let cells = jacobian.len();
    let mut outcome: Result<StepReport, ImplicitStepError<System::Error>> = Err(
        ImplicitStepError::Solve(SolveError::NonConvergence),
    );
    let ghost output_before = output@;
    let predicted = system.evaluate(start, state, residual);
    let ghost prediction = predicted;
    match predicted {
        Ok(()) => {
            let ghost predicted_from = residual@;
            let mut i: usize = 0;
            while i < dimension
                invariant
                    total(*arith),
                    dimension == state@.len(),
                    output@.len() == dimension,
                    residual@ == predicted_from,
                    predicted_from.len() == dimension,
                    0 <= i <= dimension,
                    forall|j: int|
                        0 <= j < i ==> computes(
                            *arith,
                            ScalarOp::MulAdd(h, predicted_from[j], state@[j]),
                            #[trigger] output@[j],
                        ),
                decreases dimension - i,
            {
                output[i] = arith(ScalarOp::MulAdd(h, residual[i], state[i]));
                i = i + 1;
            }
            proof {
                assert(prediction_with(*system, *arith, h, start@, state@, predicted_from, output@));
            }
            let ghost mut iterates: Seq<Seq<u64>> = seq![output@];
            let mut evaluations: usize = 1;
            let mut converged_now = false;
            let mut failed = false;
            let mut iteration: usize = 0;
            while iteration < MAX_NEWTON_ITERATIONS && !converged_now && !failed
                invariant
                    total(*arith),
                    dimension == state@.len(),
                    dimension > 0,
                    output@.len() == dimension,
                    residual@.len() == dimension,
                    jacobian@.len() == cells,
                    cells == dimension * dimension,
                    ws_final.spec_dimension() == dimension,
                    ws_final.spec_residual() == final(residual)@,
                    ws_final.spec_jacobian() == final(jacobian)@,
                    0 <= iteration <= MAX_NEWTON_ITERATIONS,
                    evaluations == iteration + 1,
                    h == step@,
                    start_bits == start@,
                    end_bits == end@,
                    end == Instant::from_encoding(end@),
                    converged_now ==> !failed && iteration >= 1,
                    !failed ==> newton_trace(
                        *system,
                        *arith,
                        h,
                        start@,
                        end@,
                        state@,
                        tolerance,
                        iterates,
                    ),
                    iterates.len() >= 1,
                    iterates.last() == output@,
                    output_before.len() == dimension,
                    !converged_now && !failed ==> iterates.len() == iteration + 1,
                    converged_now ==> iterates.len() == iteration,
                    converged_now ==> converged(
                        *system,
                        *arith,
                        h,
                        end@,
                        state@,
                        tolerance,
                        output@,
                        residual@,
                    ),
                    converged_now ==> outcome is Err,
                    failed ==> (outcome matches Err(error) && (error is System || error
                        == ImplicitStepError::<System::Error>::Solve(SolveError::SingularMatrix))),
                    failed ==> (outcome matches Err(ImplicitStepError::System(error)) ==> system_failure(
                        *system,
                        *arith,
                        h,
                        start@,
                        end@,
                        state@,
                        tolerance,
                        output_before,
                        output@,
                        error,
                    )),
                    failed && outcome == Err::<StepReport, ImplicitStepError<System::Error>>(
                        ImplicitStepError::Solve(SolveError::SingularMatrix),
                    ) ==> newton_trace(
                        *system,
                        *arith,
                        h,
                        start@,
                        end@,
                        state@,
                        tolerance,
                        iterates,
                    ) && iterates.len() <= iteration && singular_step(
                        *system,
                        *arith,
                        h,
                        end@,
                        state@,
                        tolerance,
                        iterates.last(),
                    ),
                    !converged_now && !failed ==> outcome == Err::<
                        StepReport,
                        ImplicitStepError<System::Error>,
                    >(ImplicitStepError::Solve(SolveError::NonConvergence)),
                decreases MAX_NEWTON_ITERATIONS - iteration,
            {
                evaluations = evaluations + 1;
                let ghost iterate_now = output@;
                let evaluated = system.evaluate(end, output, residual);
                let ghost evaluation = evaluated;
                match evaluated {
                    Ok(()) => {
                        let ghost derivative = residual@;
                        let norm = newton_residual_into(output, state, h, residual, arith);
                        if crate::binary64::less_equal(norm, tolerance) {
                            proof {
                                assert(convergence_with(
                                    *system,
                                    *arith,
                                    h,
                                    end@,
                                    state@,
                                    tolerance,
                                    output@,
                                    residual@,
                                    derivative,
                                ));
                            }
                            converged_now = true;
                        } else {
                            let formed = system.jacobian(end, output, jacobian);
                            let ghost formation = formed;
                            match formed {
                                Ok(()) => {
                                    let ghost jacobian_values = jacobian@;
                                    let ghost residual_values = residual@;
                                    let ghost iterate = output@;
                                    match newton_correction(output, jacobian, residual, h, arith) {
                                        Ok(()) => {
                                            proof {
                                                assert(newton_step_with(
                                                    *system,
                                                    *arith,
                                                    h,
                                                    end@,
                                                    state@,
                                                    tolerance,
                                                    iterate,
                                                    output@,
                                                    derivative,
                                                    jacobian_values,
                                                    residual_values,
                                                ));
                                                let ghost previous = iterates;
                                                iterates = iterates.push(output@);
                                                assert(iterates[0] == previous[0]);
                                                assert forall|k: int|
                                                    0 <= k < iterates.len() - 1 implies #[trigger] newton_step(
                                                    *system,
                                                    *arith,
                                                    h,
                                                    end@,
                                                    state@,
                                                    tolerance,
                                                    iterates[k],
                                                    iterates[k + 1],
                                                ) by {
                                                    if k < previous.len() - 1 {
                                                        assert(iterates[k] == previous[k]);
                                                        assert(iterates[k + 1] == previous[k + 1]);
                                                    }
                                                }
                                            }
                                        },
                                        Err(error) => {
                                            proof {
                                                let (matrix, rhs) = choose|matrix: Seq<u64>, rhs: Seq<u64>|
                                                    {
                                                        &&& newton_matrix(
                                                            *arith,
                                                            h,
                                                            iterate.len() as int,
                                                            jacobian_values,
                                                            matrix,
                                                        )
                                                        &&& negated(*arith, residual_values, rhs)
                                                        &&& singular(*arith, matrix, rhs)
                                                    };
                                                assert(singular_step_with(
                                                    *system,
                                                    *arith,
                                                    h,
                                                    end@,
                                                    state@,
                                                    tolerance,
                                                    iterate,
                                                    derivative,
                                                    jacobian_values,
                                                    residual_values,
                                                    matrix,
                                                    rhs,
                                                ));
                                            }
                                            outcome = Err(ImplicitStepError::Solve(error));
                                            failed = true;
                                        },
                                    }
                                },
                                Err(error) => {
                                    proof {
                                        assert(newton_failure_with(
                                            *system,
                                            *arith,
                                            h,
                                            end@,
                                            state@,
                                            tolerance,
                                            iterates.last(),
                                            derivative,
                                            residual@,
                                            error,
                                        ));
                                    }
                                    outcome = Err(ImplicitStepError::System(error));
                                    failed = true;
                                },
                            }
                        }
                    },
                    Err(error) => {
                        proof {
                            assert(newton_failure_with(
                                *system,
                                *arith,
                                h,
                                end@,
                                state@,
                                tolerance,
                                iterates.last(),
                                residual@,
                                residual@,
                                error,
                            ));
                        }
                        outcome = Err(ImplicitStepError::System(error));
                        failed = true;
                    },
                }
                iteration = iteration + 1;
            }
            if converged_now {
                outcome = Ok(StepReport::new(start, end, step, evaluations));
            }
        },
        Err(error) => {
            proof {
                assert(system_failure(
                    *system,
                    *arith,
                    h,
                    start@,
                    end@,
                    state@,
                    tolerance,
                    output_before,
                    output@,
                    error,
                ));
            }
            outcome = Err(ImplicitStepError::System(error));
        },
    }
    proof {
        lemma_residual_norm_is_maximum(residual@);
    }
    outcome
}

} // verus!
