use vstd::prelude::*;

use crate::binary64::{computes, deterministic, is_finite, total, ScalarOp};
use crate::system::ExplicitSystem;
use crate::time::{Instant, StepSize, TimeError, instant::instant_outcome};
use super::tableau::{Coefficient, EmbeddedExplicitTableau, ExplicitTableau};
use super::{SliceRole, StepError, StepReport, StepWorkspace};

verus! {

/// The output weights `b` of `M`.
pub open spec fn primary_weights<const S: usize, M: ExplicitTableau<S>>() -> Seq<Coefficient> {
    Seq::new(S as nat, |stage: int| M::spec_b(stage))
}

/// The embedded output weights of `M`.
pub open spec fn embedded_weights<const S: usize, M: EmbeddedExplicitTableau<S>>() -> Seq<
    Coefficient,
> {
    Seq::new(S as nat, |stage: int| M::spec_b_embedded(stage))
}

/// Whether `estimate` is `Sub(primary, embedded)` through `arith` for an
/// `embedded` result accumulated over `embedded_terms` from `initial`.
pub open spec fn estimates<A: Fn(ScalarOp) -> u64>(
    arith: A,
    h: u64,
    embedded_terms: Seq<(Coefficient, u64)>,
    initial: u64,
    primary: u64,
    estimate: u64,
) -> bool {
    exists|embedded: u64|
        #![trigger computes(arith, ScalarOp::Sub(primary, embedded), estimate)]
        {
            &&& accumulates(arith, h, embedded_terms, initial, embedded)
            &&& computes(arith, ScalarOp::Sub(primary, embedded), estimate)
        }
}

/// Whether `result` is `MulAdd(Mul(h, Ratio(weight)), slope, previous)`
/// through `arith`: one stage's contribution to one component.
pub open spec fn stage_update<A: Fn(ScalarOp) -> u64>(
    arith: A,
    h: u64,
    weight: Coefficient,
    slope: u64,
    previous: u64,
    result: u64,
) -> bool {
    exists|scalar_weight: u64, factor: u64|
        #![trigger computes(arith, ScalarOp::Mul(h, scalar_weight), factor)]
        {
            &&& computes(arith, ScalarOp::Ratio(weight.numerator, weight.denominator), scalar_weight)
            &&& computes(arith, ScalarOp::Mul(h, scalar_weight), factor)
            &&& computes(arith, ScalarOp::MulAdd(factor, slope, previous), result)
        }
}

/// Whether `result` is reached from `initial` by applying [`stage_update`]
/// for each `(weight, slope)` of `terms` in order.
pub open spec fn accumulates<A: Fn(ScalarOp) -> u64>(
    arith: A,
    h: u64,
    terms: Seq<(Coefficient, u64)>,
    initial: u64,
    result: u64,
) -> bool
    decreases terms.len(),
{
    if terms.len() == 0 {
        result == initial
    } else {
        exists|previous: u64|
            #![trigger stage_update(arith, h, terms.last().0, terms.last().1, previous, result)]
            {
                &&& accumulates(arith, h, terms.drop_last(), initial, previous)
                &&& stage_update(arith, h, terms.last().0, terms.last().1, previous, result)
            }
    }
}

/// The `(weight, slope)` terms of component `k` over the first `n` stages,
/// the slopes read from a derivative buffer laid out stage after stage.
pub open spec fn column(
    weights: Seq<Coefficient>,
    derivatives: Seq<u64>,
    dimension: int,
    k: int,
    n: int,
) -> Seq<(Coefficient, u64)> {
    Seq::new(n as nat, |s: int| (weights[s], derivatives[s * dimension + k]))
}

/// With a deterministic scalar, one stage update of a value has a single
/// result.
proof fn lemma_stage_update_unique<A: Fn(ScalarOp) -> u64>(
    arith: A,
    h: u64,
    weight: Coefficient,
    slope: u64,
    previous: u64,
    first: u64,
    second: u64,
)
    requires
        deterministic(arith),
        stage_update(arith, h, weight, slope, previous, first),
        stage_update(arith, h, weight, slope, previous, second),
    ensures
        first == second,
{
    let (w1, f1) = choose|scalar_weight: u64, factor: u64|
        {
            &&& computes(arith, ScalarOp::Ratio(weight.numerator, weight.denominator), scalar_weight)
            &&& computes(arith, ScalarOp::Mul(h, scalar_weight), factor)
            &&& computes(arith, ScalarOp::MulAdd(factor, slope, previous), first)
        };
    let (w2, f2) = choose|scalar_weight: u64, factor: u64|
        {
            &&& computes(arith, ScalarOp::Ratio(weight.numerator, weight.denominator), scalar_weight)
            &&& computes(arith, ScalarOp::Mul(h, scalar_weight), factor)
            &&& computes(arith, ScalarOp::MulAdd(factor, slope, previous), second)
        };
    assert(w1 == w2);
    assert(f1 == f2);
}

/// With a deterministic scalar, accumulating the same terms from the same
/// initial value has a single result: an explicit step's output is a
/// function of its state, its step and its stage derivatives.
pub proof fn lemma_accumulates_unique<A: Fn(ScalarOp) -> u64>(
    arith: A,
    h: u64,
    terms: Seq<(Coefficient, u64)>,
    initial: u64,
    first: u64,
    second: u64,
)
    requires
        deterministic(arith),
        accumulates(arith, h, terms, initial, first),
        accumulates(arith, h, terms, initial, second),
    ensures
        first == second,
    decreases terms.len(),
{
    if terms.len() > 0 {
        let p1 = choose|previous: u64|
            #![trigger stage_update(arith, h, terms.last().0, terms.last().1, previous, first)]
            {
                &&& accumulates(arith, h, terms.drop_last(), initial, previous)
                &&& stage_update(arith, h, terms.last().0, terms.last().1, previous, first)
            };
        let p2 = choose|previous: u64|
            #![trigger stage_update(arith, h, terms.last().0, terms.last().1, previous, second)]
            {
                &&& accumulates(arith, h, terms.drop_last(), initial, previous)
                &&& stage_update(arith, h, terms.last().0, terms.last().1, previous, second)
            };
        lemma_accumulates_unique(arith, h, terms.drop_last(), initial, p1, p2);
        lemma_stage_update_unique(arith, h, terms.last().0, terms.last().1, p1, first, second);
    }
}

/// With a deterministic scalar, the error estimate of an embedded pair is a
/// function of the primary result and the embedded terms.
pub proof fn lemma_estimates_unique<A: Fn(ScalarOp) -> u64>(
    arith: A,
    h: u64,
    embedded_terms: Seq<(Coefficient, u64)>,
    initial: u64,
    primary: u64,
    first: u64,
    second: u64,
)
    requires
        deterministic(arith),
        estimates(arith, h, embedded_terms, initial, primary, first),
        estimates(arith, h, embedded_terms, initial, primary, second),
    ensures
        first == second,
{
    let e1 = choose|embedded: u64|
        {
            &&& accumulates(arith, h, embedded_terms, initial, embedded)
            &&& computes(arith, ScalarOp::Sub(primary, embedded), first)
        };
    let e2 = choose|embedded: u64|
        {
            &&& accumulates(arith, h, embedded_terms, initial, embedded)
            &&& computes(arith, ScalarOp::Sub(primary, embedded), second)
        };
    lemma_accumulates_unique(arith, h, embedded_terms, initial, e1, e2);
}

/// Whether the time of stage `stage` of `M`, `MulAdd(h, Ratio(c[stage]),
/// start)` through `arith`, can fail to be finite.
pub open spec fn stage_time_overflows<const S: usize, M: ExplicitTableau<S>, A: Fn(ScalarOp) -> u64>(
    arith: A,
    h: u64,
    start: u64,
    stage: int,
) -> bool {
    exists|fraction: u64, time: u64|
        #![trigger computes(arith, ScalarOp::MulAdd(h, fraction, start), time)]
        {
            &&& computes(
                arith,
                ScalarOp::Ratio(M::spec_c(stage).numerator, M::spec_c(stage).denominator),
                fraction,
            )
            &&& computes(arith, ScalarOp::MulAdd(h, fraction, start), time)
            &&& !is_finite(time)
        }
}

/// Whether a step of `M` from `start` by `h` can run past the finite range:
/// some stage time or the end `Add(start, h)` is not finite.
pub open spec fn step_time_overflows<const S: usize, M: ExplicitTableau<S>, A: Fn(ScalarOp) -> u64>(
    arith: A,
    h: u64,
    start: u64,
) -> bool {
    ||| exists|stage: int| 0 <= stage < S && #[trigger] stage_time_overflows::<S, M, A>(arith, h, start, stage)
    ||| exists|end: u64| computes(arith, ScalarOp::Add(start, h), end) && !is_finite(end)
}

/// The coupling weights `a[stage][j]` of `M` for the earlier stages `j`.
pub open spec fn stage_row<const S: usize, M: ExplicitTableau<S>>(stage: int) -> Seq<Coefficient> {
    Seq::new(stage as nat, |j: int| M::spec_a(stage, j))
}

/// Whether the time of stage `stage` of `M`, `MulAdd(h, Ratio(c[stage]),
/// start)` through `arith`, came out finite.
pub open spec fn stage_time_finite<const S: usize, M: ExplicitTableau<S>, A: Fn(ScalarOp) -> u64>(
    arith: A,
    h: u64,
    start: u64,
    stage: int,
) -> bool {
    exists|fraction: u64, time: u64|
        #![trigger computes(arith, ScalarOp::MulAdd(h, fraction, start), time)]
        {
            &&& computes(
                arith,
                ScalarOp::Ratio(M::spec_c(stage).numerator, M::spec_c(stage).denominator),
                fraction,
            )
            &&& computes(arith, ScalarOp::MulAdd(h, fraction, start), time)
            &&& is_finite(time)
        }
}

/// Whether `fraction`, `time` and `stage_state` are the inputs of stage
/// `stage` of a step of `M` and its derivative block fits them: the instant
/// `time` is `MulAdd(h, Ratio(c[stage]), start)` through `arith` and finite,
/// each component of `stage_state` accumulates row `stage` of `a` over the
/// earlier stage derivatives from `state`, and, for a system that states its
/// rate, the derivative block of `stage` is that rate at `time` and
/// `stage_state`.
pub open spec fn stage_inputs<
    const S: usize,
    M: ExplicitTableau<S>,
    Sys: ExplicitSystem<u64>,
    A: Fn(ScalarOp) -> u64,
>(
    system: Sys,
    arith: A,
    h: u64,
    start: u64,
    state: Seq<u64>,
    derivatives: Seq<u64>,
    stage: int,
    fraction: u64,
    time: u64,
    stage_state: Seq<u64>,
) -> bool {
    let n = state.len() as int;
    &&& computes(
        arith,
        ScalarOp::Ratio(M::spec_c(stage).numerator, M::spec_c(stage).denominator),
        fraction,
    )
    &&& computes(arith, ScalarOp::MulAdd(h, fraction, start), time)
    &&& is_finite(time)
    &&& stage_state.len() == n
    &&& forall|k: int|
        0 <= k < n ==> accumulates(
            arith,
            h,
            column(stage_row::<S, M>(stage), derivatives, n, k, stage),
            state[k],
            #[trigger] stage_state[k],
        )
    &&& Sys::obeys_rate() ==> derivatives.subrange(stage * n, stage * n + n) == system.rate(
        Instant::from_encoding(time),
        stage_state,
    )
    &&& Sys::obeys_outcome() ==> system.outcome(Instant::from_encoding(time), stage_state) is Ok
}

/// Whether `fraction`, `time` and `stage_state` are the inputs of stage
/// `stage` (as in [`stage_inputs`]) and, for a system that states its
/// outcome, evaluating there fails with `error`.
pub open spec fn stage_failure_with<
    const S: usize,
    M: ExplicitTableau<S>,
    Sys: ExplicitSystem<u64>,
    A: Fn(ScalarOp) -> u64,
>(
    system: Sys,
    arith: A,
    h: u64,
    start: u64,
    state: Seq<u64>,
    derivatives: Seq<u64>,
    stage: int,
    fraction: u64,
    time: u64,
    stage_state: Seq<u64>,
    error: Sys::Error,
) -> bool {
    let n = state.len() as int;
    &&& computes(
        arith,
        ScalarOp::Ratio(M::spec_c(stage).numerator, M::spec_c(stage).denominator),
        fraction,
    )
    &&& computes(arith, ScalarOp::MulAdd(h, fraction, start), time)
    &&& is_finite(time)
    &&& stage_state.len() == n
    &&& forall|k: int|
        0 <= k < n ==> accumulates(
            arith,
            h,
            column(stage_row::<S, M>(stage), derivatives, n, k, stage),
            state[k],
            #[trigger] stage_state[k],
        )
    &&& Sys::obeys_outcome() ==> system.outcome(Instant::from_encoding(time), stage_state) == Err::<
        (),
        Sys::Error,
    >(error)
}

/// Whether the stage evaluations stopped on `error`: every stage before some
/// stage was evaluated ([`stage_evaluated`]) and that stage's evaluation
/// failed with `error` ([`stage_failure_with`] for some inputs), so no later
/// stage was evaluated.
pub open spec fn stage_failure_reached<
    const S: usize,
    M: ExplicitTableau<S>,
    Sys: ExplicitSystem<u64>,
    A: Fn(ScalarOp) -> u64,
>(
    system: Sys,
    arith: A,
    h: u64,
    start: u64,
    state: Seq<u64>,
    derivatives: Seq<u64>,
    error: Sys::Error,
) -> bool {
    exists|stage: int, fraction: u64, time: u64, stage_state: Seq<u64>|
        {
            &&& 0 <= stage < S
            &&& forall|earlier: int|
                0 <= earlier < stage ==> #[trigger] stage_evaluated::<S, M, Sys, A>(
                    system,
                    arith,
                    h,
                    start,
                    state,
                    derivatives,
                    earlier,
                )
            &&& #[trigger] stage_failure_with::<S, M, Sys, A>(
                system,
                arith,
                h,
                start,
                state,
                derivatives,
                stage,
                fraction,
                time,
                stage_state,
                error,
            )
        }
}

/// Whether some evaluation of the step can fail: for some derivative buffer,
/// the stage evaluations stop on an error ([`stage_failure_reached`]).
pub open spec fn stage_failure_possible<
    const S: usize,
    M: ExplicitTableau<S>,
    Sys: ExplicitSystem<u64>,
    A: Fn(ScalarOp) -> u64,
>(system: Sys, arith: A, h: u64, start: u64, state: Seq<u64>) -> bool {
    exists|derivatives: Seq<u64>, error: Sys::Error|
        #[trigger] stage_failure_reached::<S, M, Sys, A>(
            system,
            arith,
            h,
            start,
            state,
            derivatives,
            error,
        )
}

/// Whether the stage evaluations stopped on a stage time that is not finite:
/// every stage before some stage was evaluated ([`stage_evaluated`]) and the
/// time of that stage can fail to be finite ([`stage_time_overflows`]), so it
/// and no later stage was evaluated.
pub open spec fn stage_time_failure_reached<
    const S: usize,
    M: ExplicitTableau<S>,
    Sys: ExplicitSystem<u64>,
    A: Fn(ScalarOp) -> u64,
>(system: Sys, arith: A, h: u64, start: u64, state: Seq<u64>, derivatives: Seq<u64>) -> bool {
    exists|stage: int|
        {
            &&& 0 <= stage < S
            &&& forall|earlier: int|
                0 <= earlier < stage ==> #[trigger] stage_evaluated::<S, M, Sys, A>(
                    system,
                    arith,
                    h,
                    start,
                    state,
                    derivatives,
                    earlier,
                )
            &&& #[trigger] stage_time_overflows::<S, M, A>(arith, h, start, stage)
        }
}

/// Whether stage `stage` of a step of `M` was evaluated as the Runge--Kutta
/// recurrence prescribes ([`stage_inputs`] for some inputs).
pub open spec fn stage_evaluated<
    const S: usize,
    M: ExplicitTableau<S>,
    Sys: ExplicitSystem<u64>,
    A: Fn(ScalarOp) -> u64,
>(
    system: Sys,
    arith: A,
    h: u64,
    start: u64,
    state: Seq<u64>,
    derivatives: Seq<u64>,
    stage: int,
) -> bool {
    exists|fraction: u64, time: u64, stage_state: Seq<u64>|
        #[trigger] stage_inputs::<S, M, Sys, A>(
            system,
            arith,
            h,
            start,
            state,
            derivatives,
            stage,
            fraction,
            time,
            stage_state,
        )
}

/// A stage stays evaluated when the derivative blocks up to its own are
/// kept.
proof fn lemma_stage_evaluated_frame<
    const S: usize,
    M: ExplicitTableau<S>,
    Sys: ExplicitSystem<u64>,
    A: Fn(ScalarOp) -> u64,
>(
    system: Sys,
    arith: A,
    h: u64,
    start: u64,
    state: Seq<u64>,
    derivatives: Seq<u64>,
    other: Seq<u64>,
    stage: int,
)
    requires
        stage_evaluated::<S, M, Sys, A>(system, arith, h, start, state, derivatives, stage),
        0 <= stage,
        (stage + 1) * state.len() <= derivatives.len(),
        derivatives.len() == other.len(),
        forall|i: int| 0 <= i < (stage + 1) * state.len() ==> #[trigger] other[i] == derivatives[i],
    ensures
        stage_evaluated::<S, M, Sys, A>(system, arith, h, start, state, other, stage),
{
    let n = state.len() as int;
    let (fraction, time, stage_state) = choose|fraction: u64, time: u64, stage_state: Seq<u64>|
        #[trigger] stage_inputs::<S, M, Sys, A>(
            system,
            arith,
            h,
            start,
            state,
            derivatives,
            stage,
            fraction,
            time,
            stage_state,
        );
    assert(stage * n + n == (stage + 1) * n) by (nonlinear_arith);
    assert forall|k: int| 0 <= k < n implies column(stage_row::<S, M>(stage), other, n, k, stage)
        =~= column(stage_row::<S, M>(stage), derivatives, n, k, stage) by {
        assert forall|p: int| 0 <= p < stage implies #[trigger] other[p * n + k] == derivatives[p * n
            + k] by {
            lemma_earlier_stage_entry(p, stage, n, k);
            assert(stage * n <= (stage + 1) * n) by (nonlinear_arith)
                requires
                    0 <= n,
            ;
        }
    }
    assert(other.subrange(stage * n, stage * n + n) =~= derivatives.subrange(stage * n, stage * n + n));
    assert(stage_inputs::<S, M, Sys, A>(
        system,
        arith,
        h,
        start,
        state,
        other,
        stage,
        fraction,
        time,
        stage_state,
    ));
}

/// An entry of an earlier stage of a flattened derivative buffer lies before
/// stage `stage`.
proof fn lemma_earlier_stage_entry(previous: int, stage: int, dimension: int, k: int)
    requires
        0 <= previous < stage,
        0 <= k < dimension,
    ensures
        0 <= previous * dimension + k < stage * dimension,
{
    assert(0 <= previous * dimension + k < stage * dimension) by (nonlinear_arith)
        requires
            0 <= previous < stage,
            0 <= k < dimension,
    ;
}

/// Stage `stage` of a flattened derivative buffer ends within it.
proof fn lemma_stage_in_bounds(stage: int, stages: int, dimension: int)
    requires
        0 <= stage < stages,
        0 <= dimension,
    ensures
        stage * dimension + dimension <= dimension * stages,
{
    assert(stage * dimension + dimension <= dimension * stages) by (nonlinear_arith)
        requires
            0 <= stage < stages,
            0 <= dimension,
    ;
}

/// Evaluate the `STAGES` stage derivatives of one explicit step into the
/// workspace.
///
/// Stage `s` starts from `state`, adds `Mul(h, Ratio(a[s][j])) * k_j` for each
/// earlier stage `j` by fused multiply-adds, and is evaluated at the instant
/// `MulAdd(h, Ratio(c[s]), start)`; every operation goes through `arith`.
/// On success every stage time came out finite, and the workspace keeps the
/// last stage state, accumulated over the derivatives it leaves behind.
/// The first stage whose time is not finite ends the evaluations with
/// [`StepError::Time`], and the first failing evaluation ends them with
/// [`StepError::System`] carrying its error; no later stage is evaluated.
/// When no stage time can overflow and no evaluation that the recurrence can
/// reach fails ([`stage_failure_possible`]), the evaluations succeed.
fn evaluate_stages<
    System: ExplicitSystem<u64>,
    M: ExplicitTableau<STAGES>,
    const STAGES: usize,
    A: Fn(ScalarOp) -> u64,
>(
    system: &System,
    start: Instant,
    step: StepSize,
    state: &[u64],
    workspace: &mut StepWorkspace<u64, STAGES>,
    arith: &A,
) -> (r: Result<(), StepError<System::Error>>)
    requires
        total(*arith),
        old(workspace).well_formed(),
        old(workspace).spec_dimension() == state@.len(),
    ensures
        final(workspace).well_formed(),
        final(workspace).spec_dimension() == old(workspace).spec_dimension(),
        r matches Err(error) ==> match error {
            StepError::Time(time_error) => time_error == TimeError::NonFinite
                && stage_time_failure_reached::<STAGES, M, System, A>(
                *system,
                *arith,
                step@,
                start@,
                state@,
                final(workspace).spec_derivatives(),
            ),
            StepError::System(error) => stage_failure_reached::<STAGES, M, System, A>(
                *system,
                *arith,
                step@,
                start@,
                state@,
                final(workspace).spec_derivatives(),
                error,
            ),
            StepError::DimensionMismatch { .. } => false,
        },
        !(exists|stage: int|
            0 <= stage < STAGES && #[trigger] stage_time_overflows::<STAGES, M, A>(
                *arith,
                step@,
                start@,
                stage,
            )) && !stage_failure_possible::<STAGES, M, System, A>(
            *system,
            *arith,
            step@,
            start@,
            state@,
        ) ==> r is Ok,
        r is Ok ==> forall|stage: int|
            0 <= stage < STAGES ==> #[trigger] stage_time_finite::<STAGES, M, A>(
                *arith,
                step@,
                start@,
                stage,
            ),
        r is Ok ==> forall|k: int|
            0 <= k < state@.len() ==> accumulates(
                *arith,
                step@,
                column(
                    stage_row::<STAGES, M>(STAGES - 1),
                    final(workspace).spec_derivatives(),
                    state@.len() as int,
                    k,
                    STAGES - 1,
                ),
                state@[k],
                #[trigger] final(workspace).spec_stage_state()[k],
            ),
        r is Ok ==> forall|stage: int|
            0 <= stage < STAGES ==> #[trigger] stage_evaluated::<STAGES, M, System, A>(
                *system,
                *arith,
                step@,
                start@,
                state@,
                final(workspace).spec_derivatives(),
                stage,
            ),
{
    let dimension = state.len();
    let step_value = step.as_time();
    let start_value = start.as_time();
    let ghost ws_final = *final(workspace);
    let (stage_state, derivatives) = workspace.buffers_mut();
    let total_length = derivatives.len();
    let mut outcome: Result<(), StepError<System::Error>> = Ok(());
    let mut stage: usize = 0;
    while stage < STAGES && outcome.is_ok()
        invariant
            outcome matches Err(error) ==> match error {
                StepError::Time(time_error) => time_error == TimeError::NonFinite
                    && stage_time_failure_reached::<STAGES, M, System, A>(
                    *system,
                    *arith,
                    step@,
                    start@,
                    state@,
                    derivatives@,
                ),
                StepError::System(error) => stage_failure_reached::<STAGES, M, System, A>(
                    *system,
                    *arith,
                    step@,
                    start@,
                    state@,
                    derivatives@,
                    error,
                ),
                StepError::DimensionMismatch { .. } => false,
            },
            step_value == step@,
            start_value == start@,
            total(*arith),
            dimension == state@.len(),
            dimension > 0,
            stage_state@.len() == dimension,
            STAGES > 0,
            ws_final.spec_dimension() == dimension,
            ws_final.spec_stage_state() == final(stage_state)@,
            ws_final.spec_derivatives() == final(derivatives)@,
            derivatives@.len() == dimension * STAGES,
            total_length == derivatives@.len(),
            0 <= stage <= STAGES,
            outcome is Ok ==> forall|s: int|
                0 <= s < stage ==> #[trigger] stage_time_finite::<STAGES, M, A>(
                    *arith,
                    step@,
                    start@,
                    s,
                ),
            outcome is Ok ==> forall|s: int|
                0 <= s < stage ==> #[trigger] stage_evaluated::<STAGES, M, System, A>(
                    *system,
                    *arith,
                    step@,
                    start@,
                    state@,
                    derivatives@,
                    s,
                ),
            outcome is Ok && stage > 0 ==> forall|j: int|
                0 <= j < dimension ==> accumulates(
                    *arith,
                    step@,
                    column(
                        stage_row::<STAGES, M>(stage - 1),
                        derivatives@,
                        dimension as int,
                        j,
                        stage - 1,
                    ),
                    state@[j],
                    #[trigger] stage_state@[j],
                ),
        decreases STAGES - stage,
    {
        let mut k: usize = 0;
        while k < dimension
            invariant
                dimension == state@.len(),
                stage_state@.len() == dimension,
                ws_final.spec_dimension() == dimension,
                ws_final.spec_stage_state() == final(stage_state)@,
                ws_final.spec_derivatives() == final(derivatives)@,
                0 <= k <= dimension,
                forall|j: int| 0 <= j < k ==> #[trigger] stage_state@[j] == state@[j],
            decreases dimension - k,
        {
            stage_state[k] = state[k];
            k = k + 1;
        }
        proof {
            assert forall|j: int| 0 <= j < dimension implies accumulates(
                *arith,
                step@,
                column(stage_row::<STAGES, M>(stage as int), derivatives@, dimension as int, j, 0),
                state@[j],
                #[trigger] stage_state@[j],
            ) by {
                assert(column(stage_row::<STAGES, M>(stage as int), derivatives@, dimension as int, j, 0).len() == 0);
            }
        }
        let mut previous: usize = 0;
        while previous < stage
            invariant
                total(*arith),
                dimension == state@.len(),
                stage_state@.len() == dimension,
                ws_final.spec_dimension() == dimension,
                ws_final.spec_stage_state() == final(stage_state)@,
                ws_final.spec_derivatives() == final(derivatives)@,
                derivatives@.len() == dimension * STAGES,
                total_length == derivatives@.len(),
                0 <= stage < STAGES,
                0 <= previous <= stage,
                step_value == step@,
                forall|j: int|
                    0 <= j < dimension ==> accumulates(
                        *arith,
                        step@,
                        column(
                            stage_row::<STAGES, M>(stage as int),
                            derivatives@,
                            dimension as int,
                            j,
                            previous as int,
                        ),
                        state@[j],
                        #[trigger] stage_state@[j],
                    ),
            decreases stage - previous,
        {
            let coefficient = M::a(stage, previous);
            let scalar = arith(ScalarOp::Ratio(coefficient.numerator, coefficient.denominator));
            let factor = arith(ScalarOp::Mul(step_value, scalar));
            proof {
                lemma_stage_in_bounds(previous as int, STAGES as int, dimension as int);
            }
            let offset = previous * dimension;
            let mut k: usize = 0;
            while k < dimension
                invariant
                    total(*arith),
                    dimension == state@.len(),
                    stage_state@.len() == dimension,
                    ws_final.spec_dimension() == dimension,
                    ws_final.spec_stage_state() == final(stage_state)@,
                    ws_final.spec_derivatives() == final(derivatives)@,
                    derivatives@.len() == dimension * STAGES,
                    offset + dimension <= derivatives@.len(),
                    offset == previous * dimension,
                    0 <= stage < STAGES,
                    0 <= previous < stage,
                    step_value == step@,
                    coefficient == M::spec_a(stage as int, previous as int),
                    computes(*arith, ScalarOp::Ratio(coefficient.numerator, coefficient.denominator), scalar),
                    computes(*arith, ScalarOp::Mul(step_value, scalar), factor),
                    0 <= k <= dimension,
                    forall|j: int|
                        0 <= j < k ==> accumulates(
                            *arith,
                            step@,
                            column(
                                stage_row::<STAGES, M>(stage as int),
                                derivatives@,
                                dimension as int,
                                j,
                                previous + 1,
                            ),
                            state@[j],
                            #[trigger] stage_state@[j],
                        ),
                    forall|j: int|
                        k <= j < dimension ==> accumulates(
                            *arith,
                            step@,
                            column(
                                stage_row::<STAGES, M>(stage as int),
                                derivatives@,
                                dimension as int,
                                j,
                                previous as int,
                            ),
                            state@[j],
                            #[trigger] stage_state@[j],
                        ),
                decreases dimension - k,
            {
                let slope = derivatives[offset + k];
                let before = stage_state[k];
                let updated = arith(ScalarOp::MulAdd(factor, slope, before));
                proof {
                    let terms = column(
                        stage_row::<STAGES, M>(stage as int),
                        derivatives@,
                        dimension as int,
                        k as int,
                        previous + 1,
                    );
                    assert(terms.drop_last() =~= column(
                        stage_row::<STAGES, M>(stage as int),
                        derivatives@,
                        dimension as int,
                        k as int,
                        previous as int,
                    ));
                    assert(terms.last() == (coefficient, slope));
                    assert(stage_update(*arith, step@, coefficient, slope, before, updated));
                    assert(accumulates(*arith, step@, terms.drop_last(), state@[k as int], before));
                    assert(terms.len() > 0);
                    assert(stage_update(*arith, step@, terms.last().0, terms.last().1, before, updated));
                    assert(accumulates(*arith, step@, terms, state@[k as int], updated));
                }
                stage_state[k] = updated;
                k = k + 1;
            }
            previous = previous + 1;
        }
        let fraction = M::c(stage);
        let scalar_fraction = arith(ScalarOp::Ratio(fraction.numerator, fraction.denominator));
        let stage_value = arith(ScalarOp::MulAdd(step_value, scalar_fraction, start_value));
        match Instant::new(stage_value) {
            Ok(stage_time) => {
                proof {
                    lemma_stage_in_bounds(stage as int, STAGES as int, dimension as int);
                }
                let offset = stage * dimension;
                let ghost before = derivatives@;
                let (_, tail) = derivatives.split_at_mut(offset);
                let (current, _) = tail.split_at_mut(dimension);
                let ghost stage_input = stage_state@;
                let evaluated = system.evaluate(stage_time, stage_state, current);
                let ghost evaluation = evaluated;
                let ghost written = current@;
                proof {
                    assert(System::obeys_outcome() ==> evaluation == system.outcome(stage_time, stage_input));
                }
                match evaluated {
                    Ok(()) => {},
                    Err(error) => {
                        outcome = Err(StepError::System(error));
                    },
                }
                proof {
                    assert(derivatives@.subrange(offset as int, offset + dimension) =~= written);
                    assert(derivatives@.subrange(0, offset as int) =~= before.subrange(0, offset as int));
                    assert(computes(
                        *arith,
                        ScalarOp::Ratio(M::spec_c(stage as int).numerator, M::spec_c(stage as int).denominator),
                        scalar_fraction,
                    ));
                    assert(computes(
                        *arith,
                        ScalarOp::MulAdd(step@, scalar_fraction, start@),
                        stage_value,
                    ));
                    assert(stage_time_finite::<STAGES, M, A>(*arith, step@, start@, stage as int));
                    assert forall|j: int| 0 <= j < dimension implies column(
                        stage_row::<STAGES, M>(stage as int),
                        derivatives@,
                        dimension as int,
                        j,
                        stage as int,
                    ) =~= column(
                        stage_row::<STAGES, M>(stage as int),
                        before,
                        dimension as int,
                        j,
                        stage as int,
                    ) by {
                        assert forall|p: int| 0 <= p < stage implies #[trigger] derivatives@[p * dimension + j]
                            == before[p * dimension + j] by {
                            lemma_earlier_stage_entry(p, stage as int, dimension as int, j);
                            assert(derivatives@.subrange(0, offset as int)[p * dimension + j]
                                == before.subrange(0, offset as int)[p * dimension + j]);
                        }
                    }
                    assert(stage_time == Instant::from_encoding(stage_value));
                    assert forall|s: int| 0 <= s < stage implies #[trigger] stage_evaluated::<
                        STAGES,
                        M,
                        System,
                        A,
                    >(*system, *arith, step@, start@, state@, derivatives@, s) by {
                        assert((s + 1) * dimension <= stage * dimension) by (nonlinear_arith)
                            requires
                                s < stage,
                        ;
                        assert forall|i: int| 0 <= i < (s + 1) * dimension implies #[trigger] derivatives@[i]
                            == before[i] by {
                            assert(derivatives@.subrange(0, offset as int)[i] == before.subrange(
                                0,
                                offset as int,
                            )[i]);
                        }
                        lemma_stage_evaluated_frame::<STAGES, M, System, A>(
                            *system,
                            *arith,
                            step@,
                            start@,
                            state@,
                            before,
                            derivatives@,
                            s,
                        );
                    }
                    if let Err(failure) = evaluation {
                        assert(stage_failure_with::<STAGES, M, System, A>(
                            *system,
                            *arith,
                            step@,
                            start@,
                            state@,
                            derivatives@,
                            stage as int,
                            scalar_fraction,
                            stage_value,
                            stage_input,
                            failure,
                        ));
                    }
                    if evaluation is Ok {
                        assert(stage_inputs::<STAGES, M, System, A>(
                            *system,
                            *arith,
                            step@,
                            start@,
                            state@,
                            derivatives@,
                            stage as int,
                            scalar_fraction,
                            stage_value,
                            stage_input,
                        ));
                        assert forall|s: int| 0 <= s < stage + 1 implies #[trigger] stage_evaluated::<
                            STAGES,
                            M,
                            System,
                            A,
                        >(*system, *arith, step@, start@, state@, derivatives@, s) by {
                        }
                    }
                }
            },
            Err(error) => {
                proof {
                    assert(computes(
                        *arith,
                        ScalarOp::Ratio(M::spec_c(stage as int).numerator, M::spec_c(stage as int).denominator),
                        scalar_fraction,
                    ));
                    assert(computes(
                        *arith,
                        ScalarOp::MulAdd(step@, scalar_fraction, start@),
                        stage_value,
                    ));
                    assert(!is_finite(stage_value));
                    assert(stage_time_overflows::<STAGES, M, A>(*arith, step@, start@, stage as int));
                    assert(forall|s: int|
                        0 <= s < stage ==> #[trigger] stage_evaluated::<STAGES, M, System, A>(
                            *system,
                            *arith,
                            step@,
                            start@,
                            state@,
                            derivatives@,
                            s,
                        ));
                }
                outcome = Err(StepError::Time(error));
            },
        }
        stage = stage + 1;
    }
    outcome
}

/// Write `state + h * sum(b[s] * derivative[s])` into `output`, one fused
/// multiply-add per stage and component, through `arith`.
fn combine_output<M: ExplicitTableau<STAGES>, const STAGES: usize, A: Fn(ScalarOp) -> u64>(
    output: &mut [u64],
    state: &[u64],
    step_value: u64,
    derivatives: &[u64],
    arith: &A,
)
    requires
        total(*arith),
        old(output)@.len() == state@.len(),
        derivatives@.len() == state@.len() * STAGES,
    ensures
        final(output)@.len() == state@.len(),
        forall|k: int|
            0 <= k < state@.len() ==> accumulates(
                *arith,
                step_value,
                column(primary_weights::<STAGES, M>(), derivatives@, state@.len() as int, k, STAGES as int),
                state@[k],
                #[trigger] final(output)@[k],
            ),
{
    let dimension = state.len();
    let total_length = derivatives.len();
    let ghost weights = primary_weights::<STAGES, M>();
    let mut k: usize = 0;
    while k < dimension
        invariant
            dimension == state@.len(),
            output@.len() == dimension,
            0 <= k <= dimension,
            forall|j: int| 0 <= j < k ==> #[trigger] output@[j] == state@[j],
        decreases dimension - k,
    {
        output[k] = state[k];
        k = k + 1;
    }
    let mut stage: usize = 0;
    while stage < STAGES
        invariant
            total(*arith),
            dimension == state@.len(),
            output@.len() == dimension,
            derivatives@.len() == dimension * STAGES,
            total_length == derivatives@.len(),
            weights == primary_weights::<STAGES, M>(),
            0 <= stage <= STAGES,
            forall|j: int|
                0 <= j < dimension ==> accumulates(
                    *arith,
                    step_value,
                    column(weights, derivatives@, dimension as int, j, stage as int),
                    state@[j],
                    #[trigger] output@[j],
                ),
        decreases STAGES - stage,
    {
        let b = M::b(stage);
        let weight = arith(ScalarOp::Ratio(b.numerator, b.denominator));
        let factor = arith(ScalarOp::Mul(step_value, weight));
        proof {
            lemma_stage_in_bounds(stage as int, STAGES as int, dimension as int);
        }
        let offset = stage * dimension;
        let mut k: usize = 0;
        while k < dimension
            invariant
                total(*arith),
                dimension == state@.len(),
                output@.len() == dimension,
                derivatives@.len() == dimension * STAGES,
                total_length == derivatives@.len(),
                weights == primary_weights::<STAGES, M>(),
                0 <= stage < STAGES,
                offset == stage * dimension,
                offset + dimension <= derivatives@.len(),
                weights[stage as int] == b,
                computes(*arith, ScalarOp::Ratio(b.numerator, b.denominator), weight),
                computes(*arith, ScalarOp::Mul(step_value, weight), factor),
                0 <= k <= dimension,
                forall|j: int|
                    0 <= j < k ==> accumulates(
                        *arith,
                        step_value,
                        column(weights, derivatives@, dimension as int, j, stage + 1),
                        state@[j],
                        #[trigger] output@[j],
                    ),
                forall|j: int|
                    k <= j < dimension ==> accumulates(
                        *arith,
                        step_value,
                        column(weights, derivatives@, dimension as int, j, stage as int),
                        state@[j],
                        #[trigger] output@[j],
                    ),
            decreases dimension - k,
        {
            let slope = derivatives[offset + k];
            let previous = output[k];
            let result = arith(ScalarOp::MulAdd(factor, slope, previous));
            proof {
                let terms = column(weights, derivatives@, dimension as int, k as int, stage + 1);
                assert(terms.drop_last() =~= column(
                    weights,
                    derivatives@,
                    dimension as int,
                    k as int,
                    stage as int,
                ));
                assert(terms.last() == (b, slope));
                assert(computes(*arith, ScalarOp::Mul(step_value, weight), factor));
                assert(stage_update(*arith, step_value, b, slope, previous, result));
                assert(accumulates(*arith, step_value, terms.drop_last(), state@[k as int], previous));
                assert(terms.len() > 0);
                assert(stage_update(*arith, step_value, terms.last().0, terms.last().1, previous, result));
                assert(accumulates(*arith, step_value, terms, state@[k as int], result));
            }
            output[k] = result;
            k = k + 1;
        }
        stage = stage + 1;
    }
}

/// Caller-owned output slices for one embedded explicit step.
pub struct EmbeddedOutputs<'output, T> {
    primary: &'output mut [T],
    error_estimate: &'output mut [T],
}

impl<'output, T> EmbeddedOutputs<'output, T> {
    /// The primary output slice.
    pub closed spec fn spec_primary(self) -> Seq<T> {
        self.primary@
    }

    /// The error-estimate slice.
    pub closed spec fn spec_error_estimate(self) -> Seq<T> {
        self.error_estimate@
    }

    /// Pair a primary output slice with its local-error estimate slice.
    pub fn new(primary: &'output mut [T], error_estimate: &'output mut [T]) -> (r: Self)
        ensures
            r.spec_primary() == old(primary)@,
            r.spec_error_estimate() == old(error_estimate)@,

    {
        EmbeddedOutputs { primary, error_estimate }
    }

    /// Borrow the primary and error-estimate slices.
    pub(crate) fn parts_mut(&mut self) -> (r: (&mut [T], &mut [T]))
        ensures
            r.0@ == old(self).spec_primary(),
            r.1@ == old(self).spec_error_estimate(),
            final(self).spec_primary() == final(r.0)@,
            final(self).spec_error_estimate() == final(r.1)@,
    {
        (&mut *self.primary, &mut *self.error_estimate)
    }

    /// Split the pair back into the primary and error-estimate slices.
    pub fn into_parts(self) -> (r: (&'output mut [T], &'output mut [T]))
        ensures
            r.0@ == self.spec_primary(),
            r.1@ == self.spec_error_estimate(),

    {
        (self.primary, self.error_estimate)
    }
}

/// Write the primary result into `output` and, into `error_estimate`, the
/// primary result minus the embedded one; both share the stage derivatives.
fn combine_embedded_output<
    M: EmbeddedExplicitTableau<STAGES>,
    const STAGES: usize,
    A: Fn(ScalarOp) -> u64,
>(
    output: &mut [u64],
    error_estimate: &mut [u64],
    state: &[u64],
    step_value: u64,
    derivatives: &[u64],
    arith: &A,
)
    requires
        total(*arith),
        old(output)@.len() == state@.len(),
        old(error_estimate)@.len() == state@.len(),
        derivatives@.len() == state@.len() * STAGES,
    ensures
        final(output)@.len() == state@.len(),
        final(error_estimate)@.len() == state@.len(),
        forall|k: int|
            0 <= k < state@.len() ==> accumulates(
                *arith,
                step_value,
                column(primary_weights::<STAGES, M>(), derivatives@, state@.len() as int, k, STAGES as int),
                state@[k],
                #[trigger] final(output)@[k],
            ),
        forall|k: int|
            0 <= k < state@.len() ==> estimates(
                *arith,
                step_value,
                column(embedded_weights::<STAGES, M>(), derivatives@, state@.len() as int, k, STAGES as int),
                state@[k],
                final(output)@[k],
                #[trigger] final(error_estimate)@[k],
            ),
{
    let dimension = state.len();
    let total_length = derivatives.len();
    let ghost primary = primary_weights::<STAGES, M>();
    let ghost embedded = embedded_weights::<STAGES, M>();
    let mut k: usize = 0;
    while k < dimension
        invariant
            dimension == state@.len(),
            output@.len() == dimension,
            error_estimate@.len() == dimension,
            0 <= k <= dimension,
            forall|j: int| 0 <= j < k ==> #[trigger] output@[j] == state@[j],
            forall|j: int| 0 <= j < k ==> #[trigger] error_estimate@[j] == state@[j],
        decreases dimension - k,
    {
        output[k] = state[k];
        error_estimate[k] = state[k];
        k = k + 1;
    }
    let mut stage: usize = 0;
    while stage < STAGES
        invariant
            total(*arith),
            dimension == state@.len(),
            output@.len() == dimension,
            error_estimate@.len() == dimension,
            derivatives@.len() == dimension * STAGES,
            total_length == derivatives@.len(),
            primary == primary_weights::<STAGES, M>(),
            embedded == embedded_weights::<STAGES, M>(),
            0 <= stage <= STAGES,
            forall|j: int|
                0 <= j < dimension ==> accumulates(
                    *arith,
                    step_value,
                    column(primary, derivatives@, dimension as int, j, stage as int),
                    state@[j],
                    #[trigger] output@[j],
                ),
            forall|j: int|
                0 <= j < dimension ==> accumulates(
                    *arith,
                    step_value,
                    column(embedded, derivatives@, dimension as int, j, stage as int),
                    state@[j],
                    #[trigger] error_estimate@[j],
                ),
        decreases STAGES - stage,
    {
        let b = M::b(stage);
        let b_embedded = M::b_embedded(stage);
        let primary_weight = arith(ScalarOp::Ratio(b.numerator, b.denominator));
        let primary_factor = arith(ScalarOp::Mul(step_value, primary_weight));
        let embedded_weight = arith(ScalarOp::Ratio(b_embedded.numerator, b_embedded.denominator));
        let embedded_factor = arith(ScalarOp::Mul(step_value, embedded_weight));
        proof {
            lemma_stage_in_bounds(stage as int, STAGES as int, dimension as int);
        }
        let offset = stage * dimension;
        let mut k: usize = 0;
        while k < dimension
            invariant
                total(*arith),
                dimension == state@.len(),
                output@.len() == dimension,
                error_estimate@.len() == dimension,
                derivatives@.len() == dimension * STAGES,
                total_length == derivatives@.len(),
                primary == primary_weights::<STAGES, M>(),
                embedded == embedded_weights::<STAGES, M>(),
                0 <= stage < STAGES,
                offset == stage * dimension,
                offset + dimension <= derivatives@.len(),
                primary[stage as int] == b,
                embedded[stage as int] == b_embedded,
                computes(*arith, ScalarOp::Ratio(b.numerator, b.denominator), primary_weight),
                computes(*arith, ScalarOp::Mul(step_value, primary_weight), primary_factor),
                computes(
                    *arith,
                    ScalarOp::Ratio(b_embedded.numerator, b_embedded.denominator),
                    embedded_weight,
                ),
                computes(*arith, ScalarOp::Mul(step_value, embedded_weight), embedded_factor),
                0 <= k <= dimension,
                forall|j: int|
                    0 <= j < k ==> accumulates(
                        *arith,
                        step_value,
                        column(primary, derivatives@, dimension as int, j, stage + 1),
                        state@[j],
                        #[trigger] output@[j],
                    ),
                forall|j: int|
                    k <= j < dimension ==> accumulates(
                        *arith,
                        step_value,
                        column(primary, derivatives@, dimension as int, j, stage as int),
                        state@[j],
                        #[trigger] output@[j],
                    ),
                forall|j: int|
                    0 <= j < k ==> accumulates(
                        *arith,
                        step_value,
                        column(embedded, derivatives@, dimension as int, j, stage + 1),
                        state@[j],
                        #[trigger] error_estimate@[j],
                    ),
                forall|j: int|
                    k <= j < dimension ==> accumulates(
                        *arith,
                        step_value,
                        column(embedded, derivatives@, dimension as int, j, stage as int),
                        state@[j],
                        #[trigger] error_estimate@[j],
                    ),
            decreases dimension - k,
        {
            let slope = derivatives[offset + k];
            let previous_primary = output[k];
            let previous_embedded = error_estimate[k];
            let next_primary = arith(ScalarOp::MulAdd(primary_factor, slope, previous_primary));
            let next_embedded = arith(ScalarOp::MulAdd(embedded_factor, slope, previous_embedded));
            proof {
                let terms = column(primary, derivatives@, dimension as int, k as int, stage + 1);
                assert(terms.drop_last() =~= column(
                    primary,
                    derivatives@,
                    dimension as int,
                    k as int,
                    stage as int,
                ));
                assert(terms.last() == (b, slope));
                assert(stage_update(*arith, step_value, b, slope, previous_primary, next_primary));
                assert(accumulates(*arith, step_value, terms.drop_last(), state@[k as int], previous_primary));
                assert(terms.len() > 0);
                assert(stage_update(*arith, step_value, terms.last().0, terms.last().1, previous_primary, next_primary));
                assert(accumulates(*arith, step_value, terms, state@[k as int], next_primary));
                let terms = column(embedded, derivatives@, dimension as int, k as int, stage + 1);
                assert(terms.drop_last() =~= column(
                    embedded,
                    derivatives@,
                    dimension as int,
                    k as int,
                    stage as int,
                ));
                assert(terms.last() == (b_embedded, slope));
                assert(stage_update(
                    *arith,
                    step_value,
                    b_embedded,
                    slope,
                    previous_embedded,
                    next_embedded,
                ));
                assert(accumulates(*arith, step_value, terms.drop_last(), state@[k as int], previous_embedded));
                assert(terms.len() > 0);
                assert(stage_update(*arith, step_value, terms.last().0, terms.last().1, previous_embedded, next_embedded));
                assert(accumulates(*arith, step_value, terms, state@[k as int], next_embedded));
            }
            output[k] = next_primary;
            error_estimate[k] = next_embedded;
            k = k + 1;
        }
        stage = stage + 1;
    }
    let mut k: usize = 0;
    while k < dimension
        invariant
            total(*arith),
            dimension == state@.len(),
            output@.len() == dimension,
            error_estimate@.len() == dimension,
            primary == primary_weights::<STAGES, M>(),
            embedded == embedded_weights::<STAGES, M>(),
            0 <= k <= dimension,
            forall|j: int|
                0 <= j < dimension ==> accumulates(
                    *arith,
                    step_value,
                    column(primary, derivatives@, dimension as int, j, STAGES as int),
                    state@[j],
                    #[trigger] output@[j],
                ),
            forall|j: int|
                k <= j < dimension ==> accumulates(
                    *arith,
                    step_value,
                    column(embedded, derivatives@, dimension as int, j, STAGES as int),
                    state@[j],
                    #[trigger] error_estimate@[j],
                ),
            forall|j: int|
                0 <= j < k ==> estimates(
                    *arith,
                    step_value,
                    column(embedded, derivatives@, dimension as int, j, STAGES as int),
                    state@[j],
                    output@[j],
                    #[trigger] error_estimate@[j],
                ),
        decreases dimension - k,
    {
        let embedded_result = error_estimate[k];
        let estimate = arith(ScalarOp::Sub(output[k], embedded_result));
        proof {
            assert(computes(*arith, ScalarOp::Sub(output@[k as int], embedded_result), estimate));
        }
        error_estimate[k] = estimate;
        k = k + 1;
    }
}

/// Advance `state` by one explicit Runge--Kutta step into `output`.
///
/// `method` is a zero-sized marker used only for type inference. All stage
/// storage comes from `workspace`, and every rounding operation goes through
/// `arith`. On success, component `k` of `output` is `state[k]` followed, for
/// each stage `s` in order, by `MulAdd(Mul(h, Ratio(b[s])), k_s[k], acc)`,
/// where `k_s` is stage `s`'s derivative left in the workspace; the report
/// covers `start` to `start + step` (rounded by `arith`) with `STAGES`
/// evaluations. Each stage was evaluated at its instant
/// `MulAdd(h, Ratio(c[s]), start)` and its state, `state` accumulated over
/// row `s` of `a` and the earlier derivatives, and for a system that states
/// its rate `k_s` is that rate there ([`stage_evaluated`]).
///
/// Returns [`StepError::DimensionMismatch`] before evaluation when the output
/// or the workspace disagrees with the state, [`StepError::Time`] with
/// [`TimeError::NonFinite`] when a stage instant is not finite (no later
/// stage is evaluated) or the end instant is not finite, or
/// [`StepError::System`] carrying the error of the first stage evaluation
/// that the system rejects, after which no stage is evaluated and `output`
/// is left as it was. The step succeeds when the dimensions agree, no stage
/// or end instant can overflow and no stage evaluation that the recurrence
/// can reach fails.
pub fn step_into<
    System: ExplicitSystem<u64>,
    Method: ExplicitTableau<STAGES>,
    const STAGES: usize,
    A: Fn(ScalarOp) -> u64,
>(
    system: &System,
    _method: Method,
    start: Instant,
    step: StepSize,
    state: &[u64],
    output: &mut [u64],
    workspace: &mut StepWorkspace<u64, STAGES>,
    arith: &A,
) -> (r: Result<StepReport, StepError<System::Error>>)
    requires
        total(*arith),
        old(workspace).well_formed(),
    ensures
        final(workspace).well_formed(),
        final(workspace).spec_dimension() == old(workspace).spec_dimension(),
        final(output)@.len() == old(output)@.len(),
        old(output)@.len() != state@.len() ==> r == Err::<StepReport, StepError<System::Error>>(
            StepError::DimensionMismatch {
                role: SliceRole::Output,
                expected: state@.len() as usize,
                actual: old(output)@.len() as usize,
            },
        ) && final(output)@ == old(output)@,
        old(output)@.len() == state@.len() && old(workspace).spec_dimension() != state@.len() ==> r
            == Err::<StepReport, StepError<System::Error>>(
            StepError::DimensionMismatch {
                role: SliceRole::Workspace,
                expected: state@.len() as usize,
                actual: old(workspace).spec_dimension() as usize,
            },
        ) && final(output)@ == old(output)@,
        old(output)@.len() == state@.len() && old(workspace).spec_dimension() == state@.len() ==> match r {
            Ok(report) => {
                &&& report.spec_start() == start
                &&& report.spec_step() == step
                &&& report.spec_evaluations() == STAGES
                &&& exists|end: u64|
                    computes(*arith, ScalarOp::Add(start@, step@), end) && instant_outcome(
                        Ok(report.spec_end()),
                        end,
                    )
                &&& forall|k: int|
                    0 <= k < state@.len() ==> accumulates(
                        *arith,
                        step@,
                        column(
                            primary_weights::<STAGES, Method>(),
                            final(workspace).spec_derivatives(),
                            state@.len() as int,
                            k,
                            STAGES as int,
                        ),
                        state@[k],
                        #[trigger] final(output)@[k],
                    )
            },
            Err(StepError::Time(time_error)) => time_error == TimeError::NonFinite && (
            stage_time_failure_reached::<STAGES, Method, System, A>(
                *system,
                *arith,
                step@,
                start@,
                state@,
                final(workspace).spec_derivatives(),
            ) || (forall|stage: int|
                0 <= stage < STAGES ==> #[trigger] stage_evaluated::<STAGES, Method, System, A>(
                    *system,
                    *arith,
                    step@,
                    start@,
                    state@,
                    final(workspace).spec_derivatives(),
                    stage,
                )) && exists|end: u64|
                computes(*arith, ScalarOp::Add(start@, step@), end) && !is_finite(end)),
            Err(StepError::System(error)) => final(output)@ == old(output)@
                && stage_failure_reached::<STAGES, Method, System, A>(
                *system,
                *arith,
                step@,
                start@,
                state@,
                final(workspace).spec_derivatives(),
                error,
            ),
            Err(StepError::DimensionMismatch { .. }) => false,
        },
        r is Ok ==> forall|stage: int|
            0 <= stage < STAGES ==> #[trigger] stage_evaluated::<STAGES, Method, System, A>(
                *system,
                *arith,
                step@,
                start@,
                state@,
                final(workspace).spec_derivatives(),
                stage,
            ),
        old(output)@.len() == state@.len() && old(workspace).spec_dimension() == state@.len()
            && !step_time_overflows::<STAGES, Method, A>(*arith, step@, start@)
            && !stage_failure_possible::<STAGES, Method, System, A>(
            *system,
            *arith,
            step@,
            start@,
            state@,
        ) ==> r is Ok,
{
    let dimension = state.len();
    match ensure_dimension(SliceRole::Output, dimension, output.len()) {
        Ok(()) => {},
        Err(error) => return Err(error),
    }
    match ensure_dimension(SliceRole::Workspace, dimension, workspace.dimension()) {
        Ok(()) => {},
        Err(error) => return Err(error),
    }
    match evaluate_stages::<System, Method, STAGES, A>(system, start, step, state, workspace, arith) {
        Ok(()) => {},
        Err(error) => return Err(error),
    }
    let ghost evaluated = workspace.spec_derivatives();
    assert(forall|stage: int|
        0 <= stage < STAGES ==> #[trigger] stage_evaluated::<STAGES, Method, System, A>(
            *system,
            *arith,
            step@,
            start@,
            state@,
            evaluated,
            stage,
        ));
    combine_output::<Method, STAGES, A>(output, state, step.as_time(), workspace.derivatives(), arith);
    let result = match start.advance(step, arith) {
        Ok(end) => Ok(StepReport::new(start, end, step, STAGES)),
        Err(error) => Err(StepError::Time(error)),
    };
    assert(final(workspace).spec_derivatives() == evaluated);
    result
}

/// Advance `state` with an embedded explicit Runge--Kutta pair.
///
/// The primary higher-order result is written to the primary slice of
/// `outputs`, as in [`step_into`]. The error-estimate slice receives
/// `Sub(primary, embedded)` componentwise, where the embedded result folds
/// the same stage derivatives with the embedded weights; its magnitude is the
/// local error observation for an adaptive controller.
///
/// Returns [`StepError::DimensionMismatch`] before evaluation when the
/// output, the error estimate or the workspace disagrees with the state (in
/// that order), [`StepError::Time`] with [`TimeError::NonFinite`] when a
/// stage instant (no later stage is evaluated) or the end instant is not
/// finite, or [`StepError::System`] carrying the error of the first stage
/// evaluation that the system rejects, after which no stage is evaluated
/// and both slices are left as they were. As for [`step_into`], the step
/// succeeds when the dimensions agree, no instant can overflow and no
/// reachable stage evaluation fails.
pub fn step_embedded_into<
    System: ExplicitSystem<u64>,
    Method: EmbeddedExplicitTableau<STAGES>,
    const STAGES: usize,
    A: Fn(ScalarOp) -> u64,
>(
    system: &System,
    _method: Method,
    start: Instant,
    step: StepSize,
    state: &[u64],
    outputs: &mut EmbeddedOutputs<'_, u64>,
    workspace: &mut StepWorkspace<u64, STAGES>,
    arith: &A,
) -> (r: Result<StepReport, StepError<System::Error>>)
    requires
        total(*arith),
        old(workspace).well_formed(),
    ensures
        final(workspace).well_formed(),
        final(workspace).spec_dimension() == old(workspace).spec_dimension(),
        final(outputs).spec_primary().len() == old(outputs).spec_primary().len(),
        final(outputs).spec_error_estimate().len() == old(outputs).spec_error_estimate().len(),
        old(outputs).spec_primary().len() != state@.len() ==> r == Err::<
            StepReport,
            StepError<System::Error>,
        >(
            StepError::DimensionMismatch {
                role: SliceRole::Output,
                expected: state@.len() as usize,
                actual: old(outputs).spec_primary().len() as usize,
            },
        ),
        old(outputs).spec_primary().len() == state@.len() && old(outputs).spec_error_estimate().len()
            != state@.len() ==> r == Err::<StepReport, StepError<System::Error>>(
            StepError::DimensionMismatch {
                role: SliceRole::ErrorEstimate,
                expected: state@.len() as usize,
                actual: old(outputs).spec_error_estimate().len() as usize,
            },
        ),
        old(outputs).spec_primary().len() == state@.len() && old(outputs).spec_error_estimate().len()
            == state@.len() && old(workspace).spec_dimension() != state@.len() ==> r == Err::<
            StepReport,
            StepError<System::Error>,
        >(
            StepError::DimensionMismatch {
                role: SliceRole::Workspace,
                expected: state@.len() as usize,
                actual: old(workspace).spec_dimension() as usize,
            },
        ),
        r matches Err(StepError::DimensionMismatch { .. }) ==> final(outputs).spec_primary()
            == old(outputs).spec_primary() && final(outputs).spec_error_estimate() == old(
            outputs,
        ).spec_error_estimate(),
        old(outputs).spec_primary().len() == state@.len() && old(outputs).spec_error_estimate().len()
            == state@.len() && old(workspace).spec_dimension() == state@.len() ==> match r {
            Ok(report) => {
                &&& report.spec_start() == start
                &&& report.spec_step() == step
                &&& report.spec_evaluations() == STAGES
                &&& exists|end: u64|
                    computes(*arith, ScalarOp::Add(start@, step@), end) && instant_outcome(
                        Ok(report.spec_end()),
                        end,
                    )
                &&& forall|k: int|
                    0 <= k < state@.len() ==> accumulates(
                        *arith,
                        step@,
                        column(
                            primary_weights::<STAGES, Method>(),
                            final(workspace).spec_derivatives(),
                            state@.len() as int,
                            k,
                            STAGES as int,
                        ),
                        state@[k],
                        #[trigger] final(outputs).spec_primary()[k],
                    )
                &&& forall|k: int|
                    0 <= k < state@.len() ==> estimates(
                        *arith,
                        step@,
                        column(
                            embedded_weights::<STAGES, Method>(),
                            final(workspace).spec_derivatives(),
                            state@.len() as int,
                            k,
                            STAGES as int,
                        ),
                        state@[k],
                        final(outputs).spec_primary()[k],
                        #[trigger] final(outputs).spec_error_estimate()[k],
                    )
            },
            Err(StepError::Time(time_error)) => time_error == TimeError::NonFinite && (
            stage_time_failure_reached::<STAGES, Method, System, A>(
                *system,
                *arith,
                step@,
                start@,
                state@,
                final(workspace).spec_derivatives(),
            ) || (forall|stage: int|
                0 <= stage < STAGES ==> #[trigger] stage_evaluated::<STAGES, Method, System, A>(
                    *system,
                    *arith,
                    step@,
                    start@,
                    state@,
                    final(workspace).spec_derivatives(),
                    stage,
                )) && exists|end: u64|
                computes(*arith, ScalarOp::Add(start@, step@), end) && !is_finite(end)),
            Err(StepError::System(error)) => final(outputs).spec_primary() == old(outputs).spec_primary()
                && final(outputs).spec_error_estimate() == old(outputs).spec_error_estimate()
                && stage_failure_reached::<STAGES, Method, System, A>(
                *system,
                *arith,
                step@,
                start@,
                state@,
                final(workspace).spec_derivatives(),
                error,
            ),
            Err(StepError::DimensionMismatch { .. }) => false,
        },
        r is Ok ==> forall|stage: int|
            0 <= stage < STAGES ==> #[trigger] stage_evaluated::<STAGES, Method, System, A>(
                *system,
                *arith,
                step@,
                start@,
                state@,
                final(workspace).spec_derivatives(),
                stage,
            ),
        old(outputs).spec_primary().len() == state@.len() && old(outputs).spec_error_estimate().len()
            == state@.len() && old(workspace).spec_dimension() == state@.len()
            && !step_time_overflows::<STAGES, Method, A>(*arith, step@, start@)
            && !stage_failure_possible::<STAGES, Method, System, A>(
            *system,
            *arith,
            step@,
            start@,
            state@,
        ) ==> r is Ok,
{
    let dimension = state.len();
    let (output, error_estimate) = outputs.parts_mut();
    match ensure_dimension(SliceRole::Output, dimension, output.len()) {
        Ok(()) => {},
        Err(error) => return Err(error),
    }
    match ensure_dimension(SliceRole::ErrorEstimate, dimension, error_estimate.len()) {
        Ok(()) => {},
        Err(error) => return Err(error),
    }
    match ensure_dimension(SliceRole::Workspace, dimension, workspace.dimension()) {
        Ok(()) => {},
        Err(error) => return Err(error),
    }
    match evaluate_stages::<System, Method, STAGES, A>(system, start, step, state, workspace, arith) {
        Ok(()) => {},
        Err(error) => return Err(error),
    }
    let derivatives = workspace.derivatives();
    let ghost derivatives_read = derivatives@;
    assert(forall|stage: int|
        0 <= stage < STAGES ==> #[trigger] stage_evaluated::<STAGES, Method, System, A>(
            *system,
            *arith,
            step@,
            start@,
            state@,
            derivatives_read,
            stage,
        ));
    combine_embedded_output::<Method, STAGES, A>(
        output,
        error_estimate,
        state,
        step.as_time(),
        derivatives,
        arith,
    );
    let ghost written_primary = output@;
    let ghost written_estimate = error_estimate@;
    let result = match start.advance(step, arith) {
        Ok(end) => Ok(StepReport::new(start, end, step, STAGES)),
        Err(error) => Err(StepError::Time(error)),
    };
    assert(final(outputs).spec_primary() == written_primary);
    assert(final(outputs).spec_error_estimate() == written_estimate);
    assert(final(workspace).spec_derivatives() == derivatives_read);
    assert(forall|stage: int|
        0 <= stage < STAGES ==> #[trigger] stage_evaluated::<STAGES, Method, System, A>(
            *system,
            *arith,
            step@,
            start@,
            state@,
            final(workspace).spec_derivatives(),
            stage,
        ));
    assert forall|k: int| 0 <= k < state@.len() implies accumulates(
        *arith,
        step@,
        column(primary_weights::<STAGES, Method>(), derivatives_read, state@.len() as int, k, STAGES as int),
        state@[k],
        #[trigger] final(outputs).spec_primary()[k],
    ) by {
        assert(written_primary[k] == final(outputs).spec_primary()[k]);
    }
    assert forall|k: int| 0 <= k < state@.len() implies estimates(
        *arith,
        step@,
        column(embedded_weights::<STAGES, Method>(), derivatives_read, state@.len() as int, k, STAGES as int),
        state@[k],
        final(outputs).spec_primary()[k],
        #[trigger] final(outputs).spec_error_estimate()[k],
    ) by {
        assert(written_primary[k] == final(outputs).spec_primary()[k]);
        assert(written_estimate[k] == final(outputs).spec_error_estimate()[k]);
    }
    result
}

/// `Ok(())` when `actual == expected`, otherwise the mismatch for `role`.
pub fn ensure_dimension<E>(role: SliceRole, expected: usize, actual: usize) -> (r: Result<
    (),
    StepError<E>,
>)
    ensures
        expected == actual ==> r is Ok,
        expected != actual ==> r == Err::<(), StepError<E>>(
            StepError::DimensionMismatch { role, expected, actual },
        ),
{
    if expected == actual {
        Ok(())
    } else {
        Err(StepError::DimensionMismatch { role, expected, actual })
    }
}

} // verus!
