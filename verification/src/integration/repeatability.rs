//! Explicit steps are repeatable: with a deterministic scalar and a system
//! that states its rate, a step's stage derivatives and output are functions
//! of its inputs alone.
use vstd::prelude::*;

use crate::binary64::{computes, deterministic, ScalarOp};
use crate::system::ExplicitSystem;
use super::stepper::{
    accumulates, column, embedded_weights, estimates, lemma_accumulates_unique, primary_weights,
    stage_evaluated, stage_inputs, stage_row,
};
use super::tableau::{EmbeddedExplicitTableau, ExplicitTableau};

verus! {

/// The first `stages` derivative blocks of two evaluations of the same step
/// agree.
proof fn lemma_blocks_agree<
    const S: usize,
    M: ExplicitTableau<S>,
    Sys: ExplicitSystem<u64>,
    A: Fn(ScalarOp) -> u64,
>(
    system: Sys,
    arith: A,
    h: u64,
    start: u64,
    state: Seq<u64>,
    first: Seq<u64>,
    second: Seq<u64>,
    stages: int,
)
    requires
        deterministic(arith),
        Sys::obeys_rate(),
        0 <= stages <= S,
        first.len() == state.len() * S,
        second.len() == state.len() * S,
        forall|stage: int|
            0 <= stage < S ==> #[trigger] stage_evaluated::<S, M, Sys, A>(
                system,
                arith,
                h,
                start,
                state,
                first,
                stage,
            ),
        forall|stage: int|
            0 <= stage < S ==> #[trigger] stage_evaluated::<S, M, Sys, A>(
                system,
                arith,
                h,
                start,
                state,
                second,
                stage,
            ),
    ensures
        forall|i: int| 0 <= i < stages * state.len() ==> #[trigger] first[i] == second[i],
    decreases stages,
{
    let n = state.len() as int;
    if stages > 0 {
        let stage = stages - 1;
        lemma_blocks_agree::<S, M, Sys, A>(system, arith, h, start, state, first, second, stage);
        assert(stage_evaluated::<S, M, Sys, A>(system, arith, h, start, state, first, stage));
        assert(stage_evaluated::<S, M, Sys, A>(system, arith, h, start, state, second, stage));
        let (f1, t1, s1) = choose|fraction: u64, time: u64, stage_state: Seq<u64>|
            #[trigger] stage_inputs::<S, M, Sys, A>(
                system,
                arith,
                h,
                start,
                state,
                first,
                stage,
                fraction,
                time,
                stage_state,
            );
        let (f2, t2, s2) = choose|fraction: u64, time: u64, stage_state: Seq<u64>|
            #[trigger] stage_inputs::<S, M, Sys, A>(
                system,
                arith,
                h,
                start,
                state,
                second,
                stage,
                fraction,
                time,
                stage_state,
            );
        let ratio = ScalarOp::Ratio(M::spec_c(stage).numerator, M::spec_c(stage).denominator);
        assert(computes(arith, ratio, f1) && computes(arith, ratio, f2));
        assert(f1 == f2);
        assert(computes(arith, ScalarOp::MulAdd(h, f1, start), t1));
        assert(computes(arith, ScalarOp::MulAdd(h, f1, start), t2));
        assert(t1 == t2);
        assert forall|k: int| 0 <= k < n implies #[trigger] s1[k] == s2[k] by {
            let terms = column(stage_row::<S, M>(stage), first, n, k, stage);
            assert forall|p: int| 0 <= p < stage implies #[trigger] first[p * n + k] == second[p * n
                + k] by {
                assert(0 <= p * n + k < stage * n) by (nonlinear_arith)
                    requires
                        0 <= p < stage,
                        0 <= k < n,
                ;
            }
            assert(column(stage_row::<S, M>(stage), second, n, k, stage) =~= terms);
            assert(accumulates(arith, h, terms, state[k], s1[k]));
            assert(accumulates(arith, h, terms, state[k], s2[k]));
            lemma_accumulates_unique(arith, h, terms, state[k], s1[k], s2[k]);
        }
        assert(s1 =~= s2);
        assert(first.subrange(stage * n, stage * n + n) == second.subrange(stage * n, stage * n + n));
        assert(stage * n + n == stages * n) by (nonlinear_arith)
            requires
                stage == stages - 1,
        ;
        assert(stages * n <= n * S) by (nonlinear_arith)
            requires
                stages <= S,
                0 <= n,
        ;
        assert forall|i: int| 0 <= i < stages * n implies #[trigger] first[i] == second[i] by {
            if i >= stage * n {
                assert(first.subrange(stage * n, stage * n + n)[i - stage * n] == first[i]);
                assert(second.subrange(stage * n, stage * n + n)[i - stage * n] == second[i]);
            }
        }
    }
}

/// An explicit step is repeatable. With a deterministic scalar and a system
/// that states its rate, two steps of the same method from the same instant,
/// step and state evaluate the same stage derivatives and write the same
/// output, bit for bit, whatever their workspaces held before: so a march
/// repeated, or split at any step and resumed from the state reached there,
/// passes through the same states.
pub proof fn lemma_step_repeatable<
    const S: usize,
    M: ExplicitTableau<S>,
    Sys: ExplicitSystem<u64>,
    A: Fn(ScalarOp) -> u64,
>(
    system: Sys,
    arith: A,
    h: u64,
    start: u64,
    state: Seq<u64>,
    first_derivatives: Seq<u64>,
    second_derivatives: Seq<u64>,
    first_output: Seq<u64>,
    second_output: Seq<u64>,
)
    requires
        deterministic(arith),
        Sys::obeys_rate(),
        first_derivatives.len() == state.len() * S,
        second_derivatives.len() == state.len() * S,
        first_output.len() == state.len(),
        second_output.len() == state.len(),
        forall|stage: int|
            0 <= stage < S ==> #[trigger] stage_evaluated::<S, M, Sys, A>(
                system,
                arith,
                h,
                start,
                state,
                first_derivatives,
                stage,
            ),
        forall|stage: int|
            0 <= stage < S ==> #[trigger] stage_evaluated::<S, M, Sys, A>(
                system,
                arith,
                h,
                start,
                state,
                second_derivatives,
                stage,
            ),
        forall|k: int|
            0 <= k < state.len() ==> accumulates(
                arith,
                h,
                column(primary_weights::<S, M>(), first_derivatives, state.len() as int, k, S as int),
                state[k],
                #[trigger] first_output[k],
            ),
        forall|k: int|
            0 <= k < state.len() ==> accumulates(
                arith,
                h,
                column(primary_weights::<S, M>(), second_derivatives, state.len() as int, k, S as int),
                state[k],
                #[trigger] second_output[k],
            ),
    ensures
        first_derivatives == second_derivatives,
        first_output == second_output,
{
    lemma_blocks_agree::<S, M, Sys, A>(
        system,
        arith,
        h,
        start,
        state,
        first_derivatives,
        second_derivatives,
        S as int,
    );
    assert(first_derivatives =~= second_derivatives);
    assert forall|k: int| 0 <= k < state.len() implies #[trigger] first_output[k] == second_output[k] by {
        lemma_accumulates_unique(
            arith,
            h,
            column(primary_weights::<S, M>(), first_derivatives, state.len() as int, k, S as int),
            state[k],
            first_output[k],
            second_output[k],
        );
    }
    assert(first_output =~= second_output);
}

/// An embedded step's primary result is the plain step's output. With a
/// deterministic scalar and a system that states its rate, the embedded step
/// of a pair evaluates the same stage derivatives as the plain step of that
/// method from the same instant, step and state; its primary result equals
/// the plain step's output bit for bit, and its error estimate is that output
/// minus the embedded result folded over those same derivatives.
pub proof fn lemma_embedded_primary_is_step_output<
    const S: usize,
    M: EmbeddedExplicitTableau<S>,
    Sys: ExplicitSystem<u64>,
    A: Fn(ScalarOp) -> u64,
>(
    system: Sys,
    arith: A,
    h: u64,
    start: u64,
    state: Seq<u64>,
    step_derivatives: Seq<u64>,
    step_output: Seq<u64>,
    embedded_derivatives: Seq<u64>,
    primary: Seq<u64>,
    error_estimate: Seq<u64>,
)
    requires
        deterministic(arith),
        Sys::obeys_rate(),
        step_derivatives.len() == state.len() * S,
        embedded_derivatives.len() == state.len() * S,
        step_output.len() == state.len(),
        primary.len() == state.len(),
        error_estimate.len() == state.len(),
        forall|stage: int|
            0 <= stage < S ==> #[trigger] stage_evaluated::<S, M, Sys, A>(
                system,
                arith,
                h,
                start,
                state,
                step_derivatives,
                stage,
            ),
        forall|stage: int|
            0 <= stage < S ==> #[trigger] stage_evaluated::<S, M, Sys, A>(
                system,
                arith,
                h,
                start,
                state,
                embedded_derivatives,
                stage,
            ),
        forall|k: int|
            0 <= k < state.len() ==> accumulates(
                arith,
                h,
                column(primary_weights::<S, M>(), step_derivatives, state.len() as int, k, S as int),
                state[k],
                #[trigger] step_output[k],
            ),
        forall|k: int|
            0 <= k < state.len() ==> accumulates(
                arith,
                h,
                column(primary_weights::<S, M>(), embedded_derivatives, state.len() as int, k, S as int),
                state[k],
                #[trigger] primary[k],
            ),
        forall|k: int|
            0 <= k < state.len() ==> estimates(
                arith,
                h,
                column(embedded_weights::<S, M>(), embedded_derivatives, state.len() as int, k, S as int),
                state[k],
                primary[k],
                #[trigger] error_estimate[k],
            ),
    ensures
        primary == step_output,
        forall|k: int|
            0 <= k < state.len() ==> estimates(
                arith,
                h,
                column(embedded_weights::<S, M>(), step_derivatives, state.len() as int, k, S as int),
                state[k],
                step_output[k],
                #[trigger] error_estimate[k],
            ),
{
    lemma_step_repeatable::<S, M, Sys, A>(
        system,
        arith,
        h,
        start,
        state,
        step_derivatives,
        embedded_derivatives,
        step_output,
        primary,
    );
}

} // verus!
