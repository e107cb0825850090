//! Value-semantic fixed-step integration tests.

use core::{convert::Infallible, fmt};

use eunomia::{FloatElement, NumericElement, RealField};
use horae::{
    binary64::ScalarOp,
    integration::{
        SliceRole, StepError, StepWorkspace, step_into,
        tableau::{DormandPrince, Euler, ExplicitTableau, Midpoint, Rk4},
    },
    system::ExplicitSystem,
    time::{Instant, StepSize},
};

/// The scalar `T`'s rounding of each operation, on binary64 encodings.
fn scalar<T: FloatElement>(op: ScalarOp) -> u64 {
    let value = |bits: u64| T::from_f64(f64::from_bits(bits));
    let encode = |x: T| x.to_f64().to_bits();
    match op {
        ScalarOp::Add(a, b) => encode(value(a) + value(b)),
        ScalarOp::Sub(a, b) => encode(value(a) - value(b)),
        ScalarOp::Mul(a, b) => encode(value(a) * value(b)),
        ScalarOp::Div(a, b) => encode(value(a) / value(b)),
        ScalarOp::MulAdd(a, b, c) => encode(value(a).scalar_fmadd(value(b), value(c))),
        ScalarOp::Root(x, n) => encode(FloatElement::powf(
            value(x),
            <T as NumericElement>::ONE / T::from_f64(f64::from(n)),
        )),
        ScalarOp::CountReciprocal(n) => encode(FloatElement::recip(T::from_f64(f64::from(n)))),
        ScalarOp::Ratio(numerator, denominator) => {
            encode(T::from_f64(numerator as f64 / denominator as f64))
        }
    }
}

fn encode<T: RealField>(x: T) -> u64 {
    x.to_f64().to_bits()
}

fn decode<T: RealField>(bits: u64) -> T {
    T::from_f64(f64::from_bits(bits))
}

#[derive(Clone, Copy)]
struct ConstantRate<T>(T);

impl<T: RealField> ExplicitSystem<u64> for ConstantRate<T> {
    type Error = Infallible;

    fn evaluate(&self, _time: Instant, _state: &[u64], derivative: &mut [u64]) -> Result<(), Self::Error> {
        derivative.fill(encode(self.0));
        Ok(())
    }
}

fn assert_constant_rate<T>()
where
    T: RealField,
{
    let start = Instant::new(encode(T::from_f64(0.25))).expect("invariant: finite start fixture");
    let step = StepSize::new(encode(T::from_f64(0.5))).expect("invariant: positive step fixture");
    let initial = [encode(T::from_f64(1.0)), encode(T::from_f64(-2.0))];
    let expected = [T::from_f64(2.5), T::from_f64(-0.5)];
    let rate = ConstantRate(T::from_f64(3.0));

    let mut euler_output = [0u64; 2];
    let mut euler_workspace = StepWorkspace::<u64, 1>::new(2).expect("invariant: nonzero workspace");
    let euler_report = step_into(
        &rate,
        Euler,
        start,
        step,
        &initial,
        &mut euler_output,
        &mut euler_workspace,
        &scalar::<T>,
    )
    .expect("invariant: infallible constant system");
    assert_eq!(euler_output.map(decode::<T>), expected);
    assert_eq!(euler_report.evaluations(), 1);

    let mut midpoint_output = [0u64; 2];
    let mut midpoint_workspace =
        StepWorkspace::<u64, 2>::new(2).expect("invariant: nonzero workspace");
    let midpoint_report = step_into(
        &rate,
        Midpoint,
        start,
        step,
        &initial,
        &mut midpoint_output,
        &mut midpoint_workspace,
        &scalar::<T>,
    )
    .expect("invariant: infallible constant system");
    assert_eq!(midpoint_output.map(decode::<T>), expected);
    assert_eq!(midpoint_report.evaluations(), 2);

    let mut rk_output = [0u64; 2];
    let mut rk_workspace = StepWorkspace::<u64, 4>::new(2).expect("invariant: nonzero workspace");
    let rk_report = step_into(
        &rate,
        Rk4,
        start,
        step,
        &initial,
        &mut rk_output,
        &mut rk_workspace,
        &scalar::<T>,
    )
    .expect("invariant: infallible constant system");
    for (actual, exact) in rk_output.map(decode::<T>).into_iter().zip(expected) {
        // Four coefficient conversions, products, and additions contribute at
        // most 32 first-order rounding units at this fixture's result scale.
        let bound = T::from_f64(32.0) * T::from_f64(3.0) * T::from_f64(0.5) * <T as RealField>::EPSILON;
        assert!((actual - exact).abs() <= bound);
    }
    assert_eq!(rk_report.evaluations(), 4);
    assert_eq!(decode::<T>(rk_report.end().as_time()), T::from_f64(0.75));
}

#[test]
fn constant_rate_is_exact_for_each_method_and_scalar() {
    assert_constant_rate::<f32>();
    assert_constant_rate::<f64>();
}

#[derive(Clone, Copy)]
struct ExponentialRate;

impl ExplicitSystem<u64> for ExponentialRate {
    type Error = Infallible;

    fn evaluate(&self, _time: Instant, state: &[u64], derivative: &mut [u64]) -> Result<(), Self::Error> {
        derivative[0] = state[0];
        Ok(())
    }
}

fn march_exponential<T, Method, const STAGES: usize>(method: Method, subdivisions: usize) -> f64
where
    T: RealField,
    Method: ExplicitTableau<STAGES> + Copy,
{
    let subdivision_count = u32::try_from(subdivisions).expect("fixture count fits u32");
    let step_value = T::from_f64(1.0 / f64::from(subdivision_count));
    let step = StepSize::new(encode(step_value)).expect("invariant: positive step");
    let start = Instant::new(encode(T::from_f64(0.0))).expect("invariant: finite start");
    let mut time = start;
    let mut state = [encode(T::from_f64(1.0))];
    let mut output = [0u64];
    let mut workspace = StepWorkspace::<u64, STAGES>::new(1).expect("invariant: nonzero workspace");

    for _ in 0..subdivisions {
        let report = step_into(
            &ExponentialRate,
            method,
            time,
            step,
            &state,
            &mut output,
            &mut workspace,
            &scalar::<T>,
        )
        .expect("invariant: exponential system is infallible");
        state.copy_from_slice(&output);
        time = report.end();
    }

    f64::from_bits(state[0])
}

fn observed_order<T, Method, const STAGES: usize>(
    method: Method,
    coarse_subdivisions: usize,
) -> (f64, f64, f64)
where
    T: RealField,
    Method: ExplicitTableau<STAGES> + Copy,
{
    let coarse = march_exponential::<T, Method, STAGES>(method, coarse_subdivisions);
    let fine = march_exponential::<T, Method, STAGES>(
        method,
        coarse_subdivisions
            .checked_mul(2)
            .expect("invariant: refinement count does not overflow"),
    );
    let exact = core::f64::consts::E;
    let coarse_error = (coarse - exact).abs();
    let fine_error = (fine - exact).abs();
    let rate = (coarse_error / fine_error).ln() / core::f64::consts::LN_2;
    (coarse_error, fine_error, rate)
}

fn assert_formal_order<T, Method, const STAGES: usize>(method: Method, coarse_subdivisions: usize)
where
    T: RealField,
    Method: ExplicitTableau<STAGES> + Copy,
{
    let (coarse_error, fine_error, observed) =
        observed_order::<T, Method, STAGES>(method, coarse_subdivisions);
    let formal = f64::from(u32::try_from(Method::order()).expect("invariant: tableau order fits u32"));
    assert!(coarse_error > fine_error, "refinement must reduce error");
    assert_eq!(observed.round(), formal, "observed order {observed}");
}

#[test]
fn refinement_recovers_each_tableau_order_against_closed_form_solution() {
    assert_formal_order::<f64, _, 1>(Euler, 16);
    assert_formal_order::<f64, _, 2>(Midpoint, 16);
    assert_formal_order::<f64, _, 4>(Rk4, 16);
    assert_formal_order::<f64, _, 7>(DormandPrince, 16);
}

#[test]
fn refinement_order_class_is_stable_for_f32() {
    assert_formal_order::<f32, _, 1>(Euler, 4);
    assert_formal_order::<f32, _, 2>(Midpoint, 4);
    assert_formal_order::<f32, _, 4>(Rk4, 4);
}

struct TimeRate;

impl ExplicitSystem<u64> for TimeRate {
    type Error = Infallible;

    fn evaluate(&self, time: Instant, _state: &[u64], derivative: &mut [u64]) -> Result<(), Self::Error> {
        derivative.fill(time.as_time());
        Ok(())
    }
}

#[test]
fn midpoint_uses_tableau_stage_time() {
    let start = Instant::new(1.0_f64.to_bits()).expect("invariant: finite fixture");
    let step = StepSize::new(0.5_f64.to_bits()).expect("invariant: positive fixture");
    let mut output = [0u64];
    let mut workspace = StepWorkspace::<u64, 2>::new(1).expect("invariant: valid workspace");
    let report = step_into(
        &TimeRate,
        Midpoint,
        start,
        step,
        &[0.0_f64.to_bits()],
        &mut output,
        &mut workspace,
        &scalar::<f64>,
    )
    .expect("invariant: infallible system");
    assert_eq!(report.evaluations(), 2);
    // Integral of t over [1, 1.5] is exactly 0.625, and midpoint evaluates at
    // 1.25 so the method is exact for this linear time dependence.
    assert_eq!(output[0], 0.625_f64.to_bits());
}

#[derive(Clone, Copy, Debug, Eq, PartialEq)]
struct EvaluationFailure;

impl fmt::Display for EvaluationFailure {
    fn fmt(&self, formatter: &mut fmt::Formatter<'_>) -> fmt::Result {
        formatter.write_str("fixture rejected evaluation")
    }
}

struct FailingSystem;

impl ExplicitSystem<u64> for FailingSystem {
    type Error = EvaluationFailure;

    fn evaluate(&self, _time: Instant, _state: &[u64], _derivative: &mut [u64]) -> Result<(), Self::Error> {
        Err(EvaluationFailure)
    }
}

#[test]
fn shape_and_system_errors_preserve_failure_context() {
    let start = Instant::new(0.0_f64.to_bits()).expect("invariant: finite fixture");
    let step = StepSize::new(0.1_f64.to_bits()).expect("invariant: positive fixture");
    let mut workspace = StepWorkspace::<u64, 1>::new(2).expect("invariant: valid workspace");
    let mut short_output = [0u64];
    let state = [1.0_f64.to_bits(), 2.0_f64.to_bits()];

    let shape_error = step_into(
        &FailingSystem,
        Euler,
        start,
        step,
        &state,
        &mut short_output,
        &mut workspace,
        &scalar::<f64>,
    )
    .expect_err("output dimension differs");
    assert_eq!(
        shape_error,
        StepError::DimensionMismatch {
            role: SliceRole::Output,
            expected: 2,
            actual: 1,
        }
    );

    let mut output = [0u64, 0u64];
    let system_error = step_into(
        &FailingSystem,
        Euler,
        start,
        step,
        &state,
        &mut output,
        &mut workspace,
        &scalar::<f64>,
    )
    .expect_err("fixture always rejects evaluation");
    assert_eq!(system_error, StepError::System(EvaluationFailure));
}
