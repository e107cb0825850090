//! The implicit step's pivoting and each of its failures: a singular Newton
//! matrix, a Newton iteration that does not converge, mismatched shapes, a
//! non-finite end time and a rejected evaluation.

use core::convert::Infallible;
use core::fmt;

use eunomia::{FloatElement, NumericElement};
use horae::{
    binary64::ScalarOp,
    integration::{
        BackwardEuler, ImplicitStepError, ImplicitWorkspace, MAX_NEWTON_ITERATIONS, SliceRole,
        SolveError, step_implicit_into,
    },
    system::{ExplicitSystem, ImplicitSystem},
    time::{Instant, StepSize, TimeError},
};

/// The scalar `T`'s rounding of each operation, on binary64 encodings.
fn scalar<T: FloatElement>(op: ScalarOp) -> u64 {
    let value = |bits: u64| T::from_f64(f64::from_bits(bits));
    let encode = |x: T| x.to_f64().to_bits();
    match op {
        ScalarOp::Add(a, b) => encode(value(a) + value(b)),
        ScalarOp::Sub(a, b) => encode(value(a) - value(b)),
        ScalarOp::Mul(a, b) => encode(value(a) * value(b)),
        ScalarOp::Div(a, b) => encode(value(a) / value(b)),
        ScalarOp::MulAdd(a, b, c) => encode(value(a).scalar_fmadd(value(b), value(c))),
        ScalarOp::Root(x, n) => encode(FloatElement::powf(
            value(x),
            <T as NumericElement>::ONE / T::from_f64(f64::from(n)),
        )),
        ScalarOp::CountReciprocal(n) => encode(FloatElement::recip(T::from_f64(f64::from(n)))),
        ScalarOp::Ratio(numerator, denominator) => {
            encode(T::from_f64(numerator as f64 / denominator as f64))
        }
    }
}

fn bits(value: f64) -> u64 {
    value.to_bits()
}

fn value(bits: u64) -> f64 {
    f64::from_bits(bits)
}

/// The linear system `y' = A y` with the row-major matrix `A`; `reported` is
/// the Jacobian it hands out, which need not be `A`.
struct Linear {
    matrix: Vec<f64>,
    reported: Vec<f64>,
}

impl ExplicitSystem<u64> for Linear {
    type Error = Infallible;

    fn evaluate(&self, _time: Instant, state: &[u64], derivative: &mut [u64]) -> Result<(), Self::Error> {
        let n = state.len();
        for i in 0..n {
            let mut sum = 0.0;
            for j in 0..n {
                sum += self.matrix[i * n + j] * value(state[j]);
            }
            derivative[i] = bits(sum);
        }
        Ok(())
    }
}

impl ImplicitSystem<u64> for Linear {
    fn jacobian(&self, _time: Instant, _state: &[u64], jacobian: &mut [u64]) -> Result<(), Self::Error> {
        for (entry, reported) in jacobian.iter_mut().zip(&self.reported) {
            *entry = bits(*reported);
        }
        Ok(())
    }
}

fn linear(matrix: Vec<f64>) -> Linear {
    Linear { reported: matrix.clone(), matrix }
}

fn step_linear(
    system: &Linear,
    h: f64,
    state: &[f64],
) -> (Result<usize, ImplicitStepError<Infallible>>, Vec<f64>) {
    let start = Instant::new(bits(0.0)).expect("finite");
    let step = StepSize::new(bits(h)).expect("positive");
    let mut workspace = ImplicitWorkspace::<u64>::new(state.len()).expect("nonzero dimension");
    let encoded: Vec<u64> = state.iter().map(|x| bits(*x)).collect();
    let mut output = vec![0u64; state.len()];
    let result = step_implicit_into(
        system,
        BackwardEuler,
        start,
        step,
        &encoded,
        &mut output,
        &mut workspace,
        bits(1.0e-10),
        &scalar::<f64>,
    )
    .map(|report| report.evaluations());
    (result, output.iter().map(|x| value(*x)).collect())
}

#[test]
fn a_vanishing_diagonal_is_solved_by_exchanging_rows() {
    // With h = 1 the Newton matrix I - A is [[0, 1], [1, 0]]: backward Euler
    // solves (I - A) y = y0, whose solution exchanges the two components.
    let system = linear(vec![1.0, -1.0, -1.0, 1.0]);
    let (result, output) = step_linear(&system, 1.0, &[1.0, 2.0]);
    assert_eq!(result, Ok(3));
    assert_eq!(output, vec![2.0, 1.0]);
}

#[test]
fn a_singular_newton_matrix_stops_the_step() {
    // y' = 2y with h = 0.5: the Newton matrix 1 - 0.5 * 2 is zero.
    let system = linear(vec![2.0]);
    let (result, _) = step_linear(&system, 0.5, &[1.0]);
    assert_eq!(result, Err(ImplicitStepError::Solve(SolveError::SingularMatrix)));
}

#[test]
fn a_misleading_jacobian_exhausts_the_newton_iterations() {
    // y' = -100y, but the system reports a zero Jacobian: each correction
    // multiplies the error by -10, so the residual never meets the tolerance.
    let system = Linear { matrix: vec![-100.0], reported: vec![0.0] };
    let (result, _) = step_linear(&system, 0.1, &[1.0]);
    assert_eq!(result, Err(ImplicitStepError::Solve(SolveError::NonConvergence)));
    assert_eq!(MAX_NEWTON_ITERATIONS, 16);
}

#[test]
fn mismatched_shapes_are_reported_before_evaluation() {
    let system = linear(vec![-1.0]);
    let start = Instant::new(bits(0.0)).expect("finite");
    let step = StepSize::new(bits(0.1)).expect("positive");
    let state = [bits(1.0)];
    let mut workspace = ImplicitWorkspace::<u64>::new(1).expect("nonzero dimension");
    let mut long_output = [0u64; 2];
    assert_eq!(
        step_implicit_into(
            &system,
            BackwardEuler,
            start,
            step,
            &state,
            &mut long_output,
            &mut workspace,
            bits(1.0e-10),
            &scalar::<f64>,
        )
        .err(),
        Some(ImplicitStepError::DimensionMismatch { role: SliceRole::Output, expected: 1, actual: 2 })
    );
    let mut wide = ImplicitWorkspace::<u64>::new(3).expect("nonzero dimension");
    let mut output = [0u64];
    assert_eq!(
        step_implicit_into(
            &system,
            BackwardEuler,
            start,
            step,
            &state,
            &mut output,
            &mut wide,
            bits(1.0e-10),
            &scalar::<f64>,
        )
        .err(),
        Some(ImplicitStepError::DimensionMismatch { role: SliceRole::Workspace, expected: 1, actual: 3 })
    );
}

#[test]
fn an_end_beyond_the_finite_range_is_a_time_error() {
    let system = linear(vec![-1.0]);
    let start = Instant::new(bits(f64::MAX)).expect("finite");
    let step = StepSize::new(bits(f64::MAX)).expect("positive");
    let mut workspace = ImplicitWorkspace::<u64>::new(1).expect("nonzero dimension");
    let mut output = [0u64];
    assert_eq!(
        step_implicit_into(
            &system,
            BackwardEuler,
            start,
            step,
            &[bits(1.0)],
            &mut output,
            &mut workspace,
            bits(1.0e-10),
            &scalar::<f64>,
        )
        .err(),
        Some(ImplicitStepError::Time(TimeError::NonFinite))
    );
}

/// A system that refuses every evaluation.
struct Refusing;

#[derive(Clone, Debug, PartialEq)]
struct Refused;

impl fmt::Display for Refused {
    fn fmt(&self, formatter: &mut fmt::Formatter<'_>) -> fmt::Result {
        formatter.write_str("refused")
    }
}

impl ExplicitSystem<u64> for Refusing {
    type Error = Refused;

    fn evaluate(&self, _time: Instant, _state: &[u64], _derivative: &mut [u64]) -> Result<(), Self::Error> {
        Err(Refused)
    }
}

impl ImplicitSystem<u64> for Refusing {
    fn jacobian(&self, _time: Instant, _state: &[u64], _jacobian: &mut [u64]) -> Result<(), Self::Error> {
        Err(Refused)
    }
}

#[test]
fn a_refused_evaluation_is_a_system_error() {
    let start = Instant::new(bits(0.0)).expect("finite");
    let step = StepSize::new(bits(0.1)).expect("positive");
    let mut workspace = ImplicitWorkspace::<u64>::new(1).expect("nonzero dimension");
    let mut output = [0u64];
    let error = step_implicit_into(
        &Refusing,
        BackwardEuler,
        start,
        step,
        &[bits(1.0)],
        &mut output,
        &mut workspace,
        bits(1.0e-10),
        &scalar::<f64>,
    )
    .err();
    assert_eq!(error, Some(ImplicitStepError::System(Refused)));
    assert_eq!(error.map(|e| e.message()), Some("system evaluation failed: refused".to_string()));
}
