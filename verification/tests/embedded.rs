//! Value-semantic tests for embedded explicit Runge--Kutta stepping.

use core::convert::Infallible;

use eunomia::{FloatElement, NumericElement, RealField};
use horae::{
    binary64::ScalarOp,
    integration::{
        EmbeddedOutputs, SliceRole, StepError, StepWorkspace, step_embedded_into,
        tableau::{Coefficient, DormandPrince, EmbeddedExplicitTableau, ExplicitTableau},
    },
    system::ExplicitSystem,
    time::{Instant, StepSize},
};

/// The scalar `T`'s rounding of each operation, on binary64 encodings.
fn scalar<T: FloatElement>(op: ScalarOp) -> u64 {
    let value = |bits: u64| T::from_f64(f64::from_bits(bits));
    let encode = |x: T| x.to_f64().to_bits();
    match op {
        ScalarOp::Add(a, b) => encode(value(a) + value(b)),
        ScalarOp::Sub(a, b) => encode(value(a) - value(b)),
        ScalarOp::Mul(a, b) => encode(value(a) * value(b)),
        ScalarOp::Div(a, b) => encode(value(a) / value(b)),
        ScalarOp::MulAdd(a, b, c) => encode(value(a).scalar_fmadd(value(b), value(c))),
        ScalarOp::Root(x, n) => encode(FloatElement::powf(
            value(x),
            <T as NumericElement>::ONE / T::from_f64(f64::from(n)),
        )),
        ScalarOp::CountReciprocal(n) => encode(FloatElement::recip(T::from_f64(f64::from(n)))),
        ScalarOp::Ratio(numerator, denominator) => {
            encode(T::from_f64(numerator as f64 / denominator as f64))
        }
    }
}

fn value(coefficient: Coefficient) -> f64 {
    coefficient.numerator as f64 / coefficient.denominator as f64
}

/// `y' = t^4` in the scalar `T`.
struct FourthDegreeRate<T>(core::marker::PhantomData<T>);

impl<T: RealField> ExplicitSystem<u64> for FourthDegreeRate<T> {
    type Error = Infallible;

    fn evaluate(&self, time: Instant, _state: &[u64], derivative: &mut [u64]) -> Result<(), Self::Error> {
        let t = T::from_f64(f64::from_bits(time.as_time()));
        derivative[0] = (t * t * t * t).to_f64().to_bits();
        Ok(())
    }
}

fn encode<T: RealField>(x: T) -> u64 {
    x.to_f64().to_bits()
}

fn decode<T: RealField>(bits: u64) -> T {
    T::from_f64(f64::from_bits(bits))
}

fn run<T: RealField>(step_value: T) -> ([T; 1], [T; 1]) {
    let rate = FourthDegreeRate::<T>(core::marker::PhantomData);
    let start = Instant::new(encode(T::from_f64(0.0))).expect("invariant: finite fixture");
    let step = StepSize::new(encode(step_value)).expect("invariant: positive finite fixture");
    let mut output = [0u64];
    let mut error = [0u64];
    let mut workspace = StepWorkspace::<u64, 7>::new(1).expect("invariant: nonzero workspace");
    let report = step_embedded_into(
        &rate,
        DormandPrince,
        start,
        step,
        &[encode(T::from_f64(0.0))],
        &mut EmbeddedOutputs::new(&mut output, &mut error),
        &mut workspace,
        &scalar::<T>,
    )
    .expect("invariant: polynomial rate is infallible");

    assert_eq!(report.evaluations(), 7);
    assert_eq!(
        report.end(),
        start.advance(step, &scalar::<T>).expect("invariant: finite end")
    );
    ([decode(output[0])], [decode(error[0])])
}

#[test]
fn dormand_prince_has_fifth_order_primary_and_fourth_order_embedded_result() {
    assert_eq!(DormandPrince::order(), 5);
    assert_eq!(DormandPrince::embedded_order(), 4);
    let primary_sum: f64 = (0..7).map(|stage| value(DormandPrince::b(stage))).sum();
    let embedded_sum: f64 = (0..7).map(|stage| value(DormandPrince::b_embedded(stage))).sum();
    assert!((primary_sum - 1.0).abs() <= 8.0 * f64::EPSILON);
    assert!((embedded_sum - 1.0).abs() <= 8.0 * f64::EPSILON);
}

fn assert_polynomial_oracle_and_error_scaling<T>(oracle_units: f64, ratio_units: f64)
where
    T: RealField,
{
    let large = T::from_f64(0.5);
    let small = T::from_f64(0.25);
    let (large_output, large_error) = run::<T>(large);
    let (small_output, small_error) = run::<T>(small);

    let large_exact = T::from_f64(0.5_f64.powi(5) / 5.0);
    let small_exact = T::from_f64(0.25_f64.powi(5) / 5.0);
    let bound = T::from_f64(oracle_units) * <T as RealField>::EPSILON;
    assert!(
        (large_output[0] - large_exact).abs() <= bound,
        "h = 0.5 integrated t^4 to {:?}, beyond {oracle_units} epsilon of the exact value",
        large_output[0]
    );
    assert!(
        (small_output[0] - small_exact).abs() <= bound,
        "h = 0.25 integrated t^4 to {:?}, beyond {oracle_units} epsilon of the exact value",
        small_output[0]
    );

    assert!(
        large_error[0].abs() > T::from_f64(0.0),
        "a zero estimate would mean the embedded pair is not being evaluated"
    );
    let ratio = large_error[0] / small_error[0];
    let ratio_bound = T::from_f64(ratio_units) * <T as RealField>::EPSILON;
    assert!(
        (ratio - T::from_f64(32.0)).abs() <= ratio_bound,
        "halving h changed the estimate by {ratio:?}, not the 2^5 the h^5 scaling requires (within {ratio_units} epsilon)"
    );
}

#[test]
fn embedded_step_matches_polynomial_oracle_and_scales_error_estimate() {
    assert_polynomial_oracle_and_error_scaling::<f64>(128.0, 1.0e4);
    assert_polynomial_oracle_and_error_scaling::<f32>(128.0, 1.0e4);
}

#[test]
fn embedded_step_validates_error_estimate_dimension_before_evaluation() {
    let start = Instant::new(0.0_f64.to_bits()).expect("invariant: finite fixture");
    let step = StepSize::new(0.1_f64.to_bits()).expect("invariant: positive fixture");
    let mut output = [0u64];
    let mut workspace = StepWorkspace::<u64, 7>::new(1).expect("invariant: nonzero workspace");
    let result = step_embedded_into(
        &FourthDegreeRate::<f64>(core::marker::PhantomData),
        DormandPrince,
        start,
        step,
        &[0.0_f64.to_bits()],
        &mut EmbeddedOutputs::new(&mut output, &mut []),
        &mut workspace,
        &scalar::<f64>,
    );

    assert_eq!(
        result,
        Err(StepError::DimensionMismatch {
            role: SliceRole::ErrorEstimate,
            expected: 1,
            actual: 0,
        })
    );
}
