//! The Robertson stiff benchmark through the implicit step.
//!
//! Robertson (1966) is the three-species chain whose timescales span roughly
//! seven orders of magnitude, so an explicit step is bounded at `h ~ 1e-7`.
//! This test integrates it with backward Euler at `h = 0.01` and checks the
//! invariants a stiff solver must preserve: mass conservation and
//! non-negativity.

use core::convert::Infallible;

use eunomia::{FloatElement, NumericElement};
use horae::{
    binary64::ScalarOp,
    integration::{BackwardEuler, ImplicitWorkspace, step_implicit_into},
    system::{ExplicitSystem, ImplicitSystem},
    time::{Instant, StepSize},
};

/// The scalar `T`'s rounding of each operation, on binary64 encodings.
fn scalar<T: FloatElement>(op: ScalarOp) -> u64 {
    let value = |bits: u64| T::from_f64(f64::from_bits(bits));
    let encode = |x: T| x.to_f64().to_bits();
    match op {
        ScalarOp::Add(a, b) => encode(value(a) + value(b)),
        ScalarOp::Sub(a, b) => encode(value(a) - value(b)),
        ScalarOp::Mul(a, b) => encode(value(a) * value(b)),
        ScalarOp::Div(a, b) => encode(value(a) / value(b)),
        ScalarOp::MulAdd(a, b, c) => encode(value(a).scalar_fmadd(value(b), value(c))),
        ScalarOp::Root(x, n) => encode(FloatElement::powf(
            value(x),
            <T as NumericElement>::ONE / T::from_f64(f64::from(n)),
        )),
        ScalarOp::CountReciprocal(n) => encode(FloatElement::recip(T::from_f64(f64::from(n)))),
        ScalarOp::Ratio(numerator, denominator) => {
            encode(T::from_f64(numerator as f64 / denominator as f64))
        }
    }
}

/// Robertson's three reactions:
/// `y1 -> y2` (0.04), `y2 + y3 -> y1 + y3` (1e4), `2 y2 -> y3` (3e7).
struct Robertson;

impl ExplicitSystem<u64> for Robertson {
    type Error = Infallible;

    fn evaluate(&self, _time: Instant, state: &[u64], derivative: &mut [u64]) -> Result<(), Self::Error> {
        let (y1, y2, y3) = (
            f64::from_bits(state[0]),
            f64::from_bits(state[1]),
            f64::from_bits(state[2]),
        );
        let catalytic = 1e4_f64 * y2 * y3;
        derivative[0] = (-0.04_f64).mul_add(y1, catalytic).to_bits();
        derivative[1] = (0.04_f64).mul_add(y1, -(catalytic + 3e7 * y2 * y2)).to_bits();
        derivative[2] = (3e7 * y2 * y2).to_bits();
        Ok(())
    }
}

impl ImplicitSystem<u64> for Robertson {
    fn jacobian(&self, _time: Instant, state: &[u64], jacobian: &mut [u64]) -> Result<(), Self::Error> {
        let (y2, y3) = (f64::from_bits(state[1]), f64::from_bits(state[2]));
        let entries = [
            -0.04_f64,
            1e4 * y3,
            1e4 * y2,
            0.04,
            -1e4 * y3 - 6e7 * y2,
            -1e4 * y2,
            0.0,
            6e7 * y2,
            0.0,
        ];
        for (slot, entry) in jacobian.iter_mut().zip(entries) {
            *slot = entry.to_bits();
        }
        Ok(())
    }
}

#[test]
fn backward_euler_holds_robertson_invariants_at_five_orders_above_the_explicit_bound() {
    let system = Robertson;
    let start = Instant::new(0.0_f64.to_bits()).expect("invariant: finite fixture");
    let step = StepSize::new(0.01_f64.to_bits()).expect("invariant: positive fixture");
    let mut workspace = ImplicitWorkspace::<u64>::new(3).expect("nonzero dimension");

    let mut state = [1.0_f64.to_bits(), 0.0_f64.to_bits(), 0.0_f64.to_bits()];
    let mut output = [0u64; 3];
    let mut time = start;
    for _ in 0..4000 {
        let report = step_implicit_into(
            &system,
            BackwardEuler,
            time,
            step,
            &state,
            &mut output,
            &mut workspace,
            1e-10_f64.to_bits(),
            &scalar::<f64>,
        )
        .expect("Newton converges at every stiff step");
        state = output;
        time = report.end();
    }
    let state = state.map(f64::from_bits);

    let total: f64 = state.iter().sum();
    assert!(
        (total - 1.0).abs() <= 1e-6,
        "mass conservation drifted: {total}"
    );

    for concentration in state {
        assert!(
            concentration >= 0.0,
            "concentration went negative: {concentration}"
        );
    }

    assert!(
        state[1] < 1e-4,
        "intermediate y2 did not relax: {}",
        state[1]
    );
    assert!(state[0] > 0.7, "y1 departed its steady state: {}", state[0]);
}
