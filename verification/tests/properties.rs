//! Exact event clipping at a high-magnitude start.

use eunomia::{FloatElement, NumericElement};
use horae::{
    binary64::ScalarOp,
    events::EventSchedule,
    time::{Instant, StepSize},
};

/// The scalar `T`'s rounding of each operation, on binary64 encodings.
fn scalar<T: FloatElement>(op: ScalarOp) -> u64 {
    let value = |bits: u64| T::from_f64(f64::from_bits(bits));
    let encode = |x: T| x.to_f64().to_bits();
    match op {
        ScalarOp::Add(a, b) => encode(value(a) + value(b)),
        ScalarOp::Sub(a, b) => encode(value(a) - value(b)),
        ScalarOp::Mul(a, b) => encode(value(a) * value(b)),
        ScalarOp::Div(a, b) => encode(value(a) / value(b)),
        ScalarOp::MulAdd(a, b, c) => encode(value(a).scalar_fmadd(value(b), value(c))),
        ScalarOp::Root(x, n) => encode(FloatElement::powf(
            value(x),
            <T as NumericElement>::ONE / T::from_f64(f64::from(n)),
        )),
        ScalarOp::CountReciprocal(n) => encode(FloatElement::recip(T::from_f64(f64::from(n)))),
        ScalarOp::Ratio(numerator, denominator) => {
            encode(T::from_f64(numerator as f64 / denominator as f64))
        }
    }
}

#[test]
fn event_clip_preserves_high_magnitude_small_offset() {
    let start = Instant::new(1.0e8_f64.to_bits()).expect("invariant: finite high-magnitude start");
    let event = Instant::new((1.0e8_f64 + 1.0e-6_f64).to_bits())
        .expect("invariant: representable event offset");
    assert!(
        event > start,
        "invariant: high-magnitude offset is representable"
    );
    let events = [event];
    let schedule = EventSchedule::new(&events).expect("invariant: singleton is sorted");
    let proposed = StepSize::new(2.0e-6_f64.to_bits()).expect("invariant: positive proposed step");

    let clipped = schedule
        .clip_step(start, proposed, &scalar::<f64>)
        .expect("invariant: finite clipped endpoint");
    let endpoint = start
        .advance(clipped.step(), &scalar::<f64>)
        .expect("invariant: finite reconstructed endpoint");

    assert_eq!(clipped.event(), Some(event));
    assert_eq!(endpoint, event);
}
