//! Concrete checks of the library's stated contracts: value classification,
//! validation errors and their messages, event clipping, adaptive decisions,
//! subcycle ratios, tableau coefficients and workspace shapes.

use core::convert::Infallible;
use core::fmt;

use eunomia::{FloatElement, NumericElement};
use horae::{
    adaptive::{AdaptiveController, AdaptiveError, AdaptiveParameter, StepDecision},
    binary64::{
        ScalarOp, abs, equal, finite, less_equal, less_than, max_scalar, min_scalar, nan,
    },
    events::{EventSchedule, ScheduleError},
    integration::{
        BackwardEuler, ImplicitMethod, ImplicitStepError, ImplicitWorkspace, SliceRole,
        SolveError, StepError, StepWorkspace, WorkspaceError, ensure_dimension, step_into,
        tableau::{Coefficient, DormandPrince, Euler, ExplicitTableau, Midpoint, Rk4},
    },
    subcycling::{SubcycleError, SubcyclePlan, plan::validate_ratio},
    system::ExplicitSystem,
    text::push_decimal,
    time::{Instant, StepSize, TimeError},
};

/// The scalar `T`'s rounding of each operation, on binary64 encodings.
fn scalar<T: FloatElement>(op: ScalarOp) -> u64 {
    let value = |bits: u64| T::from_f64(f64::from_bits(bits));
    let encode = |x: T| x.to_f64().to_bits();
    match op {
        ScalarOp::Add(a, b) => encode(value(a) + value(b)),
        ScalarOp::Sub(a, b) => encode(value(a) - value(b)),
        ScalarOp::Mul(a, b) => encode(value(a) * value(b)),
        ScalarOp::Div(a, b) => encode(value(a) / value(b)),
        ScalarOp::MulAdd(a, b, c) => encode(value(a).scalar_fmadd(value(b), value(c))),
        ScalarOp::Root(x, n) => encode(FloatElement::powf(
            value(x),
            <T as NumericElement>::ONE / T::from_f64(f64::from(n)),
        )),
        ScalarOp::CountReciprocal(n) => encode(FloatElement::recip(T::from_f64(f64::from(n)))),
        ScalarOp::Ratio(numerator, denominator) => {
            encode(T::from_f64(numerator as f64 / denominator as f64))
        }
    }
}

fn bits(value: f64) -> u64 {
    value.to_bits()
}

fn value(bits: u64) -> f64 {
    f64::from_bits(bits)
}

fn instant(time: f64) -> Instant {
    Instant::new(bits(time)).expect("invariant: finite fixture")
}

fn step(time: f64) -> StepSize {
    StepSize::new(bits(time)).expect("invariant: positive fixture")
}

fn controller() -> AdaptiveController {
    AdaptiveController::new(bits(1.0e-8), bits(1.0e-5), bits(0.9), bits(0.2), bits(5.0))
        .expect("invariant: valid controller")
}

fn ratio(coefficient: Coefficient) -> f64 {
    coefficient.numerator as f64 / coefficient.denominator as f64
}

#[test]
fn classification_follows_the_encoding() {
    for finite_value in [0.0, -0.0, 1.0, -2.5, f64::MAX, f64::MIN_POSITIVE, 5.0e-324] {
        assert!(finite(bits(finite_value)));
        assert!(!nan(bits(finite_value)));
    }
    for infinite in [f64::INFINITY, f64::NEG_INFINITY] {
        assert!(!finite(bits(infinite)));
        assert!(!nan(bits(infinite)));
    }
    assert!(nan(bits(f64::NAN)));
    assert!(nan(bits(-f64::NAN)));
    assert!(!finite(bits(f64::NAN)));
    assert_eq!(abs(bits(-3.0)), bits(3.0));
    assert_eq!(abs(bits(-0.0)), bits(0.0));
}

#[test]
fn comparisons_agree_with_ieee_754() {
    let samples = [
        f64::NEG_INFINITY,
        -1.0e300,
        -1.0,
        -5.0e-324,
        -0.0,
        0.0,
        5.0e-324,
        0.5,
        1.0,
        f64::MAX,
        f64::INFINITY,
        f64::NAN,
    ];
    for a in samples {
        for b in samples {
            assert_eq!(less_than(bits(a), bits(b)), a < b, "{a} < {b}");
            assert_eq!(less_equal(bits(a), bits(b)), a <= b, "{a} <= {b}");
            assert_eq!(equal(bits(a), bits(b)), a == b, "{a} == {b}");
        }
    }
}

#[test]
fn trichotomy_holds_for_ordered_values_and_nan_is_unordered() {
    let samples = [-2.0, -0.0, 0.0, 3.0, f64::INFINITY];
    for a in samples {
        for b in samples {
            let outcomes = [
                less_than(bits(a), bits(b)),
                equal(bits(a), bits(b)),
                less_than(bits(b), bits(a)),
            ];
            assert_eq!(outcomes.iter().filter(|holds| **holds).count(), 1, "{a} against {b}");
        }
        assert!(!less_than(bits(a), bits(f64::NAN)));
        assert!(!less_equal(bits(f64::NAN), bits(a)));
        assert!(!equal(bits(f64::NAN), bits(a)));
    }
}

#[test]
fn maximum_and_minimum_follow_the_special_value_rule() {
    assert_eq!(max_scalar(bits(f64::NAN), bits(2.0)), bits(2.0));
    assert_eq!(max_scalar(bits(2.0), bits(f64::NAN)), bits(2.0));
    assert_eq!(min_scalar(bits(f64::NAN), bits(-2.0)), bits(-2.0));
    assert_eq!(max_scalar(bits(-0.0), bits(0.0)), bits(0.0));
    assert_eq!(max_scalar(bits(0.0), bits(-0.0)), bits(0.0));
    assert_eq!(min_scalar(bits(0.0), bits(-0.0)), bits(-0.0));
    assert_eq!(min_scalar(bits(-0.0), bits(0.0)), bits(-0.0));
    assert_eq!(max_scalar(bits(0.2), bits(0.7)), bits(0.7));
    assert_eq!(min_scalar(bits(0.2), bits(0.7)), bits(0.2));
    assert_eq!(max_scalar(bits(-4.0), bits(-1.0)), bits(-1.0));
}

#[test]
fn instants_admit_every_finite_time() {
    for time in [0.0, -0.0, -12.5, 1.0e300] {
        assert_eq!(Instant::new(bits(time)).map(|at| at.as_time()), Ok(bits(time)));
    }
    assert_eq!(Instant::new(bits(f64::NAN)).err(), Some(TimeError::NonFinite));
    assert_eq!(Instant::new(bits(f64::NEG_INFINITY)).err(), Some(TimeError::NonFinite));
    assert_eq!(instant(4.0).into_time(), bits(4.0));
}

#[test]
fn step_sizes_are_finite_and_strictly_positive() {
    assert_eq!(StepSize::new(bits(0.25)).map(|h| h.as_time()), Ok(bits(0.25)));
    assert_eq!(StepSize::new(bits(5.0e-324)).map(|h| h.into_time()), Ok(bits(5.0e-324)));
    assert_eq!(StepSize::new(bits(0.0)).err(), Some(TimeError::NonPositiveStep));
    assert_eq!(StepSize::new(bits(-0.0)).err(), Some(TimeError::NonPositiveStep));
    assert_eq!(StepSize::new(bits(-1.0)).err(), Some(TimeError::NonPositiveStep));
    assert_eq!(StepSize::new(bits(f64::INFINITY)).err(), Some(TimeError::NonFinite));
    assert_eq!(StepSize::new(bits(f64::NAN)).err(), Some(TimeError::NonFinite));
}

#[test]
fn instant_and_step_arithmetic_round_through_the_scalar() {
    let end = instant(1.0).advance(step(0.5), &scalar::<f64>).expect("finite end");
    assert_eq!(end.as_time(), bits(1.5));
    let elapsed = instant(3.0).duration_since(instant(1.0), &scalar::<f64>).expect("positive");
    assert_eq!(elapsed.as_time(), bits(2.0));
    assert_eq!(
        instant(1.0).duration_since(instant(1.0), &scalar::<f64>).err(),
        Some(TimeError::NonPositiveStep)
    );
    assert_eq!(
        instant(1.0).duration_since(instant(2.0), &scalar::<f64>).err(),
        Some(TimeError::NonPositiveStep)
    );
    assert_eq!(
        instant(f64::MAX).advance(step(f64::MAX), &scalar::<f64>).err(),
        Some(TimeError::NonFinite)
    );
    assert_eq!(
        instant(f64::MAX).duration_since(instant(-f64::MAX), &scalar::<f64>).err(),
        Some(TimeError::NonFinite)
    );
    assert_eq!(
        instant(-f64::MAX).duration_since(instant(f64::MAX), &scalar::<f64>).err(),
        Some(TimeError::NonFinite)
    );
    let tiny = instant(5.0e-324).duration_since(instant(0.0), &scalar::<f64>).expect("positive");
    assert_eq!(tiny.as_time(), bits(5.0e-324));
    assert_eq!(
        instant(0.0).duration_since(instant(-0.0), &scalar::<f64>).err(),
        Some(TimeError::NonPositiveStep)
    );
    assert_eq!(step(0.5).scaled(bits(4.0), &scalar::<f64>).map(|h| h.as_time()), Ok(bits(2.0)));
    assert_eq!(step(0.5).scaled(bits(0.0), &scalar::<f64>).err(), Some(TimeError::NonPositiveStep));
    assert_eq!(step(0.5).scaled(bits(f64::NAN), &scalar::<f64>).err(), Some(TimeError::NonFinite));
    // The single-precision scalar rounds the same request differently.
    let third = step(1.0).scaled(bits(1.0 / 3.0), &scalar::<f32>).expect("positive");
    assert_eq!(value(third.as_time()), f64::from(1.0_f32 / 3.0));
}

#[test]
fn instants_and_steps_compare_by_value() {
    assert!(instant(-0.0) == instant(0.0));
    assert!(instant(1.0) < instant(2.0));
    assert!(instant(-3.0) < instant(-2.0));
    assert!(step(0.5) < step(0.75));
    assert!(step(0.5) == step(0.5));
}

#[test]
fn schedules_accept_sorted_events_and_name_the_first_descent() {
    let sorted = [instant(1.0), instant(1.0), instant(2.5), instant(3.0)];
    let schedule = EventSchedule::new(&sorted).expect("sorted");
    assert_eq!(schedule.events().len(), 4);
    assert!(EventSchedule::new(&[]).is_ok());
    let unsorted = [instant(0.0), instant(2.0), instant(1.0), instant(0.5)];
    assert_eq!(EventSchedule::new(&unsorted).err(), Some(ScheduleError::Unsorted { index: 2 }));
    let mixed_zeros = [instant(0.0), instant(-0.0)];
    assert!(EventSchedule::new(&mixed_zeros).is_ok());
}

#[test]
fn next_after_returns_the_first_event_strictly_later() {
    let events = [instant(1.0), instant(1.0), instant(2.0), instant(2.0), instant(5.0)];
    let schedule = EventSchedule::new(&events).expect("sorted");
    assert_eq!(schedule.next_after(instant(0.0)), Some(instant(1.0)));
    assert_eq!(schedule.next_after(instant(1.0)), Some(instant(2.0)));
    assert_eq!(schedule.next_after(instant(1.5)), Some(instant(2.0)));
    assert_eq!(schedule.next_after(instant(2.0)), Some(instant(5.0)));
    assert_eq!(schedule.next_after(instant(5.0)), None);
    assert_eq!(schedule.next_after(instant(9.0)), None);
    assert_eq!(EventSchedule::new(&[]).expect("empty").next_after(instant(0.0)), None);
}

#[test]
fn clipping_follows_the_documented_event_walk() {
    let start = instant(1.0);
    let events = [instant(1.25), instant(2.0)];
    let schedule = EventSchedule::new(&events).expect("sorted");

    let clipped = schedule.clip_step(start, step(0.5), &scalar::<f64>).expect("valid clip");
    assert!(clipped.was_shortened());
    assert_eq!(clipped.event(), Some(events[0]));
    assert_eq!(clipped.step().as_time(), bits(0.25));

    let clipped2 = schedule.clip_step(events[0], step(1.0), &scalar::<f64>).expect("valid clip");
    assert!(clipped2.was_shortened());
    assert_eq!(clipped2.event(), Some(events[1]));
    assert_eq!(clipped2.step().as_time(), bits(0.75));

    let clipped3 = schedule.clip_step(events[0], step(0.75), &scalar::<f64>).expect("valid clip");
    assert!(!clipped3.was_shortened());
    assert_eq!(clipped3.event(), Some(events[1]));
    assert_eq!(clipped3.step().as_time(), bits(0.75));

    let beyond = schedule.clip_step(instant(2.0), step(0.5), &scalar::<f64>).expect("no event");
    assert!(!beyond.was_shortened());
    assert_eq!(beyond.event(), None);
    assert_eq!(beyond.step().as_time(), bits(0.5));

    let short = schedule.clip_step(start, step(0.1), &scalar::<f64>).expect("no event reached");
    assert!(!short.was_shortened());
    assert_eq!(short.event(), None);
    assert_eq!(short.step(), step(0.1));

    let empty = EventSchedule::new(&[]).expect("empty");
    let unchanged = empty.clip_step(start, step(0.3), &scalar::<f64>).expect("no events");
    assert!(!unchanged.was_shortened());
    assert_eq!(unchanged.event(), None);
    assert_eq!(unchanged.step(), step(0.3));
}

#[test]
fn clipping_reports_an_end_that_is_not_finite() {
    let events = [instant(f64::MAX)];
    let schedule = EventSchedule::new(&events).expect("sorted");
    assert_eq!(
        schedule.clip_step(instant(f64::MAX), step(f64::MAX), &scalar::<f64>).err(),
        Some(TimeError::NonFinite)
    );
}

#[test]
fn controller_validation_names_the_first_invalid_parameter() {
    let cases = [
        ([0.0, 1.0e-5, 0.9, 0.2, 5.0], AdaptiveParameter::AbsoluteTolerance),
        ([f64::NAN, 1.0e-5, 0.9, 0.2, 5.0], AdaptiveParameter::AbsoluteTolerance),
        ([1.0e-8, -1.0e-5, 0.9, 0.2, 5.0], AdaptiveParameter::RelativeTolerance),
        ([1.0e-8, f64::INFINITY, 0.9, 0.2, 5.0], AdaptiveParameter::RelativeTolerance),
        ([1.0e-8, 1.0e-5, 1.5, 0.2, 5.0], AdaptiveParameter::SafetyFactor),
        ([1.0e-8, 1.0e-5, 0.0, 0.2, 5.0], AdaptiveParameter::SafetyFactor),
        ([1.0e-8, 1.0e-5, 0.9, 0.0, 5.0], AdaptiveParameter::MinimumScale),
        ([1.0e-8, 1.0e-5, 0.9, 1.5, 5.0], AdaptiveParameter::MinimumScale),
        ([1.0e-8, 1.0e-5, 0.9, 0.2, 0.5], AdaptiveParameter::MaximumScale),
        ([1.0e-8, 1.0e-5, 0.9, 0.2, f64::INFINITY], AdaptiveParameter::MaximumScale),
        ([-1.0, -1.0, 2.0, 0.0, 0.5], AdaptiveParameter::AbsoluteTolerance),
    ];
    for (parameters, named) in cases {
        let [absolute, relative, safety, minimum, maximum] = parameters.map(bits);
        assert_eq!(
            AdaptiveController::new(absolute, relative, safety, minimum, maximum).err(),
            Some(AdaptiveError::InvalidParameter(named)),
            "{parameters:?}"
        );
    }
    assert!(AdaptiveController::new(bits(1.0e-8), bits(0.0), bits(1.0), bits(1.0), bits(1.0)).is_ok());
}

#[test]
fn controller_accepts_exactly_when_the_normalized_error_is_at_most_one() {
    let controller = controller();
    let h = step(0.1);
    // tolerance = 1e-5 * 1 + 1e-8.
    let tolerance = 1.0e-5_f64.mul_add(1.0, 1.0e-8);
    let accepted = controller.assess::<4, _>(h, bits(tolerance), bits(1.0), &scalar::<f64>).expect("finite");
    assert_eq!(value(accepted.normalized_error()), 1.0);
    assert_eq!(accepted.decision(), StepDecision::Accept);
    let rejected = controller
        .assess::<4, _>(h, bits(2.0 * tolerance), bits(-1.0), &scalar::<f64>)
        .expect("finite");
    assert_eq!(value(rejected.normalized_error()), 2.0);
    assert_eq!(rejected.decision(), StepDecision::Reject);
    // scale = 0.9 / 2^(1/5), inside [0.2, 5].
    let expected_scale = 0.9 / 2.0_f64.powf(1.0 / 5.0);
    assert_eq!(value(rejected.scale()), expected_scale);
    assert_eq!(rejected.suggested_step().as_time(), bits(0.1 * expected_scale));
}

#[test]
fn controller_scale_stays_within_its_limits() {
    let controller = controller();
    let h = step(0.1);
    let zero = controller.assess::<4, _>(h, bits(0.0), bits(1.0), &scalar::<f64>).expect("finite");
    assert_eq!(zero.decision(), StepDecision::Accept);
    assert_eq!(zero.scale(), bits(5.0));
    assert_eq!(zero.suggested_step().as_time(), bits(0.1 * 5.0));
    let negative_zero = controller.assess::<4, _>(h, bits(-0.0), bits(1.0), &scalar::<f64>).expect("finite");
    assert_eq!(negative_zero.scale(), bits(5.0));
    let tiny = controller.assess::<4, _>(h, bits(1.0e-30), bits(1.0), &scalar::<f64>).expect("finite");
    assert_eq!(tiny.scale(), bits(5.0));
    let huge = controller.assess::<4, _>(h, bits(1.0e10), bits(1.0), &scalar::<f64>).expect("finite");
    assert_eq!(huge.decision(), StepDecision::Reject);
    assert_eq!(huge.scale(), bits(0.2));
}

#[test]
fn controller_reports_each_failure() {
    let controller = controller();
    let h = step(0.1);
    assert_eq!(
        controller.assess::<4, _>(h, bits(f64::NAN), bits(1.0), &scalar::<f64>).err(),
        Some(AdaptiveError::NonFiniteObservation)
    );
    assert_eq!(
        controller.assess::<4, _>(h, bits(1.0), bits(f64::INFINITY), &scalar::<f64>).err(),
        Some(AdaptiveError::NonFiniteObservation)
    );
    assert_eq!(
        controller.assess::<0, _>(h, bits(1.0), bits(1.0), &scalar::<f64>).err(),
        Some(AdaptiveError::InvalidOrder)
    );
    assert_eq!(
        controller.assess::<4294967295, _>(h, bits(1.0), bits(1.0), &scalar::<f64>).err(),
        Some(AdaptiveError::InvalidOrder)
    );
    assert_eq!(
        controller.assess::<4294967296, _>(h, bits(1.0), bits(1.0), &scalar::<f64>).err(),
        Some(AdaptiveError::InvalidOrder)
    );
    // A NaN observation is reported before an invalid order.
    assert_eq!(
        controller.assess::<0, _>(h, bits(f64::NAN), bits(1.0), &scalar::<f64>).err(),
        Some(AdaptiveError::NonFiniteObservation)
    );
    let overflow = AdaptiveController::new(bits(1.0e-8), bits(f64::MAX), bits(0.9), bits(0.2), bits(5.0))
        .expect("valid");
    assert_eq!(
        overflow.assess::<4, _>(h, bits(1.0), bits(2.0), &scalar::<f64>).err(),
        Some(AdaptiveError::NonFiniteTolerance)
    );
    let tiny_step = step(5.0e-324);
    assert_eq!(
        controller.assess::<4, _>(tiny_step, bits(1.0e10), bits(1.0), &scalar::<f64>).err(),
        Some(AdaptiveError::SuggestedStep(TimeError::NonPositiveStep))
    );
    let huge_step = step(f64::MAX);
    assert_eq!(
        controller.assess::<4, _>(huge_step, bits(0.0), bits(1.0), &scalar::<f64>).err(),
        Some(AdaptiveError::SuggestedStep(TimeError::NonFinite))
    );
}

#[test]
fn subcycle_ratios_are_validated() {
    assert_eq!(SubcyclePlan::<0>::new().err(), Some(SubcycleError::ZeroRatio));
    assert_eq!(SubcyclePlan::<4294967296>::new().err(), Some(SubcycleError::RatioTooLarge));
    assert_eq!(validate_ratio::<4294967295>(), Ok(u32::MAX));
    assert_eq!(validate_ratio::<0>(), Err(SubcycleError::ZeroRatio));
    let plan = SubcyclePlan::<4>::new().expect("valid");
    assert_eq!(plan.ratio(), 4);
    let child = plan.child_step(step(1.0), &scalar::<f64>).expect("positive");
    assert_eq!(child.as_time(), bits(0.25));
    let three = SubcyclePlan::<3>::new().expect("valid");
    let third = three.child_step(step(1.0), &scalar::<f64>).expect("positive");
    assert_eq!(third.as_time(), bits(1.0 * (1.0 / 3.0)));
    assert_eq!(
        SubcyclePlan::<0>::new().map(|_| ()).err().map(|error| error.message()),
        Some("subcycle ratio must be nonzero".to_string())
    );
    let underflow = SubcyclePlan::<4>::new().expect("valid").child_step(step(5.0e-324), &scalar::<f64>);
    assert_eq!(underflow.err(), Some(SubcycleError::ChildStep(TimeError::NonPositiveStep)));
}

/// The exact sum of coefficients, as a reduced-free fraction `(numerator, denominator)`.
fn exact_sum(coefficients: impl Iterator<Item = Coefficient>) -> (i128, i128) {
    coefficients.fold((0, 1), |(numerator, denominator), next| {
        let next_denominator = i128::from(next.denominator);
        (
            numerator * next_denominator + i128::from(next.numerator) * denominator,
            denominator * next_denominator,
        )
    })
}

fn is_exactly(sum: (i128, i128), coefficient: Coefficient) -> bool {
    sum.0 * i128::from(coefficient.denominator) == i128::from(coefficient.numerator) * sum.1
}

#[test]
fn tableau_coefficients_are_consistent() {
    assert_eq!((Euler::order(), Midpoint::order(), Rk4::order(), DormandPrince::order()), (1, 2, 4, 5));
    let one = Coefficient { numerator: 1, denominator: 1 };
    assert!(is_exactly(exact_sum((0..1).map(Euler::b)), one));
    assert!(is_exactly(exact_sum((0..2).map(Midpoint::b)), one));
    assert!(is_exactly(exact_sum((0..4).map(Rk4::b)), one));
    assert!(is_exactly(exact_sum((0..7).map(DormandPrince::b)), one));
    for stage in 0..4 {
        assert!(is_exactly(exact_sum((0..stage).map(|j| Rk4::a(stage, j))), Rk4::c(stage)), "stage {stage}");
    }
    for stage in 0..7 {
        assert!(
            is_exactly(exact_sum((0..stage).map(|j| DormandPrince::a(stage, j))), DormandPrince::c(stage)),
            "stage {stage}"
        );
    }
    assert_eq!(ratio(Rk4::b(0)), 1.0 / 6.0);
    assert_eq!(ratio(Rk4::c(1)), 0.5);
    assert_eq!(ratio(Midpoint::a(1, 0)), 0.5);
    assert_eq!(ratio(DormandPrince::c(6)), 1.0);
    for j in 0..7 {
        assert_eq!(DormandPrince::a(6, j), DormandPrince::b(j), "first same as last at {j}");
    }
    assert_eq!(BackwardEuler::order(), 1);
}

#[test]
fn workspaces_reject_empty_and_overflowing_shapes() {
    assert_eq!(StepWorkspace::<u64, 4>::new(0).err(), Some(WorkspaceError::ZeroDimension));
    assert_eq!(StepWorkspace::<u64, 0>::new(3).err(), Some(WorkspaceError::ZeroStages));
    assert_eq!(StepWorkspace::<u64, 0>::new(0).err(), Some(WorkspaceError::ZeroDimension));
    assert_eq!(StepWorkspace::<u64, 2>::new(usize::MAX).err(), Some(WorkspaceError::CapacityOverflow));
    let workspace = StepWorkspace::<u64, 4>::new(3).expect("valid");
    assert_eq!((workspace.dimension(), workspace.stages()), (3, 4));
    assert_eq!(workspace.derivatives().len(), 12);
    assert_eq!(ImplicitWorkspace::<u64>::new(0).err(), Some(WorkspaceError::ZeroDimension));
    assert_eq!(ImplicitWorkspace::<u64>::new(usize::MAX).err(), Some(WorkspaceError::CapacityOverflow));
    assert_eq!(ImplicitWorkspace::<u64>::new(3).expect("valid").dimension(), 3);
}

#[test]
fn dimension_checks_name_the_role_and_both_lengths() {
    assert_eq!(ensure_dimension::<Infallible>(SliceRole::Output, 2, 2), Ok(()));
    assert_eq!(
        ensure_dimension::<Infallible>(SliceRole::Workspace, 2, 3),
        Err(StepError::DimensionMismatch { role: SliceRole::Workspace, expected: 2, actual: 3 })
    );
}

/// An evaluation failure with a display text.
#[derive(Clone, Debug, PartialEq)]
struct Refused;

impl fmt::Display for Refused {
    fn fmt(&self, formatter: &mut fmt::Formatter<'_>) -> fmt::Result {
        formatter.write_str("refused")
    }
}

#[test]
fn messages_render_each_error() {
    assert_eq!(TimeError::NonFinite.message(), "simulation time must be finite");
    assert_eq!(TimeError::NonPositiveStep.message(), "step size must be greater than zero");
    assert_eq!(
        ScheduleError::Unsorted { index: 0 }.message(),
        "event schedule is unsorted at index 0"
    );
    assert_eq!(
        ScheduleError::Unsorted { index: 1207 }.message(),
        "event schedule is unsorted at index 1207"
    );
    assert_eq!(
        AdaptiveError::InvalidParameter(AdaptiveParameter::SafetyFactor).message(),
        "invalid adaptive parameter: SafetyFactor"
    );
    assert_eq!(AdaptiveParameter::AbsoluteTolerance.name(), "AbsoluteTolerance");
    assert_eq!(AdaptiveParameter::MaximumScale.name(), "MaximumScale");
    assert_eq!(AdaptiveError::NonFiniteObservation.message(), "adaptive error observations must be finite");
    assert_eq!(AdaptiveError::NonFiniteTolerance.message(), "adaptive mixed tolerance must remain finite");
    assert_eq!(AdaptiveError::InvalidOrder.message(), "adaptive method order must be in 1..=u32::MAX");
    assert_eq!(
        AdaptiveError::SuggestedStep(TimeError::NonFinite).message(),
        "invalid suggested step: simulation time must be finite"
    );
    assert_eq!(SubcycleError::RatioTooLarge.message(), "subcycle ratio exceeds u32::MAX");
    assert_eq!(
        SubcycleError::ChildStep(TimeError::NonPositiveStep).message(),
        "invalid child step: step size must be greater than zero"
    );
    assert_eq!(WorkspaceError::ZeroDimension.message(), "workspace dimension must be nonzero");
    assert_eq!(WorkspaceError::CapacityOverflow.message(), "workspace stage capacity overflowed");
    assert_eq!(WorkspaceError::ZeroStages.message(), "workspace stage count must be nonzero");
    assert_eq!(
        StepError::<Refused>::DimensionMismatch { role: SliceRole::Output, expected: 3, actual: 10 }.message(),
        "Output dimension mismatch: expected 3, observed 10"
    );
    assert_eq!(
        StepError::<Refused>::DimensionMismatch { role: SliceRole::ErrorEstimate, expected: 1, actual: 0 }
            .message(),
        "ErrorEstimate dimension mismatch: expected 1, observed 0"
    );
    assert_eq!(
        StepError::<Refused>::Time(TimeError::NonFinite).message(),
        "step time is invalid: simulation time must be finite"
    );
    assert_eq!(StepError::System(Refused).message(), "system evaluation failed: refused");
    assert_eq!(SolveError::NonConvergence.message(), "Newton iteration did not converge");
    assert_eq!(SolveError::SingularMatrix.message(), "Newton matrix was singular");
    assert_eq!(
        ImplicitStepError::<Refused>::Solve(SolveError::SingularMatrix).message(),
        "implicit solve failed: Newton matrix was singular"
    );
    assert_eq!(
        ImplicitStepError::<Refused>::DimensionMismatch { role: SliceRole::Workspace, expected: 2, actual: 1 }
            .message(),
        "Workspace dimension mismatch: expected 2, observed 1"
    );
    assert_eq!(
        ImplicitStepError::<Refused>::Time(TimeError::NonFinite).message(),
        "step time is invalid: simulation time must be finite"
    );
    assert_eq!(ImplicitStepError::System(Refused).message(), "system evaluation failed: refused");
}

#[test]
fn decimal_text_has_no_leading_zeros() {
    for number in [0usize, 7, 10, 99, 100, 4096, usize::MAX] {
        let mut text = String::from("#");
        push_decimal(&mut text, number);
        assert_eq!(text, format!("#{number}"));
    }
}

/// `y' = -y`, as in the package's worked example.
struct Decay;

impl ExplicitSystem<u64> for Decay {
    type Error = Infallible;

    fn evaluate(&self, _time: Instant, state: &[u64], derivative: &mut [u64]) -> Result<(), Self::Error> {
        for (rate, state_value) in derivative.iter_mut().zip(state) {
            *rate = bits(-value(*state_value));
        }
        Ok(())
    }
}

#[test]
fn rk4_decay_example_matches_the_exponential() {
    let start = instant(0.0);
    let h = step(0.1);
    let mut workspace = StepWorkspace::<u64, 4>::new(1).expect("valid");
    let mut next = [0u64];
    let report = step_into(&Decay, Rk4, start, h, &[bits(1.0)], &mut next, &mut workspace, &scalar::<f64>)
        .expect("infallible system");
    assert_eq!(report.evaluations(), 4);
    assert_eq!(report.start(), start);
    assert_eq!(report.step(), h);
    assert_eq!(report.end(), instant(0.1));
    let truncation_bound = 0.1_f64.powi(5) / 120.0;
    let rounding_bound = 32.0 * f64::EPSILON;
    assert!((value(next[0]) - (-0.1_f64).exp()).abs() <= truncation_bound + rounding_bound);
}

#[test]
fn an_event_clipped_step_feeds_the_controller_and_the_subcycle_plan() {
    let start = instant(0.0);
    let events = [instant(0.25)];
    let schedule = EventSchedule::new(&events).expect("sorted");
    let clipped = schedule.clip_step(start, step(0.3), &scalar::<f64>).expect("valid clip");
    assert!(clipped.was_shortened());
    assert_eq!(clipped.step(), step(0.25));

    let mut workspace = StepWorkspace::<u64, 4>::new(1).expect("valid");
    let mut next = [0u64];
    let report = step_into(
        &Decay,
        Rk4,
        start,
        clipped.step(),
        &[bits(1.0)],
        &mut next,
        &mut workspace,
        &scalar::<f64>,
    )
    .expect("infallible system");
    assert_eq!(report.end(), events[0]);
    assert!((value(next[0]) - (-0.25_f64).exp()).abs() <= 1.0e-5);

    let adaptive = controller()
        .assess::<4, _>(clipped.step(), bits(2.0e-7), next[0], &scalar::<f64>)
        .expect("finite");
    assert_eq!(adaptive.decision(), StepDecision::Accept);
    assert!(value(adaptive.suggested_step().as_time()) > 0.25);

    let fine = SubcyclePlan::<4>::new()
        .expect("valid")
        .child_step(clipped.step(), &scalar::<f64>)
        .expect("positive");
    assert_eq!(fine.as_time(), bits(0.0625));
}

#[test]
fn a_rejected_step_is_never_proposed_longer() {
    let controller = AdaptiveController::new(bits(1.0e-8), bits(1.0e-5), bits(1.0), bits(0.2), bits(5.0))
        .expect("valid");
    let h = step(0.125);
    for error in [1.0011e-5, 2.0e-5, 1.0e-3, 1.0, 1.0e300, f64::MAX] {
        let report = controller.assess::<4, _>(h, bits(error), bits(1.0), &scalar::<f64>).expect("finite");
        assert_eq!(report.decision(), StepDecision::Reject, "error {error}");
        assert!(value(report.suggested_step().as_time()) <= 0.125, "error {error}");
        assert!(value(report.scale()) >= 0.2 && value(report.scale()) <= 1.0, "error {error}");
    }
}

#[test]
fn advancing_never_moves_an_instant_backwards() {
    let large = instant(1.0e16);
    let end = large.advance(step(1.0), &scalar::<f64>).expect("finite");
    assert_eq!(end, large);
    assert_eq!(end.as_time(), bits(1.0e16));
    let end = instant(-1.0).advance(step(0.25), &scalar::<f64>).expect("finite");
    assert_eq!(end.as_time(), bits(-0.75));
}

#[test]
fn a_child_step_is_never_longer_than_its_parent() {
    let plan = SubcyclePlan::<7>::new().expect("valid");
    for parent in [1.0e-300, 0.1, 1.0, 3.0, 1.0e300] {
        let child = plan.child_step(step(parent), &scalar::<f64>).expect("positive");
        assert!(value(child.as_time()) <= parent);
        assert_eq!(child.as_time(), bits(parent * (1.0 / 7.0)));
    }
    let single = SubcyclePlan::<1>::new().expect("valid");
    assert_eq!(single.child_step(step(0.3), &scalar::<f64>).expect("positive"), step(0.3));
}

#[test]
fn a_step_past_the_finite_range_is_a_time_error() {
    for (start, h) in [(f64::MAX, f64::MAX), (1.0e308, 1.0e308)] {
        let mut workspace = StepWorkspace::<u64, 4>::new(1).expect("valid");
        let mut next = [0u64];
        let result = step_into(
            &Decay,
            Rk4,
            instant(start),
            step(h),
            &[bits(1.0)],
            &mut next,
            &mut workspace,
            &scalar::<f64>,
        );
        assert_eq!(result.err(), Some(StepError::Time(TimeError::NonFinite)));
    }
    let mut workspace = StepWorkspace::<u64, 1>::new(1).expect("valid");
    let mut next = [0u64];
    let result = step_into(
        &Decay,
        Euler,
        instant(f64::MAX),
        step(f64::MAX),
        &[bits(1.0)],
        &mut next,
        &mut workspace,
        &scalar::<f64>,
    );
    assert_eq!(result.err(), Some(StepError::Time(TimeError::NonFinite)));
}

#[test]
fn below_unit_safety_a_rejected_step_is_proposed_strictly_shorter() {
    let controller = AdaptiveController::new(bits(1.0e-8), bits(1.0e-5), bits(0.999), bits(0.5), bits(5.0))
        .expect("valid");
    let h = step(0.125);
    for error in [1.0011e-5, 1.0e-3, f64::MAX] {
        let report = controller.assess::<4, _>(h, bits(error), bits(1.0), &scalar::<f64>).expect("finite");
        assert_eq!(report.decision(), StepDecision::Reject, "error {error}");
        assert!(value(report.suggested_step().as_time()) < 0.125, "error {error}");
    }
}
