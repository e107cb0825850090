use vstd::prelude::*;

use crate::binary64::{
    computes, deterministic, eq, finite, is_finite, is_nan, is_positive_finite, less_equal, less_than, le, lt, magnitude, rounds_monotonically,
    spec_max_scalar, spec_min_scalar, total, ScalarOp,
    MIN_NORMAL_BITS, ONE_BITS, ZERO_BITS,
};
use crate::time::{StepSize, TimeError, step_size::step_outcome};
use super::{AdaptiveError, AdaptiveParameter, AdaptiveReport, StepDecision};

verus! {

/// The first controller parameter, in declaration order, outside its range:
/// absolute tolerance finite and above zero; relative tolerance finite and
/// not below zero; safety factor and minimum scale finite, above zero and at
/// most one; maximum scale finite and at least one, and not below the
/// minimum scale.
pub open spec fn first_invalid_parameter(
    absolute_tolerance: u64,
    relative_tolerance: u64,
    safety_factor: u64,
    minimum_scale: u64,
    maximum_scale: u64,
) -> Option<AdaptiveParameter> {
    if !(is_finite(absolute_tolerance) && lt(ZERO_BITS, absolute_tolerance)) {
        Some(AdaptiveParameter::AbsoluteTolerance)
    } else if !(is_finite(relative_tolerance) && le(ZERO_BITS, relative_tolerance)) {
        Some(AdaptiveParameter::RelativeTolerance)
    } else if !(is_finite(safety_factor) && lt(ZERO_BITS, safety_factor) && le(
        safety_factor,
        ONE_BITS,
    )) {
        Some(AdaptiveParameter::SafetyFactor)
    } else if !(is_finite(minimum_scale) && lt(ZERO_BITS, minimum_scale) && le(
        minimum_scale,
        ONE_BITS,
    )) {
        Some(AdaptiveParameter::MinimumScale)
    } else if !(is_finite(maximum_scale) && le(ONE_BITS, maximum_scale)) {
        Some(AdaptiveParameter::MaximumScale)
    } else if !le(minimum_scale, maximum_scale) {
        Some(AdaptiveParameter::MaximumScale)
    } else {
        None
    }
}

/// `raw` clamped first from below by `minimum`, then from above by `maximum`.
pub open spec fn clamp_scale(raw: u64, minimum: u64, maximum: u64) -> u64 {
    spec_min_scalar(spec_max_scalar(raw, minimum), maximum)
}

/// Clamping to the scale limits changes nothing inside them: for limits with
/// `0 < minimum <= maximum`, both finite, a raw scale within the limits is
/// kept as it is, one below the minimum (or NaN) becomes the minimum, and one
/// above the maximum becomes the maximum.
pub proof fn lemma_clamp_scale_limits(raw: u64, minimum: u64, maximum: u64)
    requires
        is_positive_finite(minimum),
        is_finite(maximum),
        le(minimum, maximum),
    ensures
        le(minimum, raw) && le(raw, maximum) ==> clamp_scale(raw, minimum, maximum) == raw,
        lt(raw, minimum) || is_nan(raw) ==> clamp_scale(raw, minimum, maximum) == minimum,
        lt(maximum, raw) ==> clamp_scale(raw, minimum, maximum) == maximum,
{
}

/// The parameters a controller accepts: `new` names no parameter (and so
/// returns a controller) exactly when the absolute tolerance is finite and
/// positive, the relative tolerance finite and at least zero, the safety
/// factor and the minimum scale finite, positive and at most one, and the
/// maximum scale finite, at least one and at least the minimum scale.
pub proof fn lemma_accepted_parameters(
    absolute_tolerance: u64,
    relative_tolerance: u64,
    safety_factor: u64,
    minimum_scale: u64,
    maximum_scale: u64,
)
    ensures
        first_invalid_parameter(
            absolute_tolerance,
            relative_tolerance,
            safety_factor,
            minimum_scale,
            maximum_scale,
        ) is None <==> {
            &&& is_positive_finite(absolute_tolerance)
            &&& is_finite(relative_tolerance) && le(ZERO_BITS, relative_tolerance)
            &&& is_positive_finite(safety_factor) && le(safety_factor, ONE_BITS)
            &&& is_positive_finite(minimum_scale) && le(minimum_scale, ONE_BITS)
            &&& is_finite(maximum_scale) && le(ONE_BITS, maximum_scale)
            &&& le(minimum_scale, maximum_scale)
        },
{
}

/// A raw scale that is NaN or at most one clamps to a scale above zero and at
/// most one, for limits with `0 < minimum <= 1 <= maximum`.
proof fn lemma_clamp_at_most_one(raw: u64, minimum: u64, maximum: u64)
    requires
        is_nan(raw) || le(raw, ONE_BITS),
        is_finite(minimum),
        lt(ZERO_BITS, minimum),
        le(minimum, ONE_BITS),
        is_finite(maximum),
        le(ONE_BITS, maximum),
    ensures
        lt(ZERO_BITS, clamp_scale(raw, minimum, maximum)),
        le(clamp_scale(raw, minimum, maximum), ONE_BITS),
{
}

/// A raw scale that is NaN or below one clamps below one, for limits with
/// `0 < minimum < 1 <= maximum`.
proof fn lemma_clamp_below_one(raw: u64, minimum: u64, maximum: u64)
    requires
        is_nan(raw) || lt(raw, ONE_BITS),
        is_finite(minimum),
        lt(ZERO_BITS, minimum),
        lt(minimum, ONE_BITS),
        is_finite(maximum),
        le(ONE_BITS, maximum),
    ensures
        lt(ZERO_BITS, clamp_scale(raw, minimum, maximum)),
        lt(clamp_scale(raw, minimum, maximum), ONE_BITS),
{
}

/// `Accept` exactly when `normalized_error <= 1`.
pub open spec fn decision_for(normalized_error: u64) -> StepDecision {
    if le(normalized_error, ONE_BITS) {
        StepDecision::Accept
    } else {
        StepDecision::Reject
    }
}

/// Whether `r` is the report (or error) obtained by scaling `step` by
/// `scale` through `arith`, with the given decision and normalized error.
pub open spec fn scaled_outcome<A: Fn(ScalarOp) -> u64>(
    r: Result<AdaptiveReport, AdaptiveError>,
    step: StepSize,
    scale: u64,
    decision: StepDecision,
    normalized_error: u64,
    arith: A,
) -> bool {
    exists|product: u64|
        {
            &&& computes(arith, ScalarOp::Mul(step@, scale), product)
            &&& match r {
                Ok(report) => {
                    &&& step_outcome(Ok(report.spec_suggested_step()), product)
                    &&& report.spec_decision() == decision
                    &&& report.spec_normalized_error() == normalized_error
                    &&& report.spec_scale() == scale
                },
                Err(error) => exists|time_error: TimeError|
                    step_outcome(Err(time_error), product) && error
                        == AdaptiveError::SuggestedStep(time_error),
            }
        }
}

/// What assessing `step` with the observation `(absolute_error,
/// reference_scale)` for a method of formal order `order` yields through
/// `arith`: [`AdaptiveError::NonFiniteObservation`] for a NaN or infinite
/// observation, then [`AdaptiveError::InvalidOrder`] unless
/// `1 <= order < u32::MAX`; otherwise the fused mixed tolerance
/// `relative * |reference_scale| + absolute`, [`AdaptiveError::NonFiniteTolerance`]
/// when it is not finite, and otherwise the normalized error
/// `|absolute_error| / tolerance`, whose decision is [`decision_for`] and
/// whose scale is the maximum scale for a zero error and otherwise
/// `safety / normalized_error^(1/(order + 1))` clamped to the scale limits;
/// the step scaled by that scale is the suggestion, or its validation error.
pub open spec fn assessment<A: Fn(ScalarOp) -> u64>(
    controller: AdaptiveController,
    order: usize,
    step: StepSize,
    absolute_error: u64,
    reference_scale: u64,
    arith: A,
    r: Result<AdaptiveReport, AdaptiveError>,
) -> bool {
    &&& !(is_finite(absolute_error) && is_finite(reference_scale)) ==> r == Err::<
        AdaptiveReport,
        AdaptiveError,
    >(AdaptiveError::NonFiniteObservation)
    &&& is_finite(absolute_error) && is_finite(reference_scale) && !(1 <= order < u32::MAX)
        ==> r == Err::<AdaptiveReport, AdaptiveError>(AdaptiveError::InvalidOrder)
    &&& is_finite(absolute_error) && is_finite(reference_scale) && 1 <= order < u32::MAX
        ==> exists|tolerance: u64|
        {
            &&& computes(
                arith,
                ScalarOp::MulAdd(
                    controller.spec_relative_tolerance(),
                    magnitude(reference_scale),
                    controller.spec_absolute_tolerance(),
                ),
                tolerance,
            )
            &&& !is_finite(tolerance) ==> r == Err::<AdaptiveReport, AdaptiveError>(
                AdaptiveError::NonFiniteTolerance,
            )
            &&& is_finite(tolerance) ==> exists|normalized_error: u64|
                {
                    &&& computes(
                        arith,
                        ScalarOp::Div(magnitude(absolute_error), tolerance),
                        normalized_error,
                    )
                    &&& eq(normalized_error, ZERO_BITS) ==> scaled_outcome(
                        r,
                        step,
                        controller.spec_maximum_scale(),
                        decision_for(normalized_error),
                        normalized_error,
                        arith,
                    )
                    &&& !eq(normalized_error, ZERO_BITS) ==> exists|root: u64, raw: u64|
                        {
                            &&& computes(
                                arith,
                                ScalarOp::Root(normalized_error, (order + 1) as u32),
                                root,
                            )
                            &&& computes(
                                arith,
                                ScalarOp::Div(controller.spec_safety_factor(), root),
                                raw,
                            )
                            &&& scaled_outcome(
                                r,
                                step,
                                clamp_scale(
                                    raw,
                                    controller.spec_minimum_scale(),
                                    controller.spec_maximum_scale(),
                                ),
                                decision_for(normalized_error),
                                normalized_error,
                                arith,
                            )
                        }
                }
        }
}

/// Whether two assessment results agree: both reports with the same
/// decision, normalized error, scale and suggested step, or the same error.
pub open spec fn same_assessment(
    first: Result<AdaptiveReport, AdaptiveError>,
    second: Result<AdaptiveReport, AdaptiveError>,
) -> bool {
    match (first, second) {
        (Ok(a), Ok(b)) => {
            &&& a.spec_decision() == b.spec_decision()
            &&& a.spec_normalized_error() == b.spec_normalized_error()
            &&& a.spec_scale() == b.spec_scale()
            &&& a.spec_suggested_step()@ == b.spec_suggested_step()@
        },
        (Err(a), Err(b)) => a == b,
        _ => false,
    }
}

/// With a deterministic scalar, an assessment is a function of the
/// controller, the order, the step and the observation: assessing the same
/// step twice gives the same decision, error, scale and suggestion.
pub proof fn lemma_assessment_unique<A: Fn(ScalarOp) -> u64>(
    controller: AdaptiveController,
    order: usize,
    step: StepSize,
    absolute_error: u64,
    reference_scale: u64,
    arith: A,
    first: Result<AdaptiveReport, AdaptiveError>,
    second: Result<AdaptiveReport, AdaptiveError>,
)
    requires
        deterministic(arith),
        assessment(controller, order, step, absolute_error, reference_scale, arith, first),
        assessment(controller, order, step, absolute_error, reference_scale, arith, second),
    ensures
        same_assessment(first, second),
{
}

/// Mixed absolute-relative adaptive step controller.
///
/// The caller supplies an aggregate absolute error and reference-state scale;
/// the controller applies `error / (absolute + relative * scale)`. It does
/// not own an embedded estimator or a state norm.
#[derive(Clone, Copy, Debug, PartialEq)]
pub struct AdaptiveController {
    absolute_tolerance: u64,
    relative_tolerance: u64,
    safety_factor: u64,
    minimum_scale: u64,
    maximum_scale: u64,
}

impl AdaptiveController {
    #[verifier::type_invariant]
    spec fn valid(self) -> bool {
        first_invalid_parameter(
            self.absolute_tolerance,
            self.relative_tolerance,
            self.safety_factor,
            self.minimum_scale,
            self.maximum_scale,
        ) is None
    }

    /// Absolute tolerance.
    pub closed spec fn spec_absolute_tolerance(self) -> u64 {
        if self.valid() { self.absolute_tolerance } else { ONE_BITS }
    }

    /// Relative tolerance.
    pub closed spec fn spec_relative_tolerance(self) -> u64 {
        if self.valid() { self.relative_tolerance } else { ZERO_BITS }
    }

    /// Safety factor.
    pub closed spec fn spec_safety_factor(self) -> u64 {
        if self.valid() { self.safety_factor } else { ONE_BITS }
    }

    /// Smallest permitted scale.
    pub closed spec fn spec_minimum_scale(self) -> u64 {
        if self.valid() { self.minimum_scale } else { ONE_BITS }
    }

    /// Largest permitted scale.
    pub closed spec fn spec_maximum_scale(self) -> u64 {
        if self.valid() { self.maximum_scale } else { ONE_BITS }
    }

    /// The parameters of every controller are within their ranges.
    pub proof fn lemma_valid(self)
        ensures
            first_invalid_parameter(
                self.spec_absolute_tolerance(),
                self.spec_relative_tolerance(),
                self.spec_safety_factor(),
                self.spec_minimum_scale(),
                self.spec_maximum_scale(),
            ) is None,
    {
    }

    /// Whatever the raw scale (NaN included), the clamped scale lies within
    /// the controller's scale limits, and so between `minimum` and `maximum`
    /// every scale the controller reports does.
    pub proof fn lemma_scale_within_limits(self, raw: u64)
        ensures
            le(self.spec_minimum_scale(), clamp_scale(raw, self.spec_minimum_scale(), self.spec_maximum_scale())),
            le(clamp_scale(raw, self.spec_minimum_scale(), self.spec_maximum_scale()), self.spec_maximum_scale()),
            le(self.spec_minimum_scale(), self.spec_maximum_scale()),
    {
    }

    /// Validate controller tolerances and scaling limits.
    ///
    /// Absolute tolerance, safety, and both scale limits must be finite and
    /// positive. Relative tolerance may be zero. Safety and minimum scale must
    /// not exceed one; maximum scale must be at least one.
    ///
    /// Returns [`AdaptiveError::InvalidParameter`] naming the first invalid
    /// input.
    pub fn new(
        absolute_tolerance: u64,
        relative_tolerance: u64,
        safety_factor: u64,
        minimum_scale: u64,
        maximum_scale: u64,
    ) -> (r: Result<Self, AdaptiveError>)
        ensures
            match first_invalid_parameter(
                absolute_tolerance,
                relative_tolerance,
                safety_factor,
                minimum_scale,
                maximum_scale,
            ) {
                Some(parameter) => r == Err::<Self, AdaptiveError>(
                    AdaptiveError::InvalidParameter(parameter),
                ),
                None => r matches Ok(controller) && {
                    &&& controller.spec_absolute_tolerance() == absolute_tolerance
                    &&& controller.spec_relative_tolerance() == relative_tolerance
                    &&& controller.spec_safety_factor() == safety_factor
                    &&& controller.spec_minimum_scale() == minimum_scale
                    &&& controller.spec_maximum_scale() == maximum_scale
                },
            },
    {
        require(
            finite(absolute_tolerance) && less_than(ZERO_BITS, absolute_tolerance),
            AdaptiveParameter::AbsoluteTolerance,
        )?;
        require(
            finite(relative_tolerance) && less_equal(ZERO_BITS, relative_tolerance),
            AdaptiveParameter::RelativeTolerance,
        )?;
        require(
            finite(safety_factor) && less_than(ZERO_BITS, safety_factor) && less_equal(
                safety_factor,
                ONE_BITS,
            ),
            AdaptiveParameter::SafetyFactor,
        )?;
        require(
            finite(minimum_scale) && less_than(ZERO_BITS, minimum_scale) && less_equal(
                minimum_scale,
                ONE_BITS,
            ),
            AdaptiveParameter::MinimumScale,
        )?;
        require(
            finite(maximum_scale) && less_equal(ONE_BITS, maximum_scale),
            AdaptiveParameter::MaximumScale,
        )?;
        require(less_equal(minimum_scale, maximum_scale), AdaptiveParameter::MaximumScale)?;
        Ok(AdaptiveController {
            absolute_tolerance,
            relative_tolerance,
            safety_factor,
            minimum_scale,
            maximum_scale,
        })
    }

    /// Assess a trial step for a method of const-generic formal `ORDER`.
    ///
    /// The suggested scale is `safety / normalized_error^(1/(ORDER + 1))`,
    /// clamped to the configured scale interval; a zero error selects the
    /// maximum scale directly. Every rounding operation is evaluated by
    /// `arith`: the mixed tolerance `relative * |reference_scale| + absolute`
    /// (fused), the normalized error `|absolute_error| / tolerance`, the root,
    /// the quotient by the safety factor, and the scaled step. With
    /// correctly rounded arithmetic the normalized error is never negative.
    ///
    /// Returns [`AdaptiveError::NonFiniteObservation`] for NaN or infinite
    /// observations, [`AdaptiveError::InvalidOrder`] unless
    /// `1 <= ORDER < u32::MAX`, [`AdaptiveError::NonFiniteTolerance`] when the
    /// mixed tolerance overflows, or [`AdaptiveError::SuggestedStep`] when
    /// scaling cannot produce a valid positive finite step.
    pub fn assess<const ORDER: usize, A: Fn(ScalarOp) -> u64>(
        &self,
        step: StepSize,
        absolute_error: u64,
        reference_scale: u64,
        arith: &A,
    ) -> (r: Result<AdaptiveReport, AdaptiveError>)
        requires
            total(*arith),
        ensures
            assessment(*self, ORDER, step, absolute_error, reference_scale, *arith, r),
            r matches Ok(report) ==> le(self.spec_minimum_scale(), report.spec_scale()) && le(
                report.spec_scale(),
                self.spec_maximum_scale(),
            ),
            r matches Ok(report) ==> (rounds_monotonically(*arith) ==> le(
                ZERO_BITS,
                report.spec_normalized_error(),
            )),
            r matches Ok(report) ==> (rounds_monotonically(*arith) && report.spec_decision()
                == StepDecision::Reject ==> le(report.spec_suggested_step()@, step@)),
            r matches Ok(report) ==> (rounds_monotonically(*arith) && report.spec_decision()
                == StepDecision::Reject && lt(self.spec_safety_factor(), ONE_BITS) && lt(
                self.spec_minimum_scale(),
                ONE_BITS,
            ) && MIN_NORMAL_BITS <= step@ ==> lt(report.spec_suggested_step()@, step@)),
    {
        proof {
            use_type_invariant(self);
            self.lemma_valid();
        }
        if !finite(absolute_error) || !finite(reference_scale) {
            return Err(AdaptiveError::NonFiniteObservation);
        }
        if ORDER > 0xffff_ffff {
            return Err(AdaptiveError::InvalidOrder);
        }
        let order = ORDER as u32;
        if order == 0 || order == u32::MAX {
            return Err(AdaptiveError::InvalidOrder);
        }
        let error = crate::binary64::abs(absolute_error);
        let scale_reference = crate::binary64::abs(reference_scale);
        let tolerance = arith(
            ScalarOp::MulAdd(self.relative_tolerance, scale_reference, self.absolute_tolerance),
        );
        if !finite(tolerance) {
            return Err(AdaptiveError::NonFiniteTolerance);
        }
        let normalized_error = arith(ScalarOp::Div(error, tolerance));
        proof {
            if rounds_monotonically(*arith) {
                assert(computes(
                    *arith,
                    ScalarOp::MulAdd(self.relative_tolerance, scale_reference, self.absolute_tolerance),
                    tolerance,
                ));
                assert(le(self.absolute_tolerance, tolerance));
                assert(computes(*arith, ScalarOp::Div(error, tolerance), normalized_error));
                assert(le(ZERO_BITS, normalized_error));
            }
        }
        let decision = if less_equal(normalized_error, ONE_BITS) {
            StepDecision::Accept
        } else {
            StepDecision::Reject
        };
        let scale = if crate::binary64::equal(normalized_error, ZERO_BITS) {
            proof {
                self.lemma_scale_within_limits(self.maximum_scale);
            }
            self.maximum_scale
        } else {
            let root = arith(ScalarOp::Root(normalized_error, order + 1));
            let raw = arith(ScalarOp::Div(self.safety_factor, root));
            let scale = crate::binary64::min_scalar(
                crate::binary64::max_scalar(raw, self.minimum_scale),
                self.maximum_scale,
            );
            proof {
                assert((ORDER + 1) as u32 == order + 1);
                assert(computes(*arith, ScalarOp::Root(normalized_error, (ORDER + 1) as u32), root));
                assert(computes(*arith, ScalarOp::Div(self.spec_safety_factor(), root), raw));
                self.lemma_scale_within_limits(raw);
                if rounds_monotonically(*arith) && !le(normalized_error, ONE_BITS) {
                    if !is_nan(normalized_error) {
                        assert(lt(ONE_BITS, normalized_error));
                    }
                    lemma_clamp_at_most_one(raw, self.minimum_scale, self.maximum_scale);
                    if lt(self.safety_factor, ONE_BITS) && lt(self.minimum_scale, ONE_BITS) {
                        if !is_nan(raw) {
                            crate::binary64::lemma_transitive(raw, self.safety_factor, ONE_BITS);
                            assert(lt(raw, ONE_BITS));
                        }
                        lemma_clamp_below_one(raw, self.minimum_scale, self.maximum_scale);
                    }
                }
            }
            scale
        };
        proof {
            step.lemma_positive();
        }
        let result = match step.scaled(scale, arith) {
            Ok(suggested_step) => Ok(AdaptiveReport::new(decision, normalized_error, scale, suggested_step)),
            Err(error) => Err(AdaptiveError::SuggestedStep(error)),
        };
        result
    }
}

/// `Ok(())` when `condition` holds, otherwise the invalid `parameter`.
pub fn require(condition: bool, parameter: AdaptiveParameter) -> (r: Result<(), AdaptiveError>)
    ensures
        condition ==> r is Ok,
        !condition ==> r == Err::<(), AdaptiveError>(AdaptiveError::InvalidParameter(parameter)),
{
    if condition {
        Ok(())
    } else {
        Err(AdaptiveError::InvalidParameter(parameter))
    }
}

} // verus!
