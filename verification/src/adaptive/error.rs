use vstd::prelude::*;
use vstd::string::StringExecFns;

use crate::time::TimeError;
use super::AdaptiveParameter;

verus! {

/// Invalid adaptive-controller configuration or observation.
#[derive(Clone, Copy, Debug, PartialEq, Eq, Structural)]
#[non_exhaustive]
pub enum AdaptiveError {
    /// A named controller parameter violates its finite range.
    InvalidParameter(AdaptiveParameter),
    /// An observed absolute error or reference scale is not finite.
    NonFiniteObservation,
    /// Mixed absolute-relative tolerance overflowed the scalar range.
    NonFiniteTolerance,
    /// The const-generic method order is zero or exceeds `u32`.
    InvalidOrder,
    /// The suggested scaled step is not representable.
    SuggestedStep(TimeError),
}

impl AdaptiveError {
    /// The diagnostic text of the error.
    pub open spec fn spec_message(self) -> Seq<char> {
        match self {
            AdaptiveError::InvalidParameter(parameter) => "invalid adaptive parameter: "@
                + parameter.spec_name(),
            AdaptiveError::NonFiniteObservation => "adaptive error observations must be finite"@,
            AdaptiveError::NonFiniteTolerance => "adaptive mixed tolerance must remain finite"@,
            AdaptiveError::InvalidOrder => "adaptive method order must be in 1..=u32::MAX"@,
            AdaptiveError::SuggestedStep(error) => "invalid suggested step: "@
                + error.spec_message(),
        }
    }

    /// The diagnostic text of the error.
    pub fn message(&self) -> (r: String)
        ensures
            r@ == self.spec_message(),
    {
        match self {
            AdaptiveError::InvalidParameter(parameter) => String::from_str(
                "invalid adaptive parameter: ",
            ).concat(parameter.name()),
            AdaptiveError::NonFiniteObservation => String::from_str(
                "adaptive error observations must be finite",
            ),
            AdaptiveError::NonFiniteTolerance => String::from_str(
                "adaptive mixed tolerance must remain finite",
            ),
            AdaptiveError::InvalidOrder => String::from_str(
                "adaptive method order must be in 1..=u32::MAX",
            ),
            AdaptiveError::SuggestedStep(error) => {
                let detail = error.message();
                String::from_str("invalid suggested step: ").concat(detail.as_str())
            },
        }
    }
}

} // verus!
