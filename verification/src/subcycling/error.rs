use vstd::prelude::*;
use vstd::string::StringExecFns;

use crate::time::TimeError;

verus! {

/// Invalid const-generic subcycle ratio or derived child step.
#[derive(Clone, Copy, Debug, PartialEq, Eq, Structural)]
#[non_exhaustive]
pub enum SubcycleError {
    /// A zero ratio cannot partition a parent step.
    ZeroRatio,
    /// Ratios above `u32::MAX` cannot be converted exactly to coefficient
    /// metadata by this policy.
    RatioTooLarge,
    /// The child step underflowed or otherwise became invalid.
    ChildStep(TimeError),
}

impl SubcycleError {
    /// The diagnostic text of the error.
    pub open spec fn spec_message(self) -> Seq<char> {
        match self {
            SubcycleError::ZeroRatio => "subcycle ratio must be nonzero"@,
            SubcycleError::RatioTooLarge => "subcycle ratio exceeds u32::MAX"@,
            SubcycleError::ChildStep(error) => "invalid child step: "@ + error.spec_message(),
        }
    }

    /// The diagnostic text of the error.
    pub fn message(&self) -> (r: String)
        ensures
            r@ == self.spec_message(),
    {
        match self {
            SubcycleError::ZeroRatio => String::from_str("subcycle ratio must be nonzero"),
            SubcycleError::RatioTooLarge => String::from_str("subcycle ratio exceeds u32::MAX"),
            SubcycleError::ChildStep(error) => {
                let detail = error.message();
                String::from_str("invalid child step: ").concat(detail.as_str())
            },
        }
    }
}

} // verus!
