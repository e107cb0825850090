use vstd::prelude::*;
use vstd::string::StringExecFns;

verus! {

/// Failure to construct a valid simulation-time value.
#[derive(Clone, Copy, Debug, PartialEq, Eq, Structural)]
#[non_exhaustive]
pub enum TimeError {
    /// A time value is NaN or infinite.
    NonFinite,
    /// A step size is zero or negative.
    NonPositiveStep,
}

impl TimeError {
    /// The diagnostic text of the error.
    pub open spec fn spec_message(self) -> Seq<char> {
        match self {
            TimeError::NonFinite => "simulation time must be finite"@,
            TimeError::NonPositiveStep => "step size must be greater than zero"@,
        }
    }

    /// The diagnostic text of the error.
    pub fn message(&self) -> (r: String)
        ensures
            r@ == self.spec_message(),
    {
        match self {
            TimeError::NonFinite => String::from_str("simulation time must be finite"),
            TimeError::NonPositiveStep => String::from_str("step size must be greater than zero"),
        }
    }
}

} // verus!
