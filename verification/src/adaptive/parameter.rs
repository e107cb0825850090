use vstd::prelude::*;
use vstd::string::StringExecFns;

verus! {

/// Named adaptive-controller parameter for validation diagnostics.
#[derive(Clone, Copy, Debug, PartialEq, Eq, Structural)]
#[non_exhaustive]
pub enum AdaptiveParameter {
    /// Absolute error tolerance.
    AbsoluteTolerance,
    /// Relative error tolerance.
    RelativeTolerance,
    /// Conservative scale multiplier.
    SafetyFactor,
    /// Smallest permitted step scale.
    MinimumScale,
    /// Largest permitted step scale.
    MaximumScale,
}

impl AdaptiveParameter {
    /// The name of the parameter.
    pub open spec fn spec_name(self) -> Seq<char> {
        match self {
            AdaptiveParameter::AbsoluteTolerance => "AbsoluteTolerance"@,
            AdaptiveParameter::RelativeTolerance => "RelativeTolerance"@,
            AdaptiveParameter::SafetyFactor => "SafetyFactor"@,
            AdaptiveParameter::MinimumScale => "MinimumScale"@,
            AdaptiveParameter::MaximumScale => "MaximumScale"@,
        }
    }

    /// The name of the parameter.
    pub fn name(&self) -> (r: &'static str)
        ensures
            r@ == self.spec_name(),
    {
        match self {
            AdaptiveParameter::AbsoluteTolerance => "AbsoluteTolerance",
            AdaptiveParameter::RelativeTolerance => "RelativeTolerance",
            AdaptiveParameter::SafetyFactor => "SafetyFactor",
            AdaptiveParameter::MinimumScale => "MinimumScale",
            AdaptiveParameter::MaximumScale => "MaximumScale",
        }
    }
}

} // verus!
