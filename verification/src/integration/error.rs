use vstd::prelude::*;
use vstd::string::StringExecFns;

use crate::text::{decimal, push_decimal};
use crate::time::TimeError;
use vstd::string::to_string_from_display_ensures;

verus! {

/// Slice participating in a failed step-shape check.
#[derive(Clone, Copy, Debug, PartialEq, Eq, Structural)]
#[non_exhaustive]
pub enum SliceRole {
    /// Caller-owned output state.
    Output,
    /// Caller-owned local-error estimate of an embedded step.
    ErrorEstimate,
    /// Workspace state dimension.
    Workspace,
}

/// Failure to allocate a structurally valid step workspace.
#[derive(Clone, Copy, Debug, PartialEq, Eq, Structural)]
#[non_exhaustive]
pub enum WorkspaceError {
    /// A zero-dimensional state has no integration contract.
    ZeroDimension,
    /// The flattened workspace capacity overflowed `usize`.
    CapacityOverflow,
    /// A zero-stage tableau cannot evaluate a system.
    ZeroStages,
}

/// Failure to complete one explicit step.
#[derive(Clone, Debug, PartialEq)]
#[non_exhaustive]
pub enum StepError<E> {
    /// A state, output, or workspace dimension differs from the input state.
    DimensionMismatch {
        /// Slice or workspace with the mismatched dimension.
        role: SliceRole,
        /// Required dimension.
        expected: usize,
        /// Observed dimension.
        actual: usize,
    },
    /// A stage time or end time was not representable as a finite instant.
    Time(TimeError),
    /// The explicit system rejected an evaluation.
    System(E),
}

impl SliceRole {
    /// The name of the role.
    pub open spec fn spec_name(self) -> Seq<char> {
        match self {
            SliceRole::Output => "Output"@,
            SliceRole::ErrorEstimate => "ErrorEstimate"@,
            SliceRole::Workspace => "Workspace"@,
        }
    }

    /// The name of the role.
    pub fn name(&self) -> (r: &'static str)
        ensures
            r@ == self.spec_name(),
    {
        match self {
            SliceRole::Output => "Output",
            SliceRole::ErrorEstimate => "ErrorEstimate",
            SliceRole::Workspace => "Workspace",
        }
    }
}

impl WorkspaceError {
    /// The diagnostic text of the error.
    pub open spec fn spec_message(self) -> Seq<char> {
        match self {
            WorkspaceError::ZeroDimension => "workspace dimension must be nonzero"@,
            WorkspaceError::CapacityOverflow => "workspace stage capacity overflowed"@,
            WorkspaceError::ZeroStages => "workspace stage count must be nonzero"@,
        }
    }

    /// The diagnostic text of the error.
    pub fn message(&self) -> (r: String)
        ensures
            r@ == self.spec_message(),
    {
        match self {
            WorkspaceError::ZeroDimension => String::from_str("workspace dimension must be nonzero"),
            WorkspaceError::CapacityOverflow => String::from_str("workspace stage capacity overflowed"),
            WorkspaceError::ZeroStages => String::from_str("workspace stage count must be nonzero"),
        }
    }
}

/// The diagnostic text of a dimension mismatch.
pub open spec fn mismatch_message(role: SliceRole, expected: usize, actual: usize) -> Seq<char> {
    role.spec_name() + " dimension mismatch: expected "@ + decimal(expected as nat) + ", observed "@
        + decimal(actual as nat)
}

/// Render a dimension mismatch.
pub fn mismatch_text(role: SliceRole, expected: usize, actual: usize) -> (r: String)
    ensures
        r@ == mismatch_message(role, expected, actual),
{
    let mut text = String::from_str(role.name());
    text.append(" dimension mismatch: expected ");
    push_decimal(&mut text, expected);
    text.append(", observed ");
    push_decimal(&mut text, actual);
    text
}

impl<E: core::fmt::Display> StepError<E> {
    /// The diagnostic text of the error; a system error contributes its own
    /// display text.
    pub fn message(&self) -> (r: String)
        ensures
            match self {
                StepError::DimensionMismatch { role, expected, actual } => r@ == mismatch_message(
                    *role,
                    *expected,
                    *actual,
                ),
                StepError::Time(error) => r@ == "step time is invalid: "@ + error.spec_message(),
                StepError::System(error) => exists|shown: String|
                    to_string_from_display_ensures::<E>(error, shown) && r@
                        == "system evaluation failed: "@ + shown@,
            },
    {
        match self {
            StepError::DimensionMismatch { role, expected, actual } => mismatch_text(
                *role,
                *expected,
                *actual,
            ),
            StepError::Time(error) => {
                let detail = error.message();
                String::from_str("step time is invalid: ").concat(detail.as_str())
            },
            StepError::System(error) => {
                let shown = error.to_string();
                String::from_str("system evaluation failed: ").concat(shown.as_str())
            },
        }
    }
}

} // verus!
