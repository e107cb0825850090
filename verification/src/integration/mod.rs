//! Explicit Runge--Kutta tableaus, step workspaces, step reports and the
//! implicit-step policy.
pub mod dense;
pub mod error;
pub mod implicit;
pub mod repeatability;
pub mod report;
pub mod stepper;
pub mod tableau;
pub mod workspace;

pub use error::{SliceRole, StepError, WorkspaceError};
pub use report::StepReport;
pub use workspace::StepWorkspace;
pub use stepper::{EmbeddedOutputs, ensure_dimension, step_embedded_into, step_into};
pub use implicit::{
    BackwardEuler, ImplicitMethod, ImplicitStepError, ImplicitWorkspace, MAX_NEWTON_ITERATIONS,
    SolveError, step_implicit_into,
};
