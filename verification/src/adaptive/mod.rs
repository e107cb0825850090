//! Adaptive step acceptance and size-control policy.
pub mod controller;
pub mod decision;
pub mod error;
pub mod parameter;
pub mod report;

pub use controller::AdaptiveController;
pub use decision::StepDecision;
pub use error::AdaptiveError;
pub use parameter::AdaptiveParameter;
pub use report::AdaptiveReport;
