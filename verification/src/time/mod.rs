//! Typed simulation-time values.
pub mod error;
pub mod instant;
pub mod order;
pub mod step_size;

pub use error::TimeError;
pub use instant::Instant;
pub use step_size::StepSize;
