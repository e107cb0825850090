//! Compile-time subcycle ratios.
pub mod error;
pub mod plan;

pub use error::SubcycleError;
pub use plan::SubcyclePlan;
