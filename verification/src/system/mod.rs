//! System contracts supplied by callers: explicit right-hand sides and
//! their Jacobians.
pub mod explicit;
pub mod implicit;

pub use explicit::ExplicitSystem;
pub use implicit::ImplicitSystem;
