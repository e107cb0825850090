//! Time-integration policy: typed simulation time, event scheduling,
//! adaptive step control, explicit Runge--Kutta tableaus and workspaces,
//! and subcycle ratios.
//!
//! Scalar values are carried as IEEE 754 binary64 bit patterns (`u64`).
//! The library decides on them (classification, ordering, selection) and
//! leaves every rounding arithmetic operation to the caller's scalar through
//! [`binary64::ScalarOp`].
use vstd::prelude::*;

pub mod adaptive;
pub mod binary64;
pub mod events;
pub mod integration;
pub mod subcycling;
pub mod system;
pub mod text;
pub mod time;

verus! {

} // verus!
