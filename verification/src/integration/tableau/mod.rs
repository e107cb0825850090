//! Const-generic explicit Runge--Kutta tableaus with exact rational
//! coefficients.
pub mod laws;
pub mod methods;
pub mod model;
pub(crate) mod sealed;

pub use methods::{DormandPrince, Euler, Midpoint, Rk4};
pub use model::{Coefficient, EmbeddedExplicitTableau, ExplicitTableau};
