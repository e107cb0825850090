use vstd::prelude::*;

verus! {

/// Restricts tableau implementations to this crate.
pub trait Sealed {}

} // verus!
