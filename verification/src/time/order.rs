//! IEEE 754 equality and ordering of instants and steps.
use vstd::prelude::*;

use core::cmp::Ordering;
use vstd::std_specs::cmp::{PartialEqSpecImpl, PartialOrdSpecImpl};

use crate::binary64::{eq, lt};
use super::{Instant, StepSize};

verus! {

impl PartialEq for Instant {
    fn eq(&self, other: &Self) -> (r: bool) {
        crate::binary64::equal(self.as_time(), other.as_time())
    }
}

impl PartialEqSpecImpl for Instant {
    open spec fn obeys_eq_spec() -> bool {
        true
    }

    open spec fn eq_spec(&self, other: &Self) -> bool {
        eq(self@, other@)
    }
}

impl PartialOrd for Instant {
    fn partial_cmp(&self, other: &Self) -> (r: Option<Ordering>) {
        let a = self.as_time();
        let b = other.as_time();
        if crate::binary64::less_than(a, b) {
            Some(Ordering::Less)
        } else if crate::binary64::less_than(b, a) {
            Some(Ordering::Greater)
        } else {
            Some(Ordering::Equal)
        }
    }
}

impl PartialOrdSpecImpl for Instant {
    open spec fn obeys_partial_cmp_spec() -> bool {
        true
    }

    open spec fn partial_cmp_spec(&self, other: &Self) -> Option<Ordering> {
        if lt(self@, other@) {
            Some(Ordering::Less)
        } else if lt(other@, self@) {
            Some(Ordering::Greater)
        } else {
            Some(Ordering::Equal)
        }
    }
}

impl PartialEq for StepSize {
    fn eq(&self, other: &Self) -> (r: bool) {
        crate::binary64::equal(self.as_time(), other.as_time())
    }
}

impl PartialEqSpecImpl for StepSize {
    open spec fn obeys_eq_spec() -> bool {
        true
    }

    open spec fn eq_spec(&self, other: &Self) -> bool {
        eq(self@, other@)
    }
}

impl PartialOrd for StepSize {
    fn partial_cmp(&self, other: &Self) -> (r: Option<Ordering>) {
        let a = self.as_time();
        let b = other.as_time();
        if crate::binary64::less_than(a, b) {
            Some(Ordering::Less)
        } else if crate::binary64::less_than(b, a) {
            Some(Ordering::Greater)
        } else {
            Some(Ordering::Equal)
        }
    }
}

impl PartialOrdSpecImpl for StepSize {
    open spec fn obeys_partial_cmp_spec() -> bool {
        true
    }

    open spec fn partial_cmp_spec(&self, other: &Self) -> Option<Ordering> {
        if lt(self@, other@) {
            Some(Ordering::Less)
        } else if lt(other@, self@) {
            Some(Ordering::Greater)
        } else {
            Some(Ordering::Equal)
        }
    }
}

} // verus!
