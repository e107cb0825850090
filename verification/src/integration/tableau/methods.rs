use vstd::prelude::*;

use super::model::{Coefficient, EmbeddedExplicitTableau, ExplicitTableau};
use super::sealed::Sealed;

verus! {

/// Forward Euler tableau marker.
#[derive(Clone, Copy, Debug, Default)]
pub struct Euler;

/// Explicit midpoint tableau marker.
#[derive(Clone, Copy, Debug, Default)]
pub struct Midpoint;

/// Classical four-stage, fourth-order Runge--Kutta tableau marker.
#[derive(Clone, Copy, Debug, Default)]
pub struct Rk4;

/// Dormand--Prince fifth/fourth-order embedded tableau marker.
///
/// The fifth-order result is the primary step and the fourth-order result is
/// retained only as a local error estimate. The seven stages are shared by
/// both results, so an adaptive caller evaluates the system once per stage.
/// The coefficient set follows Dormand and Prince, "A family of embedded
/// Runge--Kutta formulae", DOI
/// <https://doi.org/10.1016/0771-050X(80)90013-3>.
#[derive(Clone, Copy, Debug, Default)]
pub struct DormandPrince;

fn fraction(numerator: i64, denominator: u64) -> (r: Coefficient)
    ensures
        r == (Coefficient { numerator, denominator }),
{
    Coefficient { numerator, denominator }
}

impl Sealed for Euler {}

impl ExplicitTableau<1> for Euler {
    open spec fn spec_order() -> nat {
        1
    }

    open spec fn spec_a(stage: int, previous: int) -> Coefficient {
        Coefficient { numerator: 0, denominator: 1 }
    }

    open spec fn spec_b(stage: int) -> Coefficient {
        Coefficient { numerator: 1, denominator: 1 }
    }

    open spec fn spec_c(stage: int) -> Coefficient {
        Coefficient { numerator: 0, denominator: 1 }
    }

    fn order() -> (r: usize) {
        1
    }

    fn a(stage: usize, previous: usize) -> (r: Coefficient) {
        fraction(0, 1)
    }

    fn b(stage: usize) -> (r: Coefficient) {
        fraction(1, 1)
    }

    fn c(stage: usize) -> (r: Coefficient) {
        fraction(0, 1)
    }
}

impl Sealed for Midpoint {}

impl ExplicitTableau<2> for Midpoint {
    open spec fn spec_order() -> nat {
        2
    }

    open spec fn spec_a(stage: int, previous: int) -> Coefficient {
        if stage == 1 && previous == 0 {
            Coefficient { numerator: 1, denominator: 2 }
        } else {
            Coefficient { numerator: 0, denominator: 1 }
        }
    }

    open spec fn spec_b(stage: int) -> Coefficient {
        if stage == 0 {
            Coefficient { numerator: 0, denominator: 1 }
        } else {
            Coefficient { numerator: 1, denominator: 1 }
        }
    }

    open spec fn spec_c(stage: int) -> Coefficient {
        if stage == 0 {
            Coefficient { numerator: 0, denominator: 1 }
        } else {
            Coefficient { numerator: 1, denominator: 2 }
        }
    }

    fn order() -> (r: usize) {
        2
    }

    fn a(stage: usize, previous: usize) -> (r: Coefficient) {
        if stage == 1 && previous == 0 {
            fraction(1, 2)
        } else {
            fraction(0, 1)
        }
    }

    fn b(stage: usize) -> (r: Coefficient) {
        if stage == 0 {
            fraction(0, 1)
        } else {
            fraction(1, 1)
        }
    }

    fn c(stage: usize) -> (r: Coefficient) {
        if stage == 0 {
            fraction(0, 1)
        } else {
            fraction(1, 2)
        }
    }
}

impl Sealed for Rk4 {}

impl ExplicitTableau<4> for Rk4 {
    open spec fn spec_order() -> nat {
        4
    }

    open spec fn spec_a(stage: int, previous: int) -> Coefficient {
        if stage == 1 && previous == 0 {
            Coefficient { numerator: 1, denominator: 2 }
        } else if stage == 2 && previous == 1 {
            Coefficient { numerator: 1, denominator: 2 }
        } else if stage == 3 && previous == 2 {
            Coefficient { numerator: 1, denominator: 1 }
        } else {
            Coefficient { numerator: 0, denominator: 1 }
        }
    }

    open spec fn spec_b(stage: int) -> Coefficient {
        if stage == 0 {
            Coefficient { numerator: 1, denominator: 6 }
        } else if stage == 1 {
            Coefficient { numerator: 1, denominator: 3 }
        } else if stage == 2 {
            Coefficient { numerator: 1, denominator: 3 }
        } else {
            Coefficient { numerator: 1, denominator: 6 }
        }
    }

    open spec fn spec_c(stage: int) -> Coefficient {
        if stage == 0 {
            Coefficient { numerator: 0, denominator: 1 }
        } else if stage == 1 {
            Coefficient { numerator: 1, denominator: 2 }
        } else if stage == 2 {
            Coefficient { numerator: 1, denominator: 2 }
        } else {
            Coefficient { numerator: 1, denominator: 1 }
        }
    }

    fn order() -> (r: usize) {
        4
    }

    fn a(stage: usize, previous: usize) -> (r: Coefficient) {
        if stage == 1 && previous == 0 {
            fraction(1, 2)
        } else if stage == 2 && previous == 1 {
            fraction(1, 2)
        } else if stage == 3 && previous == 2 {
            fraction(1, 1)
        } else {
            fraction(0, 1)
        }
    }

    fn b(stage: usize) -> (r: Coefficient) {
        if stage == 0 {
            fraction(1, 6)
        } else if stage == 1 {
            fraction(1, 3)
        } else if stage == 2 {
            fraction(1, 3)
        } else {
            fraction(1, 6)
        }
    }

    fn c(stage: usize) -> (r: Coefficient) {
        if stage == 0 {
            fraction(0, 1)
        } else if stage == 1 {
            fraction(1, 2)
        } else if stage == 2 {
            fraction(1, 2)
        } else {
            fraction(1, 1)
        }
    }
}

impl Sealed for DormandPrince {}

impl ExplicitTableau<7> for DormandPrince {
    open spec fn spec_order() -> nat {
        5
    }

    open spec fn spec_a(stage: int, previous: int) -> Coefficient {
        if stage == 1 && previous == 0 {
            Coefficient { numerator: 1, denominator: 5 }
        } else if stage == 2 && previous == 0 {
            Coefficient { numerator: 3, denominator: 40 }
        } else if stage == 2 && previous == 1 {
            Coefficient { numerator: 9, denominator: 40 }
        } else if stage == 3 && previous == 0 {
            Coefficient { numerator: 44, denominator: 45 }
        } else if stage == 3 && previous == 1 {
            Coefficient { numerator: -56i64, denominator: 15 }
        } else if stage == 3 && previous == 2 {
            Coefficient { numerator: 32, denominator: 9 }
        } else if stage == 4 && previous == 0 {
            Coefficient { numerator: 19372, denominator: 6561 }
        } else if stage == 4 && previous == 1 {
            Coefficient { numerator: -25360i64, denominator: 2187 }
        } else if stage == 4 && previous == 2 {
            Coefficient { numerator: 64448, denominator: 6561 }
        } else if stage == 4 && previous == 3 {
            Coefficient { numerator: -212i64, denominator: 729 }
        } else if stage == 5 && previous == 0 {
            Coefficient { numerator: 9017, denominator: 3168 }
        } else if stage == 5 && previous == 1 {
            Coefficient { numerator: -355i64, denominator: 33 }
        } else if stage == 5 && previous == 2 {
            Coefficient { numerator: 46732, denominator: 5247 }
        } else if stage == 5 && previous == 3 {
            Coefficient { numerator: 49, denominator: 176 }
        } else if stage == 5 && previous == 4 {
            Coefficient { numerator: -5103i64, denominator: 18656 }
        } else if stage == 6 && previous == 0 {
            Coefficient { numerator: 35, denominator: 384 }
        } else if stage == 6 && previous == 2 {
            Coefficient { numerator: 500, denominator: 1113 }
        } else if stage == 6 && previous == 3 {
            Coefficient { numerator: 125, denominator: 192 }
        } else if stage == 6 && previous == 4 {
            Coefficient { numerator: -2187i64, denominator: 6784 }
        } else if stage == 6 && previous == 5 {
            Coefficient { numerator: 11, denominator: 84 }
        } else {
            Coefficient { numerator: 0, denominator: 1 }
        }
    }

    open spec fn spec_b(stage: int) -> Coefficient {
        if stage == 0 {
            Coefficient { numerator: 35, denominator: 384 }
        } else if stage == 1 {
            Coefficient { numerator: 0, denominator: 1 }
        } else if stage == 2 {
            Coefficient { numerator: 500, denominator: 1113 }
        } else if stage == 3 {
            Coefficient { numerator: 125, denominator: 192 }
        } else if stage == 4 {
            Coefficient { numerator: -2187i64, denominator: 6784 }
        } else if stage == 5 {
            Coefficient { numerator: 11, denominator: 84 }
        } else {
            Coefficient { numerator: 0, denominator: 1 }
        }
    }

    open spec fn spec_c(stage: int) -> Coefficient {
        if stage == 0 {
            Coefficient { numerator: 0, denominator: 1 }
        } else if stage == 1 {
            Coefficient { numerator: 1, denominator: 5 }
        } else if stage == 2 {
            Coefficient { numerator: 3, denominator: 10 }
        } else if stage == 3 {
            Coefficient { numerator: 4, denominator: 5 }
        } else if stage == 4 {
            Coefficient { numerator: 8, denominator: 9 }
        } else if stage == 5 {
            Coefficient { numerator: 1, denominator: 1 }
        } else {
            Coefficient { numerator: 1, denominator: 1 }
        }
    }

    fn order() -> (r: usize) {
        5
    }

    fn a(stage: usize, previous: usize) -> (r: Coefficient) {
        if stage == 1 && previous == 0 {
            fraction(1, 5)
        } else if stage == 2 && previous == 0 {
            fraction(3, 40)
        } else if stage == 2 && previous == 1 {
            fraction(9, 40)
        } else if stage == 3 && previous == 0 {
            fraction(44, 45)
        } else if stage == 3 && previous == 1 {
            fraction(-56, 15)
        } else if stage == 3 && previous == 2 {
            fraction(32, 9)
        } else if stage == 4 && previous == 0 {
            fraction(19372, 6561)
        } else if stage == 4 && previous == 1 {
            fraction(-25360, 2187)
        } else if stage == 4 && previous == 2 {
            fraction(64448, 6561)
        } else if stage == 4 && previous == 3 {
            fraction(-212, 729)
        } else if stage == 5 && previous == 0 {
            fraction(9017, 3168)
        } else if stage == 5 && previous == 1 {
            fraction(-355, 33)
        } else if stage == 5 && previous == 2 {
            fraction(46732, 5247)
        } else if stage == 5 && previous == 3 {
            fraction(49, 176)
        } else if stage == 5 && previous == 4 {
            fraction(-5103, 18656)
        } else if stage == 6 && previous == 0 {
            fraction(35, 384)
        } else if stage == 6 && previous == 2 {
            fraction(500, 1113)
        } else if stage == 6 && previous == 3 {
            fraction(125, 192)
        } else if stage == 6 && previous == 4 {
            fraction(-2187, 6784)
        } else if stage == 6 && previous == 5 {
            fraction(11, 84)
        } else {
            fraction(0, 1)
        }
    }

    fn b(stage: usize) -> (r: Coefficient) {
        if stage == 0 {
            fraction(35, 384)
        } else if stage == 1 {
            fraction(0, 1)
        } else if stage == 2 {
            fraction(500, 1113)
        } else if stage == 3 {
            fraction(125, 192)
        } else if stage == 4 {
            fraction(-2187, 6784)
        } else if stage == 5 {
            fraction(11, 84)
        } else {
            fraction(0, 1)
        }
    }

    fn c(stage: usize) -> (r: Coefficient) {
        if stage == 0 {
            fraction(0, 1)
        } else if stage == 1 {
            fraction(1, 5)
        } else if stage == 2 {
            fraction(3, 10)
        } else if stage == 3 {
            fraction(4, 5)
        } else if stage == 4 {
            fraction(8, 9)
        } else if stage == 5 {
            fraction(1, 1)
        } else {
            fraction(1, 1)
        }
    }
}

impl EmbeddedExplicitTableau<7> for DormandPrince {
    open spec fn spec_embedded_order() -> nat {
        4
    }

    open spec fn spec_b_embedded(stage: int) -> Coefficient {
        if stage == 0 {
            Coefficient { numerator: 5179, denominator: 57600 }
        } else if stage == 1 {
            Coefficient { numerator: 0, denominator: 1 }
        } else if stage == 2 {
            Coefficient { numerator: 7571, denominator: 16695 }
        } else if stage == 3 {
            Coefficient { numerator: 393, denominator: 640 }
        } else if stage == 4 {
            Coefficient { numerator: -92097i64, denominator: 339200 }
        } else if stage == 5 {
            Coefficient { numerator: 187, denominator: 2100 }
        } else {
            Coefficient { numerator: 1, denominator: 40 }
        }
    }

    fn embedded_order() -> (r: usize) {
        4
    }

    fn b_embedded(stage: usize) -> (r: Coefficient) {
        if stage == 0 {
            fraction(5179, 57600)
        } else if stage == 1 {
            fraction(0, 1)
        } else if stage == 2 {
            fraction(7571, 16695)
        } else if stage == 3 {
            fraction(393, 640)
        } else if stage == 4 {
            fraction(-92097, 339200)
        } else if stage == 5 {
            fraction(187, 2100)
        } else {
            fraction(1, 40)
        }
    }
}

} // verus!
