use vstd::prelude::*;

use super::sealed::Sealed;

verus! {

/// An exact rational Butcher coefficient `numerator / denominator`.
#[derive(Clone, Copy, Debug, PartialEq, Eq, Structural)]
pub struct Coefficient {
    /// Signed numerator.
    pub numerator: i64,
    /// Positive denominator.
    pub denominator: u64,
}

/// Whether `coefficient` is exactly `value / d`: its denominator is positive
/// and `numerator * d == value * denominator`.
pub open spec fn represents(coefficient: Coefficient, d: int, value: int) -> bool {
    coefficient.denominator > 0 && coefficient.numerator * d == value * (
    coefficient.denominator as int)
}

/// `f(0) + f(1) + ... + f(n - 1)`.
pub open spec fn sum_below(n: int, f: spec_fn(int) -> int) -> int
    decreases n,
{
    if n <= 0 {
        0
    } else {
        sum_below(n - 1, f) + f(n - 1)
    }
}

/// `sum over j < i of a(i, j) * g(j)`: one explicit stage coupling.
pub open spec fn couple(a: spec_fn(int, int) -> int, i: int, g: spec_fn(int) -> int) -> int {
    sum_below(i, |j: int| a(i, j) * g(j))
}

/// The Runge--Kutta order conditions through order `p` (at most 5), for an
/// explicit tableau of `s` stages whose coefficients, multiplied by the common
/// denominator `d`, are `a`, weights `w` and stage fractions `c`.
///
/// Each condition states `gamma * sum = d^k` for a rooted tree of `k` nodes
/// with density `gamma`: the weighted sum equals `1 / gamma` exactly.
pub open spec fn satisfies_order(
    p: int,
    s: int,
    d: int,
    a: spec_fn(int, int) -> int,
    w: spec_fn(int) -> int,
    c: spec_fn(int) -> int,
) -> bool {
    let ac = |i: int| couple(a, i, c);
    let acc = |i: int| couple(a, i, |j: int| c(j) * c(j));
    let accc = |i: int| couple(a, i, |j: int| c(j) * c(j) * c(j));
    let aac = |i: int| couple(a, i, ac);
    let aacc = |i: int| couple(a, i, acc);
    let aaac = |i: int| couple(a, i, aac);
    let acac = |i: int| couple(a, i, |j: int| c(j) * ac(j));
    let d2 = d * d;
    let d3 = d2 * d;
    let d4 = d3 * d;
    let d5 = d4 * d;
    &&& p >= 1 ==> sum_below(s, w) == d
    &&& p >= 2 ==> 2 * sum_below(s, |i: int| w(i) * c(i)) == d2
    &&& p >= 3 ==> {
        &&& 3 * sum_below(s, |i: int| w(i) * c(i) * c(i)) == d3
        &&& 6 * sum_below(s, |i: int| w(i) * ac(i)) == d3
    }
    &&& p >= 4 ==> {
        &&& 4 * sum_below(s, |i: int| w(i) * c(i) * c(i) * c(i)) == d4
        &&& 8 * sum_below(s, |i: int| w(i) * c(i) * ac(i)) == d4
        &&& 12 * sum_below(s, |i: int| w(i) * acc(i)) == d4
        &&& 24 * sum_below(s, |i: int| w(i) * aac(i)) == d4
    }
    &&& p >= 5 ==> {
        &&& 5 * sum_below(s, |i: int| w(i) * c(i) * c(i) * c(i) * c(i)) == d5
        &&& 10 * sum_below(s, |i: int| w(i) * c(i) * c(i) * ac(i)) == d5
        &&& 20 * sum_below(s, |i: int| w(i) * ac(i) * ac(i)) == d5
        &&& 15 * sum_below(s, |i: int| w(i) * c(i) * acc(i)) == d5
        &&& 20 * sum_below(s, |i: int| w(i) * accc(i)) == d5
        &&& 30 * sum_below(s, |i: int| w(i) * c(i) * aac(i)) == d5
        &&& 40 * sum_below(s, |i: int| w(i) * acac(i)) == d5
        &&& 60 * sum_below(s, |i: int| w(i) * aacc(i)) == d5
        &&& 120 * sum_below(s, |i: int| w(i) * aaac(i)) == d5
    }
}

/// The quadrature condition of degree `p`: `sum w(i) c(i)^p = 1 / (p + 1)`,
/// scaled by `d^(p + 1)`.
pub open spec fn quadrature_exact(p: nat, s: int, d: int, w: spec_fn(int) -> int, c: spec_fn(int) -> int) -> bool {
    (p + 1) * sum_below(s, |i: int| w(i) * power(c(i), p)) == power(d, p + 1)
}

/// `x^n`.
pub open spec fn power(x: int, n: nat) -> int
    decreases n,
{
    if n == 0 {
        1
    } else {
        x * power(x, (n - 1) as nat)
    }
}

/// Compile-time Butcher tableau for an explicit Runge--Kutta method with
/// `STAGES` stages and exact rational coefficients.
pub trait ExplicitTableau<const STAGES: usize>: Sealed {
    /// Formal order of the method.
    spec fn spec_order() -> nat;

    /// Stage coefficient `a[stage][previous]`.
    spec fn spec_a(stage: int, previous: int) -> Coefficient;

    /// Output weight `b[stage]`.
    spec fn spec_b(stage: int) -> Coefficient;

    /// Stage-time fraction `c[stage]`.
    spec fn spec_c(stage: int) -> Coefficient;

    /// Formal order of the method.
    fn order() -> (r: usize)
        ensures
            r == Self::spec_order(),
    ;

    /// Stage coefficient `a[stage][previous]`.
    fn a(stage: usize, previous: usize) -> (r: Coefficient)
        requires
            stage < STAGES,
            previous < STAGES,
        ensures
            r == Self::spec_a(stage as int, previous as int),
    ;

    /// Output weight `b[stage]`.
    fn b(stage: usize) -> (r: Coefficient)
        requires
            stage < STAGES,
        ensures
            r == Self::spec_b(stage as int),
    ;

    /// Stage-time fraction `c[stage]`.
    fn c(stage: usize) -> (r: Coefficient)
        requires
            stage < STAGES,
        ensures
            r == Self::spec_c(stage as int),
    ;
}

/// Embedded lower-order weights sharing an explicit Runge--Kutta tableau.
///
/// [`ExplicitTableau::b`] gives the primary result and [`Self::b_embedded`]
/// the error-estimation result from the same stage derivatives.
pub trait EmbeddedExplicitTableau<const STAGES: usize>: ExplicitTableau<STAGES> {
    /// Formal order of the embedded result.
    spec fn spec_embedded_order() -> nat;

    /// Embedded output weight.
    spec fn spec_b_embedded(stage: int) -> Coefficient;

    /// Formal order of the embedded result.
    fn embedded_order() -> (r: usize)
        ensures
            r == Self::spec_embedded_order(),
    ;

    /// Embedded output weight `b_embedded[stage]`.
    fn b_embedded(stage: usize) -> (r: Coefficient)
        requires
            stage < STAGES,
        ensures
            r == Self::spec_b_embedded(stage as int),
    ;
}

} // verus!
