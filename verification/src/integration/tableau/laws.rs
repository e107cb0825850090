//! Exactness of the tableau coefficients: shape, consistency and order.
//!
//! Each tableau's coefficients are related, through [`represents`], to an
//! integer table: the coefficients multiplied by a common denominator. The
//! order conditions are stated on those tables, so every sum is exact.
use vstd::prelude::*;

use super::methods::{DormandPrince, Euler, Midpoint, Rk4};
use super::model::{
    Coefficient, couple, power, quadrature_exact, represents, satisfies_order, sum_below,
    EmbeddedExplicitTableau, ExplicitTableau,
};

verus! {

/// Whether the coefficients of `M` are exactly the integer tables `a`, `b`
/// and `c` divided by `d`.
pub open spec fn represents_tableau<const S: usize, M: ExplicitTableau<S>>(
    d: int,
    a: spec_fn(int, int) -> int,
    b: spec_fn(int) -> int,
    c: spec_fn(int) -> int,
) -> bool {
    &&& d > 0
    &&& forall|i: int, j: int| 0 <= i < S && 0 <= j < S ==> represents(#[trigger] M::spec_a(i, j), d, a(i, j))
    &&& forall|i: int| 0 <= i < S ==> represents(#[trigger] M::spec_b(i), d, b(i))
    &&& forall|i: int| 0 <= i < S ==> represents(#[trigger] M::spec_c(i), d, c(i))
}

/// The shape of an explicit tableau of `s` stages: `a` strictly lower
/// triangular and each stage fraction `c[i]` the row sum of `a[i]`.
pub open spec fn explicit_shape(s: int, a: spec_fn(int, int) -> int, c: spec_fn(int) -> int) -> bool {
    &&& forall|i: int, j: int| 0 <= i <= j < s ==> #[trigger] a(i, j) == 0
    &&& forall|i: int| 0 <= i < s ==> #[trigger] c(i) == sum_below(i, |j: int| a(i, j))
}

/// Exact formal order `p`: the order conditions hold through order `p` and
/// the quadrature condition of order `p + 1` fails.
pub open spec fn exact_order(
    p: nat,
    s: int,
    d: int,
    a: spec_fn(int, int) -> int,
    w: spec_fn(int) -> int,
    c: spec_fn(int) -> int,
) -> bool {
    satisfies_order(p as int, s, d, a, w, c) && !quadrature_exact(p, s, d, w, c)
}

/// `a` of [`Euler`] multiplied by 1.
pub open spec fn euler_a(i: int, j: int) -> int {
    {
        0
    }
}

/// `b` of [`Euler`] multiplied by 1.
pub open spec fn euler_b(i: int) -> int {
    1
}

/// `c` of [`Euler`] multiplied by 1.
pub open spec fn euler_c(i: int) -> int {
    0
}
/// `a` of [`Midpoint`] multiplied by 2.
pub open spec fn midpoint_a(i: int, j: int) -> int {
    if i == 1 && j == 0 {
        1
    } else {
        0
    }
}

/// `b` of [`Midpoint`] multiplied by 2.
pub open spec fn midpoint_b(i: int) -> int {
    if i == 0 {
        0
    } else {
        2
    }
}

/// `c` of [`Midpoint`] multiplied by 2.
pub open spec fn midpoint_c(i: int) -> int {
    if i == 0 {
        0
    } else {
        1
    }
}
/// `a` of [`Rk4`] multiplied by 6.
pub open spec fn rk4_a(i: int, j: int) -> int {
    if i == 1 && j == 0 {
        3
    } else if i == 2 && j == 1 {
        3
    } else if i == 3 && j == 2 {
        6
    } else {
        0
    }
}

/// `b` of [`Rk4`] multiplied by 6.
pub open spec fn rk4_b(i: int) -> int {
    if i == 0 {
        1
    } else if i == 1 {
        2
    } else if i == 2 {
        2
    } else {
        1
    }
}

/// `c` of [`Rk4`] multiplied by 6.
pub open spec fn rk4_c(i: int) -> int {
    if i == 0 {
        0
    } else if i == 1 {
        3
    } else if i == 2 {
        3
    } else {
        6
    }
}
/// `a` of [`DormandPrince`] multiplied by 171362822400.
pub open spec fn dormand_prince_a(i: int, j: int) -> int {
    if i == 1 && j == 0 {
        34272564480
    } else if i == 2 && j == 0 {
        12852211680
    } else if i == 2 && j == 1 {
        38556635040
    } else if i == 3 && j == 0 {
        167554759680
    } else if i == 3 && j == 1 {
        -639754536960
    } else if i == 3 && j == 2 {
        609290035200
    } else if i == 4 && j == 0 {
        505965644800
    } else if i == 4 && j == 1 {
        -1987087872000
    } else if i == 4 && j == 2 {
        1683278643200
    } else if i == 4 && j == 3 {
        -49833907200
    } else if i == 5 && j == 0 {
        487745760600
    } else if i == 5 && j == 1 {
        -1843448544000
    } else if i == 5 && j == 2 {
        1526229734400
    } else if i == 5 && j == 3 {
        47708967600
    } else if i == 5 && j == 4 {
        -46873096200
    } else if i == 6 && j == 0 {
        15619007250
    } else if i == 6 && j == 2 {
        76982400000
    } else if i == 6 && j == 3 {
        111564337500
    } else if i == 6 && j == 4 {
        -55243291950
    } else if i == 6 && j == 5 {
        22440369600
    } else {
        0
    }
}

/// `b` of [`DormandPrince`] multiplied by 171362822400.
pub open spec fn dormand_prince_b(i: int) -> int {
    if i == 0 {
        15619007250
    } else if i == 1 {
        0
    } else if i == 2 {
        76982400000
    } else if i == 3 {
        111564337500
    } else if i == 4 {
        -55243291950
    } else if i == 5 {
        22440369600
    } else {
        0
    }
}

/// `c` of [`DormandPrince`] multiplied by 171362822400.
pub open spec fn dormand_prince_c(i: int) -> int {
    if i == 0 {
        0
    } else if i == 1 {
        34272564480
    } else if i == 2 {
        51408846720
    } else if i == 3 {
        137090257920
    } else if i == 4 {
        152322508800
    } else if i == 5 {
        171362822400
    } else {
        171362822400
    }
}

/// The embedded weights of [`DormandPrince`] multiplied by 171362822400.
pub open spec fn dormand_prince_b_embedded(i: int) -> int {
    if i == 0 {
        15407778771
    } else if i == 1 {
        0
    } else if i == 2 {
        77711166720
    } else if i == 3 {
        105227483130
    } else if i == 4 {
        -46527128109
    } else if i == 5 {
        15259451328
    } else {
        4284070560
    }
}

/// The coefficients of [`Euler`], multiplied by 1, are the integer
/// tables above, and form an explicit tableau: `a` strictly lower triangular
/// and each stage fraction the row sum of `a`.
pub proof fn lemma_euler_tableau()
    ensures
        represents_tableau::<1, Euler>(1, |i: int, j: int| euler_a(i, j), |i: int| euler_b(i), |i: int| euler_c(i)),
        explicit_shape(1, |i: int, j: int| euler_a(i, j), |i: int| euler_c(i)),
{
    reveal_with_fuel(sum_below, 2);
    assert forall|i: int, j: int| 0 <= i < 1 && 0 <= j < 1 implies represents(#[trigger] Euler::spec_a(i, j), 1, euler_a(i, j)) by {}
    assert forall|i: int| 0 <= i < 1 implies #[trigger] euler_c(i) == sum_below(i, |j: int| euler_a(i, j)) by {
    }
}

/// [`Euler`] has exact formal order `Euler::order()`.
pub proof fn lemma_euler_formal_order()
    ensures
        exact_order(Euler::spec_order(), 1, 1, |i: int, j: int| euler_a(i, j), |i: int| euler_b(i), |i: int| euler_c(i)),
{
    reveal_with_fuel(sum_below, 2);
    reveal_with_fuel(power, 3);
    let d = 1int;
    let a = |i: int, j: int| euler_a(i, j);
    let w = |i: int| euler_b(i);
    let c = |i: int| euler_c(i);
    assert(sum_below(1, w) == 1);
    assert(satisfies_order(1, 1, d, a, w, c));
    assert(power(d, 2) == 1);
    assert(power(c(0), 1) == 0);
    assert(sum_below(1, |i: int| w(i) * power(c(i), 1)) == 0);
}

/// The coefficients of [`Midpoint`], multiplied by 2, are the integer
/// tables above, and form an explicit tableau: `a` strictly lower triangular
/// and each stage fraction the row sum of `a`.
pub proof fn lemma_midpoint_tableau()
    ensures
        represents_tableau::<2, Midpoint>(2, |i: int, j: int| midpoint_a(i, j), |i: int| midpoint_b(i), |i: int| midpoint_c(i)),
        explicit_shape(2, |i: int, j: int| midpoint_a(i, j), |i: int| midpoint_c(i)),
{
    reveal_with_fuel(sum_below, 3);
    assert forall|i: int, j: int| 0 <= i < 2 && 0 <= j < 2 implies represents(#[trigger] Midpoint::spec_a(i, j), 2, midpoint_a(i, j)) by {}
    assert forall|i: int| 0 <= i < 2 implies #[trigger] midpoint_c(i) == sum_below(i, |j: int| midpoint_a(i, j)) by {
        if i == 0 {
        } else {
        }
    }
}

/// [`Midpoint`] has exact formal order `Midpoint::order()`.
pub proof fn lemma_midpoint_formal_order()
    ensures
        exact_order(Midpoint::spec_order(), 2, 2, |i: int, j: int| midpoint_a(i, j), |i: int| midpoint_b(i), |i: int| midpoint_c(i)),
{
    reveal_with_fuel(sum_below, 3);
    reveal_with_fuel(power, 4);
    let d = 2int;
    let a = |i: int, j: int| midpoint_a(i, j);
    let w = |i: int| midpoint_b(i);
    let c = |i: int| midpoint_c(i);
    let ac = |i: int| couple(a, i, c);
    assert(ac(0) == 0 && ac(1) == 0);
    assert(sum_below(2, w) == 2);
    assert(sum_below(2, |i: int| w(i) * c(i)) == 2);
    assert(satisfies_order(2, 2, d, a, w, c));
    assert(power(d, 3) == 8);
    assert(power(c(0), 2) == 0 && power(c(1), 2) == 1);
    assert(sum_below(2, |i: int| w(i) * power(c(i), 2)) == 2);
}

/// The coefficients of [`Rk4`], multiplied by 6, are the integer
/// tables above, and form an explicit tableau: `a` strictly lower triangular
/// and each stage fraction the row sum of `a`.
pub proof fn lemma_rk4_tableau()
    ensures
        represents_tableau::<4, Rk4>(6, |i: int, j: int| rk4_a(i, j), |i: int| rk4_b(i), |i: int| rk4_c(i)),
        explicit_shape(4, |i: int, j: int| rk4_a(i, j), |i: int| rk4_c(i)),
{
    reveal_with_fuel(sum_below, 5);
    assert forall|i: int, j: int| 0 <= i < 4 && 0 <= j < 4 implies represents(#[trigger] Rk4::spec_a(i, j), 6, rk4_a(i, j)) by {}
    assert forall|i: int| 0 <= i < 4 implies #[trigger] rk4_c(i) == sum_below(i, |j: int| rk4_a(i, j)) by {
        if i == 0 {
        } else if i == 1 {
        } else if i == 2 {
        } else {
        }
    }
}

/// [`Rk4`] has exact formal order `Rk4::order()`.
pub proof fn lemma_rk4_formal_order()
    ensures
        exact_order(Rk4::spec_order(), 4, 6, |i: int, j: int| rk4_a(i, j), |i: int| rk4_b(i), |i: int| rk4_c(i)),
{
    reveal_with_fuel(sum_below, 5);
    reveal_with_fuel(power, 6);
    let d = 6int;
    let a = |i: int, j: int| rk4_a(i, j);
    let w = |i: int| rk4_b(i);
    let c = |i: int| rk4_c(i);
    let ac = |i: int| couple(a, i, c);
    assert(ac(0) == 0 && ac(1) == 0 && ac(2) == 9 && ac(3) == 18);
    let acc = |i: int| couple(a, i, |j: int| c(j) * c(j));
    assert(acc(0) == 0 && acc(1) == 0 && acc(2) == 27 && acc(3) == 54);
    let aac = |i: int| couple(a, i, ac);
    assert(aac(0) == 0 && aac(1) == 0 && aac(2) == 0 && aac(3) == 54);
    let accc = |i: int| couple(a, i, |j: int| c(j) * c(j) * c(j));
    assert(accc(0) == 0 && accc(1) == 0 && accc(2) == 81 && accc(3) == 162);
    let aacc = |i: int| couple(a, i, acc);
    assert(aacc(0) == 0 && aacc(1) == 0 && aacc(2) == 0 && aacc(3) == 162);
    let aaac = |i: int| couple(a, i, aac);
    assert(aaac(0) == 0 && aaac(1) == 0 && aaac(2) == 0 && aaac(3) == 0);
    let acac = |i: int| couple(a, i, |j: int| c(j) * ac(j));
    assert(acac(0) == 0 && acac(1) == 0 && acac(2) == 0 && acac(3) == 162);
    assert(sum_below(4, w) == 6);
    assert(sum_below(4, |i: int| w(i) * c(i)) == 18);
    assert(sum_below(4, |i: int| w(i) * c(i) * c(i)) == 72);
    assert(sum_below(4, |i: int| w(i) * ac(i)) == 36);
    assert(sum_below(4, |i: int| w(i) * c(i) * c(i) * c(i)) == 324);
    assert(sum_below(4, |i: int| w(i) * c(i) * ac(i)) == 162);
    assert(sum_below(4, |i: int| w(i) * acc(i)) == 108);
    assert(sum_below(4, |i: int| w(i) * aac(i)) == 54);
    assert(satisfies_order(4, 4, d, a, w, c));
    assert(power(d, 5) == 7776);
    assert(power(c(0), 4) == 0 && power(c(1), 4) == 81 && power(c(2), 4) == 81 && power(c(3), 4) == 1296);
    assert(sum_below(4, |i: int| w(i) * power(c(i), 4)) == 1620);
}

/// The coefficients of [`DormandPrince`], multiplied by 171362822400, are the integer
/// tables above, and form an explicit tableau: `a` strictly lower triangular
/// and each stage fraction the row sum of `a`.
pub proof fn lemma_dormand_prince_tableau()
    ensures
        represents_tableau::<7, DormandPrince>(171362822400, |i: int, j: int| dormand_prince_a(i, j), |i: int| dormand_prince_b(i), |i: int| dormand_prince_c(i)),
        explicit_shape(7, |i: int, j: int| dormand_prince_a(i, j), |i: int| dormand_prince_c(i)),
        forall|i: int| 0 <= i < 7 ==> represents(#[trigger] DormandPrince::spec_b_embedded(i), 171362822400, dormand_prince_b_embedded(i)),
{
    reveal_with_fuel(sum_below, 8);
    assert forall|i: int, j: int| 0 <= i < 7 && 0 <= j < 7 implies represents(#[trigger] DormandPrince::spec_a(i, j), 171362822400, dormand_prince_a(i, j)) by {}
    assert forall|i: int| 0 <= i < 7 implies #[trigger] dormand_prince_c(i) == sum_below(i, |j: int| dormand_prince_a(i, j)) by {
        if i == 0 {
        } else if i == 1 {
        } else if i == 2 {
        } else if i == 3 {
        } else if i == 4 {
        } else if i == 5 {
        } else {
        }
    }
}

/// [`DormandPrince`] has exact formal order `DormandPrince::order()`.
pub proof fn lemma_dormand_prince_formal_order()
    ensures
        exact_order(DormandPrince::spec_order(), 7, 171362822400, |i: int, j: int| dormand_prince_a(i, j), |i: int| dormand_prince_b(i), |i: int| dormand_prince_c(i)),
{
    reveal_with_fuel(sum_below, 8);
    reveal_with_fuel(power, 7);
    let d = 171362822400int;
    let a = |i: int, j: int| dormand_prince_a(i, j);
    let w = |i: int| dormand_prince_b(i);
    let c = |i: int| dormand_prince_c(i);
    let ac = |i: int| couple(a, i, c);
    assert(ac(0) == 0 && ac(1) == 0 && ac(2) == 1321434760540227379200 && ac(3) == 9396869408286061363200 && ac(4) == 11601073343563038720000 && ac(5) == 14682608450446970880000 && ac(6) == 14682608450446970880000);
    let acc = |i: int| couple(a, i, |j: int| c(j) * c(j));
    assert(acc(0) == 0 && acc(1) == 0 && acc(2) == 45288958036728302487493410816000 && acc(3) == 858812833881662624948023197696000 && acc(4) == 1178069730976217592521293824000000 && acc(5) == 1677368816175122314351607808000000 && acc(6) == 1677368816175122314351607808000000);
    let aac = |i: int| couple(a, i, ac);
    assert(aac(0) == 0 && aac(1) == 0 && aac(2) == 0 && aac(3) == 805137031764058710888771747840000 && aac(4) == 1756060192736424348852053606400000 && aac(5) == 1921349734891503741893659852800000 && aac(6) == 838684408087561157175803904000000);
    let accc = |i: int| couple(a, i, |j: int| c(j) * c(j) * c(j));
    assert(accc(0) == 0 && accc(1) == 0 && accc(2) == 1552168734545784955243562315766489415680000 && accc(3) == 57027829061830321318578289527420648161280000 && accc(4) == 20313908754711893739305067954145591296000000 && accc(5) == 90412522247953130389608175295489114112000000 && accc(6) == 215578990909136799339383654967567974400000000);
    let aacc = |i: int| couple(a, i, acc);
    assert(aacc(0) == 0 && aacc(1) == 0 && aacc(2) == 0 && aacc(3) == 27594110836369510315441107835848700723200000 && aacc(4) == 33435936770177961744818900669866967040000000 && aacc(5) == 54874652231416639831843112173562757120000000 && aacc(6) == 71859663636378933113127884989189324800000000);
    let aaac = |i: int| couple(a, i, aac);
    assert(aaac(0) == 0 && aaac(1) == 0 && aaac(2) == 0 && aaac(3) == 0 && aaac(4) == -40123124124213554093782680803840360448000000 && aaac(5) == -43899721785133311865474489738850205696000000 && aaac(6) == 35929831818189466556563942494594662400000000);
    let acac = |i: int| couple(a, i, |j: int| c(j) * ac(j));
    assert(acac(0) == 0 && acac(1) == 0 && acac(2) == 0 && acac(3) == 41391166254554265473161661753773051084800000 && acac(4) == 50153905155266942617228351004800450560000000 && acac(5) == 82311978347124959747764668260344135680000000 && acac(6) == 107789495454568399669691827483783987200000000);
    assert(sum_below(7, w) == 171362822400);
    assert(sum_below(7, |i: int| w(i) * c(i)) == 14682608450446970880000);
    assert(sum_below(7, |i: int| w(i) * c(i) * c(i)) == 1677368816175122314351607808000000);
    assert(sum_below(7, |i: int| w(i) * ac(i)) == 838684408087561157175803904000000);
    assert(sum_below(7, |i: int| w(i) * c(i) * c(i) * c(i)) == 215578990909136799339383654967567974400000000);
    assert(sum_below(7, |i: int| w(i) * c(i) * ac(i)) == 107789495454568399669691827483783987200000000);
    assert(sum_below(7, |i: int| w(i) * acc(i)) == 71859663636378933113127884989189324800000000);
    assert(sum_below(7, |i: int| w(i) * aac(i)) == 35929831818189466556563942494594662400000000);
    assert(sum_below(7, |i: int| w(i) * c(i) * c(i) * c(i) * c(i)) == 29553779465866899105999390873336182845627957248000000000);
    assert(sum_below(7, |i: int| w(i) * c(i) * c(i) * ac(i)) == 14776889732933449552999695436668091422813978624000000000);
    assert(sum_below(7, |i: int| w(i) * ac(i) * ac(i)) == 7388444866466724776499847718334045711406989312000000000);
    assert(sum_below(7, |i: int| w(i) * c(i) * acc(i)) == 9851259821955633035333130291112060948542652416000000000);
    assert(sum_below(7, |i: int| w(i) * accc(i)) == 7388444866466724776499847718334045711406989312000000000);
    assert(sum_below(7, |i: int| w(i) * c(i) * aac(i)) == 4925629910977816517666565145556030474271326208000000000);
    assert(sum_below(7, |i: int| w(i) * acac(i)) == 3694222433233362388249923859167022855703494656000000000);
    assert(sum_below(7, |i: int| w(i) * aacc(i)) == 2462814955488908258833282572778015237135663104000000000);
    assert(sum_below(7, |i: int| w(i) * aaac(i)) == 1231407477744454129416641286389007618567831552000000000);
    assert(satisfies_order(5, 7, d, a, w, c));
    assert(power(d, 6) == 25322095309290581467700461963678445982346351271819083776000000000000);
    assert(power(c(0), 5) == 0 && power(c(1), 5) == 47286047145387038569599025397337892553004731596800000 && power(c(2), 5) == 359078420510282824137892599111034621574379680563200000 && power(c(3), 5) == 48420912276876327495269402006874001974276845155123200000 && power(c(4), 5) == 82001240117320068917796071071269626876453191680000000000 && power(c(5), 5) == 147768897329334495529996954366680914228139786240000000000 && power(c(6), 5) == 147768897329334495529996954366680914228139786240000000000);
    assert(sum_below(7, |i: int| w(i) * power(c(i), 5)) == 4215659941305969025826428760249430173727661072845436354560000000000);
}

/// [`DormandPrince`] is first same as last: its last stage is evaluated at
/// the end of the step (`c[6] == 1`) and its last stage row is the primary
/// weight row (`a[6][j] == b[j]`), so the last stage state is the step's
/// primary result.
pub proof fn lemma_dormand_prince_first_same_as_last()
    ensures
        represents(DormandPrince::spec_c(6), 1, 1),
        forall|j: int| 0 <= j < 7 ==> #[trigger] DormandPrince::spec_a(6, j) == DormandPrince::spec_b(j),
{
}

/// The embedded weights of [`DormandPrince`] have exact formal order
/// `DormandPrince::embedded_order()`.
pub proof fn lemma_dormand_prince_embedded_order()
    ensures
        exact_order(DormandPrince::spec_embedded_order(), 7, 171362822400, |i: int, j: int| dormand_prince_a(i, j), |i: int| dormand_prince_b_embedded(i), |i: int| dormand_prince_c(i)),
{
    reveal_with_fuel(sum_below, 8);
    reveal_with_fuel(power, 6);
    let d = 171362822400int;
    let a = |i: int, j: int| dormand_prince_a(i, j);
    let w = |i: int| dormand_prince_b_embedded(i);
    let c = |i: int| dormand_prince_c(i);
    let ac = |i: int| couple(a, i, c);
    assert(ac(0) == 0 && ac(1) == 0 && ac(2) == 1321434760540227379200 && ac(3) == 9396869408286061363200 && ac(4) == 11601073343563038720000 && ac(5) == 14682608450446970880000 && ac(6) == 14682608450446970880000);
    let acc = |i: int| couple(a, i, |j: int| c(j) * c(j));
    assert(acc(0) == 0 && acc(1) == 0 && acc(2) == 45288958036728302487493410816000 && acc(3) == 858812833881662624948023197696000 && acc(4) == 1178069730976217592521293824000000 && acc(5) == 1677368816175122314351607808000000 && acc(6) == 1677368816175122314351607808000000);
    let aac = |i: int| couple(a, i, ac);
    assert(aac(0) == 0 && aac(1) == 0 && aac(2) == 0 && aac(3) == 805137031764058710888771747840000 && aac(4) == 1756060192736424348852053606400000 && aac(5) == 1921349734891503741893659852800000 && aac(6) == 838684408087561157175803904000000);
    let accc = |i: int| couple(a, i, |j: int| c(j) * c(j) * c(j));
    assert(accc(0) == 0 && accc(1) == 0 && accc(2) == 1552168734545784955243562315766489415680000 && accc(3) == 57027829061830321318578289527420648161280000 && accc(4) == 20313908754711893739305067954145591296000000 && accc(5) == 90412522247953130389608175295489114112000000 && accc(6) == 215578990909136799339383654967567974400000000);
    let aacc = |i: int| couple(a, i, acc);
    assert(aacc(0) == 0 && aacc(1) == 0 && aacc(2) == 0 && aacc(3) == 27594110836369510315441107835848700723200000 && aacc(4) == 33435936770177961744818900669866967040000000 && aacc(5) == 54874652231416639831843112173562757120000000 && aacc(6) == 71859663636378933113127884989189324800000000);
    let aaac = |i: int| couple(a, i, aac);
    assert(aaac(0) == 0 && aaac(1) == 0 && aaac(2) == 0 && aaac(3) == 0 && aaac(4) == -40123124124213554093782680803840360448000000 && aaac(5) == -43899721785133311865474489738850205696000000 && aaac(6) == 35929831818189466556563942494594662400000000);
    let acac = |i: int| couple(a, i, |j: int| c(j) * ac(j));
    assert(acac(0) == 0 && acac(1) == 0 && acac(2) == 0 && acac(3) == 41391166254554265473161661753773051084800000 && acac(4) == 50153905155266942617228351004800450560000000 && acac(5) == 82311978347124959747764668260344135680000000 && acac(6) == 107789495454568399669691827483783987200000000);
    assert(sum_below(7, w) == 171362822400);
    assert(sum_below(7, |i: int| w(i) * c(i)) == 14682608450446970880000);
    assert(sum_below(7, |i: int| w(i) * c(i) * c(i)) == 1677368816175122314351607808000000);
    assert(sum_below(7, |i: int| w(i) * ac(i)) == 838684408087561157175803904000000);
    assert(sum_below(7, |i: int| w(i) * c(i) * c(i) * c(i)) == 215578990909136799339383654967567974400000000);
    assert(sum_below(7, |i: int| w(i) * c(i) * ac(i)) == 107789495454568399669691827483783987200000000);
    assert(sum_below(7, |i: int| w(i) * acc(i)) == 71859663636378933113127884989189324800000000);
    assert(sum_below(7, |i: int| w(i) * aac(i)) == 35929831818189466556563942494594662400000000);
    assert(satisfies_order(4, 7, d, a, w, c));
    assert(power(d, 5) == 147768897329334495529996954366680914228139786240000000000);
    assert(power(c(0), 4) == 0 && power(c(1), 4) == 1379705541818475515772055391792435036160000 && power(c(2), 4) == 6984759305456032298596030420949202370560000 && power(c(3), 4) == 353204618705529732037646180298863369256960000 && power(c(4), 4) == 538339610890915610482618778080876953600000000 && power(c(5), 4) == 862315963636547197357534619870271897600000000 && power(c(6), 4) == 862315963636547197357534619870271897600000000);
    assert(sum_below(7, |i: int| w(i) * power(c(i), 4)) == 29514921718791407442360021303854574160775372341248000000);
}

/// The published Dormand--Prince error weights `e = b - b_embedded`
/// (Dormand and Prince, 1980), as numerators over the common denominator
/// `57600 * 16695 * 339200 * 2100`: `71/57600, 0, -71/16695, 71/1920, -17253/339200,
/// 22/525, -1/40`.
pub open spec fn dormand_prince_error_numerator(i: int) -> int {
    if i == 0 {
        844344950400000
    } else if i == 1 {
        0
    } else if i == 2 {
        -2913103872000000
    } else if i == 3 {
        25330348512000000
    } else if i == 4 {
        -34841177481600000
    } else if i == 5 {
        28704330547200000
    } else {
        -17124742656000000
    }
}

/// Whether `first - second` is exactly `value / d`.
pub open spec fn difference_represents(first: Coefficient, second: Coefficient, d: int, value: int) -> bool {
    &&& first.denominator > 0
    &&& second.denominator > 0
    &&& (first.numerator * (second.denominator as int) - second.numerator * (first.denominator as int))
        * d == value * (first.denominator as int) * (second.denominator as int)
}

/// The Dormand--Prince error estimate uses the published weights: for every
/// stage, the primary weight minus the embedded weight is exactly the
/// published error weight, so the estimate `primary - embedded` is the
/// one of the method and not another combination of order-4 weights.
pub proof fn lemma_dormand_prince_error_weights()
    ensures
        forall|i: int|
            0 <= i < 7 ==> difference_represents(
                #[trigger] <DormandPrince as ExplicitTableau<7>>::spec_b(i),
                <DormandPrince as EmbeddedExplicitTableau<7>>::spec_b_embedded(i),
                684989706240000000,
                dormand_prince_error_numerator(i),
            ),
{
    let d: int = 684989706240000000;
    assert forall|i: int| 0 <= i < 7 implies difference_represents(
        #[trigger] <DormandPrince as ExplicitTableau<7>>::spec_b(i),
        <DormandPrince as EmbeddedExplicitTableau<7>>::spec_b_embedded(i),
        d,
        dormand_prince_error_numerator(i),
    ) by {
        let b = <DormandPrince as ExplicitTableau<7>>::spec_b(i);
        let e = <DormandPrince as EmbeddedExplicitTableau<7>>::spec_b_embedded(i);
        if i == 0 {
            assert(b.numerator == 35 && b.denominator == 384);
            assert(e.numerator == 5179 && e.denominator == 57600);
        } else if i == 1 {
            assert(b.numerator == 0);
            assert(e.numerator == 0);
        } else if i == 2 {
            assert(b.numerator == 500 && b.denominator == 1113);
            assert(e.numerator == 7571 && e.denominator == 16695);
        } else if i == 3 {
            assert(b.numerator == 125 && b.denominator == 192);
            assert(e.numerator == 393 && e.denominator == 640);
        } else if i == 4 {
            assert(b.numerator == -2187 && b.denominator == 6784);
            assert(e.numerator == -92097 && e.denominator == 339200);
        } else if i == 5 {
            assert(b.numerator == 11 && b.denominator == 84);
            assert(e.numerator == 187 && e.denominator == 2100);
        } else {
            assert(b.numerator == 0);
            assert(e.numerator == 1 && e.denominator == 40);
        }
    }
}

} // verus!
