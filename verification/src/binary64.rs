//! IEEE 754 binary64 values carried as their bit patterns.
//!
//! A value is the `u64` returned by the scalar's `to_bits`. Classification
//! follows the encoding: the top bit is the sign, and the remaining bits hold
//! the biased exponent and fraction. Comparison follows IEEE 754: every
//! comparison involving NaN is false, and otherwise values compare by
//! [`order_key`], the integer that IEEE 754 `totalOrder` (section 5.10)
//! assigns to non-NaN encodings with both zeros identified.
use vstd::prelude::*;

verus! {

/// Encoding of the sign bit.
pub const SIGN_BIT: u64 = 0x8000_0000_0000_0000;

/// Encoding of positive infinity; magnitudes below it are finite.
pub const INFINITY_BITS: u64 = 0x7ff0_0000_0000_0000;

/// Encoding of `+0.0`.
pub const ZERO_BITS: u64 = 0;

/// Encoding of the smallest positive normal value, `2^-1022`.
pub const MIN_NORMAL_BITS: u64 = 0x0010_0000_0000_0000;

/// Encoding of `1.0`.
pub const ONE_BITS: u64 = 0x3ff0_0000_0000_0000;

/// The encoding with the sign bit cleared.
pub open spec fn magnitude(bits: u64) -> u64 {
    if bits >= SIGN_BIT {
        (bits - SIGN_BIT) as u64
    } else {
        bits
    }
}

/// Whether the sign bit is set (true for `-0.0` and negative NaNs too).
pub open spec fn is_sign_negative(bits: u64) -> bool {
    bits >= SIGN_BIT
}

/// Zero, subnormal or normal.
pub open spec fn is_finite(bits: u64) -> bool {
    magnitude(bits) < INFINITY_BITS
}

/// Not a number.
pub open spec fn is_nan(bits: u64) -> bool {
    magnitude(bits) > INFINITY_BITS
}

/// `+0.0` or `-0.0`.
pub open spec fn is_zero(bits: u64) -> bool {
    magnitude(bits) == 0
}

/// Integer with the order of the (extended) real value of a non-NaN
/// encoding: the magnitude, negated when the sign bit is set.
pub open spec fn order_key(bits: u64) -> int {
    if is_sign_negative(bits) {
        -(magnitude(bits) as int)
    } else {
        bits as int
    }
}

/// IEEE 754 `a < b`.
pub open spec fn lt(a: u64, b: u64) -> bool {
    !is_nan(a) && !is_nan(b) && order_key(a) < order_key(b)
}

/// IEEE 754 `a <= b`.
pub open spec fn le(a: u64, b: u64) -> bool {
    !is_nan(a) && !is_nan(b) && order_key(a) <= order_key(b)
}

/// IEEE 754 `a == b`.
pub open spec fn eq(a: u64, b: u64) -> bool {
    !is_nan(a) && !is_nan(b) && order_key(a) == order_key(b)
}

/// Whether `bits` encodes a finite value strictly above zero.
pub open spec fn is_positive_finite(bits: u64) -> bool {
    is_finite(bits) && lt(ZERO_BITS, bits)
}

/// Values that are not NaN are totally ordered: exactly one of `a < b`,
/// `a == b` and `b < a` holds.
pub proof fn lemma_trichotomy(a: u64, b: u64)
    requires
        !is_nan(a),
        !is_nan(b),
    ensures
        lt(a, b) || eq(a, b) || lt(b, a),
        !(lt(a, b) && eq(a, b)),
        !(lt(a, b) && lt(b, a)),
        !(eq(a, b) && lt(b, a)),
{
}

/// `<` is transitive, and `<=` is transitive.
pub proof fn lemma_transitive(a: u64, b: u64, c: u64)
    ensures
        lt(a, b) && lt(b, c) ==> lt(a, c),
        le(a, b) && le(b, c) ==> le(a, c),
{
}

/// Every comparison involving NaN is false.
pub proof fn lemma_nan_unordered(a: u64, b: u64)
    requires
        is_nan(a) || is_nan(b),
    ensures
        !lt(a, b),
        !le(a, b),
        !eq(a, b),
{
}

/// The two zeros compare equal, and neither is below the other.
pub proof fn lemma_signed_zeros_equal()
    ensures
        eq(ZERO_BITS, SIGN_BIT),
        !lt(SIGN_BIT, ZERO_BITS),
        !lt(ZERO_BITS, SIGN_BIT),
{
}

/// The maximum and the minimum each return one of their operands, and, when
/// neither is NaN, bound both operands.
pub proof fn lemma_max_min_bound(a: u64, b: u64)
    ensures
        spec_max_scalar(a, b) == a || spec_max_scalar(a, b) == b,
        spec_min_scalar(a, b) == a || spec_min_scalar(a, b) == b,
        !is_nan(a) && !is_nan(b) ==> le(a, spec_max_scalar(a, b)) && le(b, spec_max_scalar(a, b)),
        !is_nan(a) && !is_nan(b) ==> le(spec_min_scalar(a, b), a) && le(spec_min_scalar(a, b), b),
{
}

/// Absolute value: the encoding with its sign bit cleared.
pub fn abs(bits: u64) -> (r: u64)
    ensures
        r == magnitude(bits),
{
    if bits >= SIGN_BIT {
        bits - SIGN_BIT
    } else {
        bits
    }
}

/// Whether `bits` encodes a finite value.
pub fn finite(bits: u64) -> (r: bool)
    ensures
        r == is_finite(bits),
{
    abs(bits) < INFINITY_BITS
}

/// Whether `bits` encodes NaN.
pub fn nan(bits: u64) -> (r: bool)
    ensures
        r == is_nan(bits),
{
    abs(bits) > INFINITY_BITS
}

/// IEEE 754 `a < b`.
pub fn less_than(a: u64, b: u64) -> (r: bool)
    ensures
        r == lt(a, b),
{
    if nan(a) || nan(b) {
        return false;
    }
    let magnitude_a = abs(a);
    let magnitude_b = abs(b);
    let negative_a = a >= SIGN_BIT;
    let negative_b = b >= SIGN_BIT;
    if !negative_a && !negative_b {
        a < b
    } else if negative_a && negative_b {
        magnitude_a > magnitude_b
    } else if negative_a {
        !(magnitude_a == 0 && b == 0)
    } else {
        false
    }
}

/// IEEE 754 `a <= b`.
pub fn less_equal(a: u64, b: u64) -> (r: bool)
    ensures
        r == le(a, b),
{
    if nan(a) || nan(b) {
        return false;
    }
    !less_than(b, a)
}

/// IEEE 754 `a == b`.
pub fn equal(a: u64, b: u64) -> (r: bool)
    ensures
        r == eq(a, b),
{
    less_equal(a, b) && less_equal(b, a)
}

/// The maximum under the real-scalar special-value rule of the scalar
/// provider: a single NaN is ignored, `+0.0` wins over `-0.0`, and otherwise
/// the larger operand (the first on ties).
pub open spec fn spec_max_scalar(a: u64, b: u64) -> u64 {
    if is_nan(a) {
        b
    } else if is_nan(b) {
        a
    } else if is_zero(a) && is_zero(b) {
        if is_sign_negative(a) { b } else { a }
    } else if le(b, a) {
        a
    } else {
        b
    }
}

/// The minimum under the real-scalar special-value rule of the scalar
/// provider: a single NaN is ignored, `-0.0` wins over `+0.0`, and otherwise
/// the smaller operand (the first on ties).
pub open spec fn spec_min_scalar(a: u64, b: u64) -> u64 {
    if is_nan(a) {
        b
    } else if is_nan(b) {
        a
    } else if is_zero(a) && is_zero(b) {
        if is_sign_negative(a) { a } else { b }
    } else if le(a, b) {
        a
    } else {
        b
    }
}

/// Maximum of two encodings; see [`spec_max_scalar`].
pub fn max_scalar(a: u64, b: u64) -> (r: u64)
    ensures
        r == spec_max_scalar(a, b),
{
    if nan(a) {
        b
    } else if nan(b) {
        a
    } else if abs(a) == 0 && abs(b) == 0 {
        if a >= SIGN_BIT { b } else { a }
    } else if less_equal(b, a) {
        a
    } else {
        b
    }
}

/// Minimum of two encodings; see [`spec_min_scalar`].
pub fn min_scalar(a: u64, b: u64) -> (r: u64)
    ensures
        r == spec_min_scalar(a, b),
{
    if nan(a) {
        b
    } else if nan(b) {
        a
    } else if abs(a) == 0 && abs(b) == 0 {
        if a >= SIGN_BIT { a } else { b }
    } else if less_equal(a, b) {
        a
    } else {
        b
    }
}

/// A rounding operation of the caller's scalar, on binary64 encodings.
///
/// The library performs no floating-point arithmetic itself: where a policy
/// needs a sum, product or root it names the operation here and the caller's
/// scalar evaluates it, returning the encoding of the rounded result.
#[derive(Clone, Copy, Debug, PartialEq, Eq)]
pub enum ScalarOp {
    /// `a + b`.
    Add(u64, u64),
    /// `a - b`.
    Sub(u64, u64),
    /// `a * b`.
    Mul(u64, u64),
    /// `a / b`.
    Div(u64, u64),
    /// Fused `a * b + c`.
    MulAdd(u64, u64, u64),
    /// `x` raised to `1 / n`, with `n` converted to the scalar.
    Root(u64, u32),
    /// `1 / n`, with `n` converted to the scalar.
    CountReciprocal(u32),
    /// The scalar nearest the binary64 quotient `numerator / denominator`
    /// (an exact tableau coefficient brought to the scalar).
    Ratio(i64, u64),
}

/// Whether the caller's arithmetic `arith` may answer `op` with `result`.
pub open spec fn computes<A: Fn(ScalarOp) -> u64>(arith: A, op: ScalarOp, result: u64) -> bool {
    call_ensures(arith, (op,), result)
}

/// Whether `arith` answers each operation with a single result, as the
/// arithmetic of a fixed scalar type does.
pub open spec fn deterministic<A: Fn(ScalarOp) -> u64>(arith: A) -> bool {
    forall|op: ScalarOp, first: u64, second: u64|
        #![trigger computes(arith, op, first), computes(arith, op, second)]
        computes(arith, op, first) && computes(arith, op, second) ==> first == second
}

/// Facts of correctly rounded arithmetic (IEEE 754, rounding to nearest)
/// that the ordering guarantees of the library rest on: a finite value plus
/// a positive one is at least the first; the difference of two finite values
/// is above zero when the first is the larger, and at most zero otherwise
/// (gradual underflow keeps distinct values from cancelling), and it is at
/// most the first when the second is at least zero; a root of a value above one is at
/// least one, and a root of NaN is NaN; a positive finite value divided by a
/// value of at least one is at most that value, and anything divided by NaN
/// is NaN; a quotient of a finite value of at least zero by a positive
/// finite value is at least zero; a fused `a * b + c` of finite `a`, `b` of
/// at least zero and a positive finite `c` is at least `c`; a positive
/// finite value multiplied by a factor above zero and at
/// most one is at most that value, and strictly below it when the value is
/// normal and the factor below one; and the reciprocal of a positive count is
/// above zero and at most one.
pub open spec fn rounds_monotonically<A: Fn(ScalarOp) -> u64>(arith: A) -> bool {
    &&& forall|a: u64, b: u64, r: u64|
        #[trigger] computes(arith, ScalarOp::Add(a, b), r) ==> (is_finite(a) && lt(ZERO_BITS, b)
            ==> le(a, r))
    &&& forall|a: u64, b: u64, r: u64|
        #[trigger] computes(arith, ScalarOp::Sub(a, b), r) ==> (is_finite(a) && is_finite(b) ==> (lt(
            b,
            a,
        ) ==> lt(ZERO_BITS, r)) && (le(a, b) ==> le(r, ZERO_BITS)) && (le(ZERO_BITS, b) ==> le(r, a)))
    &&& forall|x: u64, n: u32, r: u64|
        #[trigger] computes(arith, ScalarOp::Root(x, n), r) ==> (lt(ONE_BITS, x) ==> le(
            ONE_BITS,
            r,
        )) && (is_nan(x) ==> is_nan(r))
    &&& forall|a: u64, b: u64, r: u64|
        #[trigger] computes(arith, ScalarOp::Div(a, b), r) ==> (is_positive_finite(a) && le(
            ONE_BITS,
            b,
        ) ==> le(r, a)) && (is_nan(b) ==> is_nan(r)) && (is_finite(a) && le(ZERO_BITS, a)
            && is_positive_finite(b) ==> le(ZERO_BITS, r))
    &&& forall|a: u64, b: u64, c: u64, r: u64|
        #[trigger] computes(arith, ScalarOp::MulAdd(a, b, c), r) ==> (is_finite(a) && le(
            ZERO_BITS,
            a,
        ) && is_finite(b) && le(ZERO_BITS, b) && is_positive_finite(c) ==> le(c, r))
    &&& forall|a: u64, b: u64, r: u64|
        #[trigger] computes(arith, ScalarOp::Mul(a, b), r) ==> (is_positive_finite(a) && lt(
            ZERO_BITS,
            b,
        ) && le(b, ONE_BITS) ==> le(r, a)) && (is_positive_finite(a) && MIN_NORMAL_BITS <= a && lt(
            ZERO_BITS,
            b,
        ) && lt(b, ONE_BITS) ==> lt(r, a))
    &&& forall|n: u32, r: u64|
        #[trigger] computes(arith, ScalarOp::CountReciprocal(n), r) ==> (n >= 1 ==> lt(
            ZERO_BITS,
            r,
        ) && le(r, ONE_BITS))
}

/// Whether `arith` accepts every operation.
pub open spec fn total<A: Fn(ScalarOp) -> u64>(arith: A) -> bool {
    forall|op: ScalarOp| call_requires(arith, (op,))
}

} // verus!
