//! Scalar arithmetic for the library.
//!
//! Every scalar of this crate is the bit pattern of an IEEE-754
//! double-precision number, carried as a plain `u64`. Arithmetic on such
//! bit patterns is done by the software floating-point implementation of
//! the `rustc_apfloat` crate, which computes the IEEE-754 operations as a
//! pure function of the operand bit patterns. The rounded results of the
//! inexact operations would take pages to state, so each is left as a
//! name (`add_of`, `mul_of`, ...); ordering and negation are cheap to
//! state exactly over the bits, so they are written out.

use vstd::prelude::*;

use rand::RngCore;
use rustc_apfloat::ieee::Double;
use rustc_apfloat::Float;
use rustc_apfloat::Round;

verus! {

/// Bit pattern of `+0.0`.
pub const ZERO_BITS: u64 = 0x0000000000000000;
/// Bit pattern of `-0.0`.
pub const NEG_ZERO_BITS: u64 = 0x8000000000000000;
/// Bit pattern of `1.0`.
pub const ONE_BITS: u64 = 0x3FF0000000000000;
/// Bit pattern of `10.0`.
pub const TEN_BITS: u64 = 0x4024000000000000;
/// Bit pattern of positive infinity.
pub const INF_BITS: u64 = 0x7FF0000000000000;
/// The sign bit of a double.
pub const SIGN_MASK: u64 = 0x8000000000000000;
/// Everything but the sign bit: the magnitude of a double.
pub const MAG_MASK: u64 = 0x7FFFFFFFFFFFFFFF;
/// The exponent field of a double.
pub const EXP_FIELD_MASK: u64 = 0x7FF0000000000000;
/// The fraction field of a double.
pub const FRAC_MASK: u64 = 0x000FFFFFFFFFFFFF;

/// A scalar is a NaN exactly when its exponent field is all ones and its
/// fraction field is not zero.
pub open spec fn is_nan(a: u64) -> bool {
    a & EXP_FIELD_MASK == EXP_FIELD_MASK && a & FRAC_MASK != 0
}

/// Orders the non-NaN doubles: the magnitude bits of a double grow
/// monotonically with its magnitude, so negating them for negative signs
/// yields a key whose integer order is the IEEE-754 order. Both zeros map
/// to key 0, so `-0.0` and `+0.0` compare equal, as IEEE-754 asks.
pub open spec fn float_key(a: u64) -> int {
    if a & SIGN_MASK != 0 {
        -((a & MAG_MASK) as int)
    } else {
        (a & MAG_MASK) as int
    }
}

/// The IEEE-754 `<` relation on doubles, given as bit patterns: false
/// whenever either side is a NaN, otherwise the order of the keys.
pub open spec fn float_lt(a: u64, b: u64) -> bool {
    !is_nan(a) && !is_nan(b) && float_key(a) < float_key(b)
}

/// IEEE-754 negation flips the sign bit and nothing else.
pub open spec fn float_neg(a: u64) -> u64 {
    a ^ SIGN_MASK
}

/// The IEEE-754 double sum of two scalars, rounded to nearest-even.
pub uninterp spec fn add_of(a: u64, b: u64) -> u64;

/// The IEEE-754 double difference of two scalars, rounded to nearest-even.
pub uninterp spec fn sub_of(a: u64, b: u64) -> u64;

/// The IEEE-754 double product of two scalars, rounded to nearest-even.
pub uninterp spec fn mul_of(a: u64, b: u64) -> u64;

/// The IEEE-754 double quotient of two scalars, rounded to nearest-even.
pub uninterp spec fn div_of(a: u64, b: u64) -> u64;

/// The value of a scalar rounded to the nearest 64-bit integer
/// (ties to even, saturating at the ends of the range).
pub uninterp spec fn round_to_int_of(a: u64) -> i64;

/// The double nearest to a 64-bit integer (exact below 2^53).
pub uninterp spec fn of_int_of(n: i64) -> u64;

/// A scalar scaled by a power of two, saturating to infinity or zero.
pub uninterp spec fn scalbn_of(a: u64, k: i32) -> u64;

/// Relies on `rustc_apfloat::ieee::Double::add_r`: IEEE-754 addition with
/// round to nearest-even, a pure function of the operand bits. Its source
/// returns the left operand unchanged when the right operand is a zero,
/// except that `-0.0 + 0.0` is `+0.0` and NaN payloads may be rewritten.
#[verifier::external_body]
pub(crate) fn scalar_add(a: u64, b: u64) -> (r: u64)
    ensures
        r == add_of(a, b),
        b == ZERO_BITS && a != NEG_ZERO_BITS && !is_nan(a) ==> r == a,
{
    let x = Double::from_bits(a as u128);
    let y = Double::from_bits(b as u128);
    x.add_r(y, Round::NearestTiesToEven).value.to_bits() as u64
}

/// Relies on `rustc_apfloat::ieee::Double::sub_r`: IEEE-754 subtraction
/// with round to nearest-even, a pure function of the operand bits.
#[verifier::external_body]
pub(crate) fn scalar_sub(a: u64, b: u64) -> (r: u64)
    ensures
        r == sub_of(a, b),
{
    let x = Double::from_bits(a as u128);
    let y = Double::from_bits(b as u128);
    x.sub_r(y, Round::NearestTiesToEven).value.to_bits() as u64
}

/// Relies on `rustc_apfloat::ieee::Double::mul_r`: IEEE-754 multiplication
/// with round to nearest-even, a pure function of the operand bits.
#[verifier::external_body]
pub(crate) fn scalar_mul(a: u64, b: u64) -> (r: u64)
    ensures
        r == mul_of(a, b),
{
    let x = Double::from_bits(a as u128);
    let y = Double::from_bits(b as u128);
    x.mul_r(y, Round::NearestTiesToEven).value.to_bits() as u64
}

/// Relies on `rustc_apfloat::ieee::Double::div_r`: IEEE-754 division with
/// round to nearest-even, a pure function of the operand bits.
#[verifier::external_body]
pub(crate) fn scalar_div(a: u64, b: u64) -> (r: u64)
    ensures
        r == div_of(a, b),
{
    let x = Double::from_bits(a as u128);
    let y = Double::from_bits(b as u128);
    x.div_r(y, Round::NearestTiesToEven).value.to_bits() as u64
}

/// The IEEE-754 `<` test on two scalars, computed on the bits: false if
/// either side is a NaN; otherwise a negative sign loses to a positive
/// one, two positives order by magnitude and two negatives in reverse,
/// with the two zeros comparing equal.
pub(crate) fn scalar_lt(a: u64, b: u64) -> (r: bool)
    ensures
        r == float_lt(a, b),
{
    let a_nan = a & EXP_FIELD_MASK == EXP_FIELD_MASK && a & FRAC_MASK != 0;
    let b_nan = b & EXP_FIELD_MASK == EXP_FIELD_MASK && b & FRAC_MASK != 0;
    if a_nan || b_nan {
        return false;
    }
    let a_mag = a & MAG_MASK;
    let b_mag = b & MAG_MASK;
    let a_neg = a & SIGN_MASK != 0;
    let b_neg = b & SIGN_MASK != 0;
    if a_neg {
        if b_neg {
            b_mag < a_mag
        } else {
            a_mag > 0 || b_mag > 0
        }
    } else {
        if b_neg {
            false
        } else {
            a_mag < b_mag
        }
    }
}

/// Relies on `rustc_apfloat::Float::to_i128_r`: rounds a double to the
/// nearest 64-bit integer, ties to even, saturating out-of-range input;
/// a pure function of the bit pattern.
#[verifier::external_body]
pub(crate) fn scalar_round_to_int(a: u64) -> (r: i64)
    ensures
        r == round_to_int_of(a),
{
    let x = Double::from_bits(a as u128);
    let mut exact = false;
    x.to_i128_r(64, Round::NearestTiesToEven, &mut exact).value as i64
}

/// Relies on `rustc_apfloat::Float::from_i128`: the double nearest to a
/// 64-bit integer, exact whenever the integer fits in 53 bits; a pure
/// function of the integer.
#[verifier::external_body]
pub(crate) fn scalar_of_int(n: i64) -> (r: u64)
    ensures
        r == of_int_of(n),
{
    Double::from_i128(n as i128).value.to_bits() as u64
}

/// Relies on `rustc_apfloat::Float::scalbn`: multiplies a double by a
/// power of two, exactly while in range, saturating to infinity or zero
/// beyond it; a pure function of its two arguments.
#[verifier::external_body]
pub(crate) fn scalar_scalbn(a: u64, k: i32) -> (r: u64)
    ensures
        r == scalbn_of(a, k),
{
    Double::from_bits(a as u128).scalbn(k).to_bits() as u64
}

/// Relies on `rand::thread_rng` and `rand::RngCore::next_u64` for a
/// uniformly distributed 64-bit value. Nothing can be promised of the
/// result.
#[verifier::external_body]
pub(crate) fn random_u64() -> (r: u64) {
    rand::thread_rng().next_u64()
}

/// Bit pattern of `1/ln 2`.
pub const INV_LN2_BITS: u64 = 0x3FF71547652B82FE;
/// Bit pattern of `ln 2`.
pub const LN2_BITS: u64 = 0x3FE62E42FEFA39EF;
/// Bit pattern of `1/2!`.
pub const EXP_C2: u64 = 0x3FE0000000000000;
/// Bit pattern of `1/3!`.
pub const EXP_C3: u64 = 0x3FC5555555555555;
/// Bit pattern of `1/4!`.
pub const EXP_C4: u64 = 0x3FA5555555555555;
/// Bit pattern of `1/5!`.
pub const EXP_C5: u64 = 0x3F81111111111111;
/// Bit pattern of `1/6!`.
pub const EXP_C6: u64 = 0x3F56C16C16C16C17;
/// Bit pattern of `1/7!`.
pub const EXP_C7: u64 = 0x3F2A01A01A01A01A;
/// Bit pattern of `1/8!`.
pub const EXP_C8: u64 = 0x3EFA01A01A01A01A;
/// Bit pattern of `1/9!`.
pub const EXP_C9: u64 = 0x3EC71DE3A556C734;
/// Bit pattern of `1/10!`.
pub const EXP_C10: u64 = 0x3E927E4FB7789F5C;
/// Bit pattern of `-745.0`; `exp` underflows to zero below it.
pub const EXP_NEG_CUTOFF: u64 = 0xC087480000000000;
/// Bit pattern of `710.0`; `exp` overflows to infinity above it.
pub const EXP_POS_CUTOFF: u64 = 0x4086300000000000;
/// Cap on the power-of-two exponent handed to `scalbn_of`.
pub const EXP_SCALE_CAP: i64 = 60000;
/// Negated cap on the power-of-two exponent handed to `scalbn_of`.
pub const EXP_SCALE_NEG_CAP: i64 = -60000;
/// The power of two that maps a 53-bit integer into `[0, 1)`.
pub const UNIT_SCALE: i32 = -53;

/// The order-ten Taylor polynomial of `e^r`, evaluated in Horner form
/// with IEEE-754 double steps.
pub open spec fn exp_poly_spec(r: u64) -> u64 {
    let p10 = EXP_C10;
    let p9 = add_of(EXP_C9, mul_of(r, p10));
    let p8 = add_of(EXP_C8, mul_of(r, p9));
    let p7 = add_of(EXP_C7, mul_of(r, p8));
    let p6 = add_of(EXP_C6, mul_of(r, p7));
    let p5 = add_of(EXP_C5, mul_of(r, p6));
    let p4 = add_of(EXP_C4, mul_of(r, p5));
    let p3 = add_of(EXP_C3, mul_of(r, p4));
    let p2 = add_of(EXP_C2, mul_of(r, p3));
    let p1 = add_of(ONE_BITS, mul_of(r, p2));
    add_of(ONE_BITS, mul_of(r, p1))
}

/// `e^x` over scalar bit patterns: zero below the underflow cutoff,
/// infinity above the overflow cutoff, and otherwise the classical
/// argument reduction `e^x = 2^k * e^(x - k ln 2)` with `k` the nearest
/// integer to `x / ln 2` and the residual fed to the Taylor polynomial.
pub open spec fn exp_spec(x: u64) -> u64 {
    if float_lt(x, EXP_NEG_CUTOFF) {
        ZERO_BITS
    } else if float_lt(EXP_POS_CUTOFF, x) {
        INF_BITS
    } else {
        let k = round_to_int_of(mul_of(x, INV_LN2_BITS));
        let kc = if k > EXP_SCALE_CAP {
            EXP_SCALE_CAP
        } else if k < EXP_SCALE_NEG_CAP {
            EXP_SCALE_NEG_CAP
        } else {
            k
        };
        let r = sub_of(x, mul_of(of_int_of(kc), LN2_BITS));
        scalbn_of(exp_poly_spec(r), kc as i32)
    }
}

/// The exponential of a scalar, computed entirely on bit patterns.
pub fn exp(x: u64) -> (res: u64)
    ensures
        res == exp_spec(x),
{
    if scalar_lt(x, EXP_NEG_CUTOFF) {
        return ZERO_BITS;
    }
    if scalar_lt(EXP_POS_CUTOFF, x) {
        return INF_BITS;
    }
    let k = scalar_round_to_int(scalar_mul(x, INV_LN2_BITS));
    let kc: i64 = if k > EXP_SCALE_CAP {
        EXP_SCALE_CAP
    } else if k < EXP_SCALE_NEG_CAP {
        EXP_SCALE_NEG_CAP
    } else {
        k
    };
    let r = scalar_sub(x, scalar_mul(scalar_of_int(kc), LN2_BITS));
    let mut p = EXP_C10;
    p = scalar_add(EXP_C9, scalar_mul(r, p));
    p = scalar_add(EXP_C8, scalar_mul(r, p));
    p = scalar_add(EXP_C7, scalar_mul(r, p));
    p = scalar_add(EXP_C6, scalar_mul(r, p));
    p = scalar_add(EXP_C5, scalar_mul(r, p));
    p = scalar_add(EXP_C4, scalar_mul(r, p));
    p = scalar_add(EXP_C3, scalar_mul(r, p));
    p = scalar_add(EXP_C2, scalar_mul(r, p));
    p = scalar_add(ONE_BITS, scalar_mul(r, p));
    p = scalar_add(ONE_BITS, scalar_mul(r, p));
    scalar_scalbn(p, kc as i32)
}

/// The logistic function `1 / (1 + e^(-x))` over scalar bit patterns.
pub open spec fn sigmoid_spec(x: u64) -> u64 {
    div_of(ONE_BITS, add_of(ONE_BITS, exp_spec(float_neg(x))))
}

/// The logistic function applied to one scalar.
pub fn sigmoid(value: u64) -> (res: u64)
    ensures
        res == sigmoid_spec(value),
{
    let e = exp(value ^ SIGN_MASK);
    scalar_div(ONE_BITS, scalar_add(ONE_BITS, e))
}

/// The number of values a 53-bit integer draw can take.
pub const DRAW_SPAN: i64 = 0x20000000000000;

/// What every scalar drawn from `[min, max)` looks like: the affine map
/// of some 53-bit integer, scaled by `2^-53` into `[0, 1)`, onto the
/// interval's ends. Rounding keeps such a value at or above `min`; in
/// rare corner cases the rounded result can land exactly on `max`, as
/// the same construction in the rand crate itself can.
pub open spec fn uniform_draw(min: u64, max: u64, r: u64) -> bool {
    exists|d: i64|
        #![auto]
        0 <= d < DRAW_SPAN && r == add_of(
            min,
            mul_of(scalbn_of(of_int_of(d), UNIT_SCALE), sub_of(max, min)),
        )
}

/// A scalar drawn uniformly from `[min, max)`: a 53-bit random integer is
/// scaled into `[0, 1)` and mapped affinely onto the interval. Rounding
/// keeps the result at or above `min`, but no contract states the
/// containment: in rare corner cases the rounded affine map can land
/// exactly on `max`, as the same construction in the rand crate can.
pub fn rand_float(min: u64, max: u64) -> (res: u64)
    requires
        float_lt(min, max),
    ensures
        uniform_draw(min, max, res),
{
    let u = random_u64();
    let d = (u >> 11) as i64;
    let unit = scalar_scalbn(scalar_of_int(d), UNIT_SCALE);
    let res = scalar_add(min, scalar_mul(unit, scalar_sub(max, min)));
    proof {
        assert((u >> 11) < 0x20000000000000u64) by (bit_vector);
        assert(0 <= d < DRAW_SPAN);
        assert(res == add_of(
            min,
            mul_of(scalbn_of(of_int_of(d), UNIT_SCALE), sub_of(max, min)),
        ));
    }
    res
}

/// The one-sided finite-difference quotient `(perturbed - base) / eps`.
pub open spec fn diff_quotient_spec(perturbed: u64, base: u64, eps: u64) -> u64 {
    div_of(sub_of(perturbed, base), eps)
}

/// The one-sided finite-difference quotient on scalars: the change in a
/// quantity divided by the step that produced it.
pub fn diff_quotient(perturbed: u64, base: u64, eps: u64) -> (res: u64)
    ensures
        res == diff_quotient_spec(perturbed, base, eps),
{
    scalar_div(scalar_sub(perturbed, base), eps)
}

} // verus!
