//! The statics of `Math`, `Integer` and `Long` that compute on whole numbers or
//! on the bits of a `double`.
use vstd::arithmetic::power2::pow2;
use vstd::prelude::*;

use crate::double::{
    INFINITY, NAN, SIGN, UNIT, double_compare, double_to_long, exponent, is_nan, is_nan_bits,
    magnitude, magnitude_of, negative, rank, significand, to_long, two_to,
};
use crate::text::{
    all_digits, chars_of, dec, digit_char, digits, int_text, is_digit_in, number, own, parse_i64,
    radix_text, signed,
};
use crate::value::{Fault, FaultV, Val, Value, java_fault, outcome};

verus! {

/// The codes of the operand types a width-dependent static is called with.
pub const WIDTH_INT: i64 = 0;

pub const WIDTH_LONG: i64 = 1;

pub const WIDTH_FLOAT: i64 = 2;

pub const WIDTH_DOUBLE: i64 = 3;

/// The bits of `1.0`.
pub const ONE: u64 = 0x3ff0_0000_0000_0000;

/// An exact operation.
#[derive(Clone, Copy, PartialEq, Eq, Structural)]
pub enum Exact {
    Plus,
    Minus,
    Times,
}

/// The mathematical result of an exact operation.
pub open spec fn exactly(a: int, b: int, op: Exact) -> int {
    match op {
        Exact::Plus => a + b,
        Exact::Minus => a - b,
        Exact::Times => a * b,
    }
}

/// `addExact`, `subtractExact` and `multiplyExact`: the result where it fits the
/// width, the fault where it does not.
pub open spec fn exact_result(a: int, b: int, width: int, op: Exact) -> Result<Val, FaultV> {
    let n = exactly(a, b, op);
    if width == WIDTH_LONG {
        if i64::MIN <= n <= i64::MAX {
            Ok(Val::Int(n as i64))
        } else {
            Err(java_fault("ArithmeticException"@, "long overflow"@))
        }
    } else {
        if i32::MIN <= n <= i32::MAX {
            Ok(Val::Int(n as i64))
        } else {
            Err(java_fault("ArithmeticException"@, "integer overflow"@))
        }
    }
}

/// `Math.addExact`, `subtractExact` and `multiplyExact`.
pub fn exact_arith(a: i64, b: i64, width: i64, op: Exact) -> (r: Result<Value, Fault>)
    ensures
        outcome(r) == exact_result(a as int, b as int, width as int, op),
{
    proof {
        assert(-0x4000_0000_0000_0000_0000_0000_0000_0000 <= a * b
            <= 0x4000_0000_0000_0000_0000_0000_0000_0000) by (nonlinear_arith)
            requires
                -0x8000_0000_0000_0000 <= a <= 0x7fff_ffff_ffff_ffff,
                -0x8000_0000_0000_0000 <= b <= 0x7fff_ffff_ffff_ffff,
        ;
    }
    let n: i128 = match op {
        Exact::Plus => a as i128 + b as i128,
        Exact::Minus => a as i128 - b as i128,
        Exact::Times => a as i128 * b as i128,
    };
    if width == WIDTH_LONG {
        if i64::MIN as i128 <= n && n <= i64::MAX as i128 {
            Ok(Value::Int(n as i64))
        } else {
            Err(Fault::java("ArithmeticException", own("long overflow")))
        }
    } else {
        if i32::MIN as i128 <= n && n <= i32::MAX as i128 {
            Ok(Value::Int(n as i64))
        } else {
            Err(Fault::java("ArithmeticException", own("integer overflow")))
        }
    }
}

/// `n` brought into the 64 bits of a `long`.
pub open spec fn wrapped(n: int) -> int {
    (n + 0x8000_0000_0000_0000) % 0x1_0000_0000_0000_0000 - 0x8000_0000_0000_0000
}

/// Division rounded down.
pub open spec fn floored(a: int, b: int) -> int {
    if b > 0 {
        a / b
    } else {
        (-a) / (-b)
    }
}

/// `Math.floorDiv`: the quotient rounded down, wrapped.
pub open spec fn floor_quotient(a: int, b: int) -> Result<int, FaultV> {
    if b == 0 {
        Err(java_fault("ArithmeticException"@, "/ by zero"@))
    } else {
        Ok(wrapped(floored(a, b)))
    }
}

/// Division of wide numbers, rounded down.
fn divide_down(a: i128, b: i128) -> (r: i128)
    requires
        b != 0,
        -0x8000_0000_0000_0000 <= a <= 0x7fff_ffff_ffff_ffff,
        -0x8000_0000_0000_0000 <= b <= 0x7fff_ffff_ffff_ffff,
    ensures
        r == floored(a as int, b as int),
        -0x8000_0000_0000_0000 <= r <= 0x8000_0000_0000_0000,
{
    let (n, d): (i128, i128) = if b > 0 {
        (a, b)
    } else {
        (-a, -b)
    };
    let q: i128 = if n >= 0 {
        (n as u128 / d as u128) as i128
    } else {
        -1 - ((-1 - n) as u128 / d as u128) as i128
    };
    proof {
        let m = n as int;
        let e = d as int;
        if m >= 0 {
            assert(0 <= m / e <= m) by (nonlinear_arith)
                requires
                    m >= 0,
                    e > 0,
            ;
        } else {
            let p = -1 - m;
            assert(m / e == -1 - p / e) by (nonlinear_arith)
                requires
                    p == -1 - m,
                    p >= 0,
                    e > 0,
            ;
            assert(0 <= p / e <= p) by (nonlinear_arith)
                requires
                    p >= 0,
                    e > 0,
            ;
        }
    }
    q
}

pub(crate) fn wrap(n: i128) -> (r: i64)
    requires
        -0x8000_0000_0000_0000_0000_0000 <= n <= 0x8000_0000_0000_0000_0000_0000,
    ensures
        r == wrapped(n as int),
{
    let m: i128 = n + 0x8000_0000_0000_0000;
    // Shifted up by a multiple of the modulus, so that the remainder is taken of
    // a number that is not negative.
    let p: u128 = (m + 0x1_0000_0000_0000_0000 * 0x1_0000_0000) as u128;
    let rest: u128 = p % 0x1_0000_0000_0000_0000;
    assert(rest == (m as int) % 0x1_0000_0000_0000_0000);
    (rest as i128 - 0x8000_0000_0000_0000) as i64
}

/// `Math.floorDiv`: division rounded toward negative infinity.
pub fn floor_div(a: i64, b: i64) -> (r: Result<i64, Fault>)
    ensures
        match (r, floor_quotient(a as int, b as int)) {
            (Ok(x), Ok(y)) => x == y,
            (Err(x), Err(y)) => x@ == y,
            _ => false,
        },
{
    if b == 0 {
        return Err(Fault::java("ArithmeticException", own("/ by zero")));
    }
    Ok(wrap(divide_down(a as i128, b as i128)))
}

/// `Math.floorMod`: what is left by [`floor_quotient`].
pub open spec fn floor_rest(a: int, b: int) -> Result<int, FaultV> {
    if b == 0 {
        Err(java_fault("ArithmeticException"@, "/ by zero"@))
    } else {
        Ok(a - b * floored(a, b))
    }
}

/// What is left by dividing down has the sign of the divisor and is smaller.
pub proof fn floor_rest_follows_the_divisor(a: int, b: int)
    requires
        b != 0,
    ensures
        b > 0 ==> 0 <= a - b * floored(a, b) < b,
        b < 0 ==> b < a - b * floored(a, b) <= 0,
{
    if b > 0 {
        assert(0 <= a - b * (a / b) < b) by (nonlinear_arith)
            requires
                b > 0,
        ;
    } else {
        let c = -b;
        let n = -a;
        assert(0 <= n - c * (n / c) < c) by (nonlinear_arith)
            requires
                c > 0,
        ;
        assert(a - b * (n / c) == -(n - c * (n / c))) by (nonlinear_arith)
            requires
                c == -b,
                n == -a,
        ;
    }
}

/// `Math.floorMod`.
pub fn floor_mod(a: i64, b: i64) -> (r: Result<i64, Fault>)
    ensures
        match (r, floor_rest(a as int, b as int)) {
            (Ok(x), Ok(y)) => x == y,
            (Err(x), Err(y)) => x@ == y,
            _ => false,
        },
{
    if b == 0 {
        return Err(Fault::java("ArithmeticException", own("/ by zero")));
    }
    let q: i128 = divide_down(a as i128, b as i128);
    proof {
        floor_rest_follows_the_divisor(a as int, b as int);
    }
    assert(-0x4000_0000_0000_0000_0000_0000_0000_0000 <= b * q
        <= 0x4000_0000_0000_0000_0000_0000_0000_0000) by (nonlinear_arith)
        requires
            -0x8000_0000_0000_0000 <= b <= 0x7fff_ffff_ffff_ffff,
            -0x8000_0000_0000_0000 <= q <= 0x8000_0000_0000_0000,
    ;
    Ok((a as i128 - b as i128 * q) as i64)
}

// ── Doubles by their bits ───────────────────────────────────────────────────

/// `Math.max` of doubles: a `NaN` wins, and `0.0` is above `-0.0`.
pub open spec fn greater_double(a: u64, b: u64) -> u64 {
    if is_nan(a) {
        a
    } else if is_nan(b) {
        b
    } else if rank(a) >= rank(b) {
        a
    } else {
        b
    }
}

/// `Math.max` of doubles.
pub fn max_double(a: u64, b: u64) -> (r: u64)
    ensures
        r == greater_double(a, b),
{
    if is_nan_bits(a) {
        a
    } else if is_nan_bits(b) {
        b
    } else if double_compare(a, b) >= 0 {
        a
    } else {
        b
    }
}

/// `Math.min` of doubles: a `NaN` wins, and `-0.0` is below `0.0`.
pub open spec fn lesser_double(a: u64, b: u64) -> u64 {
    if is_nan(a) {
        a
    } else if is_nan(b) {
        b
    } else if rank(a) <= rank(b) {
        a
    } else {
        b
    }
}

/// `Math.min` of doubles.
pub fn min_double(a: u64, b: u64) -> (r: u64)
    ensures
        r == lesser_double(a, b),
{
    if is_nan_bits(a) {
        a
    } else if is_nan_bits(b) {
        b
    } else if double_compare(a, b) <= 0 {
        a
    } else {
        b
    }
}

/// How `Math.clamp` of doubles ends.
#[derive(Clone, Copy, PartialEq, Eq, Structural)]
pub enum Clamped {
    Bits(u64),
    MinIsNan,
    MaxIsNan,
    /// The lower bound is above the upper one.
    Crossed,
}

/// `Math.clamp` of doubles, by bits: a `NaN` value stays one, a `NaN` bound and
/// crossed bounds are refused.
pub open spec fn clamped_double(v: u64, lo: u64, hi: u64) -> Clamped {
    if is_nan(lo) {
        Clamped::MinIsNan
    } else if is_nan(hi) {
        Clamped::MaxIsNan
    } else if rank(lo) > rank(hi) {
        Clamped::Crossed
    } else if is_nan(v) {
        Clamped::Bits(NAN)
    } else {
        Clamped::Bits(lesser_double(greater_double(v, lo), hi))
    }
}

/// `Math.clamp` of doubles, by bits.
pub fn clamp_double(v: u64, lo: u64, hi: u64) -> (r: Clamped)
    ensures
        r == clamped_double(v, lo, hi),
{
    if is_nan_bits(lo) {
        Clamped::MinIsNan
    } else if is_nan_bits(hi) {
        Clamped::MaxIsNan
    } else if double_compare(lo, hi) > 0 {
        Clamped::Crossed
    } else if is_nan_bits(v) {
        Clamped::Bits(NAN)
    } else {
        Clamped::Bits(min_double(max_double(v, lo), hi))
    }
}

/// A value clamped between bounds lies between them.
pub proof fn clamping_stays_between(v: u64, lo: u64, hi: u64)
    requires
        !is_nan(v),
    ensures
        clamped_double(v, lo, hi) matches Clamped::Bits(r) ==> rank(lo) <= rank(r) <= rank(hi)
            && (rank(lo) <= rank(v) <= rank(hi) ==> r == v),
{
}

/// `Math.clamp` of whole numbers.
pub open spec fn clamped_int(v: int, lo: int, hi: int) -> Result<Val, FaultV> {
    if lo > hi {
        Err(java_fault("IllegalArgumentException"@, dec(lo) + " > "@ + dec(hi)))
    } else if v < lo {
        Ok(Val::Int(lo as i64))
    } else if v > hi {
        Ok(Val::Int(hi as i64))
    } else {
        Ok(Val::Int(v as i64))
    }
}

/// `Math.clamp` of whole numbers.
pub fn clamp_int(v: i64, lo: i64, hi: i64) -> (r: Result<Value, Fault>)
    ensures
        outcome(r) == clamped_int(v as int, lo as int, hi as int),
{
    if lo > hi {
        let mut m: String = int_text(lo);
        m.append(" > ");
        m.append(int_text(hi).as_str());
        Err(Fault::java("IllegalArgumentException", m))
    } else if v < lo {
        Ok(Value::Int(lo))
    } else if v > hi {
        Ok(Value::Int(hi))
    } else {
        Ok(Value::Int(v))
    }
}

/// `Math.abs` of a double: the sign is dropped.
pub fn abs_double(a: u64) -> (r: u64)
    ensures
        r == magnitude(a),
{
    magnitude_of(a)
}

/// `Math.signum`: one with the value's sign; a zero and a `NaN` are themselves.
pub open spec fn sign_double(a: u64) -> u64 {
    if is_nan(a) || magnitude(a) == 0 {
        a
    } else if negative(a) {
        (SIGN + ONE) as u64
    } else {
        ONE
    }
}

/// `Math.signum`.
pub fn signum_double(a: u64) -> (r: u64)
    ensures
        r == sign_double(a),
{
    if is_nan_bits(a) || magnitude_of(a) == 0 {
        a
    } else if a >= SIGN {
        SIGN + ONE
    } else {
        ONE
    }
}

/// `Math.copySign`: the magnitude of `a` with the sign of `b`.
pub open spec fn signed_as(a: u64, b: u64) -> u64 {
    if negative(b) {
        (magnitude(a) + SIGN) as u64
    } else {
        magnitude(a) as u64
    }
}

/// `Math.copySign`.
pub fn copy_sign(a: u64, b: u64) -> (r: u64)
    ensures
        r == signed_as(a, b),
{
    if b >= SIGN {
        magnitude_of(a) + SIGN
    } else {
        magnitude_of(a)
    }
}

/// The results of `Math.pow` that are fixed by rule rather than computed: any
/// base to the power of zero is one, and a `NaN` exponent or an infinite one of
/// a base of magnitude one gives `NaN`.
pub open spec fn ruled_power(a: u64, b: u64) -> Option<u64> {
    if magnitude(b) == 0 {
        Some(ONE)
    } else if is_nan(b) || (magnitude(a) == ONE && magnitude(b) == INFINITY) {
        Some(NAN)
    } else {
        None
    }
}

/// The results of `Math.pow` that are fixed by rule rather than computed.
pub fn pow_rule(a: u64, b: u64) -> (r: Option<u64>)
    ensures
        r == ruled_power(a, b),
{
    let m: u64 = magnitude_of(b);
    if m == 0 {
        Some(ONE)
    } else if m > INFINITY || (magnitude_of(a) == ONE && m == INFINITY) {
        Some(NAN)
    } else {
        None
    }
}

/// `Math.round`: the value plus one half, rounded down. A value with no
/// fractional bits left is narrowed.
pub open spec fn half_rounded(a: u64) -> int {
    let e = exponent(a);
    if e >= 1075 {
        to_long(a)
    } else if e < 1011 {
        0
    } else {
        let d = pow2((1075 - e) as nat) as int;
        let s = if negative(a) {
            -significand(a)
        } else {
            significand(a)
        };
        (2 * s + d) / (2 * d)
    }
}

/// `Math.round` of a `double`.
pub fn round_double(a: u64) -> (r: i64)
    ensures
        r == half_rounded(a),
{
    let e: u64 = magnitude_of(a) / UNIT;
    if e >= 1075 {
        return double_to_long(a);
    }
    if e < 1012 {
        proof {
            if e == 1011 {
                vstd::arithmetic::power2::lemma2_to64();
                vstd::arithmetic::power2::lemma2_to64_rest();
                let d = 0x1_0000_0000_0000_0000int;
                let s = significand(a);
                assert(pow2(64) == d);
                assert((2 * s + d) / (2 * d) == 0 && (2 * (-s) + d) / (2 * d) == 0)
                    by (nonlinear_arith)
                    requires
                        0 <= 2 * s < d,
                ;
            }
        }
        return 0;
    }
    let d: u64 = two_to(1075 - e);
    let s: i128 = if a >= SIGN {
        -((UNIT + a % UNIT) as i128)
    } else {
        (UNIT + a % UNIT) as i128
    };
    let n: i128 = 2 * s + d as i128;
    let dd: i128 = 2 * d as i128;
    // Moved up by a multiple of the divisor, so that it is not negative.
    let up: u128 = (n + 0x40_0000_0000_0000 * dd) as u128;
    let q: u128 = up / dd as u128;
    proof {
        let m = n as int;
        let k = dd as int;
        assert(m + 0x40_0000_0000_0000 * k >= 0) by (nonlinear_arith)
            requires
                m >= -0x40_0000_0000_0000,
                k >= 2,
        ;
        assert((m + 0x40_0000_0000_0000 * k) / k == m / k + 0x40_0000_0000_0000)
            by (nonlinear_arith)
            requires
                k > 0,
        ;
        assert(-0x40_0000_0000_0000 <= m / k <= 0x20_0000_0000_0001) by (nonlinear_arith)
            requires
                -0x40_0000_0000_0000 <= m <= 2 * 0x20_0000_0000_0000 + d,
                k == 2 * d,
                d >= 1,
                k >= 2,
        ;
    }
    (q as i128 - 0x40_0000_0000_0000) as i64
}

/// Rounding half up is within one half of the value.
pub proof fn rounding_is_nearest(a: u64)
    requires
        1011 <= exponent(a) < 1075,
    ensures
        ({
            let d = pow2((1075 - exponent(a)) as nat) as int;
            let s = if negative(a) {
                -significand(a)
            } else {
                significand(a)
            };
            // `s / d` is the value of `a`.
            2 * d * half_rounded(a) - d <= 2 * s < 2 * d * half_rounded(a) + d
        }),
{
    let d = pow2((1075 - exponent(a)) as nat) as int;
    vstd::arithmetic::power2::lemma_pow2_pos((1075 - exponent(a)) as nat);
    let s = if negative(a) {
        -significand(a)
    } else {
        significand(a)
    };
    let n = 2 * s + d;
    let k = 2 * d;
    assert(k * (n / k) <= n < k * (n / k) + k) by (nonlinear_arith)
        requires
            k > 0,
    ;
    assert(2 * d * (n / k) == k * (n / k)) by (nonlinear_arith)
        requires
            k == 2 * d,
    ;
}

/// `Math.ulp`: the bits of the distance to the next `double` away from zero.
pub open spec fn ulp_bits(a: u64) -> u64 {
    let e = exponent(a);
    if is_nan(a) {
        NAN
    } else if magnitude(a) == INFINITY {
        INFINITY
    } else if e <= 1 {
        1
    } else if e <= 52 {
        pow2((e - 1) as nat) as u64
    } else {
        ((e - 52) * UNIT) as u64
    }
}

/// `Math.ulp`, by bits.
pub fn double_ulp(a: u64) -> (r: u64)
    ensures
        r == ulp_bits(a),
{
    let m: u64 = magnitude_of(a);
    let e: u64 = m / UNIT;
    if m > INFINITY {
        NAN
    } else if m == INFINITY {
        INFINITY
    } else if e <= 1 {
        1
    } else if e <= 52 {
        two_to(e - 1)
    } else {
        (e - 52) * UNIT
    }
}

/// `Math.round` of a `float`, which every `double` holding one states exactly:
/// as for a `double`, but saturated at the ends of an `int`.
pub open spec fn half_rounded_int(a: u64) -> int {
    let n = half_rounded(a);
    if n < i32::MIN {
        i32::MIN as int
    } else if n > i32::MAX {
        i32::MAX as int
    } else {
        n
    }
}

/// `Math.round` of a `float`, by the bits of the `double` that holds it.
pub fn round_float(a: u64) -> (r: i32)
    ensures
        r == half_rounded_int(a),
{
    let n: i64 = round_double(a);
    if n < i32::MIN as i64 {
        i32::MIN
    } else if n > i32::MAX as i64 {
        i32::MAX
    } else {
        n as i32
    }
}

// ── Numerals ────────────────────────────────────────────────────────────────

/// A text that is no number.
pub open spec fn number_fault(msg: Seq<char>) -> FaultV {
    java_fault("NumberFormatException"@, msg)
}

/// `parseInt` and `parseLong` of `null`.
pub open spec fn null_number() -> FaultV {
    number_fault("Cannot parse null string"@)
}

/// `parseInt` and `parseLong` of `null`.
pub fn null_number_fault() -> (r: Fault)
    ensures
        r@ == null_number(),
{
    Fault::java("NumberFormatException", own("Cannot parse null string"))
}

/// `parseDouble` and `parseFloat` of `null`, which is another exception.
pub open spec fn null_float_parse() -> FaultV {
    java_fault(
        "NullPointerException"@,
        "Cannot invoke \"String.trim()\" because \"in\" is null"@,
    )
}

/// `parseDouble` and `parseFloat` of `null`.
pub fn null_float_parse_fault() -> (r: Fault)
    ensures
        r@ == null_float_parse(),
{
    Fault::java(
        "NullPointerException",
        own("Cannot invoke \"String.trim()\" because \"in\" is null"),
    )
}

/// `parseInt` and `parseLong`: a signed numeral of the radix that fits the type.
pub open spec fn parsed_int(s: Seq<char>, radix: int, int_width: bool) -> Result<Val, FaultV> {
    if radix < 2 {
        Err(number_fault("radix "@ + dec(radix) + " less than Character.MIN_RADIX"@))
    } else if radix > 36 {
        Err(number_fault("radix "@ + dec(radix) + " greater than Character.MAX_RADIX"@))
    } else {
        match signed(s, radix) {
            Some(n) if i64::MIN <= n <= i64::MAX && (int_width ==> i32::MIN <= n <= i32::MAX) => Ok(
                Val::Int(n as i64),
            ),
            _ => if radix == 10 {
                Err(number_fault("For input string: \""@ + s + "\""@))
            } else {
                Err(
                    number_fault(
                        "For input string: \""@ + s + "\" under radix "@ + dec(radix),
                    ),
                )
            },
        }
    }
}

/// `parseInt` and `parseLong`.
pub fn parse_int_radix(s: &str, radix: i64, int_width: bool) -> (r: Result<Value, Fault>)
    ensures
        outcome(r) == parsed_int(s@, radix as int, int_width),
{
    if radix < 2 || radix > 36 {
        let mut m: String = own("radix ");
        m.append(int_text(radix).as_str());
        if radix < 2 {
            m.append(" less than Character.MIN_RADIX");
        } else {
            m.append(" greater than Character.MAX_RADIX");
        }
        return Err(Fault::java("NumberFormatException", m));
    }
    let v: Vec<char> = chars_of(s);
    assert(v@.subrange(0, v.len() as int) =~= s@);
    match parse_i64(&v, 0, v.len(), radix as u64) {
        Some(n) => {
            if !int_width || (i32::MIN as i64 <= n && n <= i32::MAX as i64) {
                return Ok(Value::Int(n));
            }
        },
        None => {},
    }
    let mut m: String = own("For input string: \"");
    m.append(s);
    if radix == 10 {
        m.append("\"");
    } else {
        m.append("\" under radix ");
        m.append(int_text(radix).as_str());
    }
    Err(Fault::java("NumberFormatException", m))
}

/// `n` in a radix, with a sign.
pub open spec fn signed_digits(n: int, radix: int) -> Seq<char> {
    if n < 0 {
        seq!['-'] + digits(-n, radix)
    } else {
        digits(n, radix)
    }
}

/// `Integer.toString(n, radix)`: a radix out of range stands for ten.
pub open spec fn radix_string(n: int, radix: int) -> Seq<char> {
    if 2 <= radix <= 36 {
        signed_digits(n, radix)
    } else {
        signed_digits(n, 10)
    }
}

/// `Integer.toString(n, radix)`.
pub fn int_to_radix_string(n: i64, radix: i64) -> (r: String)
    ensures
        r@ == radix_string(n as int, radix as int),
{
    let base: u64 = if 2 <= radix && radix <= 36 {
        radix as u64
    } else {
        10
    };
    if n < 0 {
        let mut r: String = String::new();
        r.push('-');
        let m: u64 = (-(n as i128)) as u64;
        r.append(radix_text(m, base).as_str());
        assert(r@ =~= radix_string(n as int, radix as int));
        r
    } else {
        radix_text(n as u64, base)
    }
}

pub proof fn lemma_digits_spell(n: int, radix: int)
    requires
        0 <= n,
        2 <= radix <= 36,
    ensures
        digits(n, radix).len() > 0,
        all_digits(digits(n, radix), radix),
        number(digits(n, radix), radix) == n,
        digits(n, radix)[0] != '-' && digits(n, radix)[0] != '+',
    decreases n,
{
    let d = digits(n, radix);
    if n < radix {
        assert(d =~= seq![digit_char(n)]);
        assert(d.drop_last() =~= seq![]);
        assert(number(seq![], radix) == 0);
    } else {
        assert(0 <= n / radix < n) by (nonlinear_arith)
            requires
                n >= radix,
                radix >= 2,
        ;
        assert(0 <= n % radix < radix) by (nonlinear_arith)
            requires
                radix >= 2,
        ;
        lemma_digits_spell(n / radix, radix);
        let head = digits(n / radix, radix);
        assert(d == head.push(digit_char(n % radix)));
        assert(d.drop_last() =~= head);
        assert((n / radix) * radix + n % radix == n) by (nonlinear_arith)
            requires
                radix >= 2,
        ;
        assert forall|i: int| 0 <= i < d.len() implies is_digit_in(#[trigger] d[i], radix) by {
            if i < head.len() {
                assert(d[i] == head[i]);
            }
        }
        assert(d[0] == head[0]);
    }
}

/// Reading what was written gives the number back, in every radix.
pub proof fn parsing_undoes_printing(n: int, radix: int)
    requires
        i64::MIN <= n <= i64::MAX,
        2 <= radix <= 36,
    ensures
        parsed_int(radix_string(n, radix), radix, false) == Ok::<Val, FaultV>(Val::Int(n as i64)),
{
    let s = radix_string(n, radix);
    if n < 0 {
        lemma_digits_spell(-n, radix);
        assert(s.skip(1) =~= digits(-n, radix));
        assert(s[0] == '-');
    } else {
        lemma_digits_spell(n, radix);
    }
}

} // verus!
