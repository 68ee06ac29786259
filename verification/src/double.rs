//! A `double` as the bits and the decimal texts the rules read.
//!
//! No arithmetic is done on a `double` here: what the comparison, hashing,
//! stepping and rounding rules need is in the bit pattern, and what the
//! rendering rules need is the shortest decimal, which travels with the value.
use vstd::prelude::*;
use vstd::arithmetic::power2::pow2;

verus! {

pub const SIGN: u64 = 0x8000_0000_0000_0000;

/// The first pattern past the fraction: one unit of the exponent.
pub const UNIT: u64 = 0x0010_0000_0000_0000;

pub const INFINITY: u64 = 0x7ff0_0000_0000_0000;

/// The one pattern every `NaN` collapses to.
pub const NAN: u64 = 0x7ff8_0000_0000_0000;

/// A `double`: its IEEE 754 bits, and its decimal renderings.
pub struct Double {
    pub bits: u64,
    /// The shortest decimal that reads back as the value, never in exponent form.
    pub plain: String,
    /// The same digits as `d.ddde±x`.
    pub sci: String,
    /// The magnitude in exponent form with nineteen significant digits.
    pub wide: String,
    /// `Float.toString` of the value rounded to 32 bits.
    pub narrow: String,
}

pub struct DoubleV {
    pub bits: u64,
    pub plain: Seq<char>,
    pub sci: Seq<char>,
    pub wide: Seq<char>,
    pub narrow: Seq<char>,
}

impl View for Double {
    type V = DoubleV;

    open spec fn view(&self) -> DoubleV {
        DoubleV {
            bits: self.bits,
            plain: self.plain@,
            sci: self.sci@,
            wide: self.wide@,
            narrow: self.narrow@,
        }
    }
}

impl Double {
    pub fn copy(&self) -> (r: Double)
        ensures
            r@ == self@,
    {
        Double {
            bits: self.bits,
            plain: crate::text::own(self.plain.as_str()),
            sci: crate::text::own(self.sci.as_str()),
            wide: crate::text::own(self.wide.as_str()),
            narrow: crate::text::own(self.narrow.as_str()),
        }
    }
}

pub open spec fn negative(bits: u64) -> bool {
    bits >= SIGN
}

/// The pattern without its sign.
pub open spec fn magnitude(bits: u64) -> int {
    bits as int % 0x8000_0000_0000_0000
}

pub open spec fn is_nan(bits: u64) -> bool {
    magnitude(bits) > INFINITY
}

/// The biased exponent.
pub open spec fn exponent(bits: u64) -> int {
    magnitude(bits) / 0x10_0000_0000_0000
}

/// The significand of a normal number, as an integer of 53 bits.
pub open spec fn significand(bits: u64) -> int {
    0x10_0000_0000_0000 + bits as int % 0x10_0000_0000_0000
}

/// `Double.doubleToLongBits`: the bits, with every `NaN` as one pattern.
pub open spec fn canonical(bits: u64) -> u64 {
    if is_nan(bits) {
        NAN
    } else {
        bits
    }
}

/// The place of a pattern in the order of its bits: negatives below zero, with
/// `-0.0` just below `0.0`.
pub open spec fn rank(bits: u64) -> int {
    if negative(bits) {
        -1 - magnitude(bits)
    } else {
        magnitude(bits)
    }
}

/// The sign of `n`.
pub open spec fn sign_of(n: int) -> int {
    if n < 0 {
        -1
    } else if n == 0 {
        0
    } else {
        1
    }
}

pub fn magnitude_of(bits: u64) -> (r: u64)
    ensures
        r == magnitude(bits),
{
    bits % 0x8000_0000_0000_0000
}

pub fn is_nan_bits(bits: u64) -> (r: bool)
    ensures
        r == is_nan(bits),
{
    magnitude_of(bits) > INFINITY
}

/// `Double.doubleToLongBits`.
pub fn canonical_bits(bits: u64) -> (r: u64)
    ensures
        r == canonical(bits),
{
    if is_nan_bits(bits) {
        NAN
    } else {
        bits
    }
}

/// `compareTo` of two `double`s: a total order in which `-0.0` is below `0.0`,
/// and `NaN` equals itself and is above everything else.
pub fn double_compare(a: u64, b: u64) -> (r: i64)
    ensures
        r == sign_of(rank(canonical(a)) - rank(canonical(b))),
{
    let a: u64 = canonical_bits(a);
    let b: u64 = canonical_bits(b);
    let x: i128 = if a >= SIGN {
        -1 - magnitude_of(a) as i128
    } else {
        magnitude_of(a) as i128
    };
    let y: i128 = if b >= SIGN {
        -1 - magnitude_of(b) as i128
    } else {
        magnitude_of(b) as i128
    };
    if x < y {
        -1
    } else if x == y {
        0
    } else {
        1
    }
}

/// `Double.compare`, which is the order of `compareTo`.
pub fn float_compare(a: u64, b: u64) -> (r: i64)
    ensures
        r == sign_of(rank(canonical(a)) - rank(canonical(b))),
{
    double_compare(a, b)
}

/// `Double.compare` is a total order: it answers zero exactly for the same
/// canonical bits, reverses with its arguments, and is transitive.
pub proof fn compare_is_a_total_order(a: u64, b: u64, c: u64)
    ensures
        sign_of(rank(canonical(a)) - rank(canonical(b))) == 0 <==> canonical(a) == canonical(b),
        sign_of(rank(canonical(a)) - rank(canonical(b))) == -sign_of(
            rank(canonical(b)) - rank(canonical(a)),
        ),
        sign_of(rank(canonical(a)) - rank(canonical(b))) <= 0 && sign_of(
            rank(canonical(b)) - rank(canonical(c)),
        ) <= 0 ==> sign_of(rank(canonical(a)) - rank(canonical(c))) <= 0,
{
}

/// `NaN` sorts above every other value, and `-0.0` strictly below `0.0`.
pub proof fn compare_of_nan_and_zeros(a: u64)
    ensures
        !is_nan(a) ==> rank(canonical(a)) < rank(NAN),
        is_nan(a) ==> rank(canonical(a)) == rank(NAN),
        rank(canonical(SIGN)) < rank(canonical(0)),
{
}

/// Numeric equality: `NaN` equals nothing and the two zeros are equal.
pub open spec fn numerically_equal(a: u64, b: u64) -> bool {
    !is_nan(a) && !is_nan(b) && (a == b || (magnitude(a) == 0 && magnitude(b) == 0))
}

pub fn numeric_eq(a: u64, b: u64) -> (r: bool)
    ensures
        r == numerically_equal(a, b),
{
    !is_nan_bits(a) && !is_nan_bits(b) && (a == b || (magnitude_of(a) == 0 && magnitude_of(b)
        == 0))
}

/// 2 to the power of `k`.
pub fn two_to(k: u64) -> (r: u64)
    requires
        k < 64,
    ensures
        r == pow2(k as nat),
        r >= 1,
{
    let mut r: u64 = 1;
    let mut i: u64 = 0;
    proof {
        vstd::arithmetic::power2::lemma2_to64();
    }
    while i < k
        invariant
            i <= k < 64,
            r == pow2(i as nat),
            r >= 1,
        decreases k - i,
    {
        proof {
            vstd::arithmetic::power2::lemma_pow2_unfold((i + 1) as nat);
            vstd::arithmetic::power2::lemma2_to64();
            vstd::arithmetic::power2::lemma2_to64_rest();
            if i + 1 < 63 {
                vstd::arithmetic::power2::lemma_pow2_strictly_increases((i + 1) as nat, 63);
            }
        }
        r = r * 2;
        i += 1;
    }
    r
}

/// The value of `bits` with its fraction dropped, at its full magnitude.
pub open spec fn whole(bits: u64) -> int {
    let e = exponent(bits);
    if e < 1023 {
        0
    } else if e < 1075 {
        significand(bits) / pow2((1075 - e) as nat) as int
    } else {
        significand(bits) * pow2((e - 1075) as nat)
    }
}

/// Java's narrowing of a `double` to a `long`: truncation toward zero, `NaN`
/// to 0, and saturation at both ends.
pub open spec fn to_long(bits: u64) -> int {
    if is_nan(bits) {
        0
    } else {
        let n = if negative(bits) {
            -whole(bits)
        } else {
            whole(bits)
        };
        if magnitude(bits) == INFINITY || n < i64::MIN || n > i64::MAX {
            if negative(bits) {
                i64::MIN as int
            } else {
                i64::MAX as int
            }
        } else {
            n
        }
    }
}

/// Java's narrowing of a `double` to a `long`.
pub fn double_to_long(bits: u64) -> (r: i64)
    ensures
        r == to_long(bits),
{
    let m: u64 = magnitude_of(bits);
    let e: u64 = m / UNIT;
    let neg: bool = bits >= SIGN;
    if m > INFINITY {
        return 0;
    }
    if e < 1023 {
        return 0;
    }
    let s: u64 = UNIT + bits % UNIT;
    if e >= 1086 {
        proof {
            if m != INFINITY {
                let k = (e - 1075) as nat;
                vstd::arithmetic::power2::lemma2_to64();
                if k > 11 {
                    vstd::arithmetic::power2::lemma_pow2_strictly_increases(11, k);
                }
                assert(s * pow2(k) >= 0x10_0000_0000_0000 * 2048) by (nonlinear_arith)
                    requires
                        s >= 0x10_0000_0000_0000,
                        pow2(k) >= 2048,
                ;
            }
        }
        return if neg {
            i64::MIN
        } else {
            i64::MAX
        };
    }
    proof {
        vstd::arithmetic::power2::lemma2_to64();
    }
    let w: u64 = if e < 1075 {
        let d: u64 = two_to(1075 - e);
        proof {
            assert(0 <= s as int / d as int <= s) by (nonlinear_arith)
                requires
                    d >= 1,
                    s >= 0,
            ;
        }
        s / d
    } else {
        let d: u64 = two_to(e - 1075);
        proof {
            if e > 1075 && e < 1085 {
                vstd::arithmetic::power2::lemma_pow2_strictly_increases((e - 1075) as nat, 10);
            }
            assert(d <= 1024);
            assert(s * d <= 0x1f_ffff_ffff_ffff * 1024) by (nonlinear_arith)
                requires
                    s <= 0x1f_ffff_ffff_ffff,
                    d <= 1024,
            ;
        }
        s * d
    };
    if neg {
        -(w as i64)
    } else {
        w as i64
    }
}

/// Whether the value is a whole number of magnitude below 2^53, where `long`
/// and `double` name the same integers one for one.
pub open spec fn exact_whole(bits: u64) -> bool {
    let e = exponent(bits);
    magnitude(bits) == 0 || (1023 <= e < 1076 && (e < 1075 ==> significand(bits) % (pow2(
        (1075 - e) as nat,
    ) as int) == 0))
}

/// Whether the value is a whole number of magnitude below 2^53.
pub fn is_exact_whole(bits: u64) -> (r: bool)
    ensures
        r == exact_whole(bits),
{
    let m: u64 = magnitude_of(bits);
    let e: u64 = m / UNIT;
    if m == 0 {
        return true;
    }
    if e < 1023 || e >= 1076 {
        return false;
    }
    if e == 1075 {
        return true;
    }
    let s: u64 = UNIT + bits % UNIT;
    s % two_to(1075 - e) == 0
}

/// The pattern next to `start` toward `direction`, `direction` itself when the
/// two are equal, and `NaN` when either is one.
pub open spec fn next_toward(start: u64, direction: u64) -> u64 {
    if is_nan(start) || is_nan(direction) {
        NAN
    } else if numerically_equal(start, direction) {
        direction
    } else {
        let up = rank(direction) > rank(start);
        if magnitude(start) == 0 {
            if up {
                1
            } else {
                (SIGN + 1) as u64
            }
        } else if up != negative(start) {
            (start + 1) as u64
        } else {
            (start - 1) as u64
        }
    }
}

/// `Math.nextAfter`.
pub fn next_after(start: u64, direction: u64) -> (r: u64)
    ensures
        r == next_toward(start, direction),
{
    if is_nan_bits(start) || is_nan_bits(direction) {
        return NAN;
    }
    if numeric_eq(start, direction) {
        return direction;
    }
    let up: bool = double_compare(direction, start) > 0;
    if magnitude_of(start) == 0 {
        return if up {
            1
        } else {
            SIGN + 1
        };
    }
    if up != (start >= SIGN) {
        start + 1
    } else {
        start - 1
    }
}

/// `Math.nextAfter` steps strictly toward its second argument and passes over
/// nothing: no value lies between the two.
pub proof fn next_after_is_adjacent(start: u64, direction: u64, between: u64)
    requires
        !is_nan(start),
        !is_nan(direction),
        !is_nan(between),
        !numerically_equal(start, direction),
        !numerically_equal(between, start),
    ensures
        rank(direction) > rank(start) && rank(between) > rank(start) ==> rank(between) >= rank(
            next_toward(start, direction),
        ),
        rank(direction) < rank(start) && rank(between) < rank(start) ==> rank(between) <= rank(
            next_toward(start, direction),
        ),
{
}

} // verus!
