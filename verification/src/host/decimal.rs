//! Laying decimal digits out: `Double.toString`, `%f`, `%e`, grouping, and the
//! grammar of floating literals.
//!
//! The digits come with the value (see [`Double`]); what is decided here is
//! where they are cut, how they round, and how they are set down.
use vstd::prelude::*;

use crate::double::{
    Double, DoubleV, INFINITY, SIGN, is_nan, is_nan_bits, magnitude, magnitude_of, negative,
};
use crate::text::{
    char_index, chars_of, code_of, dec, digit_value, find_char, int_text, number, own, parse_i64,
    part, push_chars, push_text, push_times, same, signed, text_between, text_of,
};

verus! {

pub open spec fn is_dec(c: char) -> bool {
    '0' <= c <= '9'
}

/// The decimal digits of `s`, in order.
pub open spec fn only_digits(s: Seq<char>) -> Seq<char>
    decreases s.len(),
{
    if s.len() == 0 {
        seq![]
    } else if is_dec(s.last()) {
        only_digits(s.drop_last()).push(s.last())
    } else {
        only_digits(s.drop_last())
    }
}

/// `n` zeros, none when `n` is negative.
pub open spec fn zeros(n: int) -> Seq<char> {
    Seq::new(
        if n < 0 {
            0
        } else {
            n as nat
        },
        |i: int| '0',
    )
}

fn digits_in(v: &Vec<char>, from: usize, to: usize) -> (r: Vec<char>)
    requires
        from <= to <= v.len(),
    ensures
        r@ == only_digits(v@.subrange(from as int, to as int)),
        forall|i: int| 0 <= i < r.len() ==> is_dec(#[trigger] r@[i]),
{
    let mut r: Vec<char> = Vec::new();
    let mut i: usize = from;
    while i < to
        invariant
            from <= i <= to <= v.len(),
            r@ == only_digits(v@.subrange(from as int, i as int)),
            forall|k: int| 0 <= k < r.len() ==> is_dec(#[trigger] r@[k]),
        decreases to - i,
    {
        proof {
            let t = v@.subrange(from as int, i + 1);
            assert(t.drop_last() =~= v@.subrange(from as int, i as int));
            assert(t.last() == v@[i as int]);
        }
        let c: char = v[i];
        if '0' <= c && c <= '9' {
            r.push(c);
        }
        i += 1;
    }
    r
}

/// Whether an exponent form has a single digit before its `e`.
///
/// `Double.toString` takes the decimals of one or two digits as candidates when
/// one digit suffices, so a two-digit decimal that is nearer wins; this is the
/// condition under which that can matter.
pub open spec fn one_digit(sci: Seq<char>) -> bool {
    let e = char_index(sci, 'e', 0);
    e >= 0 && only_digits(sci.take(e)).len() == 1
}

/// Whether an exponent form has a single digit before its `e`.
pub fn shortest_is_one_digit(sci: &str) -> (r: bool)
    ensures
        r == one_digit(sci@),
{
    let v: Vec<char> = chars_of(sci);
    match find_char(&v, 'e', 0) {
        None => false,
        Some(e) => {
            assert(v@.subrange(0, e as int) =~= sci@.take(e as int));
            digits_in(&v, 0, e).len() == 1
        },
    }
}

/// The integer after the `e` of an exponent form, when it is one of 32 bits.
pub open spec fn exponent_at(s: Seq<char>, e: int) -> Option<int> {
    match signed(s.skip(e + 1), 10) {
        Some(n) if i32::MIN <= n <= i32::MAX => Some(n),
        _ => None,
    }
}

fn read_exponent(v: &Vec<char>, e: usize) -> (r: Option<i64>)
    requires
        e < v.len(),
    ensures
        match (r, exponent_at(v@, e as int)) {
            (Some(x), Some(y)) => x == y && -0x8000_0000 <= x <= 0x7fff_ffff,
            (None, None) => true,
            _ => false,
        },
{
    assert(v@.subrange(e + 1, v.len() as int) =~= v@.skip(e + 1));
    match parse_i64(v, e + 1, v.len(), 10) {
        Some(n) if -0x8000_0000 <= n && n <= 0x7fff_ffff => Some(n),
        _ => None,
    }
}

/// Two significant digits nearest to an expansion `d.ddd…`, ties to even, as a
/// number from 10 to 100.
pub open spec fn two_digits(d: Seq<char>) -> int {
    let two = digit_value(d[0]) * 10 + digit_value(d[1]);
    let third = digit_value(d[2]);
    let rest = exists|i: int| 3 <= i < d.len() && d[i] != '0';
    if third > 5 || (third == 5 && rest) || (third == 5 && two % 2 == 1) {
        two + 1
    } else {
        two
    }
}

/// The two-digit decimal nearest to a nineteen-digit expansion, with its
/// exponent; `None` when it has a trailing zero and so is one digit after all.
pub open spec fn widened(wide: Seq<char>) -> Option<(Seq<char>, int)> {
    let e = char_index(wide, 'e', 0);
    let d = only_digits(wide.take(e));
    if e < 0 || exponent_at(wide, e) is None || d.len() < 3 {
        None
    } else {
        let n = two_digits(d);
        let exp = exponent_at(wide, e)->0;
        if n % 10 == 0 {
            None
        } else {
            Some((dec(n), exp))
        }
    }
}

/// The two-digit widening of a one-digit decimal, from the exact expansion.
pub fn widen_exact(wide: &str) -> (r: Option<(String, i64)>)
    ensures
        match (r, widened(wide@)) {
            (Some(x), Some(y)) => x.0@ == y.0 && x.1 == y.1 && -0x8000_0000 <= x.1 <= 0x7fff_ffff,
            (None, None) => true,
            _ => false,
        },
{
    let v: Vec<char> = chars_of(wide);
    let e: usize = match find_char(&v, 'e', 0) {
        None => {
            return None;
        },
        Some(e) => e,
    };
    let exp: i64 = match read_exponent(&v, e) {
        None => {
            return None;
        },
        Some(x) => x,
    };
    assert(v@.subrange(0, e as int) =~= wide@.take(e as int));
    let d: Vec<char> = digits_in(&v, 0, e);
    if d.len() < 3 {
        return None;
    }
    assert(is_dec(d@[0]) && is_dec(d@[1]) && is_dec(d@[2]));
    let two: u32 = (code_of(d[0]) - 48) * 10 + (code_of(d[1]) - 48);
    let third: u32 = code_of(d[2]) - 48;
    let mut rest: bool = false;
    let mut i: usize = 3;
    while i < d.len()
        invariant
            3 <= i <= d.len(),
            rest == (exists|k: int| 3 <= k < i && d@[k] != '0'),
        decreases d.len() - i,
    {
        if d[i] != '0' {
            rest = true;
        }
        i += 1;
    }
    let n: u32 = if third > 5 || (third == 5 && rest) || (third == 5 && two % 2 == 1) {
        two + 1
    } else {
        two
    };
    assert(n == two_digits(d@));
    if n % 10 == 0 {
        return None;
    }
    Some((int_text(n as i64), exp))
}

/// `d.ddd × 10^exp` written out in full, with at least one fractional digit.
pub open spec fn in_full(digits: Seq<char>, exp: int) -> Seq<char> {
    if exp < 0 {
        "0."@ + zeros(-exp - 1) + digits
    } else if digits.len() <= exp + 1 {
        digits + zeros(exp + 1 - digits.len()) + ".0"@
    } else {
        digits.take(exp + 1) + "."@ + digits.skip(exp + 1)
    }
}

/// `d.ddd × 10^exp` written out in full.
pub fn plain_form(digits: &str, exp: i64) -> (r: String)
    requires
        -0x8000_0000 <= exp <= 0x7fff_ffff,
    ensures
        r@ == in_full(digits@, exp as int),
{
    let d: Vec<char> = chars_of(digits);
    let mut r: Vec<char> = Vec::new();
    if exp < 0 {
        push_text(&mut r, "0.");
        push_times(&mut r, '0', (-exp - 1) as usize);
        push_text(&mut r, digits);
        assert(r@ =~= in_full(digits@, exp as int));
        return text_of(&r);
    }
    let int_len: u64 = exp as u64 + 1;
    if d.len() as u64 <= int_len {
        push_text(&mut r, digits);
        push_times(&mut r, '0', (int_len - d.len() as u64) as usize);
        push_text(&mut r, ".0");
        assert(r@ =~= in_full(digits@, exp as int));
        text_of(&r)
    } else {
        let at: usize = int_len as usize;
        push_chars(&mut r, &part(&d, 0, at));
        push_text(&mut r, ".");
        push_chars(&mut r, &part(&d, at, d.len()));
        assert(r@ =~= in_full(digits@, exp as int));
        text_of(&r)
    }
}

/// `d.ddd × 10^exp` as `d.ddde±x`.
pub open spec fn with_exponent(digits: Seq<char>, exp: int) -> Seq<char> {
    if digits.len() > 1 {
        digits.take(1) + "."@ + digits.skip(1) + "e"@ + dec(exp)
    } else {
        digits + "e"@ + dec(exp)
    }
}

/// `d.ddd × 10^exp` as `d.ddde±x`.
pub fn sci_form(digits: &str, exp: i64) -> (r: String)
    ensures
        r@ == with_exponent(digits@, exp as int),
{
    let d: Vec<char> = chars_of(digits);
    let mut r: String = String::new();
    if d.len() > 1 {
        r.append(text_between(&d, 0, 1).as_str());
        r.append(".");
        r.append(text_between(&d, 1, d.len()).as_str());
        r.append("e");
        r.append(int_text(exp).as_str());
        assert(r@ =~= with_exponent(digits@, exp as int));
    } else {
        r.append(digits);
        r.append("e");
        r.append(int_text(exp).as_str());
        assert(r@ =~= with_exponent(digits@, exp as int));
    }
    r
}

/// `1e-3` as bits.
pub const PLAIN_FROM: u64 = 0x3f50_624d_d2f1_a9fc;

/// `1e7` as bits.
pub const PLAIN_TO: u64 = 0x4163_12d0_0000_0000;

/// The layout `Double.toString` and `Float.toString` share, given the shortest
/// renderings: plain from `1e-3` up to `1e7`, an exponent with a capital `E`
/// outside, and always a fractional digit.
pub open spec fn ieee_layout(bits: u64, plain: Seq<char>, sci: Seq<char>) -> Seq<char> {
    let m = magnitude(bits);
    if is_nan(bits) {
        "NaN"@
    } else if m == INFINITY {
        if negative(bits) {
            "-Infinity"@
        } else {
            "Infinity"@
        }
    } else if m == 0 {
        if negative(bits) {
            "-0.0"@
        } else {
            "0.0"@
        }
    } else if PLAIN_FROM <= m < PLAIN_TO {
        if plain.contains('.') {
            plain
        } else {
            plain + ".0"@
        }
    } else {
        let e = char_index(sci, 'e', 0);
        if e < 0 {
            sci
        } else {
            let mantissa = if sci.take(e).contains('.') {
                sci.take(e)
            } else {
                sci.take(e) + ".0"@
            };
            mantissa + "E"@ + sci.skip(e + 1)
        }
    }
}

fn has_point(v: &Vec<char>, to: usize) -> (r: bool)
    requires
        to <= v.len(),
    ensures
        r == v@.take(to as int).contains('.'),
{
    let t: Vec<char> = part(v, 0, to);
    assert(t@ =~= v@.take(to as int));
    match find_char(&t, '.', 0) {
        Some(i) => {
            assert(t@[i as int] == '.');
            true
        },
        None => false,
    }
}

/// The layout `Double.toString` and `Float.toString` share.
pub fn format_ieee(bits: u64, plain: &str, sci: &str) -> (r: String)
    ensures
        r@ == ieee_layout(bits, plain@, sci@),
{
    let m: u64 = magnitude_of(bits);
    let neg: bool = bits >= SIGN;
    if m > INFINITY {
        return own("NaN");
    }
    if m == INFINITY {
        return if neg {
            own("-Infinity")
        } else {
            own("Infinity")
        };
    }
    if m == 0 {
        return if neg {
            own("-0.0")
        } else {
            own("0.0")
        };
    }
    if PLAIN_FROM <= m && m < PLAIN_TO {
        let v: Vec<char> = chars_of(plain);
        let mut r: String = own(plain);
        assert(v@.take(v.len() as int) =~= plain@);
        if !has_point(&v, v.len()) {
            r.append(".0");
        }
        return r;
    }
    let v: Vec<char> = chars_of(sci);
    match find_char(&v, 'e', 0) {
        None => own(sci),
        Some(e) => {
            let mut r: String = text_between(&v, 0, e);
            assert(r@ =~= sci@.take(e as int));
            if !has_point(&v, e) {
                r.append(".0");
            }
            r.append("E");
            let tail: String = text_between(&v, e + 1, v.len());
            assert(tail@ =~= sci@.skip(e + 1));
            r.append(tail.as_str());
            r
        },
    }
}

/// `-` in front of a negative value's digits.
pub open spec fn signed_text(bits: u64, s: Seq<char>) -> Seq<char> {
    if negative(bits) {
        "-"@ + s
    } else {
        s
    }
}

/// `Double.toString`.
pub open spec fn double_text(d: DoubleV) -> Seq<char> {
    let finite = magnitude(d.bits) < INFINITY && magnitude(d.bits) != 0;
    match widened(d.wide) {
        Some((digits, exp)) if finite && one_digit(d.sci) => ieee_layout(
            d.bits,
            signed_text(d.bits, in_full(digits, exp)),
            signed_text(d.bits, with_exponent(digits, exp)),
        ),
        _ => ieee_layout(d.bits, d.plain, d.sci),
    }
}

/// `Double.toString`.
pub fn format_double(d: &Double) -> (r: String)
    ensures
        r@ == double_text(d@),
{
    let m: u64 = magnitude_of(d.bits);
    if m < INFINITY && m != 0 && shortest_is_one_digit(d.sci.as_str()) {
        if let Some((digits, exp)) = widen_exact(d.wide.as_str()) {
            let mut p: String = String::new();
            let mut s: String = String::new();
            if d.bits >= SIGN {
                p.append("-");
                s.append("-");
            }
            p.append(plain_form(digits.as_str(), exp).as_str());
            s.append(sci_form(digits.as_str(), exp).as_str());
            assert(p@ =~= signed_text(d.bits, in_full(digits@, exp as int)));
            assert(s@ =~= signed_text(d.bits, with_exponent(digits@, exp as int)));
            return format_ieee(d.bits, p.as_str(), s.as_str());
        }
    }
    format_ieee(d.bits, d.plain.as_str(), d.sci.as_str())
}

// ── Rounding a digit string ─────────────────────────────────────────────────

/// A digit string one unit up in its last place. A point is passed over; a
/// carry out of the front adds a digit.
pub open spec fn bumped(s: Seq<char>) -> Seq<char>
    decreases s.len(),
{
    if s.len() == 0 {
        seq!['1']
    } else if s.last() == '.' {
        bumped(s.drop_last()).push('.')
    } else if s.last() == '9' {
        bumped(s.drop_last()).push('0')
    } else {
        s.drop_last().push((s.last() as int + 1) as char)
    }
}

/// Digits, with points between them at most.
pub open spec fn numeric_text(s: Seq<char>) -> bool {
    forall|i: int| 0 <= i < s.len() ==> is_dec(#[trigger] s[i]) || s[i] == '.'
}

fn next_digit(c: char) -> (r: char)
    requires
        '0' <= c < '9',
    ensures
        r == (c as int + 1) as char,
{
    (code_of(c) as u8 + 1) as char
}

/// Move a digit string one unit up in its last place.
pub fn bump(s: &Vec<char>) -> (r: Vec<char>)
    requires
        numeric_text(s@),
    ensures
        r@ == bumped(s@),
        numeric_text(r@),
{
    let mut at: usize = s.len();
    let mut tail: Vec<char> = Vec::new();
    proof {
        assert(s@.take(at as int) =~= s@);
        assert(tail@.reverse() =~= seq![]);
    }
    while at > 0 && (s[at - 1] == '9' || s[at - 1] == '.')
        invariant
            at <= s.len(),
            numeric_text(s@),
            numeric_text(tail@),
            bumped(s@) =~= bumped(s@.take(at as int)) + tail@.reverse(),
        decreases at,
    {
        let ghost before = tail@;
        let ghost c = if s@[at - 1] == '.' {
            '.'
        } else {
            '0'
        };
        if s[at - 1] == '.' {
            tail.push('.');
        } else {
            tail.push('0');
        }
        proof {
            let t = s@.take(at as int);
            assert(t.last() == s@[at - 1]);
            assert(t.drop_last() =~= s@.take(at - 1));
            assert(tail@.reverse() =~= seq![c] + before.reverse());
        }
        at -= 1;
    }
    let mut r: Vec<char> = Vec::new();
    if at == 0 {
        r.push('1');
        assert(s@.take(0) =~= seq![]);
    } else {
        let c: char = s[at - 1];
        assert(is_dec(s@[at - 1]));
        r = part(s, 0, at - 1);
        r.push(next_digit(c));
        proof {
            let t = s@.take(at as int);
            assert(t.last() == s@[at - 1]);
            assert(t.drop_last() =~= s@.take(at - 1));
            assert(s@.subrange(0, at - 1) =~= s@.take(at - 1));
        }
    }
    assert(r@ =~= bumped(s@.take(at as int)));
    assert(numeric_text(r@));
    let mut i: usize = tail.len();
    let ghost head = r@;
    while i > 0
        invariant
            i <= tail.len(),
            numeric_text(tail@),
            numeric_text(r@),
            r@ =~= head + tail@.reverse().take(tail.len() - i),
        decreases i,
    {
        i -= 1;
        r.push(tail[i]);
    }
    assert(tail@.reverse().take(tail.len() as int) =~= tail@.reverse());
    r
}

/// Moving a digit string up adds exactly one to the number it spells.
pub proof fn bumping_adds_one(s: Seq<char>)
    requires
        forall|i: int| 0 <= i < s.len() ==> is_dec(#[trigger] s[i]),
    ensures
        number(bumped(s), 10) == number(s, 10) + 1,
        bumped(s).len() == s.len() || bumped(s).len() == s.len() + 1,
    decreases s.len(),
{
    if s.len() == 0 {
        assert(seq!['1'].drop_last() =~= Seq::<char>::empty());
        assert(number(Seq::<char>::empty(), 10) == 0);
        assert(digit_value('1') == 1);
    } else {
        let t = s.drop_last();
        assert(is_dec(s[s.len() - 1]));
        assert forall|i: int| 0 <= i < t.len() implies is_dec(#[trigger] t[i]) by {
            assert(t[i] == s[i]);
        }
        bumping_adds_one(t);
        assert(bumped(s).drop_last() =~= (if s.last() == '9' {
            bumped(t)
        } else {
            t
        }));
    }
}

// ── `%f` and `%e` ───────────────────────────────────────────────────────────

/// The digits of the magnitude: the plain rendering without a sign.
pub open spec fn unsigned_text(s: Seq<char>) -> Seq<char> {
    if s.len() > 0 && s[0] == '-' {
        s.skip(1)
    } else {
        s
    }
}

/// A plain rendering with a point, and zeros so that more than `prec` digits
/// follow it.
pub open spec fn stretched(plain: Seq<char>, prec: int) -> Seq<char> {
    let s = if plain.contains('.') {
        plain
    } else {
        plain.push('.')
    };
    let after = s.len() - char_index(s, '.', 0) - 1;
    s + zeros(prec + 1 - after)
}

/// Where `prec` decimals end; the point itself is cut off with the fraction.
pub open spec fn cut_at(s: Seq<char>, prec: int) -> int {
    char_index(s, '.', 0) + (if prec == 0 {
        0
    } else {
        prec + 1
    })
}

/// The first decimal digit at or after `i`, `0` when there is none.
pub open spec fn digit_from(s: Seq<char>, i: int) -> char
    decreases s.len() - i,
{
    if i < 0 || i >= s.len() {
        '0'
    } else if is_dec(s[i]) {
        s[i]
    } else {
        digit_from(s, i + 1)
    }
}

/// A decimal rendering with `prec` decimals, rounded half up on its digits.
pub open spec fn half_up(plain: Seq<char>, prec: int) -> Seq<char> {
    let s = stretched(plain, prec);
    let cut = cut_at(s, prec);
    if digit_from(s, cut) >= '5' {
        bumped(s.take(cut))
    } else {
        s.take(cut)
    }
}

/// The magnitude of a value that is not finite, in words.
pub open spec fn unbounded_text(bits: u64) -> Seq<char> {
    if is_nan(bits) {
        "NaN"@
    } else {
        "Infinity"@
    }
}

/// The magnitude of a value that is not finite, in words.
pub fn unbounded_word(bits: u64) -> (r: String)
    ensures
        r@ == unbounded_text(bits),
{
    own(
        if is_nan_bits(bits) {
            "NaN"
        } else {
            "Infinity"
        },
    )
}

/// `%f` of a magnitude: fixed-point, rounded half up on the shortest decimal.
pub open spec fn fixed_text(d: DoubleV, prec: int) -> Seq<char> {
    if magnitude(d.bits) >= INFINITY {
        unbounded_text(d.bits)
    } else {
        half_up(unsigned_text(d.plain), prec)
    }
}

/// A decimal rendering with `prec` decimals, rounded half up on its digits.
pub fn round_half_up(plain: &Vec<char>, prec: usize) -> (r: Vec<char>)
    requires
        numeric_text(plain@),
    ensures
        r@ == half_up(plain@, prec as int),
        numeric_text(r@),
{
    let mut s: Vec<char> = part(plain, 0, plain.len());
    assert(s@ =~= plain@);
    let point: usize = match find_char(&s, '.', 0) {
        Some(i) => {
            assert(s@[i as int] == '.');
            assert(plain@.contains('.'));
            i
        },
        None => {
            s.push('.');
            proof {
                assert(!plain@.contains('.'));
                lemma_char_index_push(plain@, '.', 0);
            }
            s.len() - 1
        },
    };
    let ghost base = s@;
    let after: usize = s.len() - point - 1;
    if after <= prec {
        push_times(&mut s, '0', prec - after);
        assert(s.len() == point + prec + 1);
        s.push('0');
    }
    assert(s.len() as int >= point + prec + 2);
    proof {
        assert(s@ =~= stretched(plain@, prec as int));
        lemma_char_index_append(base, zeros(prec + 1 - after), '.', 0);
        assert(char_index(s@, '.', 0) == point);
        assert(numeric_text(s@));
    }
    let cut: usize = if prec == 0 {
        point
    } else {
        point + prec + 1
    };
    let mut i: usize = cut;
    while i < s.len() && !('0' <= s[i] && s[i] <= '9')
        invariant
            cut <= i <= s.len(),
            digit_from(s@, cut as int) == digit_from(s@, i as int),
        decreases s.len() - i,
    {
        i += 1;
    }
    let head: Vec<char> = part(&s, 0, cut);
    assert(head@ =~= s@.take(cut as int));
    assert(numeric_text(head@));
    if i < s.len() && s[i] >= '5' {
        bump(&head)
    } else {
        head
    }
}

proof fn lemma_char_index_push(s: Seq<char>, c: char, from: int)
    requires
        !s.contains(c),
        0 <= from <= s.len(),
    ensures
        char_index(s.push(c), c, from) == s.len(),
    decreases s.len() - from,
{
    if from < s.len() {
        assert(s.contains(s[from]));
        lemma_char_index_push(s, c, from + 1);
    }
}

proof fn lemma_char_index_append(s: Seq<char>, t: Seq<char>, c: char, from: int)
    requires
        char_index(s, c, from) >= 0,
        0 <= from,
    ensures
        char_index(s + t, c, from) == char_index(s, c, from),
    decreases s.len() - from,
{
    if from < s.len() && s[from] != c {
        lemma_char_index_append(s, t, c, from + 1);
    }
}

/// `%f` of a magnitude.
pub fn fixed_half_up(d: &Double, prec: usize) -> (r: String)
    requires
        numeric_text(unsigned_text(d@.plain)) || magnitude(d.bits) >= INFINITY,
    ensures
        r@ == fixed_text(d@, prec as int),
{
    if magnitude_of(d.bits) >= INFINITY {
        return unbounded_word(d.bits);
    }
    let v: Vec<char> = chars_of(d.plain.as_str());
    let u: Vec<char> = if v.len() > 0 && v[0] == '-' {
        part(&v, 1, v.len())
    } else {
        part(&v, 0, v.len())
    };
    assert(u@ =~= unsigned_text(d@.plain));
    text_of(&round_half_up(&u, prec))
}

/// The first `prec + 1` significant digits of an exponent form, rounded half
/// up, with their exponent. A carry out of the front moves the exponent up.
pub open spec fn sci_digits(sci: Seq<char>, prec: int) -> (Seq<char>, int) {
    let e = char_index(sci, 'e', 0);
    let all = if e < 0 {
        only_digits(sci)
    } else {
        only_digits(sci.take(e))
    };
    let exp = if e < 0 {
        0
    } else {
        match exponent_at(sci, e) {
            Some(n) => n,
            None => 0,
        }
    };
    let keep = prec + 1;
    let kept = if all.len() >= keep {
        all.take(keep)
    } else {
        all + zeros(keep - all.len())
    };
    if all.len() > keep && all[keep] >= '5' {
        let up = bumped(kept);
        if up.len() > keep {
            (up.drop_last(), exp + 1)
        } else {
            (up, exp)
        }
    } else {
        (kept, exp)
    }
}

/// The first `prec + 1` significant digits of an exponent form, rounded half
/// up, with their exponent.
pub fn sci_digits_half_up(sci: &str, prec: usize) -> (r: (Vec<char>, i64))
    requires
        prec < usize::MAX,
    ensures
        r.0@ == sci_digits(sci@, prec as int).0,
        r.1 == sci_digits(sci@, prec as int).1,
        -0x8000_0000 <= r.1 <= 0x8000_0000,
{
    let v: Vec<char> = chars_of(sci);
    let all: Vec<char>;
    let exp: i64;
    match find_char(&v, 'e', 0) {
        None => {
            all = digits_in(&v, 0, v.len());
            assert(v@.subrange(0, v.len() as int) =~= sci@);
            exp = 0;
        },
        Some(e) => {
            all = digits_in(&v, 0, e);
            assert(v@.subrange(0, e as int) =~= sci@.take(e as int));
            exp = match read_exponent(&v, e) {
                Some(n) => n,
                None => 0,
            };
        },
    }
    let keep: usize = prec + 1;
    let mut kept: Vec<char>;
    if all.len() >= keep {
        kept = part(&all, 0, keep);
        assert(kept@ =~= all@.take(keep as int));
    } else {
        kept = part(&all, 0, all.len());
        assert(kept@ =~= all@);
        push_times(&mut kept, '0', keep - all.len());
        assert(kept@ =~= all@ + zeros(keep - all.len()));
    }
    assert(numeric_text(kept@));
    if all.len() > keep && all[keep] >= '5' {
        let mut up: Vec<char> = bump(&kept);
        if up.len() > keep {
            let _ = up.pop();
            (up, exp + 1)
        } else {
            (up, exp)
        }
    } else {
        (kept, exp)
    }
}

/// An exponent with its sign and at least two digits.
pub open spec fn exponent_text(exp: int) -> Seq<char> {
    let n = if exp < 0 {
        -exp
    } else {
        exp
    };
    let d = if n < 10 {
        "0"@ + dec(n)
    } else {
        dec(n)
    };
    if exp < 0 {
        "-"@ + d
    } else {
        "+"@ + d
    }
}

/// `%e`: `d.ddde±xx`, with the value's own sign. `NaN` has none.
pub open spec fn sci_text(d: DoubleV, prec: int) -> Seq<char> {
    let body = if magnitude(d.bits) >= INFINITY {
        unbounded_text(d.bits)
    } else if magnitude(d.bits) == 0 {
        if prec == 0 {
            "0e+00"@
        } else {
            "0."@ + zeros(prec) + "e+00"@
        }
    } else {
        let (digits, exp) = sci_digits(unsigned_text(d.sci), prec);
        let mantissa = if prec == 0 {
            digits
        } else {
            digits.take(1) + "."@ + digits.skip(1)
        };
        mantissa + "e"@ + exponent_text(exp)
    };
    if is_nan(d.bits) {
        body
    } else {
        signed_text(d.bits, body)
    }
}

proof fn lemma_sci_digits_len(sci: Seq<char>, prec: int)
    requires
        prec >= 0,
    ensures
        sci_digits(sci, prec).0.len() == prec + 1,
{
    let e = char_index(sci, 'e', 0);
    let all = if e < 0 {
        only_digits(sci)
    } else {
        only_digits(sci.take(e))
    };
    let keep = prec + 1;
    if all.len() > keep && all[keep] >= '5' {
        lemma_bumped_len(all.take(keep));
    }
}

proof fn lemma_bumped_len(s: Seq<char>)
    ensures
        bumped(s).len() == s.len() || bumped(s).len() == s.len() + 1,
    decreases s.len(),
{
    if s.len() > 0 {
        lemma_bumped_len(s.drop_last());
    }
}

/// `%e`: `d.ddde±xx`, with the value's own sign. `NaN` has none.
pub fn sci_notation(d: &Double, prec: usize) -> (r: String)
    requires
        prec < usize::MAX,
    ensures
        r@ == sci_text(d@, prec as int),
{
    let mut r: String = String::new();
    if d.bits >= SIGN && !is_nan_bits(d.bits) {
        r.append("-");
    }
    if magnitude_of(d.bits) >= INFINITY {
        r.append(unbounded_word(d.bits).as_str());
        assert(r@ =~= sci_text(d@, prec as int));
        return r;
    }
    if magnitude_of(d.bits) == 0 {
        if prec == 0 {
            r.append("0e+00");
        } else {
            let mut z: Vec<char> = Vec::new();
            push_text(&mut z, "0.");
            push_times(&mut z, '0', prec);
            push_text(&mut z, "e+00");
            assert(z@ =~= "0."@ + zeros(prec as int) + "e+00"@);
            r.append(text_of(&z).as_str());
        }
        assert(r@ =~= sci_text(d@, prec as int));
        return r;
    }
    let v: Vec<char> = chars_of(d.sci.as_str());
    let u: String = if v.len() > 0 && v[0] == '-' {
        text_between(&v, 1, v.len())
    } else {
        text_between(&v, 0, v.len())
    };
    assert(u@ =~= unsigned_text(d@.sci));
    let (digits, exp): (Vec<char>, i64) = sci_digits_half_up(u.as_str(), prec);
    proof {
        lemma_sci_digits_len(u@, prec as int);
    }
    let mut body: String;
    if prec == 0 {
        body = text_of(&digits);
    } else {
        body = text_between(&digits, 0, 1);
        body.append(".");
        let rest: String = text_between(&digits, 1, digits.len());
        assert(rest@ =~= digits@.skip(1));
        assert(digits@.subrange(0, 1) =~= digits@.take(1));
        body.append(rest.as_str());
    }
    body.append("e");
    let n: i64 = if exp < 0 {
        -exp
    } else {
        exp
    };
    let mut x: String = if exp < 0 {
        own("-")
    } else {
        own("+")
    };
    let mut two: String = String::new();
    if n < 10 {
        two.append("0");
    }
    two.append(int_text(n).as_str());
    assert(two@ =~= (if n < 10 {
        "0"@ + dec(n as int)
    } else {
        dec(n as int)
    }));
    x.append(two.as_str());
    body.append(x.as_str());
    r.append(body.as_str());
    assert(r@ =~= sci_text(d@, prec as int));
    r
}

// ── Neighbouring decimals ───────────────────────────────────────────────────

/// A digit string one unit down in its last place; `None` when it is all
/// zeros.
pub open spec fn lowered(s: Seq<char>) -> Option<Seq<char>>
    decreases s.len(),
{
    if s.len() == 0 {
        None
    } else if s.last() == '0' {
        match lowered(s.drop_last()) {
            Some(t) => Some(t.push('9')),
            None => None,
        }
    } else {
        Some(s.drop_last().push((s.last() as int - 1) as char))
    }
}

/// Whether a digit string is a 1 with nothing but zeros behind it.
pub open spec fn is_decade(s: Seq<char>) -> bool {
    s.len() > 0 && s[0] == '1' && forall|i: int| 0 < i < s.len() ==> #[trigger] s[i] == '0'
}

/// The neighbouring decimal of the same length, up or down, with its exponent.
/// A carry past the front is `100…` one decade up, a step down from `100…` is
/// `999…` one decade down.
pub open spec fn stepped(digits: Seq<char>, exp: int, up: bool) -> (Seq<char>, int) {
    if up {
        let b = bumped(digits);
        if b.len() > digits.len() {
            (Seq::new(
                digits.len(),
                |i: int|
                    if i == 0 {
                        '1'
                    } else {
                        '0'
                    },
            ), exp + 1)
        } else {
            (b, exp)
        }
    } else {
        match lowered(digits) {
            Some(t) if !is_decade(digits) => (t, exp),
            _ => (Seq::new(digits.len(), |i: int| '9'), exp - 1),
        }
    }
}

fn previous_digit(c: char) -> (r: char)
    requires
        '0' < c <= '9',
    ensures
        r == (c as int - 1) as char,
{
    (code_of(c) as u8 - 1) as char
}

/// The digit string one unit down, `None` when it is all zeros.
fn lower(s: &Vec<char>) -> (r: Option<Vec<char>>)
    requires
        forall|i: int| 0 <= i < s.len() ==> is_dec(#[trigger] s@[i]),
    ensures
        match (r, lowered(s@)) {
            (Some(x), Some(y)) => x@ == y,
            (None, None) => true,
            _ => false,
        },
{
    let mut at: usize = s.len();
    assert(s@.take(at as int) =~= s@);
    assert(Seq::new(0, |i: int| '9') =~= Seq::<char>::empty());
    while at > 0 && s[at - 1] == '0'
        invariant
            at <= s.len(),
            match lowered(s@.take(at as int)) {
                Some(t) => lowered(s@) == Some(t + Seq::new((s.len() - at) as nat, |i: int| '9')),
                None => lowered(s@) is None,
            },
        decreases at,
    {
        proof {
            let t = s@.take(at as int);
            assert(t.last() == s@[at - 1]);
            assert(t.drop_last() =~= s@.take(at - 1));
            let n9 = Seq::new((s.len() - at) as nat, |i: int| '9');
            if let Some(q) = lowered(s@.take(at - 1)) {
                assert(q.push('9') + n9 =~= q + Seq::new((s.len() - at + 1) as nat, |i: int| '9'));
            }
        }
        at -= 1;
    }
    if at == 0 {
        assert(s@.take(0) =~= seq![]);
        return None;
    }
    assert(is_dec(s@[at - 1]));
    let c: char = s[at - 1];
    let mut r: Vec<char> = part(s, 0, at - 1);
    r.push(previous_digit(c));
    proof {
        let t = s@.take(at as int);
        assert(t.last() == s@[at - 1]);
        assert(t.drop_last() =~= s@.take(at - 1));
        assert(s@.subrange(0, at - 1) =~= s@.take(at - 1));
        assert(lowered(t) == Some(r@));
    }
    push_times(&mut r, '9', s.len() - at);
    Some(r)
}

fn decade(s: &Vec<char>) -> (r: bool)
    ensures
        r == is_decade(s@),
{
    if s.len() == 0 || s[0] != '1' {
        return false;
    }
    let mut i: usize = 1;
    while i < s.len()
        invariant
            1 <= i <= s.len(),
            s@[0] == '1',
            forall|k: int| 0 < k < i ==> #[trigger] s@[k] == '0',
        decreases s.len() - i,
    {
        if s[i] != '0' {
            return false;
        }
        i += 1;
    }
    true
}

/// The neighbouring decimal of the same length, up or down.
pub fn step_last_digit(digits: &str, exp: i64, up: bool) -> (r: (String, i64))
    requires
        forall|i: int| 0 <= i < digits@.len() ==> is_dec(#[trigger] digits@[i]),
        -0x8000_0000 <= exp <= 0x7fff_ffff,
    ensures
        r.0@ == stepped(digits@, exp as int, up).0,
        r.1 == stepped(digits@, exp as int, up).1,
{
    let d: Vec<char> = chars_of(digits);
    if up {
        let b: Vec<char> = bump(&d);
        if b.len() > d.len() {
            let mut r: Vec<char> = Vec::new();
            if d.len() > 0 {
                r.push('1');
                push_times(&mut r, '0', d.len() - 1);
            }
            assert(r@ =~= stepped(digits@, exp as int, up).0);
            (text_of(&r), exp + 1)
        } else {
            (text_of(&b), exp)
        }
    } else {
        let t: Option<Vec<char>> = if decade(&d) {
            None
        } else {
            lower(&d)
        };
        match t {
            Some(t) => (text_of(&t), exp),
            None => {
                let mut r: Vec<char> = Vec::new();
                push_times(&mut r, '9', d.len());
                assert(r@ =~= stepped(digits@, exp as int, up).0);
                (text_of(&r), exp - 1)
            },
        }
    }
}

// ── Grouping ────────────────────────────────────────────────────────────────

/// The first `i` of `n` digits with a comma before each full group of three
/// counted from the end.
pub open spec fn grouped(s: Seq<char>, i: int) -> Seq<char>
    decreases i,
{
    if i <= 0 {
        seq![]
    } else {
        let before = grouped(s, i - 1);
        let sep = if i > 1 && (s.len() - (i - 1)) % 3 == 0 {
            before.push(',')
        } else {
            before
        };
        sep.push(s[i - 1])
    }
}

/// A rendered number with `,` between groups of three digits of its integer
/// part; a sign and a fraction stay as they are.
pub open spec fn with_groups(s: Seq<char>) -> Seq<char> {
    let sign = if s.len() > 0 && (s[0] == '-' || s[0] == '+') {
        1int
    } else {
        0int
    };
    let point = char_index(s, '.', sign);
    let end = if point < 0 {
        s.len() as int
    } else {
        point
    };
    let int_part = s.subrange(sign, end);
    s.take(sign) + grouped(int_part, int_part.len() as int) + s.skip(end)
}

/// Insert `,` between groups of three digits of the integer part.
pub fn group_digits(s: &str) -> (r: String)
    ensures
        r@ == with_groups(s@),
{
    let v: Vec<char> = chars_of(s);
    let sign: usize = if v.len() > 0 && (v[0] == '-' || v[0] == '+') {
        1
    } else {
        0
    };
    let end: usize = match find_char(&v, '.', sign) {
        Some(i) => i,
        None => v.len(),
    };
    let d: Vec<char> = part(&v, sign, end);
    let mut g: Vec<char> = Vec::new();
    let mut i: usize = 0;
    while i < d.len()
        invariant
            i <= d.len(),
            g@ == grouped(d@, i as int),
        decreases d.len() - i,
    {
        if i > 0 && (d.len() - i) % 3 == 0 {
            g.push(',');
        }
        g.push(d[i]);
        i += 1;
    }
    let mut r: Vec<char> = part(&v, 0, sign);
    push_chars(&mut r, &g);
    push_chars(&mut r, &part(&v, end, v.len()));
    assert(r@ =~= with_groups(s@));
    text_of(&r)
}

// ── Floating literals ───────────────────────────────────────────────────────

/// The end of the run of digits that begins at `i`.
pub open spec fn digits_end(s: Seq<char>, i: int) -> int
    decreases s.len() - i,
{
    if 0 <= i < s.len() && is_dec(s[i]) {
        digits_end(s, i + 1)
    } else {
        i
    }
}

/// Whether `s` is a decimal floating literal without sign and suffix: digits
/// with at most one point and at least one digit, then possibly an exponent
/// with at least one digit, and nothing else.
pub open spec fn decimal_literal(s: Seq<char>) -> bool {
    let a = digits_end(s, 0);
    let point = a < s.len() && s[a] == '.';
    let b = if point {
        digits_end(s, a + 1)
    } else {
        a
    };
    let count = if point {
        b - 1
    } else {
        b
    };
    let e = b < s.len() && (s[b] == 'e' || s[b] == 'E');
    let x = if b + 1 < s.len() && (s[b + 1] == '+' || s[b + 1] == '-') {
        b + 2
    } else {
        b + 1
    };
    let end = if e {
        digits_end(s, x)
    } else {
        b
    };
    count > 0 && (e ==> end > x) && end == s.len()
}

fn skip_digits(v: &Vec<char>, from: usize) -> (r: usize)
    requires
        from <= v.len(),
    ensures
        r == digits_end(v@, from as int),
        from <= r <= v.len(),
{
    let mut i: usize = from;
    while i < v.len() && '0' <= v[i] && v[i] <= '9'
        invariant
            from <= i <= v.len(),
            digits_end(v@, from as int) == digits_end(v@, i as int),
        decreases v.len() - i,
    {
        i += 1;
    }
    i
}

/// Whether `s` is a decimal floating literal without sign and suffix.
pub fn is_java_decimal_literal(s: &str) -> (r: bool)
    ensures
        r == decimal_literal(s@),
{
    let v: Vec<char> = chars_of(s);
    let a: usize = skip_digits(&v, 0);
    let point: bool = a < v.len() && v[a] == '.';
    let b: usize = if point {
        skip_digits(&v, a + 1)
    } else {
        a
    };
    let count: usize = if point {
        b - 1
    } else {
        b
    };
    if count == 0 {
        return false;
    }
    if b < v.len() && (v[b] == 'e' || v[b] == 'E') {
        let x: usize = if b + 1 < v.len() && (v[b + 1] == '+' || v[b + 1] == '-') {
            b + 2
        } else {
            b + 1
        };
        let end: usize = skip_digits(&v, x);
        if end == x {
            return false;
        }
        return end == v.len();
    }
    b == v.len()
}

/// How many characters at the front are no greater than a space.
pub open spec fn blank_lead(s: Seq<char>) -> int
    decreases s.len(),
{
    if s.len() > 0 && s[0] <= ' ' {
        1 + blank_lead(s.skip(1))
    } else {
        0
    }
}

/// How many characters at the end are no greater than a space.
pub open spec fn blank_trail(s: Seq<char>) -> int
    decreases s.len(),
{
    if s.len() > 0 && s.last() <= ' ' {
        1 + blank_trail(s.drop_last())
    } else {
        0
    }
}

/// `String.trim()`: everything up to and including a space goes, at both ends.
pub open spec fn java_trim(s: Seq<char>) -> Seq<char> {
    let t = s.skip(blank_lead(s));
    t.take(t.len() - blank_trail(t))
}

/// `String.trim()`, as the bounds of what is left.
pub fn trim_bounds(v: &Vec<char>) -> (r: (usize, usize))
    ensures
        r.0 <= r.1 <= v.len(),
        v@.subrange(r.0 as int, r.1 as int) == java_trim(v@),
{
    let mut a: usize = 0;
    assert(v@.skip(0) =~= v@);
    while a < v.len() && v[a] <= ' '
        invariant
            a <= v.len(),
            blank_lead(v@) == a + blank_lead(v@.skip(a as int)),
        decreases v.len() - a,
    {
        assert(v@.skip(a as int).skip(1) =~= v@.skip(a + 1));
        assert(v@.skip(a as int)[0] == v@[a as int]);
        a += 1;
    }
    proof {
        if a < v.len() {
            assert(v@.skip(a as int)[0] == v@[a as int]);
        }
        assert(blank_lead(v@) == a);
    }
    let ghost t = v@.skip(a as int);
    let mut b: usize = v.len();
    assert(t.take(b - a) =~= t);
    while b > a && v[b - 1] <= ' '
        invariant
            a <= b <= v.len(),
            t == v@.skip(a as int),
            blank_trail(t) == (v.len() - b) + blank_trail(t.take(b - a)),
        decreases b,
    {
        assert(t.take(b - a).drop_last() =~= t.take(b - a - 1));
        assert(t.take(b - a).last() == v@[b - 1]);
        b -= 1;
    }
    proof {
        if b > a {
            assert(t.take(b - a).last() == v@[b - 1]);
        }
        assert(blank_trail(t) == v.len() - b);
        assert(v@.subrange(a as int, b as int) =~= java_trim(v@));
    }
    (a, b)
}

/// What `Double.parseDouble` reads: nothing, a named value, or a decimal
/// literal whose digits are handed on.
pub enum Reading {
    /// The text is no number.
    Malformed,
    NotANumber,
    Infinite { negative: bool },
    /// A decimal literal without sign and suffix.
    Literal { negative: bool, digits: String },
}

pub enum ReadingV {
    Malformed,
    NotANumber,
    Infinite { negative: bool },
    Literal { negative: bool, digits: Seq<char> },
}

impl View for Reading {
    type V = ReadingV;

    open spec fn view(&self) -> ReadingV {
        match self {
            Reading::Malformed => ReadingV::Malformed,
            Reading::NotANumber => ReadingV::NotANumber,
            Reading::Infinite { negative } => ReadingV::Infinite { negative: *negative },
            Reading::Literal { negative, digits } => ReadingV::Literal {
                negative: *negative,
                digits: digits@,
            },
        }
    }
}

/// The grammar of `Double.parseDouble`: the text is trimmed, one sign may lead,
/// `NaN` and `Infinity` are spelled exactly so, and one of `f`, `F`, `d`, `D`
/// may end a literal.
pub open spec fn double_reading(text: Seq<char>) -> ReadingV {
    let s = java_trim(text);
    let neg = s.len() > 0 && s[0] == '-';
    let body = if s.len() > 0 && (s[0] == '-' || s[0] == '+') {
        s.skip(1)
    } else {
        s
    };
    if body.len() == 0 {
        ReadingV::Malformed
    } else if body == "NaN"@ {
        ReadingV::NotANumber
    } else if body == "Infinity"@ {
        ReadingV::Infinite { negative: neg }
    } else {
        let l = body.last();
        let digits = if l == 'f' || l == 'F' || l == 'd' || l == 'D' {
            body.drop_last()
        } else {
            body
        };
        if decimal_literal(digits) {
            ReadingV::Literal { negative: neg, digits }
        } else {
            ReadingV::Malformed
        }
    }
}

/// Read the text of `Double.parseDouble` down to the literal it holds.
pub fn parse_java_double(text: &str) -> (r: Reading)
    ensures
        r@ == double_reading(text@),
{
    let v: Vec<char> = chars_of(text);
    let (a, b): (usize, usize) = trim_bounds(&v);
    let ghost s = java_trim(text@);
    let signed: bool = a < b && (v[a] == '-' || v[a] == '+');
    let neg: bool = a < b && v[a] == '-';
    let start: usize = if signed {
        a + 1
    } else {
        a
    };
    proof {
        if a < b {
            assert(s[0] == v@[a as int]);
        }
    }
    let body: String = text_between(&v, start, b);
    let ghost body_v = if s.len() > 0 && (s[0] == '-' || s[0] == '+') {
        s.skip(1)
    } else {
        s
    };
    assert(body@ =~= body_v);
    if start == b {
        return Reading::Malformed;
    }
    if same(body.as_str(), "NaN") {
        return Reading::NotANumber;
    }
    if same(body.as_str(), "Infinity") {
        return Reading::Infinite { negative: neg };
    }
    let l: char = v[b - 1];
    assert(body@.last() == l);
    let digits: String = if l == 'f' || l == 'F' || l == 'd' || l == 'D' {
        let t: String = text_between(&v, start, b - 1);
        assert(t@ =~= body@.drop_last());
        t
    } else {
        body
    };
    if is_java_decimal_literal(digits.as_str()) {
        Reading::Literal { negative: neg, digits }
    } else {
        Reading::Malformed
    }
}

/// The message of a floating text that does not parse: one that trims to
/// nothing has its own.
pub open spec fn float_message(text: Seq<char>) -> Seq<char> {
    if java_trim(text).len() == 0 {
        "empty String"@
    } else {
        "For input string: \""@ + text + "\""@
    }
}

/// The message of a floating text that does not parse.
pub fn float_format_message(text: &str) -> (r: String)
    ensures
        r@ == float_message(text@),
{
    let v: Vec<char> = chars_of(text);
    let (a, b): (usize, usize) = trim_bounds(&v);
    assert(java_trim(text@).len() == b - a);
    if a == b {
        own("empty String")
    } else {
        let mut r: String = own("For input string: \"");
        r.append(text);
        r.append("\"");
        r
    }
}

} // verus!
