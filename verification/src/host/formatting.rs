//! What the conversions of `String.format` show, in terms of their arguments.
use vstd::prelude::*;

use vstd::arithmetic::power::{lemma_pow_adds, lemma_pow_positive, pow};

use crate::double::{DoubleV, INFINITY, magnitude, negative};
use crate::host::decimal::{
    bumped, bumping_adds_one, cut_at, digit_from, digits_end, fixed_text, grouped, half_up,
    is_dec, only_digits, sci_digits, sci_text, stretched, unsigned_text, with_groups, zeros,
};
use crate::host::format::{
    ArgV, FmtFlags, HeadV, arg_class, argument_text, capitals, conversion, flag_fault, flags_end,
    formatted, integral_class, laid_out, no_flags, pattern_of, positive_sign, specifier,
    text_piece,
};
use crate::host::maths::lemma_digits_spell;
use crate::host::statics::show;
use crate::text::{all_digits, char_index, digit_value, digits, is_digit_in, number, repeated};
use crate::value::{FaultV, Val};

verus! {

/// A directive without an index that shows one argument.
pub open spec fn plain_head(conv: char, flags: FmtFlags, width: Option<int>, prec: Option<int>) -> HeadV {
    HeadV { conv, index: None, flags, width, prec, end: 0, source: seq![] }
}

/// What a conversion shows of an argument whose declared type is not known.
pub open spec fn shown_by(
    conv: char,
    flags: FmtFlags,
    width: Option<int>,
    prec: Option<int>,
    a: ArgV,
    shown: Seq<char>,
    general: Option<int>,
) -> Result<Seq<char>, FaultV> {
    argument_text(plain_head(conv, flags, width, prec), a, seq![], shown, general)
}

/// The flags without those that ask for a sign.
pub open spec fn unsigned_flags(f: FmtFlags) -> FmtFlags {
    FmtFlags { plus: false, space: false, parens: false, ..f }
}

/// An argument that is a floating value.
pub open spec fn is_floating(a: ArgV) -> bool {
    a.value is Float && magnitude(a.double.bits) < INFINITY
}

/// An argument with the sign of its floating value taken away.
pub open spec fn size_of_arg(a: ArgV) -> ArgV {
    ArgV { double: DoubleV { bits: magnitude(a.double.bits) as u64, ..a.double }, ..a }
}

/// A text between two others.
pub open spec fn enclosed(r: Result<Seq<char>, FaultV>, front: Seq<char>, back: Seq<char>) -> Result<
    Seq<char>,
    FaultV,
> {
    match r {
        Ok(t) => Ok(front + t + back),
        Err(f) => Err(f),
    }
}

proof fn lemma_signs_known()
    ensures
        "-"@ == seq!['-'],
        "+"@ == seq!['+'],
        " "@ == seq![' '],
        ""@ == Seq::<char>::empty(),
        "("@ == seq!['('],
        ")"@ == seq![')'],
        "0"@ == seq!['0'],
{
    reveal_strlit("-");
    reveal_strlit("+");
    reveal_strlit(" ");
    reveal_strlit("");
    reveal_strlit("(");
    reveal_strlit(")");
    reveal_strlit("0");
    assert("-"@ =~= seq!['-']);
    assert("+"@ =~= seq!['+']);
    assert(" "@ =~= seq![' ']);
    assert(""@ =~= seq![]);
    assert("("@ =~= seq!['(']);
    assert(")"@ =~= seq![')']);
    assert("0"@ =~= seq!['0']);
}

proof fn lemma_boxed(v: Val)
    ensures
        integral_class("java.lang.Integer"@),
        !integral_class("java.lang.Double"@),
        v == Val::Undef ==> arg_class(seq![], v) is None,
        v is Int ==> arg_class(seq![], v) == Some("java.lang.Integer"@),
        v is Float ==> arg_class(seq![], v) == Some("java.lang.Double"@),
        v is Bool ==> arg_class(seq![], v) == Some("java.lang.Boolean"@),
        v is Str ==> arg_class(seq![], v) == Some("java.lang.String"@),
{
    reveal_strlit("java.lang.Integer");
    reveal_strlit("java.lang.Long");
    reveal_strlit("java.lang.Short");
    reveal_strlit("java.lang.Byte");
    reveal_strlit("java.lang.Double");
    assert("java.lang.Double"@.len() == 16);
    assert("java.lang.Integer"@.len() == 17);
    assert("java.lang.Long"@.len() == 14);
    assert("java.lang.Short"@.len() == 15);
    assert("java.lang.Byte"@.len() == 14);
    reveal_strlit("int");
    reveal_strlit("Integer");
    reveal_strlit("long");
    reveal_strlit("Long");
    reveal_strlit("short");
    reveal_strlit("Short");
    reveal_strlit("byte");
    reveal_strlit("Byte");
    reveal_strlit("char");
    reveal_strlit("Character");
    reveal_strlit("double");
    reveal_strlit("Double");
    reveal_strlit("float");
    reveal_strlit("Float");
    reveal_strlit("boolean");
    reveal_strlit("Boolean");
    reveal_strlit("String");
    assert("int"@.len() == 3 && "Integer"@.len() == 7 && "long"@.len() == 4 && "Long"@.len() == 4);
    assert("short"@.len() == 5 && "Short"@.len() == 5 && "byte"@.len() == 4 && "Byte"@.len() == 4);
    assert("char"@.len() == 4 && "Character"@.len() == 9 && "double"@.len() == 6);
    assert("Double"@.len() == 6 && "float"@.len() == 5 && "Float"@.len() == 5);
    assert("boolean"@.len() == 7 && "Boolean"@.len() == 7 && "String"@.len() == 6);
}

// ── Signs ───────────────────────────────────────────────────────────────────

/// `%f`, `%e` and `%g` put a minus sign in front of the magnitude of a negative
/// value, or brackets around it where the flag asks for them. A value that is not
/// negative has a plus sign or a space in front where a flag asks for one, and
/// nothing otherwise. A zero has the sign of its bits.
#[verifier::rlimit(60)]
pub proof fn a_floating_value_keeps_its_sign(
    conv: char,
    f: FmtFlags,
    prec: Option<int>,
    a: ArgV,
    shown: Seq<char>,
    general: Option<int>,
)
    requires
        is_floating(a),
        conv == 'f' || conv == 'e' || conv == 'E' || conv == 'g' || conv == 'G',
        !f.group,
        prec matches Some(p) ==> p >= 0,
    ensures
        ({
            let r = shown_by(conv, f, None, prec, a, shown, general);
            let size = shown_by(
                conv,
                unsigned_flags(f),
                None,
                prec,
                size_of_arg(a),
                shown,
                general,
            );
            &&& size is Ok
            &&& a.double.bits >= 0x8000_0000_0000_0000 && !f.parens ==> r == enclosed(
                size,
                seq!['-'],
                seq![],
            )
            &&& a.double.bits >= 0x8000_0000_0000_0000 && f.parens ==> r == enclosed(
                size,
                seq!['('],
                seq![')'],
            )
            &&& a.double.bits < 0x8000_0000_0000_0000 && f.plus ==> r == enclosed(
                size,
                seq!['+'],
                seq![],
            )
            &&& a.double.bits < 0x8000_0000_0000_0000 && !f.plus && f.space ==> r == enclosed(
                size,
                seq![' '],
                seq![],
            )
            &&& a.double.bits < 0x8000_0000_0000_0000 && !f.plus && !f.space ==> r == size
        }),
{
    lemma_signs_known();
    lemma_boxed(a.value);
    let b = size_of_arg(a);
    assert(magnitude(b.double.bits) == magnitude(a.double.bits));
    let g = unsigned_flags(f);
    let p = conversion(conv, a, prec, f, seq![], shown, general)->Ok_0;
    let q = conversion(conv, b, prec, g, seq![], shown, general)->Ok_0;
    assert(arg_class(seq![], a.value) == Some("java.lang.Double"@));
    lemma_unsigned(a.double, prec);
    assert(p.body == q.body) by {
        if conv != 'f' {
            let six = match prec {
                Some(p) => p,
                None => 6,
            };
            let k = if six < 1 {
                1
            } else {
                six
            };
            lemma_sci_unsigned(a.double, six);
            lemma_sci_unsigned(a.double, k - 1);
        }
    }
    let t = laid_out(q, g, None);
    assert(t =~= q.body);
    if negative(a.double.bits) {
        assert(p.prefix == "-"@);
        if f.parens {
            assert(laid_out(p, f, None) =~= seq!['('] + t + seq![')']);
        } else {
            assert(laid_out(p, f, None) =~= seq!['-'] + t + seq![]);
        }
    } else {
        assert(p.prefix == positive_sign(f));
        assert(p.prefix != "-"@) by {
            if p.prefix.len() > 0 {
                assert(p.prefix[0] == '+' || p.prefix[0] == ' ');
            }
        }
        assert(laid_out(p, f, None) =~= p.prefix + t);
        if f.plus {
            assert(p.prefix + t =~= seq!['+'] + t + seq![]);
        } else if f.space {
            assert(p.prefix + t =~= seq![' '] + t + seq![]);
        } else {
            assert(p.prefix + t =~= t);
        }
    }
}

proof fn lemma_unsigned(d: DoubleV, prec: Option<int>)
    ensures
        ({
            let m = DoubleV { bits: magnitude(d.bits) as u64, ..d };
            forall|n: int| #[trigger] fixed_text(d, n) == fixed_text(m, n)
        }) || magnitude(d.bits) >= INFINITY,
{
    let m = DoubleV { bits: magnitude(d.bits) as u64, ..d };
    assert(magnitude(m.bits) == magnitude(d.bits));
}

proof fn lemma_sci_unsigned(d: DoubleV, n: int)
    requires
        n >= 0,
        magnitude(d.bits) < INFINITY,
    ensures
        ({
            let m = DoubleV { bits: magnitude(d.bits) as u64, ..d };
            unsigned_text(sci_text(d, n)) == unsigned_text(sci_text(m, n))
        }),
{
    lemma_signs_known();
    let m = DoubleV { bits: magnitude(d.bits) as u64, ..d };
    assert(magnitude(m.bits) == magnitude(d.bits));
    assert(!negative(m.bits));
    let body = sci_text(m, n);
    if negative(d.bits) {
        assert(sci_text(d, n) == "-"@ + body);
        assert(("-"@ + body).skip(1) =~= body);
        assert(body.len() == 0 || body[0] != '-') by {
            lemma_sci_front(m, n);
        }
    }
}

proof fn lemma_sci_front(m: DoubleV, n: int)
    requires
        n >= 0,
        magnitude(m.bits) < INFINITY,
        !negative(m.bits),
    ensures
        sci_text(m, n).len() == 0 || sci_text(m, n)[0] != '-',
{
    reveal_strlit("0e+00");
    reveal_strlit("0.");
    reveal_strlit("e");
    reveal_strlit(".");
    reveal_strlit("e+00");
    if magnitude(m.bits) != 0 {
        let sci = unsigned_text(m.sci);
        let e = char_index(sci, 'e', 0);
        let all = if e < 0 {
            only_digits(sci)
        } else {
            only_digits(sci.take(e))
        };
        lemma_only_digits(if e < 0 {
            sci
        } else {
            sci.take(e)
        });
        let keep = n + 1;
        let kept = if all.len() >= keep {
            all.take(keep)
        } else {
            all + zeros(keep - all.len())
        };
        let (digits, exp) = sci_digits(sci, n);
        assert forall|i: int| 0 <= i < kept.len() implies is_dec(#[trigger] kept[i]) by {
            if i < all.len() {
                assert(kept[i] == all[i]);
            }
        }
        lemma_bumped_digits(kept);
        assert(forall|i: int| 0 <= i < digits.len() ==> is_dec(#[trigger] digits[i]));
        let t = sci_text(m, n);
        if digits.len() > 0 {
            assert(t[0] == digits[0]);
        }
    }
}

proof fn lemma_only_digits(s: Seq<char>)
    ensures
        forall|i: int| 0 <= i < only_digits(s).len() ==> is_dec(#[trigger] only_digits(s)[i]),
    decreases s.len(),
{
    if s.len() > 0 {
        let r = only_digits(s.drop_last());
        lemma_only_digits(s.drop_last());
        assert forall|i: int| 0 <= i < only_digits(s).len() implies is_dec(
            #[trigger] only_digits(s)[i],
        ) by {
            if i < r.len() {
                assert(only_digits(s)[i] == r[i]);
            }
        }
    }
}

proof fn lemma_bumped_digits(s: Seq<char>)
    requires
        forall|i: int| 0 <= i < s.len() ==> is_dec(#[trigger] s[i]),
    ensures
        forall|i: int| 0 <= i < bumped(s).len() ==> is_dec(#[trigger] bumped(s)[i]),
        s.len() <= bumped(s).len() <= s.len() + 1,
    decreases s.len(),
{
    if s.len() > 0 {
        assert(is_dec(s.last()));
        let r = s.drop_last();
        assert forall|i: int| 0 <= i < r.len() implies is_dec(#[trigger] r[i]) by {
            assert(is_dec(s[i]));
        }
        lemma_bumped_digits(r);
    }
}

/// `%d` writes a whole number: a minus sign or brackets mark a negative one, a
/// plus sign or a space another where a flag asks for it, and what follows are
/// the digits of its size.
#[verifier::rlimit(60)]
pub proof fn a_whole_number_keeps_its_sign(
    f: FmtFlags,
    a: ArgV,
    n: i64,
    shown: Seq<char>,
    general: Option<int>,
)
    requires
        a.value == Val::Int(n),
        a.int == n,
        !f.group,
    ensures
        ({
            let r = shown_by('d', f, None, None, a, shown, general);
            let size = if n < 0 {
                -n
            } else {
                n as int
            };
            let t = digits(size, 10);
            &&& t.len() > 0 && all_digits(t, 10) && number(t, 10) == size
            &&& n < 0 && !f.parens ==> r == Ok::<Seq<char>, FaultV>(seq!['-'] + t)
            &&& n < 0 && f.parens ==> r == Ok::<Seq<char>, FaultV>(seq!['('] + t + seq![')'])
            &&& n >= 0 && f.plus ==> r == Ok::<Seq<char>, FaultV>(seq!['+'] + t)
            &&& n >= 0 && !f.plus && f.space ==> r == Ok::<Seq<char>, FaultV>(seq![' '] + t)
            &&& n >= 0 && !f.plus && !f.space ==> r == Ok::<Seq<char>, FaultV>(t)
        }),
{
    lemma_signs_known();
    lemma_boxed(a.value);
    let size = if n < 0 {
        -n
    } else {
        n as int
    };
    let t = digits(size, 10);
    lemma_digits_spell(size, 10);
    let p = conversion('d', a, None, f, seq![], shown, general)->Ok_0;
    assert(p.body == t);
    assert(arg_class(seq![], a.value) == Some("java.lang.Integer"@));
    let out = laid_out(p, f, None);
    if n < 0 {
        if f.parens {
            assert(out =~= seq!['('] + t + seq![')']);
        } else {
            assert(out =~= seq!['-'] + t);
        }
    } else {
        assert(p.prefix != "-"@) by {
            if p.prefix.len() > 0 {
                assert(p.prefix[0] == '+' || p.prefix[0] == ' ');
            }
        }
        if f.plus {
            assert(out =~= seq!['+'] + t);
        } else if f.space {
            assert(out =~= seq![' '] + t);
        } else {
            assert(out =~= t);
        }
    }
}

// ── The value of `%f` ───────────────────────────────────────────────────────

/// Digits, and nothing else.
pub open spec fn are_digits(s: Seq<char>) -> bool {
    forall|i: int| 0 <= i < s.len() ==> '0' <= #[trigger] s[i] <= '9'
}

proof fn lemma_number_joins(a: Seq<char>, b: Seq<char>)
    ensures
        number(a + b, 10) == number(a, 10) * pow(10, b.len()) + number(b, 10),
    decreases b.len(),
{
    if b.len() == 0 {
        assert(a + b =~= a);
        assert(pow(10, 0) == 1) by {
            reveal(pow);
        }
    } else {
        lemma_number_joins(a, b.drop_last());
        assert((a + b).drop_last() =~= a + b.drop_last());
        assert((a + b).last() == b.last());
        let p = pow(10, (b.len() - 1) as nat);
        assert(pow(10, b.len()) == 10 * p) by {
            reveal(pow);
        }
        let (x, y) = (number(a, 10), number(b.drop_last(), 10));
        assert((x * p + y) * 10 + digit_value(b.last()) == x * (10 * p) + (y * 10 + digit_value(
            b.last(),
        ))) by (nonlinear_arith);
    }
}

proof fn lemma_number_bounds(s: Seq<char>)
    requires
        are_digits(s),
    ensures
        0 <= number(s, 10) < pow(10, s.len()),
    decreases s.len(),
{
    if s.len() == 0 {
        assert(pow(10, 0) == 1) by {
            reveal(pow);
        }
    } else {
        let r = s.drop_last();
        assert forall|i: int| 0 <= i < r.len() implies '0' <= #[trigger] r[i] <= '9' by {
            assert('0' <= s[i] <= '9');
        }
        lemma_number_bounds(r);
        assert(pow(10, s.len()) == 10 * pow(10, r.len())) by {
            reveal(pow);
        }
        assert('0' <= s[s.len() - 1] <= '9');
    }
}

proof fn lemma_number_zeros(n: int)
    requires
        n >= 0,
    ensures
        number(zeros(n), 10) == 0,
    decreases n,
{
    if n > 0 {
        assert(zeros(n).drop_last() =~= zeros(n - 1));
        lemma_number_zeros(n - 1);
    }
}

proof fn lemma_char_index(s: Seq<char>, c: char, from: int, at: int)
    requires
        0 <= from <= at < s.len(),
        s[at] == c,
        forall|i: int| from <= i < at ==> #[trigger] s[i] != c,
    ensures
        char_index(s, c, from) == at,
    decreases at - from,
{
    if from < at {
        lemma_char_index(s, c, from + 1, at);
    }
}

/// `%f` shows a decimal rounded half up: it has as many decimals as the precision
/// says, six without one, and as a number it is within half a unit of its last
/// place of the value's own decimal, below it or half a unit above.
#[verifier::rlimit(60)]
pub proof fn fixed_point_is_within_half_a_unit(
    f: FmtFlags,
    prec: Option<int>,
    a: ArgV,
    whole: Seq<char>,
    fraction: Seq<char>,
    shown: Seq<char>,
    general: Option<int>,
)
    requires
        is_floating(a),
        a.double.bits < 0x8000_0000_0000_0000,
        unsigned_flags(f) == f,
        !f.group,
        !f.alt,
        are_digits(whole),
        are_digits(fraction),
        whole.len() > 0,
        fraction.len() > 0,
        a.double.plain == whole.push('.') + fraction,
        prec matches Some(p) ==> p >= 0,
    ensures
        ({
            let places = match prec {
                Some(p) => p,
                None => 6,
            };
            let r = shown_by('f', f, None, prec, a, shown, general);
            let t = r->Ok_0;
            let front = t.take(t.len() - (if places == 0 {
                0int
            } else {
                places + 1
            }));
            let back = t.skip(t.len() - places);
            let n = number(front + back, 10);
            let v = number(whole + fraction, 10);
            let one = pow(10, fraction.len());
            &&& r is Ok
            &&& front.len() >= whole.len()
            &&& are_digits(front)
            &&& are_digits(back)
            &&& back.len() == places
            &&& places > 0 ==> t == front.push('.') + back
            &&& places == 0 ==> t == front
            &&& -one <= 2 * (v * pow(10, places as nat) - n * one) < one
        }),
{
    lemma_signs_known();
    lemma_boxed(a.value);
    let places = match prec {
        Some(p) => p,
        None => 6,
    };
    let plain = a.double.plain;
    assert(arg_class(seq![], a.value) == Some("java.lang.Double"@));
    let body = half_up(plain, places);
    assert(unsigned_text(plain) == plain) by {
        assert(plain[0] == whole[0]);
    }
    let p = conversion('f', a, prec, f, seq![], shown, general)->Ok_0;
    assert(p.body == body);
    assert(laid_out(p, f, None) =~= body) by {
        assert(p.prefix == ""@);
    }
    assert(plain.contains('.')) by {
        assert(plain[whole.len() as int] == '.');
    }
    let w = whole.len() as int;
    let k = fraction.len() as int;
    assert forall|i: int| 0 <= i < w implies #[trigger] plain[i] != '.' by {
        assert(plain[i] == whole[i]);
    }
    lemma_char_index(plain, '.', 0, w);
    let more = zeros(places + 1 - k);
    let s = plain + more;
    assert(stretched(plain, places) == s);
    let tail = fraction + more;
    assert(s =~= whole.push('.') + tail);
    assert forall|i: int| 0 <= i < w implies #[trigger] s[i] != '.' by {
        assert(s[i] == whole[i]);
    }
    lemma_char_index(s, '.', 0, w);
    assert(are_digits(tail));
    assert(tail.len() > places);
    let kept = tail.take(places);
    let cut = cut_at(s, places);
    let next = tail[places];
    assert(digit_from(s, cut) == next) by {
        if places == 0 {
            assert(s[cut] == '.');
            assert(s[cut + 1] == next);
            assert(digit_from(s, cut) == digit_from(s, cut + 1));
        } else {
            assert(s[cut] == next);
        }
    }
    let text = s.take(cut);
    let all = whole + kept;
    assert(are_digits(all));
    if places == 0 {
        assert(text =~= whole);
        assert(all =~= whole);
    } else {
        assert(text =~= whole.push('.') + kept);
    }
    let up = next >= '5';
    lemma_bumped_with_point(whole, kept, places);
    let t = body;
    let front = t.take(t.len() - (if places == 0 {
        0int
    } else {
        places + 1
    }));
    let back = t.skip(t.len() - places);
    if up {
        bumping_adds_one(all);
        lemma_bumped_digits(all);
        lemma_bumped_split(whole, kept, places);
    } else {
        assert(front =~= whole);
        assert(back =~= kept);
    }
    let n = number(front + back, 10);
    assert(n == number(all, 10) + if up {
        1int
    } else {
        0int
    });
    lemma_rounded(whole, fraction, places, n, up);
}

/// A decimal cut behind some places, and moved up by one where the next digit asks
/// for it, is within half a unit of its last place.
proof fn lemma_rounded(whole: Seq<char>, fraction: Seq<char>, places: int, n: int, up: bool)
    requires
        are_digits(whole),
        are_digits(fraction),
        places >= 0,
        ({
            let tail = fraction + zeros(places + 1 - fraction.len());
            &&& n == number(whole + tail.take(places), 10) + if up {
                1int
            } else {
                0int
            }
            &&& up == (tail[places] >= '5')
        }),
    ensures
        ({
            let v = number(whole + fraction, 10);
            let one = pow(10, fraction.len());
            -one <= 2 * (v * pow(10, places as nat) - n * one) < one
        }),
{
    let k = fraction.len() as int;
    let more = zeros(places + 1 - k);
    let tail = fraction + more;
    let kept = tail.take(places);
    let all = whole + kept;
    let next = tail[places];
    assert(are_digits(tail));
    let rest = tail.skip(places);
    assert(whole + tail =~= all + rest);
    lemma_number_joins(all, rest);
    lemma_number_joins(whole + fraction, more);
    assert(whole + tail =~= (whole + fraction) + more);
    let m = if places + 1 - k < 0 {
        0
    } else {
        places + 1 - k
    };
    lemma_number_zeros(m);
    assert(more =~= zeros(m));
    let v = number(whole + fraction, 10);
    let c = number(all, 10);
    let x = pow(10, more.len());
    let y = pow(10, rest.len());
    let d = number(rest, 10);
    assert(v * x == c * y + d);
    assert(rest[0] == next);
    let low = rest.skip(1);
    assert(rest =~= seq![next] + low);
    lemma_number_joins(seq![next], low);
    assert(number(seq![next], 10) == digit_value(next)) by {
        assert(seq![next].drop_last() =~= seq![]);
        assert(number(Seq::<char>::empty(), 10) == 0);
    }
    assert(are_digits(low));
    lemma_number_bounds(low);
    let z = pow(10, low.len());
    assert(y == 10 * z) by {
        reveal(pow);
    }
    let q = digit_value(next);
    assert('0' <= tail[places] <= '9');
    assert(0 <= q <= 9);
    let step = if up {
        1int
    } else {
        0int
    };
    lemma_half(v, x, c, y, d, q, z, number(low, 10), step);
    let one = pow(10, fraction.len());
    let unit = pow(10, places as nat);
    lemma_pow_positive(10, more.len());
    lemma_pow_positive(10, fraction.len());
    lemma_pow_positive(10, places as nat);
    lemma_pow_positive(10, rest.len());
    assert(more.len() + fraction.len() == places + rest.len());
    lemma_pow_adds(10, more.len(), fraction.len());
    lemma_pow_adds(10, places as nat, rest.len());
    lemma_rescaled(v, x, n, y, one, unit);
}

proof fn lemma_half(
    v: int,
    x: int,
    c: int,
    y: int,
    d: int,
    q: int,
    z: int,
    low: int,
    step: int,
)
    requires
        v * x == c * y + d,
        y == 10 * z,
        d == q * z + low,
        0 <= low < z,
        0 <= q <= 9,
        step == 1 ==> q >= 5,
        step == 0 ==> q < 5,
        step == 0 || step == 1,
    ensures
        -y <= 2 * (v * x - (c + step) * y) < y,
{
    assert(q * z <= d < (q + 1) * z) by (nonlinear_arith)
        requires
            d == q * z + low,
            0 <= low < z,
    ;
    assert((c + step) * y == c * y + step * y) by (nonlinear_arith);
    if step == 1 {
        assert(5 * z <= q * z && (q + 1) * z <= 10 * z) by (nonlinear_arith)
            requires
                5 <= q <= 9,
                z > 0,
        ;
    } else {
        assert(0 <= q * z && (q + 1) * z <= 5 * z) by (nonlinear_arith)
            requires
                0 <= q < 5,
                z > 0,
        ;
    }
}

proof fn lemma_rescaled(v: int, x: int, n: int, y: int, one: int, unit: int)
    requires
        -y <= 2 * (v * x - n * y) < y,
        x * one == unit * y,
        x > 0,
        y > 0,
        one > 0,
        unit > 0,
    ensures
        -one <= 2 * (v * unit - n * one) < one,
{
    let e = v * x - n * y;
    let g = v * unit - n * one;
    assert(e * one == g * y) by (nonlinear_arith)
        requires
            e == v * x - n * y,
            g == v * unit - n * one,
            x * one == unit * y,
    ;
    assert(-one <= 2 * g < one) by (nonlinear_arith)
        requires
            -y <= 2 * e < y,
            e * one == g * y,
            y > 0,
            one > 0,
    ;
}

/// A digit string with a point in it is moved up as without the point.
proof fn lemma_bumped_with_point(whole: Seq<char>, kept: Seq<char>, places: int)
    requires
        are_digits(whole),
        are_digits(kept),
        kept.len() == places,
        whole.len() > 0,
    ensures
        ({
            let b = bumped(whole + kept);
            let n = b.len() - places;
            bumped(whole.push('.') + kept) == b.take(n).push('.') + b.skip(n)
        }),
        whole.len() <= bumped(whole + kept).len() - places <= whole.len() + 1,
    decreases kept.len(),
{
    let all = whole + kept;
    let s = whole.push('.') + kept;
    lemma_bumped_digits(all);
    let b = bumped(all);
    let n = b.len() - places;
    if kept.len() == 0 {
        assert(all =~= whole);
        assert(s.last() == '.');
        assert(s.drop_last() =~= whole);
        assert(b.take(n) =~= b);
        assert(b.skip(n) =~= seq![]);
        assert(b.take(n).push('.') + b.skip(n) =~= b.push('.'));
    } else {
        let r = kept.drop_last();
        assert forall|i: int| 0 <= i < r.len() implies '0' <= #[trigger] r[i] <= '9' by {
            assert('0' <= kept[i] <= '9');
        }
        assert(s.last() == kept.last() && all.last() == kept.last());
        assert('0' <= kept[kept.len() - 1] <= '9');
        assert(s.drop_last() =~= whole.push('.') + r);
        assert(all.drop_last() =~= whole + r);
        lemma_bumped_with_point(whole, r, places - 1);
        if kept.last() == '9' {
            let c = bumped(whole + r);
            assert(b == c.push('0'));
            assert(bumped(s) == bumped(whole.push('.') + r).push('0'));
            assert(bumped(s) =~= b.take(n).push('.') + b.skip(n));
        } else {
            assert(b =~= (whole + r).push((kept.last() as int + 1) as char));
            assert(bumped(s) =~= (whole.push('.') + r).push((kept.last() as int + 1) as char));
            assert(b.take(n) =~= whole);
            assert(bumped(s) =~= b.take(n).push('.') + b.skip(n));
        }
    }
}

proof fn lemma_bumped_split(whole: Seq<char>, kept: Seq<char>, places: int)
    requires
        are_digits(whole),
        are_digits(kept),
        kept.len() == places,
        whole.len() > 0,
    ensures
        ({
            let text = if places == 0 {
                whole
            } else {
                whole.push('.') + kept
            };
            let t = bumped(text);
            let front = t.take(t.len() - (if places == 0 {
                0int
            } else {
                places + 1
            }));
            let back = t.skip(t.len() - places);
            &&& front + back == bumped(whole + kept)
            &&& front.len() >= whole.len()
            &&& back.len() == places
            &&& places > 0 ==> t == front.push('.') + back
            &&& are_digits(front)
            &&& are_digits(back)
        }),
{
    lemma_bumped_with_point(whole, kept, places);
    lemma_bumped_digits(whole + kept);
    let b = bumped(whole + kept);
    let n = b.len() - places;
    if places == 0 {
        assert(whole + kept =~= whole);
        let t = bumped(whole);
        assert(t.take(t.len() as int) =~= t);
        assert(t.skip(t.len() as int) =~= seq![]);
        assert(t.take(t.len() as int) + t.skip(t.len() as int) =~= t);
    } else {
        let t = bumped(whole.push('.') + kept);
        assert(t.take(t.len() - (places + 1)) =~= b.take(n));
        assert(t.skip(t.len() - places) =~= b.skip(n));
        assert(b.take(n) + b.skip(n) =~= b);
        assert(t =~= b.take(n).push('.') + b.skip(n));
    }
}

// ── Widths and groups ───────────────────────────────────────────────────────

/// A width makes a text that long, where it is not longer already: with spaces
/// behind it where the flag asks for that, in front of it otherwise, and with
/// zeros between the sign and the digits of a number where the other flag asks
/// for that.
#[verifier::rlimit(60)]
pub proof fn a_width_is_filled_up(
    conv: char,
    f: FmtFlags,
    w: int,
    prec: Option<int>,
    a: ArgV,
    shown: Seq<char>,
    general: Option<int>,
)
    requires
        shown_by(conv, f, None, prec, a, shown, general) is Ok,
    ensures
        ({
            let bare = shown_by(conv, f, None, prec, a, shown, general)->Ok_0;
            let r = shown_by(conv, f, Some(w), prec, a, shown, general);
            let t = r->Ok_0;
            let gap = w - bare.len();
            &&& r is Ok
            &&& gap <= 0 ==> t == bare
            &&& gap > 0 ==> t.len() == w
            &&& gap > 0 && f.left ==> t.take(bare.len() as int) == bare && forall|i: int|
                bare.len() <= i < w ==> #[trigger] t[i] == ' '
            &&& gap > 0 && !f.left && !f.zero ==> t.skip(gap) == bare && forall|i: int|
                0 <= i < gap ==> #[trigger] t[i] == ' '
            &&& gap > 0 && !f.left && f.zero && conv == 'd' && a.value is Int ==> exists|p: int|
                0 <= p <= 1 && (p == 1 ==> bare.len() > 0 && !('0' <= bare[0] <= '9'))
                    && #[trigger] bare.take(p) + zeros(gap) + bare.skip(p) == t
        }),
{
    lemma_signs_known();
    lemma_boxed(a.value);
    let p = conversion(conv, a, prec, f, seq![], shown, general)->Ok_0;
    let body = if f.group && p.numeric {
        with_groups(p.body)
    } else {
        p.body
    };
    let wrapped = f.parens && p.prefix == "-"@;
    let prefix = if wrapped {
        "("@
    } else {
        p.prefix
    };
    let suffix = if wrapped {
        ")"@
    } else {
        ""@
    };
    let bare = prefix + body + suffix;
    let gap = w - bare.len();
    if gap > 0 {
        lemma_filler(" "@, ' ', gap);
        lemma_filler("0"@, '0', gap);
        let t = laid_out(p, f, Some(w));
        if f.left {
            assert(t.take(bare.len() as int) =~= bare);
        } else if !(f.zero && p.numeric) {
            assert(t.skip(gap) =~= bare);
        } else {
            let k = prefix.len() as int;
            assert(t =~= bare.take(k) + zeros(gap) + bare.skip(k)) by {
                assert(bare.take(k) =~= prefix);
                assert(bare.skip(k) =~= body + suffix);
            }
            if conv == 'd' && a.value is Int {
                assert(k <= 1);
                if k == 1 {
                    assert(bare[0] == prefix[0]);
                }
            }
        }
    }
}

proof fn lemma_filler(s: Seq<char>, c: char, n: int)
    requires
        n >= 0,
        s == seq![c],
    ensures
        repeated(s, n).len() == n,
        forall|i: int| 0 <= i < n ==> #[trigger] repeated(s, n)[i] == c,
    decreases n,
{
    if n > 0 {
        let r = repeated(s, n - 1);
        lemma_filler(s, c, n - 1);
        assert forall|i: int| 0 <= i < n implies #[trigger] repeated(s, n)[i] == c by {
            if i < n - 1 {
                assert(repeated(s, n)[i] == r[i]);
            }
        }
    }
}

/// `%,d` puts a comma between each two groups of three digits, counted from the
/// end, and nowhere else; the digits stay.
#[verifier::rlimit(60)]
pub proof fn groups_are_of_three(f: FmtFlags, a: ArgV, n: i64, shown: Seq<char>, general: Option<int>)
    requires
        a.value == Val::Int(n),
        a.int == n,
        n >= 0,
        unsigned_flags(f) == f,
        !f.group,
    ensures
        ({
            let g = FmtFlags { group: true, ..f };
            let d = shown_by('d', f, None, None, a, shown, general)->Ok_0;
            let r = shown_by('d', g, None, None, a, shown, general);
            let t = r->Ok_0;
            &&& r is Ok
            &&& t.len() == d.len() + (d.len() - 1) / 3
            &&& forall|k: int| 0 <= k < t.len() ==> (#[trigger] t[t.len() - 1 - k] == ',' <==> k % 4 == 3)
            &&& forall|k: int|
                0 <= k < t.len() && k % 4 != 3 ==> #[trigger] t[t.len() - 1 - k] == d[d.len() - 1 - (
                k - k / 4)]
        }),
{
    lemma_signs_known();
    lemma_boxed(a.value);
    let g = FmtFlags { group: true, ..f };
    let d = digits(n as int, 10);
    lemma_digits_spell(n as int, 10);
    assert(arg_class(seq![], a.value) == Some("java.lang.Integer"@));
    assert(are_digits(d)) by {
        assert forall|i: int| 0 <= i < d.len() implies '0' <= #[trigger] d[i] <= '9' by {
            assert(is_digit_in(d[i], 10));
        }
    }
    let p = conversion('d', a, None, f, seq![], shown, general)->Ok_0;
    let q = conversion('d', a, None, g, seq![], shown, general)->Ok_0;
    assert(p.prefix == ""@ && q.prefix == ""@ && p.body == d && q.body == d);
    assert(laid_out(p, f, None) =~= d);
    let t = with_groups(d);
    assert(laid_out(q, g, None) =~= t);
    assert('0' <= d[0] <= '9');
    lemma_no_point(d, 0);
    assert(d.subrange(0, d.len() as int) =~= d);
    assert(d.take(0) =~= seq![]);
    assert(d.skip(d.len() as int) =~= seq![]);
    let m = d.len() as int;
    assert(t =~= grouped(d, m));
    lemma_grouped(d, m);
    assert forall|k: int| 0 <= k < t.len() implies (#[trigger] t[t.len() - 1 - k] == ',' <==> k % 4
        == 3) && (k % 4 != 3 ==> t[t.len() - 1 - k] == d[d.len() - 1 - (k - k / 4)]) by {
        let i = t.len() - 1 - k;
        assert(grouped_char(d, m, i) == t[i]);
        lemma_place(m, k);
        if k % 4 != 3 {
            assert('0' <= d[m - 1 - (k - k / 4)] <= '9');
        }
    }
}

proof fn lemma_no_point(d: Seq<char>, i: int)
    requires
        are_digits(d),
        0 <= i,
    ensures
        char_index(d, '.', i) < 0,
    decreases d.len() - i,
{
    if i < d.len() {
        assert('0' <= d[i] <= '9');
        lemma_no_point(d, i + 1);
    }
}

/// How long the first `i` of `m` digits are with their commas.
spec fn grouped_len(m: int, i: int) -> int {
    if i <= 0 {
        0
    } else {
        i + ((m - 1) / 3 - (m - i) / 3)
    }
}

/// What stands at a place of `m` digits with their commas.
spec fn grouped_char(d: Seq<char>, m: int, i: int) -> char {
    let k = grouped_len(m, m) - 1 - i;
    if k % 4 == 3 {
        ','
    } else {
        d[m - 1 - (k - k / 4)]
    }
}

proof fn lemma_place(m: int, k: int)
    requires
        m > 0,
        0 <= k < m + (m - 1) / 3,
    ensures
        k % 4 != 3 ==> 0 <= m - 1 - (k - k / 4) < m,
{
}

proof fn lemma_grouped(d: Seq<char>, i: int)
    requires
        are_digits(d),
        0 <= i <= d.len(),
        d.len() > 0,
    ensures
        grouped(d, i).len() == grouped_len(d.len() as int, i),
        forall|j: int|
            0 <= j < grouped(d, i).len() ==> #[trigger] grouped(d, i)[j] == grouped_char(
                d,
                d.len() as int,
                j,
            ),
    decreases i,
{
    let m = d.len() as int;
    if i > 0 {
        lemma_grouped(d, i - 1);
        let before = grouped(d, i - 1);
        let all = grouped_len(m, m);
        assert(all == m + (m - 1) / 3);
        if i > 1 && (m - (i - 1)) % 3 == 0 {
            let r = m - (i - 1);
            // The comma stands in front of `r` digits and of `r / 3 - 1` commas.
            let k = r + r / 3 - 1;
            assert(all - 1 - before.len() == k);
            assert(k % 4 == 3);
            assert(before.push(',')[before.len() as int] == ',');
        } else {
            let r = m - (i - 1);
            let k = (r - 1) + (r - 1) / 3;
            assert(all - 1 - before.len() == k);
            assert(k % 4 != 3 && k - k / 4 == r - 1);
        }
        let sep = if i > 1 && (m - (i - 1)) % 3 == 0 {
            before.push(',')
        } else {
            before
        };
        let r = m - (i - 1);
        let k = (r - 1) + (r - 1) / 3;
        assert(all - 1 - sep.len() == k);
        assert(k % 4 != 3 && k - k / 4 == r - 1);
        assert(d[m - 1 - (k - k / 4)] == d[i - 1]);
    }
}

// ── Other conversions ───────────────────────────────────────────────────────

/// `%x` and `%o` show the bits of a whole number, without a sign, and `%X` those
/// of `%x` with capital letters.
#[verifier::rlimit(60)]
pub proof fn bits_are_shown_by_radix(f: FmtFlags, a: ArgV, n: i64, shown: Seq<char>, general: Option<int>)
    requires
        a.value == Val::Int(n),
        a.int == n,
        i32::MIN <= n <= i32::MAX,
        !f.alt,
        !f.group,
    ensures
        ({
            let bits = if n < 0 {
                n + 0x1_0000_0000
            } else {
                n as int
            };
            let hex = shown_by('x', f, None, None, a, shown, general);
            let large = shown_by('X', f, None, None, a, shown, general);
            let oct = shown_by('o', f, None, None, a, shown, general);
            &&& hex is Ok && all_digits(hex->Ok_0, 16) && number(hex->Ok_0, 16) == bits
            &&& oct is Ok && all_digits(oct->Ok_0, 8) && number(oct->Ok_0, 8) == bits
            &&& large is Ok && large->Ok_0.len() == hex->Ok_0.len()
            &&& forall|i: int|
                0 <= i < hex->Ok_0.len() ==> {
                    let c = #[trigger] hex->Ok_0[i];
                    let b = large->Ok_0[i];
                    &&& !('A' <= c <= 'Z')
                    &&& !('a' <= b <= 'z')
                    &&& b as int == if 'a' <= c <= 'z' {
                        c as int - 32
                    } else {
                        c as int
                    }
                }
        }),
{
    lemma_signs_known();
    lemma_boxed(a.value);
    reveal_strlit("byte");
    reveal_strlit("Byte");
    reveal_strlit("short");
    reveal_strlit("Short");
    reveal_strlit("long");
    reveal_strlit("Long");
    reveal_strlit("int");
    reveal_strlit("Integer");
    assert("byte"@.len() == 4 && "Byte"@.len() == 4 && "short"@.len() == 5 && "Short"@.len() == 5);
    assert("long"@.len() == 4 && "Long"@.len() == 4 && "int"@.len() == 3 && "Integer"@.len() == 7);
    let bits = pattern_of(n as int, seq![]);
    lemma_digits_spell(bits, 16);
    lemma_digits_spell(bits, 8);
    lemma_small_letters(bits);
    assert(arg_class(seq![], a.value) == Some("java.lang.Integer"@));
    let p = conversion('x', a, None, f, seq![], shown, general)->Ok_0;
    assert(laid_out(p, f, None) =~= digits(bits, 16));
    let q = conversion('X', a, None, f, seq![], shown, general)->Ok_0;
    assert(laid_out(q, f, None) =~= capitals(digits(bits, 16)));
    let o = conversion('o', a, None, f, seq![], shown, general)->Ok_0;
    assert(laid_out(o, f, None) =~= digits(bits, 8));
}

proof fn lemma_small_letters(n: int)
    requires
        n >= 0,
    ensures
        forall|i: int|
            0 <= i < digits(n, 16).len() ==> !('A' <= #[trigger] digits(n, 16)[i] <= 'Z'),
    decreases n,
{
    if n >= 16 {
        let r = digits(n / 16, 16);
        lemma_small_letters(n / 16);
        assert forall|i: int| 0 <= i < digits(n, 16).len() implies !('A' <= #[trigger] digits(
            n,
            16,
        )[i] <= 'Z') by {
            if i < r.len() {
                assert(digits(n, 16)[i] == r[i]);
            }
        }
    }
}

/// `%s` shows the text of its argument, cut to the precision where there is one;
/// `%b` shows `true` or `false`, where only `false` and `null` are false; `%c`
/// shows the character with a code; and every conversion but `%b` shows `null` as
/// such.
#[verifier::rlimit(60)]
pub proof fn texts_are_shown(
    f: FmtFlags,
    prec: Option<int>,
    a: ArgV,
    c: char,
    shown: Seq<char>,
    general: Option<int>,
    conv: char,
)
    requires
        unsigned_flags(f) == f,
        prec matches Some(p) ==> p >= 0,
    ensures
        a.value is Str ==> ({
            let r = shown_by('s', f, None, prec, a, shown, general);
            let t = r->Ok_0;
            &&& r is Ok
            &&& prec is None ==> t == shown
            &&& prec matches Some(p) ==> t.len() <= p && t.len() <= shown.len() && (t.len() == p
                || t == shown) && t == shown.take(t.len() as int)
        }),
        prec is None && (a.value is Bool || a.value == Val::Undef) ==> shown_by(
            'b',
            f,
            None,
            prec,
            a,
            shown,
            general,
        ) == Ok::<Seq<char>, FaultV>(
            if a.value == Val::Bool(true) {
                seq!['t', 'r', 'u', 'e']
            } else {
                seq!['f', 'a', 'l', 's', 'e']
            },
        ),
        a.value == Val::Int((c as int) as i64) ==> shown_by('c', f, None, prec, a, shown, general)
            == Ok::<Seq<char>, FaultV>(seq![c]),
        prec is None && a.value == Val::Undef && (conv == 'd' || conv == 's' || conv == 'f' || conv
            == 'x') ==> shown_by(conv, f, None, prec, a, shown, general) == Ok::<
            Seq<char>,
            FaultV,
        >(seq!['n', 'u', 'l', 'l']),
{
    lemma_signs_known();
    lemma_boxed(a.value);
    reveal_strlit("true");
    reveal_strlit("false");
    reveal_strlit("null");
    assert("true"@ =~= seq!['t', 'r', 'u', 'e']);
    assert("false"@ =~= seq!['f', 'a', 'l', 's', 'e']);
    assert("null"@ =~= seq!['n', 'u', 'l', 'l']);
    assert(forall|s: Seq<char>| #[trigger] laid_out(text_piece(s), f, None) =~= s);
}

// ── Format strings ──────────────────────────────────────────────────────────

proof fn lemma_plain_specifier(s: Seq<char>, i: int)
    requires
        0 <= i < s.len() - 1,
        s[i] == '%',
        'a' <= s[i + 1] <= 'z' || s[i + 1] == '%',
    ensures
        specifier(s, i + 1).index is None,
        specifier(s, i + 1).flags == no_flags(),
        specifier(s, i + 1).width.len() == 0,
        specifier(s, i + 1).prec is None,
        specifier(s, i + 1).end == i + 1,
{
    assert(digits_end(s, i + 1) == i + 1);
    assert(flags_end(s, i + 1) == i + 1);
    assert(s.subrange(i + 1, i + 1) =~= seq![]);
    assert(specifier(s, i + 1).width =~= seq![]);
}

/// What stands outside the directives of a format string is kept, `%%` is a percent
/// sign and `%n` the end of a line; neither takes an argument.
#[verifier::rlimit(60)]
pub proof fn a_format_string_keeps_its_text(
    s: Seq<char>,
    i: int,
    next: int,
    out: Seq<char>,
    args: Seq<ArgV>,
    tags: Seq<Seq<char>>,
    show: spec_fn(int) -> Seq<char>,
    general: spec_fn(int, int) -> Option<int>,
)
    requires
        0 <= i < s.len(),
    ensures
        s[i] != '%' ==> formatted(s, i, next, out, args, tags, show, general) == formatted(
            s,
            i + 1,
            next,
            out + seq![s[i]],
            args,
            tags,
            show,
            general,
        ),
        i + 1 < s.len() && s[i] == '%' && s[i + 1] == '%' ==> formatted(
            s,
            i,
            next,
            out,
            args,
            tags,
            show,
            general,
        ) == formatted(s, i + 2, next, out + seq!['%'], args, tags, show, general),
        i + 1 < s.len() && s[i] == '%' && s[i + 1] == 'n' ==> formatted(
            s,
            i,
            next,
            out,
            args,
            tags,
            show,
            general,
        ) == formatted(s, i + 2, next, out + seq!['\n'], args, tags, show, general),
{
    assert(out.push(s[i]) =~= out + seq![s[i]]);
    if i + 1 < s.len() && s[i] == '%' && (s[i + 1] == '%' || s[i + 1] == 'n') {
        lemma_plain_specifier(s, i);
        lemma_no_flag_fault(s[i + 1], s.subrange(i, i + 2));
        reveal_strlit("%");
        reveal_strlit("");
        assert(""@ + "%"@ + ""@ =~= seq!['%']);
    }
}

/// Directives without an index take the arguments in their order: each shows the
/// next one, and the one behind it comes next.
#[verifier::rlimit(60)]
pub proof fn directives_take_arguments_in_order(
    s: Seq<char>,
    i: int,
    next: int,
    out: Seq<char>,
    args: Seq<ArgV>,
    tags: Seq<Seq<char>>,
    show: spec_fn(int) -> Seq<char>,
    general: spec_fn(int, int) -> Option<int>,
)
    requires
        0 <= i < s.len() - 1,
        s[i] == '%',
        s[i + 1] == 'd' || s[i + 1] == 's' || s[i + 1] == 'f' || s[i + 1] == 'x' || s[i + 1] == 'b',
        0 <= next < args.len(),
        tags.len() == 0,
    ensures
        ({
            let piece = shown_by(
                s[i + 1],
                no_flags(),
                None,
                None,
                args[next],
                show(next),
                general(next, 6),
            );
            formatted(s, i, next, out, args, tags, show, general) == match piece {
                Ok(t) => formatted(s, i + 2, next + 1, out + t, args, tags, show, general),
                Err(e) => Err(e),
            }
        }),
        formatted(s, i, args.len() as int, out, args, tags, show, general) is Err,
{
    lemma_plain_specifier(s, i);
    lemma_no_flag_fault(s[i + 1], s.subrange(i, i + 2));
}

proof fn lemma_no_flag_fault(conv: char, source: Seq<char>)
    requires
        conv == 'd' || conv == 's' || conv == 'f' || conv == 'x' || conv == 'b' || conv == '%'
            || conv == 'n',
    ensures
        flag_fault(conv, no_flags(), None, None, source) is None,
{
}

} // verus!
