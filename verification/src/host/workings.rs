//! What builders, operators, casts, texts of values and equality mean, in terms of
//! their operands.
use vstd::prelude::*;

use vstd::arithmetic::power2::{lemma_pow2_pos, pow2};

use crate::double::{DoubleV, exponent, is_nan, magnitude, negative, rank, significand, whole};
use crate::host::{HostV, ObjV, Order};
use crate::host::boxes::box_of;
use crate::host::builder::builder_called;
use crate::host::lookups::only_at;
use crate::host::maths::{lemma_digits_spell, wrapped};
use crate::host::operators::{
    CastAnswerV, NumAnswerV, NumOp, casted, lemma_remainder, operated, shifted_down,
    text_operated, truncated, wrapped_at,
};
use crate::host::order::{equal, in_order};
use crate::host::render::{
    entries_in_order, entry_texts, item_texts, list_text, text_at, text_of_value,
};
use crate::host::views::object;
use crate::text::{all_digits, dec, digits, join, number};
use crate::value::{FaultV, Val};

verus! {

/// The names of the methods of a builder are different words.
proof fn lemma_builder_names()
    ensures
        "append"@.len() == 6 && "append"@[0] == 'a',
        "appendChars"@.len() == 11 && "appendChars"@[0] == 'a',
        "appendCodePoint"@.len() == 15,
        "capacity"@.len() == 8 && "capacity"@[0] == 'c',
        "charAt"@.len() == 6 && "charAt"@[0] == 'c',
        "compareTo"@.len() == 9 && "compareTo"@[0] == 'c' && "compareTo"@[3] == 'p',
        "delete"@.len() == 6 && "delete"@[0] == 'd',
        "deleteCharAt"@.len() == 12,
        "ensureCapacity"@.len() == 14,
        "equals"@.len() == 6 && "equals"@[0] == 'e',
        "getClass"@.len() == 8 && "getClass"@[0] == 'g',
        "hashCode"@.len() == 8 && "hashCode"@[0] == 'h',
        "indexOf"@.len() == 7 && "indexOf"@[1] == 'n' && "indexOf"@[2] == 'd',
        "insert"@.len() == 6 && "insert"@[0] == 'i',
        "isEmpty"@.len() == 7 && "isEmpty"@[1] == 's' && "isEmpty"@[2] == 'E',
        "lastIndexOf"@.len() == 11 && "lastIndexOf"@[0] == 'l',
        "length"@.len() == 6 && "length"@[0] == 'l',
        "repeat"@.len() == 6 && "repeat"@[0] == 'r',
        "replace"@.len() == 7 && "replace"@[1] == 'e' && "replace"@[2] == 'p',
        "reverse"@.len() == 7 && "reverse"@[1] == 'e' && "reverse"@[2] == 'v',
        "setCharAt"@.len() == 9 && "setCharAt"@[0] == 's' && "setCharAt"@[3] == 'C',
        "setLength"@.len() == 9 && "setLength"@[0] == 's' && "setLength"@[3] == 'L',
        "subSequence"@.len() == 11 && "subSequence"@[0] == 's',
        "substring"@.len() == 9 && "substring"@[0] == 's' && "substring"@[3] == 's',
        "toString"@.len() == 8 && "toString"@[0] == 't',
        "trimToSize"@.len() == 10,
{
    reveal_strlit("append");
    reveal_strlit("appendChars");
    reveal_strlit("appendCodePoint");
    reveal_strlit("capacity");
    reveal_strlit("charAt");
    reveal_strlit("compareTo");
    reveal_strlit("delete");
    reveal_strlit("deleteCharAt");
    reveal_strlit("ensureCapacity");
    reveal_strlit("equals");
    reveal_strlit("getClass");
    reveal_strlit("hashCode");
    reveal_strlit("indexOf");
    reveal_strlit("insert");
    reveal_strlit("isEmpty");
    reveal_strlit("lastIndexOf");
    reveal_strlit("length");
    reveal_strlit("repeat");
    reveal_strlit("replace");
    reveal_strlit("reverse");
    reveal_strlit("setCharAt");
    reveal_strlit("setLength");
    reveal_strlit("subSequence");
    reveal_strlit("substring");
    reveal_strlit("toString");
    reveal_strlit("trimToSize");
}

/// The names of the primitive types are different words.
proof fn lemma_type_names()
    ensures
        "byte"@.len() == 4 && "byte"@[0] == 'b',
        "char"@.len() == 4 && "char"@[0] == 'c',
        "double"@.len() == 6,
        "float"@.len() == 5 && "float"@[0] == 'f',
        "int"@.len() == 3,
        "long"@.len() == 4 && "long"@[0] == 'l',
        "short"@.len() == 5 && "short"@[0] == 's',
{
    reveal_strlit("byte");
    reveal_strlit("char");
    reveal_strlit("double");
    reveal_strlit("float");
    reveal_strlit("int");
    reveal_strlit("long");
    reveal_strlit("short");
}

// ── Builders ────────────────────────────────────────────────────────────────

/// Whether a builder holds a text.
pub open spec fn builds_text(h: HostV, id: u32, s: Seq<char>) -> bool {
    object(h, id as int) matches Some(ObjV::Builder { s: t, .. }) && t == s
}

/// Whether a call leaves a text in a builder, answers with the builder, and changes
/// nothing else.
pub open spec fn makes_text(
    h: HostV,
    r: (HostV, Option<Result<Val, FaultV>>),
    id: u32,
    s: Seq<char>,
) -> bool {
    only_at(h, r.0, id as int) && builds_text(r.0, id, s) && r.1 == Some(
        Ok::<Val, FaultV>(Val::Obj(id)),
    )
}

/// Whether a call answers with a value and leaves a builder's text alone.
pub open spec fn tells_of_text(
    h: HostV,
    r: (HostV, Option<Result<Val, FaultV>>),
    id: u32,
    s: Seq<char>,
    v: Val,
) -> bool {
    only_at(h, r.0, id as int) && builds_text(r.0, id, s) && r.1 == Some(Ok::<Val, FaultV>(v))
}

/// Whether a call fails and changes nothing.
pub open spec fn fails(h: HostV, r: (HostV, Option<Result<Val, FaultV>>)) -> bool {
    r.0 == h && r.1 is Some && r.1->0 is Err
}

/// `append` puts the text of its argument behind a builder's text.
#[verifier::rlimit(60)]
pub proof fn append_puts_behind(h: HostV, id: u32, s: Seq<char>, arg: Val, t: Seq<char>)
    requires
        builds_text(h, id, s),
    ensures
        makes_text(h, builder_called(h, id, "append"@, seq![arg], seq![t]), id, s + t),
{
    lemma_builder_names();
}

/// `insert` puts a text in front of the character at an index, or at the end.
#[verifier::rlimit(60)]
pub proof fn insert_puts_between(h: HostV, id: u32, s: Seq<char>, i: i64, v: Val, t: Seq<char>, u: Seq<char>)
    requires
        builds_text(h, id, s),
    ensures
        ({
            let r = builder_called(h, id, "insert"@, seq![Val::Int(i), v], seq![u, t]);
            &&& 0 <= i <= s.len() ==> makes_text(h, r, id, s.take(i as int) + t + s.skip(i as int))
            &&& !(0 <= i <= s.len()) ==> fails(h, r)
        }),
{
    lemma_builder_names();
}

/// `delete` takes out what stands from one index up to another, which may lie
/// behind the end, and `deleteCharAt` one character.
#[verifier::rlimit(60)]
pub proof fn delete_takes_out(h: HostV, id: u32, s: Seq<char>, a: i64, b: i64, t: Seq<char>, u: Seq<char>)
    requires
        builds_text(h, id, s),
    ensures
        ({
            let r = builder_called(h, id, "delete"@, seq![Val::Int(a), Val::Int(b)], seq![t, u]);
            let end = if b < s.len() {
                b as int
            } else {
                s.len() as int
            };
            &&& 0 <= a <= end ==> makes_text(h, r, id, s.take(a as int) + s.skip(end))
            &&& !(0 <= a <= end) ==> fails(h, r)
        }),
        ({
            let r = builder_called(h, id, "deleteCharAt"@, seq![Val::Int(a)], seq![t]);
            &&& 0 <= a < s.len() ==> makes_text(h, r, id, s.take(a as int) + s.skip(a + 1))
            &&& !(0 <= a < s.len()) ==> fails(h, r)
        }),
{
    lemma_builder_names();
    let none = Seq::<char>::empty();
    let end = if b < s.len() {
        b as int
    } else {
        s.len() as int
    };
    if 0 <= a <= end {
        assert(s.take(a as int) + none + s.skip(end) =~= s.take(a as int) + s.skip(end));
    }
    if 0 <= a < s.len() {
        assert(s.take(a as int) + none + s.skip(a + 1) =~= s.take(a as int) + s.skip(a + 1));
    }
}

/// `replace` puts a text in the place of what stands from one index up to another,
/// and `setCharAt` a character in the place of one.
#[verifier::rlimit(60)]
pub proof fn replace_puts_in_place(
    h: HostV,
    id: u32,
    s: Seq<char>,
    a: i64,
    b: i64,
    v: Val,
    t: Seq<char>,
    x: Seq<char>,
    y: Seq<char>,
)
    requires
        builds_text(h, id, s),
    ensures
        ({
            let r = builder_called(
                h,
                id,
                "replace"@,
                seq![Val::Int(a), Val::Int(b), v],
                seq![x, y, t],
            );
            let end = if b < s.len() {
                b as int
            } else {
                s.len() as int
            };
            &&& 0 <= a <= end ==> makes_text(h, r, id, s.take(a as int) + t + s.skip(end))
            &&& !(0 <= a <= end) ==> fails(h, r)
        }),
        ({
            let r = builder_called(h, id, "setCharAt"@, seq![Val::Int(a), v], seq![x, t]);
            &&& 0 <= a < s.len() ==> tells_of_text(
                h,
                r,
                id,
                s.take(a as int) + t + s.skip(a + 1),
                Val::Undef,
            )
            &&& !(0 <= a < s.len()) ==> fails(h, r)
        }),
{
    lemma_builder_names();
}

/// `reverse` turns a builder's text round: what stood at one end stands as far from
/// the other.
#[verifier::rlimit(60)]
pub proof fn reverse_turns_round(h: HostV, id: u32, s: Seq<char>, i: int)
    requires
        builds_text(h, id, s),
        0 <= i < s.len(),
    ensures
        ({
            let r = builder_called(h, id, "reverse"@, seq![], seq![]);
            let t = r.0.heap[id as int]->Builder_s;
            &&& makes_text(h, r, id, t)
            &&& t.len() == s.len()
            &&& t[i] == s[s.len() - 1 - i]
        }),
{
    lemma_builder_names();
}

/// `toString`, `length` and `charAt` tell a builder's text, how long it is and what
/// stands at an index; `substring` cuts a part out. The text stays.
#[verifier::rlimit(60)]
pub proof fn a_builder_tells_its_text(h: HostV, id: u32, s: Seq<char>, a: i64, b: i64, t: Seq<char>, u: Seq<char>)
    requires
        builds_text(h, id, s),
        s.len() <= i64::MAX,
    ensures
        tells_of_text(h, builder_called(h, id, "toString"@, seq![], seq![]), id, s, Val::Str(s)),
        tells_of_text(
            h,
            builder_called(h, id, "length"@, seq![], seq![]),
            id,
            s,
            Val::Int(s.len() as i64),
        ),
        0 <= a < s.len() ==> tells_of_text(
            h,
            builder_called(h, id, "charAt"@, seq![Val::Int(a)], seq![t]),
            id,
            s,
            Val::Int((s[a as int] as int) as i64),
        ),
        0 <= a <= b <= s.len() ==> tells_of_text(
            h,
            builder_called(h, id, "substring"@, seq![Val::Int(a), Val::Int(b)], seq![t, u]),
            id,
            s,
            Val::Str(s.take(b as int).skip(a as int)),
        ),
        0 <= a <= s.len() ==> tells_of_text(
            h,
            builder_called(h, id, "substring"@, seq![Val::Int(a)], seq![t]),
            id,
            s,
            Val::Str(s.skip(a as int)),
        ),
{
    lemma_builder_names();
    if 0 <= a <= b <= s.len() {
        assert(s.take(b as int).skip(a as int) =~= s.subrange(a as int, b as int));
    }
}

/// `setLength` cuts a builder's text, or fills it up with NUL.
#[verifier::rlimit(60)]
pub proof fn set_length_cuts_or_fills(h: HostV, id: u32, s: Seq<char>, n: i64, t: Seq<char>)
    requires
        builds_text(h, id, s),
        n >= 0,
    ensures
        ({
            let r = builder_called(h, id, "setLength"@, seq![Val::Int(n)], seq![t]);
            let u = r.0.heap[id as int]->Builder_s;
            &&& tells_of_text(h, r, id, u, Val::Undef)
            &&& u.len() == n
            &&& forall|i: int| 0 <= i < n && i < s.len() ==> #[trigger] u[i] == s[i]
            &&& forall|i: int| s.len() <= i < n ==> #[trigger] u[i] == '\0'
        }),
{
    lemma_builder_names();
}

// ── Operators ───────────────────────────────────────────────────────────────

/// Whether an operation answers with a value.
pub open spec fn results_in(r: Result<NumAnswerV, Seq<char>>, v: Val) -> bool {
    r == Ok::<NumAnswerV, Seq<char>>(NumAnswerV::Value(v))
}

/// The number an operation answers with.
pub open spec fn int_result(r: Result<NumAnswerV, Seq<char>>) -> int {
    r->Ok_0->Value_0->Int_0 as int
}

/// Adding, subtracting and multiplying whole numbers keeps the lowest sixty-four
/// bits of the sum, the difference and the product, and so does taking the
/// opposite.
#[verifier::rlimit(60)]
pub proof fn arithmetic_wraps(h: HostV, x: i64, y: i64)
    ensures
        ({
            let (a, b) = (Val::Int(x), Val::Int(y));
            let sum = operated(h, NumOp::Add, a, b);
            let difference = operated(h, NumOp::Sub, a, b);
            let product = operated(h, NumOp::Mul, a, b);
            let opposite = operated(h, NumOp::Neg, a, b);
            &&& results_in(sum, Val::Int(int_result(sum) as i64))
            &&& (int_result(sum) - (x + y)) % 0x1_0000_0000_0000_0000 == 0
            &&& results_in(difference, Val::Int(int_result(difference) as i64))
            &&& (int_result(difference) - (x - y)) % 0x1_0000_0000_0000_0000 == 0
            &&& results_in(product, Val::Int(int_result(product) as i64))
            &&& (int_result(product) - (x * y)) % 0x1_0000_0000_0000_0000 == 0
            &&& results_in(opposite, Val::Int(int_result(opposite) as i64))
            &&& (int_result(opposite) + x) % 0x1_0000_0000_0000_0000 == 0
        }),
{
    lemma_wraps(x + y);
    lemma_wraps(x - y);
    lemma_wraps(x * y);
    lemma_wraps(-x as int);
}

proof fn lemma_wraps(n: int)
    ensures
        i64::MIN <= wrapped(n) <= i64::MAX,
        (wrapped(n) - n) % 0x1_0000_0000_0000_0000 == 0,
{
    let m = 0x1_0000_0000_0000_0000int;
    let k = n + 0x8000_0000_0000_0000;
    assert(k == m * (k / m) + k % m) by (nonlinear_arith)
        requires
            m == 0x1_0000_0000_0000_0000int,
    ;
    assert((wrapped(n) - n) == m * (-(k / m)));
    assert((m * (-(k / m))) % m == 0) by (nonlinear_arith)
        requires
            m == 0x1_0000_0000_0000_0000int,
    ;
}

/// Division is toward zero and leaves a rest with the sign of the dividend that is
/// closer to zero than the divisor; a divisor of zero is refused.
#[verifier::rlimit(60)]
pub proof fn division_leaves_a_rest(h: HostV, x: i64, y: i64)
    ensures
        ({
            let quotient = operated(h, NumOp::Div, Val::Int(x), Val::Int(y));
            let rest = operated(h, NumOp::Mod, Val::Int(x), Val::Int(y));
            &&& y == 0 ==> quotient is Err && rest is Err
            &&& y != 0 ==> results_in(rest, Val::Int(int_result(rest) as i64)) && results_in(
                quotient,
                Val::Int(int_result(quotient) as i64),
            )
            &&& y != 0 ==> (x >= 0 ==> int_result(rest) >= 0) && (x <= 0 ==> int_result(rest) <= 0)
            &&& y > 0 ==> -y < int_result(rest) < y
            &&& y < 0 ==> y < int_result(rest) < -y
            &&& y != 0 && !(x == i64::MIN && y == -1) ==> y * int_result(quotient) + int_result(rest)
                == x
        }),
{
    if y != 0 {
        let (a, b) = (x as int, y as int);
        lemma_remainder(a, b);
        let q = truncated(a, b);
        let r = a - b * q;
        assert(i64::MIN <= q <= i64::MAX || x == i64::MIN && y == -1) by (nonlinear_arith)
            requires
                a == b * q + r,
                a >= 0 ==> r >= 0,
                a <= 0 ==> r <= 0,
                b > 0 ==> -b < r < b,
                b < 0 ==> b < r < -b,
                b != 0,
                a == x,
                b == y,
                i64::MIN <= a <= i64::MAX,
                i64::MIN <= b <= i64::MAX,
        ;
        assert(i64::MIN <= r <= i64::MAX);
        if !(x == i64::MIN && y == -1) {
            assert(wrapped(q) == q);
            assert(b * q + r == a);
        }
    }
}

/// Whole numbers are compared by their size.
#[verifier::rlimit(60)]
pub proof fn whole_numbers_are_ordered(h: HostV, x: i64, y: i64)
    ensures
        results_in(operated(h, NumOp::Eq, Val::Int(x), Val::Int(y)), Val::Bool(x == y)),
        results_in(operated(h, NumOp::Ne, Val::Int(x), Val::Int(y)), Val::Bool(x != y)),
        results_in(operated(h, NumOp::Lt, Val::Int(x), Val::Int(y)), Val::Bool(x < y)),
        results_in(operated(h, NumOp::Gt, Val::Int(x), Val::Int(y)), Val::Bool(x > y)),
        results_in(operated(h, NumOp::Le, Val::Int(x), Val::Int(y)), Val::Bool(x <= y)),
        results_in(operated(h, NumOp::Ge, Val::Int(x), Val::Int(y)), Val::Bool(x >= y)),
{
}

/// Floating values are compared by their places in the order of floating values,
/// where the two zeros are equal. A value that is no number is unequal to all, and
/// neither above nor below any.
#[verifier::rlimit(60)]
pub proof fn floating_values_are_ordered(h: HostV, a: DoubleV, b: DoubleV)
    ensures
        ({
            let (x, y) = (Val::Float(a), Val::Float(b));
            let odd = is_nan(a.bits) || is_nan(b.bits);
            let zeros = magnitude(a.bits) == 0 && magnitude(b.bits) == 0;
            let lower = !odd && !zeros && rank(a.bits) < rank(b.bits);
            let higher = !odd && !zeros && rank(a.bits) > rank(b.bits);
            &&& results_in(operated(h, NumOp::Lt, x, y), Val::Bool(lower))
            &&& results_in(operated(h, NumOp::Gt, x, y), Val::Bool(higher))
            &&& results_in(
                operated(h, NumOp::Eq, x, y),
                Val::Bool(!odd && (zeros || a.bits == b.bits)),
            )
            &&& results_in(
                operated(h, NumOp::Ne, x, y),
                Val::Bool(!(!odd && (zeros || a.bits == b.bits))),
            )
            &&& results_in(operated(h, NumOp::Le, x, y), Val::Bool(!odd && !higher))
            &&& results_in(operated(h, NumOp::Ge, x, y), Val::Bool(!odd && !lower))
            &&& operated(h, NumOp::Add, x, y) == Ok::<NumAnswerV, Seq<char>>(
                (NumAnswerV::Doubles { op: NumOp::Add, a: a.bits, b: b.bits }),
            )
            &&& operated(h, NumOp::Sub, x, y) == Ok::<NumAnswerV, Seq<char>>(
                (NumAnswerV::Doubles { op: NumOp::Sub, a: a.bits, b: b.bits }),
            )
            &&& operated(h, NumOp::Mul, x, y) == Ok::<NumAnswerV, Seq<char>>(
                (NumAnswerV::Doubles { op: NumOp::Mul, a: a.bits, b: b.bits }),
            )
            &&& operated(h, NumOp::Div, x, y) == Ok::<NumAnswerV, Seq<char>>(
                (NumAnswerV::Doubles { op: NumOp::Div, a: a.bits, b: b.bits }),
            )
        }),
{
}

/// `+` on texts puts one behind another, and they are equal where their characters
/// are.
#[verifier::rlimit(60)]
pub proof fn texts_are_joined(a: Seq<char>, b: Seq<char>)
    ensures
        text_operated(NumOp::Add, a, b) == Ok::<Val, Seq<char>>(Val::Str(a + b)),
        text_operated(NumOp::Eq, a, b) == Ok::<Val, Seq<char>>(Val::Bool(a == b)),
        text_operated(NumOp::Ne, a, b) == Ok::<Val, Seq<char>>(Val::Bool(a != b)),
{
}

// ── Casts ───────────────────────────────────────────────────────────────────

/// The number a cast answers with.
pub open spec fn cast_int(r: CastAnswerV) -> int {
    r->Value_0->Int_0 as int
}

proof fn lemma_low_bits(n: int, half: int)
    requires
        half > 0,
    ensures
        -half <= wrapped_at(n, half) < half,
        (wrapped_at(n, half) - n) % (2 * half) == 0,
{
    let m = 2 * half;
    let k = n + half;
    assert(k == m * (k / m) + k % m && 0 <= k % m < m) by (nonlinear_arith)
        requires
            m > 0,
    ;
    assert(wrapped_at(n, half) - n == m * (-(k / m))) by (nonlinear_arith)
        requires
            wrapped_at(n, half) == k % m - half,
            k == n + half,
            k == m * (k / m) + k % m,
    ;
    let q = -(k / m);
    assert((m * q) % m == 0) by (nonlinear_arith)
        requires
            m > 0,
    ;
}

proof fn lemma_casts(h: HostV, n: i64)
    ensures
        casted(h, "int"@, Val::Int(n)) == CastAnswerV::Value(
            Val::Int(wrapped_at(n as int, 0x8000_0000) as i64),
        ),
        casted(h, "short"@, Val::Int(n)) == CastAnswerV::Value(
            Val::Int(wrapped_at(n as int, 0x8000) as i64),
        ),
        casted(h, "byte"@, Val::Int(n)) == CastAnswerV::Value(
            Val::Int(wrapped_at(n as int, 0x80) as i64),
        ),
        casted(h, "char"@, Val::Int(n)) == CastAnswerV::Value(
            Val::Int((n as int % 0x1_0000) as i64),
        ),
        casted(h, "long"@, Val::Int(n)) == CastAnswerV::Value(Val::Int(n)),
{
    lemma_type_names();
}

/// A cast of a whole number keeps the lowest bits of the type, with the sign that
/// they have there; one to `long` keeps all.
#[verifier::rlimit(60)]
pub proof fn casts_keep_the_lowest_bits(h: HostV, n: i64)
    ensures
        ({
            let i = casted(h, "int"@, Val::Int(n));
            let s = casted(h, "short"@, Val::Int(n));
            let b = casted(h, "byte"@, Val::Int(n));
            &&& i == CastAnswerV::Value(Val::Int(cast_int(i) as i64))
            &&& i32::MIN <= cast_int(i) <= i32::MAX && (cast_int(i) - n) % 0x1_0000_0000 == 0
            &&& s == CastAnswerV::Value(Val::Int(cast_int(s) as i64))
            &&& -0x8000 <= cast_int(s) < 0x8000 && (cast_int(s) - n) % 0x1_0000 == 0
            &&& b == CastAnswerV::Value(Val::Int(cast_int(b) as i64))
            &&& -0x80 <= cast_int(b) < 0x80 && (cast_int(b) - n) % 0x100 == 0
            &&& casted(h, "long"@, Val::Int(n)) == CastAnswerV::Value(Val::Int(n))
        }),
{
    lemma_casts(h, n);
    lemma_low_bits(n as int, 0x8000_0000);
    lemma_low_bits(n as int, 0x8000);
    lemma_low_bits(n as int, 0x80);
}

/// A cast of a whole number to `char` keeps its lowest sixteen bits, without a
/// sign.
#[verifier::rlimit(60)]
pub proof fn characters_have_no_sign(h: HostV, n: i64)
    ensures
        ({
            let c = casted(h, "char"@, Val::Int(n));
            &&& c == CastAnswerV::Value(Val::Int(cast_int(c) as i64))
            &&& 0 <= cast_int(c) < 0x1_0000 && (cast_int(c) - n) % 0x1_0000 == 0
        }),
{
    lemma_casts(h, n);
    let m = 0x1_0000int;
    let k = n as int;
    assert(k == m * (k / m) + k % m && 0 <= k % m < m) by (nonlinear_arith)
        requires
            m == 0x1_0000int,
    ;
    let q = -(k / m);
    assert(k % m - k == m * q) by (nonlinear_arith)
        requires
            k == m * (k / m) + k % m,
            q == -(k / m),
    ;
    assert((m * q) % m == 0) by (nonlinear_arith)
        requires
            m == 0x1_0000int,
    ;
}

/// A cast of a floating value drops what is behind the point and stops at the ends
/// of the type; what is no number becomes zero.
#[verifier::rlimit(60)]
pub proof fn floating_casts_stop_at_the_ends(h: HostV, d: DoubleV)
    ensures
        ({
            let i = casted(h, "int"@, Val::Float(d));
            let l = casted(h, "long"@, Val::Float(d));
            let n = if negative(d.bits) {
                -whole(d.bits)
            } else {
                whole(d.bits)
            };
            let finite = magnitude(d.bits) < 0x7ff0_0000_0000_0000;
            &&& i == CastAnswerV::Value(Val::Int(cast_int(i) as i64))
            &&& l == CastAnswerV::Value(Val::Int(cast_int(l) as i64))
            &&& finite && i32::MIN <= n <= i32::MAX ==> cast_int(i) == n
            &&& finite && n < i32::MIN ==> cast_int(i) == i32::MIN
            &&& finite && n > i32::MAX ==> cast_int(i) == i32::MAX
            &&& finite && i64::MIN <= n <= i64::MAX ==> cast_int(l) == n
            &&& finite && n < i64::MIN ==> cast_int(l) == i64::MIN
            &&& finite && n > i64::MAX ==> cast_int(l) == i64::MAX
            &&& is_nan(d.bits) ==> cast_int(i) == 0 && cast_int(l) == 0
        }),
{
    lemma_type_names();
    lemma_whole_size(d.bits);
}

proof fn lemma_whole_size(bits: u64)
    ensures
        whole(bits) >= 0,
{
    let e = exponent(bits);
    if 1023 <= e < 1075 {
        let p = pow2((1075 - e) as nat) as int;
        lemma_pow2_pos((1075 - e) as nat);
        let s = significand(bits);
        assert(s / p >= 0) by (nonlinear_arith)
            requires
                s >= 0,
                p >= 1,
        ;
    } else if e >= 1075 {
        let p = pow2((e - 1075) as nat) as int;
        lemma_pow2_pos((e - 1075) as nat);
        let s = significand(bits);
        assert(s * p >= 0) by (nonlinear_arith)
            requires
                s >= 0,
                p >= 1,
        ;
    }
}

/// `>>>` moves the bits of a number down as often as the count says, taken within
/// the width, and moves zeros in.
#[verifier::rlimit(60)]
pub proof fn bits_are_moved_down(value: int, count: int)
    ensures
        ({
            let r = shifted_down(value, count, 32);
            let bits = value % 0x1_0000_0000;
            let moved = bits / pow2((count % 32) as nat) as int;
            &&& i32::MIN <= r <= i32::MAX
            &&& r == moved || r == moved - 0x1_0000_0000
        }),
        ({
            let r = shifted_down(value, count, 64);
            let bits = value % 0x1_0000_0000_0000_0000;
            let moved = bits / pow2((count % 64) as nat) as int;
            &&& i64::MIN <= r <= i64::MAX
            &&& r == moved || r == moved - 0x1_0000_0000_0000_0000
        }),
{
    let a = value % 0x1_0000_0000;
    let p = pow2((count % 32) as nat) as int;
    lemma_pow2_pos((count % 32) as nat);
    assert(0 <= a / p <= a) by (nonlinear_arith)
        requires
            a >= 0,
            p >= 1,
    ;
    let b = value % 0x1_0000_0000_0000_0000;
    let q = pow2((count % 64) as nat) as int;
    lemma_pow2_pos((count % 64) as nat);
    assert(0 <= b / q <= b) by (nonlinear_arith)
        requires
            b >= 0,
            q >= 1,
    ;
}

// ── Texts of values ─────────────────────────────────────────────────────────

/// `String.valueOf` of a value that is no object: digits with a sign, a word, or
/// the text itself.
#[verifier::rlimit(60)]
pub proof fn plain_values_have_their_texts(h: HostV, n: i64, s: Seq<char>)
    ensures
        ({
            let t = text_of_value(h, Val::Int(n));
            let size = if n < 0 {
                -n
            } else {
                n as int
            };
            &&& t is Some
            &&& n >= 0 ==> all_digits(t->0, 10) && number(t->0, 10) == n && t->0.len() > 0
            &&& n < 0 ==> t->0.len() > 1 && t->0[0] == '-' && all_digits(t->0.skip(1), 10) && number(
                t->0.skip(1),
                10,
            ) == size
        }),
        text_of_value(h, Val::Str(s)) == Some(s),
        text_of_value(h, Val::Bool(true)) == Some(seq!['t', 'r', 'u', 'e']),
        text_of_value(h, Val::Bool(false)) == Some(seq!['f', 'a', 'l', 's', 'e']),
        text_of_value(h, Val::Undef) == Some(seq!['n', 'u', 'l', 'l']),
{
    reveal_strlit("true");
    reveal_strlit("false");
    reveal_strlit("null");
    assert("true"@ =~= seq!['t', 'r', 'u', 'e']);
    assert("false"@ =~= seq!['f', 'a', 'l', 's', 'e']);
    assert("null"@ =~= seq!['n', 'u', 'l', 'l']);
    if n < 0 {
        lemma_digits_spell(-n, 10);
        assert(dec(n as int).skip(1) =~= digits(-n, 10));
    } else {
        lemma_digits_spell(n as int, 10);
    }
}

/// The text of a list is those of its elements between square brackets, with a
/// comma and a space between each two, in their order.
#[verifier::rlimit(60)]
pub proof fn a_list_shows_its_elements(h: HostV, items: Seq<Val>, last: Val, depth: nat)
    ensures
        list_text(h, seq![], depth) == Some(seq!['[', ']']),
        text_at(h, last, depth) is Some ==> list_text(h, seq![last], depth) == Some(
            seq!['['] + text_at(h, last, depth)->0 + seq![']'],
        ),
        items.len() > 0 && list_text(h, items, depth) is Some && text_at(h, last, depth) is Some
            ==> list_text(h, items.push(last), depth) == Some(
            list_text(h, items, depth)->0.drop_last() + seq![',', ' '] + text_at(h, last, depth)->0
                + seq![']'],
        ),
{
    lemma_brackets();
    let one = seq![last];
    assert(one.drop_last() =~= seq![]);
    assert(item_texts(h, Seq::<Val>::empty(), depth) == Some(Seq::<Seq<char>>::empty()));
    assert(list_text(h, seq![], depth)->0 =~= seq!['[', ']']);
    if text_at(h, last, depth) is Some {
        let t = text_at(h, last, depth)->0;
        assert(item_texts(h, one, depth) == Some(Seq::<Seq<char>>::empty().push(t)));
        assert(list_text(h, one, depth)->0 =~= seq!['['] + t + seq![']']);
        if items.len() > 0 && list_text(h, items, depth) is Some {
            let a = item_texts(h, items, depth)->0;
            lemma_item_count(h, items, depth);
            assert(items.push(last).drop_last() =~= items);
            assert(item_texts(h, items.push(last), depth) == Some(a.push(t)));
            assert(a.push(t).drop_last() =~= a);
            let all = list_text(h, items, depth)->0;
            assert(all.drop_last() =~= seq!['['] + join(a, ", "@));
            assert(list_text(h, items.push(last), depth)->0 =~= all.drop_last() + seq![',', ' '] + t
                + seq![']']);
        }
    }
}

proof fn lemma_item_count(h: HostV, items: Seq<Val>, depth: nat)
    requires
        item_texts(h, items, depth) is Some,
    ensures
        item_texts(h, items, depth)->0.len() == items.len(),
    decreases items.len(),
{
    if items.len() > 0 {
        lemma_item_count(h, items.drop_last(), depth);
    }
}

proof fn lemma_brackets()
    ensures
        "["@ == seq!['['],
        "]"@ == seq![']'],
        ", "@ == seq![',', ' '],
        "{"@ == seq!['{'],
        "}"@ == seq!['}'],
        "="@ == seq!['='],
{
    reveal_strlit("[");
    reveal_strlit("]");
    reveal_strlit(", ");
    reveal_strlit("{");
    reveal_strlit("}");
    reveal_strlit("=");
    assert("["@ =~= seq!['[']);
    assert("]"@ =~= seq![']']);
    assert(", "@ =~= seq![',', ' ']);
    assert("{"@ =~= seq!['{']);
    assert("}"@ =~= seq!['}']);
    assert("="@ =~= seq!['=']);
}

/// A list, a set and a map are shown so: a list and a set by their elements, a map
/// by its entries in braces, each as the text of the key, an equals sign and the
/// text of the value. A builder shows its text.
#[verifier::rlimit(60)]
pub proof fn collections_show_what_they_hold(h: HostV, id: u32, depth: nat)
    requires
        box_of(h, Val::Obj(id)) is None,
        depth > 0,
    ensures
        object(h, id as int) matches Some(ObjV::List { items, .. }) ==> text_at(
            h,
            Val::Obj(id),
            depth,
        ) == list_text(h, items, (depth - 1) as nat),
        object(h, id as int) matches Some(ObjV::SetObj { items, order, .. }) ==> text_at(
            h,
            Val::Obj(id),
            depth,
        ) == list_text(h, in_order(h, items, order), (depth - 1) as nat),
        object(h, id as int) matches Some(ObjV::Builder { s, .. }) ==> text_at(
            h,
            Val::Obj(id),
            depth,
        ) == Some(s),
        object(h, id as int) matches Some(ObjV::MapObj { entries, order }) ==> (entries.len() == 1
            && order == Order::Insertion && text_at(h, entries[0].0, (depth - 1) as nat) is Some
            && text_at(h, entries[0].1, (depth - 1) as nat) is Some ==> text_at(
            h,
            Val::Obj(id),
            depth,
        ) == Some(
            seq!['{'] + text_at(h, entries[0].0, (depth - 1) as nat)->0 + seq!['='] + text_at(
                h,
                entries[0].1,
                (depth - 1) as nat,
            )->0 + seq!['}'],
        )),
{
    lemma_brackets();
    if let Some(ObjV::MapObj { entries, order }) = object(h, id as int) {
        if entries.len() == 1 && order == Order::Insertion {
            let e = entries_in_order(h, entries, order);
            assert(e =~= entries);
            assert(e.drop_last() =~= seq![]);
            let d = (depth - 1) as nat;
            assert(entry_texts(h, Seq::<(Val, Val)>::empty(), d) == Some(Seq::<Seq<char>>::empty()));
            if text_at(h, entries[0].0, d) is Some && text_at(h, entries[0].1, d) is Some {
                let k = text_at(h, entries[0].0, d)->0;
                let v = text_at(h, entries[0].1, d)->0;
                let t = Seq::<Seq<char>>::empty().push(k + "="@ + v);
                assert(entry_texts(h, e, d) == Some(t));
                assert("{"@ + join(t, ", "@) + "}"@ =~= seq!['{'] + k + seq!['='] + v + seq!['}']);
            }
        }
    }
}

// ── Equality ────────────────────────────────────────────────────────────────

/// Values without a wrapper are equal where they are of one kind and the same;
/// objects are equal where they are one object.
#[verifier::rlimit(60)]
pub proof fn equal_values_are_the_same(
    h: HostV,
    a: i64,
    b: i64,
    s: Seq<char>,
    t: Seq<char>,
    p: bool,
    q: bool,
)
    ensures
        equal(h, Val::Int(a), Val::Int(b)) <==> a == b,
        equal(h, Val::Str(s), Val::Str(t)) <==> s == t,
        equal(h, Val::Bool(p), Val::Bool(q)) <==> p == q,
        equal(h, Val::Undef, Val::Undef),
        !equal(h, Val::Int(a), Val::Str(s)),
        !equal(h, Val::Str(s), Val::Int(a)),
        !equal(h, Val::Undef, Val::Int(a)),
        !equal(h, Val::Str(s), Val::Undef),
        !equal(h, Val::Bool(p), Val::Int(a)),
{
}

/// A wrapper is equal to the value it wraps, and two wrappers of one class are
/// where their values are; wrappers of two classes are not.
#[verifier::rlimit(60)]
pub proof fn wrappers_are_equal_by_value(h: HostV, x: u32, y: u32, a: i64, b: i64)
    requires
        box_of(h, Val::Obj(x)) matches Some((_, v)) && v == Val::Int(a),
        box_of(h, Val::Obj(y)) matches Some((_, v)) && v == Val::Int(b),
    ensures
        equal(h, Val::Obj(x), Val::Int(b)) <==> a == b,
        equal(h, Val::Obj(x), Val::Obj(y)) <==> a == b && box_of(h, Val::Obj(x))->Some_0.0
            == box_of(h, Val::Obj(y))->Some_0.0,
{
    assert(equal(h, Val::Int(a), Val::Int(b)) == (a == b));
}

} // verus!
