//! What the statics of the class library mean, in terms of their arguments.
use vstd::prelude::*;

use vstd::arithmetic::power2::{lemma_pow2_pos, pow2};

use crate::double::{
    DoubleV, INFINITY, canonical, compare_of_nan_and_zeros, exponent, is_nan, magnitude, negative,
    rank, sign_of, significand,
};
use crate::host::{Fixity, HostV, ObjV};
use crate::host::boxes::bare;
use crate::host::characters::{
    alphabetic, alphanumeric, char_named, character_call, lowercase, upper_char, uppercase,
};
use crate::host::factories::{StaticStepV, greatest, least, static_begun};
use crate::host::lookups::{list_fixity, list_held, lists_items, only_at};
use crate::host::maths::{
    WIDTH_INT, WIDTH_LONG, floor_rest_follows_the_divisor, floored, half_rounded,
    lemma_digits_spell, parsed_int, parsing_undoes_printing, radix_string, rounding_is_nearest,
    sign_double, signed_as, wrapped,
};
use crate::host::order::{natural, picked, text_order};
use crate::host::sorting::{before, is_order, natural_in, natural_order_is_an_order, shuffles};
use crate::host::statics::{
    FloatTaskV, Said, StaticAnswerV, array_sorted, arrays_call, bits_at, boolean_call, filler,
    fitted, floating_one, floating_two, math_call, partitioned, search_finds_the_place,
    static_called, static_sorts, text_call, val_said, whole_one, whole_two,
};
use crate::host::strings::lower_char;
use crate::host::texts::breaks;
use crate::host::views::object;
use crate::text::{all_digits, dec, digit_value, is_digit_in, join, number};
use crate::value::{FaultV, Val, after_last, java_fault};

verus! {

/// The names of the classes are different words.
proof fn lemma_class_names()
    ensures
        "Arrays"@.len() == 6 && "Arrays"@[0] == 'A',
        "Boolean"@.len() == 7 && "Boolean"@[0] == 'B',
        "Character"@.len() == 9,
        "Double"@.len() == 6 && "Double"@[0] == 'D',
        "Float"@.len() == 5,
        "Integer"@.len() == 7 && "Integer"@[0] == 'I',
        "Long"@.len() == 4 && "Long"@[0] == 'L',
        "Math"@.len() == 4 && "Math"@[0] == 'M',
        "String"@.len() == 6 && "String"@[0] == 'S',
{
    reveal_strlit("Arrays");
    reveal_strlit("Boolean");
    reveal_strlit("Character");
    reveal_strlit("Double");
    reveal_strlit("Float");
    reveal_strlit("Integer");
    reveal_strlit("Long");
    reveal_strlit("Math");
    reveal_strlit("String");
}

/// The names of the methods on numbers are different words.
proof fn lemma_math_names()
    ensures
        "abs"@.len() == 3 && "abs"@[0] == 'a' && "abs"@[1] == 'b',
        "addExact"@.len() == 8 && "addExact"@[0] == 'a' && "addExact"@[5] == 'a',
        "ceil"@.len() == 4 && "ceil"@[0] == 'c',
        "clamp"@.len() == 5 && "clamp"@[0] == 'c',
        "compare"@.len() == 7 && "compare"@[0] == 'c',
        "copySign"@.len() == 8 && "copySign"@[0] == 'c' && "copySign"@[5] == 'i',
        "floor"@.len() == 5 && "floor"@[0] == 'f',
        "floorDiv"@.len() == 8 && "floorDiv"@[0] == 'f' && "floorDiv"@[5] == 'D',
        "floorMod"@.len() == 8 && "floorMod"@[0] == 'f' && "floorMod"@[5] == 'M',
        "fma"@.len() == 3 && "fma"@[0] == 'f' && "fma"@[1] == 'm',
        "hashCode"@.len() == 8 && "hashCode"@[0] == 'h' && "hashCode"@[5] == 'o',
        "isInfinite"@.len() == 10 && "isInfinite"@[0] == 'i',
        "isNaN"@.len() == 5 && "isNaN"@[0] == 'i',
        "max"@.len() == 3 && "max"@[0] == 'm' && "max"@[1] == 'a',
        "min"@.len() == 3 && "min"@[0] == 'm' && "min"@[1] == 'i',
        "multiplyExact"@.len() == 13 && "multiplyExact"@[0] == 'm',
        "nextAfter"@.len() == 9 && "nextAfter"@[0] == 'n' && "nextAfter"@[2] == 'x',
        "nextDown"@.len() == 8 && "nextDown"@[0] == 'n' && "nextDown"@[5] == 'o',
        "nextUp"@.len() == 6 && "nextUp"@[0] == 'n',
        "parseDouble"@.len() == 11 && "parseDouble"@[0] == 'p',
        "parseFloat"@.len() == 10 && "parseFloat"@[0] == 'p',
        "parseInt"@.len() == 8 && "parseInt"@[0] == 'p' && "parseInt"@[5] == 'I',
        "parseLong"@.len() == 9 && "parseLong"@[0] == 'p' && "parseLong"@[2] == 'r',
        "pow"@.len() == 3 && "pow"@[0] == 'p' && "pow"@[1] == 'o',
        "rint"@.len() == 4 && "rint"@[0] == 'r',
        "round"@.len() == 5 && "round"@[0] == 'r',
        "signum"@.len() == 6 && "signum"@[0] == 's',
        "sqrt"@.len() == 4 && "sqrt"@[0] == 's',
        "subtractExact"@.len() == 13 && "subtractExact"@[0] == 's',
        "sum"@.len() == 3 && "sum"@[0] == 's' && "sum"@[1] == 'u',
        "toBinaryString"@.len() == 14,
        "toDegrees"@.len() == 9 && "toDegrees"@[0] == 't' && "toDegrees"@[2] == 'D',
        "toHexString"@.len() == 11 && "toHexString"@[0] == 't',
        "toIntExact"@.len() == 10 && "toIntExact"@[0] == 't',
        "toOctalString"@.len() == 13 && "toOctalString"@[0] == 't',
        "toRadians"@.len() == 9 && "toRadians"@[0] == 't' && "toRadians"@[2] == 'R',
        "toString"@.len() == 8 && "toString"@[0] == 't' && "toString"@[5] == 'i',
        "ulp"@.len() == 3 && "ulp"@[0] == 'u' && "ulp"@[1] == 'l',
        "valueOf"@.len() == 7 && "valueOf"@[0] == 'v',
{
    reveal_strlit("abs");
    reveal_strlit("addExact");
    reveal_strlit("ceil");
    reveal_strlit("clamp");
    reveal_strlit("compare");
    reveal_strlit("copySign");
    reveal_strlit("floor");
    reveal_strlit("floorDiv");
    reveal_strlit("floorMod");
    reveal_strlit("fma");
    reveal_strlit("hashCode");
    reveal_strlit("isInfinite");
    reveal_strlit("isNaN");
    reveal_strlit("max");
    reveal_strlit("min");
    reveal_strlit("multiplyExact");
    reveal_strlit("nextAfter");
    reveal_strlit("nextDown");
    reveal_strlit("nextUp");
    reveal_strlit("parseDouble");
    reveal_strlit("parseFloat");
    reveal_strlit("parseInt");
    reveal_strlit("parseLong");
    reveal_strlit("pow");
    reveal_strlit("rint");
    reveal_strlit("round");
    reveal_strlit("signum");
    reveal_strlit("sqrt");
    reveal_strlit("subtractExact");
    reveal_strlit("sum");
    reveal_strlit("toBinaryString");
    reveal_strlit("toDegrees");
    reveal_strlit("toHexString");
    reveal_strlit("toIntExact");
    reveal_strlit("toOctalString");
    reveal_strlit("toRadians");
    reveal_strlit("toString");
    reveal_strlit("ulp");
    reveal_strlit("valueOf");
}

/// The names of the methods on characters and texts are different words.
proof fn lemma_character_names()
    ensures
        "compare"@.len() == 7 && "compare"@[0] == 'c',
        "copyValueOf"@.len() == 11 && "copyValueOf"@[0] == 'c' && "copyValueOf"@[2] == 'p',
        "format"@.len() == 6,
        "getNumericValue"@.len() == 15 && "getNumericValue"@[0] == 'g',
        "hashCode"@.len() == 8 && "hashCode"@[0] == 'h',
        "isDigit"@.len() == 7 && "isDigit"@[0] == 'i',
        "isLetter"@.len() == 8 && "isLetter"@[0] == 'i',
        "isLetterOrDigit"@.len() == 15 && "isLetterOrDigit"@[0] == 'i',
        "isLowerCase"@.len() == 11 && "isLowerCase"@[0] == 'i' && "isLowerCase"@[2] == 'L',
        "isUpperCase"@.len() == 11 && "isUpperCase"@[0] == 'i' && "isUpperCase"@[2] == 'U',
        "isWhitespace"@.len() == 12 && "isWhitespace"@[0] == 'i',
        "join"@.len() == 4,
        "parseBoolean"@.len() == 12 && "parseBoolean"@[0] == 'p',
        "toLowerCase"@.len() == 11 && "toLowerCase"@[0] == 't' && "toLowerCase"@[2] == 'L',
        "toString"@.len() == 8 && "toString"@[0] == 't',
        "toUpperCase"@.len() == 11 && "toUpperCase"@[0] == 't' && "toUpperCase"@[2] == 'U',
        "valueOf"@.len() == 7 && "valueOf"@[0] == 'v',
{
    reveal_strlit("compare");
    reveal_strlit("copyValueOf");
    reveal_strlit("format");
    reveal_strlit("getNumericValue");
    reveal_strlit("hashCode");
    reveal_strlit("isDigit");
    reveal_strlit("isLetter");
    reveal_strlit("isLetterOrDigit");
    reveal_strlit("isLowerCase");
    reveal_strlit("isUpperCase");
    reveal_strlit("isWhitespace");
    reveal_strlit("join");
    reveal_strlit("parseBoolean");
    reveal_strlit("toLowerCase");
    reveal_strlit("toString");
    reveal_strlit("toUpperCase");
    reveal_strlit("valueOf");
}

/// The names of the methods on arrays are different words.
proof fn lemma_array_names()
    ensures
        "binarySearch"@.len() == 12 && "binarySearch"@[0] == 'b',
        "copyOf"@.len() == 6 && "copyOf"@[0] == 'c',
        "copyOfRange"@.len() == 11,
        "deepToString"@.len() == 12 && "deepToString"@[0] == 'd',
        "equals"@.len() == 6 && "equals"@[0] == 'e',
        "fill"@.len() == 4 && "fill"@[0] == 'f',
        "hashCode"@.len() == 8 && "hashCode"@[0] == 'h',
        "sort"@.len() == 4 && "sort"@[0] == 's',
        "toString"@.len() == 8 && "toString"@[0] == 't',
{
    reveal_strlit("binarySearch");
    reveal_strlit("copyOf");
    reveal_strlit("copyOfRange");
    reveal_strlit("deepToString");
    reveal_strlit("equals");
    reveal_strlit("fill");
    reveal_strlit("hashCode");
    reveal_strlit("sort");
    reveal_strlit("toString");
}

/// The names of the statics of collections are different words.
proof fn lemma_collection_statics()
    ensures
        "Arrays"@.len() == 6 && "Arrays"@[0] == 'A',
        "Collections"@.len() == 11,
        "List"@.len() == 4 && "List"@[0] == 'L',
        "Objects"@.len() == 7 && "Objects"@[0] == 'O',
        "Set"@.len() == 3 && "Set"@[0] == 'S' && "Set"@[1] == 'e',
        "asList"@.len() == 6 && "asList"@[0] == 'a',
        "equals"@.len() == 6 && "equals"@[0] == 'e',
        "max"@.len() == 3 && "max"@[0] == 'm' && "max"@[1] == 'a',
        "min"@.len() == 3 && "min"@[0] == 'm' && "min"@[1] == 'i',
        "of"@.len() == 2,
        "reverse"@.len() == 7 && "reverse"@[0] == 'r',
        "sort"@.len() == 4 && "sort"@[0] == 's',
{
    reveal_strlit("Arrays");
    reveal_strlit("Collections");
    reveal_strlit("List");
    reveal_strlit("Objects");
    reveal_strlit("Set");
    reveal_strlit("asList");
    reveal_strlit("equals");
    reveal_strlit("max");
    reveal_strlit("min");
    reveal_strlit("of");
    reveal_strlit("reverse");
    reveal_strlit("sort");
}

/// Whether a static method answers with a value and changes nothing.
pub open spec fn answers_with(h: HostV, r: (HostV, Said), v: Val) -> bool {
    r.0 == h && r.1 == Ok::<StaticAnswerV, FaultV>(StaticAnswerV::Value(v))
}

/// Whether a static method answers with the `double` of these bits and changes
/// nothing.
pub open spec fn answers_bits(h: HostV, r: (HostV, Said), bits: u64) -> bool {
    r.0 == h && r.1 == Ok::<StaticAnswerV, FaultV>(StaticAnswerV::Bits(bits))
}

/// Whether a static method leaves the answer to an operation on floating values.
pub open spec fn leaves_to(h: HostV, r: (HostV, Said), task: FloatTaskV) -> bool {
    r.0 == h && r.1 == Ok::<StaticAnswerV, FaultV>(StaticAnswerV::Float(task))
}

/// Whether a static method makes an array of these elements and changes nothing.
pub open spec fn makes_array(h: HostV, r: (HostV, Said), items: Seq<Val>) -> bool {
    r.0 == h && r.1 == Ok::<StaticAnswerV, FaultV>(StaticAnswerV::Alloc(ObjV::Array(items)))
}

/// Whether a static method fails with a class of fault and changes nothing.
pub open spec fn throws(h: HostV, r: (HostV, Said), class: Seq<char>) -> bool {
    r.0 == h && (r.1 matches Err(f) && f.class == class)
}

/// The number a static method answers with.
pub open spec fn int_given(r: (HostV, Said)) -> int {
    r.1->Ok_0->Value_0->Int_0 as int
}

/// The bits a static method answers with.
pub open spec fn bits_given(r: (HostV, Said)) -> u64 {
    r.1->Ok_0->Bits_0
}

/// The text a static method answers with.
pub open spec fn said_text(r: (HostV, Said)) -> Seq<char> {
    r.1->Ok_0->Value_0->Str_0
}

proof fn lemma_no_package(w: Seq<char>)
    requires
        forall|i: int| 0 <= i < w.len() ==> #[trigger] w[i] != '.',
    ensures
        after_last(w, '.') == w,
    decreases w.len(),
{
    if w.len() > 0 {
        lemma_no_package(w.drop_last());
        assert(w.drop_last().push(w.last()) =~= w);
    }
}

proof fn lemma_thrown()
    ensures
        after_last("ArithmeticException"@, '.') == "ArithmeticException"@,
        after_last("IllegalArgumentException"@, '.') == "IllegalArgumentException"@,
        after_last("NumberFormatException"@, '.') == "NumberFormatException"@,
        after_last("NoSuchElementException"@, '.') == "NoSuchElementException"@,
        after_last("NegativeArraySizeException"@, '.') == "NegativeArraySizeException"@,
        after_last("ArrayIndexOutOfBoundsException"@, '.') == "ArrayIndexOutOfBoundsException"@,
{
    reveal_strlit("ArithmeticException");
    reveal_strlit("IllegalArgumentException");
    reveal_strlit("NumberFormatException");
    reveal_strlit("NoSuchElementException");
    reveal_strlit("NegativeArraySizeException");
    reveal_strlit("ArrayIndexOutOfBoundsException");
    lemma_no_package("ArithmeticException"@);
    lemma_no_package("IllegalArgumentException"@);
    lemma_no_package("NumberFormatException"@);
    lemma_no_package("NoSuchElementException"@);
    lemma_no_package("NegativeArraySizeException"@);
    lemma_no_package("ArrayIndexOutOfBoundsException"@);
}

#[verifier::rlimit(60)]
proof fn lemma_math_class(h: HostV, m: Seq<char>, args: Seq<Val>)
    ensures
        math_call(h, m, args) matches Some(s) ==> static_called(h, "Math"@, m, args) == (h, s),
{
    lemma_class_names();
}

#[verifier::rlimit(60)]
proof fn lemma_whole_class(h: HostV, m: Seq<char>, args: Seq<Val>, int_width: bool)
    ensures
        ({
            let class = if int_width {
                "Integer"@
            } else {
                "Long"@
            };
            &&& args.len() == 1 && whole_one(h, int_width, m, args[0]) is Some ==> static_called(
                h,
                class,
                m,
                args,
            ) == (h, whole_one(h, int_width, m, args[0])->0)
            &&& args.len() == 2 && whole_two(h, int_width, m, args[0], args[1]) is Some
                ==> static_called(h, class, m, args) == (
                h,
                whole_two(h, int_width, m, args[0], args[1])->0,
            )
        }),
{
    lemma_class_names();
}

#[verifier::rlimit(60)]
proof fn lemma_double_class(h: HostV, m: Seq<char>, args: Seq<Val>)
    ensures
        args.len() == 1 && floating_one(h, false, m, args[0]) is Some ==> static_called(
            h,
            "Double"@,
            m,
            args,
        ) == (h, floating_one(h, false, m, args[0])->0),
        args.len() == 2 && floating_two(h, false, m, args[0], args[1]) is Some ==> static_called(
            h,
            "Double"@,
            m,
            args,
        ) == (h, floating_two(h, false, m, args[0], args[1])->0),
{
    lemma_class_names();
}

#[verifier::rlimit(60)]
proof fn lemma_character_class(h: HostV, m: Seq<char>, args: Seq<Val>)
    ensures
        args.len() == 1 ==> (character_call(m, char_named(h, args[0])) matches Some(v)
            ==> static_called(h, "Character"@, m, args) == (
            h,
            Ok::<StaticAnswerV, FaultV>(StaticAnswerV::Value(v)),
        )),
{
    lemma_class_names();
}

#[verifier::rlimit(60)]
proof fn lemma_boolean_class(h: HostV, m: Seq<char>, args: Seq<Val>)
    ensures
        boolean_call(m, args) matches Some(s) ==> static_called(h, "Boolean"@, m, args) == (h, s),
{
    lemma_class_names();
}

#[verifier::rlimit(60)]
proof fn lemma_text_class(h: HostV, m: Seq<char>, args: Seq<Val>)
    ensures
        text_call(h, m, args) matches Some(s) ==> static_called(h, "String"@, m, args) == (h, s),
{
    lemma_class_names();
}

#[verifier::rlimit(60)]
proof fn lemma_arrays_class(h: HostV, m: Seq<char>, args: Seq<Val>)
    ensures
        arrays_call(h, m, args) matches Some(r) ==> static_called(h, "Arrays"@, m, args) == r,
{
    lemma_class_names();
}

// ── Math ────────────────────────────────────────────────────────────────────

/// `Math.abs` keeps the distance from zero and drops the sign; only the smallest
/// `long`, whose opposite there is not, stays negative.
#[verifier::rlimit(80)]
pub proof fn abs_drops_the_sign(h: HostV, n: i64, d: DoubleV)
    ensures
        ({
            let r = static_called(h, "Math"@, "abs"@, seq![Val::Int(n)]);
            &&& answers_with(h, r, Val::Int(int_given(r) as i64))
            &&& int_given(r) == n || int_given(r) == -n
            &&& n != i64::MIN ==> int_given(r) >= 0
        }),
        ({
            let r = static_called(h, "Math"@, "abs"@, seq![Val::Float(d)]);
            &&& answers_bits(h, r, bits_given(r))
            &&& bits_given(r) < 0x8000_0000_0000_0000
            &&& bits_given(r) == d.bits || bits_given(r) == d.bits - 0x8000_0000_0000_0000
        }),
{
    lemma_math_names();
    lemma_math_class(h, "abs"@, seq![Val::Int(n)]);
    lemma_math_class(h, "abs"@, seq![Val::Float(d)]);
}

/// `Math.max` answers with the one of two numbers that the other is not above,
/// and `Math.min` with the one that the other is not below; so do those of
/// `Integer` and `Long`.
#[verifier::rlimit(80)]
pub proof fn the_greater_and_the_lesser(h: HostV, a: i64, b: i64)
    ensures
        ({
            let r = static_called(h, "Math"@, "max"@, seq![Val::Int(a), Val::Int(b)]);
            &&& answers_with(h, r, Val::Int(int_given(r) as i64))
            &&& int_given(r) == a || int_given(r) == b
            &&& int_given(r) >= a && int_given(r) >= b
            &&& static_called(h, "Integer"@, "max"@, seq![Val::Int(a), Val::Int(b)]) == r
            &&& static_called(h, "Long"@, "max"@, seq![Val::Int(a), Val::Int(b)]) == r
        }),
        ({
            let r = static_called(h, "Math"@, "min"@, seq![Val::Int(a), Val::Int(b)]);
            &&& answers_with(h, r, Val::Int(int_given(r) as i64))
            &&& int_given(r) == a || int_given(r) == b
            &&& int_given(r) <= a && int_given(r) <= b
            &&& static_called(h, "Integer"@, "min"@, seq![Val::Int(a), Val::Int(b)]) == r
            &&& static_called(h, "Long"@, "min"@, seq![Val::Int(a), Val::Int(b)]) == r
        }),
{
    lemma_math_names();
    let args = seq![Val::Int(a), Val::Int(b)];
    lemma_math_class(h, "max"@, args);
    lemma_whole_class(h, "max"@, args, true);
    lemma_whole_class(h, "max"@, args, false);
    lemma_math_class(h, "min"@, args);
    lemma_whole_class(h, "min"@, args, true);
    lemma_whole_class(h, "min"@, args, false);
}

/// The greater and the lesser of two floating values, by their places in the
/// order of floating values; a value that is no number wins over any other.
#[verifier::rlimit(80)]
pub proof fn the_greater_and_the_lesser_double(h: HostV, a: DoubleV, b: DoubleV)
    ensures
        ({
            let r = static_called(h, "Math"@, "max"@, seq![Val::Float(a), Val::Float(b)]);
            &&& answers_bits(h, r, bits_given(r))
            &&& bits_given(r) == a.bits || bits_given(r) == b.bits
            &&& is_nan(bits_given(r)) <==> is_nan(a.bits) || is_nan(b.bits)
            &&& !is_nan(bits_given(r)) ==> rank(bits_given(r)) >= rank(a.bits) && rank(
                bits_given(r),
            ) >= rank(b.bits)
        }),
        ({
            let r = static_called(h, "Math"@, "min"@, seq![Val::Float(a), Val::Float(b)]);
            &&& answers_bits(h, r, bits_given(r))
            &&& bits_given(r) == a.bits || bits_given(r) == b.bits
            &&& is_nan(bits_given(r)) <==> is_nan(a.bits) || is_nan(b.bits)
            &&& !is_nan(bits_given(r)) ==> rank(bits_given(r)) <= rank(a.bits) && rank(
                bits_given(r),
            ) <= rank(b.bits)
        }),
{
    lemma_math_names();
    let args = seq![Val::Float(a), Val::Float(b)];
    lemma_math_class(h, "max"@, args);
    lemma_math_class(h, "min"@, args);
}

/// The order of floating values: a positive one is above a negative one, of two
/// positive ones that with the greater magnitude is above, and of two negative
/// ones that with the lesser.
#[verifier::rlimit(80)]
pub proof fn ranks_go_by_sign_and_magnitude(a: u64, b: u64)
    ensures
        negative(a) && !negative(b) ==> rank(a) < rank(b),
        !negative(a) && !negative(b) ==> (rank(a) < rank(b) <==> magnitude(a) < magnitude(b)),
        negative(a) && negative(b) ==> (rank(a) < rank(b) <==> magnitude(a) > magnitude(b)),
        negative(a) <==> a >= 0x8000_0000_0000_0000,
        magnitude(a) == if a >= 0x8000_0000_0000_0000 {
            a - 0x8000_0000_0000_0000
        } else {
            a as int
        },
{
}

/// `Math.floorDiv` and `Math.floorMod` divide with a rest that has the sign of the
/// divisor and is closer to zero than it; a divisor of zero is refused.
#[verifier::rlimit(80)]
pub proof fn floor_division_leaves_a_rest(h: HostV, a: i64, b: i64)
    ensures
        b != 0 && !(a == i64::MIN && b == -1) ==> {
            let q = static_called(h, "Math"@, "floorDiv"@, seq![Val::Int(a), Val::Int(b)]);
            let m = static_called(h, "Math"@, "floorMod"@, seq![Val::Int(a), Val::Int(b)]);
            &&& answers_with(h, q, Val::Int(int_given(q) as i64))
            &&& answers_with(h, m, Val::Int(int_given(m) as i64))
            &&& b * int_given(q) + int_given(m) == a
            &&& b > 0 ==> 0 <= int_given(m) < b
            &&& b < 0 ==> b < int_given(m) <= 0
        },
        b == 0 ==> throws(
            h,
            static_called(h, "Math"@, "floorDiv"@, seq![Val::Int(a), Val::Int(b)]),
            "ArithmeticException"@,
        ) && throws(
            h,
            static_called(h, "Math"@, "floorMod"@, seq![Val::Int(a), Val::Int(b)]),
            "ArithmeticException"@,
        ),
{
    lemma_math_names();
    lemma_thrown();
    let args = seq![Val::Int(a), Val::Int(b)];
    lemma_math_class(h, "floorDiv"@, args);
    lemma_math_class(h, "floorMod"@, args);
    if b != 0 {
        let (x, y) = (a as int, b as int);
        floor_rest_follows_the_divisor(x, y);
        let q = floored(x, y);
        let m = x - y * q;
        assert(i64::MIN <= q <= i64::MAX || a == i64::MIN && b == -1) by (nonlinear_arith)
            requires
                x == y * q + m,
                y > 0 ==> 0 <= m < y,
                y < 0 ==> y < m <= 0,
                y != 0,
                x == a,
                y == b,
                i64::MIN <= x <= i64::MAX,
                i64::MIN <= y <= i64::MAX,
        ;
        if !(a == i64::MIN && b == -1) {
            assert(wrapped(q) == q);
            let r = static_called(h, "Math"@, "floorDiv"@, args);
            assert(int_given(r) == q);
            assert(y * q + m == x);
        }
    }
}

/// `addExact`, `subtractExact` and `multiplyExact` give the sum, the difference
/// and the product where these fit the width, and refuse where they do not.
#[verifier::rlimit(80)]
pub proof fn exact_results_are_exact(h: HostV, a: i64, b: i64, long: bool)
    ensures
        ({
            let width = if long {
                WIDTH_LONG
            } else {
                WIDTH_INT
            };
            let args = seq![Val::Int(a), Val::Int(b), Val::Int(width as i64)];
            let fits = |n: int|
                if long {
                    i64::MIN <= n <= i64::MAX
                } else {
                    i32::MIN <= n <= i32::MAX
                };
            let sum = static_called(h, "Math"@, "addExact"@, args);
            let difference = static_called(h, "Math"@, "subtractExact"@, args);
            let product = static_called(h, "Math"@, "multiplyExact"@, args);
            &&& if fits(a + b) {
                answers_with(h, sum, Val::Int((a + b) as i64))
            } else {
                throws(h, sum, "ArithmeticException"@)
            }
            &&& if fits(a - b) {
                answers_with(h, difference, Val::Int((a - b) as i64))
            } else {
                throws(h, difference, "ArithmeticException"@)
            }
            &&& if fits(a * b) {
                answers_with(h, product, Val::Int((a * b) as i64))
            } else {
                throws(h, product, "ArithmeticException"@)
            }
        }),
{
    lemma_math_names();
    lemma_thrown();
    let width = if long {
        WIDTH_LONG
    } else {
        WIDTH_INT
    };
    let args = seq![Val::Int(a), Val::Int(b), Val::Int(width as i64)];
    lemma_math_class(h, "addExact"@, args);
    lemma_math_class(h, "subtractExact"@, args);
    lemma_math_class(h, "multiplyExact"@, args);
}

/// `Math.clamp` keeps a number that lies between the bounds, and otherwise answers
/// with the bound that it lies beyond; crossed bounds are refused.
#[verifier::rlimit(80)]
pub proof fn clamp_keeps_between_the_bounds(h: HostV, v: i64, lo: i64, hi: i64, long: bool)
    ensures
        ({
            let width = if long {
                WIDTH_LONG
            } else {
                WIDTH_INT
            };
            let r = static_called(
                h,
                "Math"@,
                "clamp"@,
                seq![Val::Int(v), Val::Int(lo), Val::Int(hi), Val::Int(width as i64)],
            );
            &&& lo <= hi ==> answers_with(h, r, Val::Int(int_given(r) as i64)) && lo <= int_given(r)
                <= hi
            &&& lo <= v <= hi ==> int_given(r) == v
            &&& lo <= hi && v < lo ==> int_given(r) == lo
            &&& lo <= hi < v ==> int_given(r) == hi
            &&& lo > hi ==> throws(h, r, "IllegalArgumentException"@)
        }),
{
    lemma_math_names();
    lemma_thrown();
    let width = if long {
        WIDTH_LONG
    } else {
        WIDTH_INT
    };
    let args = seq![Val::Int(v), Val::Int(lo), Val::Int(hi), Val::Int(width as i64)];
    lemma_math_class(h, "clamp"@, args);
}

/// `Math.round` answers with the whole number within one half of the value; of two
/// that are as near it takes the greater.
#[verifier::rlimit(80)]
pub proof fn round_is_within_a_half(h: HostV, d: DoubleV)
    requires
        1011 <= exponent(d.bits) < 1075,
    ensures
        ({
            let r = static_called(h, "Math"@, "round"@, seq![Val::Float(d)]);
            let unit = pow2((1075 - exponent(d.bits)) as nat) as int;
            let s = if d.bits >= 0x8000_0000_0000_0000 {
                -significand(d.bits)
            } else {
                significand(d.bits)
            };
            &&& answers_with(h, r, Val::Int(int_given(r) as i64))
            &&& 2 * unit * int_given(r) - unit <= 2 * s < 2 * unit * int_given(r) + unit
        }),
{
    lemma_math_names();
    lemma_math_class(h, "round"@, seq![Val::Float(d)]);
    rounding_is_nearest(d.bits);
    let unit = pow2((1075 - exponent(d.bits)) as nat) as int;
    lemma_pow2_pos((1075 - exponent(d.bits)) as nat);
    let n = half_rounded(d.bits);
    let s = if negative(d.bits) {
        -significand(d.bits)
    } else {
        significand(d.bits)
    };
    assert(-0x20_0000_0000_0000 <= s <= 0x20_0000_0000_0000);
    assert(-0x20_0000_0000_0001 <= n <= 0x20_0000_0000_0001) by (nonlinear_arith)
        requires
            2 * unit * n - unit <= 2 * s,
            2 * s < 2 * unit * n + unit,
            unit >= 1,
            -0x20_0000_0000_0000 <= s <= 0x20_0000_0000_0000,
    ;
}

/// The operations on floating values that need their arithmetic are each left to
/// the one of that name.
#[verifier::rlimit(80)]
pub proof fn floating_methods_are_handed_on(h: HostV, a: DoubleV)
    ensures
        leaves_to(
            h,
            static_called(h, "Math"@, "sqrt"@, seq![Val::Float(a)]),
            FloatTaskV::Root(a.bits),
        ),
        leaves_to(
            h,
            static_called(h, "Math"@, "floor"@, seq![Val::Float(a)]),
            FloatTaskV::Floor(a.bits),
        ),
        leaves_to(
            h,
            static_called(h, "Math"@, "ceil"@, seq![Val::Float(a)]),
            FloatTaskV::Ceil(a.bits),
        ),
        leaves_to(
            h,
            static_called(h, "Math"@, "rint"@, seq![Val::Float(a)]),
            FloatTaskV::Rint(a.bits),
        ),
        leaves_to(
            h,
            static_called(h, "Math"@, "toRadians"@, seq![Val::Float(a)]),
            FloatTaskV::Radians(a.bits),
        ),
        leaves_to(
            h,
            static_called(h, "Math"@, "toDegrees"@, seq![Val::Float(a)]),
            FloatTaskV::Degrees(a.bits),
        ),
{
    lemma_math_names();
    let one = seq![Val::Float(a)];
    lemma_math_class(h, "sqrt"@, one);
    lemma_math_class(h, "floor"@, one);
    lemma_math_class(h, "ceil"@, one);
    lemma_math_class(h, "rint"@, one);
    lemma_math_class(h, "toRadians"@, one);
    lemma_math_class(h, "toDegrees"@, one);
}

/// A fused sum is left to the operation of that name, and so is a power whose
/// exponent is a number other than zero: anything to the power of zero is one, and
/// nothing that is no number makes a power.
#[verifier::rlimit(80)]
pub proof fn powers_are_handed_on(h: HostV, a: DoubleV, b: DoubleV, c: DoubleV)
    ensures
        leaves_to(
            h,
            static_called(
                h,
                "Math"@,
                "fma"@,
                seq![Val::Float(a), Val::Float(b), Val::Float(c)],
            ),
            FloatTaskV::Fused(a.bits, b.bits, c.bits),
        ),
        ({
            let r = static_called(h, "Math"@, "pow"@, seq![Val::Float(a), Val::Float(b)]);
            let one = 0x3ff0_0000_0000_0000u64;
            &&& b.bits == 0 || b.bits == 0x8000_0000_0000_0000 ==> answers_bits(h, r, one)
            &&& is_nan(b.bits) ==> is_nan(bits_given(r)) && answers_bits(h, r, bits_given(r))
            &&& !is_nan(b.bits) && 0 < magnitude(b.bits) < INFINITY ==> leaves_to(
                h,
                r,
                FloatTaskV::Power(a.bits, b.bits),
            )
        }),
{
    lemma_math_names();
    lemma_math_class(h, "fma"@, seq![Val::Float(a), Val::Float(b), Val::Float(c)]);
    lemma_math_class(h, "pow"@, seq![Val::Float(a), Val::Float(b)]);
}

#[verifier::rlimit(60)]
proof fn lemma_signs(h: HostV, a: DoubleV, b: DoubleV)
    ensures
        static_called(h, "Math"@, "copySign"@, seq![Val::Float(a), Val::Float(b)]) == (
            h,
            Ok::<StaticAnswerV, FaultV>(StaticAnswerV::Bits(signed_as(a.bits, b.bits))),
        ),
        static_called(h, "Math"@, "signum"@, seq![Val::Float(a)]) == (
            h,
            Ok::<StaticAnswerV, FaultV>(StaticAnswerV::Bits(sign_double(a.bits))),
        ),
{
    lemma_math_names();
    lemma_math_class(h, "copySign"@, seq![Val::Float(a), Val::Float(b)]);
    lemma_math_class(h, "signum"@, seq![Val::Float(a)]);
}

/// `Math.signum` is one with the sign of the value; zero and what is no number
/// stay.
#[verifier::rlimit(80)]
pub proof fn signum_keeps_the_sign(h: HostV, a: DoubleV)
    ensures
        ({
            let r = static_called(h, "Math"@, "signum"@, seq![Val::Float(a)]);
            &&& answers_bits(h, r, bits_given(r))
            &&& negative(bits_given(r)) == negative(a.bits)
            &&& !is_nan(a.bits) && magnitude(a.bits) > 0 ==> magnitude(bits_given(r))
                == 0x3ff0_0000_0000_0000
            &&& is_nan(a.bits) || magnitude(a.bits) == 0 ==> bits_given(r) == a.bits
        }),
{
    lemma_signs(h, a, a);
}

/// `Math.copySign` is the magnitude of the one value with the sign of the other.
#[verifier::rlimit(80)]
pub proof fn copy_sign_takes_the_sign_over(h: HostV, a: DoubleV, b: DoubleV)
    ensures
        ({
            let r = static_called(h, "Math"@, "copySign"@, seq![Val::Float(a), Val::Float(b)]);
            &&& answers_bits(h, r, bits_given(r))
            &&& magnitude(bits_given(r)) == magnitude(a.bits)
            &&& negative(bits_given(r)) == negative(b.bits)
        }),
{
    lemma_signs(h, a, b);
}

// ── Integer, Long, Double ───────────────────────────────────────────────────

/// `compare` tells which of two numbers is the greater, `signum` on which side of
/// zero one lies, and `sum` adds in sixty-four bits.
#[verifier::rlimit(80)]
pub proof fn whole_numbers_are_compared(h: HostV, a: i64, b: i64, long: bool)
    ensures
        ({
            let class = if long {
                "Long"@
            } else {
                "Integer"@
            };
            let two = seq![Val::Int(a), Val::Int(b)];
            let c = static_called(h, class, "compare"@, two);
            let s = static_called(h, class, "signum"@, seq![Val::Int(a)]);
            let t = static_called(h, class, "sum"@, two);
            &&& answers_with(h, c, Val::Int(int_given(c) as i64))
            &&& int_given(c) < 0 <==> a < b
            &&& int_given(c) == 0 <==> a == b
            &&& answers_with(h, s, Val::Int(int_given(s) as i64))
            &&& int_given(s) == if a < 0 {
                -1int
            } else if a == 0 {
                0
            } else {
                1
            }
            &&& answers_with(h, t, Val::Int(int_given(t) as i64))
            &&& (int_given(t) - (a + b)) % 0x1_0000_0000_0000_0000 == 0
        }),
{
    lemma_math_names();
    let two = seq![Val::Int(a), Val::Int(b)];
    lemma_whole_class(h, "compare"@, two, true);
    lemma_whole_class(h, "compare"@, two, false);
    lemma_whole_class(h, "sum"@, two, true);
    lemma_whole_class(h, "sum"@, two, false);
    lemma_whole_class(h, "signum"@, seq![Val::Int(a)], true);
    lemma_whole_class(h, "signum"@, seq![Val::Int(a)], false);
}

#[verifier::rlimit(60)]
proof fn lemma_double_methods(h: HostV, a: DoubleV, b: DoubleV)
    ensures
        answers_with(
            h,
            static_called(h, "Double"@, "compare"@, seq![Val::Float(a), Val::Float(b)]),
            Val::Int(sign_of(rank(canonical(a.bits)) - rank(canonical(b.bits))) as i64),
        ),
        answers_with(
            h,
            static_called(h, "Double"@, "isNaN"@, seq![Val::Float(a)]),
            Val::Bool(is_nan(a.bits)),
        ),
        answers_with(
            h,
            static_called(h, "Double"@, "isInfinite"@, seq![Val::Float(a)]),
            Val::Bool(magnitude(a.bits) == INFINITY),
        ),
{
    lemma_math_names();
    lemma_double_class(h, "compare"@, seq![Val::Float(a), Val::Float(b)]);
    lemma_double_class(h, "isNaN"@, seq![Val::Float(a)]);
    lemma_double_class(h, "isInfinite"@, seq![Val::Float(a)]);
}

/// `Double.compare` tells which of two floating values stands higher in their
/// order, `isNaN` whether one is no number, and `isInfinite` whether it is
/// infinite.
#[verifier::rlimit(80)]
pub proof fn doubles_are_compared(h: HostV, a: DoubleV, b: DoubleV)
    ensures
        ({
            let c = static_called(h, "Double"@, "compare"@, seq![Val::Float(a), Val::Float(b)]);
            &&& answers_with(h, c, Val::Int(int_given(c) as i64))
            &&& !is_nan(a.bits) && !is_nan(b.bits) ==> (int_given(c) < 0 <==> rank(a.bits) < rank(
                b.bits,
            )) && (int_given(c) == 0 <==> a.bits == b.bits)
            &&& is_nan(a.bits) && !is_nan(b.bits) ==> int_given(c) > 0
            &&& is_nan(a.bits) && is_nan(b.bits) ==> int_given(c) == 0
        }),
        answers_with(
            h,
            static_called(h, "Double"@, "isNaN"@, seq![Val::Float(a)]),
            Val::Bool(magnitude(a.bits) > 0x7ff0_0000_0000_0000),
        ),
        answers_with(
            h,
            static_called(h, "Double"@, "isInfinite"@, seq![Val::Float(a)]),
            Val::Bool(magnitude(a.bits) == 0x7ff0_0000_0000_0000),
        ),
{
    lemma_double_methods(h, a, b);
    compare_of_nan_and_zeros(a.bits);
    compare_of_nan_and_zeros(b.bits);
}

/// A numeral is read from the left: what was read so far counts as often as the
/// radix says, and the next digit is added. The digits are those from zero to
/// nine, and behind them the letters.
#[verifier::rlimit(80)]
pub proof fn numerals_are_read_from_the_left(s: Seq<char>, c: char, radix: int)
    ensures
        number(seq![], radix) == 0,
        number(s.push(c), radix) == number(s, radix) * radix + digit_value(c),
        '0' <= c <= '9' ==> digit_value(c) == c as int - '0' as int,
        'a' <= c <= 'z' ==> digit_value(c) == c as int - 'a' as int + 10,
        'A' <= c <= 'Z' ==> digit_value(c) == c as int - 'A' as int + 10,
{
    assert(s.push(c).drop_last() =~= s);
}

#[verifier::rlimit(60)]
proof fn lemma_written(h: HostV, n: i64, radix: i64)
    ensures
        answers_with(
            h,
            static_called(h, "Integer"@, "toString"@, seq![Val::Int(n)]),
            Val::Str(dec(n as int)),
        ),
        answers_with(
            h,
            static_called(h, "Integer"@, "toString"@, seq![Val::Int(n), Val::Int(radix)]),
            Val::Str(radix_string(n as int, radix as int)),
        ),
{
    lemma_math_names();
    lemma_whole_class(h, "toString"@, seq![Val::Int(n)], true);
    lemma_whole_class(h, "toString"@, seq![Val::Int(n), Val::Int(radix)], true);
}

#[verifier::rlimit(60)]
proof fn lemma_read(h: HostV, t: Seq<char>)
    ensures
        Some(static_called(h, "Integer"@, "parseInt"@, seq![Val::Str(t)]).1) == val_said(
            parsed_int(t, 10, true),
        ),
        static_called(h, "Integer"@, "parseInt"@, seq![Val::Str(t)]).0 == h,
        static_called(h, "Integer"@, "valueOf"@, seq![Val::Str(t)]) == static_called(
            h,
            "Integer"@,
            "parseInt"@,
            seq![Val::Str(t)],
        ),
        Some(static_called(h, "Long"@, "parseLong"@, seq![Val::Str(t)]).1) == val_said(
            parsed_int(t, 10, false),
        ),
        static_called(h, "Long"@, "parseLong"@, seq![Val::Str(t)]).0 == h,
{
    lemma_math_names();
    lemma_whole_class(h, "parseInt"@, seq![Val::Str(t)], true);
    lemma_whole_class(h, "parseInt"@, seq![Val::Str(t)], false);
    lemma_whole_class(h, "valueOf"@, seq![Val::Str(t)], true);
    lemma_whole_class(h, "valueOf"@, seq![Val::Str(t)], false);
    lemma_whole_class(h, "parseLong"@, seq![Val::Str(t)], true);
    lemma_whole_class(h, "parseLong"@, seq![Val::Str(t)], false);
}

#[verifier::rlimit(60)]
proof fn lemma_read_in(h: HostV, t: Seq<char>, radix: i64)
    ensures
        Some(
            static_called(h, "Integer"@, "parseInt"@, seq![Val::Str(t), Val::Int(radix)]).1,
        ) == val_said(parsed_int(t, radix as int, true)),
        static_called(h, "Integer"@, "parseInt"@, seq![Val::Str(t), Val::Int(radix)]).0 == h,
{
    lemma_math_names();
    lemma_whole_class(h, "parseInt"@, seq![Val::Str(t), Val::Int(radix)], true);
}

/// `toString` writes a number, and `parseInt` or `parseLong` reads it back; so it
/// is in any radix. `valueOf` reads as the parser does.
#[verifier::rlimit(80)]
pub proof fn what_was_written_is_read_back(h: HostV, n: i64, radix: i64)
    requires
        i32::MIN <= n <= i32::MAX,
        2 <= radix <= 36,
    ensures
        ({
            let w = static_called(h, "Integer"@, "toString"@, seq![Val::Int(n)]);
            let t = said_text(w);
            &&& answers_with(h, w, Val::Str(t))
            &&& answers_with(
                h,
                static_called(h, "Integer"@, "parseInt"@, seq![Val::Str(t)]),
                Val::Int(n),
            )
            &&& answers_with(
                h,
                static_called(h, "Integer"@, "valueOf"@, seq![Val::Str(t)]),
                Val::Int(n),
            )
            &&& answers_with(
                h,
                static_called(h, "Long"@, "parseLong"@, seq![Val::Str(t)]),
                Val::Int(n),
            )
        }),
        ({
            let w = static_called(
                h,
                "Integer"@,
                "toString"@,
                seq![Val::Int(n), Val::Int(radix)],
            );
            let t = said_text(w);
            &&& answers_with(h, w, Val::Str(t))
            &&& answers_with(
                h,
                static_called(h, "Integer"@, "parseInt"@, seq![Val::Str(t), Val::Int(radix)]),
                Val::Int(n),
            )
        }),
{
    let t = dec(n as int);
    let u = radix_string(n as int, radix as int);
    lemma_written(h, n, radix);
    lemma_read(h, t);
    lemma_read_in(h, u, radix);
    parsing_undoes_printing(n as int, 10);
    parsing_undoes_printing(n as int, radix as int);
    assert(radix_string(n as int, 10) == t);
}

/// What follows the sign of a numeral.
pub open spec fn behind_sign(s: Seq<char>) -> Seq<char> {
    if s.len() > 0 && (s[0] == '-' || s[0] == '+') {
        s.skip(1)
    } else {
        s
    }
}

/// Whether a text is made of decimal digits.
pub open spec fn is_decimal(s: Seq<char>) -> bool {
    s.len() > 0 && forall|i: int| 0 <= i < s.len() ==> '0' <= #[trigger] s[i] <= '9'
}

/// `parseInt` reads digits with an optional sign where the number fits an `int`,
/// and refuses every other text.
#[verifier::rlimit(80)]
pub proof fn only_numerals_are_read(h: HostV, s: Seq<char>)
    ensures
        ({
            let r = static_called(h, "Integer"@, "parseInt"@, seq![Val::Str(s)]);
            let n = if s.len() > 0 && s[0] == '-' {
                -number(behind_sign(s), 10)
            } else {
                number(behind_sign(s), 10)
            };
            let good = is_decimal(behind_sign(s)) && i32::MIN <= n <= i32::MAX;
            &&& good ==> answers_with(h, r, Val::Int(n as i64))
            &&& !good ==> throws(h, r, "NumberFormatException"@)
        }),
{
    lemma_thrown();
    lemma_read(h, s);
    let body = behind_sign(s);
    if all_digits(body, 10) {
        assert forall|i: int| 0 <= i < body.len() implies '0' <= #[trigger] body[i] <= '9' by {
            assert(is_digit_in(body[i], 10));
        }
    }
}

/// `toBinaryString`, `toOctalString` and `toHexString` write the bits of a number:
/// those of an `int` or of a `long`, without a sign.
#[verifier::rlimit(80)]
pub proof fn bits_are_written_without_a_sign(h: HostV, n: i64, long: bool)
    requires
        long || i32::MIN <= n <= i32::MAX,
    ensures
        ({
            let class = if long {
                "Long"@
            } else {
                "Integer"@
            };
            let bits = if n >= 0 {
                n as int
            } else if long {
                n + 0x1_0000_0000_0000_0000
            } else {
                n + 0x1_0000_0000
            };
            let two = static_called(h, class, "toBinaryString"@, seq![Val::Int(n)]);
            let eight = static_called(h, class, "toOctalString"@, seq![Val::Int(n)]);
            let sixteen = static_called(h, class, "toHexString"@, seq![Val::Int(n)]);
            &&& answers_with(h, two, Val::Str(said_text(two)))
            &&& answers_with(h, eight, Val::Str(said_text(eight)))
            &&& answers_with(h, sixteen, Val::Str(said_text(sixteen)))
            &&& all_digits(said_text(two), 2) && number(said_text(two), 2) == bits
            &&& all_digits(said_text(eight), 8) && number(said_text(eight), 8) == bits
            &&& all_digits(said_text(sixteen), 16) && number(said_text(sixteen), 16) == bits
        }),
{
    lemma_math_names();
    let args = seq![Val::Int(n)];
    lemma_whole_class(h, "toBinaryString"@, args, true);
    lemma_whole_class(h, "toBinaryString"@, args, false);
    lemma_whole_class(h, "toOctalString"@, args, true);
    lemma_whole_class(h, "toOctalString"@, args, false);
    lemma_whole_class(h, "toHexString"@, args, true);
    lemma_whole_class(h, "toHexString"@, args, false);
    let bits = bits_at(n as int, !long);
    lemma_digits_spell(bits, 2);
    lemma_digits_spell(bits, 8);
    lemma_digits_spell(bits, 16);
}

// ── Character, Boolean, String ──────────────────────────────────────────────

/// What `Character` says of a character.
#[verifier::rlimit(80)]
pub proof fn characters_are_told_apart(h: HostV, c: char)
    ensures
        ({
            let args = seq![Val::Int((c as int) as i64)];
            let v = static_called(h, "Character"@, "getNumericValue"@, args);
            &&& answers_with(
                h,
                static_called(h, "Character"@, "isDigit"@, args),
                Val::Bool('0' <= c <= '9'),
            )
            &&& answers_with(
                h,
                static_called(h, "Character"@, "isLetter"@, args),
                Val::Bool(alphabetic(c)),
            )
            &&& answers_with(
                h,
                static_called(h, "Character"@, "isLetterOrDigit"@, args),
                Val::Bool(alphanumeric(c)),
            )
            &&& answers_with(
                h,
                static_called(h, "Character"@, "isUpperCase"@, args),
                Val::Bool(uppercase(c)),
            )
            &&& answers_with(
                h,
                static_called(h, "Character"@, "isLowerCase"@, args),
                Val::Bool(lowercase(c)),
            )
            &&& answers_with(
                h,
                static_called(h, "Character"@, "isWhitespace"@, args),
                Val::Bool(breaks(c)),
            )
            &&& answers_with(
                h,
                static_called(h, "Character"@, "toString"@, args),
                Val::Str(seq![c]),
            )
            &&& answers_with(h, v, Val::Int(int_given(v) as i64))
            &&& '0' <= c <= '9' ==> int_given(v) == c as int - '0' as int
            &&& 'a' <= c <= 'z' ==> int_given(v) == c as int - 'a' as int + 10
            &&& 'A' <= c <= 'Z' ==> int_given(v) == c as int - 'A' as int + 10
            &&& upper_char(c).len() == 1 ==> answers_with(
                h,
                static_called(h, "Character"@, "toUpperCase"@, args),
                Val::Int((upper_char(c)[0] as int) as i64),
            )
            &&& lower_char(c).len() == 1 ==> answers_with(
                h,
                static_called(h, "Character"@, "toLowerCase"@, args),
                Val::Int((lower_char(c)[0] as int) as i64),
            )
        }),
{
    lemma_character_names();
    let args = seq![Val::Int((c as int) as i64)];
    assert(char_named(h, args[0]) == c);
    lemma_character_class(h, "isDigit"@, args);
    lemma_character_class(h, "isLetter"@, args);
    lemma_character_class(h, "isLetterOrDigit"@, args);
    lemma_character_class(h, "isUpperCase"@, args);
    lemma_character_class(h, "isLowerCase"@, args);
    lemma_character_class(h, "isWhitespace"@, args);
    lemma_character_class(h, "toString"@, args);
    lemma_character_class(h, "getNumericValue"@, args);
    lemma_character_class(h, "toUpperCase"@, args);
    lemma_character_class(h, "toLowerCase"@, args);
}

/// `parseBoolean` is true of `true` alone, in whatever case its letters are, and
/// `compare` puts `false` first.
#[verifier::rlimit(80)]
pub proof fn booleans_are_read(h: HostV, s: Seq<char>, a: bool, b: bool)
    ensures
        answers_with(
            h,
            static_called(h, "Boolean"@, "parseBoolean"@, seq![Val::Str(s)]),
            Val::Bool(
                s.len() == 4 && (s[0] == 't' || s[0] == 'T') && (s[1] == 'r' || s[1] == 'R') && (
                s[2] == 'u' || s[2] == 'U') && (s[3] == 'e' || s[3] == 'E'),
            ),
        ),
        ({
            let r = static_called(h, "Boolean"@, "compare"@, seq![Val::Bool(a), Val::Bool(b)]);
            &&& answers_with(h, r, Val::Int(int_given(r) as i64))
            &&& int_given(r) < 0 <==> !a && b
            &&& int_given(r) == 0 <==> a == b
        }),
{
    lemma_character_names();
    lemma_boolean_class(h, "parseBoolean"@, seq![Val::Str(s)]);
    lemma_boolean_class(h, "compare"@, seq![Val::Bool(a), Val::Bool(b)]);
}

/// `String.join` shows the elements of a sequence, or the arguments themselves,
/// one behind another with the delimiter between each two and nothing around
/// them.
#[verifier::rlimit(80)]
pub proof fn join_puts_the_delimiter_between(
    h: HostV,
    sep: Seq<char>,
    id: u32,
    items: Seq<Val>,
    x: Val,
    y: Val,
    front: Seq<Seq<char>>,
    last: Seq<char>,
)
    requires
        lists_items(h, id as int, items),
    ensures
        ({
            let r = static_called(h, "String"@, "join"@, seq![Val::Str(sep), Val::Obj(id)]);
            &&& r.0 == h
            &&& r.1 matches Ok(StaticAnswerV::Render(t)) && t.parts == items && t.sep == sep
                && t.open.len() == 0 && t.close.len() == 0 && !t.deep
        }),
        ({
            let r = static_called(h, "String"@, "join"@, seq![Val::Str(sep), x, y]);
            &&& r.0 == h
            &&& r.1 matches Ok(StaticAnswerV::Render(t)) && t.parts == seq![x, y] && t.sep == sep
                && t.open.len() == 0 && t.close.len() == 0 && !t.deep
        }),
        join(seq![], sep) == Seq::<char>::empty(),
        join(seq![last], sep) == last,
        front.len() > 0 ==> join(front.push(last), sep) == join(front, sep) + sep + last,
{
    lemma_character_names();
    lemma_text_class(h, "join"@, seq![Val::Str(sep), Val::Obj(id)]);
    lemma_text_class(h, "join"@, seq![Val::Str(sep), x, y]);
    assert(seq![Val::Str(sep), x, y].skip(1) =~= seq![x, y]);
    assert(front.push(last).drop_last() =~= front);
}

// ── Arrays ──────────────────────────────────────────────────────────────────

/// Whether an array holds these elements.
pub open spec fn arrays_items(h: HostV, id: int, items: Seq<Val>) -> bool {
    object(h, id) == Some(ObjV::Array(items))
}

/// `Arrays.fill` puts one value in every place of an array, and changes nothing
/// else.
#[verifier::rlimit(80)]
pub proof fn fill_fills_every_place(h: HostV, id: u32, items: Seq<Val>, v: Val)
    requires
        arrays_items(h, id as int, items),
    ensures
        ({
            let r = static_called(h, "Arrays"@, "fill"@, seq![Val::Obj(id), v]);
            let left = r.0.heap[id as int]->Array_0;
            &&& r.1 == Ok::<StaticAnswerV, FaultV>(StaticAnswerV::Value(Val::Undef))
            &&& only_at(h, r.0, id as int)
            &&& arrays_items(r.0, id as int, left)
            &&& left.len() == items.len()
            &&& forall|i: int| 0 <= i < items.len() ==> #[trigger] left[i] == v
        }),
{
    lemma_array_names();
    lemma_arrays_class(h, "fill"@, seq![Val::Obj(id), v]);
}

#[verifier::rlimit(60)]
proof fn lemma_copy_made(h: HostV, id: u32, items: Seq<Val>, b: i64)
    requires
        arrays_items(h, id as int, items),
    ensures
        arrays_call(h, "copyOf"@, seq![Val::Obj(id), Val::Int(b)]) == Some(
            (
                h,
                if b < 0 {
                    Err(java_fault("NegativeArraySizeException"@, dec(b as int)))
                } else {
                    Ok(StaticAnswerV::Alloc(ObjV::Array(fitted(items, b as int, filler(items)))))
                },
            ),
        ),
{
    lemma_array_names();
}

#[verifier::rlimit(60)]
proof fn lemma_range_made(h: HostV, id: u32, items: Seq<Val>, a: i64, b: i64)
    requires
        arrays_items(h, id as int, items),
    ensures
        arrays_call(h, "copyOfRange"@, seq![Val::Obj(id), Val::Int(a), Val::Int(b)]) == Some(
            (
                h,
                if a > b {
                    Err(
                        java_fault(
                            "IllegalArgumentException"@,
                            dec(a as int) + " > "@ + dec(b as int),
                        ),
                    )
                } else if a < 0 || a > items.len() {
                    Err(java_fault("ArrayIndexOutOfBoundsException"@, seq![]))
                } else {
                    Ok(
                        StaticAnswerV::Alloc(
                            ObjV::Array(fitted(items.skip(a as int), b - a, filler(items))),
                        ),
                    )
                },
            ),
        ),
{
    lemma_array_names();
}

/// `Arrays.copyOf` makes an array of a length: the elements as far as there are
/// any, and the zero of their kind behind them.
#[verifier::rlimit(80)]
pub proof fn copies_are_cut_or_filled(h: HostV, id: u32, items: Seq<Val>, b: i64)
    requires
        arrays_items(h, id as int, items),
    ensures
        ({
            let r = static_called(h, "Arrays"@, "copyOf"@, seq![Val::Obj(id), Val::Int(b)]);
            let made = r.1->Ok_0->Alloc_0->Array_0;
            &&& b >= 0 ==> makes_array(h, r, made) && made.len() == b && (forall|i: int|
                0 <= i < b && i < items.len() ==> #[trigger] made[i] == items[i]) && forall|i: int|
                items.len() <= i < b ==> is_filler(items, #[trigger] made[i])
            &&& b < 0 ==> throws(h, r, "NegativeArraySizeException"@)
        }),
{
    lemma_thrown();
    lemma_copy_made(h, id, items, b);
    lemma_arrays_class(h, "copyOf"@, seq![Val::Obj(id), Val::Int(b)]);
}

/// `Arrays.copyOfRange` makes an array of what stands from one index up to another,
/// which may lie behind the end: then it is filled up.
#[verifier::rlimit(80)]
pub proof fn ranges_are_cut_or_filled(h: HostV, id: u32, items: Seq<Val>, a: i64, b: i64)
    requires
        arrays_items(h, id as int, items),
    ensures
        ({
            let r = static_called(
                h,
                "Arrays"@,
                "copyOfRange"@,
                seq![Val::Obj(id), Val::Int(a), Val::Int(b)],
            );
            let made = r.1->Ok_0->Alloc_0->Array_0;
            &&& 0 <= a <= b && a <= items.len() ==> makes_array(h, r, made) && made.len() == b - a
                && (forall|i: int|
                0 <= i < b - a && a + i < items.len() ==> #[trigger] made[i] == items[a + i])
                && forall|i: int|
                items.len() <= a + i < b ==> is_filler(items, #[trigger] made[i])
            &&& a > b ==> throws(h, r, "IllegalArgumentException"@)
            &&& a <= b && (a < 0 || a > items.len()) ==> throws(
                h,
                r,
                "ArrayIndexOutOfBoundsException"@,
            )
        }),
{
    lemma_thrown();
    lemma_range_made(h, id, items, a, b);
    lemma_arrays_class(h, "copyOfRange"@, seq![Val::Obj(id), Val::Int(a), Val::Int(b)]);
}

/// Whether a value is what fills an array up: a zero, `false`, or `null` for
/// objects.
pub open spec fn is_filler(items: Seq<Val>, v: Val) -> bool {
    match if items.len() > 0 {
        items[0]
    } else {
        Val::Undef
    } {
        Val::Int(_) => v == Val::Int(0),
        Val::Float(_) => v matches Val::Float(d) && d.bits == 0,
        Val::Bool(_) => v == Val::Bool(false),
        _ => v == Val::Undef,
    }
}

/// `Arrays.binarySearch` answers with a place of the key where an array that is in
/// order has it, and otherwise with the place where it would have to be put, less
/// one and turned round.
#[verifier::rlimit(80)]
pub proof fn binary_search_finds(h: HostV, id: u32, items: Seq<Val>, key: Val)
    requires
        arrays_items(h, id as int, items),
        items.len() < i64::MAX,
        forall|i: int, j: int|
            0 <= i < j < items.len() ==> natural(h, #[trigger] items[i], key) <= natural(
                h,
                #[trigger] items[j],
                key,
            ),
    ensures
        ({
            let r = static_called(h, "Arrays"@, "binarySearch"@, seq![Val::Obj(id), key]);
            let at = int_given(r);
            &&& answers_with(h, r, Val::Int(at as i64))
            &&& at >= 0 ==> at < items.len() && natural(h, items[at], key) == 0
            &&& at < 0 ==> -at - 1 <= items.len() && (forall|i: int|
                0 <= i < -at - 1 ==> natural(h, #[trigger] items[i], key) < 0) && forall|i: int|
                -at - 1 <= i < items.len() ==> natural(h, #[trigger] items[i], key) > 0
        }),
{
    lemma_array_names();
    lemma_arrays_class(h, "binarySearch"@, seq![Val::Obj(id), key]);
    assert(partitioned(h, items, key));
    search_finds_the_place(h, items, key, 0, items.len() as int);
}

/// `Arrays.equals` says whether two arrays are as long and hold what compares as
/// equal in every place.
#[verifier::rlimit(80)]
pub proof fn arrays_are_compared(h: HostV, id: u32, items: Seq<Val>, other: u32, more: Seq<Val>)
    requires
        arrays_items(h, id as int, items),
        arrays_items(h, other as int, more),
    ensures
        answers_with(
            h,
            static_called(h, "Arrays"@, "equals"@, seq![Val::Obj(id), Val::Obj(other)]),
            Val::Bool(
                items.len() == more.len() && forall|i: int|
                    0 <= i < items.len() ==> #[trigger] natural(h, items[i], more[i]) == 0,
            ),
        ),
{
    lemma_array_names();
    lemma_arrays_class(h, "equals"@, seq![Val::Obj(id), Val::Obj(other)]);
}

/// An array of whole numbers or of texts that `Arrays.sort` has left holds what it
/// held, each element no greater than the next.
#[verifier::rlimit(80)]
pub proof fn sorted_arrays_ascend(h: HostV, id: u32, items: Seq<Val>, at: Seq<int>, after: HostV, i: int, j: int)
    requires
        arrays_items(h, id as int, items),
        array_sorted(h, id, at, after),
        0 <= i < j < items.len(),
        (forall|k: int| 0 <= k < items.len() ==> #[trigger] items[k] is Int) || forall|k: int|
            0 <= k < items.len() ==> #[trigger] items[k] is Str,
    ensures
        static_sorts(h, "Arrays"@, "sort"@, seq![Val::Obj(id)]) == Some(id),
        only_at(h, after, id as int),
        ({
            let sorted = after.heap[id as int]->Array_0;
            &&& arrays_items(after, id as int, sorted)
            &&& sorted.len() == items.len()
            &&& exists|k: int| 0 <= k < items.len() && sorted[i] == #[trigger] items[k]
            &&& exists|k: int| 0 <= k < items.len() && #[trigger] sorted[k] == items[i]
            &&& sorted[i] is Int ==> sorted[i]->Int_0 <= sorted[j]->Int_0
            &&& sorted[i] is Str ==> natural(h, sorted[i], sorted[j]) <= 0
        }),
{
    lemma_array_names();
    lemma_class_names();
    let sorted = picked(items, at);
    natural_order_is_an_order(h, items);
    assert(before(items, natural_in(h), at[i], at[j]));
    assert(natural_in(h)(items[at[j]], items[at[i]]) == natural(h, items[at[j]], items[at[i]]));
    assert(sorted[i] == items[at[i]] && sorted[j] == items[at[j]]);
    if sorted[i] is Str {
        values_of_a_kind_are_ordered(h, sorted[i], sorted[j]);
    }
    lemma_onto(at, items.len() as int, i);
    let k = choose|k: int| 0 <= k < items.len() && #[trigger] at[k] == i;
    assert(sorted[k] == items[i]);
}

/// A selection of places without a repeat takes every place.
proof fn lemma_onto(at: Seq<int>, n: int, i: int)
    requires
        shuffles(at, 0, n),
        at.len() == n,
        0 <= i < n,
    ensures
        exists|k: int| 0 <= k < n && #[trigger] at[k] == i,
{
    if !(exists|k: int| 0 <= k < n && #[trigger] at[k] == i) {
        assert(at.no_duplicates());
        at.unique_seq_to_set();
        let all = vstd::set_lib::set_int_range(0, n);
        vstd::set_lib::lemma_int_range(0, n);
        assert(at.to_set().subset_of(all.remove(i))) by {
            assert forall|x: int| at.to_set().contains(x) implies all.remove(i).contains(x) by {
                let k = choose|k: int| 0 <= k < at.len() && at[k] == x;
                assert(0 <= at[k] < n);
            }
        }
        vstd::set_lib::lemma_len_subset(at.to_set(), all.remove(i));
    }
}

// ── Order ───────────────────────────────────────────────────────────────────

/// Natural order: numbers by their size, texts by the first characters that
/// differ, a text before every longer one that it begins, `false` before `true`,
/// and `null` before all.
#[verifier::rlimit(80)]
pub proof fn natural_order_goes_by_value(
    h: HostV,
    a: i64,
    b: i64,
    s: Seq<char>,
    t: Seq<char>,
    i: int,
)
    requires
        0 <= i <= s.len(),
        i <= t.len(),
        s.take(i) == t.take(i),
        i < s.len() && i < t.len() ==> s[i] != t[i],
    ensures
        natural(h, Val::Int(a), Val::Int(b)) < 0 <==> a < b,
        natural(h, Val::Int(a), Val::Int(b)) == 0 <==> a == b,
        natural(h, Val::Bool(false), Val::Bool(true)) < 0,
        natural(h, Val::Bool(true), Val::Bool(false)) > 0,
        natural(h, Val::Undef, Val::Int(a)) < 0,
        natural(h, Val::Int(a), Val::Undef) > 0,
        i < s.len() && i < t.len() ==> (natural(h, Val::Str(s), Val::Str(t)) < 0 <==> s[i] < t[i])
            && natural(h, Val::Str(s), Val::Str(t)) != 0,
        i == s.len() && i < t.len() ==> natural(h, Val::Str(s), Val::Str(t)) < 0,
        i < s.len() && i == t.len() ==> natural(h, Val::Str(s), Val::Str(t)) > 0,
        i == s.len() && i == t.len() ==> natural(h, Val::Str(s), Val::Str(t)) == 0,
{
    lemma_texts_ordered(s, t, 0, i);
}

proof fn lemma_texts_ordered(s: Seq<char>, t: Seq<char>, from: int, i: int)
    requires
        0 <= from <= i <= s.len(),
        i <= t.len(),
        s.take(i) == t.take(i),
    ensures
        text_order(s, t, from) == text_order(s, t, i),
    decreases i - from,
{
    if from < i {
        assert(s[from] == s.take(i)[from] && t[from] == t.take(i)[from]);
        lemma_texts_ordered(s, t, from + 1, i);
    }
}

/// Values of one kind compare the other way round when they change places.
#[verifier::rlimit(80)]
pub proof fn values_of_a_kind_are_ordered(h: HostV, a: Val, b: Val)
    requires
        a is Int && b is Int || a is Str && b is Str || a is Bool && b is Bool || a is Float && b is Float,
    ensures
        natural(h, a, b) == -natural(h, b, a),
{
    if let (Val::Str(x), Val::Str(y)) = (a, b) {
        lemma_turned(x, y, 0);
    }
}

proof fn lemma_turned(a: Seq<char>, b: Seq<char>, i: int)
    requires
        0 <= i,
    ensures
        text_order(a, b, i) == -text_order(b, a, i),
    decreases a.len() - i,
{
    if i < a.len() && i < b.len() && a[i] == b[i] {
        lemma_turned(a, b, i + 1);
    }
}

// ── Collections ─────────────────────────────────────────────────────────────

/// The host that a static of the collections leaves.
pub open spec fn host_left(r: Option<(HostV, Result<StaticStepV, FaultV>)>) -> HostV {
    match r {
        Some((g, _)) => g,
        None => arbitrary(),
    }
}

/// How a static of the collections goes on.
pub open spec fn step_begun(r: Option<(HostV, Result<StaticStepV, FaultV>)>) -> Result<
    StaticStepV,
    FaultV,
> {
    match r {
        Some((_, step)) => step,
        None => arbitrary(),
    }
}

#[verifier::rlimit(60)]
proof fn lemma_greatest(h: HostV, items: Seq<Val>, i: int, best: int)
    requires
        is_order(items, natural_in(h)),
        0 <= best < i <= items.len(),
        forall|k: int| 0 <= k < i ==> natural(h, items[best], #[trigger] items[k]) >= 0,
    ensures
        exists|b: int|
            0 <= b < items.len() && #[trigger] items[b] == greatest(h, items, i, items[best])
                && forall|k: int|
                0 <= k < items.len() ==> natural(h, items[b], #[trigger] items[k]) >= 0,
    decreases items.len() - i,
{
    let rel = natural_in(h);
    if i < items.len() {
        if natural(h, items[best], items[i]) > 0 {
            lemma_greatest(h, items, i + 1, best);
        } else {
            assert(rel(items[best], items[i]) >= 0 || rel(items[i], items[best]) >= 0);
            assert(natural(h, items[i], items[best]) >= 0) by {
                lemma_kept_order(h, items, best, i);
            }
            assert forall|k: int| 0 <= k < i + 1 implies natural(h, items[i], #[trigger] items[k])
                >= 0 by {
                assert(rel(items[i], items[best]) >= 0);
                if k < i {
                    assert(natural(h, items[best], items[k]) >= 0);
                    assert(rel(items[best], items[k]) >= 0);
                    assert(rel(items[i], items[k]) >= 0);
                } else {
                    assert(rel(items[i], items[i]) >= 0);
                }
            }
            lemma_greatest(h, items, i + 1, i);
        }
    } else {
        assert(items[best] == greatest(h, items, i, items[best]));
    }
}

/// Where one of two elements is not above the other, the other is not below it.
proof fn lemma_kept_order(h: HostV, items: Seq<Val>, p: int, q: int)
    requires
        is_order(items, natural_in(h)),
        0 <= p < items.len(),
        0 <= q < items.len(),
        natural(h, items[p], items[q]) <= 0,
    ensures
        natural(h, items[q], items[p]) >= 0,
{
    let rel = natural_in(h);
    assert(rel(items[p], items[q]) >= 0 || rel(items[q], items[p]) >= 0);
    lemma_opposed(h, items[p], items[q]);
}

/// Natural order is turned round with its values, whatever they are.
proof fn lemma_opposed(h: HostV, a: Val, b: Val)
    ensures
        natural(h, a, b) == -natural(h, b, a),
{
    if let (Val::Str(x), Val::Str(y)) = (bare(h, a), bare(h, b)) {
        lemma_turned(x, y, 0);
    }
}

#[verifier::rlimit(60)]
proof fn lemma_least(h: HostV, items: Seq<Val>, i: int, best: int)
    requires
        is_order(items, natural_in(h)),
        0 <= best < i <= items.len(),
        forall|k: int| 0 <= k < i ==> natural(h, items[best], #[trigger] items[k]) <= 0,
    ensures
        exists|b: int|
            0 <= b < items.len() && #[trigger] items[b] == least(h, items, i, items[best])
                && forall|k: int|
                0 <= k < items.len() ==> natural(h, items[b], #[trigger] items[k]) <= 0,
    decreases items.len() - i,
{
    let rel = natural_in(h);
    if i < items.len() {
        if natural(h, items[best], items[i]) > 0 {
            assert forall|k: int| 0 <= k < i + 1 implies natural(h, items[i], #[trigger] items[k])
                <= 0 by {
                if k < i {
                    assert(natural(h, items[best], items[k]) <= 0);
                    lemma_opposed(h, items[best], items[k]);
                    assert(rel(items[k], items[best]) >= 0);
                    assert(rel(items[best], items[i]) >= 0);
                    assert(rel(items[k], items[i]) >= 0);
                    lemma_opposed(h, items[k], items[i]);
                } else {
                    lemma_opposed(h, items[i], items[i]);
                }
            }
            lemma_least(h, items, i + 1, i);
        } else {
            lemma_least(h, items, i + 1, best);
        }
    } else {
        assert(items[best] == least(h, items, i, items[best]));
    }
}

/// `Collections.max` answers with an element of the list that no element is above,
/// and `Collections.min` with one that no element is below, where natural order is
/// an order on the elements. An empty list has neither, and nothing changes.
#[verifier::rlimit(80)]
pub proof fn the_extremes_of_a_list(h: HostV, id: u32, items: Seq<Val>)
    requires
        lists_items(h, id as int, items),
    ensures
        ({
            let max = static_begun(h, "Collections"@, "max"@, seq![Val::Obj(id)]);
            let min = static_begun(h, "Collections"@, "min"@, seq![Val::Obj(id)]);
            &&& max is Some && host_left(max) == h
            &&& min is Some && host_left(min) == h
            &&& items.len() > 0 ==> step_begun(max) is Ok && step_begun(max)->Ok_0 is Done && step_begun(min) is Ok
                && step_begun(min)->Ok_0 is Done
            &&& items.len() > 0 && is_order(items, natural_in(h)) ==> {
                let most = step_begun(max)->Ok_0->Done_0;
                let least = step_begun(min)->Ok_0->Done_0;
                &&& items.contains(most)
                &&& items.contains(least)
                &&& forall|k: int| 0 <= k < items.len() ==> natural(h, #[trigger] items[k], most) <= 0
                &&& forall|k: int| 0 <= k < items.len() ==> natural(h, #[trigger] items[k], least) >= 0
            }
            &&& items.len() == 0 ==> (step_begun(max) matches Err(f) && f.class
                == "NoSuchElementException"@) && (step_begun(min) matches Err(f) && f.class
                == "NoSuchElementException"@)
        }),
{
    lemma_collection_statics();
    lemma_thrown();
    if items.len() > 0 && is_order(items, natural_in(h)) {
        lemma_opposed(h, items[0], items[0]);
        lemma_greatest(h, items, 1, 0);
        lemma_least(h, items, 1, 0);
        let most = greatest(h, items, 1, items[0]);
        let little = least(h, items, 1, items[0]);
        assert forall|k: int| 0 <= k < items.len() implies natural(h, #[trigger] items[k], most)
            <= 0 by {
            lemma_opposed(h, items[k], most);
        }
        assert forall|k: int| 0 <= k < items.len() implies natural(h, #[trigger] items[k], little)
            >= 0 by {
            lemma_opposed(h, items[k], little);
        }
    }
}

/// `Collections.reverse` turns a list round: what stood at one end stands as far
/// from the other.
#[verifier::rlimit(80)]
pub proof fn reverse_turns_a_list_round(h: HostV, id: u32, items: Seq<Val>, i: int)
    requires
        lists_items(h, id as int, items),
        list_fixity(h, id as int) != Fixity::Immutable,
        0 <= i < items.len(),
    ensures
        ({
            let r = static_begun(h, "Collections"@, "reverse"@, seq![Val::Obj(id)]);
            let g = host_left(r);
            let left = list_held(g, id as int);
            &&& r is Some && step_begun(r) == Ok::<StaticStepV, FaultV>(StaticStepV::Done(Val::Undef))
            &&& only_at(h, g, id as int)
            &&& lists_items(g, id as int, left)
            &&& left.len() == items.len()
            &&& left[i] == items[items.len() - 1 - i]
        }),
{
    lemma_collection_statics();
}

/// `Arrays.asList` makes a list of its arguments that keeps its size, and
/// `List.of` one that never changes; `Set.of` takes them as the elements of a set,
/// and `Collections.sort` hands the elements of its list to the sort, with the
/// comparator where there is one.
#[verifier::rlimit(80)]
pub proof fn lists_are_made_of_arguments(
    h: HostV,
    x: Val,
    y: Val,
    id: u32,
    items: Seq<Val>,
    order: Val,
)
    requires
        h.heap.len() < u32::MAX,
    ensures
        ({
            let r = static_begun(h, "Arrays"@, "asList"@, seq![x, y]);
            let n = h.heap.len() as int;
            &&& r is Some && step_begun(r) == Ok::<StaticStepV, FaultV>(
                StaticStepV::Done(Val::Obj(n as u32)),
            )
            &&& host_left(r) == (HostV { heap: h.heap.push(host_left(r).heap[n]), ..h })
            &&& lists_items(host_left(r), n, seq![x, y])
            &&& list_fixity(host_left(r), n) == Fixity::FixedSize
        }),
        ({
            let r = static_begun(h, "List"@, "of"@, seq![x, y]);
            let n = h.heap.len() as int;
            &&& r is Some && step_begun(r) == Ok::<StaticStepV, FaultV>(
                StaticStepV::Done(Val::Obj(n as u32)),
            )
            &&& host_left(r) == (HostV { heap: h.heap.push(host_left(r).heap[n]), ..h })
            &&& lists_items(host_left(r), n, seq![x, y])
            &&& list_fixity(host_left(r), n) == Fixity::Immutable
        }),
        static_begun(h, "Set"@, "of"@, seq![x, y]) == Some(
            (h, Ok::<StaticStepV, FaultV>(StaticStepV::Unique(seq![x, y]))),
        ),
        static_begun(h, "Objects"@, "equals"@, seq![x, y]) == Some(
            (h, Ok::<StaticStepV, FaultV>(StaticStepV::Equals(x, y))),
        ),
        lists_items(h, id as int, items) && list_fixity(h, id as int) != Fixity::Immutable ==> {
            &&& static_begun(h, "Collections"@, "sort"@, seq![Val::Obj(id), order]) == Some(
                (
                    h,
                    Ok::<StaticStepV, FaultV>(StaticStepV::Sort { items, comparator: order }),
                ),
            )
            &&& static_begun(h, "Collections"@, "sort"@, seq![Val::Obj(id)]) == Some(
                (
                    h,
                    Ok::<StaticStepV, FaultV>(
                        StaticStepV::Sort { items, comparator: Val::Undef },
                    ),
                ),
            )
        },
{
    lemma_collection_statics();
}

} // verus!
