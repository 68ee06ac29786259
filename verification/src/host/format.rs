//! `String.format`: reading the specifiers, refusing what `java.util.Formatter`
//! refuses, and laying each conversion out.
use vstd::prelude::*;

use crate::double::{
    Double, DoubleV, INFINITY, SIGN, is_nan, is_nan_bits, magnitude, magnitude_of, negative,
};
use crate::host::Host;
use crate::host::boxes::{jint, jint_of};
use crate::host::decimal::{
    digits_end, fixed_half_up, fixed_text, group_digits, is_dec, numeric_text, sci_notation,
    sci_text, unbounded_text, unbounded_word, unsigned_text, with_groups,
};
use crate::host::order::{hash_of, java_hash};
use crate::host::render::{depth_limit, java_str, low32, low_bits, scalar, text_of_value};
use crate::host::statics::show;
use crate::text::{
    all_digits, chars_of, code_of, dec, digits, digits_value, find_char, is_digit_in,
    lemma_repeated_len, number, own, part, push_chars, radix_text, repeat_text, repeated, same,
    size_text, text_between, views,
};
use crate::value::{Fault, FaultV, Val, Value, java_fault};

verus! {

// ── Case ────────────────────────────────────────────────────────────────────

/// A text in upper case, by the rules of Unicode.
pub uninterp spec fn upper_text(s: Seq<char>) -> Seq<char>;

/// `str::to_uppercase`: the upper-case text, a function of the characters alone.
#[verifier::external_body]
pub(crate) fn to_upper(s: &str) -> (r: String)
    ensures
        r@ == upper_text(s@),
{
    s.to_uppercase()
}

// ── Arguments ───────────────────────────────────────────────────────────────

/// One argument, with what the conversions read of it.
pub struct FmtArg {
    /// The argument itself.
    pub value: Value,
    /// It read as an integer, through any box.
    pub int: i64,
    /// It read as a `double`, through any box.
    pub double: Double,
    /// Its `hashCode()`, 0 when it has none.
    pub hash: i32,
    /// Its rendering without a user `toString()`.
    pub text: String,
}

pub struct ArgV {
    pub value: Val,
    pub int: int,
    pub double: DoubleV,
    pub hash: i32,
    pub text: Seq<char>,
}

impl View for FmtArg {
    type V = ArgV;

    open spec fn view(&self) -> ArgV {
        ArgV {
            value: self.value@,
            int: self.int as int,
            double: self.double@,
            hash: self.hash,
            text: self.text@,
        }
    }
}

pub open spec fn arg_views(s: Seq<FmtArg>) -> Seq<ArgV> {
    Seq::new(s.len(), |i: int| s[i]@)
}

/// Whether a `double`'s plain rendering is one: digits and a point.
pub open spec fn plain_is_digits(d: DoubleV) -> bool {
    magnitude(d.bits) >= INFINITY || numeric_text(unsigned_text(d.plain))
}

/// What the conversions read of `v`. The `double` it reads as is handed in.
/// `None` when the value holds itself.
pub fn fmt_arg(host: &Host, v: &Value, double: Double) -> (r: Option<FmtArg>)
    requires
        depth_limit(host@) <= usize::MAX,
    ensures
        r is Some == text_of_value(host@, v@) is Some,
        r matches Some(a) ==> a@ == (ArgV {
            value: v@,
            int: jint_of(host@, v@),
            double: double@,
            hash: match hash_of(host@, v@) {
                Some(x) => x,
                None => 0,
            },
            text: text_of_value(host@, v@)->0,
        }),
{
    let text: String = match java_str(host, v) {
        Some(t) => t,
        None => {
            return None;
        },
    };
    let hash: i32 = match java_hash(host, v) {
        Some(x) => x,
        None => 0,
    };
    Some(FmtArg { value: v.copy(), int: jint(host, v), double, hash, text })
}

// ── Flags ───────────────────────────────────────────────────────────────────

/// The flag characters of one conversion.
#[derive(Clone, Copy, PartialEq, Eq, Structural)]
pub struct FmtFlags {
    pub left: bool,
    pub alt: bool,
    pub plus: bool,
    pub space: bool,
    pub zero: bool,
    pub group: bool,
    pub parens: bool,
}

pub open spec fn picked_flag(c: char, set: bool, want: Seq<char>) -> Seq<char> {
    if set && want.contains(c) {
        seq![c]
    } else {
        seq![]
    }
}

/// The flags that are set and wanted, in the order `Formatter` spells them.
pub open spec fn spelled(f: FmtFlags, want: Seq<char>) -> Seq<char> {
    picked_flag('-', f.left, want) + picked_flag('#', f.alt, want) + picked_flag('+', f.plus, want)
        + picked_flag(' ', f.space, want) + picked_flag('0', f.zero, want) + picked_flag(
        ',',
        f.group,
        want,
    ) + picked_flag('(', f.parens, want)
}

fn pick_flag(out: &mut String, c: char, set: bool, want: &Vec<char>)
    ensures
        final(out)@ == old(out)@ + picked_flag(c, set, want@),
{
    if set {
        match find_char(want, c, 0) {
            Some(i) => {
                assert(want@[i as int] == c);
                out.push(c);
            },
            None => {
                assert(!want@.contains(c));
            },
        }
    }
    assert(out@ =~= old(out)@ + picked_flag(c, set, want@));
}

impl FmtFlags {
    /// The flags that are set and wanted, in the order `Formatter` spells them.
    pub fn spell(&self, want: &Vec<char>) -> (r: String)
        ensures
            r@ == spelled(*self, want@),
    {
        let mut r: String = String::new();
        pick_flag(&mut r, '-', self.left, want);
        pick_flag(&mut r, '#', self.alt, want);
        pick_flag(&mut r, '+', self.plus, want);
        pick_flag(&mut r, ' ', self.space, want);
        pick_flag(&mut r, '0', self.zero, want);
        pick_flag(&mut r, ',', self.group, want);
        pick_flag(&mut r, '(', self.parens, want);
        assert(r@ =~= spelled(*self, want@));
        r
    }
}

/// The fault of flags a conversion does not take, if there are any of `want`.
pub open spec fn mismatched(conv: char, f: FmtFlags, want: Seq<char>) -> Option<FaultV> {
    let bad = spelled(f, want);
    if bad.len() == 0 {
        None
    } else {
        Some(
            java_fault(
                "FormatFlagsConversionMismatchException"@,
                "Conversion = "@ + seq![conv] + ", Flags = "@ + bad,
            ),
        )
    }
}

fn mismatch(conv: char, f: &FmtFlags, want: &Vec<char>) -> (r: Result<(), Fault>)
    ensures
        match (r, mismatched(conv, *f, want@)) {
            (Ok(_), None) => true,
            (Err(a), Some(b)) => a@ == b,
            _ => false,
        },
{
    let bad: String = f.spell(want);
    if bad.as_str().is_empty() {
        return Ok(());
    }
    let mut m: String = own("Conversion = ");
    let mut c: String = String::new();
    c.push(conv);
    assert(c@ =~= seq![conv]);
    m.append(c.as_str());
    m.append(", Flags = ");
    m.append(bad.as_str());
    Err(Fault::java("FormatFlagsConversionMismatchException", m))
}

/// The fault of flags that contradict each other.
pub open spec fn bad_flags(f: FmtFlags, want: Seq<char>) -> FaultV {
    java_fault("IllegalFormatFlagsException"@, "Flags = '"@ + spelled(f, want) + "'"@)
}

fn bad_flags_fault(f: &FmtFlags, want: &Vec<char>) -> (r: Fault)
    ensures
        r@ == bad_flags(*f, want@),
{
    let mut m: String = own("Flags = '");
    m.append(f.spell(want).as_str());
    m.append("'");
    Fault::java("IllegalFormatFlagsException", m)
}

/// All flags, in the order they are spelled.
pub open spec fn every_flag() -> Seq<char> {
    seq!['-', '#', '+', ' ', '0', ',', '(']
}

/// The fault of a numeric conversion's flags, before those of the conversion
/// itself: `-` and `0` need a width, and `+` with ` `, and `-` with `0`,
/// exclude each other.
pub open spec fn numeric_flag_fault(
    f: FmtFlags,
    width: Option<int>,
    source: Seq<char>,
) -> Option<FaultV> {
    if width is None && (f.left || f.zero) {
        Some(java_fault("MissingFormatWidthException"@, source))
    } else if f.plus && f.space {
        Some(bad_flags(f, seq!['+', ' ']))
    } else if f.left && f.zero {
        Some(bad_flags(f, seq!['-', '0']))
    } else {
        None
    }
}

/// The fault of a specifier whose flags, width or precision its conversion does
/// not take, in the order `Formatter` checks them.
pub open spec fn flag_fault(
    conv: char,
    f: FmtFlags,
    width: Option<int>,
    prec: Option<int>,
    source: Seq<char>,
) -> Option<FaultV> {
    let missing = java_fault("MissingFormatWidthException"@, source);
    let bad_precision = java_fault(
        "IllegalFormatPrecisionException"@,
        dec(
            match prec {
                Some(p) => p,
                None => 0,
            },
        ),
    );
    let unwidened = f.left && width is None;
    if conv == 'n' {
        if spelled(f, every_flag()).len() > 0 {
            Some(bad_flags(f, every_flag()))
        } else if width is Some {
            Some(java_fault("IllegalFormatWidthException"@, dec(width->0)))
        } else if prec is Some {
            Some(bad_precision)
        } else {
            None
        }
    } else if conv == '%' {
        if unwidened {
            Some(missing)
        } else {
            None
        }
    } else if conv == 's' || conv == 'S' {
        match mismatched(conv, f, seq!['+', ' ', '0', ',', '(']) {
            Some(e) => Some(e),
            None => if unwidened {
                Some(missing)
            } else {
                mismatched(conv, f, seq!['#'])
            },
        }
    } else if conv == 'b' || conv == 'B' || conv == 'h' || conv == 'H' {
        match mismatched(conv, f, seq!['+', ' ', '0', ',', '(', '#']) {
            Some(e) => Some(e),
            None => if unwidened {
                Some(missing)
            } else {
                None
            },
        }
    } else if conv == 'c' || conv == 'C' {
        if prec is Some {
            Some(bad_precision)
        } else {
            match mismatched(conv, f, seq!['#', '+', ' ', '0', ',', '(']) {
                Some(e) => Some(e),
                None => if unwidened {
                    Some(missing)
                } else {
                    None
                },
            }
        }
    } else {
        match numeric_flag_fault(f, width, source) {
            Some(e) => Some(e),
            None => if conv == 'd' {
                match mismatched(conv, f, seq!['#']) {
                    Some(e) => Some(e),
                    None => if prec is Some {
                        Some(bad_precision)
                    } else {
                        None
                    },
                }
            } else if conv == 'o' || conv == 'x' || conv == 'X' {
                match mismatched(conv, f, seq![',']) {
                    Some(e) => Some(e),
                    None => match mismatched(conv, f, seq!['+', ' ', '(']) {
                        Some(e) => Some(e),
                        None => if prec is Some {
                            Some(bad_precision)
                        } else {
                            None
                        },
                    },
                }
            } else if conv == 'e' || conv == 'E' {
                mismatched(conv, f, seq![','])
            } else if conv == 'g' || conv == 'G' {
                mismatched(conv, f, seq!['#'])
            } else {
                None
            },
        }
    }
}

/// The view of an optional size.
pub open spec fn opt_int(n: Option<usize>) -> Option<int> {
    match n {
        Some(x) => Some(x as int),
        None => None,
    }
}

fn precision_fault(prec: Option<usize>) -> (r: Fault)
    ensures
        r@ == java_fault(
            "IllegalFormatPrecisionException"@,
            dec(
                match prec {
                    Some(p) => p as int,
                    None => 0,
                },
            ),
        ),
{
    let n: usize = match prec {
        Some(p) => p,
        None => 0,
    };
    Fault::java("IllegalFormatPrecisionException", size_text(n))
}

fn missing_width(source: &str) -> (r: Fault)
    ensures
        r@ == java_fault("MissingFormatWidthException"@, source@),
{
    Fault::java("MissingFormatWidthException", own(source))
}

fn check_numeric_flags(
    conv: char,
    f: &FmtFlags,
    width: Option<usize>,
    prec: Option<usize>,
    source: &str,
) -> (r: Result<(), Fault>)
    requires
        conv != 'n' && conv != '%' && conv != 's' && conv != 'S' && conv != 'b' && conv != 'B'
            && conv != 'h' && conv != 'H' && conv != 'c' && conv != 'C',
    ensures
        match (r, flag_fault(conv, *f, opt_int(width), opt_int(prec), source@)) {
            (Ok(_), None) => true,
            (Err(a), Some(b)) => a@ == b,
            _ => false,
        },
{
    if width.is_none() && (f.left || f.zero) {
        return Err(missing_width(source));
    }
    if f.plus && f.space {
        let want: Vec<char> = vec!['+', ' '];
        assert(want@ =~= seq!['+', ' ']);
        return Err(bad_flags_fault(f, &want));
    }
    if f.left && f.zero {
        let want: Vec<char> = vec!['-', '0'];
        assert(want@ =~= seq!['-', '0']);
        return Err(bad_flags_fault(f, &want));
    }
    if conv == 'd' {
        let want: Vec<char> = vec!['#'];
        assert(want@ =~= seq!['#']);
        mismatch(conv, f, &want)?;
        if prec.is_some() {
            return Err(precision_fault(prec));
        }
    } else if conv == 'o' || conv == 'x' || conv == 'X' {
        let want: Vec<char> = vec![','];
        assert(want@ =~= seq![',']);
        mismatch(conv, f, &want)?;
        let want: Vec<char> = vec!['+', ' ', '('];
        assert(want@ =~= seq!['+', ' ', '(']);
        mismatch(conv, f, &want)?;
        if prec.is_some() {
            return Err(precision_fault(prec));
        }
    } else if conv == 'e' || conv == 'E' {
        let want: Vec<char> = vec![','];
        assert(want@ =~= seq![',']);
        mismatch(conv, f, &want)?;
    } else if conv == 'g' || conv == 'G' {
        let want: Vec<char> = vec!['#'];
        assert(want@ =~= seq!['#']);
        mismatch(conv, f, &want)?;
    }
    Ok(())
}

/// Refuse the flags, width and precision a conversion does not take.
pub fn check_format_flags(
    conv: char,
    f: &FmtFlags,
    width: Option<usize>,
    prec: Option<usize>,
    source: &str,
) -> (r: Result<(), Fault>)
    ensures
        match (r, flag_fault(conv, *f, opt_int(width), opt_int(prec), source@)) {
            (Ok(_), None) => true,
            (Err(a), Some(b)) => a@ == b,
            _ => false,
        },
{
    if conv == 'n' {
        let all: Vec<char> = vec!['-', '#', '+', ' ', '0', ',', '('];
        assert(all@ =~= every_flag());
        if !f.spell(&all).as_str().is_empty() {
            return Err(bad_flags_fault(f, &all));
        }
        if let Some(w) = width {
            return Err(Fault::java("IllegalFormatWidthException", size_text(w)));
        }
        if prec.is_some() {
            return Err(precision_fault(prec));
        }
        return Ok(());
    }
    if conv == '%' {
        if f.left && width.is_none() {
            return Err(missing_width(source));
        }
        return Ok(());
    }
    if conv == 's' || conv == 'S' {
        let want: Vec<char> = vec!['+', ' ', '0', ',', '('];
        assert(want@ =~= seq!['+', ' ', '0', ',', '(']);
        mismatch(conv, f, &want)?;
        if f.left && width.is_none() {
            return Err(missing_width(source));
        }
        let want: Vec<char> = vec!['#'];
        assert(want@ =~= seq!['#']);
        return mismatch(conv, f, &want);
    }
    if conv == 'b' || conv == 'B' || conv == 'h' || conv == 'H' {
        let want: Vec<char> = vec!['+', ' ', '0', ',', '(', '#'];
        assert(want@ =~= seq!['+', ' ', '0', ',', '(', '#']);
        mismatch(conv, f, &want)?;
        if f.left && width.is_none() {
            return Err(missing_width(source));
        }
        return Ok(());
    }
    if conv == 'c' || conv == 'C' {
        if prec.is_some() {
            return Err(precision_fault(prec));
        }
        let want: Vec<char> = vec!['#', '+', ' ', '0', ',', '('];
        assert(want@ =~= seq!['#', '+', ' ', '0', ',', '(']);
        mismatch(conv, f, &want)?;
        if f.left && width.is_none() {
            return Err(missing_width(source));
        }
        return Ok(());
    }
    check_numeric_flags(conv, f, width, prec, source)
}

// ── Types of arguments ──────────────────────────────────────────────────────

/// The boxed class `Formatter` sees: that of the declared type, or the one the
/// value implies. `None` for `null` and for an object whose class no conversion
/// refuses.
pub open spec fn arg_class(tag: Seq<char>, v: Val) -> Option<Seq<char>> {
    if v == Val::Undef {
        None
    } else if tag == "int"@ || tag == "Integer"@ {
        Some("java.lang.Integer"@)
    } else if tag == "long"@ || tag == "Long"@ {
        Some("java.lang.Long"@)
    } else if tag == "short"@ || tag == "Short"@ {
        Some("java.lang.Short"@)
    } else if tag == "byte"@ || tag == "Byte"@ {
        Some("java.lang.Byte"@)
    } else if tag == "char"@ || tag == "Character"@ {
        Some("java.lang.Character"@)
    } else if tag == "double"@ || tag == "Double"@ {
        Some("java.lang.Double"@)
    } else if tag == "float"@ || tag == "Float"@ {
        Some("java.lang.Float"@)
    } else if tag == "boolean"@ || tag == "Boolean"@ {
        Some("java.lang.Boolean"@)
    } else if tag == "String"@ {
        Some("java.lang.String"@)
    } else {
        match v {
            Val::Int(_) => Some("java.lang.Integer"@),
            Val::Float(_) => Some("java.lang.Double"@),
            Val::Bool(_) => Some("java.lang.Boolean"@),
            Val::Str(_) => Some("java.lang.String"@),
            _ => None,
        }
    }
}

/// The boxed class `Formatter` sees for an argument.
pub fn boxed_class(tag: &str, v: &Value) -> (r: Option<&'static str>)
    ensures
        match r {
            Some(c) => arg_class(tag@, v@) == Some(c@),
            None => arg_class(tag@, v@) is None,
        },
{
    if v.is_undef() {
        None
    } else if same(tag, "int") || same(tag, "Integer") {
        Some("java.lang.Integer")
    } else if same(tag, "long") || same(tag, "Long") {
        Some("java.lang.Long")
    } else if same(tag, "short") || same(tag, "Short") {
        Some("java.lang.Short")
    } else if same(tag, "byte") || same(tag, "Byte") {
        Some("java.lang.Byte")
    } else if same(tag, "char") || same(tag, "Character") {
        Some("java.lang.Character")
    } else if same(tag, "double") || same(tag, "Double") {
        Some("java.lang.Double")
    } else if same(tag, "float") || same(tag, "Float") {
        Some("java.lang.Float")
    } else if same(tag, "boolean") || same(tag, "Boolean") {
        Some("java.lang.Boolean")
    } else if same(tag, "String") {
        Some("java.lang.String")
    } else {
        match v {
            Value::Int(_) => Some("java.lang.Integer"),
            Value::Float(_) => Some("java.lang.Double"),
            Value::Bool(_) => Some("java.lang.Boolean"),
            Value::Str(_) => Some("java.lang.String"),
            _ => None,
        }
    }
}

pub open spec fn integral_class(c: Seq<char>) -> bool {
    c == "java.lang.Integer"@ || c == "java.lang.Long"@ || c == "java.lang.Short"@ || c
        == "java.lang.Byte"@
}

/// Whether a conversion takes an argument of a boxed class.
pub open spec fn takes(conv: char, c: Seq<char>) -> bool {
    if conv == 'd' || conv == 'x' || conv == 'X' || conv == 'o' {
        integral_class(c)
    } else if conv == 'f' || conv == 'e' || conv == 'E' || conv == 'g' || conv == 'G' || conv
        == 'a' || conv == 'A' {
        c == "java.lang.Double"@ || c == "java.lang.Float"@
    } else if conv == 'c' || conv == 'C' {
        c == "java.lang.Character"@ || integral_class(c)
    } else {
        true
    }
}

/// The fault of an argument of the wrong class. A `char` crosses into text as a
/// one-character string, so `%c` refuses a string only where its type was
/// declared.
pub open spec fn class_fault(conv: char, v: Val, tag: Seq<char>) -> Option<FaultV> {
    match arg_class(tag, v) {
        None => None,
        Some(c) => if takes(conv, c) || ((conv == 'c' || conv == 'C') && tag.len() == 0) {
            None
        } else {
            Some(
                java_fault(
                    "IllegalFormatConversionException"@,
                    seq![conv] + " != "@ + c,
                ),
            )
        },
    }
}

fn is_integral(c: &str) -> (r: bool)
    ensures
        r == integral_class(c@),
{
    same(c, "java.lang.Integer") || same(c, "java.lang.Long") || same(c, "java.lang.Short")
        || same(c, "java.lang.Byte")
}

/// Refuse an argument of the wrong class, as `Formatter` does.
pub fn check_conversion(conv: char, v: &Value, tag: &str) -> (r: Result<(), Fault>)
    ensures
        match (r, class_fault(conv, v@, tag@)) {
            (Ok(_), None) => true,
            (Err(a), Some(b)) => a@ == b,
            _ => false,
        },
{
    let c: &'static str = match boxed_class(tag, v) {
        None => {
            return Ok(());
        },
        Some(c) => c,
    };
    let ok: bool = if conv == 'd' || conv == 'x' || conv == 'X' || conv == 'o' {
        is_integral(c)
    } else if conv == 'f' || conv == 'e' || conv == 'E' || conv == 'g' || conv == 'G' || conv
        == 'a' || conv == 'A' {
        same(c, "java.lang.Double") || same(c, "java.lang.Float")
    } else if conv == 'c' || conv == 'C' {
        same(c, "java.lang.Character") || is_integral(c)
    } else {
        true
    };
    if ok || ((conv == 'c' || conv == 'C') && tag.is_empty()) {
        return Ok(());
    }
    let mut m: String = String::new();
    m.push(conv);
    assert(m@ =~= seq![conv]);
    m.append(" != ");
    m.append(c);
    Err(Fault::java("IllegalFormatConversionException", m))
}

// ── Conversions ─────────────────────────────────────────────────────────────

/// A width or a precision, when its digits are a Java `int`.
pub open spec fn field_value(digits: Seq<char>) -> Option<int> {
    if digits.len() > 0 && all_digits(digits, 10) && number(digits, 10) <= i32::MAX {
        Some(number(digits, 10))
    } else {
        None
    }
}

/// The fault of a width or precision past an `int`: its message is the number
/// every such overflow comes out as.
pub open spec fn field_fault(class: Seq<char>) -> FaultV {
    java_fault(class, "-2147483648"@)
}

/// A width or a precision, read as Java does: as an `int`.
pub fn int_format_field(digits: &Vec<char>, class: &str) -> (r: Result<usize, Fault>)
    ensures
        match (r, field_value(digits@)) {
            (Ok(n), Some(m)) => n == m && n <= 0x7fff_ffff,
            (Err(f), None) => f@ == field_fault(class@),
            _ => false,
        },
{
    assert(digits@.subrange(0, digits.len() as int) =~= digits@);
    match digits_value(digits, 0, digits.len(), 10, 0x7fff_ffff) {
        Some(n) => Ok(n as usize),
        None => Err(Fault::java(class, own("-2147483648"))),
    }
}

/// One conversion, in the pieces padding goes between: the sign or radix
/// marker, then the digits or text.
pub struct Rendered {
    pub prefix: String,
    pub body: String,
    pub numeric: bool,
}

pub struct RenderedV {
    pub prefix: Seq<char>,
    pub body: Seq<char>,
    pub numeric: bool,
}

impl View for Rendered {
    type V = RenderedV;

    open spec fn view(&self) -> RenderedV {
        RenderedV { prefix: self.prefix@, body: self.body@, numeric: self.numeric }
    }
}

impl Rendered {
    /// Text, which is padded with spaces only.
    pub fn text(body: String) -> (r: Rendered)
        ensures
            r@ == (RenderedV { prefix: seq![], body: body@, numeric: false }),
    {
        Rendered { prefix: String::new(), body, numeric: false }
    }
}

/// `%b`: `false` for `false` and `null`, `true` for anything else.
pub open spec fn bool_of(v: Val) -> bool {
    match v {
        Val::Bool(b) => b,
        Val::Undef => false,
        _ => true,
    }
}

/// `%b`.
pub fn java_bool(v: &Value) -> (r: bool)
    ensures
        r == bool_of(v@),
{
    match v {
        Value::Bool(b) => *b,
        Value::Undef => false,
        _ => true,
    }
}

/// The unsigned bit pattern `%x` and `%o` render, at the width of the declared
/// type; without one, at that of an `int` where the value fits.
pub open spec fn pattern_of(n: int, tag: Seq<char>) -> int {
    if tag == "byte"@ || tag == "Byte"@ {
        n % 0x100
    } else if tag == "short"@ || tag == "Short"@ {
        n % 0x1_0000
    } else if tag == "long"@ || tag == "Long"@ {
        n % 0x1_0000_0000_0000_0000
    } else if tag == "int"@ || tag == "Integer"@ {
        n % 0x1_0000_0000
    } else if i32::MIN <= n <= i32::MAX {
        n % 0x1_0000_0000
    } else {
        n % 0x1_0000_0000_0000_0000
    }
}

/// The unsigned bit pattern `%x` and `%o` render.
pub fn radix_bits(n: i64, tag: &str) -> (r: u64)
    ensures
        r == pattern_of(n as int, tag@),
{
    let m: u128 = if n < 0 {
        (n as i128 + 0x1_0000_0000_0000_0000) as u128
    } else {
        n as u128
    };
    proof {
        assert(n < 0 ==> m == n + 0x1_0000_0000_0000_0000);
    }
    if same(tag, "byte") || same(tag, "Byte") {
        (m % 0x100) as u64
    } else if same(tag, "short") || same(tag, "Short") {
        (m % 0x1_0000) as u64
    } else if same(tag, "long") || same(tag, "Long") {
        m as u64
    } else if same(tag, "int") || same(tag, "Integer") {
        (m % 0x1_0000_0000) as u64
    } else if -0x8000_0000 <= n && n <= 0x7fff_ffff {
        (m % 0x1_0000_0000) as u64
    } else {
        m as u64
    }
}

/// The first `prec` characters; all of them when there is no precision.
pub open spec fn cut_to(s: Seq<char>, prec: Option<int>) -> Seq<char> {
    match prec {
        Some(p) => if p < s.len() {
            s.take(p)
        } else {
            s
        },
        None => s,
    }
}

fn cut_text(s: String, prec: Option<usize>) -> (r: String)
    ensures
        r@ == cut_to(s@, opt_int(prec)),
{
    match prec {
        None => s,
        Some(p) => {
            let v: Vec<char> = chars_of(s.as_str());
            if p < v.len() {
                let r: String = text_between(&v, 0, p);
                assert(r@ =~= s@.take(p as int));
                r
            } else {
                s
            }
        },
    }
}

/// The sign of a number that is not negative.
pub open spec fn positive_sign(f: FmtFlags) -> Seq<char> {
    if f.plus {
        "+"@
    } else if f.space {
        " "@
    } else {
        ""@
    }
}

/// The sign of a floating value, by its sign bit.
pub open spec fn float_sign(d: DoubleV, f: FmtFlags) -> Seq<char> {
    if negative(d.bits) {
        "-"@
    } else {
        positive_sign(f)
    }
}

/// A text in upper case where the conversion is a capital letter.
pub open spec fn cased(s: Seq<char>, upper: bool) -> Seq<char> {
    if upper {
        upper_text(s)
    } else {
        s
    }
}

/// A digit with its letters in upper case.
pub open spec fn capital(c: char) -> char {
    if 'a' <= c <= 'z' {
        (c as int - 32) as char
    } else {
        c
    }
}

/// Digits with their letters in upper case.
pub open spec fn capitals(s: Seq<char>) -> Seq<char> {
    Seq::new(s.len(), |i: int| capital(s[i]))
}

fn capitalize(s: &str) -> (r: String)
    ensures
        r@ == capitals(s@),
{
    let v: Vec<char> = chars_of(s);
    let mut r: String = String::new();
    let mut i: usize = 0;
    while i < v.len()
        invariant
            i <= v.len(),
            r@ =~= capitals(v@).take(i as int),
        decreases v.len() - i,
    {
        let c: char = v[i];
        if 'a' <= c && c <= 'z' {
            r.push((code_of(c) as u8 - 32) as char);
        } else {
            r.push(c);
        }
        i += 1;
    }
    assert(capitals(v@).take(v.len() as int) =~= capitals(s@));
    r
}

pub open spec fn numeric_piece(prefix: Seq<char>, body: Seq<char>) -> RenderedV {
    RenderedV { prefix, body, numeric: true }
}

pub open spec fn text_piece(body: Seq<char>) -> RenderedV {
    RenderedV { prefix: seq![], body, numeric: false }
}

/// `%c`: the character with the integer's code point, or the argument's text.
pub open spec fn char_piece(a: ArgV) -> Seq<char> {
    match a.value {
        Val::Int(n) => match scalar(low32(n as int)) {
            Some(c) => seq![c],
            None => seq!['\u{fffd}'],
        },
        _ => a.text,
    }
}

/// A value that is not finite: an infinity with its sign, `NaN` without one.
/// Neither has digits to group or to pad with zeros.
pub open spec fn unbounded_piece(d: DoubleV, f: FmtFlags, upper: bool) -> RenderedV {
    RenderedV {
        prefix: if is_nan(d.bits) {
            ""@
        } else {
            float_sign(d, f)
        },
        body: cased(unbounded_text(d.bits), upper),
        numeric: false,
    }
}

/// The conversions that show a floating value.
pub open spec fn shows_float(conv: char) -> bool {
    conv == 'f' || conv == 'e' || conv == 'E' || conv == 'g' || conv == 'G'
}

/// One conversion of one argument. `shown` is what `%s` shows; `general` is the
/// number of decimals where `%g` is fixed-point, `None` where it is scientific.
pub open spec fn conversion(
    conv: char,
    a: ArgV,
    prec: Option<int>,
    f: FmtFlags,
    tag: Seq<char>,
    shown: Seq<char>,
    general: Option<int>,
) -> Result<RenderedV, FaultV> {
    let six = match prec {
        Some(p) => p,
        None => 6,
    };
    if a.value == Val::Undef && conv != 'b' && conv != 'B' {
        Ok(
            text_piece(
                cased(
                    cut_to(
                        "null"@,
                        match prec {
                            Some(p) => Some(p),
                            None => Some(4),
                        },
                    ),
                    'A' <= conv <= 'Z',
                ),
            ),
        )
    } else if conv == 'd' {
        if a.int < 0 {
            Ok(numeric_piece("-"@, dec(-a.int)))
        } else {
            Ok(numeric_piece(positive_sign(f), dec(a.int)))
        }
    } else if shows_float(conv) && magnitude(a.double.bits) >= INFINITY {
        Ok(unbounded_piece(a.double, f, conv == 'E' || conv == 'G'))
    } else if conv == 'f' {
        let body = fixed_text(a.double, six);
        Ok(
            numeric_piece(
                float_sign(a.double, f),
                if f.alt && !body.contains('.') {
                    body.push('.')
                } else {
                    body
                },
            ),
        )
    } else if conv == 's' || conv == 'S' {
        Ok(text_piece(cut_to(cased(shown, conv == 'S'), prec)))
    } else if conv == 'b' || conv == 'B' {
        let word = if bool_of(a.value) {
            "true"@
        } else {
            "false"@
        };
        Ok(text_piece(cut_to(cased(word, conv == 'B'), prec)))
    } else if conv == 'x' {
        Ok(
            numeric_piece(
                if f.alt {
                    "0x"@
                } else {
                    ""@
                },
                digits(pattern_of(a.int, tag), 16),
            ),
        )
    } else if conv == 'X' {
        Ok(
            numeric_piece(
                if f.alt {
                    "0X"@
                } else {
                    ""@
                },
                capitals(digits(pattern_of(a.int, tag), 16)),
            ),
        )
    } else if conv == 'o' {
        Ok(
            numeric_piece(
                if f.alt {
                    "0"@
                } else {
                    ""@
                },
                digits(pattern_of(a.int, tag), 8),
            ),
        )
    } else if conv == 'c' {
        Ok(text_piece(char_piece(a)))
    } else if conv == 'e' || conv == 'E' {
        Ok(
            numeric_piece(
                float_sign(a.double, f),
                cased(unsigned_text(sci_text(a.double, six)), conv == 'E'),
            ),
        )
    } else if conv == 'g' || conv == 'G' {
        let p = if six < 1 {
            1
        } else {
            six
        };
        let body = match general {
            None => sci_text(a.double, p - 1),
            Some(n) => fixed_text(a.double, n),
        };
        Ok(numeric_piece(float_sign(a.double, f), cased(unsigned_text(body), conv == 'G')))
    } else if conv == 'h' || conv == 'H' {
        Ok(text_piece(cut_to(cased(digits(low32(a.hash as int), 16), conv == 'H'), prec)))
    } else {
        Err(
            java_fault(
                "UnknownFormatConversionException"@,
                "Conversion = '"@ + seq![conv] + "'"@,
            ),
        )
    }
}

fn sign_text(neg: bool, f: &FmtFlags) -> (r: String)
    ensures
        r@ == (if neg {
            "-"@
        } else {
            positive_sign(*f)
        }),
{
    own(
        if neg {
            "-"
        } else if f.plus {
            "+"
        } else if f.space {
            " "
        } else {
            ""
        },
    )
}

fn case_text(s: String, upper: bool) -> (r: String)
    ensures
        r@ == cased(s@, upper),
{
    if upper {
        to_upper(s.as_str())
    } else {
        s
    }
}

fn strip_sign(s: &str) -> (r: String)
    ensures
        r@ == unsigned_text(s@),
{
    let v: Vec<char> = chars_of(s);
    if v.len() > 0 && v[0] == '-' {
        let r: String = text_between(&v, 1, v.len());
        assert(r@ =~= s@.skip(1));
        r
    } else {
        own(s)
    }
}

/// One conversion of one argument. `shown` is what `%s` shows; `general` is the
/// number of decimals where `%g` is fixed-point, `None` where it is scientific.
pub fn format_conversion(
    conv: char,
    a: &FmtArg,
    prec: Option<usize>,
    f: &FmtFlags,
    tag: &str,
    shown: String,
    general: Option<usize>,
) -> (r: Result<Rendered, Fault>)
    requires
        plain_is_digits(a@.double),
        prec matches Some(p) ==> p <= 0x7fff_ffff,
    ensures
        match (r, conversion(conv, a@, opt_int(prec), *f, tag@, shown@, opt_int(general))) {
            (Ok(x), Ok(y)) => x@ == y,
            (Err(x), Err(y)) => x@ == y,
            _ => false,
        },
{
    let six: usize = match prec {
        Some(p) => p,
        None => 6,
    };
    if a.value.is_undef() && conv != 'b' && conv != 'B' {
        let p: usize = match prec {
            Some(p) => p,
            None => 4,
        };
        let word: String = cut_text(own("null"), Some(p));
        return Ok(Rendered::text(case_text(word, 'A' <= conv && conv <= 'Z')));
    }
    if conv == 'd' {
        let m: u64 = if a.int < 0 {
            (-(a.int as i128)) as u64
        } else {
            a.int as u64
        };
        return Ok(
            Rendered { prefix: sign_text(a.int < 0, f), body: radix_text(m, 10), numeric: true },
        );
    }
    if (conv == 'f' || conv == 'e' || conv == 'E' || conv == 'g' || conv == 'G') && magnitude_of(
        a.double.bits,
    ) >= INFINITY {
        let prefix: String = if is_nan_bits(a.double.bits) {
            own("")
        } else {
            sign_text(a.double.bits >= SIGN, f)
        };
        let body: String = case_text(unbounded_word(a.double.bits), conv == 'E' || conv == 'G');
        return Ok(Rendered { prefix, body, numeric: false });
    }
    if conv == 'f' {
        let mut body: String = fixed_half_up(&a.double, six);
        let v: Vec<char> = chars_of(body.as_str());
        let pointed: bool = match find_char(&v, '.', 0) {
            Some(i) => {
                assert(v@[i as int] == '.');
                true
            },
            None => false,
        };
        assert(pointed == body@.contains('.'));
        if f.alt && !pointed {
            body.push('.');
        }
        return Ok(
            Rendered { prefix: sign_text(a.double.bits >= SIGN, f), body, numeric: true },
        );
    }
    if conv == 's' || conv == 'S' {
        return Ok(Rendered::text(cut_text(case_text(shown, conv == 'S'), prec)));
    }
    if conv == 'b' || conv == 'B' {
        let word: String = own(
            if java_bool(&a.value) {
                "true"
            } else {
                "false"
            },
        );
        return Ok(Rendered::text(cut_text(case_text(word, conv == 'B'), prec)));
    }
    if conv == 'x' || conv == 'X' || conv == 'o' {
        let bits: u64 = radix_bits(a.int, tag);
        let body: String = if conv == 'o' {
            radix_text(bits, 8)
        } else if conv == 'x' {
            radix_text(bits, 16)
        } else {
            capitalize(radix_text(bits, 16).as_str())
        };
        let prefix: String = own(
            if !f.alt {
                ""
            } else if conv == 'x' {
                "0x"
            } else if conv == 'X' {
                "0X"
            } else {
                "0"
            },
        );
        return Ok(Rendered { prefix, body, numeric: true });
    }
    if conv == 'c' {
        let body: String = match &a.value {
            Value::Int(n) => {
                let mut s: String = String::new();
                match char::from_u32(low_bits(*n)) {
                    Some(c) => {
                        s.push(c);
                        assert(s@ =~= seq![c]);
                    },
                    None => {
                        s.push('\u{fffd}');
                        assert(s@ =~= seq!['\u{fffd}']);
                    },
                }
                s
            },
            _ => own(a.text.as_str()),
        };
        return Ok(Rendered::text(body));
    }
    if conv == 'e' || conv == 'E' {
        let s: String = sci_notation(&a.double, six);
        let body: String = case_text(strip_sign(s.as_str()), conv == 'E');
        return Ok(
            Rendered { prefix: sign_text(a.double.bits >= SIGN, f), body, numeric: true },
        );
    }
    if conv == 'g' || conv == 'G' {
        let p: usize = if six < 1 {
            1
        } else {
            six
        };
        let s: String = match general {
            None => sci_notation(&a.double, p - 1),
            Some(n) => fixed_half_up(&a.double, n),
        };
        let body: String = case_text(strip_sign(s.as_str()), conv == 'G');
        return Ok(
            Rendered { prefix: sign_text(a.double.bits >= SIGN, f), body, numeric: true },
        );
    }
    if conv == 'h' || conv == 'H' {
        let s: String = radix_text(low_bits(a.hash as i64) as u64, 16);
        return Ok(Rendered::text(cut_text(case_text(s, conv == 'H'), prec)));
    }
    let mut m: String = own("Conversion = '");
    let mut c: String = String::new();
    c.push(conv);
    assert(c@ =~= seq![conv]);
    m.append(c.as_str());
    m.append("'");
    Err(Fault::java("UnknownFormatConversionException", m))
}

/// A conversion laid out in `width` columns: spaces on the right with `left`,
/// zeros between the prefix and the body with `zero`, spaces on the left
/// otherwise.
pub open spec fn padded(
    prefix: Seq<char>,
    body: Seq<char>,
    suffix: Seq<char>,
    width: Option<int>,
    left: bool,
    zero: bool,
) -> Seq<char> {
    let joined = prefix + body + suffix;
    match width {
        None => joined,
        Some(w) => {
            let fill = w - joined.len();
            if fill <= 0 {
                joined
            } else if left {
                joined + repeated(" "@, fill)
            } else if zero {
                prefix + repeated("0"@, fill) + body + suffix
            } else {
                repeated(" "@, fill) + prefix + body + suffix
            }
        },
    }
}

/// Lay a conversion out in `width` columns.
pub fn pad(
    prefix: &str,
    body: &str,
    suffix: &str,
    width: Option<usize>,
    left: bool,
    zero: bool,
) -> (r: String)
    ensures
        r@ == padded(prefix@, body@, suffix@, opt_int(width), left, zero),
{
    let mut joined: String = own(prefix);
    joined.append(body);
    joined.append(suffix);
    let w: usize = match width {
        None => {
            return joined;
        },
        Some(w) => w,
    };
    let len: usize = joined.as_str().unicode_len();
    if len >= w {
        return joined;
    }
    let fill: usize = w - len;
    if left {
        joined.append(repeat_text(" ", fill as u64).as_str());
        joined
    } else if zero {
        let mut r: String = own(prefix);
        r.append(repeat_text("0", fill as u64).as_str());
        r.append(body);
        r.append(suffix);
        r
    } else {
        let mut r: String = repeat_text(" ", fill as u64);
        r.append(prefix);
        r.append(body);
        r.append(suffix);
        r
    }
}

/// A padded conversion is as wide as asked, or as long as its pieces.
pub proof fn padding_fills_the_width(
    prefix: Seq<char>,
    body: Seq<char>,
    suffix: Seq<char>,
    w: int,
    left: bool,
    zero: bool,
)
    ensures
        ({
            let natural = prefix.len() + body.len() + suffix.len();
            padded(prefix, body, suffix, Some(w), left, zero).len() == (if natural >= w {
                natural as int
            } else {
                w
            })
        }),
{
    let fill = w - (prefix + body + suffix).len();
    reveal_strlit(" ");
    reveal_strlit("0");
    if fill > 0 {
        lemma_repeated_len(" "@, fill);
        lemma_repeated_len("0"@, fill);
    }
}

// ── Reading a format string ─────────────────────────────────────────────────

pub open spec fn no_flags() -> FmtFlags {
    FmtFlags {
        left: false,
        alt: false,
        plus: false,
        space: false,
        zero: false,
        group: false,
        parens: false,
    }
}

pub open spec fn is_flag(c: char) -> bool {
    c == '-' || c == '0' || c == '+' || c == ',' || c == '(' || c == ' ' || c == '#'
}

/// The flags with one more set.
pub open spec fn with_flag(f: FmtFlags, c: char) -> FmtFlags {
    FmtFlags {
        left: f.left || c == '-',
        alt: f.alt || c == '#',
        plus: f.plus || c == '+',
        space: f.space || c == ' ',
        zero: f.zero || c == '0',
        group: f.group || c == ',',
        parens: f.parens || c == '(',
    }
}

/// The flags a run of flag characters sets.
pub open spec fn flags_of(s: Seq<char>) -> FmtFlags
    decreases s.len(),
{
    if s.len() == 0 {
        no_flags()
    } else {
        with_flag(flags_of(s.drop_last()), s.last())
    }
}

/// The end of the run of flag characters that begins at `i`.
pub open spec fn flags_end(s: Seq<char>, i: int) -> int
    decreases s.len() - i,
{
    if 0 <= i < s.len() && is_flag(s[i]) {
        flags_end(s, i + 1)
    } else {
        i
    }
}

/// What stands between a `%` and its conversion character: an argument index
/// with its `$`, flags, a width, a precision. `end` is where the conversion
/// character is.
pub struct SpecifierV {
    pub index: Option<int>,
    pub flags: FmtFlags,
    pub width: Seq<char>,
    pub prec: Option<Seq<char>>,
    pub end: int,
}

/// What precedes the flags: the argument index, whether a leading `0` is the
/// flag, the digits that begin the width, and where the flags begin. Digits are
/// an argument index, counted from 1, where a `$` follows them.
pub open spec fn specifier_lead(s: Seq<char>, i: int) -> (Option<int>, bool, Seq<char>, int) {
    let a = digits_end(s, i);
    let lead = s.subrange(i, a);
    if a < s.len() && s[a] == '$' {
        let n = number(lead, 10);
        if lead.len() == 0 || n > usize::MAX {
            (None, false, seq![], a + 1)
        } else if n == 0 {
            (Some(0), false, seq![], a + 1)
        } else {
            (Some(n - 1), false, seq![], a + 1)
        }
    } else if lead.len() > 0 && lead[0] == '0' {
        (None, true, lead.skip(1), a)
    } else {
        (None, false, lead, a)
    }
}

/// What a specifier says whose `%` is just before `i`.
pub open spec fn specifier(s: Seq<char>, i: int) -> SpecifierV {
    let (index, zero, rest, b) = specifier_lead(s, i);
    let c = flags_end(s, b);
    let set = flags_of(s.subrange(b, c));
    let d = digits_end(s, c);
    let point = d < s.len() && s[d] == '.';
    let e = if point {
        digits_end(s, d + 1)
    } else {
        d
    };
    SpecifierV {
        index,
        flags: FmtFlags { zero: set.zero || zero, ..set },
        width: rest + s.subrange(c, d),
        prec: if point {
            Some(s.subrange(d + 1, e))
        } else {
            None
        },
        end: e,
    }
}

struct Specifier {
    index: Option<usize>,
    flags: FmtFlags,
    width: Vec<char>,
    prec: Option<Vec<char>>,
    end: usize,
}

proof fn lemma_all_digits_run(s: Seq<char>, i: int)
    requires
        0 <= i <= s.len(),
    ensures
        i <= digits_end(s, i) <= s.len(),
        all_digits(s.subrange(i, digits_end(s, i)), 10),
    decreases s.len() - i,
{
    if i < s.len() && is_dec(s[i]) {
        lemma_all_digits_run(s, i + 1);
        let e = digits_end(s, i);
        let t = s.subrange(i, e);
        let u = s.subrange(i + 1, e);
        assert forall|k: int| 0 <= k < t.len() implies is_digit_in(#[trigger] t[k], 10) by {
            if k > 0 {
                assert(t[k] == u[k - 1]);
            }
        }
    }
}

fn run_of_digits(v: &Vec<char>, from: usize) -> (r: usize)
    requires
        from <= v.len(),
    ensures
        r == digits_end(v@, from as int),
        from <= r <= v.len(),
        all_digits(v@.subrange(from as int, r as int), 10),
{
    let mut i: usize = from;
    while i < v.len() && '0' <= v[i] && v[i] <= '9'
        invariant
            from <= i <= v.len(),
            digits_end(v@, from as int) == digits_end(v@, i as int),
        decreases v.len() - i,
    {
        i += 1;
    }
    proof {
        lemma_all_digits_run(v@, from as int);
    }
    i
}

fn read_lead(v: &Vec<char>, from: usize) -> (r: (Option<usize>, bool, Vec<char>, usize))
    requires
        from <= v.len(),
    ensures
        ({
            let s = specifier_lead(v@, from as int);
            opt_int(r.0) == s.0 && r.1 == s.1 && r.2@ == s.2 && r.3 == s.3
        }),
        from <= r.3 <= v.len(),
{
    let a: usize = run_of_digits(v, from);
    let ghost lead = v@.subrange(from as int, a as int);
    let none: Vec<char> = Vec::new();
    assert(none@ =~= seq![]);
    if a < v.len() && v[a] == '$' {
        return match digits_value(v, from, a, 10, usize::MAX as u64) {
            None => (None, false, none, a + 1),
            Some(0) => (Some(0), false, none, a + 1),
            Some(n) => (Some((n - 1) as usize), false, none, a + 1),
        };
    }
    if a > from && v[from] == '0' {
        assert(lead[0] == v@[from as int]);
        let rest: Vec<char> = part(v, from + 1, a);
        assert(rest@ =~= lead.skip(1));
        return (None, true, rest, a);
    }
    proof {
        if a > from {
            assert(lead[0] == v@[from as int]);
        }
    }
    (None, false, part(v, from, a), a)
}

fn read_flags(v: &Vec<char>, b: usize) -> (r: (FmtFlags, usize))
    requires
        b <= v.len(),
    ensures
        r.1 == flags_end(v@, b as int),
        r.0 == flags_of(v@.subrange(b as int, r.1 as int)),
        b <= r.1 <= v.len(),
{
    let mut f: FmtFlags = FmtFlags {
        left: false,
        alt: false,
        plus: false,
        space: false,
        zero: false,
        group: false,
        parens: false,
    };
    let mut c: usize = b;
    assert(v@.subrange(b as int, b as int) =~= seq![]);
    while c < v.len() && (v[c] == '-' || v[c] == '0' || v[c] == '+' || v[c] == ',' || v[c] == '('
        || v[c] == ' ' || v[c] == '#')
        invariant
            b <= c <= v.len(),
            flags_end(v@, b as int) == flags_end(v@, c as int),
            f == flags_of(v@.subrange(b as int, c as int)),
        decreases v.len() - c,
    {
        let x: char = v[c];
        proof {
            let t = v@.subrange(b as int, c + 1);
            assert(t.drop_last() =~= v@.subrange(b as int, c as int));
            assert(t.last() == x);
        }
        f = FmtFlags {
            left: f.left || x == '-',
            alt: f.alt || x == '#',
            plus: f.plus || x == '+',
            space: f.space || x == ' ',
            zero: f.zero || x == '0',
            group: f.group || x == ',',
            parens: f.parens || x == '(',
        };
        c += 1;
    }
    (f, c)
}

fn read_specifier(v: &Vec<char>, from: usize) -> (r: Specifier)
    requires
        from <= v.len(),
    ensures
        ({
            let s = specifier(v@, from as int);
            &&& opt_int(r.index) == s.index
            &&& r.flags == s.flags
            &&& r.width@ == s.width
            &&& match (r.prec, s.prec) {
                (Some(x), Some(y)) => x@ == y,
                (None, None) => true,
                _ => false,
            }
            &&& r.end == s.end
            &&& from <= r.end <= v.len()
        }),
{
    let (index, zero, rest, b): (Option<usize>, bool, Vec<char>, usize) = read_lead(v, from);
    let (set, c): (FmtFlags, usize) = read_flags(v, b);
    let mut flags: FmtFlags = set;
    flags.zero = set.zero || zero;
    let d: usize = run_of_digits(v, c);
    let mut width: Vec<char> = rest;
    push_chars(&mut width, &part(v, c, d));
    if d < v.len() && v[d] == '.' {
        let e: usize = run_of_digits(v, d + 1);
        Specifier { index, flags, width, prec: Some(part(v, d + 1, e)), end: e }
    } else {
        Specifier { index, flags, width, prec: None, end: d }
    }
}

/// One conversion of one argument, laid out.
pub open spec fn laid_out(p: RenderedV, f: FmtFlags, width: Option<int>) -> Seq<char> {
    let body = if f.group && p.numeric {
        with_groups(p.body)
    } else {
        p.body
    };
    let wrapped = f.parens && p.prefix == "-"@;
    padded(
        if wrapped {
            "("@
        } else {
            p.prefix
        },
        body,
        if wrapped {
            ")"@
        } else {
            ""@
        },
        width,
        f.left,
        f.zero && p.numeric,
    )
}

/// A directive up to its conversion character, its numbers read and its flags
/// found acceptable.
pub struct HeadV {
    pub conv: char,
    pub index: Option<int>,
    pub flags: FmtFlags,
    pub width: Option<int>,
    pub prec: Option<int>,
    pub end: int,
    pub source: Seq<char>,
}

/// The head of the directive whose `%` is at `at`, or its fault.
pub open spec fn directive_head(s: Seq<char>, at: int) -> Result<HeadV, FaultV> {
    let sp = specifier(s, at + 1);
    let prec = match sp.prec {
        Some(d) => field_value(d),
        None => None,
    };
    let width = if sp.width.len() == 0 {
        None
    } else {
        field_value(sp.width)
    };
    if sp.prec is Some && prec is None {
        Err(field_fault("IllegalFormatPrecisionException"@))
    } else if sp.end >= s.len() {
        Err(java_fault("UnknownFormatConversionException"@, "Conversion = '%'"@))
    } else if sp.width.len() > 0 && width is None {
        Err(field_fault("IllegalFormatWidthException"@))
    } else {
        let conv = s[sp.end];
        let source = s.subrange(at, sp.end + 1);
        match flag_fault(conv, sp.flags, width, prec, source) {
            Some(e) => Err(e),
            None => Ok(
                HeadV {
                    conv,
                    index: sp.index,
                    flags: sp.flags,
                    width,
                    prec,
                    end: sp.end,
                    source,
                },
            ),
        }
    }
}

/// The precision `%g` works with.
pub open spec fn general_precision(prec: Option<int>) -> int {
    match prec {
        Some(p) => if p < 1 {
            1
        } else {
            p
        },
        None => 6,
    }
}

/// What a directive shows of an argument.
pub open spec fn argument_text(
    h: HeadV,
    a: ArgV,
    tag: Seq<char>,
    shown: Seq<char>,
    general: Option<int>,
) -> Result<Seq<char>, FaultV> {
    match class_fault(h.conv, a.value, tag) {
        Some(e) => Err(e),
        None => match conversion(h.conv, a, h.prec, h.flags, tag, shown, general) {
            Err(e) => Err(e),
            Ok(piece) => Ok(laid_out(piece, h.flags, h.width)),
        },
    }
}

/// One directive: what it adds, where the format string goes on, and which
/// argument comes next. `show` gives what `%s` shows of each argument, `general`
/// how `%g` lays one out.
pub open spec fn directive(
    s: Seq<char>,
    at: int,
    next: int,
    args: Seq<ArgV>,
    tags: Seq<Seq<char>>,
    show: spec_fn(int) -> Seq<char>,
    general: spec_fn(int, int) -> Option<int>,
) -> Result<(Seq<char>, int, int), FaultV> {
    match directive_head(s, at) {
        Err(e) => Err(e),
        Ok(h) => {
            let idx = match h.index {
                Some(i) => i,
                None => next,
            };
            let tag = if idx < tags.len() {
                tags[idx]
            } else {
                seq![]
            };
            if h.conv == '%' {
                Ok((padded(""@, "%"@, ""@, h.width, h.flags.left, false), h.end + 1, next))
            } else if h.conv == 'n' {
                Ok((seq!['\n'], h.end + 1, next))
            } else if idx >= args.len() {
                Err(
                    java_fault(
                        "MissingFormatArgumentException"@,
                        "Format specifier '"@ + h.source + "'"@,
                    ),
                )
            } else {
                match argument_text(
                    h,
                    args[idx],
                    tag,
                    show(idx),
                    general(idx, general_precision(h.prec)),
                ) {
                    Err(e) => Err(e),
                    Ok(t) => Ok(
                        (
                            t,
                            h.end + 1,
                            if h.index is None {
                                next + 1
                            } else {
                                next
                            },
                        ),
                    ),
                }
            }
        },
    }
}

/// `String.format` from position `i` on, `out` being what came before.
pub open spec fn formatted(
    s: Seq<char>,
    i: int,
    next: int,
    out: Seq<char>,
    args: Seq<ArgV>,
    tags: Seq<Seq<char>>,
    show: spec_fn(int) -> Seq<char>,
    general: spec_fn(int, int) -> Option<int>,
) -> Result<Seq<char>, FaultV>
    decreases s.len() - i,
{
    if i < 0 || i >= s.len() {
        Ok(out)
    } else if s[i] != '%' {
        formatted(s, i + 1, next, out.push(s[i]), args, tags, show, general)
    } else {
        match directive(s, i, next, args, tags, show, general) {
            Err(e) => Err(e),
            Ok((piece, to, after)) => if to <= i {
                Ok(out)
            } else {
                formatted(s, to, after, out + piece, args, tags, show, general)
            },
        }
    }
}

/// Whether every answer of `f` is what `rel` gives.
pub open spec fn shows<F: Fn(usize) -> String>(f: F, rel: spec_fn(int) -> Seq<char>) -> bool {
    forall|k: usize, t: String| call_ensures(f, (k,), t) ==> t@ == rel(k as int)
}

/// Whether every answer of `f` is what `rel` gives.
pub open spec fn lays_out<G: Fn(usize, usize) -> Option<usize>>(
    f: G,
    rel: spec_fn(int, int) -> Option<int>,
) -> bool {
    forall|k: usize, p: usize, t: Option<usize>|
        call_ensures(f, (k, p), t) ==> opt_int(t) == rel(k as int, p as int)
}

/// Which argument the directive at `at` shows, where it shows one that is not
/// `null`.
pub open spec fn argument_at(s: Seq<char>, at: int, next: int, args: Seq<ArgV>) -> Option<
    (HeadV, int),
> {
    match directive_head(s, at) {
        Err(_) => None,
        Ok(h) => {
            let idx = match h.index {
                Some(i) => i,
                None => next,
            };
            if h.conv == '%' || h.conv == 'n' || idx >= args.len() || args[idx].value == Val::Undef {
                None
            } else {
                Some((h, idx))
            }
        },
    }
}

/// Whether what the directive at `at` is answered is an answer of the two
/// functions for its argument, as far as it asks them.
pub open spec fn replied<F: Fn(usize) -> String, G: Fn(usize, usize) -> Option<usize>>(
    show: F,
    general: G,
    s: Seq<char>,
    at: int,
    next: int,
    args: Seq<ArgV>,
    shown: Seq<char>,
    laid: Option<int>,
) -> bool {
    argument_at(s, at, next, args) matches Some((h, idx)) ==> {
        &&& h.conv == 's' || h.conv == 'S' ==> exists|k: usize, t: String| #[trigger]
            call_ensures(show, (k,), t) && k == idx && t@ == shown
        &&& h.conv == 'g' || h.conv == 'G' ==> exists|k: usize, p: usize, d: Option<usize>|
            #[trigger] call_ensures(general, (k, p), d) && k == idx && p == general_precision(
                h.prec,
            ) && opt_int(d) == laid
    }
}

/// Whether `r` is `String.format` from position `i` on, `out` being what came
/// before, where each directive is answered anew.
pub open spec fn builds<F: Fn(usize) -> String, G: Fn(usize, usize) -> Option<usize>>(
    show: F,
    general: G,
    s: Seq<char>,
    i: int,
    next: int,
    out: Seq<char>,
    args: Seq<ArgV>,
    tags: Seq<Seq<char>>,
    r: Result<Seq<char>, FaultV>,
) -> bool
    decreases s.len() - i,
{
    if i < 0 || i >= s.len() {
        r == Ok::<Seq<char>, FaultV>(out)
    } else if s[i] != '%' {
        builds(show, general, s, i + 1, next, out.push(s[i]), args, tags, r)
    } else {
        exists|shown: Seq<char>, laid: Option<int>| #[trigger]
            replied(show, general, s, i, next, args, shown, laid) && match directive(
                s,
                i,
                next,
                args,
                tags,
                |k: int| shown,
                |k: int, p: int| laid,
            ) {
                Err(e) => r == Err::<Seq<char>, FaultV>(e),
                Ok((piece, to, after)) => if to <= i {
                    r == Ok::<Seq<char>, FaultV>(out)
                } else {
                    builds(show, general, s, to, after, out + piece, args, tags, r)
                },
            }
    }
}

/// Where the two functions answer by their arguments alone, so does
/// `String.format`.
pub proof fn fixed_answers_fix_the_text<
    F: Fn(usize) -> String,
    G: Fn(usize, usize) -> Option<usize>,
>(
    show: F,
    general: G,
    s: Seq<char>,
    i: int,
    next: int,
    out: Seq<char>,
    args: Seq<ArgV>,
    tags: Seq<Seq<char>>,
    r: Result<Seq<char>, FaultV>,
    sh: spec_fn(int) -> Seq<char>,
    ge: spec_fn(int, int) -> Option<int>,
)
    requires
        builds(show, general, s, i, next, out, args, tags, r),
        shows(show, sh),
        lays_out(general, ge),
    ensures
        r == formatted(s, i, next, out, args, tags, sh, ge),
    decreases s.len() - i,
{
    if 0 <= i < s.len() {
        if s[i] != '%' {
            fixed_answers_fix_the_text(
                show,
                general,
                s,
                i + 1,
                next,
                out.push(s[i]),
                args,
                tags,
                r,
                sh,
                ge,
            );
        } else {
            let (shown, laid) = choose|shown: Seq<char>, laid: Option<int>| #[trigger]
                replied(show, general, s, i, next, args, shown, laid) && match directive(
                    s,
                    i,
                    next,
                    args,
                    tags,
                    |k: int| shown,
                    |k: int, p: int| laid,
                ) {
                    Err(e) => r == Err::<Seq<char>, FaultV>(e),
                    Ok((piece, to, after)) => if to <= i {
                        r == Ok::<Seq<char>, FaultV>(out)
                    } else {
                        builds(show, general, s, to, after, out + piece, args, tags, r)
                    },
                };
            let d = directive(s, i, next, args, tags, |k: int| shown, |k: int, p: int| laid);
            lemma_directive_replied(show, general, s, i, next, args, tags, shown, laid, sh, ge);
            if let Ok((piece, to, after)) = d {
                if to > i {
                    fixed_answers_fix_the_text(
                        show,
                        general,
                        s,
                        to,
                        after,
                        out + piece,
                        args,
                        tags,
                        r,
                        sh,
                        ge,
                    );
                }
            }
        }
    }
}

proof fn lemma_directive_replied<F: Fn(usize) -> String, G: Fn(usize, usize) -> Option<usize>>(
    show: F,
    general: G,
    s: Seq<char>,
    i: int,
    next: int,
    args: Seq<ArgV>,
    tags: Seq<Seq<char>>,
    shown: Seq<char>,
    laid: Option<int>,
    sh: spec_fn(int) -> Seq<char>,
    ge: spec_fn(int, int) -> Option<int>,
)
    requires
        replied(show, general, s, i, next, args, shown, laid),
        shows(show, sh),
        lays_out(general, ge),
    ensures
        directive(s, i, next, args, tags, |k: int| shown, |k: int, p: int| laid) == directive(
            s,
            i,
            next,
            args,
            tags,
            sh,
            ge,
        ),
{
    if let Ok(h) = directive_head(s, i) {
        let idx = match h.index {
            Some(i) => i,
            None => next,
        };
        let tag = if idx < tags.len() {
            tags[idx]
        } else {
            seq![]
        };
        if h.conv != '%' && h.conv != 'n' && idx < args.len() {
            lemma_unread(
                h,
                args[idx],
                tag,
                shown,
                sh(idx),
                laid,
                ge(idx, general_precision(h.prec)),
            );
        }
    }
}

proof fn lemma_fixed<F: Fn(usize) -> String, G: Fn(usize, usize) -> Option<usize>>(
    show: F,
    general: G,
    s: Seq<char>,
    args: Seq<ArgV>,
    tags: Seq<Seq<char>>,
    r: Result<Seq<char>, FaultV>,
)
    requires
        builds(show, general, s, 0, 0, seq![], args, tags, r),
    ensures
        forall|sh: spec_fn(int) -> Seq<char>, ge: spec_fn(int, int) -> Option<int>|
            #![trigger shows(show, sh), lays_out(general, ge)]
            shows(show, sh) && lays_out(general, ge) ==> r == formatted(
                s,
                0,
                0,
                seq![],
                args,
                tags,
                sh,
                ge,
            ),
{
    assert forall|sh: spec_fn(int) -> Seq<char>, ge: spec_fn(int, int) -> Option<int>|
        #![trigger shows(show, sh), lays_out(general, ge)]
        shows(show, sh) && lays_out(general, ge) implies r == formatted(
        s,
        0,
        0,
        seq![],
        args,
        tags,
        sh,
        ge,
    ) by {
        fixed_answers_fix_the_text(show, general, s, 0, 0, seq![], args, tags, r, sh, ge);
    }
}

struct Head {
    conv: char,
    index: Option<usize>,
    flags: FmtFlags,
    width: Option<usize>,
    prec: Option<usize>,
    end: usize,
    source: String,
}

impl View for Head {
    type V = HeadV;

    closed spec fn view(&self) -> HeadV {
        HeadV {
            conv: self.conv,
            index: opt_int(self.index),
            flags: self.flags,
            width: opt_int(self.width),
            prec: opt_int(self.prec),
            end: self.end as int,
            source: self.source@,
        }
    }
}

fn read_head(v: &Vec<char>, at: usize) -> (r: Result<Head, Fault>)
    requires
        at < v.len(),
    ensures
        match (r, directive_head(v@, at as int)) {
            (Ok(x), Ok(y)) => x@ == y && at < x.end < v.len() && (x.prec matches Some(p) ==> p
                <= 0x7fff_ffff),
            (Err(x), Err(y)) => x@ == y,
            _ => false,
        },
{
    let sp: Specifier = read_specifier(v, at + 1);
    let prec: Option<usize> = match &sp.prec {
        Some(d) => match int_format_field(d, "IllegalFormatPrecisionException") {
            Ok(n) => Some(n),
            Err(f) => {
                return Err(f);
            },
        },
        None => None,
    };
    if sp.end >= v.len() {
        return Err(Fault::java("UnknownFormatConversionException", own("Conversion = '%'")));
    }
    let conv: char = v[sp.end];
    let width: Option<usize> = if sp.width.len() == 0 {
        None
    } else {
        match int_format_field(&sp.width, "IllegalFormatWidthException") {
            Ok(n) => Some(n),
            Err(f) => {
                return Err(f);
            },
        }
    };
    let source: String = text_between(v, at, sp.end + 1);
    match check_format_flags(conv, &sp.flags, width, prec, source.as_str()) {
        Err(f) => Err(f),
        Ok(_) => Ok(
            Head { conv, index: sp.index, flags: sp.flags, width, prec, end: sp.end, source },
        ),
    }
}

/// What a directive shows of an argument.
fn show_argument(h: &Head, a: &FmtArg, tag: &str, shown: String, general: Option<usize>) -> (r:
    Result<String, Fault>)
    requires
        plain_is_digits(a@.double),
        h.prec matches Some(p) ==> p <= 0x7fff_ffff,
    ensures
        match (r, argument_text(h@, a@, tag@, shown@, opt_int(general))) {
            (Ok(x), Ok(y)) => x@ == y,
            (Err(x), Err(y)) => x@ == y,
            _ => false,
        },
{
    if let Err(f) = check_conversion(h.conv, &a.value, tag) {
        return Err(f);
    }
    let piece: Rendered = match format_conversion(
        h.conv,
        a,
        h.prec,
        &h.flags,
        tag,
        shown,
        general,
    ) {
        Ok(x) => x,
        Err(f) => {
            return Err(f);
        },
    };
    let body: String = if h.flags.group && piece.numeric {
        group_digits(piece.body.as_str())
    } else {
        piece.body
    };
    let wrapped: bool = h.flags.parens && same(piece.prefix.as_str(), "-");
    let prefix: String = if wrapped {
        own("(")
    } else {
        piece.prefix
    };
    let suffix: &str = if wrapped {
        ")"
    } else {
        ""
    };
    Ok(
        pad(
            prefix.as_str(),
            body.as_str(),
            suffix,
            h.width,
            h.flags.left,
            h.flags.zero && piece.numeric,
        ),
    )
}

proof fn lemma_unread(
    h: HeadV,
    a: ArgV,
    tag: Seq<char>,
    s1: Seq<char>,
    s2: Seq<char>,
    g1: Option<int>,
    g2: Option<int>,
)
    requires
        a.value == Val::Undef || (h.conv != 's' && h.conv != 'S') || s1 == s2,
        a.value == Val::Undef || (h.conv != 'g' && h.conv != 'G') || g1 == g2,
    ensures
        argument_text(h, a, tag, s1, g1) == argument_text(h, a, tag, s2, g2),
{
}

/// One directive of `String.format`.
#[verifier::rlimit(60)]
fn run_directive<F: Fn(usize) -> String, G: Fn(usize, usize) -> Option<usize>>(
    v: &Vec<char>,
    at: usize,
    next: usize,
    args: &Vec<FmtArg>,
    tags: &Vec<String>,
    show: &F,
    general: &G,
) -> (r: Result<(String, usize, usize), Fault>)
    requires
        at < v.len(),
        next <= args.len(),
        forall|i: int| 0 <= i < args.len() ==> plain_is_digits((#[trigger] args@[i])@.double),
        forall|k: usize| call_requires(*show, (k,)),
        forall|k: usize, p: usize| call_requires(*general, (k, p)),
    ensures
        exists|shown: Seq<char>, laid: Option<int>| #[trigger]
            replied(
                *show,
                *general,
                v@,
                at as int,
                next as int,
                arg_views(args@),
                shown,
                laid,
            ) && match (
                r,
                directive(
                    v@,
                    at as int,
                    next as int,
                    arg_views(args@),
                    views(tags@),
                    |k: int| shown,
                    |k: int, p: int| laid,
                ),
            ) {
                (Ok(x), Ok(y)) => x.0@ == y.0 && x.1 == y.1 && x.2 == y.2,
                (Err(x), Err(y)) => x@ == y,
                _ => false,
            },
        r matches Ok(x) ==> at < x.1 <= v.len() && x.2 <= args.len(),
{
    let h: Head = match read_head(v, at) {
        Ok(h) => h,
        Err(f) => {
            assert(replied(*show, *general, v@, at as int, next as int, arg_views(args@), seq![], None));
            return Err(f);
        },
    };
    if h.conv == '%' {
        assert(replied(*show, *general, v@, at as int, next as int, arg_views(args@), seq![], None));
        return Ok((pad("", "%", "", h.width, h.flags.left, false), h.end + 1, next));
    }
    if h.conv == 'n' {
        assert(replied(*show, *general, v@, at as int, next as int, arg_views(args@), seq![], None));
        let mut nl: String = String::new();
        nl.push('\n');
        assert(nl@ =~= seq!['\n']);
        return Ok((nl, h.end + 1, next));
    }
    let idx: usize = match h.index {
        Some(i) => i,
        None => next,
    };
    if idx >= args.len() {
        assert(replied(*show, *general, v@, at as int, next as int, arg_views(args@), seq![], None));
        let mut m: String = own("Format specifier '");
        m.append(h.source.as_str());
        m.append("'");
        return Err(Fault::java("MissingFormatArgumentException", m));
    }
    let empty: String = String::new();
    let tag: &str = if idx < tags.len() {
        tags[idx].as_str()
    } else {
        empty.as_str()
    };
    let ghost tag_v = if idx < views(tags@).len() {
        views(tags@)[idx as int]
    } else {
        seq![]
    };
    assert(tag@ =~= tag_v);
    let arg: &FmtArg = &args[idx];
    assert(arg_views(args@)[idx as int] == arg@);
    let blank: bool = arg.value.is_undef();
    let shown: String = if (h.conv == 's' || h.conv == 'S') && !blank {
        show(idx)
    } else {
        String::new()
    };
    let p: usize = match h.prec {
        Some(p) => if p < 1 {
            1
        } else {
            p
        },
        None => 6,
    };
    let decimals: Option<usize> = if (h.conv == 'g' || h.conv == 'G') && !blank {
        general(idx, p)
    } else {
        None
    };
    let ghost shown_v = shown@;
    let out: Result<String, Fault> = show_argument(&h, arg, tag, shown, decimals);
    assert(replied(
        *show,
        *general,
        v@,
        at as int,
        next as int,
        arg_views(args@),
        shown_v,
        opt_int(decimals),
    ));
    match out {
        Err(f) => Err(f),
        Ok(t) => {
            let after: usize = if h.index.is_none() {
                next + 1
            } else {
                next
            };
            Ok((t, h.end + 1, after))
        },
    }
}

/// `String.format`. `tags` are the declared types of the arguments, empty where
/// unknown; `show` gives what `%s` shows of an argument, and `general` the
/// number of decimals where `%g` is fixed-point, `None` where it is scientific.
/// Neither is asked about an argument no conversion needs it for, and each
/// conversion that needs an answer asks for one of its own.
pub fn java_format<F: Fn(usize) -> String, G: Fn(usize, usize) -> Option<usize>>(
    fmt: &str,
    args: &Vec<FmtArg>,
    tags: &Vec<String>,
    show: F,
    general: G,
) -> (r: Result<String, Fault>)
    requires
        forall|i: int| 0 <= i < args.len() ==> plain_is_digits((#[trigger] args@[i])@.double),
        forall|k: usize| call_requires(show, (k,)),
        forall|k: usize, p: usize| call_requires(general, (k, p)),
    ensures
        forall|sh: spec_fn(int) -> Seq<char>, ge: spec_fn(int, int) -> Option<int>|
            #![trigger shows(show, sh), lays_out(general, ge)]
            shows(show, sh) && lays_out(general, ge) ==> match (
                r,
                formatted(fmt@, 0, 0, seq![], arg_views(args@), views(tags@), sh, ge),
            ) {
                (Ok(x), Ok(y)) => x@ == y,
                (Err(x), Err(y)) => x@ == y,
                _ => false,
            },
        builds(
            show,
            general,
            fmt@,
            0,
            0,
            seq![],
            arg_views(args@),
            views(tags@),
            match r {
                Ok(x) => Ok(x@),
                Err(e) => Err(e@),
            },
        ),
{
    let v: Vec<char> = chars_of(fmt);
    let mut out: String = String::new();
    let mut i: usize = 0;
    let mut next: usize = 0;
    while i < v.len()
        invariant
            i <= v.len(),
            v@ == fmt@,
            next <= args.len(),
            forall|i: int| 0 <= i < args.len() ==> plain_is_digits((#[trigger] args@[i])@.double),
            forall|k: usize| call_requires(show, (k,)),
            forall|k: usize, p: usize| call_requires(general, (k, p)),
            forall|q: Result<Seq<char>, FaultV>|
                builds(
                    show,
                    general,
                    fmt@,
                    i as int,
                    next as int,
                    out@,
                    arg_views(args@),
                    views(tags@),
                    q,
                ) ==> #[trigger] builds(
                    show,
                    general,
                    fmt@,
                    0,
                    0,
                    seq![],
                    arg_views(args@),
                    views(tags@),
                    q,
                ),
        decreases v.len() - i,
    {
        if v[i] != '%' {
            out.push(v[i]);
            i += 1;
            continue ;
        }
        match run_directive(&v, i, next, args, tags, &show, &general) {
            Err(f) => {
                proof {
                    lemma_fixed(show, general, fmt@, arg_views(args@), views(tags@), Err(f@));
                }
                return Err(f);
            },
            Ok((piece, to, after)) => {
                out.append(piece.as_str());
                i = to;
                next = after;
            },
        }
    }
    proof {
        lemma_fixed(show, general, fmt@, arg_views(args@), views(tags@), Ok(out@));
    }
    Ok(out)
}

} // verus!
