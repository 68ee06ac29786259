//! `java.lang.Character`.
use vstd::prelude::*;

use crate::host::{Host, HostV, opt_val};
use crate::host::boxes::{bare, deboxed};
use crate::host::render::{low32, low_bits, scalar};
use crate::host::strings::{java_blank, java_is_whitespace, lower_char, lower_chars};
use crate::text::{chars_of, code_of, digit_of, digit_value, same};
use crate::value::{Val, Value, plain, plain_text};

verus! {

/// Whether a character is alphabetic, by the tables of Unicode.
pub uninterp spec fn alphabetic(c: char) -> bool;

/// `char::is_alphabetic`, which depends on the character alone.
#[verifier::external_body]
fn is_alphabetic(c: char) -> (r: bool)
    ensures
        r == alphabetic(c),
{
    c.is_alphabetic()
}

/// Whether a character is alphabetic or numeric, by the tables of Unicode.
pub uninterp spec fn alphanumeric(c: char) -> bool;

/// `char::is_alphanumeric`, which depends on the character alone.
#[verifier::external_body]
fn is_alphanumeric(c: char) -> (r: bool)
    ensures
        r == alphanumeric(c),
{
    c.is_alphanumeric()
}

/// Whether a character is in upper case, by the tables of Unicode.
pub uninterp spec fn uppercase(c: char) -> bool;

/// `char::is_uppercase`, which depends on the character alone.
#[verifier::external_body]
fn is_uppercase(c: char) -> (r: bool)
    ensures
        r == uppercase(c),
{
    c.is_uppercase()
}

/// Whether a character is in lower case, by the tables of Unicode.
pub uninterp spec fn lowercase(c: char) -> bool;

/// `char::is_lowercase`, which depends on the character alone.
#[verifier::external_body]
pub(crate) fn is_lowercase(c: char) -> (r: bool)
    ensures
        r == lowercase(c),
{
    c.is_lowercase()
}

/// The upper case of a character, by the rules of Unicode.
pub uninterp spec fn upper_char(c: char) -> Seq<char>;

/// `char::to_uppercase`: the upper case of a character, which may be several.
/// It depends on the character alone.
#[verifier::external_body]
fn upper_chars(c: char) -> (r: Vec<char>)
    ensures
        r@ == upper_char(c),
{
    c.to_uppercase().collect()
}

/// The character an argument names: a number is a code point, anything else is
/// its first character. What names none is NUL.
pub open spec fn char_named(h: HostV, v: Val) -> char {
    match bare(h, v) {
        Val::Int(n) => match scalar(low32(n as int)) {
            Some(c) => c,
            None => '\0',
        },
        other => if plain(other).len() > 0 {
            plain(other)[0]
        } else {
            '\0'
        },
    }
}

/// The character an argument names.
pub fn char_arg(host: &Host, v: &Value) -> (r: char)
    ensures
        r == char_named(host@, v@),
{
    let b: Value = deboxed(host, v);
    match &b {
        Value::Int(n) => match char::from_u32(low_bits(*n)) {
            Some(c) => c,
            None => '\0',
        },
        other => {
            let t: Vec<char> = chars_of(plain_text(other).as_str());
            if t.len() > 0 {
                t[0]
            } else {
                '\0'
            }
        },
    }
}

/// A case mapping that gives one character; a character whose mapping gives
/// more is itself.
pub open spec fn one_for_one(c: char, mapped: Seq<char>) -> int {
    if mapped.len() == 1 {
        mapped[0] as int
    } else {
        c as int
    }
}

/// A case mapping that gives one character.
pub fn one_to_one_case(c: char, mapped: &Vec<char>) -> (r: i64)
    ensures
        r == one_for_one(c, mapped@),
{
    if mapped.len() == 1 {
        code_of(mapped[0]) as i64
    } else {
        code_of(c) as i64
    }
}

/// `Character.method(c)`.
pub open spec fn character_call(method: Seq<char>, c: char) -> Option<Val> {
    if method == "isDigit"@ {
        Some(Val::Bool('0' <= c <= '9'))
    } else if method == "isLetter"@ {
        Some(Val::Bool(alphabetic(c)))
    } else if method == "isLetterOrDigit"@ {
        Some(Val::Bool(alphanumeric(c)))
    } else if method == "isWhitespace"@ {
        Some(Val::Bool(java_blank(c)))
    } else if method == "isUpperCase"@ {
        Some(Val::Bool(uppercase(c)))
    } else if method == "isLowerCase"@ {
        Some(Val::Bool(lowercase(c)))
    } else if method == "toUpperCase"@ {
        Some(Val::Int(one_for_one(c, upper_char(c)) as i64))
    } else if method == "toLowerCase"@ {
        Some(Val::Int(one_for_one(c, lower_char(c)) as i64))
    } else if method == "toString"@ {
        Some(Val::Str(seq![c]))
    } else if method == "getNumericValue"@ {
        Some(Val::Int(digit_value(c) as i64))
    } else if method == "hashCode"@ {
        Some(Val::Int((c as int) as i64))
    } else {
        None
    }
}

fn one_char_text(c: char) -> (r: String)
    ensures
        r@ == seq![c],
{
    let mut s: String = String::new();
    s.push(c);
    assert(s@ =~= seq![c]);
    s
}

/// Evaluate `Character.method(c)`; `None` for a method that is not one.
pub fn character_method(method: &str, c: char) -> (r: Option<Value>)
    ensures
        opt_val(r) == character_call(method@, c),
{
    if same(method, "isDigit") {
        Some(Value::Bool('0' <= c && c <= '9'))
    } else if same(method, "isLetter") {
        Some(Value::Bool(is_alphabetic(c)))
    } else if same(method, "isLetterOrDigit") {
        Some(Value::Bool(is_alphanumeric(c)))
    } else if same(method, "isWhitespace") {
        Some(Value::Bool(java_is_whitespace(c)))
    } else if same(method, "isUpperCase") {
        Some(Value::Bool(is_uppercase(c)))
    } else if same(method, "isLowerCase") {
        Some(Value::Bool(is_lowercase(c)))
    } else if same(method, "toUpperCase") {
        Some(Value::Int(one_to_one_case(c, &upper_chars(c))))
    } else if same(method, "toLowerCase") {
        Some(Value::Int(one_to_one_case(c, &lower_chars(c))))
    } else if same(method, "toString") {
        Some(Value::Str(one_char_text(c)))
    } else if same(method, "getNumericValue") {
        match digit_of(c, 36) {
            Some(d) => Some(Value::Int(d as i64)),
            None => Some(Value::Int(-1)),
        }
    } else if same(method, "hashCode") {
        Some(Value::Int(code_of(c) as i64))
    } else {
        None
    }
}

} // verus!
