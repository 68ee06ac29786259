//! `java.lang.String` methods.
//!
//! Positions and lengths are in Unicode scalars: exact for the basic plane, and
//! one where Java counts two for a character outside it.
use vstd::prelude::*;

use crate::host::{Host, HostObj, HostV, ObjV};
use crate::host::boxes::{jint, jint_of};
use crate::host::classes::{simple_class_name, simple_name};
use crate::host::decimal::{java_trim, trim_bounds};
use crate::host::format::{to_upper, upper_text};
use crate::host::order::{string_hash, text_hash};
use crate::regex::{
    built, captured_by, compile, compile_whole, engine_matches, engine_names, found_by, replaced,
    split_text,
};
use crate::text::{
    begins, begins_with, chars_of, code_of, dec, ends, ends_with, find_back, find_from,
    index_from, int_text, last_index_to, occurs_at, own, push_chars, repeat_text, repeated, same,
    size_text, stands_at, text_between, text_of, views,
};
use crate::value::{Fault, FaultV, Val, Value, internal_fault, java_fault, plain, plain_text, vals};

verus! {

/// What a method answers with: a value, a new object to be put on the heap, or
/// the receiver as a format string for the arguments.
pub enum Answer {
    Value(Value),
    Alloc(HostObj),
    Format,
}

pub enum AnswerV {
    Value(Val),
    Alloc(ObjV),
    Format,
}

impl View for Answer {
    type V = AnswerV;

    open spec fn view(&self) -> AnswerV {
        match self {
            Answer::Value(v) => AnswerV::Value(v@),
            Answer::Alloc(o) => AnswerV::Alloc(o@),
            Answer::Format => AnswerV::Format,
        }
    }
}

/// Whether `r` is the answer or the fault `s`.
pub open spec fn answers(r: Result<Answer, Fault>, s: Result<AnswerV, FaultV>) -> bool {
    match (r, s) {
        (Ok(x), Ok(y)) => x@ == y,
        (Err(x), Err(y)) => x@ == y,
        _ => false,
    }
}

/// Whether `r` is `s`, both possibly absent.
pub open spec fn answers_opt(
    r: Option<Result<Answer, Fault>>,
    s: Option<Result<AnswerV, FaultV>>,
) -> bool {
    match (r, s) {
        (Some(x), Some(y)) => answers(x, y),
        (None, None) => true,
        _ => false,
    }
}

pub open spec fn int_answer(n: int) -> Result<AnswerV, FaultV> {
    Ok(AnswerV::Value(Val::Int(n as i64)))
}

pub open spec fn bool_answer(b: bool) -> Result<AnswerV, FaultV> {
    Ok(AnswerV::Value(Val::Bool(b)))
}

pub open spec fn text_answer(s: Seq<char>) -> Result<AnswerV, FaultV> {
    Ok(AnswerV::Value(Val::Str(s)))
}

fn answer_int(n: i64) -> (r: Result<Answer, Fault>)
    ensures
        answers(r, Ok(AnswerV::Value(Val::Int(n)))),
{
    Ok(Answer::Value(Value::Int(n)))
}

fn answer_bool(b: bool) -> (r: Result<Answer, Fault>)
    ensures
        answers(r, bool_answer(b)),
{
    Ok(Answer::Value(Value::Bool(b)))
}

fn answer_text(s: String) -> (r: Result<Answer, Fault>)
    ensures
        answers(r, text_answer(s@)),
{
    Ok(Answer::Value(Value::Str(s)))
}

// ── Characters ──────────────────────────────────────────────────────────────

/// `Character.isWhitespace`: the space separators but for the non-breaking
/// ones, the line and paragraph separators, and nine ASCII controls.
pub open spec fn java_blank(c: char) -> bool {
    let n = c as int;
    ||| 0x09 <= n <= 0x0d
    ||| 0x1c <= n <= 0x20
    ||| n == 0x1680
    ||| 0x2000 <= n <= 0x2006
    ||| 0x2008 <= n <= 0x200a
    ||| n == 0x205f
    ||| n == 0x3000
    ||| n == 0x2028
    ||| n == 0x2029
}

/// `Character.isWhitespace`.
pub fn java_is_whitespace(c: char) -> (r: bool)
    ensures
        r == java_blank(c),
{
    let n: u32 = code_of(c);
    (0x09 <= n && n <= 0x0d) || (0x1c <= n && n <= 0x20) || n == 0x1680 || (0x2000 <= n && n
        <= 0x2006) || (0x2008 <= n && n <= 0x200a) || n == 0x205f || n == 0x3000 || n == 0x2028
        || n == 0x2029
}

/// The lower case of a character, by the rules of Unicode.
pub uninterp spec fn lower_char(c: char) -> Seq<char>;

/// `char::to_lowercase`: the lower case of a character, which may be several.
/// It depends on the character alone.
#[verifier::external_body]
pub(crate) fn lower_chars(c: char) -> (r: Vec<char>)
    ensures
        r@ == lower_char(c),
{
    c.to_lowercase().collect()
}

/// A text in lower case, by the rules of Unicode.
pub uninterp spec fn lower_text(s: Seq<char>) -> Seq<char>;

/// `str::to_lowercase`: the lower-case text, a function of the characters alone.
#[verifier::external_body]
fn to_lower(s: &str) -> (r: String)
    ensures
        r@ == lower_text(s@),
{
    s.to_lowercase()
}

/// Every character of a text in lower case.
pub open spec fn lower_each(s: Seq<char>) -> Seq<char>
    decreases s.len(),
{
    if s.len() == 0 {
        seq![]
    } else {
        lower_each(s.drop_last()) + lower_char(s.last())
    }
}

fn fold_each(v: &Vec<char>) -> (r: Vec<char>)
    ensures
        r@ == lower_each(v@),
{
    let mut r: Vec<char> = Vec::new();
    let mut i: usize = 0;
    assert(v@.take(0) =~= seq![]);
    while i < v.len()
        invariant
            i <= v.len(),
            r@ == lower_each(v@.take(i as int)),
        decreases v.len() - i,
    {
        proof {
            let t = v@.take(i + 1);
            assert(t.drop_last() =~= v@.take(i as int));
            assert(t.last() == v@[i as int]);
        }
        push_chars(&mut r, &lower_chars(v[i]));
        i += 1;
    }
    assert(v@.take(v.len() as int) =~= v@);
    r
}

/// The difference of the first differing characters, else of the lengths.
pub open spec fn first_difference(a: Seq<char>, b: Seq<char>, i: int) -> int
    decreases a.len() - i,
{
    if i < 0 || i >= a.len() || i >= b.len() {
        a.len() - b.len()
    } else if a[i] != b[i] {
        a[i] as int - b[i] as int
    } else {
        first_difference(a, b, i + 1)
    }
}

/// `String.compareTo`, and `compareToIgnoreCase` where case is folded.
pub open spec fn compared(a: Seq<char>, b: Seq<char>, fold: bool) -> int {
    if fold {
        first_difference(lower_each(a), lower_each(b), 0)
    } else {
        first_difference(a, b, 0)
    }
}

fn difference(x: &Vec<char>, y: &Vec<char>) -> (r: i64)
    ensures
        r == first_difference(x@, y@, 0) as i64,
{
    let mut i: usize = 0;
    while i < x.len() && i < y.len()
        invariant
            i <= x.len(),
            i <= y.len(),
            first_difference(x@, y@, 0) == first_difference(x@, y@, i as int),
        decreases x.len() - i,
    {
        if x[i] != y[i] {
            let d: i64 = code_of(x[i]) as i64 - code_of(y[i]) as i64;
            return d;
        }
        i += 1;
    }
    (x.len() as i128 - y.len() as i128) as i64
}

/// `String.compareTo`, and `compareToIgnoreCase` where case is folded.
pub fn compare_strings(a: &str, b: &str, fold_case: bool) -> (r: i64)
    ensures
        r == compared(a@, b@, fold_case) as i64,
{
    let x: Vec<char> = chars_of(a);
    let y: Vec<char> = chars_of(b);
    if fold_case {
        difference(&fold_each(&x), &fold_each(&y))
    } else {
        difference(&x, &y)
    }
}

// ── Bounds ──────────────────────────────────────────────────────────────────

/// The message of a single index out of bounds.
pub open spec fn index_message(i: int, len: int) -> Seq<char> {
    "Index "@ + dec(i) + " out of bounds for length "@ + dec(len)
}

/// The message of a range out of bounds.
pub open spec fn range_message(start: int, end: int, len: int) -> Seq<char> {
    "Range ["@ + dec(start) + ", "@ + dec(end) + ") out of bounds for length "@ + dec(len)
}

pub fn index_text(i: i64, len: usize) -> (r: String)
    ensures
        r@ == index_message(i as int, len as int),
{
    let mut m: String = own("Index ");
    m.append(int_text(i).as_str());
    m.append(" out of bounds for length ");
    m.append(size_text(len).as_str());
    m
}

pub fn range_text(start: i64, end: i64, len: usize) -> (r: String)
    ensures
        r@ == range_message(start as int, end as int, len as int),
{
    let mut m: String = own("Range [");
    m.append(int_text(start).as_str());
    m.append(", ");
    m.append(int_text(end).as_str());
    m.append(") out of bounds for length ");
    m.append(size_text(len).as_str());
    m
}

/// The fault of an index into a string or builder.
pub open spec fn string_index_fault(i: int, len: int) -> FaultV {
    java_fault("StringIndexOutOfBoundsException"@, index_message(i, len))
}

/// The fault of a range of a string or builder.
pub open spec fn string_range_fault(start: int, end: int, len: int) -> FaultV {
    java_fault("StringIndexOutOfBoundsException"@, range_message(start, end, len))
}

/// The fault of an index into a string or builder.
pub fn sb_index_fault(i: i64, len: usize) -> (r: Fault)
    ensures
        r@ == string_index_fault(i as int, len as int),
{
    Fault::java("StringIndexOutOfBoundsException", index_text(i, len))
}

/// The fault of a range of a string or builder.
pub fn sb_range_fault(start: i64, end: i64, len: usize) -> (r: Fault)
    ensures
        r@ == string_range_fault(start as int, end as int, len as int),
{
    Fault::java("StringIndexOutOfBoundsException", range_text(start, end, len))
}

/// The character at an index, or the fault.
pub open spec fn char_result(s: Seq<char>, i: int) -> Result<AnswerV, FaultV> {
    if 0 <= i < s.len() {
        int_answer(s[i] as int)
    } else {
        Err(string_index_fault(i, s.len() as int))
    }
}

/// `String.charAt`: the code point at an index.
pub fn char_at(v: &Vec<char>, i: i64) -> (r: Result<Answer, Fault>)
    ensures
        answers(r, char_result(v@, i as int)),
{
    if 0 <= i && (i as u64) < v.len() as u64 {
        answer_int(code_of(v[i as usize]) as i64)
    } else {
        Err(sb_index_fault(i, v.len()))
    }
}

/// `String.substring`: what stands in `[begin, end)`, or the fault.
pub open spec fn substring_result(s: Seq<char>, begin: int, end: int) -> Result<AnswerV, FaultV> {
    if 0 <= begin <= end <= s.len() {
        text_answer(s.subrange(begin, end))
    } else {
        Err(string_range_fault(begin, end, s.len() as int))
    }
}

/// `String.substring`.
pub fn substring(v: &Vec<char>, begin: i64, end: i64) -> (r: Result<Answer, Fault>)
    ensures
        answers(r, substring_result(v@, begin as int, end as int)),
{
    if begin < 0 || end as i128 > v.len() as i128 || begin > end {
        return Err(sb_range_fault(begin, end, v.len()));
    }
    answer_text(text_between(v, begin as usize, end as usize))
}

/// `n` brought into `0..=len`.
pub open spec fn clamped(n: int, len: int) -> int {
    if n < 0 {
        0
    } else if n > len {
        len
    } else {
        n
    }
}

fn clamp_index(n: i64, len: usize) -> (r: usize)
    ensures
        r == clamped(n as int, len as int),
        r <= len,
{
    if n < 0 {
        0
    } else if n as u128 > len as u128 {
        len
    } else {
        n as usize
    }
}

/// `indexOf` from a position that is first brought into the text.
pub fn char_index_of(v: &Vec<char>, needle: &Vec<char>, from: i64) -> (r: i64)
    ensures
        r == index_from(v@, needle@, clamped(from as int, v@.len() as int)) as i64,
{
    match find_from(v, needle, clamp_index(from, v.len())) {
        Some(i) => i as i64,
        None => -1,
    }
}

/// The last place a needle can start at or before `from`; negative when there
/// is none.
pub open spec fn last_start(hay: Seq<char>, needle: Seq<char>, from: int) -> int {
    if from < hay.len() - needle.len() {
        from
    } else {
        hay.len() - needle.len()
    }
}

/// `lastIndexOf`: the position is brought down to the last place the needle can
/// start, and only then rejected for being negative.
pub open spec fn last_index(hay: Seq<char>, needle: Seq<char>, from: int) -> int {
    let start = last_start(hay, needle, from);
    if start < 0 {
        -1
    } else {
        last_index_to(hay, needle, start)
    }
}

/// `lastIndexOf`.
pub fn char_last_index_of(v: &Vec<char>, needle: &Vec<char>, from: i64) -> (r: i64)
    ensures
        r == last_index(v@, needle@, from as int) as i64,
{
    let room: i128 = v.len() as i128 - needle.len() as i128;
    let start: i128 = if (from as i128) < room {
        from as i128
    } else {
        room
    };
    if start < 0 {
        return -1;
    }
    if start as u128 >= usize::MAX as u128 {
        proof {
            assert(needle@.len() == 0);
            assert(v@.subrange(start as int, start as int) =~= needle@);
            assert(occurs_at(v@, needle@, start as int));
        }
        return start as i64;
    }
    match find_back(v, needle, start as usize) {
        Some(i) => i as i64,
        None => -1,
    }
}

// ── Trimming ────────────────────────────────────────────────────────────────

/// How many characters of whitespace a text begins with.
pub open spec fn strip_lead(s: Seq<char>) -> int
    decreases s.len(),
{
    if s.len() > 0 && java_blank(s[0]) {
        1 + strip_lead(s.skip(1))
    } else {
        0
    }
}

/// How many characters of whitespace a text ends with.
pub open spec fn strip_trail(s: Seq<char>) -> int
    decreases s.len(),
{
    if s.len() > 0 && java_blank(s.last()) {
        1 + strip_trail(s.drop_last())
    } else {
        0
    }
}

/// `String.strip`, `stripLeading` and `stripTrailing`.
pub open spec fn stripped(s: Seq<char>, front: bool, back: bool) -> Seq<char> {
    let t = if front {
        s.skip(strip_lead(s))
    } else {
        s
    };
    if back {
        t.take(t.len() - strip_trail(t))
    } else {
        t
    }
}

fn strip_chars(v: &Vec<char>, front: bool, back: bool) -> (r: String)
    ensures
        r@ == stripped(v@, front, back),
{
    let mut a: usize = 0;
    assert(v@.skip(0) =~= v@);
    if front {
        while a < v.len() && java_is_whitespace(v[a])
            invariant
                a <= v.len(),
                strip_lead(v@) == a + strip_lead(v@.skip(a as int)),
            decreases v.len() - a,
        {
            assert(v@.skip(a as int).skip(1) =~= v@.skip(a + 1));
            assert(v@.skip(a as int)[0] == v@[a as int]);
            a += 1;
        }
        proof {
            if a < v.len() {
                assert(v@.skip(a as int)[0] == v@[a as int]);
            }
            assert(strip_lead(v@) == a);
        }
    }
    let ghost t = v@.skip(a as int);
    let mut b: usize = v.len();
    assert(t.take(b - a) =~= t);
    if back {
        while b > a && java_is_whitespace(v[b - 1])
            invariant
                a <= b <= v.len(),
                t == v@.skip(a as int),
                strip_trail(t) == (v.len() - b) + strip_trail(t.take(b - a)),
            decreases b,
        {
            assert(t.take(b - a).drop_last() =~= t.take(b - a - 1));
            assert(t.take(b - a).last() == v@[b - 1]);
            b -= 1;
        }
        proof {
            if b > a {
                assert(t.take(b - a).last() == v@[b - 1]);
            }
            assert(strip_trail(t) == v.len() - b);
        }
    }
    let r: String = text_between(v, a, b);
    assert(r@ =~= stripped(v@, front, back));
    r
}

/// Whether a text is all whitespace.
pub open spec fn all_blank(s: Seq<char>) -> bool {
    forall|i: int| 0 <= i < s.len() ==> java_blank(#[trigger] s[i])
}

fn is_all_blank(v: &Vec<char>) -> (r: bool)
    ensures
        r == all_blank(v@),
{
    let mut i: usize = 0;
    while i < v.len()
        invariant
            i <= v.len(),
            forall|k: int| 0 <= k < i ==> java_blank(#[trigger] v@[k]),
        decreases v.len() - i,
    {
        if !java_is_whitespace(v[i]) {
            assert(!java_blank(v@[i as int]));
            return false;
        }
        i += 1;
    }
    true
}

/// `String.trim`.
fn trim_chars(v: &Vec<char>) -> (r: String)
    ensures
        r@ == java_trim(v@),
{
    let (a, b): (usize, usize) = trim_bounds(v);
    text_between(v, a, b)
}

// ── Replacing ───────────────────────────────────────────────────────────────

/// Every occurrence of `from` replaced, left to right without overlap. An empty
/// `from` stands before every character and at the end.
pub open spec fn replaced_all(s: Seq<char>, i: int, from: Seq<char>, to: Seq<char>) -> Seq<char>
    decreases s.len() - i,
{
    if from.len() == 0 {
        if i < 0 || i >= s.len() {
            to
        } else {
            to.push(s[i]) + replaced_all(s, i + 1, from, to)
        }
    } else if i < 0 || i >= s.len() {
        seq![]
    } else if occurs_at(s, from, i) {
        to + replaced_all(s, i + from.len(), from, to)
    } else {
        seq![s[i]] + replaced_all(s, i + 1, from, to)
    }
}

fn replace_all(v: &Vec<char>, from: &Vec<char>, to: &Vec<char>) -> (r: String)
    ensures
        r@ == replaced_all(v@, 0, from@, to@),
{
    let mut out: Vec<char> = Vec::new();
    let mut i: usize = 0;
    assert(out@ + replaced_all(v@, 0, from@, to@) =~= replaced_all(v@, 0, from@, to@));
    while i < v.len()
        invariant
            i <= v.len(),
            replaced_all(v@, 0, from@, to@) =~= out@ + replaced_all(v@, i as int, from@, to@),
        decreases v.len() - i,
    {
        let ghost before = out@;
        if from.len() == 0 {
            push_chars(&mut out, to);
            out.push(v[i]);
            i += 1;
            assert(before + (to@.push(v@[i - 1]) + replaced_all(v@, i as int, from@, to@))
                =~= out@ + replaced_all(v@, i as int, from@, to@));
        } else if stands_at(v, from, i) {
            push_chars(&mut out, to);
            i += from.len();
            assert(before + (to@ + replaced_all(v@, i as int, from@, to@)) =~= out@
                + replaced_all(v@, i as int, from@, to@));
        } else {
            out.push(v[i]);
            i += 1;
            assert(before + (seq![v@[i - 1]] + replaced_all(v@, i as int, from@, to@)) =~= out@
                + replaced_all(v@, i as int, from@, to@));
        }
    }
    if from.len() == 0 {
        push_chars(&mut out, to);
    }
    assert(out@ =~= replaced_all(v@, 0, from@, to@));
    text_of(&out)
}

// ── `null` arguments ────────────────────────────────────────────────────────

/// The message with which a method fails on a `null` first argument; `None`
/// where it takes one.
pub open spec fn null_argument(method: Seq<char>) -> Option<Seq<char>> {
    if method == "compareTo"@ {
        Some("Cannot read field \"value\" because \"anotherString\" is null"@)
    } else if method == "compareToIgnoreCase"@ {
        Some("Cannot read field \"value\" because \"s2\" is null"@)
    } else if method == "contains"@ {
        Some("Cannot invoke \"java.lang.CharSequence.toString()\" because \"s\" is null"@)
    } else if method == "replace"@ {
        Some("Cannot invoke \"java.lang.CharSequence.toString()\" because \"target\" is null"@)
    } else if method == "indexOf"@ || method == "lastIndexOf"@ {
        Some("Cannot invoke \"String.coder()\" because \"str\" is null"@)
    } else if method == "startsWith"@ {
        Some("Cannot invoke \"String.length()\" because \"prefix\" is null"@)
    } else if method == "endsWith"@ {
        Some("Cannot invoke \"String.length()\" because \"suffix\" is null"@)
    } else if method == "concat"@ {
        Some("Cannot invoke \"String.isEmpty()\" because \"str\" is null"@)
    } else if method == "split"@ || method == "matches"@ || method == "replaceAll"@ || method
        == "replaceFirst"@ {
        Some("Cannot invoke \"String.length()\" because \"regex\" is null"@)
    } else {
        None
    }
}

fn null_argument_text(method: &str) -> (r: Option<&'static str>)
    ensures
        match r {
            Some(m) => null_argument(method@) == Some(m@),
            None => null_argument(method@) is None,
        },
{
    if same(method, "compareTo") {
        Some("Cannot read field \"value\" because \"anotherString\" is null")
    } else if same(method, "compareToIgnoreCase") {
        Some("Cannot read field \"value\" because \"s2\" is null")
    } else if same(method, "contains") {
        Some("Cannot invoke \"java.lang.CharSequence.toString()\" because \"s\" is null")
    } else if same(method, "replace") {
        Some("Cannot invoke \"java.lang.CharSequence.toString()\" because \"target\" is null")
    } else if same(method, "indexOf") || same(method, "lastIndexOf") {
        Some("Cannot invoke \"String.coder()\" because \"str\" is null")
    } else if same(method, "startsWith") {
        Some("Cannot invoke \"String.length()\" because \"prefix\" is null")
    } else if same(method, "endsWith") {
        Some("Cannot invoke \"String.length()\" because \"suffix\" is null")
    } else if same(method, "concat") {
        Some("Cannot invoke \"String.isEmpty()\" because \"str\" is null")
    } else if same(method, "split") || same(method, "matches") || same(method, "replaceAll")
        || same(method, "replaceFirst") {
        Some("Cannot invoke \"String.length()\" because \"regex\" is null")
    } else {
        None
    }
}

/// The fault of a `null` first argument.
pub open spec fn null_argument_fault(method: Seq<char>, args: Seq<Val>) -> Option<FaultV> {
    if args.len() > 0 && args[0] == Val::Undef {
        match null_argument(method) {
            Some(m) => Some(java_fault("NullPointerException"@, m)),
            None => None,
        }
    } else {
        None
    }
}

/// Refuse a `null` first argument where the method dereferences it.
pub fn null_string_argument(method: &str, args: &Vec<Value>) -> (r: Result<(), Fault>)
    ensures
        match (r, null_argument_fault(method@, vals(args@))) {
            (Ok(_), None) => true,
            (Err(x), Some(y)) => x@ == y,
            _ => false,
        },
{
    if args.len() == 0 || !args[0].is_undef() {
        return Ok(());
    }
    match null_argument_text(method) {
        None => Ok(()),
        Some(m) => Err(Fault::java("NullPointerException", own(m))),
    }
}

// ── Regular expressions ─────────────────────────────────────────────────────

/// A malformed pattern.
pub open spec fn pattern_failure(msg: Seq<char>) -> FaultV {
    java_fault("PatternSyntaxException"@, msg)
}

/// A malformed pattern.
pub fn pattern_fault(msg: &str) -> (r: Fault)
    ensures
        r@ == pattern_failure(msg@),
{
    Fault::java("PatternSyntaxException", own(msg))
}

/// A replacement Java rejects: a missing numbered group is one exception,
/// everything else another.
pub open spec fn replacement_failure(msg: Seq<char>) -> FaultV {
    if begins(msg, "No group"@) && !begins(msg, "No group with name"@) {
        java_fault("IndexOutOfBoundsException"@, msg)
    } else {
        java_fault("IllegalArgumentException"@, msg)
    }
}

/// A replacement Java rejects.
pub fn replacement_fault(msg: String) -> (r: Fault)
    ensures
        r@ == replacement_failure(msg@),
{
    if begins_with(msg.as_str(), "No group") && !begins_with(msg.as_str(), "No group with name") {
        Fault::java("IndexOutOfBoundsException", msg)
    } else {
        Fault::java("IllegalArgumentException", msg)
    }
}

/// The engine giving a search up.
pub open spec fn engine_failure(msg: Seq<char>) -> FaultV {
    internal_fault("javars: regular expression failed: "@ + msg)
}

/// The engine giving a search up.
pub fn engine_fault(msg: String) -> (r: Fault)
    ensures
        r@ == engine_failure(msg@),
{
    let mut m: String = own("javars: regular expression failed: ");
    m.append(msg.as_str());
    Fault::internal(m)
}

/// The strings of an array.
pub open spec fn strings(parts: Seq<Seq<char>>) -> Seq<Val> {
    Seq::new(parts.len(), |i: int| Val::Str(parts[i]))
}

pub(crate) fn string_array(parts: Vec<String>) -> (r: HostObj)
    ensures
        r@ == ObjV::Array(strings(views(parts@))),
{
    let mut items: Vec<Value> = Vec::new();
    let mut i: usize = 0;
    while i < parts.len()
        invariant
            i <= parts.len(),
            items.len() == i,
            forall|k: int| 0 <= k < i ==> (#[trigger] items@[k])@ == Val::Str(parts@[k]@),
        decreases parts.len() - i,
    {
        items.push(Value::Str(own(parts[i].as_str())));
        i += 1;
    }
    assert(vals(items@) =~= strings(views(parts@)));
    HostObj::Array(items)
}

/// `split`, given how the pattern is built and where it matches.
pub open spec fn split_answer(s: Seq<char>, regex: Seq<char>, limit: int) -> Result<
    AnswerV,
    FaultV,
> {
    match built(regex, false) {
        Err(m) => Err(pattern_failure(m)),
        Ok(e) => match split_text(s, limit, found_by(e, s)) {
            Err(m) => Err(engine_failure(m)),
            Ok(parts) => Ok(AnswerV::Alloc(ObjV::Array(strings(parts)))),
        },
    }
}

fn regex_split(s: &str, regex: &str, limit: i64) -> (r: Result<Answer, Fault>)
    ensures
        answers(r, split_answer(s@, regex@, limit as int)),
{
    match compile(regex) {
        Err(m) => Err(pattern_fault(m.as_str())),
        Ok(p) => match p.split(s, limit) {
            Err(m) => Err(engine_fault(m)),
            Ok(parts) => Ok(Answer::Alloc(string_array(parts))),
        },
    }
}

/// `replaceAll` and `replaceFirst`.
pub open spec fn replace_answer(
    s: Seq<char>,
    regex: Seq<char>,
    replacement: Seq<char>,
    first_only: bool,
) -> Result<AnswerV, FaultV> {
    match built(regex, false) {
        Err(m) => Err(pattern_failure(m)),
        Ok(e) => match replaced(s, replacement, first_only, engine_names(e), captured_by(e, s)) {
            Err(m) => Err(replacement_failure(m)),
            Ok(t) => text_answer(t),
        },
    }
}

fn regex_replace(s: &str, regex: &str, replacement: &str, first_only: bool) -> (r: Result<
    Answer,
    Fault,
>)
    ensures
        answers(r, replace_answer(s@, regex@, replacement@, first_only)),
{
    match compile(regex) {
        Err(m) => Err(pattern_fault(m.as_str())),
        Ok(p) => match p.replace(s, replacement, first_only) {
            Err(m) => Err(replacement_fault(m)),
            Ok(t) => answer_text(t),
        },
    }
}

/// `matches`: the whole text, not a part of it.
pub open spec fn match_answer(s: Seq<char>, regex: Seq<char>) -> Result<AnswerV, FaultV> {
    match built(regex, true) {
        Err(m) => Err(pattern_failure(m)),
        Ok(e) => match engine_matches(e, s) {
            Err(m) => Err(engine_failure(m)),
            Ok(b) => bool_answer(b),
        },
    }
}

fn regex_matches(s: &str, regex: &str) -> (r: Result<Answer, Fault>)
    ensures
        answers(r, match_answer(s@, regex@)),
{
    match compile_whole(regex) {
        Err(m) => Err(pattern_fault(m.as_str())),
        Ok(p) => match p.matches_whole(s) {
            Err(m) => Err(engine_fault(m)),
            Ok(b) => answer_bool(b),
        },
    }
}

// ── The methods ─────────────────────────────────────────────────────────────

/// The methods that ask something of the text by itself.
pub open spec fn plain_method(s: Seq<char>, method: Seq<char>) -> Option<Result<AnswerV, FaultV>> {
    if method == "length"@ {
        Some(int_answer(s.len() as int))
    } else if method == "isEmpty"@ {
        Some(bool_answer(s.len() == 0))
    } else if method == "strip"@ {
        Some(text_answer(stripped(s, true, true)))
    } else if method == "stripLeading"@ {
        Some(text_answer(stripped(s, true, false)))
    } else if method == "stripTrailing"@ {
        Some(text_answer(stripped(s, false, true)))
    } else if method == "isBlank"@ {
        Some(bool_answer(all_blank(s)))
    } else if method == "hashCode"@ {
        Some(int_answer(text_hash(s) as int))
    } else if method == "intern"@ || method == "toString"@ || method == "getName"@ {
        Some(text_answer(s))
    } else if method == "getSimpleName"@ {
        Some(text_answer(simple_name(s)))
    } else if method == "toCharArray"@ {
        Some(
            Ok(
                AnswerV::Alloc(
                    ObjV::Array(Seq::new(s.len(), |i: int| Val::Int((s[i] as int) as i64))),
                ),
            ),
        )
    } else if method == "toUpperCase"@ {
        Some(text_answer(upper_text(s)))
    } else if method == "toLowerCase"@ {
        Some(text_answer(lower_text(s)))
    } else if method == "trim"@ {
        Some(text_answer(java_trim(s)))
    } else {
        None
    }
}

fn code_array(v: &Vec<char>) -> (r: HostObj)
    ensures
        r@ == ObjV::Array(Seq::new(v@.len(), |i: int| Val::Int((v@[i] as int) as i64))),
{
    let mut items: Vec<Value> = Vec::new();
    let mut i: usize = 0;
    while i < v.len()
        invariant
            i <= v.len(),
            items.len() == i,
            forall|k: int|
                0 <= k < i ==> (#[trigger] items@[k])@ == Val::Int((v@[k] as int) as i64),
        decreases v.len() - i,
    {
        items.push(Value::Int(code_of(v[i]) as i64));
        i += 1;
    }
    assert(vals(items@) =~= Seq::new(v@.len(), |i: int| Val::Int((v@[i] as int) as i64)));
    HostObj::Array(items)
}

fn call_plain(s: &str, v: &Vec<char>, method: &str) -> (r: Option<Result<Answer, Fault>>)
    requires
        v@ == s@,
    ensures
        answers_opt(r, plain_method(s@, method@)),
{
    if same(method, "length") {
        Some(answer_int(v.len() as i64))
    } else if same(method, "isEmpty") {
        Some(answer_bool(v.len() == 0))
    } else if same(method, "strip") {
        Some(answer_text(strip_chars(v, true, true)))
    } else if same(method, "stripLeading") {
        Some(answer_text(strip_chars(v, true, false)))
    } else if same(method, "stripTrailing") {
        Some(answer_text(strip_chars(v, false, true)))
    } else if same(method, "isBlank") {
        Some(answer_bool(is_all_blank(v)))
    } else if same(method, "hashCode") {
        Some(answer_int(string_hash(s) as i64))
    } else if same(method, "intern") || same(method, "toString") || same(method, "getName") {
        Some(answer_text(own(s)))
    } else if same(method, "getSimpleName") {
        Some(answer_text(simple_class_name(s)))
    } else if same(method, "toCharArray") {
        Some(Ok(Answer::Alloc(code_array(v))))
    } else if same(method, "toUpperCase") {
        Some(answer_text(to_upper(s)))
    } else if same(method, "toLowerCase") {
        Some(answer_text(to_lower(s)))
    } else if same(method, "trim") {
        Some(answer_text(trim_chars(v)))
    } else {
        None
    }
}

/// The methods with one argument, `t` its text, `n` it read as a number, and
/// `null` whether it is `null`.
pub open spec fn one_method(
    s: Seq<char>,
    method: Seq<char>,
    t: Seq<char>,
    n: int,
    null: bool,
) -> Option<Result<AnswerV, FaultV>> {
    if method == "compareTo"@ {
        Some(int_answer(compared(s, t, false)))
    } else if method == "compareToIgnoreCase"@ {
        Some(int_answer(compared(s, t, true)))
    } else if method == "charAt"@ || method == "codePointAt"@ {
        Some(char_result(s, n))
    } else if method == "substring"@ {
        Some(substring_result(s, n, s.len() as int))
    } else if method == "indexOf"@ {
        Some(int_answer(index_from(s, t, 0)))
    } else if method == "lastIndexOf"@ {
        Some(int_answer(last_index(s, t, s.len() as int)))
    } else if method == "contentEquals"@ {
        Some(bool_answer(s == t))
    } else if method == "equals"@ {
        Some(bool_answer(!null && s == t))
    } else if method == "split"@ {
        Some(split_answer(s, t, 0))
    } else if method == "matches"@ {
        Some(match_answer(s, t))
    } else if method == "contains"@ {
        Some(bool_answer(index_from(s, t, 0) >= 0))
    } else if method == "equalsIgnoreCase"@ {
        Some(bool_answer(!null && lower_text(s) == lower_text(t)))
    } else if method == "startsWith"@ {
        Some(bool_answer(begins(s, t)))
    } else if method == "endsWith"@ {
        Some(bool_answer(ends(s, t)))
    } else if method == "concat"@ {
        Some(text_answer(s + t))
    } else if method == "repeat"@ {
        if n < 0 {
            Some(
                Err(
                    java_fault("IllegalArgumentException"@, "count is negative: "@ + dec(n)),
                ),
            )
        } else {
            Some(text_answer(repeated(s, n)))
        }
    } else {
        None
    }
}

fn call_one(s: &str, v: &Vec<char>, method: &str, t: &str, n: i64, null: bool) -> (r: Option<
    Result<Answer, Fault>,
>)
    requires
        v@ == s@,
    ensures
        answers_opt(r, one_method(s@, method@, t@, n as int, null)),
{
    let w: Vec<char> = chars_of(t);
    if same(method, "compareTo") {
        Some(answer_int(compare_strings(s, t, false)))
    } else if same(method, "compareToIgnoreCase") {
        Some(answer_int(compare_strings(s, t, true)))
    } else if same(method, "charAt") || same(method, "codePointAt") {
        Some(char_at(v, n))
    } else if same(method, "substring") {
        if n < 0 || n as u128 > v.len() as u128 {
            return Some(Err(range_to_end(n, v.len())));
        }
        let tail: String = text_between(v, n as usize, v.len());
        Some(answer_text(tail))
    } else if same(method, "indexOf") {
        Some(answer_int(char_index_of(v, &w, 0)))
    } else if same(method, "lastIndexOf") {
        Some(answer_int(last_of(v, &w)))
    } else if same(method, "contentEquals") {
        Some(answer_bool(same(s, t)))
    } else if same(method, "equals") {
        Some(answer_bool(!null && same(s, t)))
    } else if same(method, "split") {
        Some(regex_split(s, t, 0))
    } else if same(method, "matches") {
        Some(regex_matches(s, t))
    } else if same(method, "contains") {
        Some(answer_bool(find_from(v, &w, 0).is_some()))
    } else if same(method, "equalsIgnoreCase") {
        Some(answer_bool(!null && same(to_lower(s).as_str(), to_lower(t).as_str())))
    } else if same(method, "startsWith") {
        Some(answer_bool(begins_with(s, t)))
    } else if same(method, "endsWith") {
        Some(answer_bool(ends_with(s, t)))
    } else if same(method, "concat") {
        let mut r: String = own(s);
        r.append(t);
        Some(answer_text(r))
    } else if same(method, "repeat") {
        if n < 0 {
            let mut m: String = own("count is negative: ");
            m.append(int_text(n).as_str());
            Some(Err(Fault::java("IllegalArgumentException", m)))
        } else {
            Some(answer_text(repeat_text(s, n as u64)))
        }
    } else {
        None
    }
}

/// The fault of a range that runs to the end of a text.
pub(crate) fn range_to_end(begin: i64, len: usize) -> (r: Fault)
    ensures
        r@ == string_range_fault(begin as int, len as int, len as int),
{
    let mut m: String = own("Range [");
    m.append(int_text(begin).as_str());
    m.append(", ");
    m.append(size_text(len).as_str());
    m.append(") out of bounds for length ");
    m.append(size_text(len).as_str());
    Fault::java("StringIndexOutOfBoundsException", m)
}

/// `lastIndexOf` over the whole text.
pub(crate) fn last_of(v: &Vec<char>, needle: &Vec<char>) -> (r: i64)
    ensures
        r == last_index(v@, needle@, v@.len() as int) as i64,
{
    if needle.len() > v.len() {
        return -1;
    }
    let start: usize = v.len() - needle.len();
    if start == usize::MAX {
        proof {
            assert(needle@.len() == 0);
            assert(v@.subrange(start as int, start as int) =~= needle@);
            assert(occurs_at(v@, needle@, start as int));
        }
        return start as i64;
    }
    match find_back(v, needle, start) {
        Some(i) => i as i64,
        None => -1,
    }
}

/// The methods with two arguments, `t` and `u` their texts and `m` and `n` they
/// read as numbers.
pub open spec fn two_method(
    s: Seq<char>,
    method: Seq<char>,
    t: Seq<char>,
    u: Seq<char>,
    m: int,
    n: int,
) -> Option<Result<AnswerV, FaultV>> {
    if method == "substring"@ {
        Some(substring_result(s, m, n))
    } else if method == "indexOf"@ {
        Some(int_answer(index_from(s, t, clamped(n, s.len() as int))))
    } else if method == "lastIndexOf"@ {
        Some(int_answer(last_index(s, t, n)))
    } else if method == "split"@ {
        Some(split_answer(s, t, n))
    } else if method == "replaceAll"@ {
        Some(replace_answer(s, t, u, false))
    } else if method == "replaceFirst"@ {
        Some(replace_answer(s, t, u, true))
    } else if method == "startsWith"@ {
        Some(bool_answer(occurs_at(s, t, n)))
    } else if method == "replace"@ {
        Some(text_answer(replaced_all(s, 0, t, u)))
    } else {
        None
    }
}

fn call_two(s: &str, v: &Vec<char>, method: &str, t: &str, u: &str, m: i64, n: i64) -> (r: Option<
    Result<Answer, Fault>,
>)
    requires
        v@ == s@,
    ensures
        answers_opt(r, two_method(s@, method@, t@, u@, m as int, n as int)),
{
    let w: Vec<char> = chars_of(t);
    if same(method, "substring") {
        Some(substring(v, m, n))
    } else if same(method, "indexOf") {
        Some(answer_int(char_index_of(v, &w, n)))
    } else if same(method, "lastIndexOf") {
        Some(answer_int(char_last_index_of(v, &w, n)))
    } else if same(method, "split") {
        Some(regex_split(s, t, n))
    } else if same(method, "replaceAll") {
        Some(regex_replace(s, t, u, false))
    } else if same(method, "replaceFirst") {
        Some(regex_replace(s, t, u, true))
    } else if same(method, "startsWith") {
        if n < 0 || n as u128 > v.len() as u128 {
            return Some(answer_bool(false));
        }
        Some(answer_bool(stands_at(v, &w, n as usize)))
    } else if same(method, "replace") {
        Some(answer_text(replace_all(v, &w, &chars_of(u))))
    } else {
        None
    }
}

/// The fault of a call no rule covers.
pub open spec fn unsupported_call(kind: Seq<char>, method: Seq<char>, argc: int) -> FaultV {
    internal_fault(
        "javars: unsupported "@ + kind + " method `"@ + method + "` with "@ + dec(argc)
            + " argument(s)"@,
    )
}

pub fn unsupported_fault(kind: &str, method: &str, argc: usize) -> (r: Fault)
    ensures
        r@ == unsupported_call(kind@, method@, argc as int),
{
    let mut m: String = own("javars: unsupported ");
    m.append(kind);
    m.append(" method `");
    m.append(method);
    m.append("` with ");
    m.append(size_text(argc).as_str());
    m.append(" argument(s)");
    Fault::internal(m)
}

/// `s.method(args)` on a string.
pub open spec fn string_call(h: HostV, s: Seq<char>, method: Seq<char>, args: Seq<Val>) -> Result<
    AnswerV,
    FaultV,
> {
    match null_argument_fault(method, args) {
        Some(f) => Err(f),
        None => if method == "formatted"@ {
            Ok(AnswerV::Format)
        } else {
            let found = if args.len() == 0 {
                plain_method(s, method)
            } else if args.len() == 1 {
                one_method(s, method, plain(args[0]), jint_of(h, args[0]), args[0] == Val::Undef)
            } else if args.len() == 2 {
                two_method(
                    s,
                    method,
                    plain(args[0]),
                    plain(args[1]),
                    jint_of(h, args[0]),
                    jint_of(h, args[1]),
                )
            } else {
                None
            };
            match found {
                Some(r) => r,
                None => Err(unsupported_call("String"@, method, args.len() as int)),
            }
        },
    }
}

/// Evaluate a `java.lang.String` method.
pub fn string_method(host: &Host, s: &str, method: &str, args: &Vec<Value>) -> (r: Result<
    Answer,
    Fault,
>)
    ensures
        answers(r, string_call(host@, s@, method@, vals(args@))),
{
    if let Err(f) = null_string_argument(method, args) {
        return Err(f);
    }
    if same(method, "formatted") {
        return Ok(Answer::Format);
    }
    let v: Vec<char> = chars_of(s);
    let found: Option<Result<Answer, Fault>> = if args.len() == 0 {
        call_plain(s, &v, method)
    } else if args.len() == 1 {
        assert(vals(args@)[0] == args@[0]@);
        let t: String = plain_text(&args[0]);
        call_one(s, &v, method, t.as_str(), jint(host, &args[0]), args[0].is_undef())
    } else if args.len() == 2 {
        assert(vals(args@)[0] == args@[0]@ && vals(args@)[1] == args@[1]@);
        let t: String = plain_text(&args[0]);
        let u: String = plain_text(&args[1]);
        call_two(
            s,
            &v,
            method,
            t.as_str(),
            u.as_str(),
            jint(host, &args[0]),
            jint(host, &args[1]),
        )
    } else {
        None
    };
    match found {
        Some(r) => r,
        None => Err(unsupported_fault("String", method, args.len())),
    }
}

// ── What holds of texts ─────────────────────────────────────────────────────

/// A text cut in two is the two parts, one behind the other.
pub proof fn parts_of_a_text_join(s: Seq<char>, i: int)
    requires
        0 <= i <= s.len(),
    ensures
        substring_result(s, 0, i) == text_answer(s.take(i)),
        substring_result(s, i, s.len() as int) == text_answer(s.skip(i)),
        s.take(i) + s.skip(i) == s,
{
    assert(s.subrange(0, i) =~= s.take(i));
    assert(s.subrange(i, s.len() as int) =~= s.skip(i));
    assert(s.take(i) + s.skip(i) =~= s);
}

/// Comparing two texts the other way round gives the opposite, with and without
/// regard to case, as an integer and, where a `long` holds it, as a `long`. Only
/// equal texts, or equal ones in lower case, compare as zero.
pub proof fn comparing_turns_around(a: Seq<char>, b: Seq<char>, fold: bool)
    ensures
        compared(a, b, fold) == -compared(b, a, fold),
        -i64::MAX <= compared(a, b, fold) <= i64::MAX ==> compared(a, b, fold) as i64 == -(compared(
            b,
            a,
            fold,
        ) as i64),
        !fold ==> (compared(a, b, fold) == 0 <==> a == b),
        fold ==> (compared(a, b, fold) == 0 <==> lower_each(a) == lower_each(b)),
{
    lemma_difference(a, b, 0);
    lemma_difference(lower_each(a), lower_each(b), 0);
}

/// Two texts compare as their characters do where they first differ; where one
/// is the beginning of the other, as their lengths do.
pub proof fn the_first_difference_decides(a: Seq<char>, b: Seq<char>, i: int)
    requires
        0 <= i <= a.len(),
        i <= b.len(),
        a.take(i) == b.take(i),
    ensures
        i < a.len() && i < b.len() && a[i] != b[i] ==> compared(a, b, false) == a[i] as int
            - b[i] as int,
        i == a.len() || i == b.len() ==> compared(a, b, false) == a.len() - b.len(),
{
    lemma_skip_equal(a, b, 0, i);
}

proof fn lemma_skip_equal(a: Seq<char>, b: Seq<char>, from: int, i: int)
    requires
        0 <= from <= i <= a.len(),
        i <= b.len(),
        a.take(i) == b.take(i),
    ensures
        first_difference(a, b, from) == first_difference(a, b, i),
    decreases i - from,
{
    if from < i {
        assert(a[from] == a.take(i)[from] && b[from] == b.take(i)[from]);
        lemma_skip_equal(a, b, from + 1, i);
    }
}

proof fn lemma_difference(a: Seq<char>, b: Seq<char>, i: int)
    requires
        0 <= i <= a.len(),
        i <= b.len(),
        forall|k: int| 0 <= k < i ==> a[k] == b[k],
    ensures
        first_difference(a, b, i) == -first_difference(b, a, i),
        first_difference(a, b, i) == 0 <==> a == b,
    decreases a.len() - i,
{
    if i < a.len() && i < b.len() {
        if a[i] == b[i] {
            lemma_difference(a, b, i + 1);
        }
    } else if a.len() == b.len() {
        assert(a =~= b);
    }
}

} // verus!
