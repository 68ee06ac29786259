//! The static methods of `java.lang` and `java.util.Arrays`.
//!
//! What is whole numbers, text or bits is answered here. An operation on
//! floating point is handed on as a [`FloatTask`], and a rendering as a
//! [`RenderTask`], because it may run the program's own `toString`.
use vstd::prelude::*;

use crate::double::{
    Double, DoubleV, INFINITY, SIGN, canonical, canonical_bits, float_compare, is_nan,
    is_nan_bits, magnitude, magnitude_of, next_after, next_toward, rank, sign_of,
};
use crate::host::{Host, HostObj, HostV, ObjV};
use crate::host::boxes::{bare, deboxed, jfloat, jint, jint_of};
use crate::host::builder::bits_of;
use crate::host::characters::{char_arg, char_named, character_call, character_method};
use crate::host::collections::{elements, sequence_items, set_object, with_object};
use crate::host::decimal::{
    Reading, ReadingV, double_reading, float_format_message, float_message, parse_java_double,
};
use crate::host::factories::{array_items, array_of};
use crate::host::lists::{copy_held, held};
use crate::host::maths::{
    Clamped, Exact, WIDTH_FLOAT, WIDTH_INT, WIDTH_LONG, abs_double, clamp_double, clamp_int,
    clamped_double, clamped_int, copy_sign, double_ulp, exact_arith, exact_result, floor_div,
    floor_mod, floor_quotient, floor_rest, greater_double, half_rounded, int_to_radix_string,
    lesser_double, max_double, min_double, null_float_parse, null_float_parse_fault, null_number,
    null_number_fault, number_fault, parse_int_radix, parsed_int, pow_rule, radix_string,
    round_double, ruled_power, sign_double, signed_as, signum_double, ulp_bits, wrapped,
};
use crate::host::order::{
    fold_halves, folded, hash_of, ints, java_hash, natural, natural_order, picked, plain_hash,
};
use crate::host::render::low_bits;
use crate::host::sorting::{ascending, is_order, natural_in, natural_positions, pick, shuffles};
use crate::text::{
    chars_of, dec, digits, int_text, join, join_texts, own, radix_text, same, size_text, views,
};
use crate::value::{
    Fault, FaultV, Val, Value, copy_range, double_of, internal_fault, is_truthy, java_fault,
    outcome, plain, plain_text, truthy, vals,
};

verus! {

/// An operation on floating point; the operands are bits.
pub enum FloatTask {
    Power(u64, u64),
    Root(u64),
    Floor(u64),
    Ceil(u64),
    Radians(u64),
    Degrees(u64),
    Rint(u64),
    Fused(u64, u64, u64),
    /// `Float.hashCode`.
    FloatHash(u64),
    /// `Float.compare`.
    FloatCompare(u64, u64),
    /// `Double.toString`.
    ShowDouble(u64),
    /// `Float.toString`.
    ShowFloat(u64),
    /// The value of a literal, rounded to a `float` where `narrow`.
    Read { reading: Reading, narrow: bool },
    /// The fault of bounds that cross, which are rendered as `float`s or not.
    Crossed { lo: u64, hi: u64, narrow: bool },
}

pub enum FloatTaskV {
    Power(u64, u64),
    Root(u64),
    Floor(u64),
    Ceil(u64),
    Radians(u64),
    Degrees(u64),
    Rint(u64),
    Fused(u64, u64, u64),
    FloatHash(u64),
    FloatCompare(u64, u64),
    ShowDouble(u64),
    ShowFloat(u64),
    Read { reading: ReadingV, narrow: bool },
    Crossed { lo: u64, hi: u64, narrow: bool },
}

impl View for FloatTask {
    type V = FloatTaskV;

    open spec fn view(&self) -> FloatTaskV {
        match self {
            FloatTask::Power(a, b) => FloatTaskV::Power(*a, *b),
            FloatTask::Root(a) => FloatTaskV::Root(*a),
            FloatTask::Floor(a) => FloatTaskV::Floor(*a),
            FloatTask::Ceil(a) => FloatTaskV::Ceil(*a),
            FloatTask::Radians(a) => FloatTaskV::Radians(*a),
            FloatTask::Degrees(a) => FloatTaskV::Degrees(*a),
            FloatTask::Rint(a) => FloatTaskV::Rint(*a),
            FloatTask::Fused(a, b, c) => FloatTaskV::Fused(*a, *b, *c),
            FloatTask::FloatHash(a) => FloatTaskV::FloatHash(*a),
            FloatTask::FloatCompare(a, b) => FloatTaskV::FloatCompare(*a, *b),
            FloatTask::ShowDouble(a) => FloatTaskV::ShowDouble(*a),
            FloatTask::ShowFloat(a) => FloatTaskV::ShowFloat(*a),
            FloatTask::Read { reading, narrow } => FloatTaskV::Read {
                reading: reading@,
                narrow: *narrow,
            },
            FloatTask::Crossed { lo, hi, narrow } => FloatTaskV::Crossed {
                lo: *lo,
                hi: *hi,
                narrow: *narrow,
            },
        }
    }
}

/// A text made of renderings: `parts` rendered, joined with `sep` and put
/// between `open` and `close`. Where `deep`, an array among them is rendered by
/// its elements.
pub struct RenderTask {
    pub parts: Vec<Value>,
    pub open: String,
    pub sep: String,
    pub close: String,
    pub deep: bool,
}

pub struct RenderTaskV {
    pub parts: Seq<Val>,
    pub open: Seq<char>,
    pub sep: Seq<char>,
    pub close: Seq<char>,
    pub deep: bool,
}

impl View for RenderTask {
    type V = RenderTaskV;

    open spec fn view(&self) -> RenderTaskV {
        RenderTaskV {
            parts: vals(self.parts@),
            open: self.open@,
            sep: self.sep@,
            close: self.close@,
            deep: self.deep,
        }
    }
}

/// How a static method is answered.
pub enum StaticAnswer {
    Value(Value),
    /// The `double` with these bits.
    Bits(u64),
    Alloc(HostObj),
    Float(FloatTask),
    Render(RenderTask),
    /// The first argument as a format string for the others.
    Format,
}

pub enum StaticAnswerV {
    Value(Val),
    Bits(u64),
    Alloc(ObjV),
    Float(FloatTaskV),
    Render(RenderTaskV),
    Format,
}

impl View for StaticAnswer {
    type V = StaticAnswerV;

    open spec fn view(&self) -> StaticAnswerV {
        match self {
            StaticAnswer::Value(v) => StaticAnswerV::Value(v@),
            StaticAnswer::Bits(b) => StaticAnswerV::Bits(*b),
            StaticAnswer::Alloc(o) => StaticAnswerV::Alloc(o@),
            StaticAnswer::Float(t) => StaticAnswerV::Float(t@),
            StaticAnswer::Render(t) => StaticAnswerV::Render(t@),
            StaticAnswer::Format => StaticAnswerV::Format,
        }
    }
}

pub type Said = Result<StaticAnswerV, FaultV>;

/// Whether `r` is `s`, both possibly absent.
pub open spec fn says(r: Option<Result<StaticAnswer, Fault>>, s: Option<Said>) -> bool {
    match (r, s) {
        (Some(Ok(x)), Some(Ok(y))) => x@ == y,
        (Some(Err(x)), Some(Err(y))) => x@ == y,
        (None, None) => true,
        _ => false,
    }
}

pub open spec fn int_said(n: int) -> Option<Said> {
    Some(Ok(StaticAnswerV::Value(Val::Int(n as i64))))
}

pub open spec fn bool_said(b: bool) -> Option<Said> {
    Some(Ok(StaticAnswerV::Value(Val::Bool(b))))
}

pub open spec fn text_said(s: Seq<char>) -> Option<Said> {
    Some(Ok(StaticAnswerV::Value(Val::Str(s))))
}

pub open spec fn bits_said(b: u64) -> Option<Said> {
    Some(Ok(StaticAnswerV::Bits(b)))
}

pub open spec fn task_said(t: FloatTaskV) -> Option<Said> {
    Some(Ok(StaticAnswerV::Float(t)))
}

/// A value or a fault as the answer.
pub open spec fn val_said(r: Result<Val, FaultV>) -> Option<Said> {
    match r {
        Ok(v) => Some(Ok(StaticAnswerV::Value(v))),
        Err(f) => Some(Err(f)),
    }
}

fn say_int(n: i64) -> (r: Option<Result<StaticAnswer, Fault>>)
    ensures
        says(r, Some(Ok(StaticAnswerV::Value(Val::Int(n))))),
{
    Some(Ok(StaticAnswer::Value(Value::Int(n))))
}

fn say_bool(b: bool) -> (r: Option<Result<StaticAnswer, Fault>>)
    ensures
        says(r, bool_said(b)),
{
    Some(Ok(StaticAnswer::Value(Value::Bool(b))))
}

fn say_text(s: String) -> (r: Option<Result<StaticAnswer, Fault>>)
    ensures
        says(r, text_said(s@)),
{
    Some(Ok(StaticAnswer::Value(Value::Str(s))))
}

fn say_bits(b: u64) -> (r: Option<Result<StaticAnswer, Fault>>)
    ensures
        says(r, bits_said(b)),
{
    Some(Ok(StaticAnswer::Bits(b)))
}

fn say_task(t: FloatTask) -> (r: Option<Result<StaticAnswer, Fault>>)
    ensures
        says(r, task_said(t@)),
{
    Some(Ok(StaticAnswer::Float(t)))
}

fn say(r: Result<Value, Fault>) -> (s: Option<Result<StaticAnswer, Fault>>)
    ensures
        says(s, val_said(outcome(r))),
{
    match r {
        Ok(v) => Some(Ok(StaticAnswer::Value(v))),
        Err(f) => Some(Err(f)),
    }
}

/// A value read as a `double`, through any box, as bits.
pub open spec fn dbl(h: HostV, v: Val) -> u64 {
    double_of(bare(h, v))
}

// ── Math ────────────────────────────────────────────────────────────────────

/// `Math.method(a)`.
pub open spec fn math_one(h: HostV, method: Seq<char>, a: Val) -> Option<Said> {
    let d = dbl(h, a);
    if method == "abs"@ {
        match bare(h, a) {
            Val::Int(n) => int_said(
                if n == i64::MIN {
                    n as int
                } else if n < 0 {
                    -n
                } else {
                    n as int
                },
            ),
            _ => bits_said(magnitude(d) as u64),
        }
    } else if method == "sqrt"@ {
        task_said(FloatTaskV::Root(d))
    } else if method == "floor"@ {
        task_said(FloatTaskV::Floor(d))
    } else if method == "ceil"@ {
        task_said(FloatTaskV::Ceil(d))
    } else if method == "round"@ {
        int_said(half_rounded(d))
    } else if method == "signum"@ {
        bits_said(sign_double(d))
    } else if method == "toRadians"@ {
        task_said(FloatTaskV::Radians(d))
    } else if method == "toDegrees"@ {
        task_said(FloatTaskV::Degrees(d))
    } else if method == "rint"@ {
        task_said(FloatTaskV::Rint(d))
    } else if method == "ulp"@ {
        bits_said(ulp_bits(d))
    } else if method == "nextUp"@ {
        bits_said(next_toward(d, INFINITY))
    } else if method == "nextDown"@ {
        bits_said(next_toward(d, (SIGN + INFINITY) as u64))
    } else {
        None
    }
}

fn call_math_one(host: &Host, method: &str, a: &Value) -> (r: Option<Result<StaticAnswer, Fault>>)
    ensures
        says(r, math_one(host@, method@, a@)),
{
    let d: u64 = jfloat(host, a);
    if same(method, "abs") {
        match deboxed(host, a) {
            Value::Int(n) => {
                if n == i64::MIN {
                    say_int(n)
                } else if n < 0 {
                    say_int(-n)
                } else {
                    say_int(n)
                }
            },
            _ => say_bits(abs_double(d)),
        }
    } else if same(method, "sqrt") {
        say_task(FloatTask::Root(d))
    } else if same(method, "floor") {
        say_task(FloatTask::Floor(d))
    } else if same(method, "ceil") {
        say_task(FloatTask::Ceil(d))
    } else if same(method, "round") {
        say_int(round_double(d))
    } else if same(method, "signum") {
        say_bits(signum_double(d))
    } else if same(method, "toRadians") {
        say_task(FloatTask::Radians(d))
    } else if same(method, "toDegrees") {
        say_task(FloatTask::Degrees(d))
    } else if same(method, "rint") {
        say_task(FloatTask::Rint(d))
    } else if same(method, "ulp") {
        say_bits(double_ulp(d))
    } else if same(method, "nextUp") {
        say_bits(next_after(d, INFINITY))
    } else if same(method, "nextDown") {
        say_bits(next_after(d, SIGN + INFINITY))
    } else {
        None
    }
}

/// The smaller and the larger of two integers.
pub open spec fn lesser(a: int, b: int) -> int {
    if a < b {
        a
    } else {
        b
    }
}

pub open spec fn greater(a: int, b: int) -> int {
    if a > b {
        a
    } else {
        b
    }
}

/// `Math.method(a, b)`.
pub open spec fn math_two(h: HostV, method: Seq<char>, a: Val, b: Val) -> Option<Said> {
    let (m, n) = (jint_of(h, a), jint_of(h, b));
    let (c, d) = (dbl(h, a), dbl(h, b));
    let both = bare(h, a) is Int && bare(h, b) is Int;
    if method == "max"@ {
        if both {
            int_said(greater(m, n))
        } else {
            bits_said(greater_double(c, d))
        }
    } else if method == "min"@ {
        if both {
            int_said(lesser(m, n))
        } else {
            bits_said(lesser_double(c, d))
        }
    } else if method == "pow"@ {
        match ruled_power(c, d) {
            Some(r) => bits_said(r),
            None => task_said(FloatTaskV::Power(c, d)),
        }
    } else if method == "floorDiv"@ {
        match floor_quotient(m, n) {
            Ok(q) => int_said(q),
            Err(f) => Some(Err(f)),
        }
    } else if method == "floorMod"@ {
        match floor_rest(m, n) {
            Ok(q) => int_said(q),
            Err(f) => Some(Err(f)),
        }
    } else if method == "toIntExact"@ {
        if i32::MIN <= m <= i32::MAX {
            int_said(m)
        } else {
            Some(Err(java_fault("ArithmeticException"@, "integer overflow"@)))
        }
    } else if method == "copySign"@ {
        bits_said(signed_as(c, d))
    } else if method == "nextAfter"@ {
        bits_said(next_toward(c, d))
    } else {
        None
    }
}

fn is_int(host: &Host, v: &Value) -> (r: bool)
    ensures
        r == (bare(host@, v@) is Int),
{
    let b: Value = deboxed(host, v);
    match &b {
        Value::Int(_) => true,
        _ => false,
    }
}

fn call_math_two(host: &Host, method: &str, a: &Value, b: &Value) -> (r: Option<
    Result<StaticAnswer, Fault>,
>)
    ensures
        says(r, math_two(host@, method@, a@, b@)),
{
    let m: i64 = jint(host, a);
    let n: i64 = jint(host, b);
    let c: u64 = jfloat(host, a);
    let d: u64 = jfloat(host, b);
    if same(method, "max") {
        if is_int(host, a) && is_int(host, b) {
            if m > n {
                say_int(m)
            } else {
                say_int(n)
            }
        } else {
            say_bits(max_double(c, d))
        }
    } else if same(method, "min") {
        if is_int(host, a) && is_int(host, b) {
            if m < n {
                say_int(m)
            } else {
                say_int(n)
            }
        } else {
            say_bits(min_double(c, d))
        }
    } else if same(method, "pow") {
        match pow_rule(c, d) {
            Some(r) => say_bits(r),
            None => say_task(FloatTask::Power(c, d)),
        }
    } else if same(method, "floorDiv") {
        match floor_div(m, n) {
            Ok(q) => say_int(q),
            Err(f) => Some(Err(f)),
        }
    } else if same(method, "floorMod") {
        match floor_mod(m, n) {
            Ok(q) => say_int(q),
            Err(f) => Some(Err(f)),
        }
    } else if same(method, "toIntExact") {
        if i32::MIN as i64 <= m && m <= i32::MAX as i64 {
            say_int(m)
        } else {
            Some(Err(Fault::java("ArithmeticException", own("integer overflow"))))
        }
    } else if same(method, "copySign") {
        say_bits(copy_sign(c, d))
    } else if same(method, "nextAfter") {
        say_bits(next_after(c, d))
    } else {
        None
    }
}

/// The exact operation a method names.
pub open spec fn exact_of(method: Seq<char>) -> Option<Exact> {
    if method == "addExact"@ {
        Some(Exact::Plus)
    } else if method == "subtractExact"@ {
        Some(Exact::Minus)
    } else if method == "multiplyExact"@ {
        Some(Exact::Times)
    } else {
        None
    }
}

fn exact_named(method: &str) -> (r: Option<Exact>)
    ensures
        r == exact_of(method@),
{
    if same(method, "addExact") {
        Some(Exact::Plus)
    } else if same(method, "subtractExact") {
        Some(Exact::Minus)
    } else if same(method, "multiplyExact") {
        Some(Exact::Times)
    } else {
        None
    }
}

/// `Math.clamp`, at the width the operands were resolved to.
pub open spec fn clamp_said(h: HostV, v: Val, lo: Val, hi: Val, width: int) -> Option<Said> {
    if width == WIDTH_INT || width == WIDTH_LONG {
        val_said(clamped_int(jint_of(h, v), jint_of(h, lo), jint_of(h, hi)))
    } else {
        match clamped_double(dbl(h, v), dbl(h, lo), dbl(h, hi)) {
            Clamped::Bits(r) => bits_said(r),
            Clamped::MinIsNan => Some(
                Err(java_fault("IllegalArgumentException"@, "min is NaN"@)),
            ),
            Clamped::MaxIsNan => Some(
                Err(java_fault("IllegalArgumentException"@, "max is NaN"@)),
            ),
            Clamped::Crossed => task_said(
                FloatTaskV::Crossed {
                    lo: dbl(h, lo),
                    hi: dbl(h, hi),
                    narrow: width == WIDTH_FLOAT,
                },
            ),
        }
    }
}

/// `Math.clamp`.
fn math_clamp(host: &Host, v: &Value, lo: &Value, hi: &Value, width: i64) -> (r: Option<
    Result<StaticAnswer, Fault>,
>)
    ensures
        says(r, clamp_said(host@, v@, lo@, hi@, width as int)),
{
    if width == WIDTH_INT || width == WIDTH_LONG {
        return say(clamp_int(jint(host, v), jint(host, lo), jint(host, hi)));
    }
    match clamp_double(jfloat(host, v), jfloat(host, lo), jfloat(host, hi)) {
        Clamped::Bits(r) => say_bits(r),
        Clamped::MinIsNan => Some(Err(Fault::java("IllegalArgumentException", own("min is NaN")))),
        Clamped::MaxIsNan => Some(Err(Fault::java("IllegalArgumentException", own("max is NaN")))),
        Clamped::Crossed => say_task(
            FloatTask::Crossed {
                lo: jfloat(host, lo),
                hi: jfloat(host, hi),
                narrow: width == WIDTH_FLOAT,
            },
        ),
    }
}

/// `Math.method(args)`. A width-dependent method has one operand more, the code
/// of the type its operands were resolved to.
pub open spec fn math_call(h: HostV, method: Seq<char>, args: Seq<Val>) -> Option<Said> {
    if args.len() == 1 {
        math_one(h, method, args[0])
    } else if args.len() == 2 {
        math_two(h, method, args[0], args[1])
    } else if args.len() == 3 && method == "fma"@ {
        task_said(FloatTaskV::Fused(dbl(h, args[0]), dbl(h, args[1]), dbl(h, args[2])))
    } else if args.len() == 3 {
        match exact_of(method) {
            Some(op) => val_said(
                exact_result(
                    jint_of(h, args[0]),
                    jint_of(h, args[1]),
                    jint_of(h, args[2]),
                    op,
                ),
            ),
            None => None,
        }
    } else if args.len() == 4 && method == "clamp"@ {
        clamp_said(h, args[0], args[1], args[2], jint_of(h, args[3]))
    } else {
        None
    }
}

fn call_math(host: &Host, method: &str, args: &Vec<Value>) -> (r: Option<
    Result<StaticAnswer, Fault>,
>)
    ensures
        says(r, math_call(host@, method@, vals(args@))),
{
    let ghost vs = vals(args@);
    assert(forall|j: int| 0 <= j < args.len() ==> vs[j] == (#[trigger] args@[j])@);
    if args.len() == 1 {
        call_math_one(host, method, &args[0])
    } else if args.len() == 2 {
        call_math_two(host, method, &args[0], &args[1])
    } else if args.len() == 3 && same(method, "fma") {
        say_task(
            FloatTask::Fused(jfloat(host, &args[0]), jfloat(host, &args[1]), jfloat(host, &args[2])),
        )
    } else if args.len() == 3 {
        match exact_named(method) {
            Some(op) => say(
                exact_arith(jint(host, &args[0]), jint(host, &args[1]), jint(host, &args[2]), op),
            ),
            None => None,
        }
    } else if args.len() == 4 && same(method, "clamp") {
        math_clamp(host, &args[0], &args[1], &args[2], jint(host, &args[3]))
    } else {
        None
    }
}

// ── Integer and Long ────────────────────────────────────────────────────────

/// `valueOf` of a text, of `null`, and of a number.
pub open spec fn whole_value(h: HostV, a: Val, int_width: bool) -> Result<Val, FaultV> {
    match a {
        Val::Str(s) => parsed_int(s, 10, int_width),
        Val::Undef => Err(null_number()),
        _ => Ok(Val::Int(jint_of(h, a) as i64)),
    }
}

fn value_of_whole(host: &Host, a: &Value, int_width: bool) -> (r: Result<Value, Fault>)
    ensures
        outcome(r) == whole_value(host@, a@, int_width),
{
    match a {
        Value::Str(s) => parse_int_radix(s.as_str(), 10, int_width),
        Value::Undef => Err(null_number_fault()),
        _ => Ok(Value::Int(jint(host, a))),
    }
}

/// A value's bits at the width of an `int` or a `long`.
pub open spec fn bits_at(n: int, int_width: bool) -> int {
    if int_width {
        n % 0x1_0000_0000
    } else {
        n % 0x1_0000_0000_0000_0000
    }
}

fn width_bits(n: i64, int_width: bool) -> (r: u64)
    ensures
        r == bits_at(n as int, int_width),
{
    if int_width {
        low_bits(n) as u64
    } else {
        bits_of(n)
    }
}

/// `Integer.method(a)` and `Long.method(a)`.
pub open spec fn whole_one(h: HostV, int_width: bool, method: Seq<char>, a: Val) -> Option<Said> {
    let n = jint_of(h, a);
    if method == "parseInt"@ && int_width || method == "parseLong"@ && !int_width {
        if a == Val::Undef {
            Some(Err(null_number()))
        } else {
            val_said(parsed_int(plain(a), 10, int_width))
        }
    } else if method == "valueOf"@ {
        val_said(whole_value(h, a, int_width))
    } else if method == "toString"@ {
        text_said(dec(n))
    } else if method == "toBinaryString"@ {
        text_said(digits(bits_at(n, int_width), 2))
    } else if method == "toHexString"@ {
        text_said(digits(bits_at(n, int_width), 16))
    } else if method == "toOctalString"@ {
        text_said(digits(bits_at(n, int_width), 8))
    } else if method == "signum"@ {
        int_said(sign_of(n))
    } else if method == "hashCode"@ {
        if int_width {
            int_said(hash_or_zero(plain_hash(Val::Int(n as i64))))
        } else {
            int_said(folded(n as i64 as u64) as int)
        }
    } else {
        None
    }
}

/// A hash, zero where there is none.
pub open spec fn hash_or_zero(h: Option<i32>) -> int {
    match h {
        Some(n) => n as int,
        None => 0,
    }
}

fn hash_of_bare(host: &Host, v: &Value) -> (r: i64)
    ensures
        r == hash_or_zero(hash_of(host@, v@)),
{
    match java_hash(host, v) {
        Some(n) => n as i64,
        None => 0,
    }
}

fn call_whole_one(host: &Host, int_width: bool, method: &str, a: &Value) -> (r: Option<
    Result<StaticAnswer, Fault>,
>)
    ensures
        says(r, whole_one(host@, int_width, method@, a@)),
{
    let n: i64 = jint(host, a);
    if same(method, "parseInt") && int_width || same(method, "parseLong") && !int_width {
        if a.is_undef() {
            return Some(Err(null_number_fault()));
        }
        let text: String = plain_text(a);
        say(parse_int_radix(text.as_str(), 10, int_width))
    } else if same(method, "valueOf") {
        say(value_of_whole(host, a, int_width))
    } else if same(method, "toString") {
        say_text(int_text(n))
    } else if same(method, "toBinaryString") {
        say_text(radix_text(width_bits(n, int_width), 2))
    } else if same(method, "toHexString") {
        say_text(radix_text(width_bits(n, int_width), 16))
    } else if same(method, "toOctalString") {
        say_text(radix_text(width_bits(n, int_width), 8))
    } else if same(method, "signum") {
        if n < 0 {
            say_int(-1)
        } else if n == 0 {
            say_int(0)
        } else {
            say_int(1)
        }
    } else if same(method, "hashCode") {
        if int_width {
            let whole: Value = Value::Int(n);
            say_int(hash_of_bare(host, &whole))
        } else {
            say_int(fold_halves(n as u64) as i64)
        }
    } else {
        None
    }
}

/// `Integer.method(a, b)` and `Long.method(a, b)`.
pub open spec fn whole_two(h: HostV, int_width: bool, method: Seq<char>, a: Val, b: Val) -> Option<
    Said,
> {
    let (m, n) = (jint_of(h, a), jint_of(h, b));
    if method == "parseInt"@ && int_width {
        if a == Val::Undef {
            Some(Err(null_number()))
        } else {
            val_said(parsed_int(plain(a), n, true))
        }
    } else if method == "toString"@ && int_width {
        text_said(radix_string(m, n))
    } else if method == "compare"@ {
        int_said(sign_of(m - n))
    } else if method == "max"@ {
        int_said(greater(m, n))
    } else if method == "min"@ {
        int_said(lesser(m, n))
    } else if method == "sum"@ {
        int_said(wrapped(m + n))
    } else {
        None
    }
}

fn sum_wrapped(a: i64, b: i64) -> (r: i64)
    ensures
        r == wrapped(a + b),
{
    let n: i128 = a as i128 + b as i128;
    if n > i64::MAX as i128 {
        (n - 0x1_0000_0000_0000_0000) as i64
    } else if n < i64::MIN as i128 {
        (n + 0x1_0000_0000_0000_0000) as i64
    } else {
        n as i64
    }
}

fn call_whole_two(host: &Host, int_width: bool, method: &str, a: &Value, b: &Value) -> (r: Option<
    Result<StaticAnswer, Fault>,
>)
    ensures
        says(r, whole_two(host@, int_width, method@, a@, b@)),
{
    let m: i64 = jint(host, a);
    let n: i64 = jint(host, b);
    if same(method, "parseInt") && int_width {
        if a.is_undef() {
            return Some(Err(null_number_fault()));
        }
        let text: String = plain_text(a);
        say(parse_int_radix(text.as_str(), n, true))
    } else if same(method, "toString") && int_width {
        say_text(int_to_radix_string(m, n))
    } else if same(method, "compare") {
        if m < n {
            say_int(-1)
        } else if m == n {
            say_int(0)
        } else {
            say_int(1)
        }
    } else if same(method, "max") {
        if m > n {
            say_int(m)
        } else {
            say_int(n)
        }
    } else if same(method, "min") {
        if m < n {
            say_int(m)
        } else {
            say_int(n)
        }
    } else if same(method, "sum") {
        say_int(sum_wrapped(m, n))
    } else {
        None
    }
}

// ── Double and Float ────────────────────────────────────────────────────────

/// `parseDouble`, `parseFloat` and `valueOf` of a text.
pub open spec fn read_said(a: Val, narrow: bool) -> Option<Said> {
    if a == Val::Undef {
        Some(Err(null_float_parse()))
    } else {
        match double_reading(plain(a)) {
            ReadingV::Malformed => Some(Err(number_fault(float_message(plain(a))))),
            reading => task_said(FloatTaskV::Read { reading, narrow }),
        }
    }
}

fn read_double_text(a: &Value, narrow: bool) -> (r: Option<Result<StaticAnswer, Fault>>)
    ensures
        says(r, read_said(a@, narrow)),
{
    if a.is_undef() {
        return Some(Err(null_float_parse_fault()));
    }
    let text: String = plain_text(a);
    match parse_java_double(text.as_str()) {
        Reading::Malformed => Some(
            Err(Fault::java("NumberFormatException", float_format_message(text.as_str()))),
        ),
        reading => say_task(FloatTask::Read { reading, narrow }),
    }
}

/// `Double.method(a)` and `Float.method(a)`. The two parsers of either class
/// reject `null` alike.
pub open spec fn floating_one(h: HostV, narrow: bool, method: Seq<char>, a: Val) -> Option<Said> {
    let d = dbl(h, a);
    if a == Val::Undef && (method == "parseDouble"@ || method == "parseFloat"@ || method
        == "valueOf"@) {
        Some(Err(null_float_parse()))
    } else if method == "valueOf"@ || method == "parseDouble"@ && !narrow || method
        == "parseFloat"@ && narrow {
        read_said(a, narrow)
    } else if method == "toString"@ {
        if narrow {
            task_said(FloatTaskV::ShowFloat(d))
        } else {
            task_said(FloatTaskV::ShowDouble(d))
        }
    } else if method == "isNaN"@ {
        bool_said(is_nan(d))
    } else if method == "isInfinite"@ {
        bool_said(magnitude(d) == INFINITY)
    } else if method == "hashCode"@ {
        if narrow {
            task_said(FloatTaskV::FloatHash(d))
        } else {
            int_said(folded(canonical(d)) as int)
        }
    } else {
        None
    }
}

fn call_floating_one(host: &Host, narrow: bool, method: &str, a: &Value) -> (r: Option<
    Result<StaticAnswer, Fault>,
>)
    ensures
        says(r, floating_one(host@, narrow, method@, a@)),
{
    let d: u64 = jfloat(host, a);
    if a.is_undef() && (same(method, "parseDouble") || same(method, "parseFloat") || same(
        method,
        "valueOf",
    )) {
        Some(Err(null_float_parse_fault()))
    } else if same(method, "valueOf") || same(method, "parseDouble") && !narrow || same(
        method,
        "parseFloat",
    ) && narrow {
        read_double_text(a, narrow)
    } else if same(method, "toString") {
        if narrow {
            say_task(FloatTask::ShowFloat(d))
        } else {
            say_task(FloatTask::ShowDouble(d))
        }
    } else if same(method, "isNaN") {
        say_bool(is_nan_bits(d))
    } else if same(method, "isInfinite") {
        say_bool(magnitude_of(d) == INFINITY)
    } else if same(method, "hashCode") {
        if narrow {
            say_task(FloatTask::FloatHash(d))
        } else {
            say_int(fold_halves(canonical_bits(d)) as i64)
        }
    } else {
        None
    }
}

/// `Double.compare` and `Float.compare`.
pub open spec fn floating_two(h: HostV, narrow: bool, method: Seq<char>, a: Val, b: Val) -> Option<
    Said,
> {
    if method == "compare"@ {
        if narrow {
            task_said(FloatTaskV::FloatCompare(dbl(h, a), dbl(h, b)))
        } else {
            int_said(sign_of(rank(canonical(dbl(h, a))) - rank(canonical(dbl(h, b)))))
        }
    } else {
        None
    }
}

fn call_floating_two(host: &Host, narrow: bool, method: &str, a: &Value, b: &Value) -> (r: Option<
    Result<StaticAnswer, Fault>,
>)
    ensures
        says(r, floating_two(host@, narrow, method@, a@, b@)),
{
    if same(method, "compare") {
        if narrow {
            say_task(FloatTask::FloatCompare(jfloat(host, a), jfloat(host, b)))
        } else {
            say_int(float_compare(jfloat(host, a), jfloat(host, b)))
        }
    } else {
        None
    }
}

// ── Boolean ─────────────────────────────────────────────────────────────────

/// An ASCII letter in lower case.
pub open spec fn ascii_low(c: char) -> char {
    if 'A' <= c <= 'Z' {
        ((c as int) + 32) as char
    } else {
        c
    }
}

/// Whether a text is `true`, in whatever case its letters are.
pub open spec fn spells_true(s: Seq<char>) -> bool {
    s.len() == 4 && ascii_low(s[0]) == 't' && ascii_low(s[1]) == 'r' && ascii_low(s[2]) == 'u'
        && ascii_low(s[3]) == 'e'
}

fn is_true_text(s: &str) -> (r: bool)
    ensures
        r == spells_true(s@),
{
    let v: Vec<char> = chars_of(s);
    v.len() == 4 && (v[0] == 't' || v[0] == 'T') && (v[1] == 'r' || v[1] == 'R') && (v[2] == 'u'
        || v[2] == 'U') && (v[3] == 'e' || v[3] == 'E')
}

/// What one value is rendered as.
pub open spec fn show(v: Val) -> RenderTaskV {
    RenderTaskV { parts: seq![v], open: seq![], sep: seq![], close: seq![], deep: false }
}

fn show_one(v: &Value, deep: bool) -> (r: RenderTask)
    ensures
        r@ == (RenderTaskV { deep, ..show(v@) }),
{
    let mut parts: Vec<Value> = Vec::new();
    parts.push(v.copy());
    assert(vals(parts@) =~= seq![v@]);
    RenderTask { parts, open: String::new(), sep: String::new(), close: String::new(), deep }
}

/// `Boolean.method(args)`.
pub open spec fn boolean_call(method: Seq<char>, args: Seq<Val>) -> Option<Said> {
    if args.len() == 1 && method == "parseBoolean"@ {
        bool_said(spells_true(plain(args[0])))
    } else if args.len() == 1 && method == "toString"@ {
        Some(Ok(StaticAnswerV::Render(show(args[0]))))
    } else if args.len() == 1 && method == "hashCode"@ {
        if args[0] == Val::Bool(true) {
            int_said(1231)
        } else {
            int_said(1237)
        }
    } else if args.len() == 2 && method == "compare"@ {
        if truthy(args[0]) == truthy(args[1]) {
            int_said(0)
        } else if truthy(args[0]) {
            int_said(1)
        } else {
            int_said(-1)
        }
    } else {
        None
    }
}

fn call_boolean(method: &str, args: &Vec<Value>) -> (r: Option<
    Result<StaticAnswer, Fault>,
>)
    ensures
        says(r, boolean_call(method@, vals(args@))),
{
    let ghost vs = vals(args@);
    assert(forall|j: int| 0 <= j < args.len() ==> vs[j] == (#[trigger] args@[j])@);
    if args.len() == 1 && same(method, "parseBoolean") {
        let text: String = plain_text(&args[0]);
        say_bool(is_true_text(text.as_str()))
    } else if args.len() == 1 && same(method, "toString") {
        Some(Ok(StaticAnswer::Render(show_one(&args[0], false))))
    } else if args.len() == 1 && same(method, "hashCode") {
        match &args[0] {
            Value::Bool(true) => say_int(1231),
            _ => say_int(1237),
        }
    } else if args.len() == 2 && same(method, "compare") {
        let a: bool = is_truthy(&args[0]);
        let b: bool = is_truthy(&args[1]);
        if a == b {
            say_int(0)
        } else if a {
            say_int(1)
        } else {
            say_int(-1)
        }
    } else {
        None
    }
}

// ── String ──────────────────────────────────────────────────────────────────

/// A list of renderings, joined.
pub open spec fn show_all(
    parts: Seq<Val>,
    open: Seq<char>,
    sep: Seq<char>,
    close: Seq<char>,
) -> RenderTaskV {
    RenderTaskV { parts, open, sep, close, deep: false }
}

/// `String.method(args)`.
pub open spec fn text_call(h: HostV, method: Seq<char>, args: Seq<Val>) -> Option<Said> {
    if args.len() == 1 && (method == "valueOf"@ || method == "copyValueOf"@) {
        match array_of(h, args[0]) {
            Some(items) => Some(
                Ok(StaticAnswerV::Render(show_all(items, seq![], seq![], seq![]))),
            ),
            None => Some(Ok(StaticAnswerV::Render(show(args[0])))),
        }
    } else if args.len() > 0 && method == "format"@ {
        Some(Ok(StaticAnswerV::Format))
    } else if args.len() >= 2 && method == "join"@ {
        if args[0] == Val::Undef {
            Some(
                Err(
                    java_fault(
                        "NullPointerException"@,
                        "Cannot invoke \"java.lang.CharSequence.toString()\" because \"delimiter\" is null"@,
                    ),
                ),
            )
        } else {
            let parts = match elements(h, args[1]) {
                Some(items) if args.len() == 2 => items,
                _ => args.skip(1),
            };
            Some(Ok(StaticAnswerV::Render(show_all(parts, seq![], plain(args[0]), seq![]))))
        }
    } else {
        None
    }
}

fn call_text(host: &Host, method: &str, args: &Vec<Value>) -> (r: Option<
    Result<StaticAnswer, Fault>,
>)
    ensures
        says(r, text_call(host@, method@, vals(args@))),
{
    let ghost vs = vals(args@);
    assert(forall|j: int| 0 <= j < args.len() ==> vs[j] == (#[trigger] args@[j])@);
    if args.len() == 1 && (same(method, "valueOf") || same(method, "copyValueOf")) {
        match array_items(host, &args[0]) {
            Some(parts) => Some(
                Ok(
                    StaticAnswer::Render(
                        RenderTask {
                            parts,
                            open: String::new(),
                            sep: String::new(),
                            close: String::new(),
                            deep: false,
                        },
                    ),
                ),
            ),
            None => Some(Ok(StaticAnswer::Render(show_one(&args[0], false)))),
        }
    } else if args.len() > 0 && same(method, "format") {
        Some(Ok(StaticAnswer::Format))
    } else if args.len() >= 2 && same(method, "join") {
        if args[0].is_undef() {
            return Some(
                Err(
                    Fault::java(
                        "NullPointerException",
                        own(
                            "Cannot invoke \"java.lang.CharSequence.toString()\" because \"delimiter\" is null",
                        ),
                    ),
                ),
            );
        }
        let whole: Option<Vec<Value>> = sequence_items(host, &args[1]);
        let parts: Vec<Value> = match whole {
            Some(items) => {
                if args.len() == 2 {
                    items
                } else {
                    copy_range(args, 1, args.len())
                }
            },
            None => copy_range(args, 1, args.len()),
        };
        assert(vs.skip(1) =~= vs.subrange(1, vs.len() as int));
        Some(
            Ok(
                StaticAnswer::Render(
                    RenderTask {
                        parts,
                        open: String::new(),
                        sep: plain_text(&args[0]),
                        close: String::new(),
                        deep: false,
                    },
                ),
            ),
        )
    } else {
        None
    }
}

/// The text of a rendering whose parts are rendered as `texts`.
pub open spec fn rendered_text(t: RenderTaskV, texts: Seq<Seq<char>>) -> Seq<char> {
    t.open + join(texts, t.sep) + t.close
}

/// Put the renderings of a task's parts together.
pub fn finish_render(t: &RenderTask, texts: &Vec<String>) -> (r: String)
    ensures
        r@ == rendered_text(t@, views(texts@)),
{
    let mut r: String = own(t.open.as_str());
    r.append(join_texts(texts, t.sep.as_str()).as_str());
    r.append(t.close.as_str());
    r
}

// ── Arrays ──────────────────────────────────────────────────────────────────

/// The decimal texts of `0.0`.
pub open spec fn zero_double() -> DoubleV {
    DoubleV {
        bits: 0,
        plain: "0"@,
        sci: "0e0"@,
        wide: "0.000000000000000000e0"@,
        narrow: "0.0"@,
    }
}

/// What a longer copy of an array is filled up with: the zero of the kind its
/// first element is of, and `null` where that has none.
pub open spec fn filler(items: Seq<Val>) -> Val {
    if items.len() == 0 {
        Val::Undef
    } else {
        match items[0] {
            Val::Int(_) => Val::Int(0),
            Val::Float(_) => Val::Float(zero_double()),
            Val::Bool(_) => Val::Bool(false),
            _ => Val::Undef,
        }
    }
}

/// What a longer copy of an array is filled up with.
pub fn element_default(items: &Vec<Value>) -> (r: Value)
    ensures
        r@ == filler(vals(items@)),
{
    if items.len() == 0 {
        return Value::Undef;
    }
    assert(vals(items@)[0] == items@[0]@);
    match &items[0] {
        Value::Int(_) => Value::Int(0),
        Value::Float(_) => Value::Float(
            Double {
                bits: 0,
                plain: own("0"),
                sci: own("0e0"),
                wide: own("0.000000000000000000e0"),
                narrow: own("0.0"),
            },
        ),
        Value::Bool(_) => Value::Bool(false),
        _ => Value::Undef,
    }
}

/// The first `n` items, or all of them and then `pad` up to `n`.
pub open spec fn fitted(items: Seq<Val>, n: int, pad: Val) -> Seq<Val> {
    if n <= items.len() {
        items.take(n)
    } else {
        items + Seq::new((n - items.len()) as nat, |i: int| pad)
    }
}

fn fit(items: &Vec<Value>, from: usize, n: u64, pad: &Value) -> (r: Vec<Value>)
    requires
        from <= items.len(),
    ensures
        vals(r@) == fitted(vals(items@).skip(from as int), n as int, pad@),
{
    let ghost rest = vals(items@).skip(from as int);
    let mut r: Vec<Value> = Vec::new();
    assert(vals(r@) =~= fitted(rest, 0, pad@));
    while (r.len() as u64) < n
        invariant
            from <= items.len(),
            rest == vals(items@).skip(from as int),
            vals(r@).len() == r.len(),
            r.len() <= n,
            vals(r@) == fitted(rest, r.len() as int, pad@),
        decreases n - r.len(),
    {
        let k: usize = r.len();
        let ghost before = vals(r@);
        if k < items.len() - from {
            r.push(items[from + k].copy());
            assert(rest[k as int] == items@[from + k]@);
        } else {
            r.push(pad.copy());
        }
        assert(vals(r@) =~= before.push(r@[k as int]@));
        assert(vals(r@) =~= fitted(rest, r.len() as int, pad@));
    }
    r
}

/// Whether two arrays hold the same, as natural order sees it.
pub open spec fn same_arrays(h: HostV, a: Seq<Val>, b: Seq<Val>) -> bool {
    a.len() == b.len() && forall|i: int|
        0 <= i < a.len() ==> #[trigger] natural(h, a[i], b[i]) == 0
}

fn is_same_arrays(host: &Host, a: &Vec<Value>, b: &Vec<Value>) -> (r: bool)
    ensures
        r == same_arrays(host@, vals(a@), vals(b@)),
{
    if a.len() != b.len() {
        return false;
    }
    let mut i: usize = 0;
    while i < a.len()
        invariant
            i <= a.len() == b.len(),
            forall|k: int|
                0 <= k < i ==> #[trigger] natural(host@, vals(a@)[k], vals(b@)[k]) == 0,
        decreases a.len() - i,
    {
        if natural_order(host, &a[i], &b[i]) != 0 {
            assert(natural(host@, vals(a@)[i as int], vals(b@)[i as int]) != 0);
            return false;
        }
        i += 1;
    }
    true
}

/// `Arrays.hashCode`: 31 times the hash so far, and the element's, from one on.
pub open spec fn items_hash(h: HostV, items: Seq<Val>) -> i32
    decreases items.len(),
{
    if items.len() == 0 {
        1
    } else {
        items_hash(h, items.drop_last()).wrapping_mul(31).wrapping_add(
            hash_or_zero(hash_of(h, items.last())) as i32,
        )
    }
}

fn hash_items(host: &Host, items: &Vec<Value>) -> (r: i32)
    ensures
        r == items_hash(host@, vals(items@)),
{
    let ghost vs = vals(items@);
    let mut acc: i32 = 1;
    let mut i: usize = 0;
    while i < items.len()
        invariant
            i <= items.len(),
            vs == vals(items@),
            acc == items_hash(host@, vs.take(i as int)),
        decreases items.len() - i,
    {
        proof {
            let t = vs.take(i + 1);
            assert(t.drop_last() =~= vs.take(i as int));
            assert(t.last() == items@[i as int]@);
        }
        let n: i32 = match java_hash(host, &items[i]) {
            Some(x) => x,
            None => 0,
        };
        acc = acc.wrapping_mul(31).wrapping_add(n);
        i += 1;
    }
    assert(vs.take(items.len() as int) =~= vs);
    acc
}

/// Where a search of the range `[lo, hi)` ends: the middle of what is left is
/// compared until it is equal or nothing is left.
pub open spec fn searched(h: HostV, items: Seq<Val>, key: Val, lo: int, hi: int) -> int
    decreases hi - lo,
{
    if lo >= hi {
        -lo - 1
    } else {
        let mid = lo + (hi - lo) / 2;
        let o = natural(h, items[mid], key);
        if o == 0 {
            mid
        } else if o < 0 {
            searched(h, items, key, mid + 1, hi)
        } else {
            searched(h, items, key, lo, mid)
        }
    }
}

/// Whether an array is in the order a search needs: what is below `key` comes
/// first, then what equals it, then what is above.
pub open spec fn partitioned(h: HostV, items: Seq<Val>, key: Val) -> bool {
    forall|i: int, j: int|
        0 <= i < j < items.len() ==> natural(h, #[trigger] items[i], key) <= natural(
            h,
            #[trigger] items[j],
            key,
        )
}

/// A search that succeeds ends at an equal element, and one that fails at the
/// place the key would have to be put: minus that place, minus one.
pub proof fn search_finds_the_place(h: HostV, items: Seq<Val>, key: Val, lo: int, hi: int)
    requires
        partitioned(h, items, key),
        0 <= lo <= hi <= items.len(),
        forall|i: int| 0 <= i < lo ==> natural(h, #[trigger] items[i], key) < 0,
        forall|i: int| hi <= i < items.len() ==> natural(h, #[trigger] items[i], key) > 0,
    ensures
        ({
            let r = searched(h, items, key, lo, hi);
            &&& r >= 0 ==> r < items.len() && natural(h, items[r], key) == 0
            &&& r < 0 ==> -r - 1 <= items.len() && (forall|i: int|
                0 <= i < -r - 1 ==> natural(h, #[trigger] items[i], key) < 0) && (forall|i: int|
                -r - 1 <= i < items.len() ==> natural(h, #[trigger] items[i], key) > 0)
        }),
    decreases hi - lo,
{
    if lo < hi {
        let mid = lo + (hi - lo) / 2;
        let o = natural(h, items[mid], key);
        if o < 0 {
            search_finds_the_place(h, items, key, mid + 1, hi);
        } else if o > 0 {
            search_finds_the_place(h, items, key, lo, mid);
        }
    }
}

fn search(host: &Host, items: &Vec<Value>, key: &Value) -> (r: i64)
    ensures
        r == searched(host@, vals(items@), key@, 0, items.len() as int) as i64,
{
    let mut lo: usize = 0;
    let mut hi: usize = items.len();
    while lo < hi
        invariant
            lo <= hi <= items.len(),
            searched(host@, vals(items@), key@, 0, items.len() as int) == searched(
                host@,
                vals(items@),
                key@,
                lo as int,
                hi as int,
            ),
        decreases hi - lo,
    {
        let mid: usize = lo + (hi - lo) / 2;
        let o: i64 = natural_order(host, &items[mid], key);
        if o == 0 {
            return mid as i64;
        } else if o < 0 {
            lo = mid + 1;
        } else {
            hi = mid;
        }
    }
    (-(lo as i128) - 1) as i64
}

/// `Arrays` was handed what is no array.
pub open spec fn no_array() -> FaultV {
    java_fault("NullPointerException"@, "null array"@)
}

/// What an absent array holds: nothing.
pub open spec fn array_or_empty(h: HostV, v: Val) -> Seq<Val> {
    held(array_of(h, v))
}

/// The array that `Arrays.method(args)` sorts, where it sorts one.
pub open spec fn array_to_sort(h: HostV, method: Seq<char>, args: Seq<Val>) -> Option<u32> {
    if args.len() == 1 && method == "sort"@ && array_of(h, args[0]) is Some {
        match args[0] {
            Val::Obj(id) => Some(id),
            _ => None,
        }
    } else {
        None
    }
}

/// Whether a host has an array rearranged by `at`, which says where each element
/// came from: in ascending natural order where that is an order on them.
pub open spec fn array_sorted(h: HostV, id: u32, at: Seq<int>, after: HostV) -> bool {
    let items = array_or_empty(h, Val::Obj(id));
    &&& at.len() == items.len()
    &&& shuffles(at, 0, items.len() as int)
    &&& after == with_object(h, id as int, ObjV::Array(picked(items, at)))
    &&& is_order(items, natural_in(h)) ==> ascending(
        items,
        natural_in(h),
        at,
        0,
        items.len() as int,
    )
}

/// `Arrays.method(args)`: the host after it, but for an array it sorts, and the
/// answer.
pub open spec fn arrays_call(h: HostV, method: Seq<char>, args: Seq<Val>) -> Option<(HostV, Said)> {
    if args.len() == 1 && method == "toString"@ {
        match array_of(h, args[0]) {
            Some(items) => Some(
                (h, Ok(StaticAnswerV::Render(show_all(items, "["@, ", "@, "]"@)))),
            ),
            None => Some((h, Ok(StaticAnswerV::Render(show(args[0]))))),
        }
    } else if args.len() == 1 && method == "deepToString"@ {
        Some((h, Ok(StaticAnswerV::Render(RenderTaskV { deep: true, ..show(args[0]) }))))
    } else if args.len() == 1 && method == "sort"@ {
        match (args[0], array_of(h, args[0])) {
            (Val::Obj(id), Some(_)) => Some((h, Ok(StaticAnswerV::Value(Val::Undef)))),
            _ => Some((h, Err(no_array()))),
        }
    } else if args.len() == 2 && method == "fill"@ {
        match (args[0], array_of(h, args[0])) {
            (Val::Obj(id), Some(items)) => Some(
                (
                    with_object(
                        h,
                        id as int,
                        ObjV::Array(Seq::new(items.len(), |i: int| args[1])),
                    ),
                    Ok(StaticAnswerV::Value(Val::Undef)),
                ),
            ),
            _ => Some((h, Err(no_array()))),
        }
    } else if args.len() == 2 && method == "equals"@ {
        match (array_of(h, args[0]), array_of(h, args[1])) {
            (Some(a), Some(b)) => Some(
                (h, Ok(StaticAnswerV::Value(Val::Bool(same_arrays(h, a, b))))),
            ),
            _ => Some((h, Ok(StaticAnswerV::Value(Val::Bool(false))))),
        }
    } else if args.len() == 2 && method == "copyOf"@ {
        let items = array_or_empty(h, args[0]);
        let len = jint_of(h, args[1]);
        if len < 0 {
            Some((h, Err(java_fault("NegativeArraySizeException"@, dec(len)))))
        } else {
            Some(
                (h, Ok(StaticAnswerV::Alloc(ObjV::Array(fitted(items, len, filler(items)))))),
            )
        }
    } else if args.len() == 3 && method == "copyOfRange"@ {
        let items = array_or_empty(h, args[0]);
        let (from, to) = (jint_of(h, args[1]), jint_of(h, args[2]));
        if from > to {
            Some(
                (
                    h,
                    Err(
                        java_fault(
                            "IllegalArgumentException"@,
                            dec(from) + " > "@ + dec(to),
                        ),
                    ),
                ),
            )
        } else if from < 0 || from > items.len() {
            Some((h, Err(java_fault("ArrayIndexOutOfBoundsException"@, seq![]))))
        } else {
            Some(
                (
                    h,
                    Ok(
                        StaticAnswerV::Alloc(
                            ObjV::Array(fitted(items.skip(from), to - from, filler(items))),
                        ),
                    ),
                ),
            )
        }
    } else if args.len() == 2 && method == "binarySearch"@ {
        let items = array_or_empty(h, args[0]);
        Some(
            (
                h,
                Ok(
                    StaticAnswerV::Value(
                        Val::Int(searched(h, items, args[1], 0, items.len() as int) as i64),
                    ),
                ),
            ),
        )
    } else if args.len() == 1 && method == "hashCode"@ {
        Some(
            (
                h,
                Ok(
                    StaticAnswerV::Value(
                        Val::Int(items_hash(h, array_or_empty(h, args[0])) as i64),
                    ),
                ),
            ),
        )
    } else {
        None
    }
}

fn array_or_none(host: &Host, v: &Value) -> (r: Vec<Value>)
    ensures
        vals(r@) == array_or_empty(host@, v@),
{
    let found: Option<Vec<Value>> = array_items(host, v);
    copy_held(&found)
}

fn show_items(parts: Vec<Value>) -> (r: RenderTask)
    ensures
        r@ == show_all(vals(parts@), "["@, ", "@, "]"@),
{
    RenderTask { parts, open: own("["), sep: own(", "), close: own("]"), deep: false }
}

fn fill_array(host: &mut Host, target: &Value, v: &Value) -> (r: Result<(), Fault>)
    ensures
        match (target@, array_of(old(host)@, target@)) {
            (Val::Obj(id), Some(items)) => r is Ok && final(host)@ == with_object(
                old(host)@,
                id as int,
                ObjV::Array(Seq::new(items.len(), |i: int| v@)),
            ),
            _ => r matches Err(f) && f@ == no_array() && final(host)@ == old(host)@,
        },
{
    match (target, array_items(host, target)) {
        (Value::Obj(id), Some(items)) => {
            let mut filled: Vec<Value> = Vec::new();
            let mut i: usize = 0;
            assert(vals(items@).len() == items.len());
            while i < items.len()
                invariant
                    i <= items.len(),
                    filled.len() == i,
                    forall|k: int| 0 <= k < i ==> (#[trigger] filled@[k])@ == v@,
                decreases items.len() - i,
            {
                filled.push(v.copy());
                i += 1;
            }
            assert(vals(filled@) =~= Seq::new(vals(items@).len(), |i: int| v@));
            set_object(host, *id as usize, HostObj::Array(filled));
            Ok(())
        },
        _ => Err(Fault::java("NullPointerException", own("null array"))),
    }
}

fn copy_array(host: &Host, source: &Value, from: i64, to: i64) -> (r: StaticAnswer)
    requires
        0 <= from <= to,
        from <= array_or_empty(host@, source@).len(),
    ensures
        r@ == StaticAnswerV::Alloc(
            ObjV::Array(
                fitted(
                    array_or_empty(host@, source@).skip(from as int),
                    to - from,
                    filler(array_or_empty(host@, source@)),
                ),
            ),
        ),
{
    let items: Vec<Value> = array_or_none(host, source);
    assert(vals(items@).len() == items.len());
    let pad: Value = element_default(&items);
    StaticAnswer::Alloc(HostObj::Array(fit(&items, from as usize, (to - from) as u64, &pad)))
}

fn call_sort(host: &mut Host, v: &Value) -> (r: Result<StaticAnswer, Fault>)
    ensures
        match (v@, array_of(old(host)@, v@)) {
            (Val::Obj(id), Some(_)) => says(
                Some(r),
                Some(Ok(StaticAnswerV::Value(Val::Undef))),
            ) && exists|at: Seq<int>| #[trigger] array_sorted(old(host)@, id, at, final(host)@),
            _ => says(Some(r), Some(Err(no_array()))) && final(host)@ == old(host)@,
        },
{
    match v {
        Value::Obj(id) => match sort_array(host, *id) {
            Some(at) => {
                assert(array_sorted(old(host)@, *id, ints(at@), host@));
                Ok(StaticAnswer::Value(Value::Undef))
            },
            None => Err(Fault::java("NullPointerException", own("null array"))),
        },
        _ => Err(Fault::java("NullPointerException", own("null array"))),
    }
}

fn call_arrays(host: &mut Host, method: &str, args: &Vec<Value>) -> (r: Option<
    Result<StaticAnswer, Fault>,
>)
    ensures
        match arrays_call(old(host)@, method@, vals(args@)) {
            Some((h, s)) => says(r, Some(s)) && (array_to_sort(old(host)@, method@, vals(args@)) is None
                ==> final(host)@ == h),
            None => final(host)@ == old(host)@ && r is None,
        },
        array_to_sort(old(host)@, method@, vals(args@)) matches Some(id) ==> exists|at: Seq<int>|
            #[trigger] array_sorted(old(host)@, id, at, final(host)@),
{
    let ghost vs = vals(args@);
    assert(forall|j: int| 0 <= j < args.len() ==> vs[j] == (#[trigger] args@[j])@);
    proof {
        reveal_strlit("sort");
        reveal_strlit("toString");
        reveal_strlit("deepToString");
        assert("sort"@.len() == 4 && "toString"@.len() == 8 && "deepToString"@.len() == 12);
    }
    if args.len() == 1 && same(method, "toString") {
        match array_items(host, &args[0]) {
            Some(items) => Some(Ok(StaticAnswer::Render(show_items(items)))),
            None => Some(Ok(StaticAnswer::Render(show_one(&args[0], false)))),
        }
    } else if args.len() == 1 && same(method, "deepToString") {
        Some(Ok(StaticAnswer::Render(show_one(&args[0], true))))
    } else if args.len() == 1 && same(method, "sort") {
        assert(vs[0] == args@[0]@);
        let r: Result<StaticAnswer, Fault> = call_sort(host, &args[0]);
        proof {
            if let Some(id) = array_to_sort(old(host)@, method@, vs) {
                assert(vs[0] == Val::Obj(id));
                assert(args@[0]@ == Val::Obj(id));
                assert(array_of(old(host)@, Val::Obj(id)) is Some);
                let at = choose|at: Seq<int>| #[trigger] array_sorted(old(host)@, id, at, host@);
                assert(array_sorted(old(host)@, id, at, host@));
            }
        }
        Some(r)
    } else if args.len() == 2 && same(method, "fill") {
        match fill_array(host, &args[0], &args[1]) {
            Ok(_) => Some(Ok(StaticAnswer::Value(Value::Undef))),
            Err(f) => Some(Err(f)),
        }
    } else if args.len() == 2 && same(method, "equals") {
        match (array_items(host, &args[0]), array_items(host, &args[1])) {
            (Some(a), Some(b)) => say_bool(is_same_arrays(host, &a, &b)),
            _ => say_bool(false),
        }
    } else if args.len() == 2 && same(method, "copyOf") {
        let len: i64 = jint(host, &args[1]);
        if len < 0 {
            return Some(Err(Fault::java("NegativeArraySizeException", int_text(len))));
        }
        let ghost items = array_or_empty(host@, vs[0]);
        assert(items.skip(0) =~= items);
        Some(Ok(copy_array(host, &args[0], 0, len)))
    } else if args.len() == 3 && same(method, "copyOfRange") {
        let from: i64 = jint(host, &args[1]);
        let to: i64 = jint(host, &args[2]);
        if from > to {
            let mut m: String = int_text(from);
            m.append(" > ");
            m.append(int_text(to).as_str());
            return Some(Err(Fault::java("IllegalArgumentException", m)));
        }
        let items: Vec<Value> = array_or_none(host, &args[0]);
        assert(vals(items@).len() == items.len());
        if from < 0 || from as u64 > items.len() as u64 {
            return Some(Err(Fault::java("ArrayIndexOutOfBoundsException", String::new())));
        }
        Some(Ok(copy_array(host, &args[0], from, to)))
    } else if args.len() == 2 && same(method, "binarySearch") {
        let items: Vec<Value> = array_or_none(host, &args[0]);
        assert(vals(items@).len() == items.len());
        say_int(search(host, &items, &args[1]))
    } else if args.len() == 1 && same(method, "hashCode") {
        let items: Vec<Value> = array_or_none(host, &args[0]);
        say_int(hash_items(host, &items) as i64)
    } else {
        None
    }
}

// ── Dispatch ────────────────────────────────────────────────────────────────

/// `class.method(args)` where it leaves the host as it is.
pub open spec fn pure_static(h: HostV, class: Seq<char>, method: Seq<char>, args: Seq<Val>) -> Option<
    Said,
> {
    if class == "Math"@ {
        math_call(h, method, args)
    } else if class == "Integer"@ || class == "Long"@ {
        if args.len() == 1 {
            whole_one(h, class == "Integer"@, method, args[0])
        } else if args.len() == 2 {
            whole_two(h, class == "Integer"@, method, args[0], args[1])
        } else {
            None
        }
    } else if class == "Double"@ || class == "Float"@ {
        if args.len() == 1 {
            floating_one(h, class == "Float"@, method, args[0])
        } else if args.len() == 2 {
            floating_two(h, class == "Float"@, method, args[0], args[1])
        } else {
            None
        }
    } else if class == "Character"@ {
        if args.len() == 1 {
            match character_call(method, char_named(h, args[0])) {
                Some(v) => Some(Ok(StaticAnswerV::Value(v))),
                None => None,
            }
        } else {
            None
        }
    } else if class == "Boolean"@ {
        boolean_call(method, args)
    } else if class == "String"@ {
        text_call(h, method, args)
    } else {
        None
    }
}

fn call_pure(host: &Host, class: &str, method: &str, args: &Vec<Value>) -> (r: Option<
    Result<StaticAnswer, Fault>,
>)
    ensures
        says(r, pure_static(host@, class@, method@, vals(args@))),
{
    let ghost vs = vals(args@);
    assert(forall|j: int| 0 <= j < args.len() ==> vs[j] == (#[trigger] args@[j])@);
    if same(class, "Math") {
        call_math(host, method, args)
    } else if same(class, "Integer") || same(class, "Long") {
        if args.len() == 1 {
            call_whole_one(host, same(class, "Integer"), method, &args[0])
        } else if args.len() == 2 {
            call_whole_two(host, same(class, "Integer"), method, &args[0], &args[1])
        } else {
            None
        }
    } else if same(class, "Double") || same(class, "Float") {
        if args.len() == 1 {
            call_floating_one(host, same(class, "Float"), method, &args[0])
        } else if args.len() == 2 {
            call_floating_two(host, same(class, "Float"), method, &args[0], &args[1])
        } else {
            None
        }
    } else if same(class, "Character") {
        if args.len() == 1 {
            match character_method(method, char_arg(host, &args[0])) {
                Some(v) => Some(Ok(StaticAnswer::Value(v))),
                None => None,
            }
        } else {
            None
        }
    } else if same(class, "Boolean") {
        call_boolean(method, args)
    } else if same(class, "String") {
        call_text(host, method, args)
    } else {
        None
    }
}

/// The fault of a static method there is none of.
pub open spec fn unsupported_static(class: Seq<char>, method: Seq<char>, argc: int) -> FaultV {
    internal_fault(
        "javars: unsupported static method `"@ + class + "."@ + method + "` with "@ + dec(argc)
            + " argument(s)"@,
    )
}

/// `class.method(args)`: the host after it, but for an array it sorts, and the
/// answer.
pub open spec fn static_called(h: HostV, class: Seq<char>, method: Seq<char>, args: Seq<Val>) -> (
    HostV,
    Said,
) {
    let found = if class == "Arrays"@ {
        arrays_call(h, method, args)
    } else {
        match pure_static(h, class, method, args) {
            Some(s) => Some((h, s)),
            None => None,
        }
    };
    match found {
        Some(r) => r,
        None => (h, Err(unsupported_static(class, method, args.len() as int))),
    }
}

/// The array that `class.method(args)` sorts, where it sorts one.
pub open spec fn static_sorts(h: HostV, class: Seq<char>, method: Seq<char>, args: Seq<Val>) -> Option<
    u32,
> {
    if class == "Arrays"@ {
        array_to_sort(h, method, args)
    } else {
        None
    }
}

/// Evaluate a static method of the class library.
pub fn static_method(host: &mut Host, class: &str, method: &str, args: &Vec<Value>) -> (r: Result<
    StaticAnswer,
    Fault,
>)
    ensures
        match static_sorts(old(host)@, class@, method@, vals(args@)) {
            Some(id) => exists|at: Seq<int>|
                #[trigger] array_sorted(old(host)@, id, at, final(host)@),
            None => final(host)@ == static_called(old(host)@, class@, method@, vals(args@)).0,
        },
        says(Some(r), Some(static_called(old(host)@, class@, method@, vals(args@)).1)),
{
    let found: Option<Result<StaticAnswer, Fault>> = if same(class, "Arrays") {
        call_arrays(host, method, args)
    } else {
        call_pure(host, class, method, args)
    };
    match found {
        Some(r) => r,
        None => {
            let mut m: String = own("javars: unsupported static method `");
            m.append(class);
            m.append(".");
            m.append(method);
            m.append("` with ");
            m.append(size_text(args.len()).as_str());
            m.append(" argument(s)");
            Err(Fault::internal(m))
        },
    }
}

/// `Arrays.sort`: the array holds its elements rearranged, in ascending natural
/// order where that is an order on them. The answer says which position each
/// element came from; `None` when the handle is no array's.
pub fn sort_array(host: &mut Host, id: u32) -> (r: Option<Vec<usize>>)
    ensures
        r is Some == (array_of(old(host)@, Val::Obj(id)) is Some),
        r is None ==> final(host)@ == old(host)@,
        r matches Some(at) ==> array_sorted(old(host)@, id, ints(at@), final(host)@),
{
    let target: Value = Value::Obj(id);
    let items: Vec<Value> = match array_items(host, &target) {
        Some(items) => items,
        None => {
            return None;
        },
    };
    assert(vals(items@).len() == items.len());
    let at: Vec<usize> = natural_positions(host, &items);
    let sorted: Vec<Value> = pick(&items, &at);
    set_object(host, id as usize, HostObj::Array(sorted));
    Some(at)
}

} // verus!
