//! Calls on a receiver whose class is not the program's: the methods of
//! `Object`, of the boxed primitives and of `String`, and `compareTo`.
use vstd::prelude::*;

use crate::double::{canonical, double_compare, rank, sign_of};
use crate::host::{Host, HostObj, HostV, ObjV, opt_val};
use crate::host::boxes::{as_i64, bare, char_or_int, deboxed, unbox, unboxed};
use crate::host::builder::{builder_id, is_builder};
use crate::host::collections::{is_coll, is_collection};
use crate::host::members::{
    Members, MembersV, any_user_tostring, class_of_instance, declares, instance_class,
    tostring_suffix,
};
use crate::host::objects::{closure_meta, closure_of};
use crate::host::operators::{
    Numeral, NumeralV, as_numeral, double_to_int, numeral, to_int32, wrap_at, wrapped_at,
};
use crate::host::order::{equal, hash_of, java_hash, plain_hash, value_eq};
use crate::host::render::{render_at, text_at};
use crate::host::strings::{Answer, AnswerV, compare_strings, compared, string_call, string_method};
use crate::host::views::object;
use crate::text::{own, same};
use crate::value::{
    Fault, FaultV, Val, Value, double_of, int_of, internal_fault, is_truthy, java_fault, plain,
    plain_text, to_double, to_int, truthy, vals,
};

verus! {

// ── Object ──────────────────────────────────────────────────────────────────

/// What `Object.toString()` gives for an object.
pub open spec fn default_text(h: HostV, id: u32) -> Seq<char> {
    match text_at(h, Val::Obj(id), 1) {
        Some(t) => t,
        None => seq![],
    }
}

/// What `Object.toString()` gives for an object.
pub fn obj_default_str(host: &Host, id: u32) -> (r: String)
    ensures
        r@ == default_text(host@, id),
{
    let v: Value = Value::Obj(id);
    match render_at(host, &v, 1) {
        Some(t) => t,
        None => String::new(),
    }
}

/// Whether an object has the methods of `Object` unchanged: an instance, and a
/// builder.
pub open spec fn inherits_object(h: HostV, id: u32) -> bool {
    match object(h, id as int) {
        Some(ObjV::Instance { .. }) => true,
        Some(ObjV::Builder { .. }) => true,
        _ => false,
    }
}

/// The methods of `Object`: `equals` is identity, `hashCode` the handle.
pub open spec fn object_call(h: HostV, recv: Val, method: Seq<char>, args: Seq<Val>) -> Option<Val> {
    match recv {
        Val::Obj(id) => if !inherits_object(h, id) {
            None
        } else if method == "equals"@ && args.len() == 1 {
            Some(Val::Bool(args[0] == recv))
        } else if method == "hashCode"@ && args.len() == 0 {
            Some(Val::Int(id as i64))
        } else if method == "toString"@ && args.len() == 0 {
            Some(Val::Str(default_text(h, id)))
        } else {
            None
        },
        _ => None,
    }
}

/// The methods of `Object`, for a receiver that declares none of its own.
pub fn object_method(host: &Host, recv: &Value, method: &str, args: &Vec<Value>) -> (r: Option<Value>)
    ensures
        opt_val(r) == object_call(host@, recv@, method@, vals(args@)),
{
    match recv {
        Value::Obj(id) => {
            let i: usize = *id as usize;
            if i >= host.heap.len() {
                return None;
            }
            assert(host@.heap[i as int] == host.heap@[i as int]@);
            let inherits: bool = match &host.heap[i] {
                HostObj::Instance { .. } => true,
                HostObj::Builder { .. } => true,
                _ => false,
            };
            if !inherits {
                return None;
            }
            if same(method, "equals") && args.len() == 1 {
                assert(vals(args@)[0] == args@[0]@);
                match &args[0] {
                    Value::Obj(other) => Some(Value::Bool(*other == *id)),
                    _ => Some(Value::Bool(false)),
                }
            } else if same(method, "hashCode") && args.len() == 0 {
                Some(Value::Int(*id as i64))
            } else if same(method, "toString") && args.len() == 0 {
                Some(Value::Str(obj_default_str(host, *id)))
            } else {
                None
            }
        },
        _ => None,
    }
}

// ── Boxed primitives ────────────────────────────────────────────────────────

/// How a method of a boxed primitive is answered: by a value, or by the bits of
/// a `double`, rounded to a `float` where `narrow`.
pub enum BoxedAnswer {
    Value(Value),
    Double { bits: u64, narrow: bool },
}

pub enum BoxedAnswerV {
    Value(Val),
    Double { bits: u64, narrow: bool },
}

impl View for BoxedAnswer {
    type V = BoxedAnswerV;

    open spec fn view(&self) -> BoxedAnswerV {
        match self {
            BoxedAnswer::Value(v) => BoxedAnswerV::Value(v@),
            BoxedAnswer::Double { bits, narrow } => BoxedAnswerV::Double {
                bits: *bits,
                narrow: *narrow,
            },
        }
    }
}

/// `intValue()`: a floating value saturates, an integral one wraps.
pub open spec fn int_value(v: Val) -> int {
    match v {
        Val::Float(d) => to_int32(d.bits),
        _ => wrapped_at(int_of(v), 0x8000_0000),
    }
}

/// The methods a boxed primitive has, where it is carried as a bare value.
pub open spec fn boxed_call(recv: Val, method: Seq<char>, argc: int) -> Option<BoxedAnswerV> {
    if argc != 0 || recv is Obj || recv == Val::Undef {
        None
    } else if method == "hashCode"@ && !(recv is Str) {
        match plain_hash(recv) {
            Some(n) => Some(BoxedAnswerV::Value(Val::Int(n as i64))),
            None => None,
        }
    } else if method == "intValue"@ {
        Some(BoxedAnswerV::Value(Val::Int(int_value(recv) as i64)))
    } else if method == "shortValue"@ {
        Some(BoxedAnswerV::Value(Val::Int(wrapped_at(int_value(recv), 0x8000) as i64)))
    } else if method == "byteValue"@ {
        Some(BoxedAnswerV::Value(Val::Int(wrapped_at(int_value(recv), 0x80) as i64)))
    } else if method == "longValue"@ {
        Some(BoxedAnswerV::Value(Val::Int(int_of(recv) as i64)))
    } else if method == "doubleValue"@ {
        Some(BoxedAnswerV::Double { bits: double_of(recv), narrow: false })
    } else if method == "floatValue"@ {
        Some(BoxedAnswerV::Double { bits: double_of(recv), narrow: true })
    } else if method == "booleanValue"@ && recv is Bool {
        Some(BoxedAnswerV::Value(recv))
    } else if method == "charValue"@ {
        Some(BoxedAnswerV::Value(recv))
    } else {
        None
    }
}

/// The methods a boxed primitive has, where it is carried as a bare value.
pub fn boxed_method(host: &Host, recv: &Value, method: &str, argc: usize) -> (r: Option<BoxedAnswer>)
    ensures
        match (r, boxed_call(recv@, method@, argc as int)) {
            (Some(x), Some(y)) => x@ == y,
            (None, None) => true,
            _ => false,
        },
{
    if argc != 0 {
        return None;
    }
    let text: bool = match recv {
        Value::Obj(_) => {
            return None;
        },
        Value::Undef => {
            return None;
        },
        Value::Str(_) => true,
        _ => false,
    };
    let narrowed: i64 = match recv {
        Value::Float(d) => double_to_int(d.bits),
        other => wrap_at(to_int(other), 0x8000_0000),
    };
    if same(method, "hashCode") && !text {
        match java_hash(host, recv) {
            Some(n) => Some(BoxedAnswer::Value(Value::Int(n as i64))),
            None => None,
        }
    } else if same(method, "intValue") {
        Some(BoxedAnswer::Value(Value::Int(narrowed)))
    } else if same(method, "shortValue") {
        Some(BoxedAnswer::Value(Value::Int(wrap_at(narrowed, 0x8000))))
    } else if same(method, "byteValue") {
        Some(BoxedAnswer::Value(Value::Int(wrap_at(narrowed, 0x80))))
    } else if same(method, "longValue") {
        Some(BoxedAnswer::Value(Value::Int(to_int(recv))))
    } else if same(method, "doubleValue") {
        Some(BoxedAnswer::Double { bits: to_double(recv), narrow: false })
    } else if same(method, "floatValue") {
        Some(BoxedAnswer::Double { bits: to_double(recv), narrow: true })
    } else if same(method, "booleanValue") && is_boolean(recv) {
        Some(BoxedAnswer::Value(recv.copy()))
    } else if same(method, "charValue") {
        Some(BoxedAnswer::Value(recv.copy()))
    } else {
        None
    }
}

// ── compareTo ───────────────────────────────────────────────────────────────

/// How a comparison is answered.
pub enum CompareAnswer {
    Sign(i64),
    /// `String.compareTo` of the two operands' renderings.
    Texts,
    /// `Double.compare` of two numbers.
    Doubles(Numeral, Numeral),
}

pub enum CompareAnswerV {
    Sign(i64),
    Texts,
    Doubles(NumeralV, NumeralV),
}

impl View for CompareAnswer {
    type V = CompareAnswerV;

    open spec fn view(&self) -> CompareAnswerV {
        match self {
            CompareAnswer::Sign(n) => CompareAnswerV::Sign(*n),
            CompareAnswer::Texts => CompareAnswerV::Texts,
            CompareAnswer::Doubles(a, b) => CompareAnswerV::Doubles(a@, b@),
        }
    }
}

/// The parameter a box names when it is compared with `null`.
pub open spec fn compared_param(tag: Seq<char>, a: Val) -> Seq<char> {
    if tag == "Integer"@ || tag == "int"@ {
        "anotherInteger"@
    } else if tag == "Long"@ || tag == "long"@ {
        "anotherLong"@
    } else if tag == "Double"@ || tag == "double"@ || tag == "Float"@ || tag == "float"@ {
        "anotherDouble"@
    } else if tag == "Character"@ || tag == "char"@ {
        "anotherCharacter"@
    } else if tag == "Boolean"@ || tag == "boolean"@ {
        "b"@
    } else if tag == "String"@ || tag == "CharSequence"@ {
        "anotherString"@
    } else {
        match a {
            Val::Str(_) => "anotherString"@,
            Val::Float(_) => "anotherDouble"@,
            Val::Bool(_) => "b"@,
            _ => "anotherInteger"@,
        }
    }
}

fn param_compared(tag: &str, a: &Value) -> (r: &'static str)
    ensures
        r@ == compared_param(tag@, a@),
{
    if same(tag, "Integer") || same(tag, "int") {
        "anotherInteger"
    } else if same(tag, "Long") || same(tag, "long") {
        "anotherLong"
    } else if same(tag, "Double") || same(tag, "double") || same(tag, "Float") || same(
        tag,
        "float",
    ) {
        "anotherDouble"
    } else if same(tag, "Character") || same(tag, "char") {
        "anotherCharacter"
    } else if same(tag, "Boolean") || same(tag, "boolean") {
        "b"
    } else if same(tag, "String") || same(tag, "CharSequence") {
        "anotherString"
    } else {
        match a {
            Value::Str(_) => "anotherString",
            Value::Float(_) => "anotherDouble",
            Value::Bool(_) => "b",
            _ => "anotherInteger",
        }
    }
}

/// The difference of two booleans as numbers.
pub open spec fn bool_difference(a: bool, b: bool) -> int {
    if a == b {
        0
    } else if a {
        1
    } else {
        -1
    }
}

/// `Double.compare` of two numerals: decided where both are bits.
pub open spec fn doubles_compared(a: NumeralV, b: NumeralV) -> CompareAnswerV {
    match (a, b) {
        (NumeralV::Bits(x), NumeralV::Bits(y)) => CompareAnswerV::Sign(
            sign_of(rank(canonical(x)) - rank(canonical(y))) as i64,
        ),
        _ => CompareAnswerV::Doubles(a, b),
    }
}

/// `a.compareTo(b)` of two values that are not `null`, by the receiver's declared
/// type, or by what they are where that is not known. Whole numbers give a sign,
/// characters a difference.
pub open spec fn values_compared(h: HostV, tag: Seq<char>, a: Val, b: Val) -> CompareAnswerV {
    let (m, n) = (char_or_int(bare(h, a)), char_or_int(bare(h, b)));
    if tag == "Integer"@ || tag == "int"@ || tag == "Long"@ || tag == "long"@ {
        CompareAnswerV::Sign(sign_of(m - n) as i64)
    } else if tag == "Character"@ || tag == "char"@ || tag == "Short"@ || tag == "short"@ || tag
        == "Byte"@ || tag == "byte"@ {
        CompareAnswerV::Sign((m - n) as i64)
    } else if tag == "Double"@ || tag == "double"@ || tag == "Float"@ || tag == "float"@ {
        doubles_compared(numeral(bare(h, a)), numeral(bare(h, b)))
    } else if tag == "Boolean"@ || tag == "boolean"@ {
        CompareAnswerV::Sign(bool_difference(truthy(a), truthy(b)) as i64)
    } else if tag == "String"@ || tag == "CharSequence"@ {
        CompareAnswerV::Sign(compared(plain(a), plain(b), false) as i64)
    } else if a is Str || b is Str {
        CompareAnswerV::Sign(compared(plain(a), plain(b), false) as i64)
    } else if a is Float || b is Float {
        doubles_compared(numeral(bare(h, a)), numeral(bare(h, b)))
    } else if a is Bool && b is Bool {
        CompareAnswerV::Sign(bool_difference(truthy(a), truthy(b)) as i64)
    } else {
        CompareAnswerV::Sign(sign_of(m - n) as i64)
    }
}

/// `a.compareTo(b)` on a boxed primitive, a string or a builder.
pub open spec fn compare_answer(h: HostV, tag: Seq<char>, a: Val, b: Val) -> Result<
    CompareAnswerV,
    FaultV,
> {
    if a == Val::Undef {
        Err(
            java_fault(
                "NullPointerException"@,
                "Cannot invoke \"java.lang.Comparable.compareTo(Object)\" because the receiver is null"@,
            ),
        )
    } else if b == Val::Undef {
        Err(
            java_fault(
                "NullPointerException"@,
                "Cannot read field \"value\" because \""@ + compared_param(tag, a)
                    + "\" is null"@,
            ),
        )
    } else if builder_id(h, a) is Some || builder_id(h, b) is Some {
        Ok(CompareAnswerV::Texts)
    } else {
        match class_of_instance(h, a) {
            Some(class) => Err(
                internal_fault("javars: class `"@ + class + "` does not declare `compareTo`"@),
            ),
            None => Ok(values_compared(h, tag, a, b)),
        }
    }
}

fn compare_doubles(a: Numeral, b: Numeral) -> (r: CompareAnswer)
    ensures
        r@ == doubles_compared(a@, b@),
{
    match (&a, &b) {
        (Numeral::Bits(x), Numeral::Bits(y)) => {
            return CompareAnswer::Sign(double_compare(*x, *y));
        },
        _ => {},
    }
    CompareAnswer::Doubles(a, b)
}

fn compare_bools(a: bool, b: bool) -> (r: CompareAnswer)
    ensures
        r@ == CompareAnswerV::Sign(bool_difference(a, b) as i64),
{
    if a == b {
        CompareAnswer::Sign(0)
    } else if a {
        CompareAnswer::Sign(1)
    } else {
        CompareAnswer::Sign(-1)
    }
}

fn compare_signs(m: i64, n: i64) -> (r: CompareAnswer)
    ensures
        r@ == CompareAnswerV::Sign(sign_of(m - n) as i64),
{
    if m < n {
        CompareAnswer::Sign(-1)
    } else if m == n {
        CompareAnswer::Sign(0)
    } else {
        CompareAnswer::Sign(1)
    }
}

fn compare_plain(a: &Value, b: &Value) -> (r: CompareAnswer)
    ensures
        r@ == CompareAnswerV::Sign(compared(plain(a@), plain(b@), false) as i64),
{
    let x: String = plain_text(a);
    let y: String = plain_text(b);
    CompareAnswer::Sign(compare_strings(x.as_str(), y.as_str(), false))
}

fn is_text(v: &Value) -> (r: bool)
    ensures
        r == (v@ is Str),
{
    match v {
        Value::Str(_) => true,
        _ => false,
    }
}

fn is_floating(v: &Value) -> (r: bool)
    ensures
        r == (v@ is Float),
{
    match v {
        Value::Float(_) => true,
        _ => false,
    }
}

fn is_boolean(v: &Value) -> (r: bool)
    ensures
        r == (v@ is Bool),
{
    match v {
        Value::Bool(_) => true,
        _ => false,
    }
}

fn compare_values(host: &Host, tag: &str, a: &Value, b: &Value) -> (r: CompareAnswer)
    ensures
        r@ == values_compared(host@, tag@, a@, b@),
{
    let m: i64 = as_i64(host, a);
    let n: i64 = as_i64(host, b);
    if same(tag, "Integer") || same(tag, "int") || same(tag, "Long") || same(tag, "long") {
        compare_signs(m, n)
    } else if same(tag, "Character") || same(tag, "char") || same(tag, "Short") || same(
        tag,
        "short",
    ) || same(tag, "Byte") || same(tag, "byte") {
        CompareAnswer::Sign((m as i128 - n as i128) as i64)
    } else if same(tag, "Double") || same(tag, "double") || same(tag, "Float") || same(
        tag,
        "float",
    ) {
        compare_doubles(as_numeral(host, a), as_numeral(host, b))
    } else if same(tag, "Boolean") || same(tag, "boolean") {
        compare_bools(is_truthy(a), is_truthy(b))
    } else if same(tag, "String") || same(tag, "CharSequence") {
        compare_plain(a, b)
    } else if is_text(a) || is_text(b) {
        compare_plain(a, b)
    } else if is_floating(a) || is_floating(b) {
        compare_doubles(as_numeral(host, a), as_numeral(host, b))
    } else if is_boolean(a) && is_boolean(b) {
        compare_bools(is_truthy(a), is_truthy(b))
    } else {
        compare_signs(m, n)
    }
}

/// `a.compareTo(b)` on a boxed primitive, a string or a builder; `tag` is the
/// receiver's declared type.
pub fn compare_to(host: &Host, tag: &str, a: &Value, b: &Value) -> (r: Result<CompareAnswer, Fault>)
    ensures
        match (r, compare_answer(host@, tag@, a@, b@)) {
            (Ok(x), Ok(y)) => x@ == y,
            (Err(x), Err(y)) => x@ == y,
            _ => false,
        },
{
    if a.is_undef() {
        return Err(
            Fault::java(
                "NullPointerException",
                own(
                    "Cannot invoke \"java.lang.Comparable.compareTo(Object)\" because the receiver is null",
                ),
            ),
        );
    }
    if b.is_undef() {
        let mut m: String = own("Cannot read field \"value\" because \"");
        m.append(param_compared(tag, a));
        m.append("\" is null");
        return Err(Fault::java("NullPointerException", m));
    }
    if is_builder(host, a).is_some() || is_builder(host, b).is_some() {
        return Ok(CompareAnswer::Texts);
    }
    if let Some(class) = instance_class(host, a) {
        let mut m: String = own("javars: class `");
        m.append(class.as_str());
        m.append("` does not declare `compareTo`");
        return Err(Fault::internal(m));
    }
    Ok(compare_values(host, tag, a, b))
}

// ── Dispatch ────────────────────────────────────────────────────────────────

/// How a call on a receiver goes on.
pub enum StrStep {
    /// The receiver is a lambda: its body is called.
    Closure,
    /// The receiver is a collection.
    Collection,
    /// The receiver is a builder, whose method needs its arguments rendered.
    Builder(u32),
    /// The receiver is rendered by the program's own `toString`.
    Render,
    /// The answer, or a text to format with the arguments.
    Answer { answer: Answer, text: String },
    Double { bits: u64, narrow: bool },
}

pub enum StrStepV {
    Closure,
    Collection,
    Builder(u32),
    Render,
    Answer { answer: AnswerV, text: Seq<char> },
    Double { bits: u64, narrow: bool },
}

impl View for StrStep {
    type V = StrStepV;

    open spec fn view(&self) -> StrStepV {
        match self {
            StrStep::Closure => StrStepV::Closure,
            StrStep::Collection => StrStepV::Collection,
            StrStep::Builder(id) => StrStepV::Builder(*id),
            StrStep::Render => StrStepV::Render,
            StrStep::Answer { answer, text } => StrStepV::Answer { answer: answer@, text: text@ },
            StrStep::Double { bits, narrow } => StrStepV::Double { bits: *bits, narrow: *narrow },
        }
    }
}

/// A value as the answer.
pub open spec fn step_value(v: Val) -> Result<StrStepV, FaultV> {
    Ok(StrStepV::Answer { answer: AnswerV::Value(v), text: seq![] })
}

/// A call on a bare value that is not `null`: the methods of its box, then those
/// of its text.
pub open spec fn bare_step(h: HostV, recv: Val, method: Seq<char>, args: Seq<Val>) -> Result<
    StrStepV,
    FaultV,
> {
    match boxed_call(recv, method, args.len() as int) {
        Some(BoxedAnswerV::Value(v)) => step_value(v),
        Some(BoxedAnswerV::Double { bits, narrow }) => Ok(StrStepV::Double { bits, narrow }),
        None => match string_call(h, plain(recv), method, args) {
            Ok(a) => Ok(StrStepV::Answer { answer: a, text: plain(recv) }),
            Err(f) => Err(f),
        },
    }
}

/// How `recv.method(args)` goes on.
pub open spec fn str_begun(
    h: HostV,
    m: MembersV,
    recv: Val,
    method: Seq<char>,
    args: Seq<Val>,
) -> Result<StrStepV, FaultV> {
    if closure_of(h, recv) is Some {
        Ok(StrStepV::Closure)
    } else if is_coll(h, recv) {
        Ok(StrStepV::Collection)
    } else if builder_id(h, recv) is Some && method != "equals"@ && method != "hashCode"@ && method
        != "getClass"@ {
        Ok(StrStepV::Builder(recv->Obj_0))
    } else if method == "toString"@ && args.len() == 0 && declares(m, tostring_suffix())
        && class_of_instance(h, recv) is Some {
        Ok(StrStepV::Render)
    } else {
        match object_call(h, recv, method, args) {
            Some(v) => step_value(v),
            None => if recv == Val::Undef {
                Err(
                    java_fault(
                        "NullPointerException"@,
                        "Cannot invoke \"String."@ + method
                            + "()\" because the receiver is null"@,
                    ),
                )
            } else if unbox(h, recv) is Some && method == "equals"@ && args.len() == 1 {
                step_value(Val::Bool(equal(h, recv, args[0])))
            } else if unbox(h, recv) is Some && method == "hashCode"@ && args.len() == 0 {
                match hash_of(h, recv) {
                    Some(n) => step_value(Val::Int(n as i64)),
                    None => step_value(Val::Undef),
                }
            } else {
                bare_step(h, bare(h, recv), method, args)
            },
        }
    }
}

fn answer_step(v: Value) -> (r: Result<StrStep, Fault>)
    ensures
        r matches Ok(s) && Ok::<StrStepV, FaultV>(s@) == step_value(v@),
{
    let text: String = String::new();
    Ok(StrStep::Answer { answer: Answer::Value(v), text })
}

fn step_bare(host: &Host, recv: &Value, method: &str, args: &Vec<Value>) -> (r: Result<
    StrStep,
    Fault,
>)
    ensures
        match (r, bare_step(host@, recv@, method@, vals(args@))) {
            (Ok(x), Ok(y)) => x@ == y,
            (Err(x), Err(y)) => x@ == y,
            _ => false,
        },
{
    match boxed_method(host, recv, method, args.len()) {
        Some(BoxedAnswer::Value(v)) => answer_step(v),
        Some(BoxedAnswer::Double { bits, narrow }) => Ok(StrStep::Double { bits, narrow }),
        None => {
            let text: String = plain_text(recv);
            match string_method(host, text.as_str(), method, args) {
                Ok(answer) => Ok(StrStep::Answer { answer, text }),
                Err(f) => Err(f),
            }
        },
    }
}

/// Begin `recv.method(args)` where the receiver's class is not known to be the
/// program's: answer it, or say what has to run.
pub fn str_dispatch(host: &Host, m: &Members, recv: &Value, method: &str, args: &Vec<Value>) -> (r:
    Result<StrStep, Fault>)
    ensures
        match (r, str_begun(host@, m@, recv@, method@, vals(args@))) {
            (Ok(x), Ok(y)) => x@ == y,
            (Err(x), Err(y)) => x@ == y,
            _ => false,
        },
{
    if closure_meta(host, recv).is_some() {
        return Ok(StrStep::Closure);
    }
    if is_collection(host, recv) {
        return Ok(StrStep::Collection);
    }
    if let Some(id) = is_builder(host, recv) {
        if !same(method, "equals") && !same(method, "hashCode") && !same(method, "getClass") {
            return Ok(StrStep::Builder(id));
        }
    }
    if same(method, "toString") && args.len() == 0 && any_user_tostring(m) && instance_class(
        host,
        recv,
    ).is_some() {
        return Ok(StrStep::Render);
    }
    if let Some(v) = object_method(host, recv, method, args) {
        return answer_step(v);
    }
    if recv.is_undef() {
        let mut msg: String = own("Cannot invoke \"String.");
        msg.append(method);
        msg.append("()\" because the receiver is null");
        return Err(Fault::java("NullPointerException", msg));
    }
    if unboxed(host, recv).is_some() {
        if same(method, "equals") && args.len() == 1 {
            assert(vals(args@)[0] == args@[0]@);
            return answer_step(Value::Bool(value_eq(host, recv, &args[0])));
        }
        if same(method, "hashCode") && args.len() == 0 {
            return match java_hash(host, recv) {
                Some(n) => answer_step(Value::Int(n as i64)),
                None => answer_step(Value::Undef),
            };
        }
    }
    let inner: Value = deboxed(host, recv);
    step_bare(host, &inner, method, args)
}

} // verus!
