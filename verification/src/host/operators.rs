//! The operators on values that the machine does not answer itself, and
//! primitive casts.
use vstd::arithmetic::power2::pow2;
use vstd::prelude::*;

use crate::double::{
    double_compare, double_to_long, is_nan, is_nan_bits, numeric_eq, numerically_equal, rank,
    to_long, two_to,
};
use crate::host::{Host, HostV};
use crate::host::boxes::{as_i64, bare, char_or_int, deboxed};
use crate::host::builder::bits_of;
use crate::host::maths::{ONE, wrap, wrapped};
use crate::host::order::{order_texts, text_order};
use crate::host::render::low_bits;
use crate::text::{own, same};
use crate::value::{Val, Value, int_double, plain, plain_text, round_to_double};

verus! {

/// A value read as a `double`: its bits, or the text that has to be read.
pub enum Numeral {
    Bits(u64),
    Text(String),
}

pub enum NumeralV {
    Bits(u64),
    Text(Seq<char>),
}

impl View for Numeral {
    type V = NumeralV;

    open spec fn view(&self) -> NumeralV {
        match self {
            Numeral::Bits(b) => NumeralV::Bits(*b),
            Numeral::Text(s) => NumeralV::Text(s@),
        }
    }
}

/// A value that is not boxed read as a `double`.
pub open spec fn numeral(v: Val) -> NumeralV {
    match v {
        Val::Int(n) => NumeralV::Bits(int_double(n)),
        Val::Float(d) => NumeralV::Bits(d.bits),
        Val::Bool(b) => NumeralV::Bits(
            if b {
                ONE
            } else {
                0
            },
        ),
        _ => NumeralV::Text(plain(v)),
    }
}

/// A value read as a `double`, through any box: an integer is rounded, a boolean
/// is one or zero, and a text is yet to be read.
pub fn as_numeral(host: &Host, v: &Value) -> (r: Numeral)
    ensures
        r@ == numeral(bare(host@, v@)),
{
    let b: Value = deboxed(host, v);
    match &b {
        Value::Int(n) => Numeral::Bits(round_to_double(*n)),
        Value::Float(d) => Numeral::Bits(d.bits),
        Value::Bool(b) => {
            if *b {
                Numeral::Bits(ONE)
            } else {
                Numeral::Bits(0)
            }
        },
        other => Numeral::Text(plain_text(other)),
    }
}

/// Whether a `double` is below another: not when either is a `NaN`.
pub open spec fn below(a: u64, b: u64) -> bool {
    !is_nan(a) && !is_nan(b) && !numerically_equal(a, b) && rank(a) < rank(b)
}

fn is_below(a: u64, b: u64) -> (r: bool)
    ensures
        r == below(a, b),
{
    !is_nan_bits(a) && !is_nan_bits(b) && !numeric_eq(a, b) && double_compare(a, b) < 0
}

/// A binary operation, and the unary minus.
#[derive(Clone, Copy, PartialEq, Eq, Structural)]
pub enum NumOp {
    Add,
    Sub,
    Mul,
    Div,
    Mod,
    Pow,
    Eq,
    Ne,
    Lt,
    Gt,
    Le,
    Ge,
    Neg,
}

/// How an operation is answered.
pub enum NumAnswer {
    Value(Value),
    /// An operation on `double`s, by their bits.
    Doubles { op: NumOp, a: u64, b: u64 },
    /// An operation on the two operands' renderings.
    Texts,
}

pub enum NumAnswerV {
    Value(Val),
    Doubles { op: NumOp, a: u64, b: u64 },
    Texts,
}

impl View for NumAnswer {
    type V = NumAnswerV;

    open spec fn view(&self) -> NumAnswerV {
        match self {
            NumAnswer::Value(v) => NumAnswerV::Value(v@),
            NumAnswer::Doubles { op, a, b } => NumAnswerV::Doubles { op: *op, a: *a, b: *b },
            NumAnswer::Texts => NumAnswerV::Texts,
        }
    }
}

/// Whether `r` is `s`.
pub open spec fn computes(r: Result<NumAnswer, String>, s: Result<NumAnswerV, Seq<char>>) -> bool {
    match (r, s) {
        (Ok(x), Ok(y)) => x@ == y,
        (Err(x), Err(y)) => x@ == y,
        _ => false,
    }
}

pub open spec fn no_power() -> Seq<char> {
    "javars: Java has no `**` operator"@
}

/// Division toward zero.
pub open spec fn truncated(a: int, b: int) -> int {
    if a >= 0 {
        if b > 0 {
            a / b
        } else {
            -(a / (-b))
        }
    } else {
        if b > 0 {
            -((-a) / b)
        } else {
            (-a) / (-b)
        }
    }
}

/// An operation on two `long`s, which wraps.
pub open spec fn longs(op: NumOp, x: int, y: int) -> Result<Val, Seq<char>> {
    match op {
        NumOp::Add => Ok(Val::Int(wrapped(x + y) as i64)),
        NumOp::Sub => Ok(Val::Int(wrapped(x - y) as i64)),
        NumOp::Mul => Ok(Val::Int(wrapped(x * y) as i64)),
        NumOp::Div => if y == 0 {
            Err("java.lang.ArithmeticException: / by zero"@)
        } else {
            Ok(Val::Int(wrapped(truncated(x, y)) as i64))
        },
        NumOp::Mod => if y == 0 {
            Err("java.lang.ArithmeticException: / by zero"@)
        } else {
            Ok(Val::Int((x - y * truncated(x, y)) as i64))
        },
        NumOp::Eq => Ok(Val::Bool(x == y)),
        NumOp::Ne => Ok(Val::Bool(x != y)),
        NumOp::Lt => Ok(Val::Bool(x < y)),
        NumOp::Gt => Ok(Val::Bool(x > y)),
        NumOp::Le => Ok(Val::Bool(x <= y)),
        NumOp::Ge => Ok(Val::Bool(x >= y)),
        NumOp::Neg => Ok(Val::Int(wrapped(-x) as i64)),
        NumOp::Pow => Err(no_power()),
    }
}

/// An operation on two `double`s: a comparison is decided by their bits.
pub open spec fn doubles(op: NumOp, a: u64, b: u64) -> Result<NumAnswerV, Seq<char>> {
    match op {
        NumOp::Eq => Ok(NumAnswerV::Value(Val::Bool(numerically_equal(a, b)))),
        NumOp::Ne => Ok(NumAnswerV::Value(Val::Bool(!numerically_equal(a, b)))),
        NumOp::Lt => Ok(NumAnswerV::Value(Val::Bool(below(a, b)))),
        NumOp::Gt => Ok(NumAnswerV::Value(Val::Bool(below(b, a)))),
        NumOp::Le => Ok(NumAnswerV::Value(Val::Bool(below(a, b) || numerically_equal(a, b)))),
        NumOp::Ge => Ok(NumAnswerV::Value(Val::Bool(below(b, a) || numerically_equal(a, b)))),
        NumOp::Pow => Err(no_power()),
        _ => Ok(NumAnswerV::Doubles { op, a, b }),
    }
}

/// The bits of a number.
pub open spec fn number_bits(v: Val) -> u64 {
    match v {
        Val::Int(n) => int_double(n),
        Val::Float(d) => d.bits,
        _ => 0,
    }
}

fn bits_of_number(v: &Value) -> (r: u64)
    ensures
        r == number_bits(v@),
{
    match v {
        Value::Int(n) => round_to_double(*n),
        Value::Float(d) => d.bits,
        _ => 0,
    }
}

/// Division toward zero, of 64-bit numbers.
fn divide_truncated(x: i64, y: i64) -> (r: i128)
    requires
        y != 0,
    ensures
        r == truncated(x as int, y as int),
        -0x8000_0000_0000_0000 <= r <= 0x8000_0000_0000_0000,
{
    let a: u128 = if x < 0 {
        (-(x as i128)) as u128
    } else {
        x as u128
    };
    let b: u128 = if y < 0 {
        (-(y as i128)) as u128
    } else {
        y as u128
    };
    let q: u128 = a / b;
    proof {
        assert(0 <= a as int / b as int <= a) by (nonlinear_arith)
            requires
                a >= 0,
                b > 0,
        ;
    }
    if (x < 0) != (y < 0) {
        -(q as i128)
    } else {
        q as i128
    }
}

/// The low 64 bits of a number, read as a signed one.
proof fn lemma_wrapped(p: int, m: int)
    requires
        m == p % 0x1_0000_0000_0000_0000,
    ensures
        0 <= m < 0x1_0000_0000_0000_0000,
        wrapped(p) == if m >= 0x8000_0000_0000_0000 {
            m - 0x1_0000_0000_0000_0000
        } else {
            m
        },
{
    let d = 0x1_0000_0000_0000_0000int;
    let h = 0x8000_0000_0000_0000int;
    let q = p / d;
    vstd::arithmetic::div_mod::lemma_fundamental_div_mod(p, d);
    if m < h {
        vstd::arithmetic::div_mod::lemma_fundamental_div_mod_converse(p + h, d, q, m + h);
    } else {
        assert(d * (q + 1) == d * q + d) by (nonlinear_arith);
        vstd::arithmetic::div_mod::lemma_fundamental_div_mod_converse(
            p + h,
            d,
            q + 1,
            m + h - d,
        );
    }
}

/// The remainder of a negative number is that of its complement, taken from the
/// other end.
proof fn lemma_complement(p: int)
    requires
        p < 0,
    ensures
        p % 0x1_0000_0000_0000_0000 == 0xffff_ffff_ffff_ffff - (-1 - p) % 0x1_0000_0000_0000_0000,
{
    let d = 0x1_0000_0000_0000_0000int;
    let k = -1 - p;
    vstd::arithmetic::div_mod::lemma_fundamental_div_mod(k, d);
    assert(d * (-(k / d) - 1) == -(d * (k / d)) - d) by (nonlinear_arith);
    vstd::arithmetic::div_mod::lemma_fundamental_div_mod_converse(
        p,
        d,
        -(k / d) - 1,
        d - 1 - k % d,
    );
}

fn wrap_mul(x: i64, y: i64) -> (r: i64)
    ensures
        r == wrapped(x * y),
{
    let p: i128 = {
        assert(-0x4000_0000_0000_0000_0000_0000_0000_0000 <= x * y
            <= 0x4000_0000_0000_0000_0000_0000_0000_0000) by (nonlinear_arith)
            requires
                -0x8000_0000_0000_0000 <= x <= 0x7fff_ffff_ffff_ffff,
                -0x8000_0000_0000_0000 <= y <= 0x7fff_ffff_ffff_ffff,
        ;
        x as i128 * y as i128
    };
    proof {
        lemma_wrapped(p as int, p as int % 0x1_0000_0000_0000_0000);
        if p < 0 {
            lemma_complement(p as int);
        }
    }
    let m: u128 = if p >= 0 {
        p as u128 % 0x1_0000_0000_0000_0000
    } else {
        0xffff_ffff_ffff_ffff - ((-1 - p) as u128 % 0x1_0000_0000_0000_0000)
    };
    assert(m == (p as int) % 0x1_0000_0000_0000_0000);
    if m >= 0x8000_0000_0000_0000 {
        (m as i128 - 0x1_0000_0000_0000_0000) as i64
    } else {
        m as i64
    }
}

fn long_op(op: NumOp, x: i64, y: i64) -> (r: Result<Value, String>)
    ensures
        match (r, longs(op, x as int, y as int)) {
            (Ok(v), Ok(w)) => v@ == w,
            (Err(e), Err(f)) => e@ == f,
            _ => false,
        },
{
    match op {
        NumOp::Add => Ok(Value::Int(wrap(x as i128 + y as i128))),
        NumOp::Sub => Ok(Value::Int(wrap(x as i128 - y as i128))),
        NumOp::Mul => Ok(Value::Int(wrap_mul(x, y))),
        NumOp::Div => {
            if y == 0 {
                return Err(own("java.lang.ArithmeticException: / by zero"));
            }
            Ok(Value::Int(wrap(divide_truncated(x, y))))
        },
        NumOp::Mod => {
            if y == 0 {
                return Err(own("java.lang.ArithmeticException: / by zero"));
            }
            let q: i128 = divide_truncated(x, y);
            proof {
                lemma_remainder(x as int, y as int);
                assert(-0x4000_0000_0000_0000_0000_0000_0000_0000 <= y * q
                    <= 0x4000_0000_0000_0000_0000_0000_0000_0000) by (nonlinear_arith)
                    requires
                        -0x8000_0000_0000_0000 <= y <= 0x7fff_ffff_ffff_ffff,
                        -0x8000_0000_0000_0000 <= q <= 0x8000_0000_0000_0000,
                ;
            }
            Ok(Value::Int((x as i128 - y as i128 * q) as i64))
        },
        NumOp::Eq => Ok(Value::Bool(x == y)),
        NumOp::Ne => Ok(Value::Bool(x != y)),
        NumOp::Lt => Ok(Value::Bool(x < y)),
        NumOp::Gt => Ok(Value::Bool(x > y)),
        NumOp::Le => Ok(Value::Bool(x <= y)),
        NumOp::Ge => Ok(Value::Bool(x >= y)),
        NumOp::Neg => Ok(Value::Int(wrap(-(x as i128)))),
        NumOp::Pow => Err(own("javars: Java has no `**` operator")),
    }
}

/// What is left by dividing toward zero is smaller than the divisor, and has the
/// sign of the dividend.
pub proof fn lemma_remainder(x: int, y: int)
    requires
        y != 0,
    ensures
        x >= 0 ==> 0 <= x - y * truncated(x, y),
        x <= 0 ==> x - y * truncated(x, y) <= 0,
        y > 0 ==> -y < x - y * truncated(x, y) < y,
        y < 0 ==> y < x - y * truncated(x, y) < -y,
{
    let a = if x < 0 {
        -x
    } else {
        x
    };
    let b = if y < 0 {
        -y
    } else {
        y
    };
    assert(0 <= a - b * (a / b) < b) by (nonlinear_arith)
        requires
            a >= 0,
            b > 0,
    ;
    let q = a / b;
    assert(y * truncated(x, y) == if x < 0 {
        -(b * q)
    } else {
        b * q
    }) by (nonlinear_arith)
        requires
            x < 0 ==> a == -x,
            x >= 0 ==> a == x,
            y < 0 ==> b == -y,
            y > 0 ==> b == y,
            y != 0,
            q == a / b,
    ;
}

fn double_op(op: NumOp, a: u64, b: u64) -> (r: Result<NumAnswer, String>)
    ensures
        computes(r, doubles(op, a, b)),
{
    match op {
        NumOp::Eq => Ok(NumAnswer::Value(Value::Bool(numeric_eq(a, b)))),
        NumOp::Ne => Ok(NumAnswer::Value(Value::Bool(!numeric_eq(a, b)))),
        NumOp::Lt => Ok(NumAnswer::Value(Value::Bool(is_below(a, b)))),
        NumOp::Gt => Ok(NumAnswer::Value(Value::Bool(is_below(b, a)))),
        NumOp::Le => Ok(NumAnswer::Value(Value::Bool(is_below(a, b) || numeric_eq(a, b)))),
        NumOp::Ge => Ok(NumAnswer::Value(Value::Bool(is_below(b, a) || numeric_eq(a, b)))),
        NumOp::Pow => Err(own("javars: Java has no `**` operator")),
        _ => Ok(NumAnswer::Doubles { op, a, b }),
    }
}

/// An operation on two numbers: two integers are `long`s, and a pair with a
/// floating one is promoted.
pub open spec fn numbers(op: NumOp, a: Val, b: Val) -> Result<NumAnswerV, Seq<char>> {
    match (a, b) {
        (Val::Int(x), Val::Int(y)) => match longs(op, x as int, y as int) {
            Ok(v) => Ok(NumAnswerV::Value(v)),
            Err(e) => Err(e),
        },
        _ => doubles(op, number_bits(a), number_bits(b)),
    }
}

/// An operation on two numbers.
pub fn java_numeric(op: NumOp, a: &Value, b: &Value) -> (r: Result<NumAnswer, String>)
    ensures
        computes(r, numbers(op, a@, b@)),
{
    match (a, b) {
        (Value::Int(x), Value::Int(y)) => match long_op(op, *x, *y) {
            Ok(v) => Ok(NumAnswer::Value(v)),
            Err(e) => Err(e),
        },
        _ => double_op(op, bits_of_number(a), bits_of_number(b)),
    }
}

/// Whether a value is a number, boxed or not.
pub open spec fn java_number(h: HostV, v: Val) -> bool {
    bare(h, v) is Int || bare(h, v) is Float
}

/// Whether a value is a number, boxed or not.
pub fn is_java_number(host: &Host, v: &Value) -> (r: bool)
    ensures
        r == java_number(host@, v@),
{
    let b: Value = deboxed(host, v);
    match &b {
        Value::Int(_) => true,
        Value::Float(_) => true,
        _ => false,
    }
}

/// An operation the machine hands over: minus on a number, `==` and `!=` on two
/// references, arithmetic on two numbers, and anything else by the operands'
/// renderings.
pub open spec fn operated(h: HostV, op: NumOp, a: Val, b: Val) -> Result<NumAnswerV, Seq<char>> {
    if op == NumOp::Neg && java_number(h, a) {
        numbers(op, bare(h, a), Val::Int(0))
    } else if a is Obj && b is Obj && op == NumOp::Eq {
        Ok(NumAnswerV::Value(Val::Bool(a == b)))
    } else if a is Obj && b is Obj && op == NumOp::Ne {
        Ok(NumAnswerV::Value(Val::Bool(a != b)))
    } else if java_number(h, a) && java_number(h, b) {
        numbers(op, bare(h, a), bare(h, b))
    } else {
        Ok(NumAnswerV::Texts)
    }
}

/// Answer an operation the machine hands over. Two boxed numbers are compared as
/// references by `==`, and as numbers by everything else.
pub fn numeric_hook(host: &Host, op: NumOp, a: &Value, b: &Value) -> (r: Result<NumAnswer, String>)
    ensures
        computes(r, operated(host@, op, a@, b@)),
{
    if op == NumOp::Neg && is_java_number(host, a) {
        let zero: Value = Value::Int(0);
        return java_numeric(op, &deboxed(host, a), &zero);
    }
    match (a, b) {
        (Value::Obj(x), Value::Obj(y)) => {
            if op == NumOp::Eq {
                return Ok(NumAnswer::Value(Value::Bool(*x == *y)));
            }
            if op == NumOp::Ne {
                return Ok(NumAnswer::Value(Value::Bool(*x != *y)));
            }
        },
        _ => {},
    }
    if is_java_number(host, a) && is_java_number(host, b) {
        return java_numeric(op, &deboxed(host, a), &deboxed(host, b));
    }
    Ok(NumAnswer::Texts)
}

/// The name of an operation.
pub open spec fn op_name(op: NumOp) -> Seq<char> {
    match op {
        NumOp::Add => "Add"@,
        NumOp::Sub => "Sub"@,
        NumOp::Mul => "Mul"@,
        NumOp::Div => "Div"@,
        NumOp::Mod => "Mod"@,
        NumOp::Pow => "Pow"@,
        NumOp::Eq => "Eq"@,
        NumOp::Ne => "Ne"@,
        NumOp::Lt => "Lt"@,
        NumOp::Gt => "Gt"@,
        NumOp::Le => "Le"@,
        NumOp::Ge => "Ge"@,
        NumOp::Neg => "Neg"@,
    }
}

fn name_of_op(op: NumOp) -> (r: &'static str)
    ensures
        r@ == op_name(op),
{
    match op {
        NumOp::Add => "Add",
        NumOp::Sub => "Sub",
        NumOp::Mul => "Mul",
        NumOp::Div => "Div",
        NumOp::Mod => "Mod",
        NumOp::Pow => "Pow",
        NumOp::Eq => "Eq",
        NumOp::Ne => "Ne",
        NumOp::Lt => "Lt",
        NumOp::Gt => "Gt",
        NumOp::Le => "Le",
        NumOp::Ge => "Ge",
        NumOp::Neg => "Neg",
    }
}

/// An operation on two texts: `+` joins them, a comparison goes by their
/// characters, and nothing else is defined.
pub open spec fn text_operated(op: NumOp, a: Seq<char>, b: Seq<char>) -> Result<Val, Seq<char>> {
    match op {
        NumOp::Add => Ok(Val::Str(a + b)),
        NumOp::Eq => Ok(Val::Bool(a == b)),
        NumOp::Ne => Ok(Val::Bool(a != b)),
        NumOp::Lt => Ok(Val::Bool(text_order(a, b, 0) < 0)),
        NumOp::Gt => Ok(Val::Bool(text_order(a, b, 0) > 0)),
        NumOp::Le => Ok(Val::Bool(text_order(a, b, 0) <= 0)),
        NumOp::Ge => Ok(Val::Bool(text_order(a, b, 0) >= 0)),
        NumOp::Neg => Err("javars: unary `-` is not defined for `"@ + a + "`"@),
        _ => Err(
            "javars: operator `"@ + op_name(op) + "` is not defined for operands `"@ + a
                + "` and `"@ + b + "`"@,
        ),
    }
}

/// An operation on two texts, the operands' renderings.
pub fn text_op(op: NumOp, a: &str, b: &str) -> (r: Result<Value, String>)
    ensures
        match (r, text_operated(op, a@, b@)) {
            (Ok(v), Ok(w)) => v@ == w,
            (Err(e), Err(f)) => e@ == f,
            _ => false,
        },
{
    match op {
        NumOp::Add => {
            let mut s: String = own(a);
            s.append(b);
            Ok(Value::Str(s))
        },
        NumOp::Eq => Ok(Value::Bool(same(a, b))),
        NumOp::Ne => Ok(Value::Bool(!same(a, b))),
        NumOp::Lt => Ok(Value::Bool(order_texts(a, b) < 0)),
        NumOp::Gt => Ok(Value::Bool(order_texts(a, b) > 0)),
        NumOp::Le => Ok(Value::Bool(order_texts(a, b) <= 0)),
        NumOp::Ge => Ok(Value::Bool(order_texts(a, b) >= 0)),
        NumOp::Neg => {
            let mut m: String = own("javars: unary `-` is not defined for `");
            m.append(a);
            m.append("`");
            Err(m)
        },
        _ => {
            let mut m: String = own("javars: operator `");
            m.append(name_of_op(op));
            m.append("` is not defined for operands `");
            m.append(a);
            m.append("` and `");
            m.append(b);
            m.append("`");
            Err(m)
        },
    }
}

// ── Casts and shifts ────────────────────────────────────────────────────────

/// The low bits of `n` read with a sign, `half` being where the sign starts.
pub open spec fn wrapped_at(n: int, half: int) -> int {
    (n + half) % (2 * half) - half
}

pub(crate) fn wrap_at(n: i64, half: i64) -> (r: i64)
    requires
        half == 0x80 || half == 0x8000 || half == 0x8000_0000,
    ensures
        r == wrapped_at(n as int, half as int),
{
    let m: i128 = n as i128 + half as i128 + 0x1_0000_0000_0000_0000;
    let rest: u128 = m as u128 % (2 * half as u128);
    proof {
        let k = n + half;
        if half == 0x80 {
            assert((k + 0x1_0000_0000_0000_0000) % 0x100 == k % 0x100);
        } else if half == 0x8000 {
            assert((k + 0x1_0000_0000_0000_0000) % 0x1_0000 == k % 0x1_0000);
        } else {
            assert((k + 0x1_0000_0000_0000_0000) % 0x1_0000_0000 == k % 0x1_0000_0000);
        }
    }
    (rest as i128 - half as i128) as i64
}

/// A `double` narrowed to an `int`: saturated at both ends.
pub open spec fn to_int32(bits: u64) -> int {
    let n = to_long(bits);
    if n < i32::MIN {
        i32::MIN as int
    } else if n > i32::MAX {
        i32::MAX as int
    } else {
        n
    }
}

pub fn double_to_int(bits: u64) -> (r: i64)
    ensures
        r == to_int32(bits),
{
    let n: i64 = double_to_long(bits);
    if n < i32::MIN as i64 {
        i32::MIN as i64
    } else if n > i32::MAX as i64 {
        i32::MAX as i64
    } else {
        n
    }
}

/// How a primitive cast is answered: by a value, or by a number that is to
/// become a `double`, rounded to a `float` where `narrow`.
pub enum CastAnswer {
    Value(Value),
    Double { num: Numeral, narrow: bool },
}

pub enum CastAnswerV {
    Value(Val),
    Double { num: NumeralV, narrow: bool },
}

impl View for CastAnswer {
    type V = CastAnswerV;

    open spec fn view(&self) -> CastAnswerV {
        match self {
            CastAnswer::Value(v) => CastAnswerV::Value(v@),
            CastAnswer::Double { num, narrow } => CastAnswerV::Double {
                num: num@,
                narrow: *narrow,
            },
        }
    }
}

/// `(ty) v` of primitive types.
pub open spec fn casted(h: HostV, ty: Seq<char>, v: Val) -> CastAnswerV {
    let n = char_or_int(bare(h, v));
    if ty == "int"@ {
        match bare(h, v) {
            Val::Float(d) => CastAnswerV::Value(Val::Int(to_int32(d.bits) as i64)),
            _ => CastAnswerV::Value(Val::Int(wrapped_at(n, 0x8000_0000) as i64)),
        }
    } else if ty == "long"@ {
        CastAnswerV::Value(Val::Int(n as i64))
    } else if ty == "short"@ {
        CastAnswerV::Value(Val::Int(wrapped_at(n, 0x8000) as i64))
    } else if ty == "byte"@ {
        CastAnswerV::Value(Val::Int(wrapped_at(n, 0x80) as i64))
    } else if ty == "char"@ {
        CastAnswerV::Value(Val::Int((n % 0x1_0000) as i64))
    } else if ty == "double"@ {
        CastAnswerV::Double { num: numeral(bare(h, v)), narrow: false }
    } else if ty == "float"@ {
        CastAnswerV::Double { num: numeral(bare(h, v)), narrow: true }
    } else {
        CastAnswerV::Value(v)
    }
}

fn low_sixteen(n: i64) -> (r: i64)
    ensures
        r == (n as int) % 0x1_0000,
{
    let m: i128 = n as i128 + 0x1_0000_0000_0000_0000;
    let rest: u128 = m as u128 % 0x1_0000;
    assert((n + 0x1_0000_0000_0000_0000) % 0x1_0000 == (n as int) % 0x1_0000);
    rest as i64
}

/// `(ty) v` of primitive types: an integral narrowing drops the high bits, a
/// floating value is truncated, and saturated where the type is an `int` or a
/// `long`. Any other type leaves the value alone.
pub fn cast(host: &Host, ty: &str, v: &Value) -> (r: CastAnswer)
    ensures
        r@ == casted(host@, ty@, v@),
{
    let n: i64 = as_i64(host, v);
    if same(ty, "int") {
        match deboxed(host, v) {
            Value::Float(d) => CastAnswer::Value(Value::Int(double_to_int(d.bits))),
            _ => CastAnswer::Value(Value::Int(wrap_at(n, 0x8000_0000))),
        }
    } else if same(ty, "long") {
        CastAnswer::Value(Value::Int(n))
    } else if same(ty, "short") {
        CastAnswer::Value(Value::Int(wrap_at(n, 0x8000)))
    } else if same(ty, "byte") {
        CastAnswer::Value(Value::Int(wrap_at(n, 0x80)))
    } else if same(ty, "char") {
        CastAnswer::Value(Value::Int(low_sixteen(n)))
    } else if same(ty, "double") {
        CastAnswer::Double { num: as_numeral(host, v), narrow: false }
    } else if same(ty, "float") {
        CastAnswer::Double { num: as_numeral(host, v), narrow: true }
    } else {
        CastAnswer::Value(v.copy())
    }
}

/// A cast to an integral type is idempotent, and its result fits the type.
pub proof fn casting_twice_is_casting_once(n: int, half: int)
    requires
        half > 0,
    ensures
        -half <= wrapped_at(n, half) < half,
        wrapped_at(wrapped_at(n, half), half) == wrapped_at(n, half),
{
    let m = n + half;
    let k = 2 * half;
    assert(0 <= m % k < k) by (nonlinear_arith)
        requires
            k > 0,
    ;
    vstd::arithmetic::div_mod::lemma_small_mod((m % k) as nat, k as nat);
}

/// `a / b` of `long`s; a divisor of zero, which is checked for before, gives
/// zero.
pub fn idiv(a: i64, b: i64) -> (r: i64)
    ensures
        r == if b == 0 {
            0
        } else {
            wrapped(truncated(a as int, b as int))
        },
{
    if b == 0 {
        0
    } else {
        wrap(divide_truncated(a, b))
    }
}

/// `value >>> count` at a width of 32 or 64 bits: the bits moved down, zeros
/// moved in. As in Java, only the low bits of the count are used.
pub open spec fn shifted_down(value: int, count: int, width: int) -> int {
    if width == 32 {
        wrapped_at(
            (value % 0x1_0000_0000) / pow2((count % 32) as nat) as int,
            0x8000_0000,
        )
    } else {
        wrapped((value % 0x1_0000_0000_0000_0000) / pow2((count % 64) as nat) as int)
    }
}

/// `value >>> count`.
pub fn ushr(value: i64, count: i64, width: i64) -> (r: i64)
    ensures
        r == shifted_down(value as int, count as int, width as int),
{
    let places: u64 = low_bits(count) as u64;
    proof {
        vstd::arithmetic::div_mod::lemma_mod_mod(count as int, 32, 0x800_0000);
        vstd::arithmetic::div_mod::lemma_mod_mod(count as int, 64, 0x400_0000);
    }
    if width == 32 {
        let d: u64 = two_to(places % 32);
        let v: u64 = low_bits(value) as u64;
        proof {
            assert(0 <= v as int / d as int <= v) by (nonlinear_arith)
                requires
                    v >= 0,
                    d >= 1,
            ;
        }
        let q: u64 = v / d;
        wrap_at(q as i64, 0x8000_0000)
    } else {
        let d: u64 = two_to(places % 64);
        let v: u64 = bits_of(value);
        proof {
            assert(0 <= v as int / d as int <= v) by (nonlinear_arith)
                requires
                    v >= 0,
                    d >= 1,
            ;
        }
        let q: u64 = v / d;
        wrap(q as i128)
    }
}

} // verus!
