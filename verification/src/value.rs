//! Runtime values and the faults a builtin can raise.
use vstd::prelude::*;

use crate::double::{
    Double, DoubleV, double_to_long, exact_whole, is_nan, magnitude, magnitude_of, to_long,
};
use crate::text::{chars_of, dec, int_text, own, parse_i64, same, signed, text_between};

verus! {

/// A value as the machine carries it.
pub enum Value {
    /// `null`, and the result of a `void` call.
    Undef,
    Bool(bool),
    /// `byte`, `short`, `char`, `int` and `long` alike.
    Int(i64),
    /// `float` and `double` alike.
    Float(Double),
    Str(String),
    /// A handle into the object heap.
    Obj(u32),
}

/// What a [`Value`] stands for.
pub enum Val {
    Undef,
    Bool(bool),
    Int(i64),
    Float(DoubleV),
    Str(Seq<char>),
    Obj(u32),
}

impl View for Value {
    type V = Val;

    open spec fn view(&self) -> Val {
        match self {
            Value::Undef => Val::Undef,
            Value::Bool(b) => Val::Bool(*b),
            Value::Int(n) => Val::Int(*n),
            Value::Float(d) => Val::Float(d@),
            Value::Str(s) => Val::Str(s@),
            Value::Obj(id) => Val::Obj(*id),
        }
    }
}

/// What a sequence of values stands for.
pub open spec fn vals(s: Seq<Value>) -> Seq<Val> {
    Seq::new(s.len(), |i: int| s[i]@)
}

impl Value {
    pub fn copy(&self) -> (r: Value)
        ensures
            r@ == self@,
    {
        match self {
            Value::Undef => Value::Undef,
            Value::Bool(b) => Value::Bool(*b),
            Value::Int(n) => Value::Int(*n),
            Value::Float(d) => Value::Float(d.copy()),
            Value::Str(s) => Value::Str(own(s.as_str())),
            Value::Obj(id) => Value::Obj(*id),
        }
    }

    pub fn is_undef(&self) -> (r: bool)
        ensures
            r == (self@ == Val::Undef),
    {
        match self {
            Value::Undef => true,
            _ => false,
        }
    }
}

/// A copy of `v[from..to]`.
pub fn copy_range(v: &Vec<Value>, from: usize, to: usize) -> (r: Vec<Value>)
    requires
        from <= to <= v.len(),
    ensures
        vals(r@) == vals(v@).subrange(from as int, to as int),
{
    let mut r: Vec<Value> = Vec::new();
    let mut i: usize = from;
    while i < to
        invariant
            from <= i <= to <= v.len(),
            vals(r@) =~= vals(v@).subrange(from as int, i as int),
        decreases to - i,
    {
        let ghost before = r@;
        r.push(v[i].copy());
        assert(vals(r@) =~= vals(before).push(v@[i as int]@));
        i += 1;
    }
    r
}

/// A copy of `v`.
pub fn copy_all(v: &Vec<Value>) -> (r: Vec<Value>)
    ensures
        vals(r@) == vals(v@),
{
    let r = copy_range(v, 0, v.len());
    assert(vals(v@).subrange(0, v.len() as int) =~= vals(v@));
    r
}

/// A builtin's plain-text reading of a value: a string is itself, `true` is
/// `1`, `false` and `null` are empty, and a handle names its index.
pub open spec fn plain(v: Val) -> Seq<char> {
    match v {
        Val::Undef => seq![],
        Val::Bool(b) => if b {
            seq!['1']
        } else {
            seq![]
        },
        Val::Int(n) => dec(n as int),
        Val::Float(d) => d.plain,
        Val::Str(s) => s,
        Val::Obj(id) => "(obj:"@ + dec(id as int) + ")"@,
    }
}

/// A builtin's plain-text reading of a value.
pub fn plain_text(v: &Value) -> (r: String)
    ensures
        r@ == plain(v@),
{
    match v {
        Value::Undef => String::new(),
        Value::Bool(b) => {
            let mut r: String = String::new();
            if *b {
                r.push('1');
            }
            assert(r@ =~= plain(v@));
            r
        },
        Value::Int(n) => int_text(*n),
        Value::Float(d) => own(d.plain.as_str()),
        Value::Str(s) => own(s.as_str()),
        Value::Obj(id) => {
            let mut r: String = own("(obj:");
            r.append(int_text(*id as i64).as_str());
            r.append(")");
            r
        },
    }
}

/// Whether a value counts as true: not `null`, not zero, not the empty text
/// and not the text `0`.
pub open spec fn truthy(v: Val) -> bool {
    match v {
        Val::Undef => false,
        Val::Bool(b) => b,
        Val::Int(n) => n != 0,
        Val::Float(d) => magnitude(d.bits) != 0,
        Val::Str(s) => s.len() != 0 && s != "0"@,
        Val::Obj(_) => true,
    }
}

pub fn is_truthy(v: &Value) -> (r: bool)
    ensures
        r == truthy(v@),
{
    match v {
        Value::Undef => false,
        Value::Bool(b) => *b,
        Value::Int(n) => *n != 0,
        Value::Float(d) => magnitude_of(d.bits) != 0,
        Value::Str(s) => !s.as_str().is_empty() && !same(s.as_str(), "0"),
        Value::Obj(_) => true,
    }
}

/// The integer a decimal text stands for, or 0 when it is not one that fits.
pub open spec fn decimal_or_zero(s: Seq<char>) -> int {
    match signed(s, 10) {
        Some(n) if i64::MIN <= n <= i64::MAX => n,
        _ => 0,
    }
}

pub fn parse_or_zero(s: &str) -> (r: i64)
    ensures
        r == decimal_or_zero(s@),
{
    let c: Vec<char> = chars_of(s);
    assert(c@.subrange(0, c.len() as int) =~= s@);
    match parse_i64(&c, 0, c.len(), 10) {
        Some(n) => n,
        None => 0,
    }
}

/// A value read as an integer: a `double` truncates and saturates, a text is
/// parsed, a handle is 0.
pub open spec fn int_of(v: Val) -> int {
    match v {
        Val::Int(n) => n as int,
        Val::Float(d) => to_long(d.bits),
        Val::Bool(b) => if b {
            1
        } else {
            0
        },
        Val::Str(s) => decimal_or_zero(s),
        _ => 0,
    }
}

/// A value read as an integer.
pub fn to_int(v: &Value) -> (r: i64)
    ensures
        r == int_of(v@),
{
    match v {
        Value::Int(n) => *n,
        Value::Float(d) => double_to_long(d.bits),
        Value::Bool(b) => if *b {
            1
        } else {
            0
        },
        Value::Str(s) => parse_or_zero(s.as_str()),
        _ => 0,
    }
}

/// The bits of the `double` a text reads as, 0.0 when it reads as none.
pub uninterp spec fn text_double(s: Seq<char>) -> u64;

/// `fusevm::Value::to_float` of a text, as bits: the `double` that Rust's
/// `parse` reads the text as, or 0.0. The result is a function of the
/// characters alone.
#[verifier::external_body]
fn read_double(s: &str) -> (r: u64)
    ensures
        r == text_double(s@),
{
    fusevm::Value::str(s).to_float().to_bits()
}

/// The bits of the `double` nearest to an integer.
pub uninterp spec fn int_double(n: i64) -> u64;

/// `fusevm::Value::to_float` of an integer, as bits: the nearest `double`. An
/// integer of magnitude up to 2^53 is represented exactly, a greater one stays
/// at or above 2^53 in magnitude, and the result is never `NaN`.
#[verifier::external_body]
pub(crate) fn round_to_double(n: i64) -> (r: u64)
    ensures
        r == int_double(n),
        !is_nan(r),
        -0x20_0000_0000_0000 < n < 0x20_0000_0000_0000 ==> exact_whole(r) && to_long(r) == n,
        n <= -0x20_0000_0000_0000 || n >= 0x20_0000_0000_0000 ==> !exact_whole(r),
{
    fusevm::Value::int(n).to_float().to_bits()
}

/// A value read as a `double`, as bits.
pub open spec fn double_of(v: Val) -> u64 {
    match v {
        Val::Float(d) => d.bits,
        Val::Int(n) => int_double(n),
        Val::Bool(b) => if b {
            0x3ff0_0000_0000_0000
        } else {
            0
        },
        Val::Str(s) => text_double(s),
        _ => 0,
    }
}

/// A value read as a `double`, as bits.
pub fn to_double(v: &Value) -> (r: u64)
    ensures
        r == double_of(v@),
{
    match v {
        Value::Float(d) => d.bits,
        Value::Int(n) => round_to_double(*n),
        Value::Bool(b) => if *b {
            0x3ff0_0000_0000_0000
        } else {
            0
        },
        Value::Str(s) => read_double(s.as_str()),
        _ => 0,
    }
}

// ── Faults ──────────────────────────────────────────────────────────────────

/// A fault a builtin detected: the simple name of the throwable class and its
/// message. An empty class marks an internal error, which no program can catch.
pub struct Fault {
    pub class: String,
    pub msg: String,
}

pub struct FaultV {
    pub class: Seq<char>,
    pub msg: Seq<char>,
}

impl View for Fault {
    type V = FaultV;

    open spec fn view(&self) -> FaultV {
        FaultV { class: self.class@, msg: self.msg@ }
    }
}

/// What follows the last `sep` of `s`; all of it when there is none.
pub open spec fn after_last(s: Seq<char>, sep: char) -> Seq<char>
    decreases s.len(),
{
    if s.len() == 0 || s.last() == sep {
        seq![]
    } else {
        after_last(s.drop_last(), sep).push(s.last())
    }
}

/// What follows the last `sep` of `s`.
pub fn tail_after(s: &str, sep: char) -> (r: String)
    ensures
        r@ == after_last(s@, sep),
{
    let c: Vec<char> = chars_of(s);
    let mut i: usize = c.len();
    proof {
        assert(s@.take(c.len() as int) =~= s@);
        assert(s@.subrange(c.len() as int, c.len() as int) =~= seq![]);
    }
    while i > 0 && c[i - 1] != sep
        invariant
            i <= c.len(),
            c@ == s@,
            after_last(s@, sep) =~= after_last(s@.take(i as int), sep) + s@.subrange(
                i as int,
                c.len() as int,
            ),
        decreases i,
    {
        proof {
            let t = s@.take(i as int);
            assert(t.drop_last() =~= s@.take(i - 1));
            assert(s@.subrange(i - 1, c.len() as int) =~= seq![s@[i - 1]] + s@.subrange(
                i as int,
                c.len() as int,
            ));
        }
        i -= 1;
    }
    proof {
        if i > 0 {
            assert(s@.take(i as int).last() == sep);
        }
        assert(after_last(s@.take(i as int), sep) =~= seq![]);
    }
    text_between(&c, i, c.len())
}

/// A throwable of the class with this simple or qualified name.
pub open spec fn java_fault(class: Seq<char>, msg: Seq<char>) -> FaultV {
    FaultV { class: after_last(class, '.'), msg }
}

/// An internal error.
pub open spec fn internal_fault(msg: Seq<char>) -> FaultV {
    FaultV { class: seq![], msg }
}

impl Fault {
    /// A catchable throwable. The class is kept by its simple name, however it
    /// was spelled: `catch` clauses and the uncaught report both go by it.
    pub fn java(class: &str, msg: String) -> (r: Fault)
        ensures
            r@ == java_fault(class@, msg@),
    {
        Fault { class: tail_after(class, '.'), msg }
    }

    /// An internal error, never catchable.
    pub fn internal(msg: String) -> (r: Fault)
        ensures
            r@ == internal_fault(msg@),
    {
        Fault { class: String::new(), msg }
    }
}

/// Both spellings of a class name make the same fault: a qualifier changes
/// nothing.
pub proof fn qualifier_is_dropped(package: Seq<char>, name: Seq<char>, msg: Seq<char>)
    requires
        !name.contains('.'),
    ensures
        java_fault(package.push('.') + name, msg) == java_fault(name, msg),
        java_fault(name, msg).class == name,
    decreases name.len(),
{
    if name.len() == 0 {
        assert(package.push('.') + name =~= package.push('.'));
    } else {
        let n = name.drop_last();
        let q = package.push('.') + name;
        assert(q.last() == name.last());
        assert(q.drop_last() =~= package.push('.') + n);
        assert(name.contains(name.last()));
        assert forall|c: char| n.contains(c) implies name.contains(c) by {
            let k = choose|k: int| 0 <= k < n.len() && n[k] == c;
            assert(name[k] == c);
        }
        qualifier_is_dropped(package, n, msg);
        assert(after_last(name, '.') =~= name);
    }
}

/// The view of a fallible result.
pub open spec fn outcome(r: Result<Value, Fault>) -> Result<Val, FaultV> {
    match r {
        Ok(v) => Ok(v@),
        Err(f) => Err(f@),
    }
}

/// The view of a fallible result that may be missing.
pub open spec fn opt_outcome(r: Option<Result<Value, Fault>>) -> Option<Result<Val, FaultV>> {
    match r {
        Some(x) => Some(outcome(x)),
        None => None,
    }
}

} // verus!
