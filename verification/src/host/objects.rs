//! Arrays, instances, lambdas and the exception in flight.
use vstd::prelude::*;

use crate::host::{Host, HostObj, HostV, ObjV, field_views, heap_alloc};
use crate::host::collections::with_object;
use crate::host::factories::{array_items, array_of, placed};
use crate::host::lists::push_values;
use crate::host::members::{Members, MembersV, find_sub, sub_of};
use crate::host::render::{field, find_field, low32, low_bits, scalar};
use crate::host::strings::{index_message, index_text, string_array, strings};
use crate::host::views::object;
use crate::prelude::{is_throwable, throwable};
use crate::text::{dec, int_text, own, own_all, same};
use crate::value::{Fault, FaultV, Val, Value, copy_all, internal_fault, java_fault, outcome, vals};

verus! {

// ── Arrays ──────────────────────────────────────────────────────────────────

/// `n` copies of a value.
pub open spec fn copies(v: Val, n: int) -> Seq<Val> {
    Seq::new(
        if n < 0 {
            0
        } else {
            n as nat
        },
        |i: int| v,
    )
}

fn fill_new(v: &Value, n: u64) -> (r: Vec<Value>)
    ensures
        vals(r@) == copies(v@, n as int),
{
    let mut r: Vec<Value> = Vec::new();
    assert(vals(r@) =~= copies(v@, 0));
    while (r.len() as u64) < n
        invariant
            r.len() <= n,
            vals(r@) == copies(v@, r.len() as int),
        decreases n - r.len(),
    {
        let ghost before = r@;
        r.push(v.copy());
        assert(vals(r@) =~= vals(before).push(v@));
        assert(vals(r@) =~= copies(v@, r.len() as int));
    }
    r
}

/// A length no array can have.
pub open spec fn negative_size(n: int) -> FaultV {
    java_fault("NegativeArraySizeException"@, dec(n))
}

/// `new T[n]`.
pub open spec fn new_array(h: HostV, size: int, default: Val) -> (HostV, Result<Val, FaultV>) {
    if size < 0 {
        (h, Err(negative_size(size)))
    } else {
        let (h2, v) = placed(h, ObjV::Array(copies(default, size)));
        (h2, Ok(v))
    }
}

/// `new T[n]`: an array of `size` defaults.
pub fn array_new(host: &mut Host, size: i64, default: &Value) -> (r: Result<Value, Fault>)
    ensures
        (final(host)@, outcome(r)) == new_array(old(host)@, size as int, default@),
{
    if size < 0 {
        return Err(Fault::java("NegativeArraySizeException", int_text(size)));
    }
    let items: Vec<Value> = fill_new(default, size as u64);
    Ok(Value::Obj(heap_alloc(host, HostObj::Array(items))))
}

/// Nested arrays of these sizes, the innermost filled with `default`; the inner
/// ones come first on the heap. Also the handle of the outer one.
pub open spec fn nested(h: HostV, sizes: Seq<int>, default: Val) -> (HostV, Val)
    decreases sizes.len(), 1int, 0int,
{
    if sizes.len() <= 1 {
        placed(
            h,
            ObjV::Array(
                copies(
                    default,
                    if sizes.len() == 0 {
                        0
                    } else {
                        sizes[0]
                    },
                ),
            ),
        )
    } else {
        let (h2, items) = nested_rows(h, sizes, default, sizes[0]);
        placed(h2, ObjV::Array(items))
    }
}

/// The first `n` rows of nested arrays.
pub open spec fn nested_rows(h: HostV, sizes: Seq<int>, default: Val, n: int) -> (HostV, Seq<Val>)
    decreases sizes.len(), 0int, n,
{
    if n <= 0 || sizes.len() == 0 {
        (h, seq![])
    } else {
        let (h1, before) = nested_rows(h, sizes, default, n - 1);
        let (h2, v) = nested(h1, sizes.skip(1), default);
        (h2, before.push(v))
    }
}

fn build_nested(host: &mut Host, sizes: &Vec<i64>, from: usize, default: &Value) -> (r: Value)
    requires
        from < sizes.len(),
        forall|k: int| 0 <= k < sizes.len() ==> #[trigger] sizes@[k] >= 0,
    ensures
        (final(host)@, r@) == nested(
            old(host)@,
            sizes_from(sizes@, from as int),
            default@,
        ),
    decreases sizes.len() - from,
{
    let ghost rest = sizes_from(sizes@, from as int);
    assert(rest[0] == sizes@[from as int]);
    let n: u64 = sizes[from] as u64;
    if from + 1 == sizes.len() {
        let items: Vec<Value> = fill_new(default, n);
        return Value::Obj(heap_alloc(host, HostObj::Array(items)));
    }
    let ghost before = host@;
    let mut items: Vec<Value> = Vec::new();
    let mut k: u64 = 0;
    assert(vals(items@) =~= seq![]);
    while k < n
        invariant
            from + 1 < sizes.len(),
            forall|k: int| 0 <= k < sizes.len() ==> #[trigger] sizes@[k] >= 0,
            rest == sizes_from(sizes@, from as int),
            k <= n,
            (host@, vals(items@)) == nested_rows(before, rest, default@, k as int),
        decreases n - k,
    {
        let ghost held = vals(items@);
        assert(rest.skip(1) =~= sizes_from(sizes@, from + 1));
        let v: Value = build_nested(host, sizes, from + 1, default);
        items.push(v);
        assert(vals(items@) =~= held.push(v@));
        k += 1;
    }
    Value::Obj(heap_alloc(host, HostObj::Array(items)))
}

/// The sizes from a position on, as integers.
pub open spec fn sizes_from(sizes: Seq<i64>, from: int) -> Seq<int> {
    Seq::new((sizes.len() - from) as nat, |i: int| sizes[from + i] as int)
}

/// The first negative size from `i` on.
pub open spec fn first_negative(sizes: Seq<i64>, i: int) -> Option<int>
    decreases sizes.len() - i,
{
    if i < 0 || i >= sizes.len() {
        None
    } else if sizes[i] < 0 {
        Some(sizes[i] as int)
    } else {
        first_negative(sizes, i + 1)
    }
}

/// `new T[s0][s1]…`.
pub open spec fn new_nested(h: HostV, sizes: Seq<i64>, default: Val) -> (
    HostV,
    Result<Val, FaultV>,
) {
    match first_negative(sizes, 0) {
        Some(n) => (h, Err(negative_size(n))),
        None => if sizes.len() == 0 {
            (h, Err(internal_fault("javars: multi-dimensional array needs a size"@)))
        } else {
            let (h2, v) = nested(h, sizes_from(sizes, 0), default);
            (h2, Ok(v))
        },
    }
}

/// `new T[s0][s1]…`: nested arrays, the innermost filled with `default`.
pub fn array_new_multi(host: &mut Host, sizes: &Vec<i64>, default: &Value) -> (r: Result<
    Value,
    Fault,
>)
    ensures
        (final(host)@, outcome(r)) == new_nested(old(host)@, sizes@, default@),
{
    let mut i: usize = 0;
    while i < sizes.len()
        invariant
            i <= sizes.len(),
            host@ == old(host)@,
            forall|k: int| 0 <= k < i ==> #[trigger] sizes@[k] >= 0,
            first_negative(sizes@, 0) == first_negative(sizes@, i as int),
        decreases sizes.len() - i,
    {
        if sizes[i] < 0 {
            return Err(Fault::java("NegativeArraySizeException", int_text(sizes[i])));
        }
        i += 1;
    }
    if sizes.len() == 0 {
        return Err(Fault::internal(own("javars: multi-dimensional array needs a size")));
    }
    Ok(build_nested(host, sizes, 0, default))
}

/// An index outside an array.
pub open spec fn array_index_fault(i: int, len: int) -> FaultV {
    java_fault("ArrayIndexOutOfBoundsException"@, index_message(i, len))
}

/// An index outside an array.
pub fn index_fault(i: i64, len: usize) -> (r: Fault)
    ensures
        r@ == array_index_fault(i as int, len as int),
{
    Fault::java("ArrayIndexOutOfBoundsException", index_text(i, len))
}

/// The array behind a value and the position of an index in it, or the fault;
/// `null` is what a value that is no reference fails with.
pub open spec fn array_place(h: HostV, v: Val, i: int, null: Seq<char>) -> Result<
    (u32, Seq<Val>),
    FaultV,
> {
    match v {
        Val::Obj(id) => match object(h, id as int) {
            Some(ObjV::Array(items)) => if 0 <= i < items.len() {
                Ok((id, items))
            } else {
                Err(array_index_fault(i, items.len() as int))
            },
            _ => Err(internal_fault("javars: not an array"@)),
        },
        _ => Err(java_fault("NullPointerException"@, null)),
    }
}

/// `a[i]`.
pub open spec fn array_read(h: HostV, v: Val, i: int) -> Result<Val, FaultV> {
    match array_place(h, v, i, "Cannot load from array because the array is null"@) {
        Ok((_, items)) => Ok(items[i]),
        Err(f) => Err(f),
    }
}

/// `a[i]`.
pub fn array_get(host: &Host, arr: &Value, i: i64) -> (r: Result<Value, Fault>)
    ensures
        outcome(r) == array_read(host@, arr@, i as int),
{
    match arr {
        Value::Obj(id) => {
            let at: usize = *id as usize;
            if at < host.heap.len() {
                assert(host@.heap[at as int] == host.heap@[at as int]@);
                match &host.heap[at] {
                    HostObj::Array(items) => {
                        assert(vals(items@).len() == items.len());
                        if i < 0 || i as u64 >= items.len() as u64 {
                            return Err(index_fault(i, items.len()));
                        }
                        return Ok(items[i as usize].copy());
                    },
                    _ => {},
                }
            }
            Err(Fault::internal(own("javars: not an array")))
        },
        _ => Err(
            Fault::java(
                "NullPointerException",
                own("Cannot load from array because the array is null"),
            ),
        ),
    }
}

/// `a[i] = v`: the host after it, or the fault.
pub open spec fn array_written(h: HostV, arr: Val, i: int, v: Val) -> Result<HostV, FaultV> {
    match array_place(h, arr, i, "Cannot store to array because the array is null"@) {
        Ok((id, items)) => Ok(with_object(h, id as int, ObjV::Array(items.update(i, v)))),
        Err(f) => Err(f),
    }
}

/// `a[i] = v`.
pub fn array_set(host: &mut Host, arr: &Value, i: i64, v: &Value) -> (r: Result<(), Fault>)
    ensures
        match array_written(old(host)@, arr@, i as int, v@) {
            Ok(h) => r is Ok && final(host)@ == h,
            Err(f) => r matches Err(g) && g@ == f && final(host)@ == old(host)@,
        },
{
    match arr {
        Value::Obj(id) => {
            let at: usize = *id as usize;
            if at >= host.heap.len() {
                return Err(Fault::internal(own("javars: not an array")));
            }
            let ghost before = host@;
            assert(host@.heap[at as int] == host.heap@[at as int]@);
            match &mut host.heap[at] {
                HostObj::Array(items) => {
                    assert(vals(items@).len() == items.len());
                    if i < 0 || i as u64 >= items.len() as u64 {
                        let f: Fault = index_fault(i, items.len());
                        assert(host@.heap =~= before.heap);
                        return Err(f);
                    }
                    let ghost old_items = items@;
                    items.set(i as usize, v.copy());
                    assert(vals(items@) =~= vals(old_items).update(i as int, v@));
                },
                _ => {
                    assert(host@.heap =~= before.heap);
                    return Err(Fault::internal(own("javars: not an array")));
                },
            }
            assert(host@.heap =~= before.heap.update(at as int, host.heap@[at as int]@));
            Ok(())
        },
        _ => Err(
            Fault::java(
                "NullPointerException",
                own("Cannot store to array because the array is null"),
            ),
        ),
    }
}

/// What is stored at an index is what is read there, and nothing else changes.
pub proof fn array_reads_give_back_writes(h: HostV, arr: Val, i: int, v: Val, j: int)
    ensures
        array_written(h, arr, i, v) matches Ok(g) ==> array_read(g, arr, i) == Ok::<Val, FaultV>(
            v,
        ) && (j != i ==> array_read(g, arr, j) == array_read(h, arr, j)),
{
}

// ── Instances ───────────────────────────────────────────────────────────────

/// `recv.name` read.
pub open spec fn field_read(h: HostV, recv: Val, name: Seq<char>) -> Result<Val, FaultV> {
    match recv {
        Val::Obj(id) => match object(h, id as int) {
            Some(ObjV::Array(items)) if name == "length"@ => Ok(Val::Int(items.len() as i64)),
            Some(ObjV::Instance { fields, .. }) => match field(fields, name) {
                Some(v) => Ok(v),
                None => Ok(Val::Undef),
            },
            _ => Err(internal_fault("javars: no field `"@ + name + "`"@)),
        },
        _ => if name == "length"@ {
            Err(
                java_fault(
                    "NullPointerException"@,
                    "Cannot read the array length because the array is null"@,
                ),
            )
        } else {
            Err(
                java_fault(
                    "NullPointerException"@,
                    "Cannot read field \""@ + name + "\" because the receiver is null"@,
                ),
            )
        },
    }
}

/// `recv.name` read: an array's `length`, or a field of an instance. A field
/// that was never written is `null`.
pub fn field_get(host: &Host, recv: &Value, name: &str) -> (r: Result<Value, Fault>)
    ensures
        outcome(r) == field_read(host@, recv@, name@),
{
    match recv {
        Value::Obj(id) => {
            let at: usize = *id as usize;
            if at < host.heap.len() {
                assert(host@.heap[at as int] == host.heap@[at as int]@);
                match &host.heap[at] {
                    HostObj::Array(items) => {
                        assert(vals(items@).len() == items.len());
                        if same(name, "length") {
                            return Ok(Value::Int(items.len() as i64));
                        }
                    },
                    HostObj::Instance { fields, .. } => {
                        return match find_field(fields, name) {
                            Some(i) => Ok(fields[i].1.copy()),
                            None => Ok(Value::Undef),
                        };
                    },
                    _ => {},
                }
            }
            let mut m: String = own("javars: no field `");
            m.append(name);
            m.append("`");
            Err(Fault::internal(m))
        },
        _ => {
            if same(name, "length") {
                return Err(
                    Fault::java(
                        "NullPointerException",
                        own("Cannot read the array length because the array is null"),
                    ),
                );
            }
            let mut m: String = own("Cannot read field \"");
            m.append(name);
            m.append("\" because the receiver is null");
            Err(Fault::java("NullPointerException", m))
        },
    }
}

/// The fields with one of them written: in its place where it is there, else at
/// the end.
pub open spec fn with_field(fields: Seq<(Seq<char>, Val)>, name: Seq<char>, v: Val) -> Seq<
    (Seq<char>, Val),
>
    decreases fields.len(),
{
    if fields.len() == 0 {
        seq![(name, v)]
    } else if fields[0].0 == name {
        seq![(name, v)] + fields.skip(1)
    } else {
        seq![fields[0]] + with_field(fields.skip(1), name, v)
    }
}

proof fn lemma_with_field_at(fields: Seq<(Seq<char>, Val)>, name: Seq<char>, v: Val, i: int)
    requires
        0 <= i <= fields.len(),
        forall|k: int| 0 <= k < i ==> (#[trigger] fields[k]).0 != name,
        i < fields.len() ==> fields[i].0 == name,
    ensures
        with_field(fields, name, v) == if i < fields.len() {
            fields.update(i, (name, v))
        } else {
            fields.push((name, v))
        },
    decreases fields.len(),
{
    if fields.len() == 0 {
        assert(fields.push((name, v)) =~= seq![(name, v)]);
    } else if i == 0 {
        assert(seq![(name, v)] + fields.skip(1) =~= fields.update(0, (name, v)));
    } else {
        let rest = fields.skip(1);
        assert(fields[0].0 != name);
        assert forall|k: int| 0 <= k < i - 1 implies (#[trigger] rest[k]).0 != name by {
            assert(rest[k] == fields[k + 1]);
        }
        lemma_with_field_at(rest, name, v, i - 1);
        if i < fields.len() {
            assert(seq![fields[0]] + rest.update(i - 1, (name, v)) =~= fields.update(
                i,
                (name, v),
            ));
        } else {
            assert(seq![fields[0]] + rest.push((name, v)) =~= fields.push((name, v)));
        }
    }
}

/// What is written to a field is what is read from it, and no other field
/// changes.
pub proof fn field_reads_give_back_writes(
    fields: Seq<(Seq<char>, Val)>,
    name: Seq<char>,
    v: Val,
    other: Seq<char>,
)
    ensures
        field(with_field(fields, name, v), name) == Some(v),
        other != name ==> field(with_field(fields, name, v), other) == field(fields, other),
    decreases fields.len(),
{
    let after = with_field(fields, name, v);
    if fields.len() == 0 {
        assert(after[0] == (name, v));
        assert(after.skip(1) =~= seq![]);
        assert(field(after.skip(1), other) is None);
    } else if fields[0].0 == name {
        assert(after[0] == (name, v));
        assert(after.skip(1) =~= fields.skip(1));
    } else {
        field_reads_give_back_writes(fields.skip(1), name, v, other);
        assert(after[0] == fields[0]);
        assert(after.skip(1) =~= with_field(fields.skip(1), name, v));
    }
}

/// `recv.name = v`: the host after it, or the fault.
pub open spec fn field_written(h: HostV, recv: Val, name: Seq<char>, v: Val) -> Result<
    HostV,
    FaultV,
> {
    match recv {
        Val::Obj(id) => match object(h, id as int) {
            Some(ObjV::Instance { class, fields }) => Ok(
                with_object(
                    h,
                    id as int,
                    ObjV::Instance { class, fields: with_field(fields, name, v) },
                ),
            ),
            _ => Err(internal_fault("javars: cannot assign field `"@ + name + "`"@)),
        },
        _ => Err(
            java_fault(
                "NullPointerException"@,
                "Cannot assign field \""@ + name + "\" because the receiver is null"@,
            ),
        ),
    }
}

fn write_field(fields: &mut Vec<(String, Value)>, name: &str, v: &Value)
    ensures
        field_views(final(fields)@) == with_field(field_views(old(fields)@), name@, v@),
{
    let ghost before = field_views(fields@);
    match find_field(fields, name) {
        Some(i) => {
            proof {
                assert(forall|k: int|
                    0 <= k < i ==> (#[trigger] before[k]).0 == fields@[k].0@);
                lemma_with_field_at(before, name@, v@, i as int);
            }
            fields.set(i, (own(name), v.copy()));
            assert(field_views(fields@) =~= before.update(i as int, (name@, v@)));
        },
        None => {
            proof {
                assert(forall|k: int|
                    0 <= k < fields.len() ==> (#[trigger] before[k]).0 == fields@[k].0@);
                lemma_with_field_at(before, name@, v@, before.len() as int);
            }
            fields.push((own(name), v.copy()));
            assert(field_views(fields@) =~= before.push((name@, v@)));
        },
    }
}

/// `recv.name = v`.
pub fn field_set(host: &mut Host, recv: &Value, name: &str, v: &Value) -> (r: Result<(), Fault>)
    ensures
        match field_written(old(host)@, recv@, name@, v@) {
            Ok(h) => r is Ok && final(host)@ == h,
            Err(f) => r matches Err(g) && g@ == f && final(host)@ == old(host)@,
        },
{
    let ghost before = host@;
    match recv {
        Value::Obj(id) => {
            let at: usize = *id as usize;
            if at < host.heap.len() {
                assert(host@.heap[at as int] == host.heap@[at as int]@);
                match &mut host.heap[at] {
                    HostObj::Instance { fields, .. } => {
                        write_field(fields, name, v);
                        assert(host@.heap =~= before.heap.update(
                            at as int,
                            host.heap@[at as int]@,
                        ));
                        return Ok(());
                    },
                    _ => {},
                }
                assert(host@.heap =~= before.heap);
            }
            let mut m: String = own("javars: cannot assign field `");
            m.append(name);
            m.append("`");
            Err(Fault::internal(m))
        },
        _ => {
            let mut m: String = own("Cannot assign field \"");
            m.append(name);
            m.append("\" because the receiver is null");
            Err(Fault::java("NullPointerException", m))
        },
    }
}

/// `new C(...)`: an instance without fields; its initialisers and constructor
/// run afterwards.
pub fn new_instance(host: &mut Host, class: &str) -> (r: Value)
    ensures
        (final(host)@, r@) == placed(
            old(host)@,
            ObjV::Instance { class: class@, fields: seq![] },
        ),
{
    let fields: Vec<(String, Value)> = Vec::new();
    assert(field_views(fields@) =~= seq![]);
    Value::Obj(heap_alloc(host, HostObj::Instance { class: own(class), fields }))
}

/// `main`'s arguments, as a new array.
pub fn argv_array(host: &mut Host) -> (r: Value)
    ensures
        (final(host)@, r@) == placed(old(host)@, ObjV::Array(strings(old(host)@.argv))),
{
    let obj: HostObj = string_array(own_all(&host.argv));
    Value::Obj(heap_alloc(host, obj))
}

// ── Lambdas ─────────────────────────────────────────────────────────────────

/// The body, the parameter count and the captures of a lambda.
pub open spec fn closure_of(h: HostV, v: Val) -> Option<(u16, u8, Seq<Val>)> {
    match v {
        Val::Obj(id) => match object(h, id as int) {
            Some(ObjV::Closure { name_idx, params, captures }) => Some(
                (name_idx, params, captures),
            ),
            _ => None,
        },
        _ => None,
    }
}

/// The body, the parameter count and the captures of a lambda, `None` for any
/// other value.
pub fn closure_meta(host: &Host, v: &Value) -> (r: Option<(u16, u8, Vec<Value>)>)
    ensures
        match (r, closure_of(host@, v@)) {
            (Some(x), Some(y)) => x.0 == y.0 && x.1 == y.1 && vals(x.2@) == y.2,
            (None, None) => true,
            _ => false,
        },
{
    match v {
        Value::Obj(id) => {
            let at: usize = *id as usize;
            if at >= host.heap.len() {
                return None;
            }
            assert(host@.heap[at as int] == host.heap@[at as int]@);
            match &host.heap[at] {
                HostObj::Closure { name_idx, params, captures } => Some(
                    (*name_idx, *params, copy_all(captures)),
                ),
                _ => None,
            }
        },
        _ => None,
    }
}

/// Make a lambda of a body and what it captured.
pub fn make_closure(host: &mut Host, name_idx: u16, params: u8, captures: Vec<Value>) -> (r: Value)
    ensures
        (final(host)@, r@) == placed(
            old(host)@,
            ObjV::Closure { name_idx, params, captures: vals(captures@) },
        ),
{
    Value::Obj(heap_alloc(host, HostObj::Closure { name_idx, params, captures }))
}

/// How the call of a lambda goes on.
pub enum ClosureCall {
    /// An exception is in flight: nothing runs.
    Unwinding,
    /// The body at `entry` runs with these values.
    Run { entry: usize, frame: Vec<Value> },
}

pub enum ClosureCallV {
    Unwinding,
    Run { entry: usize, frame: Seq<Val> },
}

impl View for ClosureCall {
    type V = ClosureCallV;

    open spec fn view(&self) -> ClosureCallV {
        match self {
            ClosureCall::Unwinding => ClosureCallV::Unwinding,
            ClosureCall::Run { entry, frame } => ClosureCallV::Run {
                entry: *entry,
                frame: vals(frame@),
            },
        }
    }
}

/// `n` of the arguments: what is missing is `null`, what is over is dropped.
pub open spec fn padded_args(args: Seq<Val>, n: int) -> Seq<Val> {
    Seq::new(
        n as nat,
        |i: int|
            if i < args.len() {
                args[i]
            } else {
                Val::Undef
            },
    )
}

/// How the call of a lambda goes on: its parameters, then its captures.
pub open spec fn closure_called(h: HostV, m: MembersV, clo: Val, args: Seq<Val>) -> Result<
    ClosureCallV,
    FaultV,
> {
    if h.pending is Some {
        Ok(ClosureCallV::Unwinding)
    } else {
        match closure_of(h, clo) {
            None => Err(
                java_fault(
                    "NullPointerException"@,
                    "Cannot invoke a functional interface method because the target is null"@,
                ),
            ),
            Some((name_idx, params, captures)) => match sub_of(m.subs, name_idx, 0) {
                None => Err(internal_fault("javars: lambda body not found"@)),
                Some(entry) => Ok(
                    ClosureCallV::Run {
                        entry,
                        frame: padded_args(args, params as int) + captures,
                    },
                ),
            },
        }
    }
}

/// How the call of a lambda goes on.
pub fn closure_call(host: &Host, m: &Members, clo: &Value, args: &Vec<Value>) -> (r: Result<
    ClosureCall,
    Fault,
>)
    ensures
        match (r, closure_called(host@, m@, clo@, vals(args@))) {
            (Ok(x), Ok(y)) => x@ == y,
            (Err(x), Err(y)) => x@ == y,
            _ => false,
        },
{
    if host.pending.is_some() {
        return Ok(ClosureCall::Unwinding);
    }
    let (name_idx, params, captures): (u16, u8, Vec<Value>) = match closure_meta(host, clo) {
        Some(c) => c,
        None => {
            return Err(
                Fault::java(
                    "NullPointerException",
                    own("Cannot invoke a functional interface method because the target is null"),
                ),
            );
        },
    };
    let entry: usize = match find_sub(&m.subs, name_idx) {
        Some(e) => e,
        None => {
            return Err(Fault::internal(own("javars: lambda body not found")));
        },
    };
    let ghost vs = vals(args@);
    let mut frame: Vec<Value> = Vec::new();
    let mut i: usize = 0;
    while i < params as usize
        invariant
            i <= params,
            vs == vals(args@),
            frame.len() == i,
            forall|k: int|
                0 <= k < i ==> (#[trigger] frame@[k])@ == padded_args(vs, params as int)[k],
        decreases params - i,
    {
        if i < args.len() {
            frame.push(args[i].copy());
        } else {
            frame.push(Value::Undef);
        }
        i += 1;
    }
    assert(vals(frame@) =~= padded_args(vs, params as int));
    push_values(&mut frame, &captures);
    Ok(ClosureCall::Run { entry, frame })
}

// ── Exceptions ──────────────────────────────────────────────────────────────

/// `throw e`: the exception is in flight.
pub fn throw_value(host: &mut Host, exc: Value)
    ensures
        final(host)@ == (HostV { pending: Some(exc@), ..old(host)@ }),
{
    host.pending = Some(exc);
}

/// Whether an exception is in flight.
pub fn exc_pending(host: &Host) -> (r: bool)
    ensures
        r == (host@.pending is Some),
{
    host.pending.is_some()
}

/// Take the exception in flight for a handler; `null` when there is none.
pub fn exc_take(host: &mut Host) -> (r: Value)
    ensures
        r@ == (match old(host)@.pending {
            Some(v) => v,
            None => Val::Undef,
        }),
        final(host)@ == (HostV { pending: None, ..old(host)@ }),
{
    let mut taken: Option<Value> = None;
    std::mem::swap(&mut taken, &mut host.pending);
    match taken {
        Some(v) => v,
        None => Value::Undef,
    }
}

/// The fault a check of the compiler raises: only the modelled exceptions can
/// be.
pub open spec fn named_fault(class: Seq<char>, msg: Seq<char>) -> FaultV {
    if throwable(class) {
        java_fault(class, msg)
    } else {
        internal_fault("javars: unknown fault `"@ + class + "`"@)
    }
}

/// The fault a check of the compiler raises.
pub fn check_fault(class: &str, msg: &str) -> (r: Fault)
    ensures
        r@ == named_fault(class@, msg@),
{
    if is_throwable(class) {
        Fault::java(class, own(msg))
    } else {
        let mut m: String = own("javars: unknown fault `");
        m.append(class);
        m.append("`");
        Fault::internal(m)
    }
}

// ── Characters ──────────────────────────────────────────────────────────────

/// A code point as the text of its character; anything else is itself.
pub open spec fn char_text(v: Val) -> Val {
    match v {
        Val::Int(n) => Val::Str(
            seq![
                match scalar(low32(n as int)) {
                    Some(c) => c,
                    None => '\u{fffd}',
                },
            ],
        ),
        _ => v,
    }
}

/// A code point as the text of its character; anything else is itself.
pub fn char_to_string(v: &Value) -> (r: Value)
    ensures
        r@ == char_text(v@),
{
    match v {
        Value::Int(n) => {
            let c: char = match char::from_u32(low_bits(*n)) {
                Some(c) => c,
                None => '\u{fffd}',
            };
            let mut s: String = String::new();
            s.push(c);
            assert(s@ =~= seq![c]);
            Value::Str(s)
        },
        other => other.copy(),
    }
}

/// The string conversion of a `char`, and element by element of a `char[]`.
pub open spec fn chars_text(h: HostV, v: Val) -> (HostV, Val) {
    match v {
        Val::Obj(_) => match array_of(h, v) {
            Some(items) => placed(
                h,
                ObjV::Array(Seq::new(items.len(), |i: int| char_text(items[i]))),
            ),
            None => (h, v),
        },
        _ => (h, char_text(v)),
    }
}

/// The string conversion of a `char`, and element by element of a `char[]`,
/// which is a new array.
pub fn chr_str(host: &mut Host, v: &Value) -> (r: Value)
    ensures
        (final(host)@, r@) == chars_text(old(host)@, v@),
{
    match v {
        Value::Obj(_) => match array_items(host, v) {
            Some(items) => {
                let mut texts: Vec<Value> = Vec::new();
                let mut i: usize = 0;
                let ghost vs = vals(items@);
                while i < items.len()
                    invariant
                        i <= items.len(),
                        vs == vals(items@),
                        texts.len() == i,
                        forall|k: int|
                            0 <= k < i ==> (#[trigger] texts@[k])@ == char_text(vs[k]),
                    decreases items.len() - i,
                {
                    texts.push(char_to_string(&items[i]));
                    i += 1;
                }
                assert(vals(texts@) =~= Seq::new(vs.len(), |i: int| char_text(vs[i])));
                Value::Obj(heap_alloc(host, HostObj::Array(texts)))
            },
            None => v.copy(),
        },
        _ => char_to_string(v),
    }
}

} // verus!
