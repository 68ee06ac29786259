//! `equals` where a program declares its own.
//!
//! A collection compares elements with `equals`. Running a body of the program
//! needs the machine, so a call that may need one first says what is to be
//! compared; the answers come in as an [`EqPlan`].
use vstd::prelude::*;

use crate::host::{Host, HostObj, HostV, ObjV, Order, entry_views, opt_val};
use crate::host::classes::{is_subclass_of, subclass};
use crate::host::collections::{entries_of, map_entries};
use crate::host::lists::{
    EqPlan, EqPlanV, first_at, last_at, lemma_first_in_range, opt_vals, push_value, same_place,
    seq_views,
};
use crate::host::members::{
    Members, MembersV, any_user_equals, class_of_instance, declares, equals_suffix,
    hashcode_suffix, instance_class, member_entry, member_of,
};
use crate::host::order::{equal, value_eq};
use crate::host::render::{keys_of, map_keys, values_of};
use crate::host::views::{is_view, object, sublist_items, view_items};
use crate::text::same;
use crate::value::{Val, Value, copy_all, vals};

verus! {

/// The instance and the body of the program's `equals` a value answers with.
pub open spec fn equals_body(h: HostV, m: MembersV, v: Val) -> Option<(u32, usize)> {
    match (v, class_of_instance(h, v)) {
        (Val::Obj(id), Some(class)) => if declares(m, equals_suffix()) {
            match member_of(h, m, class, equals_suffix()) {
                Some(e) => Some((id, e)),
                None => None,
            }
        } else {
            None
        },
        _ => None,
    }
}

/// The instance and the body of the program's `equals` a value answers with;
/// `None` for a value whose `equals` is the built-in one.
pub fn user_equals(host: &Host, m: &Members, v: &Value) -> (r: Option<(u32, usize)>)
    ensures
        r == equals_body(host@, m@, v@),
{
    match v {
        Value::Obj(id) => {
            if !any_user_equals(m) {
                return None;
            }
            match instance_class(host, v) {
                Some(class) => match member_entry(host, m, class.as_str(), "#equals#Object") {
                    Some(e) => Some((*id, e)),
                    None => None,
                },
                None => None,
            }
        },
        _ => None,
    }
}

/// How a comparison is answered: at once, or by a body of the program.
#[derive(Clone, Copy, PartialEq, Eq, Structural)]
pub enum Comparison {
    Known(bool),
    Run { id: u32, entry: usize },
}

/// How `q.equals(other)` is answered.
pub open spec fn comparison(h: HostV, m: MembersV, q: Val, other: Val) -> Comparison {
    match equals_body(h, m, q) {
        Some((id, entry)) => Comparison::Run { id, entry },
        None => Comparison::Known(equal(h, q, other)),
    }
}

/// How `q.equals(other)` is answered. The receiver is `q`, the value looked for,
/// as it is in the class library.
pub fn eq_call(host: &Host, m: &Members, q: &Value, other: &Value) -> (r: Comparison)
    ensures
        r == comparison(host@, m@, q@, other@),
{
    match user_equals(host, m, q) {
        Some((id, entry)) => Comparison::Run { id, entry },
        None => Comparison::Known(value_eq(host, q, other)),
    }
}

/// How `Objects.equals(a, b)` is answered: two `null`s are equal, and nothing is
/// called on one.
pub open spec fn null_safe(h: HostV, m: MembersV, a: Val, b: Val) -> Comparison {
    match (a, b) {
        (Val::Undef, Val::Undef) => Comparison::Known(true),
        (Val::Undef, _) => Comparison::Known(false),
        _ => comparison(h, m, a, b),
    }
}

/// How `Objects.equals(a, b)` is answered.
pub fn objects_equals(host: &Host, m: &Members, a: &Value, b: &Value) -> (r: Comparison)
    ensures
        r == null_safe(host@, m@, a@, b@),
{
    match (a, b) {
        (Value::Undef, Value::Undef) => Comparison::Known(true),
        (Value::Undef, _) => Comparison::Known(false),
        _ => eq_call(host, m, a, b),
    }
}

/// Whether a hash container trusts a class's `equals`: the class has a
/// `hashCode` that agrees with it.
pub open spec fn hashes_well(h: HostV, m: MembersV, class: Seq<char>) -> bool {
    ||| member_of(h, m, class, hashcode_suffix()) is Some
    ||| subclass(h.supers, class, "Record"@)
    ||| subclass(h.supers, class, "Enum"@)
}

/// Whether a hash container trusts a class's `equals`.
pub fn hash_consistent(host: &Host, m: &Members, class: &str) -> (r: bool)
    ensures
        r == hashes_well(host@, m@, class@),
{
    member_entry(host, m, class, "#hashCode#").is_some() || is_subclass_of(host, class, "Record")
        || is_subclass_of(host, class, "Enum")
}

/// Whether an order is that of a container which hashes.
pub open spec fn hashed_order(order: Order) -> bool {
    order == Order::Hash || order == Order::Insertion
}

/// Whether an order is that of a container which hashes.
pub fn is_hashed(order: Order) -> (r: bool)
    ensures
        r == hashed_order(order),
{
    order == Order::Hash || order == Order::Insertion
}

/// Whether a value's own `equals` is the one a container consults.
pub open spec fn trusts(h: HostV, m: MembersV, v: Val, hashed: bool) -> bool {
    equals_body(h, m, v) is Some && (hashed ==> (class_of_instance(h, v) matches Some(c)
        && hashes_well(h, m, c)))
}

/// Whether a value's own `equals` is the one a container consults.
pub fn trusted_equals(host: &Host, m: &Members, v: &Value, hashed: bool) -> (r: bool)
    ensures
        r == trusts(host@, m@, v@, hashed),
{
    if user_equals(host, m, v).is_none() {
        return false;
    }
    if !hashed {
        return true;
    }
    match instance_class(host, v) {
        Some(c) => hash_consistent(host, m, c.as_str()),
        None => false,
    }
}

/// How a set compares a new element with one it has: by the element's own
/// `equals` where it is trusted.
pub open spec fn set_comparison(h: HostV, m: MembersV, v: Val, x: Val) -> Comparison {
    if trusts(h, m, v, true) {
        comparison(h, m, v, x)
    } else {
        Comparison::Known(equal(h, v, x))
    }
}

/// How a set compares a new element with one it has.
pub fn set_equals(host: &Host, m: &Members, v: &Value, x: &Value) -> (r: Comparison)
    ensures
        r == set_comparison(host@, m@, v@, x@),
{
    if trusted_equals(host, m, v, true) {
        eq_call(host, m, v, x)
    } else {
        Comparison::Known(value_eq(host, v, x))
    }
}

/// The kind of a collection, as far as comparing goes.
#[derive(Clone, Copy, PartialEq, Eq, Structural)]
pub enum EqShape {
    Listed,
    Setlike(Order),
    Mapped(Order),
}

/// The kind of a collection, `None` for anything else.
pub open spec fn shape(h: HostV, v: Val) -> Option<EqShape> {
    match v {
        Val::Obj(id) => match object(h, id as int) {
            Some(ObjV::SubList { .. }) => Some(EqShape::Listed),
            Some(ObjV::List { .. }) => Some(EqShape::Listed),
            Some(ObjV::SetObj { order, .. }) => Some(EqShape::Setlike(order)),
            Some(ObjV::MapObj { order, .. }) => Some(EqShape::Mapped(order)),
            _ => None,
        },
        _ => None,
    }
}

/// The kind of a collection, `None` for anything else.
pub fn eq_shape(host: &Host, v: &Value) -> (r: Option<EqShape>)
    ensures
        r == shape(host@, v@),
{
    match v {
        Value::Obj(id) => {
            let i: usize = *id as usize;
            if i >= host.heap.len() {
                return None;
            }
            assert(host@.heap[i as int] == host.heap@[i as int]@);
            match &host.heap[i] {
                HostObj::SubList { .. } => Some(EqShape::Listed),
                HostObj::List { .. } => Some(EqShape::Listed),
                HostObj::SetObj { order, .. } => Some(EqShape::Setlike(*order)),
                HostObj::MapObj { order, .. } => Some(EqShape::Mapped(*order)),
                _ => None,
            }
        },
        _ => None,
    }
}

/// A collection's elements as it stores them; a map answers with its keys.
pub open spec fn stored_elements(h: HostV, v: Val) -> Option<Seq<Val>> {
    match v {
        Val::Obj(id) => if is_view(h, id as int) {
            match view_items(h, id as int) {
                Ok(items) => Some(items),
                Err(_) => None,
            }
        } else {
            match object(h, id as int) {
                Some(ObjV::List { items, .. }) => Some(items),
                Some(ObjV::SetObj { items, .. }) => Some(items),
                Some(ObjV::MapObj { entries, .. }) => Some(keys_of(entries)),
                _ => None,
            }
        },
        _ => None,
    }
}

/// A collection's elements as it stores them; a map answers with its keys.
pub fn eq_elements(host: &Host, recv: &Value) -> (r: Option<Vec<Value>>)
    ensures
        opt_vals(r) == stored_elements(host@, recv@),
{
    match recv {
        Value::Obj(id) => {
            let i: usize = *id as usize;
            match sublist_items(host, i) {
                Some(Ok(items)) => {
                    return Some(items);
                },
                Some(Err(_)) => {
                    return None;
                },
                None => {},
            }
            if i >= host.heap.len() {
                return None;
            }
            assert(host@.heap[i as int] == host.heap@[i as int]@);
            match &host.heap[i] {
                HostObj::List { items, .. } => Some(copy_all(items)),
                HostObj::SetObj { items, .. } => Some(copy_all(items)),
                HostObj::MapObj { entries, .. } => Some(map_keys(entries)),
                _ => None,
            }
        },
        _ => None,
    }
}

fn map_values(entries: &Vec<(Value, Value)>) -> (r: Vec<Value>)
    ensures
        vals(r@) == values_of(entry_views(entries@)),
{
    let mut r: Vec<Value> = Vec::new();
    let mut i: usize = 0;
    while i < entries.len()
        invariant
            i <= entries.len(),
            r.len() == i,
            forall|k: int| 0 <= k < i ==> (#[trigger] r@[k])@ == entries@[k].1@,
        decreases entries.len() - i,
    {
        r.push(entries[i].1.copy());
        i += 1;
    }
    assert(vals(r@) =~= values_of(entry_views(entries@)));
    r
}

/// A map's values as it stores them, `None` for anything else.
pub fn eq_map_values(host: &Host, recv: &Value) -> (r: Option<Vec<Value>>)
    ensures
        opt_vals(r) == (match entries_of(host@, recv@) {
            Some(e) => Some(values_of(e)),
            None => None,
        }),
{
    match map_entries(host, recv) {
        Some(e) => Some(map_values(&e)),
        None => None,
    }
}

// ── What is to be compared ──────────────────────────────────────────────────

/// What a call on a collection has to compare.
pub enum EqQuestion {
    /// Each element with the one at its place.
    Same { mine: Vec<Value>, other: Vec<Value> },
    /// Each new element with all that are there by then.
    Fresh { items: Vec<Value>, add: Vec<Value> },
    /// A value with each element, until one is equal.
    Find { q: Value, against: Vec<Value>, from_end: bool },
}

pub enum EqQuestionV {
    Same { mine: Seq<Val>, other: Seq<Val> },
    Fresh { items: Seq<Val>, add: Seq<Val> },
    Find { q: Val, against: Seq<Val>, from_end: bool },
}

impl View for EqQuestion {
    type V = EqQuestionV;

    open spec fn view(&self) -> EqQuestionV {
        match self {
            EqQuestion::Same { mine, other } => EqQuestionV::Same {
                mine: vals(mine@),
                other: vals(other@),
            },
            EqQuestion::Fresh { items, add } => EqQuestionV::Fresh {
                items: vals(items@),
                add: vals(add@),
            },
            EqQuestion::Find { q, against, from_end } => EqQuestionV::Find {
                q: q@,
                against: vals(against@),
                from_end: *from_end,
            },
        }
    }
}

/// Whether a method looks its first argument up by `equals`.
pub open spec fn looks_up(s: EqShape, method: Seq<char>, argc: int) -> bool {
    match s {
        EqShape::Listed => argc == 1 && (method == "contains"@ || method == "indexOf"@ || method
            == "lastIndexOf"@ || method == "removeObject"@),
        EqShape::Setlike(order) => hashed_order(order) && argc == 1 && (method == "contains"@
            || method == "add"@ || method == "remove"@),
        EqShape::Mapped(order) => hashed_order(order) && ((argc == 1 && (method == "get"@ || method
            == "containsKey"@ || method == "containsValue"@ || method == "remove"@)) || (argc
            == 2 && (method == "getOrDefault"@ || method == "put"@ || method
            == "putIfAbsent"@))),
    }
}

fn is_lookup(s: EqShape, method: &str, argc: usize) -> (r: bool)
    ensures
        r == looks_up(s, method@, argc as int),
{
    match s {
        EqShape::Listed => argc == 1 && (same(method, "contains") || same(method, "indexOf")
            || same(method, "lastIndexOf") || same(method, "removeObject")),
        EqShape::Setlike(order) => is_hashed(order) && argc == 1 && (same(method, "contains")
            || same(method, "add") || same(method, "remove")),
        EqShape::Mapped(order) => is_hashed(order) && ((argc == 1 && (same(method, "get") || same(
            method,
            "containsKey",
        ) || same(method, "containsValue") || same(method, "remove"))) || (argc == 2 && (same(
            method,
            "getOrDefault",
        ) || same(method, "put") || same(method, "putIfAbsent")))),
    }
}

/// Whether any value has an `equals` of the program.
pub open spec fn any_body(h: HostV, m: MembersV, s: Seq<Val>) -> bool {
    exists|i: int| 0 <= i < s.len() && equals_body(h, m, #[trigger] s[i]) is Some
}

fn has_body(host: &Host, m: &Members, s: &Vec<Value>) -> (r: bool)
    ensures
        r == any_body(host@, m@, vals(s@)),
{
    let mut i: usize = 0;
    while i < s.len()
        invariant
            i <= s.len(),
            forall|k: int|
                0 <= k < i ==> equals_body(host@, m@, #[trigger] vals(s@)[k]) is None,
        decreases s.len() - i,
    {
        if user_equals(host, m, &s[i]).is_some() {
            assert(equals_body(host@, m@, vals(s@)[i as int]) is Some);
            return true;
        }
        i += 1;
    }
    false
}

/// Whether any value has an `equals` that a hash container trusts.
pub open spec fn any_trusted(h: HostV, m: MembersV, s: Seq<Val>) -> bool {
    exists|i: int| 0 <= i < s.len() && trusts(h, m, #[trigger] s[i], true)
}

fn has_trusted(host: &Host, m: &Members, s: &Vec<Value>) -> (r: bool)
    ensures
        r == any_trusted(host@, m@, vals(s@)),
{
    let mut i: usize = 0;
    while i < s.len()
        invariant
            i <= s.len(),
            forall|k: int| 0 <= k < i ==> !trusts(host@, m@, #[trigger] vals(s@)[k], true),
        decreases s.len() - i,
    {
        if trusted_equals(host, m, &s[i], true) {
            assert(trusts(host@, m@, vals(s@)[i as int], true));
            return true;
        }
        i += 1;
    }
    false
}

/// What a call has to ask of the program's own `equals`; `None` when it needs
/// none.
pub open spec fn question(
    h: HostV,
    m: MembersV,
    recv: Val,
    method: Seq<char>,
    args: Seq<Val>,
    seqs: Seq<Option<Seq<Val>>>,
) -> Option<EqQuestionV> {
    match shape(h, recv) {
        Some(s) => if !declares(m, equals_suffix()) {
            None
        } else if method == "equals"@ && args.len() == 1 && s == EqShape::Listed {
            match (stored_elements(h, recv), seqs[0]) {
                (Some(mine), Some(other)) => if any_body(h, m, mine) {
                    Some(EqQuestionV::Same { mine, other })
                } else {
                    None
                },
                _ => None,
            }
        } else if method == "addAll"@ && args.len() == 1 && (s matches EqShape::Setlike(o)
            && hashed_order(o)) {
            match (stored_elements(h, recv), seqs[0]) {
                (Some(items), Some(add)) => if any_trusted(h, m, add) {
                    Some(EqQuestionV::Fresh { items, add })
                } else {
                    None
                },
                _ => None,
            }
        } else if looks_up(s, method, args.len() as int) && trusts(
            h,
            m,
            args[0],
            s != EqShape::Listed,
        ) {
            let against = if method == "containsValue"@ {
                match entries_of(h, recv) {
                    Some(e) => Some(values_of(e)),
                    None => None,
                }
            } else {
                stored_elements(h, recv)
            };
            match against {
                Some(against) => Some(
                    EqQuestionV::Find {
                        q: args[0],
                        against,
                        from_end: method == "lastIndexOf"@,
                    },
                ),
                None => None,
            }
        } else {
            None
        },
        None => None,
    }
}

/// Whether `r` is `s`, both possibly absent.
pub open spec fn asks(r: Option<EqQuestion>, s: Option<EqQuestionV>) -> bool {
    match (r, s) {
        (Some(x), Some(y)) => x@ == y,
        (None, None) => true,
        _ => false,
    }
}

/// What a call has to ask of the program's own `equals`. Only the methods that
/// compare by it ask, and only where a body is reachable from what is compared.
pub fn eq_question(
    host: &Host,
    m: &Members,
    recv: &Value,
    method: &str,
    args: &Vec<Value>,
    arg_seqs: &Vec<Option<Vec<Value>>>,
) -> (r: Option<EqQuestion>)
    requires
        arg_seqs.len() == args.len(),
    ensures
        asks(r, question(host@, m@, recv@, method@, vals(args@), seq_views(arg_seqs@))),
{
    let s: EqShape = match eq_shape(host, recv) {
        Some(s) => s,
        None => {
            return None;
        },
    };
    if !any_user_equals(m) {
        return None;
    }
    if same(method, "equals") && args.len() == 1 && s == EqShape::Listed {
        assert(seq_views(arg_seqs@)[0] == opt_vals(arg_seqs@[0]));
        return match (eq_elements(host, recv), &arg_seqs[0]) {
            (Some(mine), Some(other)) => {
                if has_body(host, m, &mine) {
                    Some(EqQuestion::Same { mine, other: copy_all(other) })
                } else {
                    None
                }
            },
            _ => None,
        };
    }
    let hash_set: bool = match s {
        EqShape::Setlike(o) => is_hashed(o),
        _ => false,
    };
    if same(method, "addAll") && args.len() == 1 && hash_set {
        assert(seq_views(arg_seqs@)[0] == opt_vals(arg_seqs@[0]));
        return match (eq_elements(host, recv), &arg_seqs[0]) {
            (Some(items), Some(add)) => {
                if has_trusted(host, m, add) {
                    Some(EqQuestion::Fresh { items, add: copy_all(add) })
                } else {
                    None
                }
            },
            _ => None,
        };
    }
    if !is_lookup(s, method, args.len()) {
        return None;
    }
    assert(vals(args@)[0] == args@[0]@);
    if !trusted_equals(host, m, &args[0], s != EqShape::Listed) {
        return None;
    }
    let against: Option<Vec<Value>> = if same(method, "containsValue") {
        eq_map_values(host, recv)
    } else {
        eq_elements(host, recv)
    };
    match against {
        Some(against) => Some(
            EqQuestion::Find {
                q: args[0].copy(),
                against,
                from_end: same(method, "lastIndexOf"),
            },
        ),
        None => None,
    }
}

// ── The answers ─────────────────────────────────────────────────────────────

/// Whether every answer of `f` is what `rel` gives.
pub open spec fn compares<F: Fn(&Value, &Value) -> bool>(
    f: F,
    rel: spec_fn(Val, Val) -> bool,
) -> bool {
    forall|a: &Value, b: &Value, r: bool| call_ensures(f, (a, b), r) ==> r == rel(a@, b@)
}

/// The values that `q` equals.
pub open spec fn matched(rel: spec_fn(Val, Val) -> bool, q: Val) -> spec_fn(Val) -> bool {
    |x: Val| rel(q, x)
}

/// The elements of `add` from `i` on that equal nothing in `items`, nor an
/// element taken before.
pub open spec fn fresh_of(
    items: Seq<Val>,
    add: Seq<Val>,
    i: int,
    rel: spec_fn(Val, Val) -> bool,
) -> Seq<Val>
    decreases add.len() - i,
{
    if i < 0 || i >= add.len() {
        seq![]
    } else if first_at(items, matched(rel, add[i]), 0) is Some {
        fresh_of(items, add, i + 1, rel)
    } else {
        seq![add[i]] + fresh_of(items.push(add[i]), add, i + 1, rel)
    }
}

/// Whether each element equals the one at its place.
pub open spec fn pairwise(mine: Seq<Val>, other: Seq<Val>, rel: spec_fn(Val, Val) -> bool) -> bool {
    mine.len() == other.len() && forall|i: int|
        0 <= i < mine.len() ==> rel(#[trigger] mine[i], other[i])
}

/// The answer to a question, where `rel` is what `equals` says.
pub open spec fn answered(q: EqQuestionV, rel: spec_fn(Val, Val) -> bool) -> EqPlanV {
    match q {
        EqQuestionV::Same { mine, other } => EqPlanV::Same(pairwise(mine, other, rel)),
        EqQuestionV::Fresh { items, add } => EqPlanV::Fresh(fresh_of(items, add, 0, rel)),
        EqQuestionV::Find { q, against, from_end } => EqPlanV::Index(
            if from_end {
                last_at(against, matched(rel, q), against.len() as int)
            } else {
                first_at(against, matched(rel, q), 0)
            },
        ),
    }
}

fn find_match<F: Fn(&Value, &Value) -> bool>(
    q: &Value,
    against: &Vec<Value>,
    from_end: bool,
    call: &F,
) -> (r: Option<usize>)
    requires
        forall|a: &Value, b: &Value| call_requires(*call, (a, b)),
    ensures
        r matches Some(i) ==> i < against.len(),
        forall|rel: spec_fn(Val, Val) -> bool| #[trigger]
            compares(*call, rel) ==> same_place(
                r,
                if from_end {
                    last_at(vals(against@), matched(rel, q@), against.len() as int)
                } else {
                    first_at(vals(against@), matched(rel, q@), 0)
                },
            ),
{
    if from_end {
        let mut n: usize = against.len();
        while n > 0
            invariant
                from_end,
                n <= against.len(),
                forall|a: &Value, b: &Value| call_requires(*call, (a, b)),
                forall|rel: spec_fn(Val, Val) -> bool| #[trigger]
                    compares(*call, rel) ==> last_at(
                        vals(against@),
                        matched(rel, q@),
                        against.len() as int,
                    ) == last_at(vals(against@), matched(rel, q@), n as int),
            decreases n,
        {
            if call(q, &against[n - 1]) {
                assert forall|rel: spec_fn(Val, Val) -> bool| #[trigger]
                    compares(*call, rel) implies matched(rel, q@)(vals(against@)[n - 1]) by {
                    assert(vals(against@)[n - 1] == against@[n - 1]@);
                }
                return Some(n - 1);
            }
            n -= 1;
        }
        None
    } else {
        let mut i: usize = 0;
        while i < against.len()
            invariant
                !from_end,
                i <= against.len(),
                forall|a: &Value, b: &Value| call_requires(*call, (a, b)),
                forall|rel: spec_fn(Val, Val) -> bool| #[trigger]
                    compares(*call, rel) ==> first_at(vals(against@), matched(rel, q@), 0)
                        == first_at(vals(against@), matched(rel, q@), i as int),
            decreases against.len() - i,
        {
            if call(q, &against[i]) {
                assert forall|rel: spec_fn(Val, Val) -> bool| #[trigger]
                    compares(*call, rel) implies matched(rel, q@)(vals(against@)[i as int]) by {
                    assert(vals(against@)[i as int] == against@[i as int]@);
                }
                return Some(i);
            }
            i += 1;
        }
        None
    }
}

/// Whether each element equals the one at its place; the first that does not
/// ends the comparison.
fn match_pairs<F: Fn(&Value, &Value) -> bool>(
    mine: &Vec<Value>,
    other: &Vec<Value>,
    call: &F,
) -> (r: bool)
    requires
        forall|a: &Value, b: &Value| call_requires(*call, (a, b)),
    ensures
        mine.len() != other.len() ==> !r,
        forall|rel: spec_fn(Val, Val) -> bool| #[trigger]
            compares(*call, rel) ==> r == pairwise(vals(mine@), vals(other@), rel),
{
    if mine.len() != other.len() {
        return false;
    }
    let mut i: usize = 0;
    while i < mine.len()
        invariant
            i <= mine.len() == other.len(),
            forall|a: &Value, b: &Value| call_requires(*call, (a, b)),
            forall|rel: spec_fn(Val, Val) -> bool| #[trigger]
                compares(*call, rel) ==> forall|k: int|
                    0 <= k < i ==> rel(#[trigger] vals(mine@)[k], vals(other@)[k]),
        decreases mine.len() - i,
    {
        if !call(&mine[i], &other[i]) {
            assert forall|rel: spec_fn(Val, Val) -> bool| #[trigger]
                compares(*call, rel) implies !pairwise(vals(mine@), vals(other@), rel) by {
                assert(!rel(vals(mine@)[i as int], vals(other@)[i as int]));
            }
            return false;
        }
        i += 1;
    }
    true
}

fn collect_fresh<F: Fn(&Value, &Value) -> bool>(
    items: &Vec<Value>,
    add: &Vec<Value>,
    call: &F,
) -> (r: Vec<Value>)
    requires
        forall|a: &Value, b: &Value| call_requires(*call, (a, b)),
    ensures
        r.len() <= add.len(),
        forall|rel: spec_fn(Val, Val) -> bool| #[trigger]
            compares(*call, rel) ==> vals(r@) == fresh_of(vals(items@), vals(add@), 0, rel),
{
    let mut all: Vec<Value> = copy_all(items);
    let mut r: Vec<Value> = Vec::new();
    let mut i: usize = 0;
    assert(vals(r@) =~= seq![]);
    assert forall|rel: spec_fn(Val, Val) -> bool| #[trigger] compares(*call, rel) implies fresh_of(
        vals(items@),
        vals(add@),
        0,
        rel,
    ) == vals(r@) + fresh_of(vals(all@), vals(add@), 0, rel) by {
        assert(vals(r@) + fresh_of(vals(all@), vals(add@), 0, rel) =~= fresh_of(
            vals(all@),
            vals(add@),
            0,
            rel,
        ));
    }
    while i < add.len()
        invariant
            i <= add.len(),
            vals(r@).len() <= i,
            forall|a: &Value, b: &Value| call_requires(*call, (a, b)),
            forall|rel: spec_fn(Val, Val) -> bool| #[trigger]
                compares(*call, rel) ==> fresh_of(vals(items@), vals(add@), 0, rel) == vals(r@)
                    + fresh_of(vals(all@), vals(add@), i as int, rel),
        decreases add.len() - i,
    {
        let ghost r0 = vals(r@);
        let ghost all0 = vals(all@);
        let ghost v = add@[i as int]@;
        assert(vals(add@)[i as int] == v);
        if find_match(&add[i], &all, false, call).is_none() {
            push_value(&mut all, add[i].copy());
            push_value(&mut r, add[i].copy());
            assert forall|rel: spec_fn(Val, Val) -> bool| #[trigger]
                compares(*call, rel) implies fresh_of(vals(items@), vals(add@), 0, rel) == vals(r@)
                + fresh_of(vals(all@), vals(add@), i + 1, rel) by {
                let tail = fresh_of(all0.push(v), vals(add@), i + 1, rel);
                assert(fresh_of(all0, vals(add@), i as int, rel) == seq![v] + tail);
                assert(r0 + (seq![v] + tail) =~= r0.push(v) + tail);
            }
        }
        i += 1;
    }
    assert forall|rel: spec_fn(Val, Val) -> bool| #[trigger] compares(*call, rel) implies vals(r@)
        == fresh_of(vals(items@), vals(add@), 0, rel) by {
        assert(fresh_of(vals(all@), vals(add@), i as int, rel) =~= seq![]);
        assert(vals(r@) + Seq::<Val>::empty() =~= vals(r@));
    }
    assert(vals(r@).len() == r.len());
    r
}

/// Answer a question with `call`, which runs `equals`. A search stops at the
/// first hit, in the direction the method scans.
pub fn eq_plan<F: Fn(&Value, &Value) -> bool>(question: &EqQuestion, call: F) -> (r: EqPlan)
    requires
        forall|a: &Value, b: &Value| call_requires(call, (a, b)),
    ensures
        match (question, r) {
            (EqQuestion::Find { against, .. }, EqPlan::Index(at)) => at matches Some(i) ==> i
                < against.len(),
            (EqQuestion::Same { mine, other }, EqPlan::Same(b)) => mine.len() != other.len()
                ==> !b,
            (EqQuestion::Fresh { add, .. }, EqPlan::Fresh(fresh)) => fresh.len() <= add.len(),
            _ => false,
        },
        forall|rel: spec_fn(Val, Val) -> bool| #[trigger]
            compares(call, rel) ==> r@ == answered(question@, rel),
{
    match question {
        EqQuestion::Same { mine, other } => EqPlan::Same(match_pairs(mine, other, &call)),
        EqQuestion::Fresh { items, add } => EqPlan::Fresh(collect_fresh(items, add, &call)),
        EqQuestion::Find { q, against, from_end } => EqPlan::Index(
            find_match(q, against, *from_end, &call),
        ),
    }
}

/// The distinct values of `items`, the first of each repeat kept.
pub fn distinct<F: Fn(&Value, &Value) -> bool>(items: &Vec<Value>, call: F) -> (r: Vec<Value>)
    requires
        forall|a: &Value, b: &Value| call_requires(call, (a, b)),
    ensures
        r.len() <= items.len(),
        forall|rel: spec_fn(Val, Val) -> bool| #[trigger]
            compares(call, rel) ==> vals(r@) == fresh_of(seq![], vals(items@), 0, rel),
{
    let none: Vec<Value> = Vec::new();
    assert(vals(none@) =~= seq![]);
    collect_fresh(&none, items, &call)
}

/// The first value from `i` on that equals an earlier one.
pub open spec fn repeat_of(items: Seq<Val>, i: int, rel: spec_fn(Val, Val) -> bool) -> Option<Val>
    decreases items.len() - i,
{
    if i < 0 || i >= items.len() {
        None
    } else if first_at(items.take(i), matched(rel, items[i]), 0) is Some {
        Some(items[i])
    } else {
        repeat_of(items, i + 1, rel)
    }
}

/// The first value that repeats an earlier one, `None` when all are distinct.
pub fn first_repeat<F: Fn(&Value, &Value) -> bool>(items: &Vec<Value>, call: F) -> (r: Option<
    Value,
>)
    requires
        forall|a: &Value, b: &Value| call_requires(call, (a, b)),
    ensures
        r matches Some(v) ==> vals(items@).contains(v@),
        forall|rel: spec_fn(Val, Val) -> bool| #[trigger]
            compares(call, rel) ==> opt_val(r) == repeat_of(vals(items@), 0, rel),
{
    let mut i: usize = 0;
    let mut before: Vec<Value> = Vec::new();
    assert(vals(before@) =~= vals(items@).take(0));
    while i < items.len()
        invariant
            i <= items.len(),
            vals(before@) == vals(items@).take(i as int),
            forall|a: &Value, b: &Value| call_requires(call, (a, b)),
            forall|rel: spec_fn(Val, Val) -> bool| #[trigger]
                compares(call, rel) ==> repeat_of(vals(items@), 0, rel) == repeat_of(
                    vals(items@),
                    i as int,
                    rel,
                ),
        decreases items.len() - i,
    {
        assert(vals(items@)[i as int] == items@[i as int]@);
        if find_match(&items[i], &before, false, &call).is_some() {
            return Some(items[i].copy());
        }
        push_value(&mut before, items[i].copy());
        assert(vals(before@) =~= vals(items@).take(i + 1));
        i += 1;
    }
    None
}

/// No element equals an earlier one.
pub open spec fn no_repeat(s: Seq<Val>, rel: spec_fn(Val, Val) -> bool) -> bool {
    forall|a: int, b: int| 0 <= a < b < s.len() ==> !rel(#[trigger] s[b], #[trigger] s[a])
}

/// No element of `s` equals one of `items`.
pub open spec fn apart(s: Seq<Val>, items: Seq<Val>, rel: spec_fn(Val, Val) -> bool) -> bool {
    forall|a: int, b: int|
        0 <= a < items.len() && 0 <= b < s.len() ==> !rel(#[trigger] s[b], #[trigger] items[a])
}

proof fn lemma_fresh(items: Seq<Val>, add: Seq<Val>, i: int, rel: spec_fn(Val, Val) -> bool)
    requires
        0 <= i,
    ensures
        apart(fresh_of(items, add, i, rel), items, rel),
        no_repeat(fresh_of(items, add, i, rel), rel),
    decreases add.len() - i,
{
    if i < add.len() {
        if first_at(items, matched(rel, add[i]), 0) is Some {
            lemma_fresh(items, add, i + 1, rel);
        } else {
            let more = items.push(add[i]);
            let tail = fresh_of(more, add, i + 1, rel);
            let all = fresh_of(items, add, i, rel);
            lemma_fresh(more, add, i + 1, rel);
            lemma_first_in_range(items, matched(rel, add[i]), 0);
            assert(all == seq![add[i]] + tail);
            assert forall|a: int, b: int| 0 <= a < items.len() && 0 <= b < all.len() implies !rel(
                #[trigger] all[b],
                #[trigger] items[a],
            ) by {
                assert(more[a] == items[a]);
                if b == 0 {
                    assert(!matched(rel, add[i])(items[a]));
                } else {
                    assert(all[b] == tail[b - 1]);
                    assert(!rel(tail[b - 1], more[a]));
                }
            }
            assert forall|a: int, b: int| 0 <= a < b < all.len() implies !rel(
                #[trigger] all[b],
                #[trigger] all[a],
            ) by {
                assert(all[b] == tail[b - 1]);
                if a == 0 {
                    assert(more[items.len() as int] == add[i]);
                    assert(!rel(tail[b - 1], more[items.len() as int]));
                } else {
                    assert(all[a] == tail[a - 1]);
                    assert(!rel(tail[b - 1], tail[a - 1]));
                }
            }
        }
    }
}

/// What a set is built from holds no repeat.
pub proof fn distinct_holds_no_repeat(items: Seq<Val>, rel: spec_fn(Val, Val) -> bool)
    ensures
        no_repeat(fresh_of(seq![], items, 0, rel), rel),
{
    lemma_fresh(seq![], items, 0, rel);
}

/// What is added to a set without repeats leaves it without repeats.
pub proof fn adding_keeps_a_set(items: Seq<Val>, add: Seq<Val>, rel: spec_fn(Val, Val) -> bool)
    requires
        no_repeat(items, rel),
    ensures
        no_repeat(items + fresh_of(items, add, 0, rel), rel),
{
    lemma_fresh(items, add, 0, rel);
    let f = fresh_of(items, add, 0, rel);
    let all = items + f;
    assert forall|a: int, b: int| 0 <= a < b < all.len() implies !rel(
        #[trigger] all[b],
        #[trigger] all[a],
    ) by {
        let n = items.len() as int;
        if b < n {
            assert(all[b] == items[b] && all[a] == items[a]);
        } else if a < n {
            assert(all[b] == f[b - n] && all[a] == items[a]);
        } else {
            assert(all[b] == f[b - n] && all[a] == f[a - n]);
        }
    }
}

} // verus!
