//! Collections on the heap: the dispatch of a method to the stored elements,
//! and the views `subList` makes.
//!
//! A view owns no elements. A method on it runs on a copy of its window, which
//! is then put back: a write through the view lands in the backing list. A
//! change of length counts as a structural change of that list and is passed up
//! the chain of views it came through, so those stay usable while every other
//! view of the list goes stale.
use vstd::prelude::*;

use crate::host::{Fixity, Host, HostObj, HostV, ObjV, Order, entry_views, heap_alloc};
use crate::host::boxes::{box_of, jint, jint_of, unbox};
use crate::host::lists::{
    EqPlan, EqPlanV, copy_held, equal_to, held, list_called, list_method, opt_vals, plan_fits,
    plan_view, push_values, same_items, seq_views, unsupported_change, unsupported_operation,
};
use crate::host::maps::{joined, map_called, map_method, set_called, set_method};
use crate::host::order::{
    bucket_of, depth_of, equal, hash_of, in_order, natural, nests_below, present_items, presented,
};
use crate::host::render::{entries_in_order, keys_of, present_entries, values_of};
use crate::host::strings::{Answer, AnswerV};
use crate::host::views::{
    checked_window, is_sublist, is_view, make_sublist, new_view, object, sound_window, stale_view,
    staleness, sublist_items, view_items,
};
use crate::text::{own, same};
use crate::value::{
    Fault, FaultV, Val, Value, copy_all, copy_range, internal_fault, java_fault, outcome, vals,
};

verus! {

// ── What does not depend on the heap ────────────────────────────────────────

/// Equality reads the boxes and nothing else.
pub proof fn equality_reads_boxes_only(h: HostV, g: HostV, a: Val, b: Val)
    requires
        h.boxes == g.boxes,
    ensures
        equal(h, a, b) == equal(g, a, b),
    decreases depth_of(a) + depth_of(b),
{
    match (box_of(h, a), box_of(h, b)) {
        (None, None) => {},
        (Some(x), Some(y)) => {
            if nests_below(a, x.1) && nests_below(b, y.1) {
                equality_reads_boxes_only(h, g, x.1, y.1);
            }
        },
        (Some(x), None) => {
            if nests_below(a, x.1) {
                equality_reads_boxes_only(h, g, x.1, b);
            }
        },
        (None, Some(y)) => {
            if nests_below(b, y.1) {
                equality_reads_boxes_only(h, g, a, y.1);
            }
        },
    }
}

proof fn lemma_equal_to(h: HostV, g: HostV)
    requires
        h.boxes == g.boxes,
    ensures
        forall|q: Val| #[trigger] equal_to(h, q) == equal_to(g, q),
        forall|a: Val, b: Val| #[trigger] equal(h, a, b) == equal(g, a, b),
        forall|v: Val| #[trigger] jint_of(h, v) == jint_of(g, v),
{
    assert forall|a: Val, b: Val| #[trigger] equal(h, a, b) == equal(g, a, b) by {
        equality_reads_boxes_only(h, g, a, b);
    }
    assert forall|q: Val| #[trigger] equal_to(h, q) == equal_to(g, q) by {
        assert(equal_to(h, q) =~= equal_to(g, q));
    }
}

proof fn lemma_hash(h: HostV, g: HostV, v: Val)
    requires
        h.boxes == g.boxes,
    ensures
        hash_of(h, v) == hash_of(g, v),
    decreases depth_of(v),
{
    if let Some(inner) = unbox(h, v) {
        if nests_below(v, inner) {
            lemma_hash(h, g, inner);
        }
    }
}

proof fn lemma_presented(h: HostV, g: HostV, items: Seq<Val>, order: Order)
    requires
        h.boxes == g.boxes,
    ensures
        presented(h, items, order) == presented(g, items, order),
{
    let n = items.len() as int;
    match order {
        Order::Insertion => {},
        Order::Hash => {
            assert forall|v: Val| #[trigger] bucket_of(h, v, n) == bucket_of(g, v, n) by {
                lemma_hash(h, g, v);
            }
            let a = |i: int, j: int| bucket_of(h, items[i], n) > bucket_of(h, items[j], n);
            let b = |i: int, j: int| bucket_of(g, items[i], n) > bucket_of(g, items[j], n);
            assert(a =~= b);
        },
        Order::Sorted => {
            let a = |i: int, j: int| natural(h, items[i], items[j]) > 0;
            let b = |i: int, j: int| natural(g, items[i], items[j]) > 0;
            assert(a =~= b);
        },
    }
}

proof fn lemma_joined(h: HostV, g: HostV, items: Seq<Val>, add: Seq<Val>, i: int)
    requires
        h.boxes == g.boxes,
    ensures
        joined(h, items, add, i) == joined(g, items, add, i),
    decreases add.len() - i,
{
    lemma_equal_to(h, g);
    if 0 <= i < add.len() {
        lemma_joined(h, g, items, add, i + 1);
        lemma_joined(h, g, items.push(add[i]), add, i + 1);
    }
}

proof fn lemma_methods(
    h: HostV,
    g: HostV,
    items: Seq<Val>,
    entries: Seq<(Val, Val)>,
    fixed: Fixity,
    order: Order,
    method: Seq<char>,
    args: Seq<Val>,
    seqs: Seq<Option<Seq<Val>>>,
    plan: Option<EqPlanV>,
)
    requires
        h.boxes == g.boxes,
    ensures
        list_called(h, items, fixed, method, args, seqs, plan) == list_called(
            g,
            items,
            fixed,
            method,
            args,
            seqs,
            plan,
        ),
        set_called(h, items, fixed, method, args, seqs, plan) == set_called(
            g,
            items,
            fixed,
            method,
            args,
            seqs,
            plan,
        ),
        map_called(h, entries, order, method, args, plan) == map_called(
            g,
            entries,
            order,
            method,
            args,
            plan,
        ),
{
    lemma_equal_to(h, g);
    lemma_presented(h, g, keys_of(entries), order);
    lemma_joined(h, g, items, held(seqs[0]), 0);
    assert forall|b: Seq<Val>| #[trigger] same_items(h, items, b) == same_items(g, items, b) by {
        if same_items(h, items, b) {
            assert forall|i: int| 0 <= i < items.len() implies #[trigger] equal(g, items[i], b[i]) by {
                assert(equal(h, items[i], b[i]));
            }
        }
        if same_items(g, items, b) {
            assert forall|i: int| 0 <= i < items.len() implies #[trigger] equal(h, items[i], b[i]) by {
                assert(equal(g, items[i], b[i]));
            }
        }
    }
}

// ── Reading ─────────────────────────────────────────────────────────────────

/// The elements of an array, a list, a view or a set, as they are iterated.
/// `None` for anything else, and for a stale view.
pub open spec fn elements(h: HostV, v: Val) -> Option<Seq<Val>> {
    match v {
        Val::Obj(id) => if is_view(h, id as int) {
            match view_items(h, id as int) {
                Ok(items) => Some(items),
                Err(_) => None,
            }
        } else {
            match object(h, id as int) {
                Some(ObjV::Array(items)) => Some(items),
                Some(ObjV::List { items, .. }) => Some(items),
                Some(ObjV::SetObj { items, order, .. }) => Some(in_order(h, items, order)),
                _ => None,
            }
        },
        _ => None,
    }
}

/// The elements of any sequence-shaped object, as they are iterated.
pub fn sequence_items(host: &Host, v: &Value) -> (r: Option<Vec<Value>>)
    ensures
        opt_vals(r) == elements(host@, v@),
{
    match v {
        Value::Obj(id) => {
            let i: usize = *id as usize;
            match sublist_items(host, i) {
                Some(Ok(items)) => {
                    return Some(items);
                },
                Some(Err(_)) => {
                    return None;
                },
                None => {},
            }
            if i >= host.heap.len() {
                return None;
            }
            assert(host@.heap[i as int] == host.heap@[i as int]@);
            match &host.heap[i] {
                HostObj::Array(items) => Some(copy_all(items)),
                HostObj::List { items, .. } => Some(copy_all(items)),
                HostObj::SetObj { items, order, .. } => Some(present_items(host, items, *order)),
                _ => None,
            }
        },
        _ => None,
    }
}

/// The entries of a map, as they were put; `None` for anything else.
pub open spec fn entries_of(h: HostV, v: Val) -> Option<Seq<(Val, Val)>> {
    match v {
        Val::Obj(id) => match object(h, id as int) {
            Some(ObjV::MapObj { entries, .. }) => Some(entries),
            _ => None,
        },
        _ => None,
    }
}

fn copy_entries(v: &Vec<(Value, Value)>) -> (r: Vec<(Value, Value)>)
    ensures
        entry_views(r@) == entry_views(v@),
{
    let mut r: Vec<(Value, Value)> = Vec::new();
    let mut i: usize = 0;
    while i < v.len()
        invariant
            i <= v.len(),
            r.len() == i,
            forall|k: int|
                0 <= k < i ==> (#[trigger] r@[k]).0@ == v@[k].0@ && r@[k].1@ == v@[k].1@,
        decreases v.len() - i,
    {
        r.push((v[i].0.copy(), v[i].1.copy()));
        i += 1;
    }
    assert(entry_views(r@) =~= entry_views(v@));
    r
}

/// The entries of a map, as they were put; `None` for anything else.
pub fn map_entries(host: &Host, v: &Value) -> (r: Option<Vec<(Value, Value)>>)
    ensures
        match (r, entries_of(host@, v@)) {
            (Some(x), Some(y)) => entry_views(x@) == y,
            (None, None) => true,
            _ => false,
        },
{
    match v {
        Value::Obj(id) => {
            let i: usize = *id as usize;
            if i >= host.heap.len() {
                return None;
            }
            assert(host@.heap[i as int] == host.heap@[i as int]@);
            match &host.heap[i] {
                HostObj::MapObj { entries, .. } => Some(copy_entries(entries)),
                _ => None,
            }
        },
        _ => None,
    }
}

/// The order a map presents its entries in; what is no map keeps them as they
/// were put.
pub open spec fn order_of(h: HostV, v: Val) -> Order {
    match v {
        Val::Obj(id) => match object(h, id as int) {
            Some(ObjV::MapObj { order, .. }) => order,
            _ => Order::Insertion,
        },
        _ => Order::Insertion,
    }
}

/// The order a map presents its entries in.
pub fn map_order(host: &Host, v: &Value) -> (r: Order)
    ensures
        r == order_of(host@, v@),
{
    match v {
        Value::Obj(id) => {
            let i: usize = *id as usize;
            if i >= host.heap.len() {
                return Order::Insertion;
            }
            assert(host@.heap[i as int] == host.heap@[i as int]@);
            match &host.heap[i] {
                HostObj::MapObj { order, .. } => *order,
                _ => Order::Insertion,
            }
        },
        _ => Order::Insertion,
    }
}

/// Whether a value is a collection.
pub open spec fn is_coll(h: HostV, v: Val) -> bool {
    match v {
        Val::Obj(id) => match object(h, id as int) {
            Some(ObjV::List { .. }) => true,
            Some(ObjV::MapObj { .. }) => true,
            Some(ObjV::SetObj { .. }) => true,
            Some(ObjV::SubList { .. }) => true,
            _ => false,
        },
        _ => false,
    }
}

/// Whether a value is a collection.
pub fn is_collection(host: &Host, v: &Value) -> (r: bool)
    ensures
        r == is_coll(host@, v@),
{
    match v {
        Value::Obj(id) => {
            let i: usize = *id as usize;
            if i >= host.heap.len() {
                return false;
            }
            assert(host@.heap[i as int] == host.heap@[i as int]@);
            match &host.heap[i] {
                HostObj::List { .. } => true,
                HostObj::MapObj { .. } => true,
                HostObj::SetObj { .. } => true,
                HostObj::SubList { .. } => true,
                _ => false,
            }
        },
        _ => false,
    }
}

// ── Writing through a view ──────────────────────────────────────────────────

/// The host with another object under a handle.
pub open spec fn with_object(h: HostV, id: int, obj: ObjV) -> HostV {
    HostV { heap: h.heap.update(id, obj), ..h }
}

/// Put another object under a handle.
pub fn set_object(host: &mut Host, id: usize, obj: HostObj)
    requires
        id < old(host)@.heap.len(),
    ensures
        final(host)@ == with_object(old(host)@, id as int, obj@),
{
    let ghost before = host@;
    host.heap.set(id, obj);
    assert(host@.heap =~= before.heap.update(id as int, obj@));
}

/// One structural change more.
pub open spec fn one_more(mods: u64) -> u64 {
    if mods == u64::MAX {
        0
    } else {
        (mods + 1) as u64
    }
}

fn count_change(mods: u64) -> (r: u64)
    ensures
        r == one_more(mods),
{
    if mods == u64::MAX {
        0
    } else {
        mods + 1
    }
}

/// Whether a method that left `after` of `before` elements counts as a structural
/// change: one of the length does, and `clear` always does.
pub open spec fn counts_as_change(method: Seq<char>, before: int, after: int) -> bool {
    before != after || method == "clear"@
}

fn is_structural(method: &str, before: usize, after: usize) -> (r: bool)
    ensures
        r == counts_as_change(method@, before as int, after as int),
{
    before != after || same(method, "clear")
}

/// `items` with what stands in `[a, b)` replaced.
pub open spec fn spliced_items(items: Seq<Val>, a: int, b: int, with: Seq<Val>) -> Seq<Val> {
    items.take(a) + with + items.skip(b)
}

fn splice_items(items: &Vec<Value>, a: usize, b: usize, with: &Vec<Value>) -> (r: Vec<Value>)
    requires
        a <= b <= items.len(),
    ensures
        vals(r@) == spliced_items(vals(items@), a as int, b as int, vals(with@)),
{
    let mut r: Vec<Value> = copy_range(items, 0, a);
    push_values(&mut r, with);
    let tail: Vec<Value> = copy_range(items, b, items.len());
    push_values(&mut r, &tail);
    assert(vals(r@) =~= spliced_items(vals(items@), a as int, b as int, vals(with@)));
    r
}

/// A view's length changed by `delta`, never below zero or past what a length
/// can be.
pub open spec fn shifted(len: int, delta: int) -> int {
    if len + delta < 0 {
        0
    } else if len + delta > usize::MAX {
        usize::MAX as int
    } else {
        len + delta
    }
}

/// The chain of views from `id` on, each with its length changed by `delta` and
/// in step with a backing list that counts `mods` changes.
pub open spec fn resized_chain(h: HostV, id: int, delta: int, mods: u64, steps: nat) -> HostV
    decreases steps,
{
    if steps == 0 {
        h
    } else {
        match object(h, id) {
            Some(ObjV::SubList { parent, offset, len, .. }) => resized_chain(
                with_object(
                    h,
                    id,
                    ObjV::SubList { parent, offset, len: shifted(len, delta), exp_mods: mods },
                ),
                parent as int,
                delta,
                mods,
                (steps - 1) as nat,
            ),
            _ => h,
        }
    }
}

/// Pass a view's change of length up the chain of views it came through.
pub fn resize_ancestors(host: &mut Host, id: usize, before: usize, after: usize, mods: u64)
    ensures
        final(host)@ == resized_chain(
            old(host)@,
            id as int,
            after - before,
            mods,
            (old(host)@.heap.len() + 1) as nat,
        ),
{
    let ghost start = host@;
    let n: usize = host.heap.len();
    let ghost delta = after - before;
    let mut cur: usize = id;
    let mut left: u128 = n as u128 + 1;
    while left > 0
        invariant
            start == old(host)@,
            n == start.heap.len(),
            delta == after - before,
            n == host.heap.len(),
            n == host@.heap.len(),
            left <= n + 1,
            resized_chain(start, id as int, delta, mods, (n + 1) as nat) == resized_chain(
                host@,
                cur as int,
                delta,
                mods,
                left as nat,
            ),
        decreases left,
    {
        if cur >= n {
            return;
        }
        assert(host@.heap[cur as int] == host.heap@[cur as int]@);
        let (parent, offset, len): (u32, usize, usize) = match &host.heap[cur] {
            HostObj::SubList { parent, offset, len, .. } => (*parent, *offset, *len),
            _ => {
                return;
            },
        };
        let longer: i128 = len as i128 + after as i128 - before as i128;
        let len: usize = if longer < 0 {
            0
        } else if longer > usize::MAX as i128 {
            usize::MAX
        } else {
            longer as usize
        };
        set_object(host, cur, HostObj::SubList { parent, offset, len, exp_mods: mods });
        cur = parent as usize;
        left -= 1;
    }
}

/// The list behind a view: its elements and fixity, and the window, when the
/// window lies in it.
pub open spec fn backing(h: HostV, id: int) -> Result<(int, int, int, Seq<Val>, Fixity, u64), FaultV> {
    match sound_window(h, id) {
        Err(f) => Err(f),
        Ok((root, offset, len)) => match object(h, root) {
            Some(ObjV::List { items, fixed, mods }) => if offset + len <= items.len() {
                Ok((root, offset, len, items, fixed, mods))
            } else {
                Err(internal_fault("javars: dangling subList backing"@))
            },
            _ => Err(internal_fault("javars: dangling subList backing"@)),
        },
    }
}

/// The host after a method made what a view shows `window`.
pub open spec fn rewritten(h: HostV, id: int, method: Seq<char>, window: Seq<Val>) -> HostV {
    match backing(h, id) {
        Err(_) => h,
        Ok((root, offset, len, items, fixed, mods)) => {
            let mods2 = if counts_as_change(method, len, window.len() as int) {
                one_more(mods)
            } else {
                mods
            };
            let h2 = with_object(
                h,
                root,
                ObjV::List {
                    items: spliced_items(items, offset, offset + len, window),
                    fixed,
                    mods: mods2,
                },
            );
            if counts_as_change(method, len, window.len() as int) {
                resized_chain(h2, id, window.len() - len, mods2, (h.heap.len() + 1) as nat)
            } else {
                h2
            }
        },
    }
}

/// `view.method(args)`: the host after it, and the answer.
pub open spec fn sublist_called(
    h: HostV,
    id: int,
    method: Seq<char>,
    args: Seq<Val>,
    seqs: Seq<Option<Seq<Val>>>,
    plan: Option<EqPlanV>,
) -> (HostV, Result<Val, FaultV>) {
    match backing(h, id) {
        Err(f) => (h, Err(f)),
        Ok((root, offset, len, items, fixed, mods)) => match list_called(
            h,
            items.subrange(offset, offset + len),
            fixed,
            method,
            args,
            seqs,
            plan,
        ) {
            Err(f) => (h, Err(f)),
            Ok((window, v)) => (rewritten(h, id, method, window), Ok(v)),
        },
    }
}

/// How many elements a collection stores.
pub open spec fn stored(h: HostV, id: int) -> int {
    match object(h, id) {
        Some(ObjV::SubList { len, .. }) => len,
        Some(ObjV::List { items, .. }) => items.len() as int,
        Some(ObjV::SetObj { items, .. }) => items.len() as int,
        Some(ObjV::MapObj { entries, .. }) => entries.len() as int,
        _ => 0,
    }
}

/// How many elements a collection stores.
pub fn stored_len(host: &Host, id: usize) -> (r: usize)
    ensures
        r == stored(host@, id as int),
{
    if id >= host.heap.len() {
        return 0;
    }
    assert(host@.heap[id as int] == host.heap@[id as int]@);
    match &host.heap[id] {
        HostObj::SubList { len, .. } => *len,
        HostObj::List { items, .. } => items.len(),
        HostObj::SetObj { items, .. } => items.len(),
        HostObj::MapObj { entries, .. } => entries.len(),
        _ => 0,
    }
}

/// Take a list's window out: the backing list, where it starts, the elements,
/// and the list's fixity and count of changes.
fn lift_window(host: &Host, id: usize) -> (r: Result<
    (usize, usize, Vec<Value>, Fixity, u64),
    Fault,
>)
    ensures
        match (r, backing(host@, id as int)) {
            (Ok(x), Ok((root, offset, len, items, fixed, mods))) => x.0 == root && x.1 == offset
                && vals(x.2@) == items.subrange(offset, offset + len) && x.3 == fixed && x.4
                == mods && x.2.len() == len && x.0 < host@.heap.len(),
            (Err(f), Err(g)) => f@ == g,
            _ => false,
        },
{
    match checked_window(host, id) {
        Err(f) => Err(f),
        Ok((root, offset, len)) => {
            if root < host.heap.len() {
                assert(host@.heap[root as int] == host.heap@[root as int]@);
                match &host.heap[root] {
                    HostObj::List { items, fixed, mods } => {
                        if offset <= items.len() as u128 && len <= items.len() - offset as usize {
                            let from: usize = offset as usize;
                            let window: Vec<Value> = copy_range(items, from, from + len);
                            assert(vals(window@).len() == window.len());
                            return Ok((root, from, window, *fixed, *mods));
                        }
                    },
                    _ => {},
                }
            }
            Err(Fault::internal(own("javars: dangling subList backing")))
        },
    }
}

/// Put a view's window back and pass a structural change on.
fn drop_window(
    host: &mut Host,
    id: usize,
    method: &str,
    root: usize,
    offset: usize,
    len: usize,
    window: &Vec<Value>,
)
    requires
        backing(old(host)@, id as int) matches Ok(b) && b.0 == root && b.1 == offset && b.2 == len,
    ensures
        final(host)@ == rewritten(old(host)@, id as int, method@, vals(window@)),
{
    let ghost before = host@;
    assert(before.heap[root as int] == host.heap@[root as int]@);
    let (items, fixed, mods): (Vec<Value>, Fixity, u64) = match &host.heap[root] {
        HostObj::List { items, fixed, mods } => {
            assert(vals(items@).len() == items.len());
            (splice_items(items, offset, offset + len, window), *fixed, *mods)
        },
        _ => {
            return;
        },
    };
    assert(vals(window@).len() == window.len());
    let changed: bool = is_structural(method, len, window.len());
    let mods: u64 = if changed {
        count_change(mods)
    } else {
        mods
    };
    set_object(host, root, HostObj::List { items, fixed, mods });
    if changed {
        resize_ancestors(host, id, len, window.len(), mods);
    }
}

/// Evaluate a list method on a view.
pub fn sublist_method(
    host: &mut Host,
    id: usize,
    method: &str,
    args: &Vec<Value>,
    arg_seqs: &Vec<Option<Vec<Value>>>,
    eq: &Option<EqPlan>,
) -> (r: Result<Value, Fault>)
    requires
        arg_seqs.len() == args.len(),
        plan_fits(plan_view(*eq), method@, stored(old(host)@, id as int)),
    ensures
        (final(host)@, outcome(r)) == sublist_called(
            old(host)@,
            id as int,
            method@,
            vals(args@),
            seq_views(arg_seqs@),
            plan_view(*eq),
        ),
{
    match lift_window(host, id) {
        Err(f) => Err(f),
        Ok((root, offset, mut window, fixed, _)) => {
            let len: usize = window.len();
            match list_method(host, &mut window, fixed, method, args, arg_seqs, eq) {
                Err(f) => Err(f),
                Ok(v) => {
                    drop_window(host, id, method, root, offset, len, &window);
                    Ok(v)
                },
            }
        },
    }
}

/// Whether a list, or the list behind a view, is one of which nothing may change.
pub open spec fn immutable(h: HostV, id: int) -> bool {
    if is_view(h, id) {
        backing(h, id) matches Ok((_, _, _, _, fixed, _)) && fixed == Fixity::Immutable
    } else {
        object(h, id) matches Some(ObjV::List { fixed, .. }) && fixed == Fixity::Immutable
    }
}

fn is_immutable(host: &Host, id: usize) -> (r: bool)
    ensures
        r == immutable(host@, id as int),
{
    if is_sublist(host, id) {
        return match lift_window(host, id) {
            Ok((_, _, _, fixed, _)) => fixed == Fixity::Immutable,
            Err(_) => false,
        };
    }
    if id >= host.heap.len() {
        return false;
    }
    assert(host@.heap[id as int] == host.heap@[id as int]@);
    match &host.heap[id] {
        HostObj::List { fixed, .. } => *fixed == Fixity::Immutable,
        _ => false,
    }
}

/// Whether a value is a list of which nothing may change.
pub open spec fn is_frozen(h: HostV, v: Val) -> bool {
    v matches Val::Obj(id) && immutable(h, id as int)
}

/// Whether a value is a list of which nothing may change.
pub fn frozen(host: &Host, v: &Value) -> (r: bool)
    ensures
        r == is_frozen(host@, v@),
{
    match v {
        Value::Obj(id) => is_immutable(host, *id as usize),
        _ => false,
    }
}

/// Overwrite what a list or a view shows. `structural` counts it as a structural
/// change. An immutable list refuses it.
pub open spec fn overwritten(h: HostV, id: int, items: Seq<Val>, structural: bool) -> Result<
    HostV,
    FaultV,
> {
    if immutable(h, id) {
        Err(unsupported_operation())
    } else if is_view(h, id) {
        match backing(h, id) {
            Err(f) => Err(f),
            Ok((root, offset, len, old_items, fixed, mods)) => Ok(
                with_object(
                    h,
                    root,
                    ObjV::List {
                        items: spliced_items(old_items, offset, offset + len, items),
                        fixed,
                        mods: if structural {
                            one_more(mods)
                        } else {
                            mods
                        },
                    },
                ),
            ),
        }
    } else {
        match object(h, id) {
            Some(ObjV::List { fixed, mods, .. }) => Ok(
                with_object(
                    h,
                    id,
                    ObjV::List {
                        items,
                        fixed,
                        mods: if structural {
                            one_more(mods)
                        } else {
                            mods
                        },
                    },
                ),
            ),
            _ => Ok(h),
        }
    }
}

/// Replace what a list shows in place. Through a view the elements land in its
/// window; what is no list is left alone, and an immutable list refuses.
pub fn write_sequence(host: &mut Host, id: usize, items: Vec<Value>, structural: bool) -> (r: Result<
    (),
    Fault,
>)
    ensures
        match overwritten(old(host)@, id as int, vals(items@), structural) {
            Ok(h) => r is Ok && final(host)@ == h,
            Err(f) => r matches Err(g) && g@ == f && final(host)@ == old(host)@,
        },
{
    let ghost before = host@;
    if is_immutable(host, id) {
        return Err(unsupported_change());
    }
    if is_sublist(host, id) {
        match lift_window(host, id) {
            Err(f) => Err(f),
            Ok((root, offset, window, fixed, mods)) => {
                assert(before.heap[root as int] == host.heap@[root as int]@);
                let all: Vec<Value> = match &host.heap[root] {
                    HostObj::List { items: whole, .. } => {
                        assert(vals(whole@).len() == whole.len());
                        splice_items(whole, offset, offset + window.len(), &items)
                    },
                    _ => {
                        return Ok(());
                    },
                };
                let mods: u64 = if structural {
                    count_change(mods)
                } else {
                    mods
                };
                set_object(host, root, HostObj::List { items: all, fixed, mods });
                Ok(())
            },
        }
    } else {
        if id >= host.heap.len() {
            return Ok(());
        }
        assert(before.heap[id as int] == host.heap@[id as int]@);
        let (fixed, mods): (Fixity, u64) = match &host.heap[id] {
            HostObj::List { fixed, mods, .. } => (*fixed, *mods),
            _ => {
                return Ok(());
            },
        };
        let mods: u64 = if structural {
            count_change(mods)
        } else {
            mods
        };
        set_object(host, id, HostObj::List { items, fixed, mods });
        Ok(())
    }
}

/// Overwrite a list in place, so that every reference to it sees the change. It
/// counts as structural: a view of the list goes stale.
pub fn write_list(host: &mut Host, target: &Value, items: Vec<Value>) -> (r: Result<(), Fault>)
    ensures
        match target@ {
            Val::Obj(id) => match overwritten(old(host)@, id as int, vals(items@), true) {
                Ok(h) => r is Ok && final(host)@ == h,
                Err(f) => r matches Err(g) && g@ == f && final(host)@ == old(host)@,
            },
            _ => r is Ok && final(host)@ == old(host)@,
        },
{
    match target {
        Value::Obj(id) => write_sequence(host, *id as usize, items, true),
        _ => Ok(()),
    }
}

// ── Dispatch ────────────────────────────────────────────────────────────────

/// The host with what a method answers put on its heap, and the value.
pub open spec fn settled(h: HostV, a: AnswerV) -> (HostV, Val) {
    match a {
        AnswerV::Value(v) => (h, v),
        AnswerV::Alloc(o) => (
            HostV { heap: h.heap.push(o), ..h },
            Val::Obj(h.heap.len() as u32),
        ),
        AnswerV::Format => (h, Val::Undef),
    }
}

/// Put what a method answers on the heap where it is a new object.
pub fn settle(host: &mut Host, a: Answer) -> (r: Value)
    ensures
        (final(host)@, r@) == settled(old(host)@, a@),
{
    match a {
        Answer::Value(v) => v,
        Answer::Alloc(o) => Value::Obj(heap_alloc(host, o)),
        Answer::Format => Value::Undef,
    }
}

/// `recv.method(args)` on the collection `id`: the host after it, and the
/// answer.
pub open spec fn coll_called(
    h: HostV,
    id: int,
    method: Seq<char>,
    args: Seq<Val>,
    seqs: Seq<Option<Seq<Val>>>,
    plan: Option<EqPlanV>,
) -> (HostV, Result<Val, FaultV>) {
    match object(h, id) {
        Some(ObjV::SubList { .. }) => sublist_called(h, id, method, args, seqs, plan),
        None => (h, Err(internal_fault("javars: dangling collection handle"@))),
        Some(ObjV::List { items, fixed, mods }) => match list_called(
            h,
            items,
            fixed,
            method,
            args,
            seqs,
            plan,
        ) {
            Err(f) => (h, Err(f)),
            Ok((s, v)) => (
                with_object(
                    h,
                    id,
                    ObjV::List {
                        items: s,
                        fixed,
                        mods: if counts_as_change(method, items.len() as int, s.len() as int) {
                            one_more(mods)
                        } else {
                            mods
                        },
                    },
                ),
                Ok(v),
            ),
        },
        Some(ObjV::MapObj { entries, order }) => match map_called(
            h,
            entries,
            order,
            method,
            args,
            plan,
        ) {
            Err(f) => (h, Err(f)),
            Ok((e, a)) => {
                let (h2, v) = settled(with_object(h, id, ObjV::MapObj { entries: e, order }), a);
                (h2, Ok(v))
            },
        },
        Some(ObjV::SetObj { items, order, fixed }) => match set_called(
            h,
            items,
            fixed,
            method,
            args,
            seqs,
            plan,
        ) {
            Err(f) => (h, Err(f)),
            Ok((s, v)) => (with_object(h, id, ObjV::SetObj { items: s, order, fixed }), Ok(v)),
        },
        _ => (
            h,
            Err(internal_fault("javars: `"@ + method + "` is not a collection method"@)),
        ),
    }
}

/// Evaluate `recv.method(args)` on a collection, where no code of the program
/// has to run any more: `arg_seqs` is what each argument holds, `eq` what the
/// program's own `equals` decided. A change of a list's length counts as a
/// structural change, and so does `clear`.
#[verifier::rlimit(30)]
pub fn coll_method(
    host: &mut Host,
    id: usize,
    method: &str,
    args: &Vec<Value>,
    arg_seqs: &Vec<Option<Vec<Value>>>,
    eq: &Option<EqPlan>,
) -> (r: Result<Value, Fault>)
    requires
        arg_seqs.len() == args.len(),
        plan_fits(plan_view(*eq), method@, stored(old(host)@, id as int)),
    ensures
        (final(host)@, outcome(r)) == coll_called(
            old(host)@,
            id as int,
            method@,
            vals(args@),
            seq_views(arg_seqs@),
            plan_view(*eq),
        ),
{
    if is_sublist(host, id) {
        return sublist_method(host, id, method, args, arg_seqs, eq);
    }
    if id >= host.heap.len() {
        return Err(Fault::internal(own("javars: dangling collection handle")));
    }
    let ghost h = host@;
    let ghost plan = plan_view(*eq);
    let mut taken: HostObj = HostObj::Boxed;
    assert(h.heap[id as int] == host.heap@[id as int]@);
    std::mem::swap(&mut taken, &mut host.heap[id]);
    let ghost g = host@;
    proof {
        assert(g.heap =~= h.heap.update(id as int, ObjV::Boxed));
        assert(g.heap.update(id as int, h.heap[id as int]) =~= h.heap);
        assert(forall|o: ObjV| #[trigger]
            g.heap.update(id as int, o) =~= h.heap.update(id as int, o));
    }
    match taken {
        HostObj::List { mut items, fixed, mods } => {
            let n: usize = items.len();
            proof {
                lemma_methods(
                    h,
                    g,
                    vals(items@),
                    seq![],
                    fixed,
                    Order::Hash,
                    method@,
                    vals(args@),
                    seq_views(arg_seqs@),
                    plan,
                );
            }
            let r: Result<Value, Fault> = list_method(
                host,
                &mut items,
                fixed,
                method,
                args,
                arg_seqs,
                eq,
            );
            assert(vals(items@).len() == items.len());
            let mods: u64 = if r.is_ok() && is_structural(method, n, items.len()) {
                count_change(mods)
            } else {
                mods
            };
            set_object(host, id, HostObj::List { items, fixed, mods });
            r
        },
        HostObj::MapObj { mut entries, order } => {
            proof {
                lemma_methods(
                    h,
                    g,
                    seq![],
                    entry_views(entries@),
                    Fixity::Mutable,
                    order,
                    method@,
                    vals(args@),
                    seq_views(arg_seqs@),
                    plan,
                );
            }
            let r: Result<Answer, Fault> = map_method(
                host,
                &mut entries,
                order,
                method,
                args,
                eq,
            );
            set_object(host, id, HostObj::MapObj { entries, order });
            match r {
                Ok(a) => Ok(settle(host, a)),
                Err(f) => Err(f),
            }
        },
        HostObj::SetObj { mut items, order, fixed } => {
            proof {
                lemma_methods(
                    h,
                    g,
                    vals(items@),
                    seq![],
                    fixed,
                    Order::Hash,
                    method@,
                    vals(args@),
                    seq_views(arg_seqs@),
                    plan,
                );
            }
            let r: Result<Value, Fault> = set_method(
                host,
                &mut items,
                fixed,
                method,
                args,
                arg_seqs,
                eq,
            );
            set_object(host, id, HostObj::SetObj { items, order, fixed });
            r
        },
        other => {
            set_object(host, id, other);
            let mut m: String = own("javars: `");
            m.append(method);
            m.append("` is not a collection method");
            Err(Fault::internal(m))
        },
    }
}

/// How a call on a collection goes on.
pub enum CollStep {
    /// It is answered.
    Done(Value),
    /// These elements are to be sorted by a comparator and written back.
    Sort { items: Vec<Value>, comparator: Value },
    /// The argument is to be called once with each of these.
    ForEach(Vec<Vec<Value>>),
    /// The receiver is to be rendered.
    Render,
    /// The program's `equals` is to be asked, and [`coll_method`] then called.
    Compare(Vec<Option<Vec<Value>>>),
}

pub enum CollStepV {
    Done(Val),
    Sort { items: Seq<Val>, comparator: Val },
    ForEach(Seq<Seq<Val>>),
    Render,
    Compare(Seq<Option<Seq<Val>>>),
}

/// What argument lists stand for.
pub open spec fn call_views(s: Seq<Vec<Value>>) -> Seq<Seq<Val>> {
    Seq::new(s.len(), |i: int| vals(s[i]@))
}

impl View for CollStep {
    type V = CollStepV;

    open spec fn view(&self) -> CollStepV {
        match self {
            CollStep::Done(v) => CollStepV::Done(v@),
            CollStep::Sort { items, comparator } => CollStepV::Sort {
                items: vals(items@),
                comparator: comparator@,
            },
            CollStep::ForEach(calls) => CollStepV::ForEach(call_views(calls@)),
            CollStep::Render => CollStepV::Render,
            CollStep::Compare(s) => CollStepV::Compare(seq_views(s@)),
        }
    }
}

/// The calls `forEach` makes: a map hands over a key and its value, a sequence
/// one element.
pub open spec fn each_call(h: HostV, v: Val) -> Seq<Seq<Val>> {
    match entries_of(h, v) {
        Some(entries) => {
            let e = entries_in_order(h, entries, order_of(h, v));
            Seq::new(e.len(), |i: int| seq![e[i].0, e[i].1])
        },
        None => {
            let items = held(elements(h, v));
            Seq::new(items.len(), |i: int| seq![items[i]])
        },
    }
}

/// The calls `forEach` makes.
pub fn for_each_calls(host: &Host, recv: &Value) -> (r: Vec<Vec<Value>>)
    ensures
        call_views(r@) == each_call(host@, recv@),
{
    let mut calls: Vec<Vec<Value>> = Vec::new();
    let mut i: usize = 0;
    match map_entries(host, recv) {
        Some(entries) => {
            let (keys, values): (Vec<Value>, Vec<Value>) = present_entries(
                host,
                &entries,
                map_order(host, recv),
            );
            let ghost e = entries_in_order(
                host@,
                entry_views(entries@),
                order_of(host@, recv@),
            );
            assert(vals(keys@).len() == keys.len());
            while i < keys.len()
                invariant
                    i <= keys.len(),
                    keys.len() == values.len(),
                    vals(keys@) == keys_of(e),
                    vals(values@) == values_of(e),
                    calls.len() == i,
                    forall|k: int|
                        0 <= k < i ==> vals((#[trigger] calls@[k])@) == seq![e[k].0, e[k].1],
                decreases keys.len() - i,
            {
                let mut pair: Vec<Value> = Vec::new();
                pair.push(keys[i].copy());
                pair.push(values[i].copy());
                assert(keys_of(e).len() == vals(keys@).len());
                assert(keys@[i as int]@ == vals(keys@)[i as int]);
                assert(values@[i as int]@ == vals(values@)[i as int]);
                assert(vals(pair@) =~= seq![e[i as int].0, e[i as int].1]);
                calls.push(pair);
                i += 1;
            }
            assert(call_views(calls@) =~= each_call(host@, recv@));
        },
        None => {
            let seq: Option<Vec<Value>> = sequence_items(host, recv);
            let items: Vec<Value> = copy_held(&seq);
            assert(vals(items@).len() == items.len());
            while i < items.len()
                invariant
                    i <= items.len(),
                    calls.len() == i,
                    forall|k: int|
                        0 <= k < i ==> vals((#[trigger] calls@[k])@) == seq![vals(items@)[k]],
                decreases items.len() - i,
            {
                let mut one: Vec<Value> = Vec::new();
                one.push(items[i].copy());
                assert(vals(one@) =~= seq![vals(items@)[i as int]]);
                calls.push(one);
                i += 1;
            }
            assert(call_views(calls@) =~= each_call(host@, recv@));
        },
    }
    calls
}

/// The elements each argument holds.
pub open spec fn each_elements(h: HostV, args: Seq<Val>) -> Seq<Option<Seq<Val>>> {
    Seq::new(args.len(), |i: int| elements(h, args[i]))
}

fn arg_elements(host: &Host, args: &Vec<Value>) -> (r: Vec<Option<Vec<Value>>>)
    ensures
        seq_views(r@) == each_elements(host@, vals(args@)),
        r.len() == args.len(),
{
    let mut r: Vec<Option<Vec<Value>>> = Vec::new();
    let mut i: usize = 0;
    while i < args.len()
        invariant
            i <= args.len(),
            r.len() == i,
            forall|k: int|
                0 <= k < i ==> opt_vals(#[trigger] r@[k]) == elements(host@, vals(args@)[k]),
        decreases args.len() - i,
    {
        r.push(sequence_items(host, &args[i]));
        i += 1;
    }
    assert(seq_views(r@) =~= each_elements(host@, vals(args@)));
    r
}

/// How `recv.method(args)` on a collection begins.
pub open spec fn coll_begun(h: HostV, recv: Val, method: Seq<char>, args: Seq<Val>) -> (
    HostV,
    Result<CollStepV, FaultV>,
) {
    match recv {
        Val::Obj(id) => match staleness(h, recv) {
            Some(f) => (h, Err(f)),
            None => if method == "subList"@ && args.len() == 2 {
                match new_view(h, id as int, jint_of(h, args[0]), jint_of(h, args[1])) {
                    Ok(view) => (
                        HostV { heap: h.heap.push(view), ..h },
                        Ok(CollStepV::Done(Val::Obj(h.heap.len() as u32))),
                    ),
                    Err(f) => (h, Err(f)),
                }
            } else if method == "sort"@ && args.len() == 1 {
                match elements(h, recv) {
                    Some(items) => if is_frozen(h, recv) {
                        (h, Err(unsupported_operation()))
                    } else {
                        (h, Ok(CollStepV::Sort { items, comparator: args[0] }))
                    },
                    None => (h, Err(internal_fault("javars: `sort` needs a List receiver"@))),
                }
            } else if method == "forEach"@ && args.len() == 1 {
                (h, Ok(CollStepV::ForEach(each_call(h, recv))))
            } else if method == "toString"@ && args.len() == 0 {
                (h, Ok(CollStepV::Render))
            } else {
                (h, Ok(CollStepV::Compare(each_elements(h, args))))
            },
        },
        _ => (
            h,
            Err(
                java_fault(
                    "NullPointerException"@,
                    "Cannot invoke \""@ + method + "()\" because the receiver is null"@,
                ),
            ),
        ),
    }
}

/// Begin `recv.method(args)` on a collection: answer what needs no code of the
/// program, and say what has to run otherwise. A view is checked against its
/// backing list before anything else.
pub fn coll_step(host: &mut Host, recv: &Value, method: &str, args: &Vec<Value>) -> (r: Result<
    CollStep,
    Fault,
>)
    ensures
        final(host)@ == coll_begun(old(host)@, recv@, method@, vals(args@)).0,
        match (r, coll_begun(old(host)@, recv@, method@, vals(args@)).1) {
            (Ok(x), Ok(y)) => x@ == y,
            (Err(x), Err(y)) => x@ == y,
            _ => false,
        },
{
    match recv {
        Value::Obj(id) => {
            if let Some(f) = stale_view(host, recv) {
                return Err(f);
            }
            if same(method, "subList") && args.len() == 2 {
                let from: i64 = jint(host, &args[0]);
                let to: i64 = jint(host, &args[1]);
                match make_sublist(host, *id as usize, from, to) {
                    Ok(v) => Ok(CollStep::Done(v)),
                    Err(f) => Err(f),
                }
            } else if same(method, "sort") && args.len() == 1 {
                match sequence_items(host, recv) {
                    Some(items) => if frozen(host, recv) {
                        Err(unsupported_change())
                    } else {
                        Ok(CollStep::Sort { items, comparator: args[0].copy() })
                    },
                    None => Err(Fault::internal(own("javars: `sort` needs a List receiver"))),
                }
            } else if same(method, "forEach") && args.len() == 1 {
                Ok(CollStep::ForEach(for_each_calls(host, recv)))
            } else if same(method, "toString") && args.len() == 0 {
                Ok(CollStep::Render)
            } else {
                Ok(CollStep::Compare(arg_elements(host, args)))
            }
        },
        _ => {
            let mut m: String = own("Cannot invoke \"");
            m.append(method);
            m.append("()\" because the receiver is null");
            Err(Fault::java("NullPointerException", m))
        },
    }
}

} // verus!
