//! What the methods of maps, sets and lists answer and change, in terms of what
//! these hold.
use vstd::prelude::*;

use crate::host::{Fixity, HostV, ObjV, Order};
use crate::host::collections::{
    CollStepV, coll_begun, coll_called, elements, equality_reads_boxes_only, with_object,
};
use crate::host::keeping::{a_map_gives_back_what_was_put, after_put, keys_differ, put_is_exact};
use crate::host::lists::{equal_to, first_at, last_at, lemma_first_in_range};
use crate::host::maps::joined;
use crate::host::order::{
    equal, in_order, insert_sorted, lemma_positions, natural, presented,
    presenting_is_a_permutation, sorted_positions, sorting_by_a_key_is_stable,
};
use crate::host::render::{keys_of, values_of};
use crate::host::views::{object, root_of};
use crate::text::same;
use crate::value::{FaultV, Val, after_last};

verus! {

/// The names of the methods are different words.
proof fn lemma_collection_methods()
    ensures
        "add"@.len() == 3 && "add"@[0] == 'a',
        "addAll"@.len() == 6 && "addAll"@[0] == 'a',
        "clear"@.len() == 5,
        "contains"@.len() == 8,
        "containsKey"@.len() == 11 && "containsKey"@[0] == 'c',
        "containsValue"@.len() == 13,
        "equals"@.len() == 6 && "equals"@[0] == 'e',
        "get"@.len() == 3 && "get"@[0] == 'g',
        "getOrDefault"@.len() == 12 && "getOrDefault"@[0] == 'g',
        "indexOf"@.len() == 7 && "indexOf"@[1] == 'n',
        "isEmpty"@.len() == 7 && "isEmpty"@[1] == 's',
        "keySet"@.len() == 6 && "keySet"@[0] == 'k',
        "lastIndexOf"@.len() == 11 && "lastIndexOf"@[0] == 'l',
        "put"@.len() == 3 && "put"@[0] == 'p',
        "putIfAbsent"@.len() == 11 && "putIfAbsent"@[0] == 'p',
        "remove"@.len() == 6 && "remove"@[0] == 'r',
        "removeObject"@.len() == 12 && "removeObject"@[0] == 'r',
        "set"@.len() == 3 && "set"@[0] == 's',
        "size"@.len() == 4,
        "values"@.len() == 6 && "values"@[0] == 'v',
{
    reveal_strlit("add");
    reveal_strlit("addAll");
    reveal_strlit("clear");
    reveal_strlit("contains");
    reveal_strlit("containsKey");
    reveal_strlit("containsValue");
    reveal_strlit("equals");
    reveal_strlit("get");
    reveal_strlit("getOrDefault");
    reveal_strlit("indexOf");
    reveal_strlit("isEmpty");
    reveal_strlit("keySet");
    reveal_strlit("lastIndexOf");
    reveal_strlit("put");
    reveal_strlit("putIfAbsent");
    reveal_strlit("remove");
    reveal_strlit("removeObject");
    reveal_strlit("set");
    reveal_strlit("size");
    reveal_strlit("values");
}

/// Whether nothing but the object under one handle changes.
pub open spec fn only_at(h: HostV, g: HostV, id: int) -> bool {
    &&& g == (HostV { heap: g.heap, ..h })
    &&& g.heap.len() == h.heap.len()
    &&& forall|k: int| 0 <= k < h.heap.len() && k != id ==> #[trigger] g.heap[k] == h.heap[k]
}

/// Whether a list holds these elements.
pub open spec fn lists_items(h: HostV, id: int, items: Seq<Val>) -> bool {
    object(h, id) matches Some(ObjV::List { items: s, .. }) && s == items
}

/// Whether a map holds these entries.
pub open spec fn maps_entries(h: HostV, id: int, entries: Seq<(Val, Val)>) -> bool {
    object(h, id) matches Some(ObjV::MapObj { entries: s, .. }) && s == entries
}

/// Whether a set holds these elements.
pub open spec fn sets_items(h: HostV, id: int, items: Seq<Val>) -> bool {
    object(h, id) matches Some(ObjV::SetObj { items: s, .. }) && s == items
}

/// What a list lets be changed.
pub open spec fn list_fixity(h: HostV, id: int) -> Fixity {
    match h.heap[id] {
        ObjV::List { fixed, .. } => fixed,
        _ => Fixity::Immutable,
    }
}

/// What a set lets be changed.
pub open spec fn set_fixity(h: HostV, id: int) -> Fixity {
    match h.heap[id] {
        ObjV::SetObj { fixed, .. } => fixed,
        _ => Fixity::Immutable,
    }
}

/// What a list holds.
pub open spec fn list_held(h: HostV, id: int) -> Seq<Val> {
    match h.heap[id] {
        ObjV::List { items, .. } => items,
        _ => seq![],
    }
}

/// What a set holds.
pub open spec fn set_held(h: HostV, id: int) -> Seq<Val> {
    match h.heap[id] {
        ObjV::SetObj { items, .. } => items,
        _ => seq![],
    }
}

/// The order in which a map is iterated.
pub open spec fn map_order_at(h: HostV, id: int) -> Order {
    match h.heap[id] {
        ObjV::MapObj { order, .. } => order,
        _ => Order::Insertion,
    }
}

/// `list.method(args)`, `map.method(args)` or `set.method(args)`, without any
/// sequence among the arguments.
pub open spec fn does(h: HostV, id: int, method: Seq<char>, args: Seq<Val>) -> (
    HostV,
    Result<Val, FaultV>,
) {
    coll_called(h, id, method, args, Seq::new(args.len(), |i: int| None), None)
}

/// The same with a sequence as the one argument.
pub open spec fn does_with(h: HostV, id: int, method: Seq<char>, arg: Val, items: Seq<Val>) -> (
    HostV,
    Result<Val, FaultV>,
) {
    coll_called(h, id, method, seq![arg], seq![Some(items)], None)
}

/// Whether a call answers with a value and changes nothing.
pub open spec fn tells(h: HostV, r: (HostV, Result<Val, FaultV>), v: Val) -> bool {
    r.0 == h && r.1 == Ok::<Val, FaultV>(v)
}

/// Whether a call fails with a class of fault and changes nothing.
pub open spec fn turns_down(h: HostV, r: (HostV, Result<Val, FaultV>), class: Seq<char>) -> bool {
    r.0 == h && (r.1 matches Err(f) && f.class == class)
}

proof fn lemma_undotted(w: Seq<char>)
    requires
        forall|i: int| 0 <= i < w.len() ==> #[trigger] w[i] != '.',
    ensures
        after_last(w, '.') == w,
    decreases w.len(),
{
    if w.len() > 0 {
        lemma_undotted(w.drop_last());
        assert(w.drop_last().push(w.last()) =~= w);
    }
}

proof fn lemma_fault_names()
    ensures
        after_last("IndexOutOfBoundsException"@, '.') == "IndexOutOfBoundsException"@,
        after_last("UnsupportedOperationException"@, '.') == "UnsupportedOperationException"@,
        after_last("NoSuchElementException"@, '.') == "NoSuchElementException"@,
        after_last("IllegalArgumentException"@, '.') == "IllegalArgumentException"@,
{
    reveal_strlit("IndexOutOfBoundsException");
    reveal_strlit("UnsupportedOperationException");
    reveal_strlit("NoSuchElementException");
    reveal_strlit("IllegalArgumentException");
    lemma_undotted("IndexOutOfBoundsException"@);
    lemma_undotted("UnsupportedOperationException"@);
    lemma_undotted("NoSuchElementException"@);
    lemma_undotted("IllegalArgumentException"@);
}

proof fn lemma_last_in_range(items: Seq<Val>, same: spec_fn(Val) -> bool, n: int)
    requires
        0 <= n <= items.len(),
    ensures
        match last_at(items, same, n) {
            Some(i) => 0 <= i < n && same(items[i]) && forall|k: int|
                i < k < n ==> !same(#[trigger] items[k]),
            None => forall|k: int| 0 <= k < n ==> !same(#[trigger] items[k]),
        },
    decreases n,
{
    if n > 0 && !same(items[n - 1]) {
        lemma_last_in_range(items, same, n - 1);
    }
}

proof fn lemma_same_object(h: HostV, id: int, o: ObjV)
    requires
        object(h, id) == Some(o),
    ensures
        with_object(h, id, o) == h,
{
    assert(h.heap.update(id, o) =~= h.heap);
}

proof fn lemma_first_place(h: HostV, items: Seq<Val>, q: Val)
    ensures
        match first_at(items, equal_to(h, q), 0) {
            Some(i) => 0 <= i < items.len() && equal(h, items[i], q) && forall|k: int|
                0 <= k < i ==> !equal(h, #[trigger] items[k], q),
            None => forall|k: int| 0 <= k < items.len() ==> !equal(h, #[trigger] items[k], q),
        },
{
    lemma_first_in_range(items, equal_to(h, q), 0);
    match first_at(items, equal_to(h, q), 0) {
        Some(i) => {
            assert(equal_to(h, q)(items[i]));
            assert forall|k: int| 0 <= k < i implies !equal(h, #[trigger] items[k], q) by {
                assert(!equal_to(h, q)(items[k]));
            }
        },
        None => {
            assert forall|k: int| 0 <= k < items.len() implies !equal(h, #[trigger] items[k], q) by {
                assert(!equal_to(h, q)(items[k]));
            }
        },
    }
}

// ── Maps ────────────────────────────────────────────────────────────────────

/// Whether a map has a key.
pub open spec fn has_key(h: HostV, entries: Seq<(Val, Val)>, k: Val) -> bool {
    exists|i: int| 0 <= i < entries.len() && equal(h, #[trigger] entries[i].0, k)
}

proof fn lemma_place(h: HostV, entries: Seq<(Val, Val)>, k: Val)
    ensures
        match first_at(keys_of(entries), equal_to(h, k), 0) {
            Some(i) => 0 <= i < entries.len() && equal(h, entries[i].0, k) && forall|j: int|
                0 <= j < i ==> !equal(h, #[trigger] entries[j].0, k),
            None => !has_key(h, entries, k),
        },
{
    let keys = keys_of(entries);
    lemma_first_place(h, keys, k);
    match first_at(keys, equal_to(h, k), 0) {
        Some(i) => {
            assert(keys[i] == entries[i].0);
            assert forall|j: int| 0 <= j < i implies !equal(h, #[trigger] entries[j].0, k) by {
                assert(keys[j] == entries[j].0);
            }
        },
        None => {
            assert forall|j: int| 0 <= j < entries.len() implies !equal(
                h,
                #[trigger] entries[j].0,
                k,
            ) by {
                assert(keys[j] == entries[j].0);
            }
        },
    }
}

/// A map without two equal keys is asked for a key: `containsKey` says whether it
/// has it, `get` gives the value of the entry with the key and `null` without one,
/// and `getOrDefault` gives what `get` gives where the map has the key and the
/// default where it has not. Nothing changes.
#[verifier::rlimit(60)]
pub proof fn a_map_is_asked_for_a_key(
    h: HostV,
    id: int,
    entries: Seq<(Val, Val)>,
    k: Val,
    d: Val,
    i: int,
)
    requires
        maps_entries(h, id, entries),
        keys_differ(h, entries),
    ensures
        tells(h, does(h, id, "containsKey"@, seq![k]), Val::Bool(has_key(h, entries, k))),
        has_key(h, entries, k) ==> {
            let v = does(h, id, "get"@, seq![k]).1->Ok_0;
            &&& tells(h, does(h, id, "get"@, seq![k]), v)
            &&& tells(h, does(h, id, "getOrDefault"@, seq![k, d]), v)
            &&& exists|j: int|
                0 <= j < entries.len() && equal(h, #[trigger] entries[j].0, k) && v == entries[j].1
        },
        0 <= i < entries.len() && k == entries[i].0 && equal(h, k, k) ==> tells(
            h,
            does(h, id, "get"@, seq![k]),
            entries[i].1,
        ),
        !has_key(h, entries, k) ==> tells(h, does(h, id, "get"@, seq![k]), Val::Undef) && tells(
            h,
            does(h, id, "getOrDefault"@, seq![k, d]),
            d,
        ),
{
    lemma_collection_methods();
    lemma_place(h, entries, k);
    lemma_same_object(h, id, h.heap[id]);
    if let Some(j) = first_at(keys_of(entries), equal_to(h, k), 0) {
        assert(equal(h, entries[j].0, k));
        if 0 <= i < entries.len() && k == entries[i].0 && equal(h, k, k) {
            if j < i {
                assert(!equal(h, entries[j].0, entries[i].0));
            } else if i < j {
                assert(!equal(h, entries[i].0, k));
            }
        }
    }
}

/// What was put under a key is what `getOrDefault` gives of it, whatever the
/// default.
#[verifier::rlimit(60)]
pub proof fn what_was_put_is_no_default(h: HostV, id: int, entries: Seq<(Val, Val)>, k: Val, v: Val, d: Val)
    requires
        maps_entries(h, id, entries),
        equal(h, k, k),
    ensures
        ({
            let g = does(h, id, "put"@, seq![k, v]).0;
            &&& only_at(h, g, id)
            &&& tells(g, does(g, id, "getOrDefault"@, seq![k, d]), v)
            &&& tells(g, does(g, id, "get"@, seq![k]), v)
            &&& tells(g, does(g, id, "containsKey"@, seq![k]), Val::Bool(true))
        }),
{
    lemma_collection_methods();
    let order = map_order_at(h, id);
    put_is_exact(h, entries, order, k, v);
    let e = after_put(h, entries, k, v);
    a_map_gives_back_what_was_put(h, entries, order, k, v);
    let g = with_object(h, id, ObjV::MapObj { entries: e, order });
    assert(does(h, id, "put"@, seq![k, v]).0 == g);
    lemma_same_object(g, id, ObjV::MapObj { entries: e, order });
    assert forall|a: Val, b: Val| #[trigger] equal(h, a, b) == equal(g, a, b) by {
        equality_reads_boxes_only(h, g, a, b);
    }
    assert(equal_to(h, k) =~= equal_to(g, k));
}

/// `putIfAbsent` leaves a map alone that has the key, and answers with its value;
/// otherwise it puts the value behind the others and answers with `null`. `put`
/// does the same for a key the map has not, and for one that it has it changes
/// nothing but the value.
#[verifier::rlimit(60)]
pub proof fn putting_asks_for_the_key(h: HostV, id: int, entries: Seq<(Val, Val)>, k: Val, v: Val)
    requires
        maps_entries(h, id, entries),
    ensures
        has_key(h, entries, k) ==> {
            let g = does(h, id, "put"@, seq![k, v]).0;
            &&& does(h, id, "putIfAbsent"@, seq![k, v]) == does(h, id, "get"@, seq![k])
            &&& does(h, id, "put"@, seq![k, v]).1 == does(h, id, "get"@, seq![k]).1
            &&& only_at(h, g, id)
            &&& exists|i: int|
                0 <= i < entries.len() && equal(h, #[trigger] entries[i].0, k) && maps_entries(
                    g,
                    id,
                    entries.update(i, (entries[i].0, v)),
                )
        },
        !has_key(h, entries, k) ==> {
            let g = does(h, id, "put"@, seq![k, v]).0;
            &&& does(h, id, "putIfAbsent"@, seq![k, v]) == does(h, id, "put"@, seq![k, v])
            &&& does(h, id, "put"@, seq![k, v]).1 == Ok::<Val, FaultV>(Val::Undef)
            &&& only_at(h, g, id)
            &&& maps_entries(g, id, entries.push((k, v)))
        },
{
    lemma_collection_methods();
    lemma_place(h, entries, k);
}

/// `remove` takes the entry with a key out, answers with its value, and keeps the
/// others in their order; without one it answers with `null` and changes nothing.
#[verifier::rlimit(60)]
pub proof fn removing_a_key(h: HostV, id: int, entries: Seq<(Val, Val)>, k: Val)
    requires
        maps_entries(h, id, entries),
    ensures
        has_key(h, entries, k) ==> {
            let r = does(h, id, "remove"@, seq![k]);
            &&& only_at(h, r.0, id)
            &&& r.1 == does(h, id, "get"@, seq![k]).1
            &&& exists|i: int|
                0 <= i < entries.len() && equal(h, #[trigger] entries[i].0, k) && maps_entries(
                    r.0,
                    id,
                    entries.take(i) + entries.skip(i + 1),
                )
        },
        !has_key(h, entries, k) ==> tells(h, does(h, id, "remove"@, seq![k]), Val::Undef),
{
    lemma_collection_methods();
    lemma_place(h, entries, k);
    lemma_same_object(h, id, h.heap[id]);
    if let Some(i) = first_at(keys_of(entries), equal_to(h, k), 0) {
        assert(entries.remove(i) =~= entries.take(i) + entries.skip(i + 1));
    }
}

/// `size` counts the entries, `isEmpty` says that there is none, `clear` takes all
/// out, and `containsValue` says whether one has the value.
#[verifier::rlimit(60)]
pub proof fn a_map_as_a_whole(h: HostV, id: int, entries: Seq<(Val, Val)>, v: Val)
    requires
        maps_entries(h, id, entries),
        entries.len() <= i64::MAX,
    ensures
        tells(h, does(h, id, "size"@, seq![]), Val::Int(entries.len() as i64)),
        tells(h, does(h, id, "isEmpty"@, seq![]), Val::Bool(entries.len() == 0)),
        only_at(h, does(h, id, "clear"@, seq![]).0, id),
        maps_entries(does(h, id, "clear"@, seq![]).0, id, seq![]),
        tells(
            h,
            does(h, id, "containsValue"@, seq![v]),
            Val::Bool(
                exists|i: int| 0 <= i < entries.len() && equal(h, #[trigger] entries[i].1, v),
            ),
        ),
{
    lemma_collection_methods();
    lemma_same_object(h, id, h.heap[id]);
    let values = values_of(entries);
    lemma_first_place(h, values, v);
    match first_at(values, equal_to(h, v), 0) {
        Some(i) => {
            assert(values[i] == entries[i].1);
        },
        None => {
            assert forall|i: int| 0 <= i < entries.len() implies !equal(
                h,
                #[trigger] entries[i].1,
                v,
            ) by {
                assert(values[i] == entries[i].1);
            }
        },
    }
}

/// `keySet` makes a set of the keys and `values` a list of the values, both in the
/// order of iteration: the key and the value at one place are of one entry, every
/// entry has its place, and a map that keeps the order of insertion shows it.
#[verifier::rlimit(60)]
pub proof fn keys_and_values_go_together(h: HostV, id: int, entries: Seq<(Val, Val)>, i: int)
    requires
        maps_entries(h, id, entries),
        0 <= i < entries.len(),
        h.heap.len() < u32::MAX,
    ensures
        ({
            let a = does(h, id, "keySet"@, seq![]);
            let b = does(h, id, "values"@, seq![]);
            let n = h.heap.len() as int;
            let keys = set_held(a.0, n);
            let values = list_held(b.0, n);
            &&& a.1 == Ok::<Val, FaultV>(Val::Obj(n as u32))
            &&& b.1 == Ok::<Val, FaultV>(Val::Obj(n as u32))
            &&& a.0 == (HostV { heap: h.heap.push(a.0.heap[n]), ..h })
            &&& b.0 == (HostV { heap: h.heap.push(b.0.heap[n]), ..h })
            &&& a.0.heap[n] is SetObj && keys.len() == entries.len()
            &&& b.0.heap[n] is List && values.len() == entries.len()
            &&& exists|j: int|
                0 <= j < entries.len() && keys[i] == (#[trigger] entries[j]).0 && values[i]
                    == entries[j].1
            &&& exists|j: int|
                0 <= j < entries.len() && #[trigger] keys[j] == entries[i].0 && values[j]
                    == entries[i].1
            &&& map_order_at(h, id) == Order::Insertion ==> keys[i] == entries[i].0 && values[i]
                == entries[i].1
        }),
{
    lemma_collection_methods();
    lemma_same_object(h, id, h.heap[id]);
    let order = map_order_at(h, id);
    let at = presented(h, keys_of(entries), order);
    presenting_is_a_permutation(h, keys_of(entries), order);
    assert(at.contains(i));
    let j = choose|j: int| 0 <= j < at.len() && at[j] == i;
    let a = does(h, id, "keySet"@, seq![]);
    let n = h.heap.len() as int;
    let keys = set_held(a.0, n);
    assert(keys[j] == entries[i].0);
    assert(keys[i] == entries[at[i]].0);
}

// ── Sets ────────────────────────────────────────────────────────────────────

/// Whether a sequence has an element equal to a value.
pub open spec fn has_item(h: HostV, items: Seq<Val>, v: Val) -> bool {
    exists|i: int| 0 <= i < items.len() && equal(h, #[trigger] items[i], v)
}

/// `contains` says whether a set has an element, `add` puts one that it has not
/// behind the others and answers whether it did, and `remove` takes one out and
/// answers whether it did, with the others in their order.
#[verifier::rlimit(60)]
pub proof fn a_set_has_what_was_added(h: HostV, id: int, items: Seq<Val>, v: Val)
    requires
        sets_items(h, id, items),
        set_fixity(h, id) == Fixity::Mutable,
    ensures
        tells(h, does(h, id, "contains"@, seq![v]), Val::Bool(has_item(h, items, v))),
        has_item(h, items, v) ==> {
            let r = does(h, id, "remove"@, seq![v]);
            &&& tells(h, does(h, id, "add"@, seq![v]), Val::Bool(false))
            &&& only_at(h, r.0, id)
            &&& r.1 == Ok::<Val, FaultV>(Val::Bool(true))
            &&& exists|i: int|
                0 <= i < items.len() && equal(h, #[trigger] items[i], v) && sets_items(
                    r.0,
                    id,
                    items.take(i) + items.skip(i + 1),
                )
        },
        !has_item(h, items, v) ==> {
            let r = does(h, id, "add"@, seq![v]);
            &&& tells(h, does(h, id, "remove"@, seq![v]), Val::Bool(false))
            &&& only_at(h, r.0, id)
            &&& r.1 == Ok::<Val, FaultV>(Val::Bool(true))
            &&& sets_items(r.0, id, items.push(v))
        },
{
    lemma_collection_methods();
    lemma_same_object(h, id, h.heap[id]);
    lemma_first_place(h, items, v);
    if let Some(i) = first_at(items, equal_to(h, v), 0) {
        assert(equal(h, items[i], v));
        assert(items.remove(i) =~= items.take(i) + items.skip(i + 1));
    }
}

/// `size` counts the elements of a set, `isEmpty` says that there is none, and
/// `clear` takes all out.
#[verifier::rlimit(60)]
pub proof fn a_set_as_a_whole(h: HostV, id: int, items: Seq<Val>)
    requires
        sets_items(h, id, items),
        items.len() <= i64::MAX,
    ensures
        tells(h, does(h, id, "size"@, seq![]), Val::Int(items.len() as i64)),
        tells(h, does(h, id, "isEmpty"@, seq![]), Val::Bool(items.len() == 0)),
        set_fixity(h, id) == Fixity::Mutable ==> only_at(
            h,
            does(h, id, "clear"@, seq![]).0,
            id,
        ) && sets_items(does(h, id, "clear"@, seq![]).0, id, seq![]),
{
    lemma_collection_methods();
    lemma_same_object(h, id, h.heap[id]);
}

/// `addAll` puts those elements behind a set's own that it has not yet, keeps its
/// own in their places, has every given one afterwards, takes none in that was not
/// given, and answers whether it grew.
#[verifier::rlimit(60)]
pub proof fn adding_all_adds_the_new_ones(
    h: HostV,
    id: int,
    items: Seq<Val>,
    arg: Val,
    more: Seq<Val>,
)
    requires
        sets_items(h, id, items),
        set_fixity(h, id) == Fixity::Mutable,
        forall|i: int| 0 <= i < more.len() ==> equal(h, #[trigger] more[i], more[i]),
    ensures
        ({
            let r = does_with(h, id, "addAll"@, arg, more);
            let all = set_held(r.0, id);
            &&& only_at(h, r.0, id)
            &&& sets_items(r.0, id, all)
            &&& r.1 == Ok::<Val, FaultV>(Val::Bool(all.len() > items.len()))
            &&& all.len() >= items.len() && all.take(items.len() as int) == items
            &&& forall|i: int| 0 <= i < more.len() ==> has_item(h, all, #[trigger] more[i])
            &&& forall|i: int|
                items.len() <= i < all.len() ==> more.contains(#[trigger] all[i]) && !has_item(
                    h,
                    items,
                    all[i],
                )
        }),
{
    lemma_collection_methods();
    assert(items.take(items.len() as int) =~= items);
    lemma_joining(h, items, items, more, 0);
}

proof fn lemma_joining(h: HostV, own: Seq<Val>, items: Seq<Val>, more: Seq<Val>, at: int)
    requires
        0 <= at <= more.len(),
        own.len() <= items.len(),
        items.take(own.len() as int) == own,
        forall|i: int| 0 <= i < more.len() ==> equal(h, #[trigger] more[i], more[i]),
        forall|i: int| 0 <= i < at ==> has_item(h, items, #[trigger] more[i]),
        forall|i: int|
            own.len() <= i < items.len() ==> more.contains(#[trigger] items[i]) && !has_item(
                h,
                own,
                items[i],
            ),
    ensures
        ({
            let all = joined(h, items, more, at);
            &&& all.len() >= own.len() && all.take(own.len() as int) == own
            &&& forall|i: int| 0 <= i < more.len() ==> has_item(h, all, #[trigger] more[i])
            &&& forall|i: int|
                own.len() <= i < all.len() ==> more.contains(#[trigger] all[i]) && !has_item(
                    h,
                    own,
                    all[i],
                )
        }),
    decreases more.len() - at,
{
    if at < more.len() {
        lemma_first_place(h, items, more[at]);
        if first_at(items, equal_to(h, more[at]), 0) is Some {
            let i = first_at(items, equal_to(h, more[at]), 0)->0;
            assert(equal(h, items[i], more[at]));
            lemma_joining(h, own, items, more, at + 1);
        } else {
            let next = items.push(more[at]);
            assert(next.take(own.len() as int) =~= own) by {
                assert forall|k: int| 0 <= k < own.len() implies next[k] == own[k] by {
                    assert(items.take(own.len() as int)[k] == own[k]);
                }
            }
            assert forall|i: int| 0 <= i < at + 1 implies has_item(h, next, #[trigger] more[i]) by {
                if i < at {
                    assert(has_item(h, items, more[i]));
                    let k = choose|k: int|
                        0 <= k < items.len() && equal(h, #[trigger] items[k], more[i]);
                    assert(next[k] == items[k]);
                } else {
                    assert(next[items.len() as int] == more[at]);
                    assert(equal(h, more[at], more[at]));
                }
            }
            assert forall|i: int| own.len() <= i < next.len() implies more.contains(
                #[trigger] next[i],
            ) && !has_item(h, own, next[i]) by {
                if i < items.len() {
                    assert(next[i] == items[i]);
                } else {
                    assert(next[i] == more[at]);
                    assert forall|k: int| 0 <= k < own.len() implies !equal(
                        h,
                        #[trigger] own[k],
                        more[at],
                    ) by {
                        assert(own[k] == items.take(own.len() as int)[k]);
                        assert(!equal(h, items[k], more[at]));
                    }
                }
            }
            lemma_joining(h, own, next, more, at + 1);
        }
    }
}

// ── Lists ───────────────────────────────────────────────────────────────────

/// `get` gives the element at an index inside a list and refuses any other;
/// `size` counts the elements and `isEmpty` says that there is none.
#[verifier::rlimit(60)]
pub proof fn a_list_is_its_elements(h: HostV, id: int, items: Seq<Val>, i: i64)
    requires
        lists_items(h, id, items),
        items.len() <= i64::MAX,
    ensures
        0 <= i < items.len() ==> tells(h, does(h, id, "get"@, seq![Val::Int(i)]), items[i as int]),
        !(0 <= i < items.len()) ==> turns_down(
            h,
            does(h, id, "get"@, seq![Val::Int(i)]),
            "IndexOutOfBoundsException"@,
        ),
        tells(h, does(h, id, "size"@, seq![]), Val::Int(items.len() as i64)),
        tells(h, does(h, id, "isEmpty"@, seq![]), Val::Bool(items.len() == 0)),
{
    lemma_collection_methods();
    lemma_fault_names();
    lemma_same_object(h, id, h.heap[id]);
}

/// `indexOf` gives the first place of an element equal to a value, `lastIndexOf`
/// the last, and both -1 where there is none; `contains` says whether there is
/// one.
#[verifier::rlimit(60)]
pub proof fn a_list_is_searched(h: HostV, id: int, items: Seq<Val>, v: Val)
    requires
        lists_items(h, id, items),
        items.len() <= i64::MAX,
    ensures
        tells(h, does(h, id, "contains"@, seq![v]), Val::Bool(has_item(h, items, v))),
        ({
            let i = does(h, id, "indexOf"@, seq![v]).1->Ok_0->Int_0;
            &&& tells(h, does(h, id, "indexOf"@, seq![v]), Val::Int(i))
            &&& i == -1 || 0 <= i < items.len() && equal(h, items[i as int], v)
            &&& forall|k: int|
                0 <= k < items.len() && (i == -1 || k < i) ==> !equal(h, #[trigger] items[k], v)
        }),
        ({
            let i = does(h, id, "lastIndexOf"@, seq![v]).1->Ok_0->Int_0;
            &&& tells(h, does(h, id, "lastIndexOf"@, seq![v]), Val::Int(i))
            &&& i == -1 || 0 <= i < items.len() && equal(h, items[i as int], v)
            &&& forall|k: int|
                0 <= k < items.len() && (i == -1 || k > i) ==> !equal(h, #[trigger] items[k], v)
        }),
{
    lemma_collection_methods();
    lemma_same_object(h, id, h.heap[id]);
    lemma_first_place(h, items, v);
    let same = equal_to(h, v);
    lemma_last_in_range(items, same, items.len() as int);
    if let Some(i) = first_at(items, same, 0) {
        assert(equal(h, items[i], v));
    }
    match last_at(items, same, items.len() as int) {
        Some(i) => {
            assert(same(items[i]));
            assert forall|k: int| i < k < items.len() implies !equal(h, #[trigger] items[k], v) by {
                assert(!same(items[k]));
            }
        },
        None => {
            assert forall|k: int| 0 <= k < items.len() implies !equal(h, #[trigger] items[k], v) by {
                assert(!same(items[k]));
            }
        },
    }
}

/// `add` puts a value behind the others, or in front of the one at an index;
/// `set` puts one in the place of another, `remove` takes the one at an index out
/// and `clear` takes all out. The others stay in their order, no other object
/// changes, and an index outside the list is refused.
#[verifier::rlimit(60)]
pub proof fn a_list_is_changed_at_a_place(h: HostV, id: int, items: Seq<Val>, i: i64, v: Val)
    requires
        lists_items(h, id, items),
        list_fixity(h, id) == Fixity::Mutable,
    ensures
        ({
            let r = does(h, id, "add"@, seq![v]);
            &&& only_at(h, r.0, id)
            &&& r.1 == Ok::<Val, FaultV>(Val::Bool(true))
            &&& lists_items(r.0, id, items + seq![v])
        }),
        0 <= i <= items.len() ==> {
            let r = does(h, id, "add"@, seq![Val::Int(i), v]);
            &&& only_at(h, r.0, id)
            &&& r.1 == Ok::<Val, FaultV>(Val::Undef)
            &&& lists_items(r.0, id, items.take(i as int) + seq![v] + items.skip(i as int))
        },
        !(0 <= i <= items.len()) ==> turns_down(
            h,
            does(h, id, "add"@, seq![Val::Int(i), v]),
            "IndexOutOfBoundsException"@,
        ),
        0 <= i < items.len() ==> {
            let r = does(h, id, "set"@, seq![Val::Int(i), v]);
            &&& only_at(h, r.0, id)
            &&& r.1 == Ok::<Val, FaultV>(items[i as int])
            &&& lists_items(r.0, id, items.take(i as int) + seq![v] + items.skip(i + 1))
        },
        0 <= i < items.len() ==> {
            let r = does(h, id, "remove"@, seq![Val::Int(i)]);
            &&& only_at(h, r.0, id)
            &&& r.1 == Ok::<Val, FaultV>(items[i as int])
            &&& lists_items(r.0, id, items.take(i as int) + items.skip(i + 1))
        },
        !(0 <= i < items.len()) ==> turns_down(
            h,
            does(h, id, "set"@, seq![Val::Int(i), v]),
            "IndexOutOfBoundsException"@,
        ) && turns_down(
            h,
            does(h, id, "remove"@, seq![Val::Int(i)]),
            "IndexOutOfBoundsException"@,
        ),
        ({
            let r = does(h, id, "clear"@, seq![]);
            &&& only_at(h, r.0, id)
            &&& r.1 == Ok::<Val, FaultV>(Val::Undef)
            &&& lists_items(r.0, id, seq![])
        }),
{
    lemma_collection_methods();
    lemma_fault_names();
    assert(items.push(v) =~= items + seq![v]);
    if 0 <= i <= items.len() {
        assert(items.insert(i as int, v) =~= items.take(i as int) + seq![v] + items.skip(i as int));
    }
    if 0 <= i < items.len() {
        assert(items.update(i as int, v) =~= items.take(i as int) + seq![v] + items.skip(i + 1));
        assert(items.remove(i as int) =~= items.take(i as int) + items.skip(i + 1));
    }
}

/// Removing a value takes its first occurrence out and answers whether there was
/// one.
#[verifier::rlimit(60)]
pub proof fn a_value_is_removed_once(h: HostV, id: int, items: Seq<Val>, v: Val)
    requires
        lists_items(h, id, items),
        list_fixity(h, id) == Fixity::Mutable,
    ensures
        has_item(h, items, v) ==> {
            let r = does(h, id, "removeObject"@, seq![v]);
            &&& only_at(h, r.0, id)
            &&& r.1 == Ok::<Val, FaultV>(Val::Bool(true))
            &&& exists|i: int|
                0 <= i < items.len() && equal(h, #[trigger] items[i], v) && (forall|k: int|
                    0 <= k < i ==> !equal(h, #[trigger] items[k], v)) && lists_items(
                    r.0,
                    id,
                    items.take(i) + items.skip(i + 1),
                )
        },
        !has_item(h, items, v) ==> tells(h, does(h, id, "removeObject"@, seq![v]), Val::Bool(false)),
{
    lemma_collection_methods();
    lemma_same_object(h, id, h.heap[id]);
    lemma_first_place(h, items, v);
    if let Some(i) = first_at(items, equal_to(h, v), 0) {
        assert(equal(h, items[i], v));
        assert(items.remove(i) =~= items.take(i) + items.skip(i + 1));
    }
}

/// `addAll` puts all elements of another sequence behind a list's own, and
/// `equals` says whether the two are as long and equal in every place.
#[verifier::rlimit(60)]
pub proof fn a_list_and_another(h: HostV, id: int, items: Seq<Val>, arg: Val, more: Seq<Val>)
    requires
        lists_items(h, id, items),
    ensures
        list_fixity(h, id) == Fixity::Mutable ==> {
            let r = does_with(h, id, "addAll"@, arg, more);
            &&& only_at(h, r.0, id)
            &&& r.1 == Ok::<Val, FaultV>(Val::Bool(more.len() > 0))
            &&& lists_items(r.0, id, items + more)
        },
        tells(
            h,
            does_with(h, id, "equals"@, arg, more),
            Val::Bool(
                items.len() == more.len() && forall|i: int|
                    0 <= i < items.len() ==> #[trigger] equal(h, items[i], more[i]),
            ),
        ),
{
    lemma_collection_methods();
    lemma_same_object(h, id, h.heap[id]);
}

/// A list of fixed size takes new values and refuses every other change; an
/// immutable one refuses all, and an immutable set does.
#[verifier::rlimit(60)]
pub proof fn what_is_fixed_refuses(h: HostV, id: int, items: Seq<Val>, i: i64, v: Val)
    ensures
        lists_items(h, id, items) && list_fixity(h, id) != Fixity::Mutable ==> {
            &&& turns_down(h, does(h, id, "add"@, seq![v]), "UnsupportedOperationException"@)
            &&& turns_down(
                h,
                does(h, id, "add"@, seq![Val::Int(i), v]),
                "UnsupportedOperationException"@,
            )
            &&& turns_down(
                h,
                does(h, id, "remove"@, seq![Val::Int(i)]),
                "UnsupportedOperationException"@,
            )
            &&& turns_down(h, does(h, id, "removeObject"@, seq![v]), "UnsupportedOperationException"@)
            &&& turns_down(h, does(h, id, "clear"@, seq![]), "UnsupportedOperationException"@)
        },
        lists_items(h, id, items) && list_fixity(h, id) == Fixity::FixedSize && 0 <= i
            < items.len() ==> {
            let r = does(h, id, "set"@, seq![Val::Int(i), v]);
            &&& only_at(h, r.0, id)
            &&& r.1 == Ok::<Val, FaultV>(items[i as int])
            &&& lists_items(r.0, id, items.take(i as int) + seq![v] + items.skip(i + 1))
        },
        lists_items(h, id, items) && list_fixity(h, id) == Fixity::Immutable ==> turns_down(
            h,
            does(h, id, "set"@, seq![Val::Int(i), v]),
            "UnsupportedOperationException"@,
        ),
        sets_items(h, id, items) && set_fixity(h, id) != Fixity::Mutable ==> {
            &&& turns_down(h, does(h, id, "add"@, seq![v]), "UnsupportedOperationException"@)
            &&& turns_down(h, does(h, id, "remove"@, seq![v]), "UnsupportedOperationException"@)
            &&& turns_down(h, does(h, id, "clear"@, seq![]), "UnsupportedOperationException"@)
        },
{
    lemma_collection_methods();
    lemma_fault_names();
    if 0 <= i < items.len() {
        assert(items.update(i as int, v) =~= items.take(i as int) + seq![v] + items.skip(i + 1));
    }
}

// ── Views and orders ────────────────────────────────────────────────────────

/// `subList` makes a view that shows what stands from one index up to another, and
/// refuses indices outside the list or out of order.
#[verifier::rlimit(60)]
pub proof fn a_sublist_shows_a_part(h: HostV, id: u32, items: Seq<Val>, a: i64, b: i64)
    requires
        lists_items(h, id as int, items),
        h.heap.len() < u32::MAX,
    ensures
        0 <= a <= b <= items.len() ==> {
            let r = coll_begun(h, Val::Obj(id), "subList"@, seq![Val::Int(a), Val::Int(b)]);
            let n = h.heap.len() as int;
            &&& r.1 == Ok::<CollStepV, FaultV>(CollStepV::Done(Val::Obj(n as u32)))
            &&& r.0 == (HostV { heap: h.heap.push(r.0.heap[n]), ..h })
            &&& elements(r.0, Val::Obj(n as u32)) == Some(
                items.take(b as int).skip(a as int),
            )
        },
        !(0 <= a <= b <= items.len()) ==> {
            let r = coll_begun(h, Val::Obj(id), "subList"@, seq![Val::Int(a), Val::Int(b)]);
            r.0 == h && r.1 is Err
        },
{
    reveal_strlit("subList");
    reveal_strlit("sort");
    if 0 <= a <= b <= items.len() {
        let r = coll_begun(h, Val::Obj(id), "subList"@, seq![Val::Int(a), Val::Int(b)]);
        let g = r.0;
        let n = h.heap.len() as int;
        let root = id as int;
        assert(g.heap[root] == h.heap[root]);
        assert(root_of(g, root, a as int, (g.heap.len()) as nat) == Some((root, a as int)));
        assert(root_of(g, n, 0, (g.heap.len() + 1) as nat) == Some((root, a as int)));
        assert(items.take(b as int).skip(a as int) =~= items.subrange(a as int, b as int));
    }
}

/// A collection that keeps the order of insertion shows its elements as they were
/// added, and a sorted one of whole numbers shows them from the least on.
#[verifier::rlimit(60)]
pub proof fn iteration_goes_by_the_order(h: HostV, items: Seq<Val>, i: int, j: int)
    requires
        0 <= i < j < items.len(),
    ensures
        in_order(h, items, Order::Insertion) == items,
        (forall|k: int| 0 <= k < items.len() ==> #[trigger] items[k] is Int) ==> {
            let s = in_order(h, items, Order::Sorted);
            s.len() == items.len() && s[i] is Int && s[j] is Int && s[i]->Int_0 <= s[j]->Int_0
        },
{
    assert(in_order(h, items, Order::Insertion) =~= items);
    if forall|k: int| 0 <= k < items.len() ==> #[trigger] items[k] is Int {
        let n = items.len() as int;
        let key = |k: int|
            if 0 <= k < items.len() {
                items[k]->Int_0 as int
            } else {
                0
            };
        let above = |p: int, q: int| natural(h, items[p], items[q]) > 0;
        let by_key = |p: int, q: int| key(p) > key(q);
        lemma_same_positions(n, above, by_key, h, items);
        presenting_is_a_permutation(h, items, Order::Sorted);
        sorting_by_a_key_is_stable(n, key);
        let at = presented(h, items, Order::Sorted);
        assert(at == sorted_positions(n, above));
        assert(0 <= at[i] < n && 0 <= at[j] < n);
        assert(key(at[i]) <= key(at[j]));
        assert(items[at[i]] is Int && items[at[j]] is Int);
    }
}

proof fn lemma_same_positions(
    n: int,
    a: spec_fn(int, int) -> bool,
    b: spec_fn(int, int) -> bool,
    h: HostV,
    items: Seq<Val>,
)
    requires
        0 <= n <= items.len(),
        forall|p: int, q: int| 0 <= p < items.len() && 0 <= q < items.len() ==> #[trigger] a(p, q)
            == b(p, q),
    ensures
        sorted_positions(n, a) == sorted_positions(n, b),
    decreases n,
{
    if n > 0 {
        lemma_same_positions(n - 1, a, b, h, items);
        lemma_positions(n - 1, a);
        lemma_same_insert(sorted_positions(n - 1, a), n - 1, a, b, items);
    }
}

proof fn lemma_same_insert(
    s: Seq<int>,
    x: int,
    a: spec_fn(int, int) -> bool,
    b: spec_fn(int, int) -> bool,
    items: Seq<Val>,
)
    requires
        0 <= x < items.len(),
        forall|k: int| 0 <= k < s.len() ==> 0 <= #[trigger] s[k] < items.len(),
        forall|p: int, q: int| 0 <= p < items.len() && 0 <= q < items.len() ==> #[trigger] a(p, q)
            == b(p, q),
    ensures
        insert_sorted(s, x, a) == insert_sorted(s, x, b),
    decreases s.len(),
{
    if s.len() > 0 {
        let r = s.drop_last();
        assert forall|k: int| 0 <= k < r.len() implies 0 <= #[trigger] r[k] < items.len() by {
            assert(0 <= s[k] < items.len());
        }
        assert(0 <= s[s.len() - 1] < items.len());
        lemma_same_insert(r, x, a, b, items);
    }
}

} // verus!
