//! What the collections keep, whatever is called on them.
use vstd::prelude::*;

use crate::host::{Fixity, Host, HostV, ObjV, Order};
use crate::host::boxes::jint_of;
use crate::host::collections::{
    backing, coll_begun, coll_called, counts_as_change, elements, one_more, overwritten,
    resized_chain, shifted, spliced_items, sublist_called, with_object,
};
use crate::host::factories::static_begun;
use crate::host::lists::{EqPlanV, equal_to, first_at, held, lemma_first_in_range, list_called};
use crate::host::maps::{map_called, set_called};
use crate::host::order::equal;
use crate::host::render::keys_of;
use crate::host::strings::AnswerV;
use crate::host::views::{comodified, object, root_of, view_items};
use crate::text::same;
use crate::value::{FaultV, Val};

verus! {

/// The names of the methods are different words.
proof fn lemma_names()
    ensures
        "add"@ != "set"@,
        "get"@ != "set"@,
        "get"@ != "add"@,
        "contains"@ != "add"@,
        "contains"@ != "get"@,
        "add"@ != "indexOf"@,
        "add"@ != "lastIndexOf"@,
        "add"@ != "equals"@,
        "add"@ != "remove"@,
        "add"@ != "addAll"@,
{
    reveal_strlit("add");
    reveal_strlit("set");
    reveal_strlit("get");
    reveal_strlit("contains");
    reveal_strlit("indexOf");
    reveal_strlit("lastIndexOf");
    reveal_strlit("equals");
    reveal_strlit("remove");
    reveal_strlit("addAll");
    assert("add"@.len() == 3 && "addAll"@.len() == 6);
    assert("add"@[0] == 'a');
    assert("set"@[0] == 's');
    assert("get"@[0] == 'g');
}

// ── Maps ────────────────────────────────────────────────────────────────────

/// Where a key stands among entries.
pub open spec fn key_place(h: HostV, entries: Seq<(Val, Val)>, k: Val) -> Option<int> {
    first_at(keys_of(entries), equal_to(h, k), 0)
}

/// Whether no two keys are equal.
pub open spec fn keys_differ(h: HostV, entries: Seq<(Val, Val)>) -> bool {
    forall|i: int, j: int|
        0 <= i < j < entries.len() ==> !equal(
            h,
            #[trigger] entries[i].0,
            #[trigger] entries[j].0,
        )
}

/// A prefix without the element leaves the search to what comes behind it.
proof fn lemma_first_of(items: Seq<Val>, same: spec_fn(Val) -> bool, i: int, k: int)
    requires
        0 <= i <= k < items.len(),
        same(items[k]),
        forall|j: int| i <= j < k ==> !same(#[trigger] items[j]),
    ensures
        first_at(items, same, i) == Some(k),
    decreases k - i,
{
    if i < k {
        lemma_first_of(items, same, i + 1, k);
    }
}

/// The entries after a value was put under a key.
pub open spec fn after_put(h: HostV, entries: Seq<(Val, Val)>, k: Val, v: Val) -> Seq<(Val, Val)> {
    match key_place(h, entries, k) {
        Some(i) => entries.update(i, (entries[i].0, v)),
        None => entries.push((k, v)),
    }
}

/// `put` leaves these entries, and answers with what the key held before.
pub proof fn put_is_exact(h: HostV, entries: Seq<(Val, Val)>, order: Order, k: Val, v: Val)
    ensures
        map_called(h, entries, order, "put"@, seq![k, v], None) == Ok::<
            (Seq<(Val, Val)>, AnswerV),
            FaultV,
        >(
            (
                after_put(h, entries, k, v),
                AnswerV::Value(
                    match key_place(h, entries, k) {
                        Some(i) => entries[i].1,
                        None => Val::Undef,
                    },
                ),
            ),
        ),
{
}

/// A map gives back what was put into it, and holds the key once.
pub proof fn a_map_gives_back_what_was_put(
    h: HostV,
    entries: Seq<(Val, Val)>,
    order: Order,
    k: Val,
    v: Val,
)
    requires
        equal(h, k, k),
    ensures
        ({
            let e = after_put(h, entries, k, v);
            &&& map_called(h, e, order, "get"@, seq![k], None) == Ok::<
                (Seq<(Val, Val)>, AnswerV),
                FaultV,
            >((e, AnswerV::Value(v)))
            &&& map_called(h, e, order, "containsKey"@, seq![k], None) == Ok::<
                (Seq<(Val, Val)>, AnswerV),
                FaultV,
            >((e, AnswerV::Value(Val::Bool(true))))
            &&& e.len() == if key_place(h, entries, k) is Some {
                entries.len()
            } else {
                (entries.len() + 1) as nat
            }
        }),
{
    reveal_strlit("get");
    reveal_strlit("containsKey");
    reveal_strlit("containsValue");
    assert("get"@.len() == 3 && "containsKey"@.len() == 11 && "containsValue"@.len() == 13);
    let e = after_put(h, entries, k, v);
    let same = equal_to(h, k);
    lemma_first_in_range(keys_of(entries), same, 0);
    match key_place(h, entries, k) {
        Some(i) => {
            assert(keys_of(e) =~= keys_of(entries));
        },
        None => {
            let n = entries.len() as int;
            assert forall|j: int| 0 <= j < n implies !same(#[trigger] keys_of(e)[j]) by {
                assert(keys_of(e)[j] == keys_of(entries)[j]);
            }
            assert(keys_of(e)[n] == k);
            lemma_first_of(keys_of(e), same, 0, n);
        },
    }
}

/// Putting a value under one key leaves every key that stands elsewhere with what
/// it held.
pub proof fn other_keys_keep_their_values(
    h: HostV,
    entries: Seq<(Val, Val)>,
    k: Val,
    v: Val,
    other: Val,
)
    requires
        key_place(h, entries, other) is Some,
        key_place(h, entries, other) != key_place(h, entries, k),
    ensures
        key_place(h, after_put(h, entries, k, v), other) == key_place(h, entries, other),
        ({
            let i = key_place(h, entries, other)->0;
            after_put(h, entries, k, v)[i].1 == entries[i].1
        }),
{
    let e = after_put(h, entries, k, v);
    let same = equal_to(h, other);
    let i = key_place(h, entries, other)->0;
    lemma_first_in_range(keys_of(entries), same, 0);
    lemma_first_in_range(keys_of(entries), equal_to(h, k), 0);
    assert forall|j: int| 0 <= j <= i implies #[trigger] keys_of(e)[j] == keys_of(entries)[j] by {}
    lemma_first_of(keys_of(e), same, 0, i);
}

/// `put` and `remove` never make two keys equal.
pub proof fn keys_stay_different(h: HostV, entries: Seq<(Val, Val)>, k: Val, v: Val, at: int)
    requires
        keys_differ(h, entries),
    ensures
        keys_differ(h, after_put(h, entries, k, v)),
        0 <= at < entries.len() ==> keys_differ(h, entries.remove(at)),
{
    let e = after_put(h, entries, k, v);
    let same = equal_to(h, k);
    lemma_first_in_range(keys_of(entries), same, 0);
    assert forall|i: int, j: int| 0 <= i < j < e.len() implies !equal(
        h,
        #[trigger] e[i].0,
        #[trigger] e[j].0,
    ) by {
        if key_place(h, entries, k) is None && j == entries.len() {
            assert(!same(keys_of(entries)[i]));
            assert(e[i].0 == entries[i].0 && e[j].0 == k);
        } else {
            assert(e[i].0 == entries[i].0 && e[j].0 == entries[j].0);
        }
    }
    if 0 <= at < entries.len() {
        let r = entries.remove(at);
        assert forall|i: int, j: int| 0 <= i < j < r.len() implies !equal(
            h,
            #[trigger] r[i].0,
            #[trigger] r[j].0,
        ) by {
            let a = if i < at {
                i
            } else {
                i + 1
            };
            let b = if j < at {
                j
            } else {
                j + 1
            };
            assert(r[i] == entries[a] && r[j] == entries[b]);
        }
    }
}

/// Whether a key is an integer or a text.
pub open spec fn is_plain(k: Val) -> bool {
    k is Int || k is Str
}

/// Whether the keys are integers and texts, no two of them the same.
pub open spec fn plainly_keyed(entries: Seq<(Val, Val)>) -> bool {
    &&& forall|i: int| 0 <= i < entries.len() ==> is_plain(#[trigger] entries[i].0)
    &&& forall|i: int, j: int|
        0 <= i < j < entries.len() ==> #[trigger] entries[i].0 != #[trigger] entries[j].0
}

/// What a map with plain keys holds under a key; `null` where it holds nothing.
pub open spec fn held_under(entries: Seq<(Val, Val)>, k: Val) -> Val {
    if exists|i: int| 0 <= i < entries.len() && #[trigger] entries[i].0 == k {
        let i = choose|i: int| 0 <= i < entries.len() && #[trigger] entries[i].0 == k;
        entries[i].1
    } else {
        Val::Undef
    }
}

/// Integers and texts are equal where they are the same.
pub proof fn plain_keys_are_equal_where_the_same(h: HostV, a: Val, b: Val)
    requires
        is_plain(a),
        is_plain(b),
    ensures
        equal(h, a, b) <==> a == b,
{
}

proof fn lemma_plain_place(h: HostV, entries: Seq<(Val, Val)>, k: Val)
    requires
        plainly_keyed(entries),
        is_plain(k),
    ensures
        match key_place(h, entries, k) {
            Some(i) => 0 <= i < entries.len() && entries[i].0 == k && held_under(entries, k)
                == entries[i].1,
            None => held_under(entries, k) == Val::Undef && forall|i: int|
                0 <= i < entries.len() ==> #[trigger] entries[i].0 != k,
        },
{
    lemma_first_in_range(keys_of(entries), equal_to(h, k), 0);
    assert forall|i: int| 0 <= i < entries.len() implies equal_to(h, k)(
        #[trigger] keys_of(entries)[i],
    ) == (entries[i].0 == k) by {
        plain_keys_are_equal_where_the_same(h, entries[i].0, k);
    }
    match key_place(h, entries, k) {
        Some(i) => {
            let c = choose|c: int| 0 <= c < entries.len() && #[trigger] entries[c].0 == k;
            assert(equal_to(h, k)(keys_of(entries)[i]));
            assert(entries[i].0 == k);
            assert(entries[c].0 == k);
            assert(c == i);
        },
        None => {
            assert forall|i: int| 0 <= i < entries.len() implies #[trigger] entries[i].0 != k by {
                assert(!equal_to(h, k)(keys_of(entries)[i]));
            }
        },
    }
}

/// A map whose keys are integers and texts: `put` answers with what the key held,
/// `get` of the key gives the value from then on, every other key holds what it
/// held, the keys stay different, those that were there keep their places, and a
/// new one comes last.
pub proof fn a_map_is_what_was_put_into_it(
    h: HostV,
    entries: Seq<(Val, Val)>,
    order: Order,
    k: Val,
    v: Val,
    other: Val,
)
    requires
        plainly_keyed(entries),
        is_plain(k),
        is_plain(other),
        other != k,
    ensures
        ({
            let put = map_called(h, entries, order, "put"@, seq![k, v], None);
            let e = put->Ok_0.0;
            &&& put is Ok
            &&& put->Ok_0.1 == AnswerV::Value(held_under(entries, k))
            &&& plainly_keyed(e)
            &&& map_called(h, e, order, "get"@, seq![k], None) == Ok::<
                (Seq<(Val, Val)>, AnswerV),
                FaultV,
            >((e, AnswerV::Value(v)))
            &&& map_called(h, entries, order, "get"@, seq![other], None) == Ok::<
                (Seq<(Val, Val)>, AnswerV),
                FaultV,
            >((entries, AnswerV::Value(held_under(entries, other))))
            &&& map_called(h, e, order, "get"@, seq![other], None) == Ok::<
                (Seq<(Val, Val)>, AnswerV),
                FaultV,
            >((e, AnswerV::Value(held_under(entries, other))))
            &&& entries.len() <= e.len() <= entries.len() + 1
            &&& forall|i: int| 0 <= i < entries.len() ==> #[trigger] e[i].0 == entries[i].0
            &&& e.len() > entries.len() ==> e.last() == (k, v)
            &&& e.len() > entries.len() <==> forall|i: int|
                0 <= i < entries.len() ==> #[trigger] entries[i].0 != k
        }),
{
    reveal_strlit("get");
    reveal_strlit("containsValue");
    assert("get"@.len() == 3 && "containsValue"@.len() == 13);
    put_is_exact(h, entries, order, k, v);
    lemma_plain_place(h, entries, k);
    lemma_plain_place(h, entries, other);
    let e = after_put(h, entries, k, v);
    assert forall|i: int, j: int| 0 <= i < j < e.len() implies #[trigger] e[i].0
        != #[trigger] e[j].0 by {
        assert(e[i].0 == entries[i].0);
        if j < entries.len() {
            assert(e[j].0 == entries[j].0);
        }
    }
    plain_keys_are_equal_where_the_same(h, k, k);
    a_map_gives_back_what_was_put(h, entries, order, k, v);
    lemma_plain_place(h, e, other);
    match key_place(h, entries, other) {
        Some(i) => {
            assert(e[i].0 == other);
        },
        None => {
            if let Some(i) = key_place(h, e, other) {
                assert(e[i].0 == other);
                if i < entries.len() {
                    assert(e[i].0 == entries[i].0);
                }
            }
        },
    }
}

// ── Sets ────────────────────────────────────────────────────────────────────

/// What was added to a set is in it, and adding it again changes nothing.
pub proof fn adding_twice_is_adding_once(h: HostV, items: Seq<Val>, v: Val)
    requires
        equal(h, v, v),
    ensures
        ({
            let none: Seq<Option<Seq<Val>>> = seq![None];
            let once = set_called(h, items, Fixity::Mutable, "add"@, seq![v], none, None);
            &&& once is Ok
            &&& set_called(h, set_left(once), Fixity::Mutable, "add"@, seq![v], none, None) == Ok::<
                (Seq<Val>, Val),
                FaultV,
            >((set_left(once), Val::Bool(false)))
            &&& set_called(h, set_left(once), Fixity::Mutable, "contains"@, seq![v], none, None)
                == Ok::<(Seq<Val>, Val), FaultV>((set_left(once), Val::Bool(true)))
        }),
{
    lemma_names();
    let none: Seq<Option<Seq<Val>>> = seq![None];
    let once = set_called(h, items, Fixity::Mutable, "add"@, seq![v], none, None);
    let left = set_left(once);
    let same = equal_to(h, v);
    lemma_first_in_range(items, same, 0);
    if first_at(items, same, 0) is None {
        let n = items.len() as int;
        assert forall|j: int| 0 <= j < n implies !same(#[trigger] left[j]) by {
            assert(left[j] == items[j]);
        }
        assert(left[n] == v);
        lemma_first_of(left, same, 0, n);
    }
}

/// What a call leaves of the elements.
pub open spec fn set_left(r: Result<(Seq<Val>, Val), FaultV>) -> Seq<Val> {
    match r {
        Ok((s, _)) => s,
        Err(_) => seq![],
    }
}

// ── Lists ───────────────────────────────────────────────────────────────────

/// A list gives back what was set, and holds it at no other place.
pub proof fn a_list_gives_back_what_was_set(
    h: HostV,
    items: Seq<Val>,
    i: Val,
    v: Val,
    other: Val,
)
    requires
        0 <= jint_of(h, i) < items.len(),
        0 <= jint_of(h, other) < items.len(),
    ensures
        ({
            let two: Seq<Option<Seq<Val>>> = seq![None, None];
            let one: Seq<Option<Seq<Val>>> = seq![None];
            let set = list_called(h, items, Fixity::FixedSize, "set"@, seq![i, v], two, None);
            &&& set == Ok::<(Seq<Val>, Val), FaultV>(
                (items.update(jint_of(h, i), v), items[jint_of(h, i)]),
            )
            &&& list_called(
                h,
                set_left(set),
                Fixity::FixedSize,
                "get"@,
                seq![other],
                one,
                None,
            ) == Ok::<(Seq<Val>, Val), FaultV>(
                (
                    set_left(set),
                    if jint_of(h, other) == jint_of(h, i) {
                        v
                    } else {
                        items[jint_of(h, other)]
                    },
                ),
            )
        }),
{
    lemma_names();
}

/// What was added to a list is its last element, and the list is longer by one.
pub proof fn a_list_grows_at_its_end(h: HostV, items: Seq<Val>, v: Val)
    ensures
        ({
            let one: Seq<Option<Seq<Val>>> = seq![None];
            let added = list_called(h, items, Fixity::Mutable, "add"@, seq![v], one, None);
            &&& added == Ok::<(Seq<Val>, Val), FaultV>((items.push(v), Val::Bool(true)))
            &&& items.push(v).last() == v
            &&& items.push(v).len() == items.len() + 1
        }),
{
    lemma_names();
}

/// Whatever method is called on the elements of an immutable list, they stay.
pub proof fn immutable_elements_stay(
    h: HostV,
    items: Seq<Val>,
    method: Seq<char>,
    args: Seq<Val>,
    seqs: Seq<Option<Seq<Val>>>,
    plan: Option<EqPlanV>,
)
    ensures
        list_called(h, items, Fixity::Immutable, method, args, seqs, plan) matches Ok((s, _))
            ==> s == items && method != "clear"@,
{
    lemma_clear();
}

/// No other method of a list is called `clear`.
proof fn lemma_clear()
    ensures
        "clear"@ != "size"@,
        "clear"@ != "isEmpty"@,
        "clear"@ != "get"@,
        "clear"@ != "contains"@,
        "clear"@ != "indexOf"@,
        "clear"@ != "lastIndexOf"@,
        "clear"@ != "equals"@,
        "clear"@ != "set"@,
        "clear"@ != "add"@,
        "clear"@ != "remove"@,
        "clear"@ != "removeObject"@,
        "clear"@ != "addAll"@,
{
    reveal_strlit("clear");
    reveal_strlit("size");
    reveal_strlit("isEmpty");
    reveal_strlit("get");
    reveal_strlit("contains");
    reveal_strlit("indexOf");
    reveal_strlit("lastIndexOf");
    reveal_strlit("equals");
    reveal_strlit("set");
    reveal_strlit("add");
    reveal_strlit("remove");
    reveal_strlit("removeObject");
    reveal_strlit("addAll");
    assert("clear"@.len() == 5);
}

/// A list of fixed size keeps its length, whatever is called on it.
pub proof fn fixed_lists_keep_their_length(
    h: HostV,
    items: Seq<Val>,
    method: Seq<char>,
    args: Seq<Val>,
    seqs: Seq<Option<Seq<Val>>>,
    plan: Option<EqPlanV>,
)
    ensures
        list_called(h, items, Fixity::FixedSize, method, args, seqs, plan) matches Ok((s, _))
            ==> s.len() == items.len(),
{
}

/// An immutable set stays as it is, whatever is called on it.
pub proof fn immutable_sets_do_not_change(
    h: HostV,
    items: Seq<Val>,
    method: Seq<char>,
    args: Seq<Val>,
    seqs: Seq<Option<Seq<Val>>>,
    plan: Option<EqPlanV>,
)
    ensures
        set_called(h, items, Fixity::Immutable, method, args, seqs, plan) matches Ok((s, _))
            ==> s == items,
{
}

// ── Views ───────────────────────────────────────────────────────────────────

/// Whether every view starts somewhere in its parent and has a length, as every
/// one on a heap does.
pub open spec fn measures_sound(h: HostV) -> bool {
    forall|k: int|
        0 <= k < h.heap.len() ==> (#[trigger] h.heap[k] matches ObjV::SubList { offset, len, .. }
            ==> offset >= 0 && len >= 0)
}

/// The views on a heap are measured in numbers that are not negative.
pub proof fn heaps_measure_soundly(host: Host)
    ensures
        measures_sound(host@),
{
    assert forall|k: int| 0 <= k < host@.heap.len() implies (#[trigger] host@.heap[k] matches
        ObjV::SubList { offset, len, .. } ==> offset >= 0 && len >= 0) by {
        assert(host@.heap[k] == host.heap@[k]@);
    }
}

/// The root of a view does not depend on what the list at the root holds.
proof fn lemma_root(h: HostV, root: int, obj: ObjV, id: int, offset: int, steps: nat)
    requires
        0 <= root < h.heap.len(),
        h.heap[root] is List,
        obj is List,
    ensures
        root_of(with_object(h, root, obj), id, offset, steps) == root_of(h, id, offset, steps),
    decreases steps,
{
    if steps > 0 {
        match object(h, id) {
            Some(ObjV::SubList { parent, offset: o, .. }) => {
                lemma_root(h, root, obj, parent as int, offset + o, (steps - 1) as nat);
            },
            _ => {},
        }
    }
}

/// A view of a list that is changed behind it is out of step: whatever is asked
/// of it is answered with the fault.
pub proof fn a_list_changed_behind_a_view(
    h: HostV,
    id: int,
    items: Seq<Val>,
    method: Seq<char>,
    args: Seq<Val>,
    seqs: Seq<Option<Seq<Val>>>,
    plan: Option<EqPlanV>,
)
    requires
        backing(h, id) is Ok,
    ensures
        ({
            let (root, _, _, _, fixed, mods) = backing(h, id)->Ok_0;
            let g = with_object(
                h,
                root,
                ObjV::List { items, fixed, mods: one_more(mods) },
            );
            &&& view_items(g, id) == Err::<Seq<Val>, FaultV>(comodified())
            &&& sublist_called(g, id, method, args, seqs, plan) == (
                g,
                Err::<Val, FaultV>(comodified()),
            )
        }),
{
    let (root, offset, len, old_items, fixed, mods) = backing(h, id)->Ok_0;
    let obj = ObjV::List { items, fixed, mods: one_more(mods) };
    lemma_root(h, root, obj, id, 0, (h.heap.len() + 1) as nat);
    assert(root != id);
}

/// A view writes through: what is set in it stands in the list behind it, at the
/// place where the view starts, and nothing else of the list changes. The view
/// stays in step.
pub proof fn a_view_writes_through(h: HostV, id: int, i: Val, v: Val)
    requires
        backing(h, id) matches Ok((_, _, len, _, fixed, _)) && 0 <= jint_of(h, i) < len && fixed
            != Fixity::Immutable,
        measures_sound(h),
    ensures
        ({
            let (root, offset, len, items, fixed, mods) = backing(h, id)->Ok_0;
            let two: Seq<Option<Seq<Val>>> = seq![None, None];
            let (g, r) = sublist_called(h, id, "set"@, seq![i, v], two, None);
            &&& r == Ok::<Val, FaultV>(items[offset + jint_of(h, i)])
            &&& object(g, root) == Some(
                ObjV::List { items: items.update(offset + jint_of(h, i), v), fixed, mods },
            )
            &&& view_items(g, id) == Ok::<Seq<Val>, FaultV>(
                items.subrange(offset, offset + len).update(jint_of(h, i), v),
            )
        }),
{
    lemma_names();
    lemma_clear();
    lemma_offset(h, id, 0, (h.heap.len() + 1) as nat);
    let (root, offset, len, items, fixed, mods) = backing(h, id)->Ok_0;
    assert(h.heap[id] is SubList);
    let at = jint_of(h, i);
    let two: Seq<Option<Seq<Val>>> = seq![None, None];
    let window = items.subrange(offset, offset + len);
    let written = window.update(at, v);
    assert(list_called(h, window, fixed, "set"@, seq![i, v], two, None) == Ok::<
        (Seq<Val>, Val),
        FaultV,
    >((written, window[at])));
    let all = spliced_items(items, offset, offset + len, written);
    assert(all =~= items.update(offset + at, v));
    let obj = ObjV::List { items: all, fixed, mods };
    lemma_root(h, root, obj, id, 0, (h.heap.len() + 1) as nat);
    assert(root != id);
    assert(all.subrange(offset, offset + len) =~= written);
}

/// Nothing changes an immutable list: no method called on it or through a view of
/// it, on another collection, no sorting, no reversing and no other static of the
/// collections.
pub proof fn immutable_lists_do_not_change(
    h: HostV,
    list: int,
    id: int,
    recv: Val,
    class: Seq<char>,
    method: Seq<char>,
    args: Seq<Val>,
    seqs: Seq<Option<Seq<Val>>>,
    plan: Option<EqPlanV>,
    items: Seq<Val>,
    structural: bool,
)
    requires
        object(h, list) matches Some(ObjV::List { fixed, .. }) && fixed == Fixity::Immutable,
        measures_sound(h),
    ensures
        object(coll_called(h, id, method, args, seqs, plan).0, list) == object(h, list),
        object(coll_begun(h, recv, method, args).0, list) == object(h, list),
        static_begun(h, class, method, args) matches Some((g, _)) ==> object(g, list) == object(
            h,
            list,
        ),
        overwritten(h, id, items, structural) matches Ok(g) ==> object(g, list) == object(h, list),
{
    lemma_overwriting(h, list, id, items, structural);
    if let Some(Val::Obj(k)) = if args.len() > 0 {
        Some(args[0])
    } else {
        None
    } {
        lemma_overwriting(h, list, k as int, held(elements(h, args[0])).reverse(), true);
    }
    match object(h, id) {
        Some(ObjV::SubList { .. }) => {
            lemma_offset(h, id, 0, (h.heap.len() + 1) as nat);
            if let Ok((root, offset, len, all, fixed, mods)) = backing(h, id) {
                let window = all.subrange(offset, offset + len);
                if let Ok((s, _)) = list_called(h, window, fixed, method, args, seqs, plan) {
                    let g = with_object(
                        h,
                        root,
                        ObjV::List {
                            items: spliced_items(all, offset, offset + len, s),
                            fixed,
                            mods: if counts_as_change(method, len, s.len() as int) {
                                one_more(mods)
                            } else {
                                mods
                            },
                        },
                    );
                    lemma_chain_spares_lists(
                        g,
                        list,
                        id,
                        s.len() - len,
                        one_more(mods),
                        (h.heap.len() + 1) as nat,
                    );
                    if root == list {
                        immutable_elements_stay(h, window, method, args, seqs, plan);
                        assert(spliced_items(all, offset, offset + len, window) =~= all);
                    }
                }
            }
        },
        Some(ObjV::List { items: all, .. }) => {
            immutable_elements_stay(h, all, method, args, seqs, plan);
        },
        _ => {},
    }
}

/// Overwriting spares an immutable list.
proof fn lemma_overwriting(h: HostV, list: int, id: int, items: Seq<Val>, structural: bool)
    requires
        object(h, list) matches Some(ObjV::List { fixed, .. }) && fixed == Fixity::Immutable,
    ensures
        overwritten(h, id, items, structural) matches Ok(g) ==> object(g, list) == object(h, list),
{
}

/// A change of length that is passed on reaches views only.
proof fn lemma_chain_spares_lists(
    h: HostV,
    list: int,
    id: int,
    delta: int,
    mods: u64,
    steps: nat,
)
    requires
        object(h, list) is Some,
        object(h, list)->0 is List,
    ensures
        object(resized_chain(h, id, delta, mods, steps), list) == object(h, list),
    decreases steps,
{
    if steps > 0 {
        if let Some(ObjV::SubList { parent, offset, len, .. }) = object(h, id) {
            let g = with_object(
                h,
                id,
                ObjV::SubList { parent, offset, len: shifted(len, delta), exp_mods: mods },
            );
            assert(id != list);
            assert(object(g, list) == object(h, list));
            lemma_chain_spares_lists(g, list, parent as int, delta, mods, (steps - 1) as nat);
        }
    }
}

/// A window starts inside its list.
proof fn lemma_offset(h: HostV, id: int, offset: int, steps: nat)
    requires
        offset >= 0,
        measures_sound(h),
    ensures
        root_of(h, id, offset, steps) matches Some((_, o)) ==> o >= 0,
    decreases steps,
{
    if steps > 0 {
        match object(h, id) {
            Some(ObjV::SubList { parent, offset: o, .. }) => {
                lemma_offset(h, parent as int, offset + o, (steps - 1) as nat);
            },
            _ => {},
        }
    }
}

} // verus!
