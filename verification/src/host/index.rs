//! An index from an element to its place, for calls that look up many of them.
//!
//! The index is never the authority: what it finds is confirmed by `equals`, and
//! what it has no key for is searched for from the start.
use std::collections::HashMap;

use vstd::prelude::*;

use crate::double::{double_to_long, exact_whole, is_exact_whole, to_long};
use crate::host::{Host, HostV};
use crate::host::boxes::{box_of, unbox, unboxed};
use crate::host::lists::{equal_to, first_at, lemma_first_in_range, same_place};
use crate::host::order::{
    depth_of, equal, nests, nests_below, plain_eq, string_hash, text_hash, value_eq,
};
use crate::text::same;
use crate::value::{Val, Value, int_double, round_to_double, vals};

verus! {

// ── Keys ────────────────────────────────────────────────────────────────────

/// What an element is filed under. Equal elements have the same key; the
/// converse need not hold.
pub enum IndexKey {
    Int(i64),
    Str(Seq<char>),
    Bool(bool),
    Obj(u32),
    Null,
}

/// The value inside a box, however deep; a value that is not boxed is itself.
pub open spec fn innermost(h: HostV, v: Val) -> Option<Val>
    decreases depth_of(v),
{
    match unbox(h, v) {
        Some(inner) => if nests_below(v, inner) {
            innermost(h, inner)
        } else {
            None
        },
        None => Some(v),
    }
}

/// The key of a value that is not boxed. A floating value has the key of the
/// integer it equals, where there is one below 2^53; beyond, several integers
/// round to one floating value, so it has none.
pub open spec fn plain_key(v: Val) -> Option<IndexKey> {
    match v {
        Val::Int(n) => Some(IndexKey::Int(n)),
        Val::Str(s) => Some(IndexKey::Str(s)),
        Val::Bool(b) => Some(IndexKey::Bool(b)),
        Val::Obj(id) => Some(IndexKey::Obj(id)),
        Val::Undef => Some(IndexKey::Null),
        Val::Float(d) => if exact_whole(d.bits) {
            Some(IndexKey::Int(to_long(d.bits) as i64))
        } else {
            None
        },
    }
}

/// The key of an element: a wrapper's is that of its primitive.
pub open spec fn key_of(h: HostV, v: Val) -> Option<IndexKey> {
    match innermost(h, v) {
        Some(inner) => plain_key(inner),
        None => None,
    }
}

/// The slot a key is kept in.
pub open spec fn slot_of(k: IndexKey) -> i64 {
    match k {
        IndexKey::Int(n) => n,
        IndexKey::Str(s) => text_hash(s) as i64,
        IndexKey::Bool(b) => if b {
            1
        } else {
            0
        },
        IndexKey::Obj(id) => id as i64,
        IndexKey::Null => 0,
    }
}

/// The slot of an element.
pub open spec fn element_slot(h: HostV, v: Val) -> Option<i64> {
    match key_of(h, v) {
        Some(k) => Some(slot_of(k)),
        None => None,
    }
}

/// Whether the `double` nearest to an integer, where it is a whole number below
/// 2^53, is that integer.
pub open spec fn rounds_exactly(n: i64) -> bool {
    exact_whole(int_double(n)) ==> to_long(int_double(n)) == n
}

/// Whether the integer an element comes down to, if it is one, rounds exactly.
pub open spec fn rounds(h: HostV, v: Val) -> bool {
    innermost(h, v) matches Some(Val::Int(n)) ==> rounds_exactly(n)
}

/// The slot an element is kept in, `None` where nothing shows that equal ones
/// would share it.
pub fn index_key(host: &Host, v: &Value) -> (r: Option<i64>)
    ensures
        r == element_slot(host@, v@),
        rounds(host@, v@),
    decreases depth_of(v@),
{
    if let Some(inner) = unboxed(host, v) {
        if nests(v, &inner) {
            return index_key(host, &inner);
        }
        return None;
    }
    match v {
        Value::Int(n) => {
            let _ = round_to_double(*n);
            Some(*n)
        },
        Value::Str(s) => Some(string_hash(s.as_str()) as i64),
        Value::Bool(b) => if *b {
            Some(1)
        } else {
            Some(0)
        },
        Value::Obj(id) => Some(*id as i64),
        Value::Undef => Some(0),
        Value::Float(d) => if is_exact_whole(d.bits) {
            Some(double_to_long(d.bits))
        } else {
            None
        },
    }
}

proof fn lemma_plain_keys(a: Val, b: Val)
    requires
        plain_eq(a, b),
        a matches Val::Int(n) ==> rounds_exactly(n),
        b matches Val::Int(n) ==> rounds_exactly(n),
        plain_key(a) is Some,
        plain_key(b) is Some,
    ensures
        plain_key(a) == plain_key(b),
{
}

proof fn lemma_innermost_equal(h: HostV, a: Val, b: Val)
    requires
        equal(h, a, b),
    ensures
        innermost(h, a) is Some,
        innermost(h, b) is Some,
        plain_eq(innermost(h, a)->0, innermost(h, b)->0),
    decreases depth_of(a) + depth_of(b),
{
    match (box_of(h, a), box_of(h, b)) {
        (None, None) => {},
        (Some(x), Some(y)) => {
            lemma_innermost_equal(h, x.1, y.1);
        },
        (Some(x), None) => {
            lemma_innermost_equal(h, x.1, b);
        },
        (None, Some(y)) => {
            lemma_innermost_equal(h, a, y.1);
        },
    }
}

/// Equal elements that have keys have the same key.
pub proof fn equal_elements_share_a_key(h: HostV, a: Val, b: Val)
    requires
        equal(h, a, b),
        rounds(h, a),
        rounds(h, b),
        key_of(h, a) is Some,
        key_of(h, b) is Some,
    ensures
        key_of(h, a) == key_of(h, b),
{
    lemma_innermost_equal(h, a, b);
    lemma_plain_keys(innermost(h, a)->0, innermost(h, b)->0);
}

// ── The index ───────────────────────────────────────────────────────────────

/// The places of elements by slot.
pub struct KeyIndex {
    by_slot: HashMap<i64, Vec<usize>>,
    /// How many elements have no slot. While there are any, the index says
    /// nothing.
    unindexed: usize,
}

/// Whether places ascend and lie below `n`.
pub open spec fn ascending_below(s: Seq<usize>, n: int) -> bool {
    &&& forall|i: int| 0 <= i < s.len() ==> (#[trigger] s[i]) < n
    &&& forall|i: int, j: int| 0 <= i < j < s.len() ==> s[i] < s[j]
}

/// One more element, in its slot or outside the index, makes the index of the
/// elements with it.
proof fn lemma_places_grow(before: KeyIndex, after: KeyIndex, h: HostV, v: Val, at: usize)
    requires
        rounds(h, v),
        match element_slot(h, v) {
            Some(slot) => after.places(slot) == before.places(slot).push(at) && (forall|s: i64|
                s != slot ==> #[trigger] after.places(s) == before.places(s)) && (
            before.complete() <==> after.complete()),
            None => !after.complete() && forall|s: i64| #[trigger]
                after.places(s) == before.places(s),
        },
    ensures
        forall|items: Seq<Val>| #[trigger]
            before.describes(h, items) && items.len() == at ==> after.describes(h, items.push(v)),
{
    assert forall|items: Seq<Val>| #[trigger]
        before.describes(h, items) && items.len() == at implies after.describes(
        h,
        items.push(v),
    ) by {
        let all = items.push(v);
        assert forall|i: int|
            #![trigger all[i]]
            0 <= i < all.len() implies rounds(h, all[i]) && match element_slot(h, all[i]) {
            Some(slot) => after.places(slot).contains(i as usize),
            None => !after.complete(),
        } by {
            if i < at {
                assert(all[i] == items[i]);
                if let Some(slot) = element_slot(h, items[i]) {
                    let old_places = before.places(slot);
                    let j = old_places.index_of(i as usize);
                    assert(old_places[j] == i);
                    assert(after.places(slot)[j] == i);
                }
            } else if let Some(slot) = element_slot(h, v) {
                assert(after.places(slot).last() == at);
            }
        }
        assert forall|s: i64| ascending_below(#[trigger] after.places(s), all.len() as int) by {
            assert(ascending_below(before.places(s), items.len() as int));
        }
    }
}

impl KeyIndex {
    /// The places kept in a slot, in ascending order.
    pub closed spec fn places(&self, slot: i64) -> Seq<usize> {
        if self.by_slot@.contains_key(slot) {
            self.by_slot@[slot]@
        } else {
            seq![]
        }
    }

    /// Whether every element has a slot.
    pub closed spec fn complete(&self) -> bool {
        self.unindexed == 0
    }

    /// Whether the index is that of `items`.
    pub open spec fn describes(&self, h: HostV, items: Seq<Val>) -> bool {
        &&& forall|i: int|
            #![trigger items[i]]
            0 <= i < items.len() ==> rounds(h, items[i]) && match element_slot(h, items[i]) {
                Some(slot) => self.places(slot).contains(i as usize),
                None => !self.complete(),
            }
        &&& forall|slot: i64| ascending_below(#[trigger] self.places(slot), items.len() as int)
    }

    /// The index of no elements.
    pub fn new() -> (r: KeyIndex)
        ensures
            r.complete(),
            forall|h: HostV| #[trigger] r.describes(h, seq![]),
    {
        broadcast use vstd::std_specs::hash::group_hash_axioms;

        KeyIndex { by_slot: HashMap::new(), unindexed: 0 }
    }

    /// Record an element at the place after the last one.
    pub fn push(&mut self, host: &Host, v: &Value, at: usize)
        ensures
            forall|items: Seq<Val>| #[trigger]
                old(self).describes(host@, items) && items.len() == at ==> final(self).describes(
                    host@,
                    items.push(v@),
                ),
            final(self).complete() == (old(self).complete() && element_slot(host@, v@) is Some),
    {
        broadcast use vstd::std_specs::hash::group_hash_axioms;

        match index_key(host, v) {
            Some(slot) => {
                let mut places: Vec<usize> = match self.by_slot.remove(&slot) {
                    Some(p) => p,
                    None => Vec::new(),
                };
                assert(places@ =~= old(self).places(slot));
                places.push(at);
                let _ = self.by_slot.insert(slot, places);
                assert(self.places(slot) == old(self).places(slot).push(at));
                assert(forall|s: i64| s != slot ==> #[trigger] self.places(s) == old(self).places(s));
                proof {
                    lemma_places_grow(*old(self), *self, host@, v@, at);
                }
            },
            None => {
                if self.unindexed < usize::MAX {
                    self.unindexed += 1;
                }
                assert(forall|s: i64| #[trigger] self.places(s) == old(self).places(s));
                proof {
                    lemma_places_grow(*old(self), *self, host@, v@, at);
                }
            },
        }
    }

    /// Index `items` afresh.
    pub fn rebuild(&mut self, host: &Host, items: &Vec<Value>)
        ensures
            final(self).describes(host@, vals(items@)),
    {
        *self = KeyIndex::new();
        let mut i: usize = 0;
        assert(vals(items@).take(0) =~= seq![]);
        while i < items.len()
            invariant
                i <= items.len(),
                self.describes(host@, vals(items@).take(i as int)),
            decreases items.len() - i,
        {
            assert(vals(items@).take(i + 1) =~= vals(items@).take(i as int).push(items@[i as int]@));
            self.push(host, &items[i], i);
            i += 1;
        }
        assert(vals(items@).take(i as int) =~= vals(items@));
    }

    /// The place of the first element equal to `q`. `None` when the index cannot
    /// say; `Some(None)` when there is no such element.
    pub fn find(&self, host: &Host, items: &Vec<Value>, q: &Value) -> (r: Option<Option<usize>>)
        requires
            self.describes(host@, vals(items@)),
        ensures
            r is Some <==> self.complete() && element_slot(host@, q@) is Some,
            r matches Some(at) ==> same_place(at, first_at(vals(items@), equal_to(host@, q@), 0)),
    {
        broadcast use vstd::std_specs::hash::group_hash_axioms;

        let slot: i64 = match index_key(host, q) {
            Some(s) => s,
            None => {
                return None;
            },
        };
        if self.unindexed > 0 {
            return None;
        }
        let ghost all = vals(items@);
        let ghost same = equal_to(host@, q@);
        assert(all.len() == items.len());
        proof {
            lemma_first_in_range(all, same, 0);
            assert forall|i: int| 0 <= i < all.len() && same(#[trigger] all[i]) implies self.places(
                slot,
            ).contains(i as usize) by {
                equal_elements_share_a_key(host@, all[i], q@);
            }
        }
        match self.by_slot.get(&slot) {
            None => {
                assert(self.places(slot) =~= seq![]);
                Some(None)
            },
            Some(places) => {
                let ghost held = self.places(slot);
                let mut k: usize = 0;
                while k < places.len()
                    invariant
                        k <= places.len(),
                        self.complete(),
                        element_slot(host@, q@) is Some,
                        all.len() == items.len(),
                        held == places@,
                        held == self.places(slot),
                        all == vals(items@),
                        same == equal_to(host@, q@),
                        ascending_below(held, all.len() as int),
                        forall|i: int|
                            0 <= i < all.len() && same(#[trigger] all[i]) ==> held.contains(
                                i as usize,
                            ),
                        forall|j: int| 0 <= j < k ==> !same(all[(#[trigger] held[j]) as int]),
                    decreases places.len() - k,
                {
                    let at: usize = places[k];
                    assert(all[at as int] == items@[at as int]@);
                    if value_eq(host, &items[at], q) {
                        proof {
                            lemma_first_in_range(all, same, 0);
                            let first = first_at(all, same, 0)->0;
                            assert(held.contains(first as usize));
                            let j = held.index_of(first as usize);
                            assert(held[j] == first);
                        }
                        return Some(Some(at));
                    }
                    k += 1;
                }
                proof {
                    lemma_first_in_range(all, same, 0);
                    if let Some(first) = first_at(all, same, 0) {
                        let j = held.index_of(first as usize);
                        assert(held[j] == first);
                    }
                }
                Some(None)
            },
        }
    }
}

} // verus!
