//! Equality, hashing and ordering of values, and the order a collection
//! presents its elements in.
use vstd::prelude::*;

use crate::double::{
    canonical, canonical_bits, float_compare, numeric_eq, numerically_equal, rank, sign_of,
};
use crate::host::{Host, HostV, Order};
use crate::host::boxes::{bare, box_class, box_of, deboxed, jfloat, unbox, unboxed};
use crate::text::{chars_of, code_of, same};
use crate::value::{Val, Value, double_of, int_double, to_double, vals};

verus! {

// ── Hash codes ──────────────────────────────────────────────────────────────

/// `String.hashCode`: `s[0]*31^(n-1) + … + s[n-1]`, wrapping at 32 bits.
pub open spec fn text_hash(s: Seq<char>) -> i32
    decreases s.len(),
{
    if s.len() == 0 {
        0
    } else {
        text_hash(s.drop_last()).wrapping_mul(31).wrapping_add((s.last() as int) as i32)
    }
}

/// `String.hashCode`.
pub fn string_hash(s: &str) -> (r: i32)
    ensures
        r == text_hash(s@),
{
    let c: Vec<char> = chars_of(s);
    let mut h: i32 = 0;
    let mut i: usize = 0;
    while i < c.len()
        invariant
            i <= c.len(),
            h == text_hash(c@.take(i as int)),
        decreases c.len() - i,
    {
        proof {
            let t = c@.take(i + 1);
            assert(t.drop_last() =~= c@.take(i as int));
            assert(t.last() == c@[i as int]);
        }
        h = h.wrapping_mul(31).wrapping_add(code_of(c[i]) as i32);
        i += 1;
    }
    assert(c@.take(c.len() as int) =~= c@);
    h
}

/// `Long.hashCode` of a bit pattern: its two halves folded together.
pub open spec fn folded(bits: u64) -> i32 {
    (((bits / 0x1_0000_0000) as u32) ^ ((bits % 0x1_0000_0000) as u32)) as i32
}

pub(crate) fn fold_halves(bits: u64) -> (r: i32)
    ensures
        r == folded(bits),
{
    let hi: u32 = (bits / 0x1_0000_0000) as u32;
    let lo: u32 = (bits % 0x1_0000_0000) as u32;
    (hi ^ lo) as i32
}

/// The hash of a value that is not boxed. A heap object has none: its own would
/// be an identity hash.
pub open spec fn plain_hash(v: Val) -> Option<i32> {
    match v {
        Val::Str(s) => Some(text_hash(s)),
        Val::Int(n) => if i32::MIN <= n <= i32::MAX {
            Some(n as i32)
        } else {
            Some(folded(n as u64))
        },
        Val::Float(d) => Some(folded(canonical(d.bits))),
        Val::Bool(b) => if b {
            Some(1231)
        } else {
            Some(1237)
        },
        _ => None,
    }
}

/// Whether a box holds something other than itself or a later object, as every
/// box does.
pub open spec fn nests_below(outer: Val, inner: Val) -> bool {
    match (outer, inner) {
        (Val::Obj(a), Val::Obj(b)) => b < a,
        _ => true,
    }
}

/// How deep boxes can nest below a value.
pub open spec fn depth_of(v: Val) -> int {
    match v {
        Val::Obj(id) => id as int + 1,
        _ => 0,
    }
}

/// `hashCode()`: a wrapper hashes as its primitive.
pub open spec fn hash_of(h: HostV, v: Val) -> Option<i32>
    decreases depth_of(v),
{
    match unbox(h, v) {
        Some(inner) => if nests_below(v, inner) {
            hash_of(h, inner)
        } else {
            None
        },
        None => plain_hash(v),
    }
}

pub(crate) fn nests(outer: &Value, inner: &Value) -> (r: bool)
    ensures
        r == nests_below(outer@, inner@),
{
    match (outer, inner) {
        (Value::Obj(a), Value::Obj(b)) => *b < *a,
        _ => true,
    }
}

/// `hashCode()`, `None` for a heap object.
pub fn java_hash(host: &Host, v: &Value) -> (r: Option<i32>)
    ensures
        r == hash_of(host@, v@),
    decreases depth_of(v@),
{
    if let Some(inner) = unboxed(host, v) {
        if nests(v, &inner) {
            return java_hash(host, &inner);
        }
        return None;
    }
    match v {
        Value::Str(s) => Some(string_hash(s.as_str())),
        Value::Int(n) => if *n >= -0x8000_0000 && *n <= 0x7fff_ffff {
            Some(*n as i32)
        } else {
            Some(fold_halves(*n as u64))
        },
        Value::Float(d) => Some(fold_halves(canonical_bits(d.bits))),
        Value::Bool(b) => if *b {
            Some(1231)
        } else {
            Some(1237)
        },
        _ => None,
    }
}

// ── Equality ────────────────────────────────────────────────────────────────

/// `equals` of two values that are not boxed: texts, numbers and booleans by
/// value, heap objects by identity. Two floating values are equal when their
/// canonical bits are, an integer and a floating value numerically.
pub open spec fn plain_eq(a: Val, b: Val) -> bool {
    match (a, b) {
        (Val::Str(x), Val::Str(y)) => x == y,
        (Val::Obj(x), Val::Obj(y)) => x == y,
        (Val::Undef, Val::Undef) => true,
        (Val::Bool(x), Val::Bool(y)) => x == y,
        (Val::Int(x), Val::Int(y)) => x == y,
        (Val::Float(x), Val::Float(y)) => canonical(x.bits) == canonical(y.bits),
        (Val::Int(x), Val::Float(y)) => numerically_equal(int_double(x), y.bits),
        (Val::Float(x), Val::Int(y)) => numerically_equal(x.bits, int_double(y)),
        _ => false,
    }
}

/// `equals`: two wrappers of different classes are unequal, and otherwise a
/// wrapper compares as its primitive.
pub open spec fn equal(h: HostV, a: Val, b: Val) -> bool
    decreases depth_of(a) + depth_of(b),
{
    match (box_of(h, a), box_of(h, b)) {
        (None, None) => plain_eq(a, b),
        (Some(x), Some(y)) => if x.0 != y.0 || !nests_below(a, x.1) || !nests_below(b, y.1) {
            false
        } else {
            equal(h, x.1, y.1)
        },
        (Some(x), None) => nests_below(a, x.1) && equal(h, x.1, b),
        (None, Some(y)) => nests_below(b, y.1) && equal(h, a, y.1),
    }
}

fn bare_eq(a: &Value, b: &Value) -> (r: bool)
    ensures
        r == plain_eq(a@, b@),
{
    match (a, b) {
        (Value::Str(x), Value::Str(y)) => same(x.as_str(), y.as_str()),
        (Value::Obj(x), Value::Obj(y)) => *x == *y,
        (Value::Undef, Value::Undef) => true,
        (Value::Bool(x), Value::Bool(y)) => *x == *y,
        (Value::Int(x), Value::Int(y)) => *x == *y,
        (Value::Float(x), Value::Float(y)) => canonical_bits(x.bits) == canonical_bits(y.bits),
        (Value::Int(_), Value::Float(_)) => numeric_eq(to_double(a), to_double(b)),
        (Value::Float(_), Value::Int(_)) => numeric_eq(to_double(a), to_double(b)),
        _ => false,
    }
}

/// `equals` for the values the model names.
pub fn value_eq(host: &Host, a: &Value, b: &Value) -> (r: bool)
    ensures
        r == equal(host@, a@, b@),
    decreases depth_of(a@) + depth_of(b@),
{
    let x: Option<usize> = box_class(host, a);
    let y: Option<usize> = box_class(host, b);
    if x.is_none() && y.is_none() {
        return bare_eq(a, b);
    }
    if let (Some(c), Some(d)) = (x, y) {
        if c != d {
            return false;
        }
    }
    let p: Value = deboxed(host, a);
    let q: Value = deboxed(host, b);
    if (x.is_some() && !nests(a, &p)) || (y.is_some() && !nests(b, &q)) {
        return false;
    }
    value_eq(host, &p, &q)
}

/// `equals` is symmetric.
pub proof fn equality_is_symmetric(h: HostV, a: Val, b: Val)
    ensures
        equal(h, a, b) == equal(h, b, a),
    decreases depth_of(a) + depth_of(b),
{
    match (box_of(h, a), box_of(h, b)) {
        (None, None) => {},
        (Some(x), Some(y)) => {
            if nests_below(a, x.1) && nests_below(b, y.1) {
                equality_is_symmetric(h, x.1, y.1);
            }
        },
        (Some(x), None) => {
            if nests_below(a, x.1) {
                equality_is_symmetric(h, x.1, b);
            }
        },
        (None, Some(y)) => {
            if nests_below(b, y.1) {
                equality_is_symmetric(h, a, y.1);
            }
        },
    }
}

/// `equals` is reflexive, on `NaN` too, where no box holds itself.
pub proof fn equality_is_reflexive(h: HostV, a: Val)
    requires
        forall|i: int|
            0 <= i < h.boxes.len() ==> (#[trigger] h.boxes[i] matches Some(b) ==> nests_below(
                Val::Obj(i as u32),
                b.1,
            )),
    ensures
        equal(h, a, a),
    decreases depth_of(a),
{
    if let Some(b) = box_of(h, a) {
        if let Val::Obj(id) = a {
            assert(h.boxes[id as int] is Some);
        }
        equality_is_reflexive(h, b.1);
    }
}

/// Two equal numbers, texts or booleans that are not boxed have equal hashes,
/// unless one is an integer and the other floating.
pub proof fn equal_values_hash_alike(a: Val, b: Val)
    requires
        plain_eq(a, b),
        a is Int <==> b is Int,
    ensures
        plain_hash(a) == plain_hash(b),
{
}

// ── Natural order ───────────────────────────────────────────────────────────

/// The order of two texts by their characters: -1, 0 or 1.
pub open spec fn text_order(a: Seq<char>, b: Seq<char>, i: int) -> int
    decreases a.len() - i,
{
    if i >= a.len() && i >= b.len() {
        0
    } else if i >= a.len() {
        -1
    } else if i >= b.len() {
        1
    } else if a[i] != b[i] {
        sign_of(a[i] as int - b[i] as int)
    } else {
        text_order(a, b, i + 1)
    }
}

/// Ascending natural order, as `Comparable` has it: `null` first, texts by
/// their characters, numbers numerically, a floating one in the total order of
/// `Double.compare`. A wrapper stands where its primitive does. Values of
/// different kinds, and other objects, are equal.
pub open spec fn natural(h: HostV, a: Val, b: Val) -> int {
    match (bare(h, a), bare(h, b)) {
        (Val::Str(x), Val::Str(y)) => text_order(x, y, 0),
        (Val::Undef, Val::Undef) => 0,
        (Val::Undef, _) => -1,
        (_, Val::Undef) => 1,
        (Val::Int(x), Val::Int(y)) => sign_of(x - y),
        (Val::Bool(x), Val::Bool(y)) => if x == y {
            0
        } else if y {
            -1
        } else {
            1
        },
        (Val::Int(_) | Val::Float(_), Val::Int(_) | Val::Float(_)) => sign_of(
            rank(canonical(double_of(bare(h, a)))) - rank(canonical(double_of(bare(h, b)))),
        ),
        _ => 0,
    }
}

/// The order of two texts by their characters.
pub fn order_texts(a: &str, b: &str) -> (r: i64)
    ensures
        r == text_order(a@, b@, 0),
        -1 <= r <= 1,
{
    let x: Vec<char> = chars_of(a);
    let y: Vec<char> = chars_of(b);
    let mut i: usize = 0;
    while i < x.len() && i < y.len()
        invariant
            i <= x.len(),
            i <= y.len(),
            x@ == a@,
            y@ == b@,
            text_order(a@, b@, 0) == text_order(a@, b@, i as int),
        decreases x.len() - i,
    {
        let p: u32 = code_of(x[i]);
        let q: u32 = code_of(y[i]);
        if p < q {
            return -1;
        }
        if p > q {
            return 1;
        }
        i += 1;
    }
    if i < y.len() {
        -1
    } else if i < x.len() {
        1
    } else {
        0
    }
}

/// Ascending natural order: -1, 0 or 1.
pub fn natural_order(host: &Host, a: &Value, b: &Value) -> (r: i64)
    ensures
        r == natural(host@, a@, b@),
        -1 <= r <= 1,
{
    match (deboxed(host, a), deboxed(host, b)) {
        (Value::Str(x), Value::Str(y)) => order_texts(x.as_str(), y.as_str()),
        (Value::Undef, Value::Undef) => 0,
        (Value::Undef, _) => -1,
        (_, Value::Undef) => 1,
        (Value::Int(x), Value::Int(y)) => if x < y {
            -1
        } else if x > y {
            1
        } else {
            0
        },
        (Value::Bool(x), Value::Bool(y)) => if x == y {
            0
        } else if y {
            -1
        } else {
            1
        },
        (Value::Int(_) | Value::Float(_), Value::Int(_) | Value::Float(_)) => float_compare(
            jfloat(host, a),
            jfloat(host, b),
        ),
        _ => 0,
    }
}

// ── Presentation order ──────────────────────────────────────────────────────

/// `x` put into an ascending list, after everything it is not below.
pub open spec fn insert_sorted(s: Seq<int>, x: int, above: spec_fn(int, int) -> bool) -> Seq<int>
    decreases s.len(),
{
    if s.len() == 0 || !above(s.last(), x) {
        s.push(x)
    } else {
        insert_sorted(s.drop_last(), x, above).push(s.last())
    }
}

/// The positions `0..n` sorted stably, where `above` says which of two sorts
/// after the other.
pub open spec fn sorted_positions(n: int, above: spec_fn(int, int) -> bool) -> Seq<int>
    decreases n,
{
    if n <= 0 {
        seq![]
    } else {
        insert_sorted(sorted_positions(n - 1, above), n - 1, above)
    }
}

/// The size of a hash table for `n` entries: doubled from `cap` until at most
/// three quarters are in use.
pub open spec fn table_size(n: int, cap: int) -> int
    decreases 4 * n - cap,
{
    if cap <= 0 || n <= cap * 3 / 4 {
        cap
    } else {
        table_size(n, cap * 2)
    }
}

/// The bucket of a hash in a table of `cap` buckets, `cap` a power of two.
pub open spec fn bucket(hash: i32, cap: int) -> int {
    let x = hash as u32;
    ((x ^ (x / 65536)) as int) % cap
}

/// The bucket a value falls into among `n` entries; a value with no hash falls
/// into the first.
pub open spec fn bucket_of(h: HostV, v: Val, n: int) -> int {
    bucket(
        match hash_of(h, v) {
            Some(x) => x,
            None => 0,
        },
        table_size(n, 16),
    )
}

/// The order a collection presents `items` in, as positions.
pub open spec fn presented(h: HostV, items: Seq<Val>, order: Order) -> Seq<int> {
    match order {
        Order::Insertion => Seq::new(items.len(), |i: int| i),
        Order::Hash => sorted_positions(
            items.len() as int,
            |i: int, j: int|
                bucket_of(h, items[i], items.len() as int) > bucket_of(
                    h,
                    items[j],
                    items.len() as int,
                ),
        ),
        Order::Sorted => sorted_positions(
            items.len() as int,
            |i: int, j: int| natural(h, items[i], items[j]) > 0,
        ),
    }
}

/// Positions as integers.
pub open spec fn ints(s: Seq<usize>) -> Seq<int> {
    Seq::new(s.len(), |i: int| s[i] as int)
}

proof fn lemma_insert_members(s: Seq<int>, x: int, above: spec_fn(int, int) -> bool)
    ensures
        insert_sorted(s, x, above).len() == s.len() + 1,
        forall|k: int|
            0 <= k < insert_sorted(s, x, above).len() ==> (#[trigger] insert_sorted(
                s,
                x,
                above,
            )[k] == x || s.contains(insert_sorted(s, x, above)[k])),
        insert_sorted(s, x, above).contains(x),
        forall|k: int|
            0 <= k < s.len() ==> insert_sorted(s, x, above).contains(#[trigger] s[k]),
    decreases s.len(),
{
    let r = insert_sorted(s, x, above);
    if s.len() == 0 || !above(s.last(), x) {
        assert(r[s.len() as int] == x);
        assert forall|k: int| 0 <= k < r.len() implies (#[trigger] r[k] == x || s.contains(
            r[k],
        )) by {
            if k < s.len() {
                assert(s[k] == r[k]);
            }
        }
        assert forall|k: int| 0 <= k < s.len() implies r.contains(#[trigger] s[k]) by {
            assert(r[k] == s[k]);
        }
    } else {
        let t = s.drop_last();
        let q = insert_sorted(t, x, above);
        lemma_insert_members(t, x, above);
        assert(r =~= q.push(s.last()));
        assert forall|k: int| 0 <= k < r.len() implies (#[trigger] r[k] == x || s.contains(
            r[k],
        )) by {
            if k < q.len() {
                assert(r[k] == q[k]);
                if q[k] != x {
                    let m = choose|m: int| 0 <= m < t.len() && t[m] == q[k];
                    assert(s[m] == r[k]);
                }
            } else {
                assert(s[s.len() - 1] == r[k]);
            }
        }
        let m = choose|m: int| 0 <= m < q.len() && q[m] == x;
        assert(r[m] == x);
        assert forall|k: int| 0 <= k < s.len() implies r.contains(#[trigger] s[k]) by {
            if k < t.len() {
                assert(q.contains(t[k]));
                let m = choose|m: int| 0 <= m < q.len() && q[m] == t[k];
                assert(r[m] == s[k]);
            } else {
                assert(r[r.len() - 1] == s[k]);
            }
        }
    }
}

/// A sorted list of positions is a permutation of them: each position once.
pub proof fn lemma_positions(n: int, above: spec_fn(int, int) -> bool)
    requires
        n >= 0,
    ensures
        sorted_positions(n, above).len() == n,
        forall|k: int|
            0 <= k < n ==> 0 <= #[trigger] sorted_positions(n, above)[k] < n,
        forall|k: int| 0 <= k < n ==> #[trigger] sorted_positions(n, above).contains(k),
    decreases n,
{
    if n > 0 {
        let s = sorted_positions(n - 1, above);
        let r = sorted_positions(n, above);
        lemma_positions(n - 1, above);
        lemma_insert_members(s, n - 1, above);
        assert forall|k: int| 0 <= k < n implies 0 <= #[trigger] r[k] < n by {
            if r[k] != n - 1 {
                let m = choose|m: int| 0 <= m < s.len() && s[m] == r[k];
                assert(0 <= s[m] < n - 1);
            }
        }
        assert forall|k: int| 0 <= k < n implies #[trigger] r.contains(k) by {
            if k < n - 1 {
                assert(s.contains(k));
                let m = choose|m: int| 0 <= m < s.len() && s[m] == k;
                assert(r.contains(s[m]));
            }
        }
    }
}

/// What a collection presents is what it holds: each position once.
pub proof fn presenting_is_a_permutation(h: HostV, items: Seq<Val>, order: Order)
    ensures
        presented(h, items, order).len() == items.len(),
        forall|k: int|
            0 <= k < items.len() ==> 0 <= #[trigger] presented(h, items, order)[k] < items.len(),
        forall|k: int|
            0 <= k < items.len() ==> #[trigger] presented(h, items, order).contains(k),
{
    let n = items.len() as int;
    match order {
        Order::Insertion => {
            let p = presented(h, items, order);
            assert forall|k: int| 0 <= k < items.len() implies #[trigger] p.contains(k) by {
                assert(p[k] == k);
            }
        },
        Order::Hash => {
            lemma_positions(
                n,
                |i: int, j: int| bucket_of(h, items[i], n) > bucket_of(h, items[j], n),
            );
        },
        Order::Sorted => {
            lemma_positions(n, |i: int, j: int| natural(h, items[i], items[j]) > 0);
        },
    }
}

proof fn lemma_insert_ordered(s: Seq<int>, x: int, key: spec_fn(int) -> int)
    requires
        forall|i: int, j: int|
            0 <= i < j < s.len() ==> key(#[trigger] s[i]) < key(#[trigger] s[j]) || (key(s[i])
                == key(s[j]) && s[i] < s[j]),
        forall|i: int| 0 <= i < s.len() ==> #[trigger] s[i] < x,
    ensures
        ({
            let r = insert_sorted(s, x, |i: int, j: int| key(i) > key(j));
            forall|i: int, j: int|
                0 <= i < j < r.len() ==> key(#[trigger] r[i]) < key(#[trigger] r[j]) || (key(r[i])
                    == key(r[j]) && r[i] < r[j])
        }),
    decreases s.len(),
{
    let above = |i: int, j: int| key(i) > key(j);
    let r = insert_sorted(s, x, above);
    if s.len() == 0 || !above(s.last(), x) {
        assert(r =~= s.push(x));
        assert forall|i: int, j: int| 0 <= i < j < r.len() implies key(#[trigger] r[i]) < key(
            #[trigger] r[j],
        ) || (key(r[i]) == key(r[j]) && r[i] < r[j]) by {
            if j == s.len() {
                assert(s[i] == r[i]);
                let l = s[s.len() - 1];
                if i < s.len() - 1 {
                    assert(key(s[i]) <= key(l));
                }
            } else {
                assert(s[i] == r[i] && s[j] == r[j]);
            }
        }
    } else {
        let t = s.drop_last();
        let q = insert_sorted(t, x, above);
        assert forall|i: int, j: int| 0 <= i < j < t.len() implies key(#[trigger] t[i]) < key(
            #[trigger] t[j],
        ) || (key(t[i]) == key(t[j]) && t[i] < t[j]) by {
            assert(t[i] == s[i] && t[j] == s[j]);
        }
        assert forall|i: int| 0 <= i < t.len() implies #[trigger] t[i] < x by {
            assert(t[i] == s[i]);
        }
        lemma_insert_ordered(t, x, key);
        lemma_insert_members(t, x, above);
        assert(r =~= q.push(s.last()));
        assert forall|i: int, j: int| 0 <= i < j < r.len() implies key(#[trigger] r[i]) < key(
            #[trigger] r[j],
        ) || (key(r[i]) == key(r[j]) && r[i] < r[j]) by {
            if j == q.len() {
                assert(q[i] == r[i]);
                if q[i] != x {
                    let m = choose|m: int| 0 <= m < t.len() && t[m] == q[i];
                    assert(s[m] == q[i]);
                }
            } else {
                assert(q[i] == r[i] && q[j] == r[j]);
            }
        }
    }
}

/// Sorting positions by a key puts them in ascending order of it, and leaves
/// positions with equal keys in their own order.
pub proof fn sorting_by_a_key_is_stable(n: int, key: spec_fn(int) -> int)
    requires
        n >= 0,
    ensures
        ({
            let r = sorted_positions(n, |i: int, j: int| key(i) > key(j));
            forall|i: int, j: int|
                0 <= i < j < r.len() ==> key(#[trigger] r[i]) < key(#[trigger] r[j]) || (key(r[i])
                    == key(r[j]) && r[i] < r[j])
        }),
    decreases n,
{
    if n > 0 {
        let above = |i: int, j: int| key(i) > key(j);
        sorting_by_a_key_is_stable(n - 1, key);
        lemma_positions(n - 1, above);
        lemma_insert_ordered(sorted_positions(n - 1, above), n - 1, key);
    }
}

/// A hash collection iterates bucket by bucket, and in insertion order within
/// each bucket.
pub proof fn hash_order_is_bucket_order(h: HostV, items: Seq<Val>)
    ensures
        ({
            let r = presented(h, items, Order::Hash);
            let n = items.len() as int;
            forall|i: int, j: int|
                0 <= i < j < r.len() ==> bucket_of(h, items[#[trigger] r[i]], n) < bucket_of(
                    h,
                    items[#[trigger] r[j]],
                    n,
                ) || (bucket_of(h, items[r[i]], n) == bucket_of(h, items[r[j]], n) && r[i]
                    < r[j])
        }),
{
    let n = items.len() as int;
    let key = |i: int| bucket_of(h, items[i], n);
    sorting_by_a_key_is_stable(n, key);
    assert((|i: int, j: int| key(i) > key(j)) =~= (|i: int, j: int|
        bucket_of(h, items[i], n) > bucket_of(h, items[j], n)));
}

/// The bucket numbers of `items`.
fn buckets(host: &Host, items: &Vec<Value>) -> (r: Vec<u64>)
    ensures
        r.len() == items.len(),
        forall|i: int|
            0 <= i < r.len() ==> #[trigger] r@[i] == bucket_of(
                host@,
                items@[i]@,
                items.len() as int,
            ),
{
    let n: usize = items.len();
    let mut cap: u128 = 16;
    while n as u128 > cap * 3 / 4
        invariant
            cap == 16 || 16 <= cap && 3 * cap < 8 * n,
            n == items.len(),
            n <= 0xffff_ffff_ffff_ffff,
            table_size(n as int, 16) == table_size(n as int, cap as int),
        decreases 4 * n - cap,
    {
        cap = cap * 2;
    }
    let mut r: Vec<u64> = Vec::new();
    let mut i: usize = 0;
    while i < n
        invariant
            i <= n,
            n == items.len(),
            cap == table_size(n as int, 16),
            cap >= 16,
            r.len() == i,
            forall|k: int|
                0 <= k < i ==> #[trigger] r@[k] == bucket_of(
                    host@,
                    items@[k]@,
                    items.len() as int,
                ),
        decreases n - i,
    {
        let hash: i32 = match java_hash(host, &items[i]) {
            Some(x) => x,
            None => 0,
        };
        let x: u32 = hash as u32;
        let mixed: u32 = x ^ (x / 65536);
        proof {
            assert(0 <= mixed as int % cap as int <= mixed) by (nonlinear_arith)
                requires
                    cap >= 16,
                    mixed >= 0,
            ;
        }
        r.push((mixed as u128 % cap) as u64);
        i += 1;
    }
    r
}

/// Whether the element at `a` is presented after the one at `b`.
fn sorts_after(
    host: &Host,
    items: &Vec<Value>,
    keys: &Vec<u64>,
    order: Order,
    a: usize,
    b: usize,
) -> (r: bool)
    requires
        a < items.len(),
        b < items.len(),
        order is Hash ==> keys.len() == items.len(),
    ensures
        r == (match order {
            Order::Insertion => false,
            Order::Hash => keys@[a as int] > keys@[b as int],
            Order::Sorted => natural(host@, items@[a as int]@, items@[b as int]@) > 0,
        }),
{
    match order {
        Order::Insertion => false,
        Order::Hash => keys[a] > keys[b],
        Order::Sorted => natural_order(host, &items[a], &items[b]) > 0,
    }
}

/// The order a collection presents `items` in, as positions.
pub fn present_order(host: &Host, items: &Vec<Value>, order: Order) -> (r: Vec<usize>)
    ensures
        ints(r@) == presented(host@, vals(items@), order),
        r.len() == items.len(),
        forall|k: int| 0 <= k < r.len() ==> (#[trigger] r@[k]) < items.len(),
{
    let n: usize = items.len();
    let ghost vs = vals(items@);
    let keys: Vec<u64> = match order {
        Order::Hash => buckets(host, items),
        _ => Vec::new(),
    };
    let ghost above: spec_fn(int, int) -> bool = match order {
        Order::Insertion => |i: int, j: int| false,
        Order::Hash => |i: int, j: int|
            bucket_of(host@, vs[i], vs.len() as int) > bucket_of(host@, vs[j], vs.len() as int),
        Order::Sorted => |i: int, j: int| natural(host@, vs[i], vs[j]) > 0,
    };
    let mut r: Vec<usize> = Vec::new();
    let mut i: usize = 0;
    while i < n
        invariant
            i <= n,
            n == items.len(),
            vs == vals(items@),
            order is Hash ==> keys.len() == n,
            order is Hash ==> forall|k: int|
                0 <= k < n ==> #[trigger] keys@[k] == bucket_of(host@, vs[k], n as int),
            order is Insertion ==> (forall|a: int, b: int| !(#[trigger] above(a, b))),
            order is Hash ==> (forall|a: int, b: int| #[trigger]
                above(a, b) == (bucket_of(host@, vs[a], n as int) > bucket_of(
                    host@,
                    vs[b],
                    n as int,
                ))),
            order is Sorted ==> (forall|a: int, b: int| #[trigger]
                above(a, b) == (natural(host@, vs[a], vs[b]) > 0)),
            ints(r@) == sorted_positions(i as int, above),
            r.len() == i,
            forall|k: int| 0 <= k < r.len() ==> (#[trigger] r@[k]) < i,
        decreases n - i,
    {
        // The place for `i`: after everything it does not sort below.
        let ghost before = r@;
        let mut at: usize = r.len();
        proof {
            assert(ints(before).take(at as int) =~= ints(before));
            assert(ints(before).skip(at as int) =~= seq![]);
        }
        while at > 0 && sorts_after(host, items, &keys, order, r[at - 1], i)
            invariant
                i < n,
                n == items.len(),
                vs == vals(items@),
                r@ == before,
                at <= r.len() == i,
                forall|k: int| 0 <= k < r.len() ==> (#[trigger] r@[k]) < i,
                order is Hash ==> keys.len() == n,
                order is Hash ==> forall|k: int|
                    0 <= k < n ==> #[trigger] keys@[k] == bucket_of(host@, vs[k], n as int),
                order is Insertion ==> (forall|a: int, b: int| !(#[trigger] above(a, b))),
                order is Hash ==> (forall|a: int, b: int| #[trigger]
                    above(a, b) == (bucket_of(host@, vs[a], n as int) > bucket_of(
                        host@,
                        vs[b],
                        n as int,
                    ))),
                order is Sorted ==> (forall|a: int, b: int| #[trigger]
                    above(a, b) == (natural(host@, vs[a], vs[b]) > 0)),
                insert_sorted(ints(before), i as int, above) =~= insert_sorted(
                    ints(before).take(at as int),
                    i as int,
                    above,
                ) + ints(before).skip(at as int),
            decreases at,
        {
            proof {
                let t = ints(before).take(at as int);
                assert(t.drop_last() =~= ints(before).take(at - 1));
                assert(t.last() == before[at - 1] as int);
                assert(above(t.last(), i as int));
                assert(ints(before).skip(at - 1) =~= seq![t.last()] + ints(before).skip(
                    at as int,
                ));
            }
            at -= 1;
        }
        proof {
            let t = ints(before).take(at as int);
            if at > 0 {
                assert(t.last() == before[at - 1] as int);
                assert(!above(t.last(), i as int));
            }
        }
        r.insert(at, i);
        proof {
            assert(ints(r@) =~= ints(before).take(at as int).push(i as int) + ints(before).skip(
                at as int,
            ));
        }
        i += 1;
    }
    proof {
        match order {
            Order::Insertion => {
                lemma_insertion_order(n as int, above);
                assert(ints(r@) =~= presented(host@, vs, order));
            },
            _ => {},
        }
    }
    r
}

proof fn lemma_insertion_order(n: int, above: spec_fn(int, int) -> bool)
    requires
        n >= 0,
        forall|a: int, b: int| !(#[trigger] above(a, b)),
    ensures
        sorted_positions(n, above) =~= Seq::new(n as nat, |i: int| i),
    decreases n,
{
    if n > 0 {
        lemma_insertion_order(n - 1, above);
        let s = sorted_positions(n - 1, above);
        if s.len() > 0 {
            assert(!above(s.last(), n - 1));
        }
    }
}

/// The values at these positions.
pub open spec fn picked(items: Seq<Val>, at: Seq<int>) -> Seq<Val> {
    Seq::new(at.len(), |i: int| items[at[i]])
}

/// The elements in the order a collection presents them.
pub open spec fn in_order(h: HostV, items: Seq<Val>, order: Order) -> Seq<Val> {
    picked(items, presented(h, items, order))
}

/// The elements in the order a collection presents them.
pub fn present_items(host: &Host, items: &Vec<Value>, order: Order) -> (r: Vec<Value>)
    ensures
        vals(r@) == in_order(host@, vals(items@), order),
{
    let at: Vec<usize> = present_order(host, items, order);
    let mut r: Vec<Value> = Vec::new();
    let mut i: usize = 0;
    while i < at.len()
        invariant
            i <= at.len(),
            forall|k: int| 0 <= k < at.len() ==> (#[trigger] at@[k]) < items.len(),
            ints(at@) == presented(host@, vals(items@), order),
            r.len() == i,
            forall|k: int|
                0 <= k < i ==> (#[trigger] r@[k])@ == vals(items@)[ints(at@)[k]],
        decreases at.len() - i,
    {
        r.push(items[at[i]].copy());
        i += 1;
    }
    assert(vals(r@) =~= in_order(host@, vals(items@), order));
    r
}

} // verus!
