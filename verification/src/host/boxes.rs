//! Boxed primitives: the wrapper objects, their cache, and unboxing.
//!
//! A wrapper is a heap handle, so `==` on two of them is identity; the payload
//! is in a table of its own. Small values share one handle, as the language
//! requires of `valueOf`.
use vstd::prelude::*;

use crate::double::{double_to_long, to_long};
use crate::host::{Host, HostObj, HostV, ObjV, box_views, heap_alloc, opt_val};
use crate::text::{chars_of, code_of, listed, same};
use crate::value::{
    Val, Value, decimal_or_zero, double_of, int_of, parse_or_zero, plain, plain_text, to_double,
    to_int,
};

verus! {

/// The wrapper classes, in the order of their codes. `Boolean` is not one: its
/// two values are always shared, so a box would not be observable.
pub open spec fn box_classes() -> Seq<Seq<char>> {
    seq![
        "Integer"@,
        "Long"@,
        "Short"@,
        "Byte"@,
        "Character"@,
        "Float"@,
        "Double"@,
    ]
}

/// The name of the wrapper class with this code.
pub fn box_class_name(code: usize) -> (r: &'static str)
    requires
        code < 7,
    ensures
        r@ == box_classes()[code as int],
{
    if code == 0 {
        "Integer"
    } else if code == 1 {
        "Long"
    } else if code == 2 {
        "Short"
    } else if code == 3 {
        "Byte"
    } else if code == 4 {
        "Character"
    } else if code == 5 {
        "Float"
    } else {
        "Double"
    }
}

/// The code of a wrapper class, `None` for a name that is not one.
pub fn box_class_code(name: &str) -> (r: Option<i64>)
    ensures
        r matches Some(c) ==> 0 <= c < 7 && box_classes()[c as int] == name@ && (forall|k: int|
            0 <= k < c ==> box_classes()[k] != name@),
        r is None ==> !listed(box_classes(), name@),
{
    let mut c: usize = 0;
    while c < 7
        invariant
            c <= 7,
            forall|k: int| 0 <= k < c ==> box_classes()[k] != name@,
        decreases 7 - c,
    {
        if same(box_class_name(c), name) {
            return Some(c as i64);
        }
        c += 1;
    }
    None
}

/// The value under which the cache shares a box, `None` when the class or the
/// value is outside it.
pub open spec fn cache_key(code: int, v: Val) -> Option<i64> {
    match v {
        Val::Int(n) => if 0 <= code < 4 && -128 <= n <= 127 {
            Some(n)
        } else if code == 4 && 0 <= n <= 127 {
            Some(n)
        } else {
            None
        },
        _ => None,
    }
}

/// The handle the cache holds for a class and value.
pub open spec fn cached(cache: Seq<(usize, i64, u32)>, code: int, key: i64) -> Option<u32>
    decreases cache.len(),
{
    if cache.len() == 0 {
        None
    } else if cache[0].0 == code && cache[0].1 == key {
        Some(cache[0].2)
    } else {
        cached(cache.skip(1), code, key)
    }
}

/// A table of boxes cut or filled out to `n` rows.
pub open spec fn resized(s: Seq<Option<(int, Val)>>, n: int) -> Seq<Option<(int, Val)>> {
    Seq::new(
        n as nat,
        |i: int|
            if i < s.len() {
                s[i]
            } else {
                None
            },
    )
}

/// The host with a new box on the heap.
pub open spec fn with_box(h: HostV, code: int, v: Val) -> HostV {
    let id = h.heap.len() as u32;
    HostV {
        heap: h.heap.push(ObjV::Boxed),
        boxes: resized(h.boxes, id + 1).update(id as int, Some((code, v))),
        ..h
    }
}

/// The host after boxing, and the handle: a shared one in the cached range, a
/// new one otherwise.
pub open spec fn boxing(h: HostV, code: int, v: Val) -> (HostV, Val) {
    let id = h.heap.len() as u32;
    match cache_key(code, v) {
        None => (with_box(h, code, v), Val::Obj(id)),
        Some(key) => match cached(h.box_cache, code, key) {
            Some(shared) => (h, Val::Obj(shared)),
            None => (
                HostV {
                    box_cache: h.box_cache.push((code as usize, key, id)),
                    ..with_box(h, code, v)
                },
                Val::Obj(id),
            ),
        },
    }
}

fn find_cached(cache: &Vec<(usize, i64, u32)>, code: usize, key: i64) -> (r: Option<u32>)
    ensures
        r == cached(cache@, code as int, key),
{
    let mut i: usize = 0;
    assert(cache@.skip(0) =~= cache@);
    while i < cache.len()
        invariant
            i <= cache.len(),
            cached(cache@, code as int, key) == cached(cache@.skip(i as int), code as int, key),
        decreases cache.len() - i,
    {
        let (c, k, id): (usize, i64, u32) = cache[i];
        assert(cache@.skip(i as int).skip(1) =~= cache@.skip(i + 1));
        assert(cache@.skip(i as int)[0] == cache@[i as int]);
        if c == code && k == key {
            return Some(id);
        }
        i += 1;
    }
    None
}

/// Put a box on the heap and record its payload.
pub fn alloc_box(host: &mut Host, code: usize, v: Value) -> (r: u32)
    ensures
        r == old(host)@.heap.len() as u32,
        final(host)@ == with_box(old(host)@, code as int, v@),
{
    let ghost before = host@;
    let ghost payload = v@;
    let id: u32 = heap_alloc(host, HostObj::Boxed);
    let ghost mid = host@;
    let at: usize = id as usize;
    if host.boxes.len() > at {
        host.boxes.truncate(at);
    }
    while host.boxes.len() < at
        invariant
            host.boxes.len() <= at,
            before.boxes.len() <= host.boxes.len() || host.boxes.len() == at,
            host@.heap == mid.heap,
            host@.box_cache == mid.box_cache,
            host@.supers == mid.supers,
            host@.binary == mid.binary,
            host@.pending == mid.pending,
            host@.exceptions == mid.exceptions,
            host@.argv == mid.argv,
            host@.ffi_error == mid.ffi_error,
            host@.boxes =~= resized(before.boxes, host.boxes.len() as int),
        decreases at - host.boxes.len(),
    {
        let ghost rows = host.boxes@;
        host.boxes.push(None);
        assert(box_views(host.boxes@) =~= box_views(rows).push(None));
    }
    let ghost rows = host.boxes@;
    host.boxes.push(Some((code, v)));
    proof {
        assert(box_views(host.boxes@) =~= box_views(rows).push(Some((code as int, payload))));
        assert(host@.boxes =~= with_box(before, code as int, payload).boxes);
    }
    id
}

/// Box `v` as the wrapper class with this code.
pub fn box_value(host: &mut Host, code: usize, v: Value) -> (r: Value)
    requires
        code < 7,
    ensures
        (final(host)@, r@) == boxing(old(host)@, code as int, v@),
{
    let key: Option<i64> = match &v {
        Value::Int(n) => if code < 4 && -128 <= *n && *n <= 127 {
            Some(*n)
        } else if code == 4 && 0 <= *n && *n <= 127 {
            Some(*n)
        } else {
            None
        },
        _ => None,
    };
    match key {
        None => Value::Obj(alloc_box(host, code, v)),
        Some(k) => {
            match find_cached(&host.box_cache, code, k) {
                Some(id) => Value::Obj(id),
                None => {
                    let id: u32 = alloc_box(host, code, v);
                    host.box_cache.push((code, k, id));
                    Value::Obj(id)
                },
            }
        },
    }
}

/// The wrapper class and primitive behind a handle.
pub open spec fn box_of(h: HostV, v: Val) -> Option<(int, Val)> {
    match v {
        Val::Obj(id) => if id < h.boxes.len() {
            h.boxes[id as int]
        } else {
            None
        },
        _ => None,
    }
}

/// The primitive inside a wrapper, `None` for anything else.
pub open spec fn unbox(h: HostV, v: Val) -> Option<Val> {
    match box_of(h, v) {
        Some(b) => Some(b.1),
        None => None,
    }
}

/// `v` with any box removed.
pub open spec fn bare(h: HostV, v: Val) -> Val {
    match box_of(h, v) {
        Some(b) => b.1,
        None => v,
    }
}

/// The primitive inside a wrapper, `None` for anything else.
pub fn unboxed(host: &Host, v: &Value) -> (r: Option<Value>)
    ensures
        opt_val(r) == unbox(host@, v@),
{
    match v {
        Value::Obj(id) => {
            let at: usize = *id as usize;
            if at < host.boxes.len() {
                assert(host@.boxes[at as int] == box_views(host.boxes@)[at as int]);
                match &host.boxes[at] {
                    Some(b) => Some(b.1.copy()),
                    None => None,
                }
            } else {
                None
            }
        },
        _ => None,
    }
}

/// The code of a boxed value's wrapper class, `None` for anything else.
pub fn box_class(host: &Host, v: &Value) -> (r: Option<usize>)
    ensures
        match (r, box_of(host@, v@)) {
            (Some(c), Some(b)) => c == b.0,
            (None, None) => true,
            _ => false,
        },
{
    match v {
        Value::Obj(id) => {
            let at: usize = *id as usize;
            if at < host.boxes.len() {
                assert(host@.boxes[at as int] == box_views(host.boxes@)[at as int]);
                match &host.boxes[at] {
                    Some(b) => Some(b.0),
                    None => None,
                }
            } else {
                None
            }
        },
        _ => None,
    }
}

/// `v` with any box removed.
pub fn deboxed(host: &Host, v: &Value) -> (r: Value)
    ensures
        r@ == bare(host@, v@),
{
    match unboxed(host, v) {
        Some(x) => x,
        None => v.copy(),
    }
}

/// A value read as an integer, through any box.
pub open spec fn jint_of(h: HostV, v: Val) -> int {
    int_of(bare(h, v))
}

/// A value read as an integer, through any box.
pub fn jint(host: &Host, v: &Value) -> (r: i64)
    ensures
        r == jint_of(host@, v@),
{
    to_int(&deboxed(host, v))
}

/// A value read as a `double`, through any box, as bits.
pub fn jfloat(host: &Host, v: &Value) -> (r: u64)
    ensures
        r == double_of(bare(host@, v@)),
{
    to_double(&deboxed(host, v))
}

/// A one-character text is a `char` and reads as its code point; anything else
/// reads as [`int_of`] does, a text as a decimal number.
pub open spec fn char_or_int(v: Val) -> int {
    let text = plain(v);
    match v {
        Val::Int(n) => n as int,
        Val::Float(d) => to_long(d.bits),
        Val::Bool(b) => if b {
            1
        } else {
            0
        },
        _ => if text.len() == 1 {
            text[0] as int
        } else {
            decimal_or_zero(text)
        },
    }
}

/// A bare value read as an integer, a one-character text as its code point.
pub fn bare_i64(v: &Value) -> (r: i64)
    ensures
        r == char_or_int(v@),
{
    match v {
        Value::Int(n) => *n,
        Value::Float(d) => double_to_long(d.bits),
        Value::Bool(b) => if *b {
            1
        } else {
            0
        },
        _ => {
            let text: String = plain_text(v);
            let c: Vec<char> = chars_of(text.as_str());
            if c.len() == 1 {
                code_of(c[0]) as i64
            } else {
                parse_or_zero(text.as_str())
            }
        },
    }
}

/// A value read as an integer through any box, a one-character text as its
/// code point.
pub fn as_i64(host: &Host, v: &Value) -> (r: i64)
    ensures
        r == char_or_int(bare(host@, v@)),
{
    bare_i64(&deboxed(host, v))
}

/// Boxing conversion, as the builtin does it: `null` stays `null`, and a code
/// out of range counts as the nearest one.
pub open spec fn box_builtin(h: HostV, v: Val, code: int) -> (HostV, Val) {
    let c = if code < 0 {
        0
    } else if code > 6 {
        6
    } else {
        code
    };
    if v == Val::Undef {
        (h, v)
    } else {
        boxing(h, c, v)
    }
}

/// Boxing conversion of `v` to the wrapper class named by `code`.
pub fn b_box(host: &mut Host, v: Value, code: &Value) -> (r: Value)
    ensures
        (final(host)@, r@) == box_builtin(
            old(host)@,
            v@,
            char_or_int(bare(old(host)@, code@)),
        ),
{
    let n: i64 = as_i64(host, code);
    let c: usize = if n < 0 {
        0
    } else if n > 6 {
        6
    } else {
        n as usize
    };
    if v.is_undef() {
        return v;
    }
    box_value(host, c, v)
}

/// Every shared handle leads to the box it is shared for.
pub open spec fn cache_sound(h: HostV) -> bool {
    forall|i: int|
        0 <= i < h.box_cache.len() ==> box_of(h, Val::Obj((#[trigger] h.box_cache[i]).2)) == Some(
            (h.box_cache[i].0 as int, Val::Int(h.box_cache[i].1)),
        )
}

proof fn lemma_cached(cache: Seq<(usize, i64, u32)>, code: int, key: i64)
    ensures
        cached(cache, code, key) matches Some(id) ==> exists|i: int|
            0 <= i < cache.len() && cache[i].0 == code && cache[i].1 == key && #[trigger] cache[i].2
                == id,
        cached(cache, code, key) is None ==> forall|i: int|
            0 <= i < cache.len() ==> !((#[trigger] cache[i]).0 == code && cache[i].1 == key),
    decreases cache.len(),
{
    if cache.len() > 0 {
        let t = cache.skip(1);
        lemma_cached(t, code, key);
        if cache[0].0 == code && cache[0].1 == key {
            assert(cache[0].2 == cache[0].2);
        } else {
            if cached(t, code, key) is Some {
                let i = choose|i: int|
                    0 <= i < t.len() && t[i].0 == code && t[i].1 == key && #[trigger] t[i].2
                        == cached(t, code, key)->0;
                assert(cache[i + 1] == t[i]);
            } else {
                assert forall|i: int| 0 <= i < cache.len() implies !((#[trigger] cache[i]).0 == code
                    && cache[i].1 == key) by {
                    if i > 0 {
                        assert(t[i - 1] == cache[i]);
                    }
                }
            }
        }
    }
}

proof fn lemma_cached_push(cache: Seq<(usize, i64, u32)>, code: usize, key: i64, id: u32)
    requires
        cached(cache, code as int, key) is None,
    ensures
        cached(cache.push((code, key, id)), code as int, key) == Some(id),
    decreases cache.len(),
{
    let p = cache.push((code, key, id));
    if cache.len() > 0 {
        lemma_cached_push(cache.skip(1), code, key, id);
        assert(p.skip(1) =~= cache.skip(1).push((code, key, id)));
        assert(p[0] == cache[0]);
    }
}

/// Unboxing undoes boxing, and boxing keeps every shared handle sound.
pub proof fn unboxing_undoes_boxing(h: HostV, code: int, v: Val)
    requires
        0 <= code < 7,
        cache_sound(h),
        h.heap.len() < u32::MAX,
        h.boxes.len() <= h.heap.len(),
    ensures
        ({
            let (after, boxed) = boxing(h, code, v);
            &&& box_of(after, boxed) == Some((code, v))
            &&& unbox(after, boxed) == Some(v)
            &&& cache_sound(after)
        }),
{
    let (after, boxed) = boxing(h, code, v);
    if let Some(key) = cache_key(code, v) {
        lemma_cached(h.box_cache, code, key);
    }
    assert forall|i: int| 0 <= i < after.box_cache.len() implies box_of(
        after,
        Val::Obj((#[trigger] after.box_cache[i]).2),
    ) == Some((after.box_cache[i].0 as int, Val::Int(after.box_cache[i].1))) by {
        if i < h.box_cache.len() {
            assert(after.box_cache[i] == h.box_cache[i]);
        }
    }
}

/// Boxing a value twice gives one handle exactly in the range the language
/// shares: -128 to 127 for the four integral wrappers, 0 to 127 for a
/// character, and nothing for the floating ones.
pub proof fn small_values_share_a_box(h: HostV, code: int, v: Val)
    requires
        0 <= code < 7,
        h.heap.len() + 1 < u32::MAX,
    ensures
        ({
            let (h1, a) = boxing(h, code, v);
            let (h2, b) = boxing(h1, code, v);
            a == b <==> cache_key(code, v) is Some
        }),
{
    if let Some(key) = cache_key(code, v) {
        if cached(h.box_cache, code, key) is None {
            lemma_cached_push(h.box_cache, code as usize, key, h.heap.len() as u32);
        }
    }
}

} // verus!
