//! Rendering values: `String.valueOf` without a user `toString()`.
use vstd::prelude::*;

use crate::host::{Host, HostObj, HostV, ObjV, Order, entry_views, field_views};
use crate::host::boxes::{as_i64, bare, box_class, box_of, char_or_int, unboxed};
use crate::host::classes::{binary_or_qualified, qualified_or_binary};
use crate::host::decimal::{double_text, format_double};
use crate::host::order::{in_order, ints, present_items, present_order, presented};
use crate::host::views::{object, sublist_items, view_items};
use crate::prelude::opt_view;
use crate::text::{digits, join, join_texts, own, radix_text, same, text_of, views};
use crate::value::{Val, Value, plain, plain_text, vals};

verus! {

/// The field an enum constant keeps its name in.
pub open spec fn enum_name_field() -> Seq<char> {
    "#name"@
}

/// The value of a field, `None` when the instance has none of that name.
pub open spec fn field(fields: Seq<(Seq<char>, Val)>, name: Seq<char>) -> Option<Val>
    decreases fields.len(),
{
    if fields.len() == 0 {
        None
    } else if fields[0].0 == name {
        Some(fields[0].1)
    } else {
        field(fields.skip(1), name)
    }
}

/// The position of a field.
pub fn find_field(fields: &Vec<(String, Value)>, name: &str) -> (r: Option<usize>)
    ensures
        match r {
            Some(i) => i < fields.len() && field(field_views(fields@), name@) == Some(
                fields@[i as int].1@,
            ) && fields@[i as int].0@ == name@ && (forall|k: int|
                0 <= k < i ==> (#[trigger] fields@[k]).0@ != name@),
            None => field(field_views(fields@), name@) is None && (forall|k: int|
                0 <= k < fields.len() ==> (#[trigger] fields@[k]).0@ != name@),
        },
{
    let ghost all = field_views(fields@);
    let mut i: usize = 0;
    assert(all.skip(0) =~= all);
    while i < fields.len()
        invariant
            i <= fields.len(),
            all == field_views(fields@),
            field(all, name@) == field(all.skip(i as int), name@),
            forall|k: int| 0 <= k < i ==> (#[trigger] fields@[k]).0@ != name@,
        decreases fields.len() - i,
    {
        assert(all.skip(i as int)[0] == all[i as int]);
        assert(all.skip(i as int).skip(1) =~= all.skip(i + 1));
        if same(fields[i].0.as_str(), name) {
            return Some(i);
        }
        i += 1;
    }
    None
}

/// `n` in hexadecimal.
pub open spec fn hex(n: int) -> Seq<char> {
    digits(n, 16)
}

/// The character with a code point, `None` for a surrogate or a number past
/// the last one.
pub open spec fn scalar(n: int) -> Option<char> {
    if 0 <= n < 0xd800 || 0xe000 <= n <= 0x10_ffff {
        Some(n as char)
    } else {
        None
    }
}

/// `char::from_u32`: the character with a code point, when it is one.
pub assume_specification[ char::from_u32 ](n: u32) -> (r: Option<char>)
    ensures
        r == scalar(n as int),
;

/// The low 32 bits of an integer.
pub open spec fn low32(n: int) -> int {
    n % 0x1_0000_0000
}

pub fn low_bits(n: i64) -> (r: u32)
    ensures
        r == low32(n as int),
{
    let m: i128 = if n < 0 {
        n as i128 + 0x1_0000_0000_0000_0000
    } else {
        n as i128
    };
    proof {
        assert(m as int % 0x1_0000_0000 == n as int % 0x1_0000_0000) by (nonlinear_arith)
            requires
                m == n || m == n + 0x1_0000_0000 * 0x1_0000_0000,
        ;
    }
    (m % 0x1_0000_0000) as u32
}

/// What a value is rendered as, `None` when objects nest deeper than `depth`
/// below it: a list that holds itself has no rendering.
pub open spec fn text_at(h: HostV, v: Val, depth: nat) -> Option<Seq<char>>
    decreases depth, 0nat,
{
    match v {
        Val::Bool(b) => if b {
            Some("true"@)
        } else {
            Some("false"@)
        },
        Val::Float(d) => Some(double_text(d)),
        Val::Undef => Some("null"@),
        Val::Obj(id) => match box_of(h, v) {
            Some((code, inner)) => if code == 4 {
                match scalar(low32(char_or_int(bare(h, inner)))) {
                    Some(c) => Some(seq![c]),
                    None => Some(seq![]),
                }
            } else if code == 5 && inner is Float {
                Some(inner->Float_0.narrow)
            } else if depth == 0 {
                None
            } else {
                text_at(h, inner, (depth - 1) as nat)
            },
            None => match object(h, id as int) {
                Some(ObjV::Instance { class, fields }) => match field(fields, enum_name_field()) {
                    Some(n) if n != Val::Undef => Some(plain(n)),
                    _ => Some(binary_or_qualified(h, class) + "@"@ + hex(id as int)),
                },
                Some(ObjV::Array(_)) => Some("[@"@ + hex(id as int)),
                Some(ObjV::Builder { s, .. }) => Some(s),
                Some(ObjV::List { items, .. }) => if depth == 0 {
                    None
                } else {
                    list_text(h, items, (depth - 1) as nat)
                },
                Some(ObjV::SubList { .. }) => if depth == 0 {
                    None
                } else {
                    list_text(
                        h,
                        match view_items(h, id as int) {
                            Ok(items) => items,
                            Err(_) => seq![],
                        },
                        (depth - 1) as nat,
                    )
                },
                Some(ObjV::SetObj { items, order, .. }) => if depth == 0 {
                    None
                } else {
                    list_text(h, in_order(h, items, order), (depth - 1) as nat)
                },
                Some(ObjV::MapObj { entries, order }) => if depth == 0 {
                    None
                } else {
                    match entry_texts(h, entries_in_order(h, entries, order), (depth - 1) as nat) {
                        Some(t) => Some("{"@ + join(t, ", "@) + "}"@),
                        None => None,
                    }
                },
                Some(ObjV::Closure { .. }) => Some("<lambda>@"@ + hex(id as int)),
                Some(ObjV::Boxed) => Some(plain(v)),
                None => Some(plain(v)),
            },
        },
        _ => Some(plain(v)),
    }
}

/// The keys of a map's entries.
pub open spec fn keys_of(entries: Seq<(Val, Val)>) -> Seq<Val> {
    Seq::new(entries.len(), |i: int| entries[i].0)
}

/// The values of a map's entries.
pub open spec fn values_of(entries: Seq<(Val, Val)>) -> Seq<Val> {
    Seq::new(entries.len(), |i: int| entries[i].1)
}

/// A map's entries in the order it presents them.
pub open spec fn entries_in_order(h: HostV, entries: Seq<(Val, Val)>, order: Order) -> Seq<
    (Val, Val),
> {
    let at = presented(h, keys_of(entries), order);
    Seq::new(at.len(), |i: int| entries[at[i]])
}

/// The renderings of several values.
pub open spec fn item_texts(h: HostV, items: Seq<Val>, depth: nat) -> Option<Seq<Seq<char>>>
    decreases depth, items.len() + 1,
{
    if items.len() == 0 {
        Some(seq![])
    } else {
        match (item_texts(h, items.drop_last(), depth), text_at(h, items.last(), depth)) {
            (Some(a), Some(b)) => Some(a.push(b)),
            _ => None,
        }
    }
}

/// The renderings of several entries, as `key=value`.
pub open spec fn entry_texts(h: HostV, entries: Seq<(Val, Val)>, depth: nat) -> Option<
    Seq<Seq<char>>,
>
    decreases depth, entries.len() + 1,
{
    if entries.len() == 0 {
        Some(seq![])
    } else {
        match (
            entry_texts(h, entries.drop_last(), depth),
            text_at(h, entries.last().0, depth),
            text_at(h, entries.last().1, depth),
        ) {
            (Some(a), Some(k), Some(v)) => Some(a.push(k + "="@ + v)),
            _ => None,
        }
    }
}

/// `[a, b, c]`.
pub open spec fn list_text(h: HostV, items: Seq<Val>, depth: nat) -> Option<Seq<char>>
    decreases depth, items.len() + 2,
{
    match item_texts(h, items, depth) {
        Some(t) => Some("["@ + join(t, ", "@) + "]"@),
        None => None,
    }
}

/// The renderings of several values.
fn render_items(host: &Host, items: &Vec<Value>, depth: usize) -> (r: Option<Vec<String>>)
    ensures
        match (r, item_texts(host@, vals(items@), depth as nat)) {
            (Some(x), Some(y)) => views(x@) == y,
            (None, None) => true,
            _ => false,
        },
    decreases depth, items.len() + 2,
{
    let mut r: Vec<String> = Vec::new();
    let mut i: usize = 0;
    let ghost all = vals(items@);
    assert(views(r@) =~= seq![]);
    assert(all.take(0) =~= seq![]);
    while i < items.len()
        invariant
            i <= items.len(),
            all == vals(items@),
            item_texts(host@, all.take(i as int), depth as nat) == Some(views(r@)),
        decreases items.len() - i,
    {
        proof {
            let t = all.take(i + 1);
            assert(t.drop_last() =~= all.take(i as int));
            assert(t.last() == items@[i as int]@);
        }
        match render_at(host, &items[i], depth) {
            Some(t) => {
                let ghost before = views(r@);
                let ghost tv = t@;
                r.push(t);
                assert(views(r@) =~= before.push(tv));
            },
            None => {
                proof {
                    lemma_missing_item(host@, all, i + 1, depth as nat);
                }
                return None;
            },
        }
        i += 1;
    }
    assert(all.take(items.len() as int) =~= all);
    Some(r)
}

proof fn lemma_missing_item(h: HostV, items: Seq<Val>, n: int, depth: nat)
    requires
        0 <= n <= items.len(),
        item_texts(h, items.take(n), depth) is None,
    ensures
        item_texts(h, items, depth) is None,
    decreases items.len() - n,
{
    if n < items.len() {
        assert(items.take(n + 1).drop_last() =~= items.take(n));
        lemma_missing_item(h, items, n + 1, depth);
    } else {
        assert(items.take(n) =~= items);
    }
}

/// The renderings of several entries.
fn render_entries(host: &Host, keys: &Vec<Value>, values: &Vec<Value>, depth: usize) -> (r: Option<
    Vec<String>,
>)
    requires
        keys.len() == values.len(),
    ensures
        match (
            r,
            entry_texts(
                host@,
                Seq::new(keys@.len(), |i: int| (keys@[i]@, values@[i]@)),
                depth as nat,
            ),
        ) {
            (Some(x), Some(y)) => views(x@) == y,
            (None, None) => true,
            _ => false,
        },
    decreases depth, keys.len() + 2,
{
    let mut r: Vec<String> = Vec::new();
    let mut i: usize = 0;
    let ghost all = Seq::new(keys@.len(), |i: int| (keys@[i]@, values@[i]@));
    assert(views(r@) =~= seq![]);
    assert(all.take(0) =~= seq![]);
    while i < keys.len()
        invariant
            i <= keys.len(),
            keys.len() == values.len(),
            all == Seq::new(keys@.len(), |i: int| (keys@[i]@, values@[i]@)),
            entry_texts(host@, all.take(i as int), depth as nat) == Some(views(r@)),
        decreases keys.len() - i,
    {
        proof {
            let t = all.take(i + 1);
            assert(t.drop_last() =~= all.take(i as int));
            assert(t.last() == all[i as int]);
        }
        let k: Option<String> = render_at(host, &keys[i], depth);
        let v: Option<String> = render_at(host, &values[i], depth);
        match (k, v) {
            (Some(a), Some(b)) => {
                let mut t: String = a;
                t.append("=");
                t.append(b.as_str());
                let ghost before = views(r@);
                let ghost tv = t@;
                r.push(t);
                assert(views(r@) =~= before.push(tv));
            },
            _ => {
                proof {
                    lemma_missing_entry(host@, all, i + 1, depth as nat);
                }
                return None;
            },
        }
        i += 1;
    }
    assert(all.take(keys.len() as int) =~= all);
    Some(r)
}

proof fn lemma_missing_entry(h: HostV, entries: Seq<(Val, Val)>, n: int, depth: nat)
    requires
        0 <= n <= entries.len(),
        entry_texts(h, entries.take(n), depth) is None,
    ensures
        entry_texts(h, entries, depth) is None,
    decreases entries.len() - n,
{
    if n < entries.len() {
        assert(entries.take(n + 1).drop_last() =~= entries.take(n));
        lemma_missing_entry(h, entries, n + 1, depth);
    } else {
        assert(entries.take(n) =~= entries);
    }
}

/// `[a, b, c]`.
fn render_sequence(host: &Host, items: &Vec<Value>, depth: usize) -> (r: Option<String>)
    ensures
        opt_view(r) == list_text(host@, vals(items@), depth as nat),
    decreases depth, items.len() + 3,
{
    match render_items(host, items, depth) {
        Some(t) => {
            let mut s: String = own("[");
            s.append(join_texts(&t, ", ").as_str());
            s.append("]");
            Some(s)
        },
        None => None,
    }
}

/// The keys of a map.
pub fn map_keys(entries: &Vec<(Value, Value)>) -> (r: Vec<Value>)
    ensures
        vals(r@) == keys_of(entry_views(entries@)),
{
    let mut r: Vec<Value> = Vec::new();
    let mut i: usize = 0;
    while i < entries.len()
        invariant
            i <= entries.len(),
            r.len() == i,
            forall|k: int| 0 <= k < i ==> (#[trigger] r@[k])@ == entries@[k].0@,
        decreases entries.len() - i,
    {
        r.push(entries[i].0.copy());
        i += 1;
    }
    assert(vals(r@) =~= keys_of(entry_views(entries@)));
    r
}

/// A map's keys and values in the order it presents them.
pub fn present_entries(host: &Host, entries: &Vec<(Value, Value)>, order: Order) -> (r: (
    Vec<Value>,
    Vec<Value>,
))
    ensures
        r.0.len() == r.1.len(),
        vals(r.0@) == keys_of(entries_in_order(host@, entry_views(entries@), order)),
        vals(r.1@) == values_of(entries_in_order(host@, entry_views(entries@), order)),
{
    let keys: Vec<Value> = map_keys(entries);
    let at: Vec<usize> = present_order(host, &keys, order);
    let mut ks: Vec<Value> = Vec::new();
    let mut vs: Vec<Value> = Vec::new();
    let ghost ev = entry_views(entries@);
    assert(vals(keys@).len() == keys.len());
    let mut i: usize = 0;
    while i < at.len()
        invariant
            i <= at.len(),
            ev == entry_views(entries@),
            forall|k: int| 0 <= k < at.len() ==> (#[trigger] at@[k]) < entries.len(),
            ks.len() == i,
            vs.len() == i,
            forall|k: int| 0 <= k < i ==> (#[trigger] ks@[k])@ == ev[ints(at@)[k]].0,
            forall|k: int| 0 <= k < i ==> (#[trigger] vs@[k])@ == ev[ints(at@)[k]].1,
        decreases at.len() - i,
    {
        ks.push(entries[at[i]].0.copy());
        vs.push(entries[at[i]].1.copy());
        i += 1;
    }
    proof {
        let e = entries_in_order(host@, ev, order);
        assert(vals(ks@) =~= keys_of(e));
        assert(vals(vs@) =~= values_of(e));
    }
    (ks, vs)
}

fn hex_text(prefix: &str, id: u32) -> (r: String)
    ensures
        r@ == prefix@ + hex(id as int),
{
    let mut r: String = own(prefix);
    r.append(radix_text(id as u64, 16).as_str());
    r
}

/// What a value is rendered as, when objects nest no deeper than `depth`.
pub fn render_at(host: &Host, v: &Value, depth: usize) -> (r: Option<String>)
    ensures
        opt_view(r) == text_at(host@, v@, depth as nat),
    decreases depth, 1nat,
{
    match v {
        Value::Bool(b) => Some(
            own(
                if *b {
                    "true"
                } else {
                    "false"
                },
            ),
        ),
        Value::Float(d) => Some(format_double(d)),
        Value::Undef => Some(own("null")),
        Value::Obj(id) => {
            if let (Some(code), Some(inner)) = (box_class(host, v), unboxed(host, v)) {
                return render_box(host, code, &inner, depth);
            }
            render_object(host, *id, depth)
        },
        _ => Some(plain_text(v)),
    }
}

/// What a wrapper is rendered as.
fn render_box(host: &Host, code: usize, inner: &Value, depth: usize) -> (r: Option<String>)
    ensures
        opt_view(r) == (if code == 4 {
            match scalar(low32(char_or_int(bare(host@, inner@)))) {
                Some(c) => Some(seq![c]),
                None => Some(seq![]),
            }
        } else if code == 5 && inner@ is Float {
            Some(inner@->Float_0.narrow)
        } else if depth == 0 {
            None
        } else {
            text_at(host@, inner@, (depth - 1) as nat)
        }),
    decreases depth, 0nat,
{
    if code == 4 {
        let mut s: String = String::new();
        if let Some(c) = char::from_u32(low_bits(as_i64(host, inner))) {
            s.push(c);
            assert(s@ =~= seq![c]);
        }
        return Some(s);
    }
    if code == 5 {
        if let Value::Float(d) = inner {
            return Some(own(d.narrow.as_str()));
        }
    }
    if depth == 0 {
        return None;
    }
    render_at(host, inner, depth - 1)
}

/// What a heap object that is no wrapper is rendered as.
fn render_object(host: &Host, id: u32, depth: usize) -> (r: Option<String>)
    requires
        box_of(host@, Val::Obj(id)) is None,
    ensures
        opt_view(r) == text_at(host@, Val::Obj(id), depth as nat),
    decreases depth, 0nat,
{
    let at: usize = id as usize;
    if at >= host.heap.len() {
        return Some(plain_text(&Value::Obj(id)));
    }
    assert(host@.heap[at as int] == host.heap@[at as int]@);
    match &host.heap[at] {
        HostObj::Instance { class, fields } => {
            if let Some(i) = find_field(fields, "#name") {
                if !fields[i].1.is_undef() {
                    return Some(plain_text(&fields[i].1));
                }
            }
            let mut s: String = qualified_or_binary(host, class.as_str());
            s.append("@");
            s.append(radix_text(id as u64, 16).as_str());
            Some(s)
        },
        HostObj::Array(_) => Some(hex_text("[@", id)),
        HostObj::Builder { s, .. } => Some(text_of(s)),
        HostObj::Closure { .. } => Some(hex_text("<lambda>@", id)),
        HostObj::Boxed => Some(plain_text(&Value::Obj(id))),
        HostObj::List { items, .. } => {
            if depth == 0 {
                return None;
            }
            render_sequence(host, items, depth - 1)
        },
        HostObj::SubList { .. } => {
            if depth == 0 {
                return None;
            }
            let items: Vec<Value> = match sublist_items(host, at) {
                Some(Ok(v)) => v,
                _ => Vec::new(),
            };
            assert(vals(items@) =~= (match view_items(host@, id as int) {
                Ok(x) => x,
                Err(_) => seq![],
            }));
            render_sequence(host, &items, depth - 1)
        },
        HostObj::SetObj { items, order, .. } => {
            if depth == 0 {
                return None;
            }
            let shown: Vec<Value> = present_items(host, items, *order);
            render_sequence(host, &shown, depth - 1)
        },
        HostObj::MapObj { entries, order } => {
            if depth == 0 {
                return None;
            }
            let (ks, vs): (Vec<Value>, Vec<Value>) = present_entries(host, entries, *order);
            proof {
                let e = entries_in_order(host@, entry_views(entries@), *order);
                assert(Seq::new(ks@.len(), |i: int| (ks@[i]@, vs@[i]@)) =~= e) by {
                    assert(vals(ks@).len() == keys_of(e).len());
                    assert forall|i: int| 0 <= i < e.len() implies (ks@[i]@, vs@[i]@) == #[trigger]
                    e[i] by {
                        assert(vals(ks@)[i] == keys_of(e)[i]);
                        assert(vals(vs@)[i] == values_of(e)[i]);
                    }
                }
            }
            match render_entries(host, &ks, &vs, depth - 1) {
                Some(t) => {
                    let mut s: String = own("{");
                    s.append(join_texts(&t, ", ").as_str());
                    s.append("}");
                    Some(s)
                },
                None => None,
            }
        },
    }
}

/// How deep objects can nest without a cycle.
pub open spec fn depth_limit(h: HostV) -> nat {
    (h.heap.len() + h.boxes.len() + 1) as nat
}

/// `String.valueOf`, `None` for a value that holds itself.
pub open spec fn text_of_value(h: HostV, v: Val) -> Option<Seq<char>> {
    text_at(h, v, depth_limit(h))
}

/// `String.valueOf` of a value whose class overrides no `toString()`: `true`
/// and `false`, a fractional digit on every `double`, `null`, the elements of a
/// collection, and `Class@hex` for any other object. `None` for a value that
/// holds itself, which has no rendering.
pub fn java_str(host: &Host, v: &Value) -> (r: Option<String>)
    requires
        depth_limit(host@) <= usize::MAX,
    ensures
        opt_view(r) == text_of_value(host@, v@),
{
    assert(host@.boxes.len() == host.boxes.len());
    render_at(host, v, host.heap.len() + host.boxes.len() + 1)
}

/// The rendering does not depend on how deep it is allowed to go, once that is
/// deep enough.
pub proof fn rendering_is_stable(h: HostV, v: Val, d: nat, e: nat)
    requires
        d <= e,
        text_at(h, v, d) is Some,
    ensures
        text_at(h, v, e) == text_at(h, v, d),
    decreases d, 0nat,
{
    if let Val::Obj(id) = v {
        if let Some((code, inner)) = box_of(h, v) {
            if code != 4 && !(code == 5 && inner is Float) {
                rendering_is_stable(h, inner, (d - 1) as nat, (e - 1) as nat);
            }
        } else {
            match object(h, id as int) {
                Some(ObjV::List { items, .. }) => {
                    assert(list_text(h, items, (d - 1) as nat) is Some);
                    lemma_items_stable(h, items, (d - 1) as nat, (e - 1) as nat);
                    assert(list_text(h, items, (e - 1) as nat) == list_text(
                        h,
                        items,
                        (d - 1) as nat,
                    ));
                },
                Some(ObjV::SubList { .. }) => {
                    let items = match view_items(h, id as int) {
                        Ok(x) => x,
                        Err(_) => seq![],
                    };
                    assert(list_text(h, items, (d - 1) as nat) is Some);
                    lemma_items_stable(h, items, (d - 1) as nat, (e - 1) as nat);
                    assert(list_text(h, items, (e - 1) as nat) == list_text(
                        h,
                        items,
                        (d - 1) as nat,
                    ));
                },
                Some(ObjV::SetObj { items, order, .. }) => {
                    assert(list_text(h, in_order(h, items, order), (d - 1) as nat) is Some);
                    lemma_items_stable(
                        h,
                        in_order(h, items, order),
                        (d - 1) as nat,
                        (e - 1) as nat,
                    );
                    assert(list_text(h, in_order(h, items, order), (e - 1) as nat) == list_text(
                        h,
                        in_order(h, items, order),
                        (d - 1) as nat,
                    ));
                },
                Some(ObjV::MapObj { entries, order }) => {
                    lemma_entries_stable(
                        h,
                        entries_in_order(h, entries, order),
                        (d - 1) as nat,
                        (e - 1) as nat,
                    );
                },
                _ => {},
            }
        }
    }
}

proof fn lemma_items_stable(h: HostV, items: Seq<Val>, d: nat, e: nat)
    requires
        d <= e,
        item_texts(h, items, d) is Some,
    ensures
        item_texts(h, items, e) == item_texts(h, items, d),
    decreases d, items.len() + 1,
{
    if items.len() > 0 {
        lemma_items_stable(h, items.drop_last(), d, e);
        rendering_is_stable(h, items.last(), d, e);
    }
}

proof fn lemma_entries_stable(h: HostV, entries: Seq<(Val, Val)>, d: nat, e: nat)
    requires
        d <= e,
        entry_texts(h, entries, d) is Some,
    ensures
        entry_texts(h, entries, e) == entry_texts(h, entries, d),
    decreases d, entries.len() + 1,
{
    if entries.len() > 0 {
        lemma_entries_stable(h, entries.drop_last(), d, e);
        rendering_is_stable(h, entries.last().0, d, e);
        rendering_is_stable(h, entries.last().1, d, e);
    }
}

} // verus!
