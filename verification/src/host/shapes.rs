//! Rendering where a program declares its own `toString`, and the report of an
//! uncaught exception.
use vstd::prelude::*;

use crate::host::{Host, HostObj, HostV, ObjV, ffi_fault};
use crate::host::classes::{binary_or_qualified, qualified_or_binary};
use crate::host::dispatch::{default_text, obj_default_str};
use crate::host::factories::{array_items, array_of};
use crate::host::members::{
    Members, MembersV, any_user_tostring, declares, member_entry, member_of, tostring_suffix,
};
use crate::host::objects::exc_take;
use crate::host::order::{in_order, present_items};
use crate::host::render::{
    depth_limit, entries_in_order, enum_name_field, field, find_field, java_str, keys_of,
    present_entries, text_of_value, values_of,
};
use crate::host::views::{object, sublist_items, view_items};
use crate::prelude::opt_view;
use crate::text::{join, join_texts, own, views};
use crate::value::{Val, Value, copy_all, plain, plain_text, vals};

verus! {

/// How the rendering of a value goes on.
pub enum RenderStep {
    /// The program's `toString` at this entry is to run on the object.
    Run(usize),
    /// It is this text.
    Text(String),
    /// It is the renderings of these, in brackets.
    Items(Vec<Value>),
    /// It is the renderings of these keys and values, in braces.
    Entries(Vec<Value>, Vec<Value>),
    /// No `toString` of the program can be in it.
    Plain,
}

pub enum RenderStepV {
    Run(usize),
    Text(Seq<char>),
    Items(Seq<Val>),
    Entries(Seq<Val>, Seq<Val>),
    Plain,
}

impl View for RenderStep {
    type V = RenderStepV;

    open spec fn view(&self) -> RenderStepV {
        match self {
            RenderStep::Run(e) => RenderStepV::Run(*e),
            RenderStep::Text(s) => RenderStepV::Text(s@),
            RenderStep::Items(v) => RenderStepV::Items(vals(v@)),
            RenderStep::Entries(k, v) => RenderStepV::Entries(vals(k@), vals(v@)),
            RenderStep::Plain => RenderStepV::Plain,
        }
    }
}

/// How the rendering of a value goes on.
pub open spec fn render_begun(h: HostV, m: MembersV, v: Val) -> RenderStepV {
    match v {
        Val::Obj(id) => if !declares(m, tostring_suffix()) {
            RenderStepV::Plain
        } else {
            match object(h, id as int) {
                Some(ObjV::Instance { class, fields }) => match member_of(
                    h,
                    m,
                    class,
                    tostring_suffix(),
                ) {
                    Some(e) => RenderStepV::Run(e),
                    None => match field(fields, enum_name_field()) {
                        Some(n) if n != Val::Undef => RenderStepV::Text(plain(n)),
                        _ => RenderStepV::Text(default_text(h, id)),
                    },
                },
                Some(ObjV::List { items, .. }) => RenderStepV::Items(items),
                Some(ObjV::SetObj { items, order, .. }) => RenderStepV::Items(
                    in_order(h, items, order),
                ),
                Some(ObjV::MapObj { entries, order }) => RenderStepV::Entries(
                    keys_of(entries_in_order(h, entries, order)),
                    values_of(entries_in_order(h, entries, order)),
                ),
                Some(ObjV::SubList { .. }) => RenderStepV::Items(
                    match view_items(h, id as int) {
                        Ok(items) => items,
                        Err(_) => seq![],
                    },
                ),
                _ => RenderStepV::Text(default_text(h, id)),
            }
        },
        _ => RenderStepV::Plain,
    }
}

/// How the rendering of a value goes on: a `toString` of the program wins over
/// the name of an enum constant, and a collection renders its elements. What is
/// read is copied, because the program's code may change it.
pub fn render_step(host: &Host, m: &Members, v: &Value) -> (r: RenderStep)
    ensures
        r@ == render_begun(host@, m@, v@),
{
    let id: u32 = match v {
        Value::Obj(id) => *id,
        _ => {
            return RenderStep::Plain;
        },
    };
    if !any_user_tostring(m) {
        return RenderStep::Plain;
    }
    let i: usize = id as usize;
    if i >= host.heap.len() {
        return RenderStep::Text(obj_default_str(host, id));
    }
    assert(host@.heap[i as int] == host.heap@[i as int]@);
    match &host.heap[i] {
        HostObj::Instance { class, fields } => match member_entry(
            host,
            m,
            class.as_str(),
            "#toString#",
        ) {
            Some(e) => RenderStep::Run(e),
            None => {
                match find_field(fields, "#name") {
                    Some(k) => {
                        if !fields[k].1.is_undef() {
                            return RenderStep::Text(plain_text(&fields[k].1));
                        }
                    },
                    None => {},
                }
                RenderStep::Text(obj_default_str(host, id))
            },
        },
        HostObj::List { items, .. } => RenderStep::Items(copy_all(items)),
        HostObj::SetObj { items, order, .. } => RenderStep::Items(
            present_items(host, items, *order),
        ),
        HostObj::MapObj { entries, order } => {
            let (k, v): (Vec<Value>, Vec<Value>) = present_entries(host, entries, *order);
            RenderStep::Entries(k, v)
        },
        HostObj::SubList { .. } => match sublist_items(host, i) {
            Some(Ok(items)) => RenderStep::Items(items),
            _ => {
                let none: Vec<Value> = Vec::new();
                assert(vals(none@) =~= seq![]);
                RenderStep::Items(none)
            },
        },
        _ => RenderStep::Text(obj_default_str(host, id)),
    }
}

/// The texts of elements, in brackets.
pub fn bracketed(texts: &Vec<String>) -> (r: String)
    ensures
        r@ == "["@ + join(views(texts@), ", "@) + "]"@,
{
    let mut r: String = own("[");
    r.append(join_texts(texts, ", ").as_str());
    r.append("]");
    r
}

/// Each key with its value.
pub open spec fn pairs_text(keys: Seq<Seq<char>>, values: Seq<Seq<char>>) -> Seq<Seq<char>> {
    Seq::new(keys.len(), |i: int| keys[i] + "="@ + values[i])
}

/// The texts of entries, in braces.
pub fn braced(keys: &Vec<String>, values: &Vec<String>) -> (r: String)
    requires
        keys.len() == values.len(),
    ensures
        r@ == "{"@ + join(pairs_text(views(keys@), views(values@)), ", "@) + "}"@,
{
    let mut pairs: Vec<String> = Vec::new();
    let mut i: usize = 0;
    while i < keys.len()
        invariant
            i <= keys.len() == values.len(),
            pairs.len() == i,
            forall|k: int|
                0 <= k < i ==> (#[trigger] pairs@[k])@ == keys@[k]@ + "="@ + values@[k]@,
        decreases keys.len() - i,
    {
        let mut p: String = own(keys[i].as_str());
        p.append("=");
        p.append(values[i].as_str());
        pairs.push(p);
        i += 1;
    }
    assert(views(pairs@) =~= pairs_text(views(keys@), views(values@)));
    let mut r: String = own("{");
    r.append(join_texts(&pairs, ", ").as_str());
    r.append("}");
    r
}

/// `Throwable.toString()`: the class, and the message where there is one.
pub open spec fn throwable_text(h: HostV, v: Val) -> Option<Seq<char>> {
    match v {
        Val::Obj(id) => match object(h, id as int) {
            Some(ObjV::Instance { class, fields }) => match field(fields, "detailMessage"@) {
                Some(m) if m != Val::Undef => match text_of_value(h, m) {
                    Some(t) => Some(binary_or_qualified(h, class) + ": "@ + t),
                    None => None,
                },
                _ => Some(binary_or_qualified(h, class)),
            },
            _ => text_of_value(h, v),
        },
        _ => text_of_value(h, v),
    }
}

/// `Throwable.toString()`; `None` where the message holds itself and has no
/// rendering.
pub fn throwable_str(host: &Host, v: &Value) -> (r: Option<String>)
    requires
        depth_limit(host@) <= usize::MAX,
    ensures
        opt_view(r) == throwable_text(host@, v@),
{
    match v {
        Value::Obj(id) => {
            let i: usize = *id as usize;
            if i < host.heap.len() {
                assert(host@.heap[i as int] == host.heap@[i as int]@);
                match &host.heap[i] {
                    HostObj::Instance { class, fields } => {
                        let name: String = qualified_or_binary(host, class.as_str());
                        match find_field(fields, "detailMessage") {
                            Some(k) => {
                                if !fields[k].1.is_undef() {
                                    return match java_str(host, &fields[k].1) {
                                        Some(t) => {
                                            let mut r: String = name;
                                            r.append(": ");
                                            r.append(t.as_str());
                                            Some(r)
                                        },
                                        None => None,
                                    };
                                }
                            },
                            None => {},
                        }
                        return Some(name);
                    },
                    _ => {},
                }
            }
            java_str(host, v)
        },
        _ => java_str(host, v),
    }
}

/// What the exception in flight is, `null` when there is none.
pub open spec fn in_flight(h: HostV) -> Val {
    match h.pending {
        Some(v) => v,
        None => Val::Undef,
    }
}

/// Report the exception that left `main`, which ends the run. The answer says
/// whether it could be rendered.
pub fn exc_abort(host: &mut Host) -> (r: bool)
    requires
        depth_limit(old(host)@) <= usize::MAX,
    ensures
        ({
            let taken = HostV { pending: None, ..old(host)@ };
            match throwable_text(taken, in_flight(old(host)@)) {
                Some(t) => r && final(host)@ == (HostV {
                    ffi_error: Some("Exception in thread \"main\" "@ + t),
                    ..taken
                }),
                None => !r && final(host)@ == taken,
            }
        }),
{
    let exc: Value = exc_take(host);
    match throwable_str(host, &exc) {
        Some(t) => {
            let mut m: String = own("Exception in thread \"main\" ");
            m.append(t.as_str());
            ffi_fault(host, m);
            true
        },
        None => false,
    }
}

/// `Arrays.deepToString`: an array by its elements, arrays among them too, and
/// anything else as it is rendered. `None` where arrays nest deeper than
/// `depth`, as one that holds itself does.
pub open spec fn deep_at(h: HostV, v: Val, depth: nat) -> Option<Seq<char>>
    decreases depth, 0nat, 0nat,
{
    match array_of(h, v) {
        None => text_of_value(h, v),
        Some(items) => if depth == 0 {
            None
        } else {
            match deep_texts(h, items, (depth - 1) as nat) {
                Some(t) => Some("["@ + join(t, ", "@) + "]"@),
                None => None,
            }
        },
    }
}

/// The renderings of an array's elements.
pub open spec fn deep_texts(h: HostV, items: Seq<Val>, depth: nat) -> Option<Seq<Seq<char>>>
    decreases depth, 1nat, items.len(),
{
    if items.len() == 0 {
        Some(seq![])
    } else {
        match (deep_texts(h, items.drop_last(), depth), deep_at(h, items.last(), depth)) {
            (Some(t), Some(x)) => Some(t.push(x)),
            _ => None,
        }
    }
}

/// `Arrays.deepToString` where no class of the program declares a `toString`.
pub fn arrays_deep_to_string(host: &Host, v: &Value, depth: usize) -> (r: Option<String>)
    requires
        depth_limit(host@) <= usize::MAX,
    ensures
        opt_view(r) == deep_at(host@, v@, depth as nat),
    decreases depth,
{
    match array_items(host, v) {
        None => java_str(host, v),
        Some(items) => {
            if depth == 0 {
                return None;
            }
            let ghost vs = vals(items@);
            let mut texts: Vec<String> = Vec::new();
            let mut i: usize = 0;
            assert(vs.take(0) =~= seq![]);
            assert(views(texts@) =~= seq![]);
            while i < items.len()
                invariant
                    depth_limit(host@) <= usize::MAX,
                    depth > 0,
                    i <= items.len(),
                    vs == vals(items@),
                    array_of(host@, v@) == Some(vs),
                    deep_texts(host@, vs.take(i as int), (depth - 1) as nat) == Some(
                        views(texts@),
                    ),
                decreases items.len() - i,
            {
                proof {
                    let t = vs.take(i + 1);
                    assert(t.drop_last() =~= vs.take(i as int));
                    assert(t.last() == items@[i as int]@);
                }
                let ghost before = views(texts@);
                match arrays_deep_to_string(host, &items[i], depth - 1) {
                    Some(x) => {
                        texts.push(x);
                        assert(views(texts@) =~= before.push(x@));
                    },
                    None => {
                        proof {
                            lemma_deep_missing(host@, vs, (depth - 1) as nat, i + 1);
                        }
                        return None;
                    },
                }
                i += 1;
            }
            assert(vs.take(items.len() as int) =~= vs);
            Some(bracketed(&texts))
        },
    }
}

proof fn lemma_deep_missing(h: HostV, items: Seq<Val>, depth: nat, n: int)
    requires
        0 <= n <= items.len(),
        deep_texts(h, items.take(n), depth) is None,
    ensures
        deep_texts(h, items, depth) is None,
    decreases items.len() - n,
{
    if n < items.len() {
        let t = items.take(n + 1);
        assert(t.drop_last() =~= items.take(n));
        lemma_deep_missing(h, items, depth, n + 1);
    } else {
        assert(items.take(n) =~= items);
    }
}

} // verus!
