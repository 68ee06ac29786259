//! The class of a value: `instanceof`, casts and `getClass`.
use vstd::prelude::*;

use crate::host::{Fixity, Host, HostObj, HostV, ObjV, Order};
use crate::host::boxes::{box_class, box_class_name, box_classes, box_of};
use crate::host::classes::{
    array_descriptor, cast_message, cast_text, descriptor, is_subclass_of, message_name,
    name_in_message, subclass, subclassing_is_a_preorder,
};
use crate::host::lists::same_place;
use crate::host::views::{fixity_of, object, sublist_root_fixity};
use crate::prelude::opt_view;
use crate::text::{chars_of, own, same};
use crate::value::{Fault, FaultV, Val, Value, java_fault, plain, plain_text};

verus! {

/// The class of an object, by the names the model has for what Java keeps
/// private: `[]` for an array, and names with a `$` for the lists and sets of
/// the factories. `None` for a lambda.
pub open spec fn object_class(h: HostV, v: Val, o: ObjV) -> Option<Seq<char>> {
    match o {
        ObjV::Instance { class, .. } => Some(class),
        ObjV::Boxed => match box_of(h, v) {
            Some(b) if 0 <= b.0 < 7 => Some(box_classes()[b.0]),
            _ => None,
        },
        ObjV::Array(_) => Some("[]"@),
        ObjV::List { fixed, .. } => match fixed {
            Fixity::Mutable => Some("ArrayList"@),
            Fixity::FixedSize => Some("List$fixed"@),
            Fixity::Immutable => Some("List$immutable"@),
        },
        ObjV::SubList { .. } => Some("List$sub"@),
        ObjV::MapObj { order, .. } => match order {
            Order::Hash => Some("HashMap"@),
            Order::Insertion => Some("LinkedHashMap"@),
            Order::Sorted => Some("TreeMap"@),
        },
        ObjV::SetObj { order, fixed, .. } => match (fixed, order) {
            (Fixity::Immutable, _) => Some("Set$immutable"@),
            (_, Order::Hash) => Some("HashSet"@),
            (_, Order::Insertion) => Some("LinkedHashSet"@),
            (_, Order::Sorted) => Some("TreeSet"@),
        },
        ObjV::Builder { buffer, .. } => if buffer {
            Some("StringBuffer"@)
        } else {
            Some("StringBuilder"@)
        },
        ObjV::Closure { .. } => None,
    }
}

/// The class a value answers `instanceof` as; `None` for `null` and a lambda.
pub open spec fn class_of(h: HostV, v: Val) -> Option<Seq<char>> {
    match v {
        Val::Str(_) => Some("String"@),
        Val::Int(_) => Some("Integer"@),
        Val::Float(_) => Some("Double"@),
        Val::Bool(_) => Some("Boolean"@),
        Val::Obj(id) => match object(h, id as int) {
            Some(o) => object_class(h, v, o),
            None => None,
        },
        Val::Undef => None,
    }
}

/// The class a value answers `instanceof` as; `None` for `null` and a lambda.
pub fn value_class(host: &Host, v: &Value) -> (r: Option<String>)
    ensures
        opt_view(r) == class_of(host@, v@),
{
    match v {
        Value::Str(_) => Some(own("String")),
        Value::Int(_) => Some(own("Integer")),
        Value::Float(_) => Some(own("Double")),
        Value::Bool(_) => Some(own("Boolean")),
        Value::Undef => None,
        Value::Obj(id) => {
            let i: usize = *id as usize;
            if i >= host.heap.len() {
                return None;
            }
            assert(host@.heap[i as int] == host.heap@[i as int]@);
            match &host.heap[i] {
                HostObj::Instance { class, .. } => Some(own(class.as_str())),
                HostObj::Boxed => match box_class(host, v) {
                    Some(code) => {
                        if code < 7 {
                            Some(own(box_class_name(code)))
                        } else {
                            None
                        }
                    },
                    None => None,
                },
                HostObj::Array(_) => Some(own("[]")),
                HostObj::List { fixed, .. } => match fixed {
                    Fixity::Mutable => Some(own("ArrayList")),
                    Fixity::FixedSize => Some(own("List$fixed")),
                    Fixity::Immutable => Some(own("List$immutable")),
                },
                HostObj::SubList { .. } => Some(own("List$sub")),
                HostObj::MapObj { order, .. } => match order {
                    Order::Hash => Some(own("HashMap")),
                    Order::Insertion => Some(own("LinkedHashMap")),
                    Order::Sorted => Some(own("TreeMap")),
                },
                HostObj::SetObj { order, fixed, .. } => match (fixed, order) {
                    (Fixity::Immutable, _) => Some(own("Set$immutable")),
                    (_, Order::Hash) => Some(own("HashSet")),
                    (_, Order::Insertion) => Some(own("LinkedHashSet")),
                    (_, Order::Sorted) => Some(own("TreeSet")),
                },
                HostObj::Builder { buffer, .. } => {
                    if *buffer {
                        Some(own("StringBuffer"))
                    } else {
                        Some(own("StringBuilder"))
                    }
                },
                HostObj::Closure { .. } => None,
            }
        },
    }
}

/// `v instanceof target`: `null` is an instance of nothing, and everything else
/// is an `Object`.
pub open spec fn instance_of(h: HostV, v: Val, target: Seq<char>) -> bool {
    match class_of(h, v) {
        None => target == "Object"@ && v is Obj,
        Some(class) => target == "Object"@ || subclass(h.supers, class, target),
    }
}

/// `v instanceof target`.
pub fn is_instance_of(host: &Host, v: &Value, target: &str) -> (r: bool)
    ensures
        r == instance_of(host@, v@, target@),
{
    match value_class(host, v) {
        None => {
            let reference: bool = match v {
                Value::Obj(_) => true,
                _ => false,
            };
            same(target, "Object") && reference
        },
        Some(class) => same(target, "Object") || is_subclass_of(host, class.as_str(), target),
    }
}

/// `null` is an instance of nothing; a value is an instance of its class, and of
/// what that extends.
pub proof fn instances_follow_the_supertypes(h: HostV, v: Val, a: Seq<char>, b: Seq<char>)
    ensures
        !instance_of(h, Val::Undef, a),
        class_of(h, v) matches Some(c) ==> instance_of(h, v, c),
        instance_of(h, v, a) && a != "Object"@ && subclass(h.supers, a, b) ==> instance_of(
            h,
            v,
            b,
        ),
{
    if let Some(c) = class_of(h, v) {
        subclassing_is_a_preorder(h.supers, c, a, b);
        subclassing_is_a_preorder(h.supers, c, c, c);
    }
}

/// What a dispatch tests a lambda by.
pub open spec fn lambda_class() -> Seq<char> {
    "#lambda"@
}

/// The class a dispatch goes by: that of an instance, a mark for a lambda, and
/// nothing for the rest.
pub open spec fn dispatch_class(h: HostV, v: Val) -> Seq<char> {
    match v {
        Val::Obj(id) => match object(h, id as int) {
            Some(ObjV::Instance { class, .. }) => class,
            Some(ObjV::Closure { .. }) => lambda_class(),
            _ => ""@,
        },
        _ => ""@,
    }
}

/// The class a dispatch goes by.
pub fn classof(host: &Host, v: &Value) -> (r: String)
    ensures
        r@ == dispatch_class(host@, v@),
{
    match v {
        Value::Obj(id) => {
            let i: usize = *id as usize;
            if i >= host.heap.len() {
                return own("");
            }
            assert(host@.heap[i as int] == host.heap@[i as int]@);
            match &host.heap[i] {
                HostObj::Instance { class, .. } => own(class.as_str()),
                HostObj::Closure { .. } => own("#lambda"),
                _ => own(""),
            }
        },
        _ => own(""),
    }
}

/// How many elements a list or a set owns; `None` for anything else.
pub open spec fn owned_len(h: HostV, v: Val) -> Option<int> {
    match v {
        Val::Obj(id) => match object(h, id as int) {
            Some(ObjV::List { items, .. }) => Some(items.len() as int),
            Some(ObjV::SetObj { items, .. }) => Some(items.len() as int),
            _ => None,
        },
        _ => None,
    }
}

/// How many elements a list or a set owns; `None` for anything else.
pub fn sequence_len(host: &Host, v: &Value) -> (r: Option<usize>)
    ensures
        same_place(r, owned_len(host@, v@)),
{
    match v {
        Value::Obj(id) => {
            let i: usize = *id as usize;
            if i >= host.heap.len() {
                return None;
            }
            assert(host@.heap[i as int] == host.heap@[i as int]@);
            match &host.heap[i] {
                HostObj::List { items, .. } => Some(items.len()),
                HostObj::SetObj { items, .. } => Some(items.len()),
                _ => None,
            }
        },
        _ => None,
    }
}

/// Whether a factory's collection is of the class for one or two elements.
pub open spec fn is_pair(h: HostV, v: Val) -> bool {
    owned_len(h, v) == Some(1int) || owned_len(h, v) == Some(2int)
}

/// The binary name of a value's class; `None` where Java's depends on what the
/// model does not keep.
pub open spec fn binary_of(h: HostV, class: Seq<char>, v: Val) -> Option<Seq<char>> {
    if class == "[]"@ {
        None
    } else if class == "List$fixed"@ {
        Some("java.util.Arrays$ArrayList"@)
    } else if class == "List$immutable"@ {
        if is_pair(h, v) {
            Some("java.util.ImmutableCollections$List12"@)
        } else {
            Some("java.util.ImmutableCollections$ListN"@)
        }
    } else if class == "Set$immutable"@ {
        if is_pair(h, v) {
            Some("java.util.ImmutableCollections$Set12"@)
        } else {
            Some("java.util.ImmutableCollections$SetN"@)
        }
    } else if class == "List$sub"@ {
        match v {
            Val::Obj(id) => match fixity_of(h, id as int, (h.heap.len() + 1) as nat) {
                Some(Fixity::Mutable) => Some("java.util.ArrayList$SubList"@),
                Some(Fixity::FixedSize) => Some("java.util.AbstractList$RandomAccessSubList"@),
                Some(Fixity::Immutable) => Some("java.util.ImmutableCollections$SubList"@),
                None => None,
            },
            _ => None,
        }
    } else {
        Some(message_name(h, class))
    }
}

/// The binary name of a value's class. A view is named for the list at the root
/// of its chain.
pub fn binary_name(host: &Host, class: &str, v: &Value) -> (r: Option<String>)
    ensures
        opt_view(r) == binary_of(host@, class@, v@),
{
    let pair: bool = match sequence_len(host, v) {
        Some(n) => n == 1 || n == 2,
        None => false,
    };
    if same(class, "[]") {
        None
    } else if same(class, "List$fixed") {
        Some(own("java.util.Arrays$ArrayList"))
    } else if same(class, "List$immutable") {
        if pair {
            Some(own("java.util.ImmutableCollections$List12"))
        } else {
            Some(own("java.util.ImmutableCollections$ListN"))
        }
    } else if same(class, "Set$immutable") {
        if pair {
            Some(own("java.util.ImmutableCollections$Set12"))
        } else {
            Some(own("java.util.ImmutableCollections$SetN"))
        }
    } else if same(class, "List$sub") {
        match v {
            Value::Obj(id) => match sublist_root_fixity(host, *id) {
                Some(Fixity::Mutable) => Some(own("java.util.ArrayList$SubList")),
                Some(Fixity::FixedSize) => Some(own("java.util.AbstractList$RandomAccessSubList")),
                Some(Fixity::Immutable) => Some(own("java.util.ImmutableCollections$SubList")),
                None => None,
            },
            _ => None,
        }
    } else {
        Some(name_in_message(host, class))
    }
}

/// `getClass().getName()`: an array is named by its declared type, and what has
/// no name is empty.
pub open spec fn class_name_of(h: HostV, v: Val, array_type: Option<Seq<char>>) -> Seq<char> {
    match class_of(h, v) {
        None => ""@,
        Some(class) => if class == "[]"@ {
            match array_type {
                Some(ty) => match descriptor(h, ty) {
                    Some(d) => d,
                    None => ""@,
                },
                None => ""@,
            }
        } else if class == lambda_class() {
            class
        } else {
            match binary_of(h, class, v) {
                Some(n) => n,
                None => class,
            }
        },
    }
}

/// `getClass().getName()`.
pub fn binary_class(host: &Host, v: &Value, array_type: &Option<String>) -> (r: String)
    ensures
        r@ == class_name_of(host@, v@, opt_view(*array_type)),
{
    match value_class(host, v) {
        None => own(""),
        Some(class) => {
            if same(class.as_str(), "[]") {
                match array_type {
                    Some(ty) => match array_descriptor(host, ty.as_str()) {
                        Some(d) => d,
                        None => own(""),
                    },
                    None => own(""),
                }
            } else if same(class.as_str(), "#lambda") {
                class
            } else {
                match binary_name(host, class.as_str(), v) {
                    Some(n) => n,
                    None => class,
                }
            }
        },
    }
}

/// Whether a class is an integral wrapper.
pub open spec fn integral(class: Seq<char>) -> bool {
    class == "Integer"@ || class == "Long"@ || class == "Short"@ || class == "Byte"@
}

/// Whether a class is a floating wrapper.
pub open spec fn floating(class: Seq<char>) -> bool {
    class == "Double"@ || class == "Float"@
}

fn is_integral(class: &str) -> (r: bool)
    ensures
        r == integral(class@),
{
    same(class, "Integer") || same(class, "Long") || same(class, "Short") || same(class, "Byte")
}

fn is_floating(class: &str) -> (r: bool)
    ensures
        r == floating(class@),
{
    same(class, "Double") || same(class, "Float")
}

/// Whether a value of class `runtime` may be cast to `target`. Beyond the
/// supertypes, a cast between types that the model keeps alike is allowed: the
/// integral wrappers answer yes to each other, and so do the floating ones.
pub open spec fn casts_to(h: HostV, runtime: Seq<char>, target: Seq<char>, v: Val) -> bool {
    ||| target == "Object"@
    ||| runtime == target
    ||| subclass(h.supers, runtime, target)
    ||| integral(runtime) && integral(target)
    ||| floating(runtime) && floating(target)
    ||| runtime == "Integer"@ && target == "Character"@
    ||| runtime == "String"@ && target == "Character"@ && plain(v).len() == 1
    ||| runtime == "ArrayList"@ && target == "LinkedList"@
}

/// Whether a value of class `runtime` may be cast to `target`.
pub fn cast_allowed(host: &Host, runtime: &str, target: &str, v: &Value) -> (r: bool)
    ensures
        r == casts_to(host@, runtime@, target@, v@),
{
    if same(target, "Object") || same(runtime, target) || is_subclass_of(host, runtime, target) {
        return true;
    }
    if is_integral(runtime) && is_integral(target) {
        return true;
    }
    if is_floating(runtime) && is_floating(target) {
        return true;
    }
    if same(runtime, "Integer") && same(target, "Character") {
        return true;
    }
    if same(runtime, "String") && same(target, "Character") {
        let text: Vec<char> = chars_of(plain_text(v).as_str());
        if text.len() == 1 {
            return true;
        }
    }
    same(runtime, "ArrayList") && same(target, "LinkedList")
}

/// The check of a reference cast: `None` when it passes. `null`, a lambda, and a
/// class whose name the message could not state all pass.
pub open spec fn cast_fault(h: HostV, v: Val, target: Seq<char>) -> Option<FaultV> {
    match class_of(h, v) {
        None => None,
        Some(runtime) => if casts_to(h, runtime, target, v) {
            None
        } else {
            match binary_of(h, runtime, v) {
                None => None,
                Some(from) => Some(
                    java_fault("ClassCastException"@, cast_text(h, from, target)),
                ),
            }
        },
    }
}

/// The check of a reference cast.
pub fn checkcast(host: &Host, v: &Value, target: &str) -> (r: Result<(), Fault>)
    ensures
        match (r, cast_fault(host@, v@, target@)) {
            (Ok(_), None) => true,
            (Err(x), Some(y)) => x@ == y,
            _ => false,
        },
{
    let runtime: String = match value_class(host, v) {
        Some(c) => c,
        None => {
            return Ok(());
        },
    };
    if cast_allowed(host, runtime.as_str(), target, v) {
        return Ok(());
    }
    match binary_name(host, runtime.as_str(), v) {
        Some(from) => Err(
            Fault::java("ClassCastException", cast_message(host, from.as_str(), target)),
        ),
        None => Ok(()),
    }
}

/// A cast to a type a value is an instance of passes.
pub proof fn an_instance_passes_the_cast(h: HostV, v: Val, target: Seq<char>)
    requires
        instance_of(h, v, target),
    ensures
        cast_fault(h, v, target) is None,
{
}

} // verus!
