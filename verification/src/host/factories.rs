//! Where collections come from: constructors, and the statics of `Arrays`,
//! `List`, `Set` and `Collections`.
use vstd::prelude::*;

use crate::host::{Fixity, Host, HostObj, HostV, ObjV, Order, entry_views, heap_alloc};
use crate::host::collections::{
    elements, entries_of, frozen, is_frozen, map_entries, overwritten, sequence_items, settled,
    write_list,
};
use crate::host::lists::{copy_held, held, opt_vals, unsupported_change, unsupported_operation};
use crate::host::order::{natural, natural_order};
use crate::host::strings::AnswerV;
use crate::host::views::object;
use crate::text::{own, same};
use crate::value::{Fault, FaultV, Val, Value, copy_all, internal_fault, java_fault, outcome, vals};

verus! {

/// The kinds of collection a constructor can name.
#[derive(Clone, Copy, PartialEq, Eq, Structural)]
pub enum CollKind {
    Listed,
    Mapped(Order),
    Setlike(Order),
}

/// The kind of collection a class is, `None` for a class that is not one.
pub open spec fn kind_of(name: Seq<char>) -> Option<CollKind> {
    if name == "ArrayList"@ || name == "LinkedList"@ || name == "List"@ {
        Some(CollKind::Listed)
    } else if name == "HashMap"@ || name == "Map"@ {
        Some(CollKind::Mapped(Order::Hash))
    } else if name == "LinkedHashMap"@ {
        Some(CollKind::Mapped(Order::Insertion))
    } else if name == "TreeMap"@ {
        Some(CollKind::Mapped(Order::Sorted))
    } else if name == "HashSet"@ || name == "Set"@ {
        Some(CollKind::Setlike(Order::Hash))
    } else if name == "LinkedHashSet"@ {
        Some(CollKind::Setlike(Order::Insertion))
    } else if name == "TreeSet"@ {
        Some(CollKind::Setlike(Order::Sorted))
    } else {
        None
    }
}

/// The kind of collection a class is, `None` for a class that is not one.
pub fn coll_kind(name: &str) -> (r: Option<CollKind>)
    ensures
        r == kind_of(name@),
{
    if same(name, "ArrayList") || same(name, "LinkedList") || same(name, "List") {
        Some(CollKind::Listed)
    } else if same(name, "HashMap") || same(name, "Map") {
        Some(CollKind::Mapped(Order::Hash))
    } else if same(name, "LinkedHashMap") {
        Some(CollKind::Mapped(Order::Insertion))
    } else if same(name, "TreeMap") {
        Some(CollKind::Mapped(Order::Sorted))
    } else if same(name, "HashSet") || same(name, "Set") {
        Some(CollKind::Setlike(Order::Hash))
    } else if same(name, "LinkedHashSet") {
        Some(CollKind::Setlike(Order::Insertion))
    } else if same(name, "TreeSet") {
        Some(CollKind::Setlike(Order::Sorted))
    } else {
        None
    }
}

/// A new collection, seeded from another. A set holds `unique`, the seed's
/// elements without repeats.
pub open spec fn made(h: HostV, kind: Seq<char>, seed: Val, unique: Seq<Val>) -> Result<
    ObjV,
    FaultV,
> {
    match kind_of(kind) {
        Some(CollKind::Listed) => Ok(
            ObjV::List { items: held(elements(h, seed)), fixed: Fixity::Mutable, mods: 0 },
        ),
        Some(CollKind::Mapped(order)) => Ok(
            ObjV::MapObj {
                entries: match entries_of(h, seed) {
                    Some(e) => e,
                    None => seq![],
                },
                order,
            },
        ),
        Some(CollKind::Setlike(order)) => Ok(
            ObjV::SetObj { items: unique, order, fixed: Fixity::Mutable },
        ),
        None => Err(
            internal_fault("javars: `"@ + kind + "` is not a collection javars models"@),
        ),
    }
}

/// Make the collection `kind` names, seeded from `seed` where that is one.
/// `unique` is the seed's elements without repeats, which a set takes.
pub fn new_collection(host: &Host, kind: &str, seed: &Value, unique: Vec<Value>) -> (r: Result<
    HostObj,
    Fault,
>)
    ensures
        match (r, made(host@, kind@, seed@, vals(unique@))) {
            (Ok(x), Ok(y)) => x@ == y,
            (Err(x), Err(y)) => x@ == y,
            _ => false,
        },
{
    match coll_kind(kind) {
        Some(CollKind::Listed) => {
            let items: Option<Vec<Value>> = sequence_items(host, seed);
            Ok(HostObj::List { items: copy_held(&items), fixed: Fixity::Mutable, mods: 0 })
        },
        Some(CollKind::Mapped(order)) => {
            let entries: Vec<(Value, Value)> = match map_entries(host, seed) {
                Some(e) => e,
                None => {
                    let none: Vec<(Value, Value)> = Vec::new();
                    assert(entry_views(none@) =~= seq![]);
                    none
                },
            };
            Ok(HostObj::MapObj { entries, order })
        },
        Some(CollKind::Setlike(order)) => Ok(
            HostObj::SetObj { items: unique, order, fixed: Fixity::Mutable },
        ),
        None => {
            let mut m: String = own("javars: `");
            m.append(kind);
            m.append("` is not a collection javars models");
            Err(Fault::internal(m))
        },
    }
}

/// The elements of an array, `None` for anything else.
pub open spec fn array_of(h: HostV, v: Val) -> Option<Seq<Val>> {
    match v {
        Val::Obj(id) => match object(h, id as int) {
            Some(ObjV::Array(items)) => Some(items),
            _ => None,
        },
        _ => None,
    }
}

/// The elements of an array, `None` for anything else.
pub fn array_items(host: &Host, v: &Value) -> (r: Option<Vec<Value>>)
    ensures
        opt_vals(r) == array_of(host@, v@),
{
    match v {
        Value::Obj(id) => {
            let i: usize = *id as usize;
            if i >= host.heap.len() {
                return None;
            }
            assert(host@.heap[i as int] == host.heap@[i as int]@);
            match &host.heap[i] {
                HostObj::Array(items) => Some(copy_all(items)),
                _ => None,
            }
        },
        _ => None,
    }
}

/// The elements a method of variable arity receives: a single array is spread.
pub open spec fn spread(h: HostV, args: Seq<Val>) -> Seq<Val> {
    if args.len() == 1 {
        match array_of(h, args[0]) {
            Some(items) => items,
            None => args,
        }
    } else {
        args
    }
}

/// The elements a method of variable arity receives: a single array is spread,
/// a single list or set is not.
pub fn varargs_items(host: &Host, args: &Vec<Value>) -> (r: Vec<Value>)
    ensures
        vals(r@) == spread(host@, vals(args@)),
{
    if args.len() == 1 {
        assert(vals(args@)[0] == args@[0]@);
        match array_items(host, &args[0]) {
            Some(items) => items,
            None => copy_all(args),
        }
    } else {
        copy_all(args)
    }
}

/// The greatest of `best` and the elements from `i` on; of equal ones the last.
pub open spec fn greatest(h: HostV, items: Seq<Val>, i: int, best: Val) -> Val
    decreases items.len() - i,
{
    if i < 0 || i >= items.len() {
        best
    } else if natural(h, best, items[i]) > 0 {
        greatest(h, items, i + 1, best)
    } else {
        greatest(h, items, i + 1, items[i])
    }
}

/// The least of `best` and the elements from `i` on; of equal ones the first.
pub open spec fn least(h: HostV, items: Seq<Val>, i: int, best: Val) -> Val
    decreases items.len() - i,
{
    if i < 0 || i >= items.len() {
        best
    } else if natural(h, best, items[i]) > 0 {
        least(h, items, i + 1, items[i])
    } else {
        least(h, items, i + 1, best)
    }
}

fn extreme(host: &Host, items: &Vec<Value>, most: bool) -> (r: Option<Value>)
    ensures
        match r {
            None => items.len() == 0,
            Some(v) => items.len() > 0 && v@ == (if most {
                greatest(host@, vals(items@), 1, vals(items@)[0])
            } else {
                least(host@, vals(items@), 1, vals(items@)[0])
            }),
        },
{
    if items.len() == 0 {
        return None;
    }
    let ghost vs = vals(items@);
    let mut best: usize = 0;
    let mut i: usize = 1;
    while i < items.len()
        invariant
            best < items.len(),
            1 <= i <= items.len(),
            vs == vals(items@),
            most ==> greatest(host@, vs, 1, vs[0]) == greatest(
                host@,
                vs,
                i as int,
                vs[best as int],
            ),
            !most ==> least(host@, vs, 1, vs[0]) == least(host@, vs, i as int, vs[best as int]),
        decreases items.len() - i,
    {
        let above: bool = natural_order(host, &items[best], &items[i]) > 0;
        if above != most {
            best = i;
        }
        i += 1;
    }
    Some(items[best].copy())
}

/// How a static of the collections goes on.
pub enum StaticStep {
    Done(Value),
    /// These elements make a set, where none repeats another.
    Unique(Vec<Value>),
    /// `Objects.equals` of two values.
    Equals(Value, Value),
    /// These elements are to be sorted and written back.
    Sort { items: Vec<Value>, comparator: Value },
}

pub enum StaticStepV {
    Done(Val),
    Unique(Seq<Val>),
    Equals(Val, Val),
    Sort { items: Seq<Val>, comparator: Val },
}

impl View for StaticStep {
    type V = StaticStepV;

    open spec fn view(&self) -> StaticStepV {
        match self {
            StaticStep::Done(v) => StaticStepV::Done(v@),
            StaticStep::Unique(v) => StaticStepV::Unique(vals(v@)),
            StaticStep::Equals(a, b) => StaticStepV::Equals(a@, b@),
            StaticStep::Sort { items, comparator } => StaticStepV::Sort {
                items: vals(items@),
                comparator: comparator@,
            },
        }
    }
}

/// The host with a new object, and its handle.
pub open spec fn placed(h: HostV, o: ObjV) -> (HostV, Val) {
    settled(h, AnswerV::Alloc(o))
}

/// `class.method(args)` where it is a static of the collections; `None` where it
/// is not.
pub open spec fn static_begun(h: HostV, class: Seq<char>, method: Seq<char>, args: Seq<Val>) -> Option<
    (HostV, Result<StaticStepV, FaultV>),
> {
    if class == "Arrays"@ && method == "asList"@ {
        let (h2, v) = placed(
            h,
            ObjV::List { items: spread(h, args), fixed: Fixity::FixedSize, mods: 0 },
        );
        Some((h2, Ok(StaticStepV::Done(v))))
    } else if class == "List"@ && method == "of"@ {
        let (h2, v) = placed(
            h,
            ObjV::List { items: spread(h, args), fixed: Fixity::Immutable, mods: 0 },
        );
        Some((h2, Ok(StaticStepV::Done(v))))
    } else if class == "Set"@ && method == "of"@ {
        Some((h, Ok(StaticStepV::Unique(spread(h, args)))))
    } else if class == "Objects"@ && method == "equals"@ && args.len() == 2 {
        Some((h, Ok(StaticStepV::Equals(args[0], args[1]))))
    } else if class == "Collections"@ && method == "sort"@ && args.len() > 0 {
        match elements(h, args[0]) {
            None => Some((h, Err(internal_fault("javars: `Collections.sort` needs a List"@)))),
            Some(items) => if is_frozen(h, args[0]) {
                Some((h, Err(unsupported_operation())))
            } else {
                Some(
                    (
                        h,
                        Ok(
                            StaticStepV::Sort {
                                items,
                                comparator: if args.len() > 1 {
                                    args[1]
                                } else {
                                    Val::Undef
                                },
                            },
                        ),
                    ),
                )
            },
        }
    } else if class == "Collections"@ && method == "reverse"@ && args.len() == 1 {
        match args[0] {
            Val::Obj(id) => match overwritten(
                h,
                id as int,
                held(elements(h, args[0])).reverse(),
                true,
            ) {
                Ok(h2) => Some((h2, Ok(StaticStepV::Done(Val::Undef)))),
                Err(f) => Some((h, Err(f))),
            },
            _ => Some((h, Ok(StaticStepV::Done(Val::Undef)))),
        }
    } else if class == "Collections"@ && (method == "max"@ || method == "min"@) && args.len()
        == 1 {
        let items = held(elements(h, args[0]));
        if items.len() == 0 {
            Some((h, Err(java_fault("NoSuchElementException"@, seq![]))))
        } else if method == "max"@ {
            Some((h, Ok(StaticStepV::Done(greatest(h, items, 1, items[0])))))
        } else {
            Some((h, Ok(StaticStepV::Done(least(h, items, 1, items[0])))))
        }
    } else {
        None
    }
}

fn reversed(items: &Vec<Value>) -> (r: Vec<Value>)
    ensures
        vals(r@) == vals(items@).reverse(),
{
    let mut r: Vec<Value> = Vec::new();
    let mut i: usize = items.len();
    let ghost vs = vals(items@);
    while i > 0
        invariant
            i <= items.len(),
            vs == vals(items@),
            r.len() == items.len() - i,
            forall|k: int|
                0 <= k < r.len() ==> (#[trigger] r@[k])@ == vs[vs.len() - 1 - k],
        decreases i,
    {
        i -= 1;
        r.push(items[i].copy());
    }
    assert(vals(r@) =~= vs.reverse());
    r
}

/// Evaluate `class.method(args)` where it is a static of the collections, as far
/// as no code of the program has to run.
pub fn collection_static(host: &mut Host, class: &str, method: &str, args: &Vec<Value>) -> (r:
    Option<Result<StaticStep, Fault>>)
    ensures
        match (r, static_begun(old(host)@, class@, method@, vals(args@))) {
            (Some(x), Some((h, y))) => final(host)@ == h && match (x, y) {
                (Ok(a), Ok(b)) => a@ == b,
                (Err(a), Err(b)) => a@ == b,
                _ => false,
            },
            (None, None) => final(host)@ == old(host)@,
            _ => false,
        },
{
    let ghost vs = vals(args@);
    assert(forall|j: int| 0 <= j < args.len() ==> vs[j] == (#[trigger] args@[j])@);
    if same(class, "Arrays") && same(method, "asList") {
        let items: Vec<Value> = varargs_items(host, args);
        let list: HostObj = HostObj::List { items, fixed: Fixity::FixedSize, mods: 0 };
        Some(Ok(StaticStep::Done(Value::Obj(heap_alloc(host, list)))))
    } else if same(class, "List") && same(method, "of") {
        let items: Vec<Value> = varargs_items(host, args);
        let list: HostObj = HostObj::List { items, fixed: Fixity::Immutable, mods: 0 };
        Some(Ok(StaticStep::Done(Value::Obj(heap_alloc(host, list)))))
    } else if same(class, "Set") && same(method, "of") {
        Some(Ok(StaticStep::Unique(varargs_items(host, args))))
    } else if same(class, "Objects") && same(method, "equals") && args.len() == 2 {
        Some(Ok(StaticStep::Equals(args[0].copy(), args[1].copy())))
    } else if same(class, "Collections") && same(method, "sort") && args.len() > 0 {
        match sequence_items(host, &args[0]) {
            None => Some(Err(Fault::internal(own("javars: `Collections.sort` needs a List")))),
            Some(items) => {
                if frozen(host, &args[0]) {
                    return Some(Err(unsupported_change()));
                }
                let comparator: Value = if args.len() > 1 {
                    args[1].copy()
                } else {
                    Value::Undef
                };
                Some(Ok(StaticStep::Sort { items, comparator }))
            },
        }
    } else if same(class, "Collections") && same(method, "reverse") && args.len() == 1 {
        let found: Option<Vec<Value>> = sequence_items(host, &args[0]);
        let items: Vec<Value> = reversed(&copy_held(&found));
        match write_list(host, &args[0], items) {
            Ok(_) => Some(Ok(StaticStep::Done(Value::Undef))),
            Err(f) => Some(Err(f)),
        }
    } else if same(class, "Collections") && (same(method, "max") || same(method, "min"))
        && args.len() == 1 {
        let found: Option<Vec<Value>> = sequence_items(host, &args[0]);
        let items: Vec<Value> = copy_held(&found);
        assert(vals(items@).len() == items.len());
        match extreme(host, &items, same(method, "max")) {
            Some(v) => Some(Ok(StaticStep::Done(v))),
            None => Some(Err(Fault::java("NoSuchElementException", String::new()))),
        }
    } else {
        None
    }
}

/// `Set.of`: an immutable set, or the fault that names the first repeat.
pub open spec fn set_from(unique: Seq<Val>, given: int, repeat: Seq<char>) -> Result<ObjV, FaultV> {
    if unique.len() != given {
        Err(java_fault("IllegalArgumentException"@, "duplicate element: "@ + repeat))
    } else {
        Ok(ObjV::SetObj { items: unique, order: Order::Hash, fixed: Fixity::Immutable })
    }
}

/// `Set.of` refuses a repeat: `unique` is what is left of `given` elements
/// without repeats, `repeat` the rendering of the first one.
pub fn set_of(unique: Vec<Value>, given: usize, repeat: &str) -> (r: Result<HostObj, Fault>)
    ensures
        match (r, set_from(vals(unique@), given as int, repeat@)) {
            (Ok(x), Ok(y)) => x@ == y,
            (Err(x), Err(y)) => x@ == y,
            _ => false,
        },
{
    assert(vals(unique@).len() == unique.len());
    if unique.len() != given {
        let mut m: String = own("duplicate element: ");
        m.append(repeat);
        return Err(Fault::java("IllegalArgumentException", m));
    }
    Ok(HostObj::SetObj { items: unique, order: Order::Hash, fixed: Fixity::Immutable })
}

/// What an enhanced `for` runs over: an array is itself, a collection a new
/// array of its elements.
pub open spec fn iterable(h: HostV, v: Val) -> (HostV, Result<Val, FaultV>) {
    if array_of(h, v) is Some {
        (h, Ok(v))
    } else {
        match elements(h, v) {
            Some(items) => {
                let (h2, r) = placed(h, ObjV::Array(items));
                (h2, Ok(r))
            },
            None => if v == Val::Undef {
                (
                    h,
                    Err(
                        java_fault(
                            "NullPointerException"@,
                            "Cannot iterate over a null reference"@,
                        ),
                    ),
                )
            } else {
                (
                    h,
                    Err(
                        internal_fault(
                            "javars: the enhanced `for` needs an array or a collection"@,
                        ),
                    ),
                )
            },
        }
    }
}

/// The array an enhanced `for` runs over.
pub fn iter_array(host: &mut Host, it: Value) -> (r: Result<Value, Fault>)
    ensures
        (final(host)@, outcome(r)) == iterable(old(host)@, it@),
{
    if array_items(host, &it).is_some() {
        return Ok(it);
    }
    match sequence_items(host, &it) {
        Some(items) => Ok(Value::Obj(heap_alloc(host, HostObj::Array(items)))),
        None => {
            if it.is_undef() {
                Err(
                    Fault::java(
                        "NullPointerException",
                        own("Cannot iterate over a null reference"),
                    ),
                )
            } else {
                Err(
                    Fault::internal(
                        own("javars: the enhanced `for` needs an array or a collection"),
                    ),
                )
            }
        },
    }
}

} // verus!
