//! The runtime: the object heap, the rules of the Java library, and the faults
//! they raise.
//!
//! Everything a running program can see is in one [`Host`]; a builtin takes the
//! host and its operands and answers with a value, a changed host, or both.
use vstd::prelude::*;

pub mod boxes;
pub mod builder;
pub mod characters;
pub mod classes;
pub mod collections;
pub mod decimal;
pub mod dispatch;
pub mod equality;
pub mod factories;
pub mod format;
pub mod formatting;
pub mod index;
pub mod keeping;
pub mod library;
pub mod lists;
pub mod lookups;
pub mod maps;
pub mod maths;
pub mod members;
pub mod objects;
pub mod operators;
pub mod order;
pub mod output;
pub mod render;
pub mod shapes;
pub mod sorting;
pub mod statics;
pub mod strings;
pub mod texts;
pub mod types;
pub mod views;
pub mod workings;

use crate::prelude::{opt_view, qualified_throwable, throwable_name};
use crate::text::{own, views};
use crate::value::{Fault, FaultV, Val, Value, vals};

verus! {

/// What order a collection iterates in.
#[derive(Clone, Copy, PartialEq, Eq, Structural)]
pub enum Order {
    /// `HashMap` and `HashSet`: the order of the buckets.
    Hash,
    /// `LinkedHashMap` and `LinkedHashSet`: the order of insertion.
    Insertion,
    /// `TreeMap` and `TreeSet`: ascending natural order.
    Sorted,
}

/// Which changes a collection accepts.
#[derive(Clone, Copy, PartialEq, Eq, Structural)]
pub enum Fixity {
    Mutable,
    /// `Arrays.asList`: elements may be replaced, the length may not change.
    FixedSize,
    /// `List.of` and `Set.of`: nothing may change.
    Immutable,
}

/// One object on the heap.
pub enum HostObj {
    Array(Vec<Value>),
    /// A class instance: its class and its fields, each name once.
    Instance { class: String, fields: Vec<(String, Value)> },
    /// A lambda: the name index of its body, its parameter count, and the
    /// enclosing locals it captured.
    Closure { name_idx: u16, params: u8, captures: Vec<Value> },
    /// A list that owns its elements. `mods` counts structural changes.
    List { items: Vec<Value>, fixed: Fixity, mods: u64 },
    /// A `subList` view: the window `[offset, offset + len)` of `parent`, which
    /// is a list or another view. `exp_mods` is the backing list's count when
    /// the view was last in step with it.
    SubList { parent: u32, offset: usize, len: usize, exp_mods: u64 },
    /// A map, its entries in insertion order whatever `order` presents.
    MapObj { entries: Vec<(Value, Value)>, order: Order },
    /// A set, stored like a map's keys.
    SetObj { items: Vec<Value>, order: Order, fixed: Fixity },
    /// A `StringBuilder`, or a `StringBuffer` when `buffer` is set. `cap` is the
    /// observable capacity.
    Builder { s: Vec<char>, cap: u64, buffer: bool },
    /// A boxed primitive, whose payload is in the table of boxes.
    Boxed,
}

/// What a [`HostObj`] stands for.
pub enum ObjV {
    Array(Seq<Val>),
    Instance { class: Seq<char>, fields: Seq<(Seq<char>, Val)> },
    Closure { name_idx: u16, params: u8, captures: Seq<Val> },
    List { items: Seq<Val>, fixed: Fixity, mods: u64 },
    SubList { parent: u32, offset: int, len: int, exp_mods: u64 },
    MapObj { entries: Seq<(Val, Val)>, order: Order },
    SetObj { items: Seq<Val>, order: Order, fixed: Fixity },
    Builder { s: Seq<char>, cap: int, buffer: bool },
    Boxed,
}

/// What named values stand for.
pub open spec fn field_views(s: Seq<(String, Value)>) -> Seq<(Seq<char>, Val)> {
    Seq::new(s.len(), |i: int| (s[i].0@, s[i].1@))
}

/// What pairs of values stand for.
pub open spec fn entry_views(s: Seq<(Value, Value)>) -> Seq<(Val, Val)> {
    Seq::new(s.len(), |i: int| (s[i].0@, s[i].1@))
}

impl View for HostObj {
    type V = ObjV;

    open spec fn view(&self) -> ObjV {
        match self {
            HostObj::Array(items) => ObjV::Array(vals(items@)),
            HostObj::Instance { class, fields } => ObjV::Instance {
                class: class@,
                fields: field_views(fields@),
            },
            HostObj::Closure { name_idx, params, captures } => ObjV::Closure {
                name_idx: *name_idx,
                params: *params,
                captures: vals(captures@),
            },
            HostObj::List { items, fixed, mods } => ObjV::List {
                items: vals(items@),
                fixed: *fixed,
                mods: *mods,
            },
            HostObj::SubList { parent, offset, len, exp_mods } => ObjV::SubList {
                parent: *parent,
                offset: *offset as int,
                len: *len as int,
                exp_mods: *exp_mods,
            },
            HostObj::MapObj { entries, order } => ObjV::MapObj {
                entries: entry_views(entries@),
                order: *order,
            },
            HostObj::SetObj { items, order, fixed } => ObjV::SetObj {
                items: vals(items@),
                order: *order,
                fixed: *fixed,
            },
            HostObj::Builder { s, cap, buffer } => ObjV::Builder {
                s: s@,
                cap: *cap as int,
                buffer: *buffer,
            },
            HostObj::Boxed => ObjV::Boxed,
        }
    }
}

/// What a sequence of objects stands for.
pub open spec fn objs(s: Seq<HostObj>) -> Seq<ObjV> {
    Seq::new(s.len(), |i: int| s[i]@)
}

/// A type and its direct supertypes.
pub type Row = (Seq<char>, Seq<Seq<char>>);

/// What a table of supertypes stands for.
pub open spec fn row_views(s: Seq<(String, Vec<String>)>) -> Seq<Row> {
    Seq::new(s.len(), |i: int| (s[i].0@, views(s[i].1@)))
}

/// What a table of renamings stands for.
pub open spec fn rename_views(s: Seq<(String, String)>) -> Seq<(Seq<char>, Seq<char>)> {
    Seq::new(s.len(), |i: int| (s[i].0@, s[i].1@))
}

/// What a table of boxes stands for: the index of the wrapper class and the
/// primitive inside.
pub open spec fn box_views(s: Seq<Option<(usize, Value)>>) -> Seq<Option<(int, Val)>> {
    Seq::new(
        s.len(),
        |i: int|
            match s[i] {
                Some(b) => Some((b.0 as int, b.1@)),
                None => None,
            },
    )
}

/// The state of a running program.
pub struct Host {
    /// The object heap; a handle is an index into it.
    pub heap: Vec<HostObj>,
    /// The payload of every boxed primitive, by handle.
    pub boxes: Vec<Option<(usize, Value)>>,
    /// The boxes that are shared: wrapper class, value, handle.
    pub box_cache: Vec<(usize, i64, u32)>,
    /// The program's types with their direct supertypes.
    pub supers: Vec<(String, Vec<String>)>,
    /// The binary names of nested types.
    pub binary: Vec<(String, String)>,
    /// The exception in flight.
    pub pending: Option<Value>,
    /// Whether the program carries the checks that observe `pending`.
    pub exceptions: bool,
    pub argv: Vec<String>,
    /// The message a run that must stop ends with.
    pub ffi_error: Option<String>,
}

/// What a [`Host`] stands for.
pub struct HostV {
    pub heap: Seq<ObjV>,
    pub boxes: Seq<Option<(int, Val)>>,
    pub box_cache: Seq<(usize, i64, u32)>,
    pub supers: Seq<Row>,
    pub binary: Seq<(Seq<char>, Seq<char>)>,
    pub pending: Option<Val>,
    pub exceptions: bool,
    pub argv: Seq<Seq<char>>,
    pub ffi_error: Option<Seq<char>>,
}

/// The view of an optional value.
pub open spec fn opt_val(v: Option<Value>) -> Option<Val> {
    match v {
        Some(x) => Some(x@),
        None => None,
    }
}

impl View for Host {
    type V = HostV;

    open spec fn view(&self) -> HostV {
        HostV {
            heap: objs(self.heap@),
            boxes: box_views(self.boxes@),
            box_cache: self.box_cache@,
            supers: row_views(self.supers@),
            binary: rename_views(self.binary@),
            pending: opt_val(self.pending),
            exceptions: self.exceptions,
            argv: views(self.argv@),
            ffi_error: opt_view(self.ffi_error),
        }
    }
}

/// The state before a program runs.
pub open spec fn fresh() -> HostV {
    HostV {
        heap: seq![],
        boxes: seq![],
        box_cache: seq![],
        supers: seq![],
        binary: seq![],
        pending: None,
        exceptions: false,
        argv: seq![],
        ffi_error: None,
    }
}

impl Host {
    /// The state before a program runs.
    pub fn new() -> (r: Host)
        ensures
            r@ == fresh(),
    {
        let r: Host = Host {
            heap: Vec::new(),
            boxes: Vec::new(),
            box_cache: Vec::new(),
            supers: Vec::new(),
            binary: Vec::new(),
            pending: None,
            exceptions: false,
            argv: Vec::new(),
            ffi_error: None,
        };
        proof {
            assert(r@.heap =~= seq![]);
            assert(r@.boxes =~= seq![]);
            assert(r@.supers =~= seq![]);
            assert(r@.binary =~= seq![]);
            assert(r@.argv =~= seq![]);
        }
        r
    }
}

/// Install the program arguments `main` will see.
pub fn set_argv(host: &mut Host, argv: Vec<String>)
    ensures
        final(host)@ == (HostV { argv: views(argv@), ..old(host)@ }),
{
    host.argv = argv;
}

/// Forget everything of the program that ran before, but for a message that is
/// still to be taken.
pub fn heap_reset(host: &mut Host)
    ensures
        final(host)@ == (HostV { ffi_error: old(host)@.ffi_error, ..fresh() }),
{
    let blank: Host = Host::new();
    let mut old_message: Option<String> = None;
    std::mem::swap(&mut old_message, &mut host.ffi_error);
    *host = blank;
    host.ffi_error = old_message;
}

/// Say whether the program carries the exception checks: a fault then becomes
/// an exception it can catch, and ends the run otherwise.
pub fn set_exceptions_enabled(host: &mut Host, on: bool)
    ensures
        final(host)@ == (HostV { exceptions: on, ..old(host)@ }),
{
    host.exceptions = on;
}

/// Install the direct supertypes of the program's types. Of two rows for one
/// type the later counts.
pub fn set_supertypes(host: &mut Host, map: Vec<(String, Vec<String>)>)
    ensures
        final(host)@ == (HostV { supers: row_views(map@), ..old(host)@ }),
{
    host.supers = map;
}

/// Install the binary names of the program's types. Of two rows for one type
/// the later counts.
pub fn set_binary_names(host: &mut Host, map: Vec<(String, String)>)
    ensures
        final(host)@ == (HostV { binary: rename_views(map@), ..old(host)@ }),
{
    host.binary = map;
}

/// Take the message a run ends with, if there is one, leaving none.
pub fn take_ffi_error(host: &mut Host) -> (r: Option<String>)
    ensures
        opt_view(r) == old(host)@.ffi_error,
        final(host)@ == (HostV { ffi_error: None, ..old(host)@ }),
{
    let mut r: Option<String> = None;
    std::mem::swap(&mut r, &mut host.ffi_error);
    r
}

/// End the run with `msg`.
pub fn ffi_fault(host: &mut Host, msg: String)
    ensures
        final(host)@ == (HostV { ffi_error: Some(msg@), ..old(host)@ }),
{
    host.ffi_error = Some(msg);
}

/// Put `obj` on the heap and give its handle.
pub fn heap_alloc(host: &mut Host, obj: HostObj) -> (r: u32)
    ensures
        r == old(host)@.heap.len() as u32,
        final(host)@ == (HostV { heap: old(host)@.heap.push(obj@), ..old(host)@ }),
{
    let id: u32 = host.heap.len() as u32;
    host.heap.push(obj);
    assert(host@.heap =~= old(host)@.heap.push(obj@));
    id
}

// ── Raising ─────────────────────────────────────────────────────────────────

/// The line an uncaught exception is reported by.
pub open spec fn uncaught(name: Seq<char>, msg: Seq<char>) -> Seq<char> {
    if msg.len() == 0 {
        "Exception in thread \"main\" "@ + name
    } else {
        "Exception in thread \"main\" "@ + name + ": "@ + msg
    }
}

/// The fields of an exception raised with `msg`: an absent message is `null`.
pub open spec fn exception_fields(msg: Seq<char>) -> Seq<(Seq<char>, Val)> {
    seq![
        (
            "detailMessage"@,
            if msg.len() == 0 {
                Val::Undef
            } else {
                Val::Str(msg)
            },
        ),
    ]
}

/// The host after a builtin raised `f`: an internal error, and any fault of a
/// program without exception checks, ends the run; otherwise a new exception
/// of the fault's class is in flight.
pub open spec fn raised(h: HostV, f: FaultV) -> HostV {
    if f.class.len() == 0 {
        HostV { ffi_error: Some(f.msg), ..h }
    } else if !h.exceptions {
        HostV {
            ffi_error: Some(
                uncaught(
                    match throwable_name(f.class) {
                        Some(q) => q,
                        None => f.class,
                    },
                    f.msg,
                ),
            ),
            ..h
        }
    } else {
        HostV {
            heap: h.heap.push(
                ObjV::Instance { class: f.class, fields: exception_fields(f.msg) },
            ),
            pending: Some(Val::Obj(h.heap.len() as u32)),
            ..h
        }
    }
}

/// Raise `f` from a builtin.
pub fn raise(host: &mut Host, f: Fault)
    ensures
        final(host)@ == raised(old(host)@, f@),
{
    if f.class.as_str().is_empty() {
        ffi_fault(host, f.msg);
        return ;
    }
    if !host.exceptions {
        let name: String = match qualified_throwable(f.class.as_str()) {
            Some(q) => q,
            None => own(f.class.as_str()),
        };
        let mut line: String = own("Exception in thread \"main\" ");
        line.append(name.as_str());
        if !f.msg.as_str().is_empty() {
            line.append(": ");
            line.append(f.msg.as_str());
        }
        ffi_fault(host, line);
        return ;
    }
    let msg: Value = if f.msg.as_str().is_empty() {
        Value::Undef
    } else {
        Value::Str(own(f.msg.as_str()))
    };
    let mut fields: Vec<(String, Value)> = Vec::new();
    fields.push((own("detailMessage"), msg));
    assert(field_views(fields@) =~= exception_fields(f.msg@));
    let id: u32 = heap_alloc(host, HostObj::Instance { class: f.class, fields });
    host.pending = Some(Value::Obj(id));
}

/// A fault never goes unseen: after it either the run has a message to end
/// with, or an exception of the fault's class is in flight.
pub proof fn a_fault_is_observed(h: HostV, f: FaultV)
    requires
        h.heap.len() < u32::MAX,
    ensures
        ({
            let after = raised(h, f);
            after.ffi_error is Some || (after.pending matches Some(Val::Obj(id))
                && id < after.heap.len() && (after.heap[id as int] matches ObjV::Instance {
                class,
                ..
            } && class == f.class))
        }),
{
}

} // verus!
