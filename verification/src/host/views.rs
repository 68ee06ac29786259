//! `List.subList` views.
//!
//! A view owns no elements: it is a window of a list or of another view, and
//! every read goes to the list at the root of the chain. A view remembers the
//! root's count of structural changes and refuses to work once it has moved.
use vstd::prelude::*;

use crate::host::{Fixity, Host, HostObj, HostV, ObjV, heap_alloc};
use crate::text::{dec, int_text, own};
use crate::value::{Fault, FaultV, Val, Value, copy_range, internal_fault, java_fault, vals};

verus! {

/// The object behind a handle.
pub open spec fn object(h: HostV, id: int) -> Option<ObjV> {
    if 0 <= id < h.heap.len() {
        Some(h.heap[id])
    } else {
        None
    }
}

/// Whether a handle is a view.
pub open spec fn is_view(h: HostV, id: int) -> bool {
    object(h, id) matches Some(ObjV::SubList { .. })
}

/// Whether a handle is a view.
pub fn is_sublist(host: &Host, id: usize) -> (r: bool)
    ensures
        r == is_view(host@, id as int),
{
    if id < host.heap.len() {
        assert(host@.heap[id as int] == host.heap@[id as int]@);
        match &host.heap[id] {
            HostObj::SubList { .. } => true,
            _ => false,
        }
    } else {
        false
    }
}

/// The list at the root of a chain of views and the offset into it, looked for
/// through at most `steps` objects.
pub open spec fn root_of(h: HostV, id: int, offset: int, steps: nat) -> Option<(int, int)>
    decreases steps,
{
    if steps == 0 {
        None
    } else {
        match object(h, id) {
            Some(ObjV::SubList { parent, offset: o, .. }) => root_of(
                h,
                parent as int,
                offset + o,
                (steps - 1) as nat,
            ),
            Some(ObjV::List { .. }) => Some((id, offset)),
            _ => None,
        }
    }
}

/// A view resolved against the list at its root: the list's handle, where the
/// window begins in it, and how long it is.
pub open spec fn window(h: HostV, id: int) -> Option<(int, int, int)> {
    match object(h, id) {
        Some(ObjV::SubList { len, .. }) => match root_of(h, id, 0, (h.heap.len() + 1) as nat) {
            Some((root, offset)) => Some((root, offset, len)),
            None => None,
        },
        _ => None,
    }
}

/// A view resolved against the list at its root. A chain can be no longer than
/// the heap.
pub fn resolve_window(host: &Host, id: usize) -> (r: Option<(usize, u128, usize)>)
    ensures
        match (r, window(host@, id as int)) {
            (Some(x), Some(y)) => x.0 == y.0 && x.1 == y.1 && x.2 == y.2,
            (None, None) => true,
            _ => false,
        },
{
    if id >= host.heap.len() {
        return None;
    }
    assert(host@.heap[id as int] == host.heap@[id as int]@);
    let len: usize = match &host.heap[id] {
        HostObj::SubList { len, .. } => *len,
        _ => {
            return None;
        },
    };
    let n: usize = host.heap.len();
    let mut offset: u128 = 0;
    let mut cur: usize = id;
    let mut left: usize = n;
    loop
        invariant
            n == host.heap.len(),
            left <= n,
            offset <= (n - left) * 0xffff_ffff_ffff_ffff,
            window(host@, id as int) == (match root_of(
                host@,
                cur as int,
                offset as int,
                (left + 1) as nat,
            ) {
                Some((root, o)) => Some((root, o, len as int)),
                None => None,
            }),
        decreases left,
    {
        if cur >= n {
            return None;
        }
        assert(host@.heap[cur as int] == host.heap@[cur as int]@);
        match &host.heap[cur] {
            HostObj::SubList { parent, offset: o, .. } => {
                if left == 0 {
                    assert(root_of(host@, *parent as int, offset + *o, 0) is None);
                    return None;
                }
                assert((n - left + 1) * 0xffff_ffff_ffff_ffff <= n * 0xffff_ffff_ffff_ffff)
                    by (nonlinear_arith)
                    requires
                        left >= 1,
                ;
                assert((n - left + 1) * 0xffff_ffff_ffff_ffff == (n - left)
                    * 0xffff_ffff_ffff_ffff + 0xffff_ffff_ffff_ffff) by (nonlinear_arith);
                assert(n * 0xffff_ffff_ffff_ffff <= 0xffff_ffff_ffff_ffff
                    * 0xffff_ffff_ffff_ffff) by (nonlinear_arith)
                    requires
                        n <= 0xffff_ffff_ffff_ffff,
                ;
                offset = offset + *o as u128;
                cur = *parent as usize;
                left = left - 1;
            },
            HostObj::List { .. } => {
                return Some((cur, offset, len));
            },
            _ => {
                return None;
            },
        }
    }
}

/// A list's count of structural changes.
pub open spec fn mods_of(h: HostV, id: int) -> Option<u64> {
    match object(h, id) {
        Some(ObjV::List { mods, .. }) => Some(mods),
        _ => None,
    }
}

/// A list's count of structural changes, `None` for anything else.
pub fn list_mods(host: &Host, id: usize) -> (r: Option<u64>)
    ensures
        r == mods_of(host@, id as int),
{
    if id < host.heap.len() {
        assert(host@.heap[id as int] == host.heap@[id as int]@);
        match &host.heap[id] {
            HostObj::List { mods, .. } => Some(*mods),
            _ => None,
        }
    } else {
        None
    }
}

/// `ConcurrentModificationException`, which carries no message.
pub open spec fn comodified() -> FaultV {
    java_fault("ConcurrentModificationException"@, seq![])
}

pub fn comodification() -> (r: Fault)
    ensures
        r@ == comodified(),
{
    Fault::java("ConcurrentModificationException", String::new())
}

/// A view's window, once the view is in step with its list.
pub open spec fn sound_window(h: HostV, id: int) -> Result<(int, int, int), FaultV> {
    match window(h, id) {
        None => Err(internal_fault("javars: dangling subList view"@)),
        Some((root, offset, len)) => {
            let exp = match object(h, id) {
                Some(ObjV::SubList { exp_mods, .. }) => Some(exp_mods),
                _ => None,
            };
            if exp != mods_of(h, root) {
                Err(comodified())
            } else {
                Ok((root, offset, len))
            }
        },
    }
}

/// Check a view against its list and give its window.
pub fn checked_window(host: &Host, id: usize) -> (r: Result<(usize, u128, usize), Fault>)
    ensures
        match (r, sound_window(host@, id as int)) {
            (Ok(x), Ok(y)) => x.0 == y.0 && x.1 == y.1 && x.2 == y.2,
            (Err(f), Err(g)) => f@ == g,
            _ => false,
        },
{
    match resolve_window(host, id) {
        None => Err(Fault::internal(own("javars: dangling subList view"))),
        Some((root, offset, len)) => {
            let exp: Option<u64> = if id < host.heap.len() {
                assert(host@.heap[id as int] == host.heap@[id as int]@);
                match &host.heap[id] {
                    HostObj::SubList { exp_mods, .. } => Some(*exp_mods),
                    _ => None,
                }
            } else {
                None
            };
            let got: Option<u64> = list_mods(host, root);
            let stale: bool = match (exp, got) {
                (Some(a), Some(b)) => a != b,
                (None, None) => false,
                _ => true,
            };
            if stale {
                Err(comodification())
            } else {
                Ok((root, offset, len))
            }
        },
    }
}

/// The items of a list.
pub open spec fn list_items(h: HostV, id: int) -> Option<Seq<Val>> {
    match object(h, id) {
        Some(ObjV::List { items, .. }) => Some(items),
        _ => None,
    }
}

/// What a view presents: its window of the root's items, or the fault of a view
/// that is out of step.
pub open spec fn view_items(h: HostV, id: int) -> Result<Seq<Val>, FaultV> {
    match sound_window(h, id) {
        Err(f) => Err(f),
        Ok((root, offset, len)) => match list_items(h, root) {
            Some(items) if offset + len <= items.len() => Ok(items.subrange(offset, offset + len)),
            _ => Err(internal_fault("javars: dangling subList backing"@)),
        },
    }
}

/// The elements a view presents, or the fault of a view out of step. `None`
/// when the handle is not a view.
pub fn sublist_items(host: &Host, id: usize) -> (r: Option<Result<Vec<Value>, Fault>>)
    ensures
        r is Some == is_view(host@, id as int),
        match r {
            Some(Ok(v)) => view_items(host@, id as int) == Ok::<Seq<Val>, FaultV>(vals(v@)),
            Some(Err(f)) => view_items(host@, id as int) == Err::<Seq<Val>, FaultV>(f@),
            None => true,
        },
{
    if !is_sublist(host, id) {
        return None;
    }
    match checked_window(host, id) {
        Err(f) => Some(Err(f)),
        Ok((root, offset, len)) => {
            if root < host.heap.len() {
                assert(host@.heap[root as int] == host.heap@[root as int]@);
                match &host.heap[root] {
                    HostObj::List { items, .. } => {
                        if offset <= items.len() as u128 && len <= items.len()
                            - offset as usize {
                            let from: usize = offset as usize;
                            return Some(Ok(copy_range(items, from, from + len)));
                        }
                    },
                    _ => {},
                }
            }
            Some(Err(Fault::internal(own("javars: dangling subList backing"))))
        },
    }
}

/// The fault a value would raise if it were iterated: there is one only for a
/// view out of step with its list.
pub open spec fn staleness(h: HostV, v: Val) -> Option<FaultV> {
    match v {
        Val::Obj(id) => if is_view(h, id as int) {
            match view_items(h, id as int) {
                Err(f) => Some(f),
                Ok(_) => None,
            }
        } else {
            None
        },
        _ => None,
    }
}

/// The fault a value would raise if it were iterated.
pub fn stale_view(host: &Host, v: &Value) -> (r: Option<Fault>)
    ensures
        match r {
            Some(f) => staleness(host@, v@) == Some(f@),
            None => staleness(host@, v@) is None,
        },
{
    match v {
        Value::Obj(id) => match sublist_items(host, *id as usize) {
            Some(Err(f)) => Some(f),
            _ => None,
        },
        _ => None,
    }
}

/// Where a `subList` is taken from: the root list and the size of what the
/// bounds are checked against.
pub open spec fn sublist_base(h: HostV, id: int) -> Result<(int, int), FaultV> {
    if is_view(h, id) {
        match sound_window(h, id) {
            Ok((root, _, len)) => Ok((root, len)),
            Err(f) => Err(f),
        }
    } else {
        match list_items(h, id) {
            Some(items) => Ok((id, items.len() as int)),
            None => Err(internal_fault("javars: `subList` needs a List receiver"@)),
        }
    }
}

/// The view `list.subList(from, to)` makes, or its fault: an endpoint out of
/// range names the index, and a reversed range is another exception.
pub open spec fn new_view(h: HostV, id: int, from: int, to: int) -> Result<ObjV, FaultV> {
    match sublist_base(h, id) {
        Err(f) => Err(f),
        Ok((root, size)) => if from < 0 {
            Err(java_fault("IndexOutOfBoundsException"@, "fromIndex = "@ + dec(from)))
        } else if to > size {
            Err(java_fault("IndexOutOfBoundsException"@, "toIndex = "@ + dec(to)))
        } else if from > to {
            Err(
                java_fault(
                    "IllegalArgumentException"@,
                    "fromIndex("@ + dec(from) + ") > toIndex("@ + dec(to) + ")"@,
                ),
            )
        } else {
            Ok(
                ObjV::SubList {
                    parent: id as u32,
                    offset: from,
                    len: to - from,
                    exp_mods: match mods_of(h, root) {
                        Some(m) => m,
                        None => 0,
                    },
                },
            )
        },
    }
}

/// `list.subList(from, to)` on a list or on another view.
pub fn make_sublist(host: &mut Host, id: usize, from: i64, to: i64) -> (r: Result<Value, Fault>)
    ensures
        match new_view(old(host)@, id as int, from as int, to as int) {
            Ok(view) => r matches Ok(v) && v@ == Val::Obj(old(host)@.heap.len() as u32)
                && final(host)@ == (HostV {
                heap: old(host)@.heap.push(view),
                ..old(host)@
            }),
            Err(f) => r matches Err(g) && g@ == f && final(host)@ == old(host)@,
        },
{
    let root: usize;
    let size: usize;
    if is_sublist(host, id) {
        match checked_window(host, id) {
            Err(f) => {
                return Err(f);
            },
            Ok((r, _, len)) => {
                root = r;
                size = len;
            },
        }
    } else {
        if id >= host.heap.len() {
            return Err(Fault::internal(own("javars: `subList` needs a List receiver")));
        }
        assert(host@.heap[id as int] == host.heap@[id as int]@);
        match &host.heap[id] {
            HostObj::List { items, .. } => {
                root = id;
                size = items.len();
            },
            _ => {
                return Err(Fault::internal(own("javars: `subList` needs a List receiver")));
            },
        }
    }
    if from < 0 {
        let mut m: String = own("fromIndex = ");
        m.append(int_text(from).as_str());
        return Err(Fault::java("IndexOutOfBoundsException", m));
    }
    if to as i128 > size as i128 {
        let mut m: String = own("toIndex = ");
        m.append(int_text(to).as_str());
        return Err(Fault::java("IndexOutOfBoundsException", m));
    }
    if from > to {
        let mut m: String = own("fromIndex(");
        m.append(int_text(from).as_str());
        m.append(") > toIndex(");
        m.append(int_text(to).as_str());
        m.append(")");
        return Err(Fault::java("IllegalArgumentException", m));
    }
    let exp_mods: u64 = match list_mods(host, root) {
        Some(m) => m,
        None => 0,
    };
    let view: HostObj = HostObj::SubList {
        parent: id as u32,
        offset: from as usize,
        len: (to - from) as usize,
        exp_mods,
    };
    Ok(Value::Obj(heap_alloc(host, view)))
}

/// How far up a chain of views the list at its root is allowed.
pub open spec fn fixity_of(h: HostV, id: int, steps: nat) -> Option<Fixity>
    decreases steps,
{
    if steps == 0 {
        None
    } else {
        match object(h, id) {
            Some(ObjV::SubList { parent, .. }) => fixity_of(
                h,
                parent as int,
                (steps - 1) as nat,
            ),
            Some(ObjV::List { fixed, .. }) => Some(fixed),
            _ => None,
        }
    }
}

/// The fixity of the list at the root of a chain of views, which is no longer
/// than the heap.
pub fn sublist_root_fixity(host: &Host, id: u32) -> (r: Option<Fixity>)
    ensures
        r == fixity_of(host@, id as int, (host@.heap.len() + 1) as nat),
{
    let mut cur: usize = id as usize;
    let n: usize = host.heap.len();
    let mut left: u128 = n as u128 + 1;
    while left > 0
        invariant
            n == host@.heap.len(),
            left <= n + 1,
            fixity_of(host@, id as int, (n + 1) as nat) == fixity_of(
                host@,
                cur as int,
                left as nat,
            ),
        decreases left,
    {
        if cur >= host.heap.len() {
            return None;
        }
        assert(host@.heap[cur as int] == host.heap@[cur as int]@);
        match &host.heap[cur] {
            HostObj::SubList { parent, .. } => {
                cur = *parent as usize;
            },
            HostObj::List { fixed, .. } => {
                return Some(*fixed);
            },
            _ => {
                return None;
            },
        }
        left -= 1;
    }
    None
}

} // verus!
