//! `java.util.Map` and `Set` on their stored entries.
use vstd::prelude::*;

use crate::host::{Fixity, Host, HostObj, HostV, ObjV, Order, entry_views};
use crate::host::index::KeyIndex;
use crate::host::lists::{
    EqPlan, EqPlanV, acts_at, changes, clear_values, copy_held, eq_index, equal_to, first_at,
    found, held, lemma_first_in_range, opt_vals, plan_fits, plan_view, push_value, push_values,
    remove_value, same_place, seq_views, unsupported_change, unsupported_operation,
};
use crate::host::order::value_eq;
use crate::host::render::{entries_in_order, keys_of, present_entries, values_of};
use crate::host::strings::{Answer, AnswerV, unsupported_call, unsupported_fault};
use crate::text::same;
use crate::value::{Fault, FaultV, Val, Value, vals};

verus! {

/// Whether `r` and the new entries are what `want` says. A fault changes
/// nothing.
pub open spec fn map_changes(
    r: Result<Answer, Fault>,
    before: Seq<(Val, Val)>,
    after: Seq<(Val, Val)>,
    want: Result<(Seq<(Val, Val)>, AnswerV), FaultV>,
) -> bool {
    match (r, want) {
        (Ok(v), Ok((s, x))) => v@ == x && after == s,
        (Err(f), Err(g)) => f@ == g && after == before,
        _ => false,
    }
}

/// The map methods without an argument.
pub open spec fn map_plain(
    h: HostV,
    entries: Seq<(Val, Val)>,
    order: Order,
    method: Seq<char>,
) -> Option<(Seq<(Val, Val)>, AnswerV)> {
    if method == "size"@ {
        Some((entries, AnswerV::Value(Val::Int(entries.len() as i64))))
    } else if method == "isEmpty"@ {
        Some((entries, AnswerV::Value(Val::Bool(entries.len() == 0))))
    } else if method == "clear"@ {
        Some((seq![], AnswerV::Value(Val::Undef)))
    } else if method == "keySet"@ {
        Some(
            (
                entries,
                AnswerV::Alloc(
                    ObjV::SetObj {
                        items: keys_of(entries_in_order(h, entries, order)),
                        order: Order::Insertion,
                        fixed: Fixity::Mutable,
                    },
                ),
            ),
        )
    } else if method == "values"@ {
        Some(
            (
                entries,
                AnswerV::Alloc(
                    ObjV::List {
                        items: values_of(entries_in_order(h, entries, order)),
                        fixed: Fixity::FixedSize,
                        mods: 0,
                    },
                ),
            ),
        )
    } else {
        None
    }
}

/// The map methods addressed by a key: `at` is where it was found.
pub open spec fn map_keyed(
    entries: Seq<(Val, Val)>,
    method: Seq<char>,
    args: Seq<Val>,
    at: Option<int>,
) -> Option<(Seq<(Val, Val)>, Val)> {
    if args.len() == 1 && method == "get"@ {
        match at {
            Some(i) => Some((entries, entries[i].1)),
            None => Some((entries, Val::Undef)),
        }
    } else if args.len() == 1 && method == "containsKey"@ {
        Some((entries, Val::Bool(at is Some)))
    } else if args.len() == 1 && method == "remove"@ {
        match at {
            Some(i) => Some((entries.remove(i), entries[i].1)),
            None => Some((entries, Val::Undef)),
        }
    } else if args.len() == 2 && method == "put"@ {
        match at {
            Some(i) => Some((entries.update(i, (entries[i].0, args[1])), entries[i].1)),
            None => Some((entries.push((args[0], args[1])), Val::Undef)),
        }
    } else if args.len() == 2 && method == "putIfAbsent"@ {
        match at {
            Some(i) => Some((entries, entries[i].1)),
            None => Some((entries.push((args[0], args[1])), Val::Undef)),
        }
    } else if args.len() == 2 && method == "getOrDefault"@ {
        match at {
            Some(i) => Some((entries, entries[i].1)),
            None => Some((entries, args[1])),
        }
    } else {
        None
    }
}

/// `map.method(args)` on the entries: what it leaves, and the answer.
pub open spec fn map_called(
    h: HostV,
    entries: Seq<(Val, Val)>,
    order: Order,
    method: Seq<char>,
    args: Seq<Val>,
    plan: Option<EqPlanV>,
) -> Result<(Seq<(Val, Val)>, AnswerV), FaultV> {
    if args.len() == 0 {
        match map_plain(h, entries, order, method) {
            Some(r) => Ok(r),
            None => Err(unsupported_call("Map"@, method, args.len() as int)),
        }
    } else if args.len() == 1 && method == "containsValue"@ {
        Ok(
            (
                entries,
                AnswerV::Value(Val::Bool(found(h, plan, values_of(entries), args[0]) is Some)),
            ),
        )
    } else {
        match map_keyed(entries, method, args, found(h, plan, keys_of(entries), args[0])) {
            Some((e, v)) => Ok((e, AnswerV::Value(v))),
            None => Err(unsupported_call("Map"@, method, args.len() as int)),
        }
    }
}

fn call_map_plain(
    host: &Host,
    entries: &mut Vec<(Value, Value)>,
    order: Order,
    method: &str,
) -> (r: Option<Answer>)
    ensures
        match (r, map_plain(host@, entry_views(old(entries)@), order, method@)) {
            (Some(x), Some((e, y))) => x@ == y && entry_views(final(entries)@) == e,
            (None, None) => final(entries)@ == old(entries)@,
            _ => false,
        },
{
    if same(method, "size") {
        Some(Answer::Value(Value::Int(entries.len() as i64)))
    } else if same(method, "isEmpty") {
        Some(Answer::Value(Value::Bool(entries.len() == 0)))
    } else if same(method, "clear") {
        entries.clear();
        assert(entry_views(entries@) =~= seq![]);
        Some(Answer::Value(Value::Undef))
    } else if same(method, "keySet") {
        let (items, _): (Vec<Value>, Vec<Value>) = present_entries(host, entries, order);
        Some(
            Answer::Alloc(
                HostObj::SetObj { items, order: Order::Insertion, fixed: Fixity::Mutable },
            ),
        )
    } else if same(method, "values") {
        let (_, items): (Vec<Value>, Vec<Value>) = present_entries(host, entries, order);
        Some(Answer::Alloc(HostObj::List { items, fixed: Fixity::FixedSize, mods: 0 }))
    } else {
        None
    }
}

fn first_key(host: &Host, entries: &Vec<(Value, Value)>, q: &Value) -> (r: Option<usize>)
    ensures
        same_place(r, first_at(keys_of(entry_views(entries@)), equal_to(host@, q@), 0)),
        r matches Some(i) ==> i < entries.len(),
{
    let ghost keys = keys_of(entry_views(entries@));
    let mut i: usize = 0;
    while i < entries.len()
        invariant
            i <= entries.len(),
            keys == keys_of(entry_views(entries@)),
            first_at(keys, equal_to(host@, q@), 0) == first_at(
                keys,
                equal_to(host@, q@),
                i as int,
            ),
        decreases entries.len() - i,
    {
        assert(keys[i as int] == entries@[i as int].0@);
        if value_eq(host, &entries[i].0, q) {
            return Some(i);
        }
        i += 1;
    }
    None
}

fn has_value(host: &Host, entries: &Vec<(Value, Value)>, q: &Value) -> (r: bool)
    ensures
        r == (first_at(values_of(entry_views(entries@)), equal_to(host@, q@), 0) is Some),
{
    let ghost values = values_of(entry_views(entries@));
    let mut i: usize = 0;
    while i < entries.len()
        invariant
            i <= entries.len(),
            values == values_of(entry_views(entries@)),
            first_at(values, equal_to(host@, q@), 0) == first_at(
                values,
                equal_to(host@, q@),
                i as int,
            ),
        decreases entries.len() - i,
    {
        assert(values[i as int] == entries@[i as int].1@);
        if value_eq(host, &entries[i].1, q) {
            return true;
        }
        i += 1;
    }
    false
}

fn push_entry(entries: &mut Vec<(Value, Value)>, k: Value, v: Value)
    ensures
        entry_views(final(entries)@) == entry_views(old(entries)@).push((k@, v@)),
{
    let ghost before = entries@;
    entries.push((k, v));
    assert(entry_views(entries@) =~= entry_views(before).push((k@, v@)));
}

fn put_entry(entries: &mut Vec<(Value, Value)>, at: usize, v: Value) -> (r: Value)
    requires
        at < old(entries).len(),
    ensures
        entry_views(final(entries)@) == entry_views(old(entries)@).update(
            at as int,
            (entry_views(old(entries)@)[at as int].0, v@),
        ),
        r@ == entry_views(old(entries)@)[at as int].1,
{
    let ghost before = entries@;
    let ghost new = v@;
    let key: Value = entries[at].0.copy();
    let mut pair: (Value, Value) = (key, v);
    std::mem::swap(&mut pair, &mut entries[at]);
    assert(entry_views(entries@) =~= entry_views(before).update(
        at as int,
        (entry_views(before)[at as int].0, new),
    ));
    pair.1
}

fn remove_entry(entries: &mut Vec<(Value, Value)>, at: usize) -> (r: Value)
    requires
        at < old(entries).len(),
    ensures
        entry_views(final(entries)@) == entry_views(old(entries)@).remove(at as int),
        r@ == entry_views(old(entries)@)[at as int].1,
{
    let ghost before = entries@;
    let pair: (Value, Value) = entries.remove(at);
    assert(entry_views(entries@) =~= entry_views(before).remove(at as int));
    pair.1
}

fn call_map_keyed(
    entries: &mut Vec<(Value, Value)>,
    method: &str,
    args: &Vec<Value>,
    at: Option<usize>,
) -> (r: Option<Value>)
    requires
        acts_at(method@) ==> (at matches Some(i) ==> i < old(entries).len()),
    ensures
        forall|s: Option<int>|
            #![trigger map_keyed(entry_views(old(entries)@), method@, vals(args@), s)]
            same_place(at, s) ==> match (
                r,
                map_keyed(entry_views(old(entries)@), method@, vals(args@), s),
            ) {
                (Some(x), Some((e, y))) => x@ == y && entry_views(final(entries)@) == e,
                (None, None) => final(entries)@ == old(entries)@,
                _ => false,
            },
{
    let ghost ev = entry_views(entries@);
    let ghost vs = vals(args@);
    assert(forall|j: int| 0 <= j < args.len() ==> vs[j] == (#[trigger] args@[j])@);
    if args.len() == 1 && same(method, "get") {
        match at {
            Some(i) => {
                assert(ev[i as int].1 == entries@[i as int].1@);
                Some(entries[i].1.copy())
            },
            None => Some(Value::Undef),
        }
    } else if args.len() == 1 && same(method, "containsKey") {
        Some(Value::Bool(at.is_some()))
    } else if args.len() == 1 && same(method, "remove") {
        match at {
            Some(i) => Some(remove_entry(entries, i)),
            None => Some(Value::Undef),
        }
    } else if args.len() == 2 && same(method, "put") {
        match at {
            Some(i) => Some(put_entry(entries, i, args[1].copy())),
            None => {
                push_entry(entries, args[0].copy(), args[1].copy());
                Some(Value::Undef)
            },
        }
    } else if args.len() == 2 && same(method, "putIfAbsent") {
        match at {
            Some(i) => {
                assert(ev[i as int].1 == entries@[i as int].1@);
                Some(entries[i].1.copy())
            },
            None => {
                push_entry(entries, args[0].copy(), args[1].copy());
                Some(Value::Undef)
            },
        }
    } else if args.len() == 2 && same(method, "getOrDefault") {
        match at {
            Some(i) => {
                assert(ev[i as int].1 == entries@[i as int].1@);
                Some(entries[i].1.copy())
            },
            None => Some(args[1].copy()),
        }
    } else {
        None
    }
}

/// Evaluate a `java.util.Map` method on the entries. A key that is put again
/// keeps its place.
pub fn map_method(
    host: &Host,
    entries: &mut Vec<(Value, Value)>,
    order: Order,
    method: &str,
    args: &Vec<Value>,
    eq: &Option<EqPlan>,
) -> (r: Result<Answer, Fault>)
    requires
        plan_fits(plan_view(*eq), method@, old(entries).len() as int),
    ensures
        map_changes(
            r,
            entry_views(old(entries)@),
            entry_views(final(entries)@),
            map_called(
                host@,
                entry_views(old(entries)@),
                order,
                method@,
                vals(args@),
                plan_view(*eq),
            ),
        ),
{
    let ghost ev = entry_views(entries@);
    if args.len() == 0 {
        return match call_map_plain(host, entries, order, method) {
            Some(a) => Ok(a),
            None => Err(unsupported_fault("Map", method, args.len())),
        };
    }
    assert(vals(args@)[0] == args@[0]@);
    if args.len() == 1 && same(method, "containsValue") {
        let has: bool = match eq {
            Some(EqPlan::Index(at)) => at.is_some(),
            _ => has_value(host, entries, &args[0]),
        };
        return Ok(Answer::Value(Value::Bool(has)));
    }
    let at: Option<usize> = match eq {
        Some(EqPlan::Index(at)) => *at,
        _ => first_key(host, entries, &args[0]),
    };
    let ghost place = found(host@, plan_view(*eq), keys_of(ev), args@[0]@);
    assert(same_place(at, place));
    match call_map_keyed(entries, method, args, at) {
        Some(v) => {
            assert(map_keyed(ev, method@, vals(args@), place) is Some);
            Ok(Answer::Value(v))
        },
        None => {
            assert(map_keyed(ev, method@, vals(args@), place) is None);
            Err(unsupported_fault("Map", method, args.len()))
        },
    }
}

// ── Sets ────────────────────────────────────────────────────────────────────

/// A set with the elements of `add` from `i` on that it does not have yet.
pub open spec fn joined(h: HostV, items: Seq<Val>, add: Seq<Val>, i: int) -> Seq<Val>
    decreases add.len() - i,
{
    if i < 0 || i >= add.len() {
        items
    } else if first_at(items, equal_to(h, add[i]), 0) is Some {
        joined(h, items, add, i + 1)
    } else {
        joined(h, items.push(add[i]), add, i + 1)
    }
}

/// The methods of a set: what they leave, and the answer.
pub open spec fn set_called(
    h: HostV,
    items: Seq<Val>,
    fixed: Fixity,
    method: Seq<char>,
    args: Seq<Val>,
    seqs: Seq<Option<Seq<Val>>>,
    plan: Option<EqPlanV>,
) -> Result<(Seq<Val>, Val), FaultV> {
    let frozen = fixed != Fixity::Mutable;
    if args.len() == 0 && method == "size"@ {
        Ok((items, Val::Int(items.len() as i64)))
    } else if args.len() == 0 && method == "isEmpty"@ {
        Ok((items, Val::Bool(items.len() == 0)))
    } else if args.len() == 0 && method == "clear"@ {
        if frozen {
            Err(unsupported_operation())
        } else {
            Ok((seq![], Val::Undef))
        }
    } else if args.len() == 1 && method == "contains"@ {
        Ok((items, Val::Bool(found(h, plan, items, args[0]) is Some)))
    } else if args.len() == 1 && method == "add"@ {
        if frozen {
            Err(unsupported_operation())
        } else if found(h, plan, items, args[0]) is Some {
            Ok((items, Val::Bool(false)))
        } else {
            Ok((items.push(args[0]), Val::Bool(true)))
        }
    } else if args.len() == 1 && method == "remove"@ {
        if frozen {
            Err(unsupported_operation())
        } else {
            match found(h, plan, items, args[0]) {
                Some(i) => Ok((items.remove(i), Val::Bool(true))),
                None => Ok((items, Val::Bool(false))),
            }
        }
    } else if args.len() == 1 && method == "addAll"@ {
        if frozen {
            Err(unsupported_operation())
        } else {
            match plan {
                Some(EqPlanV::Fresh(fresh)) => Ok((items + fresh, Val::Bool(fresh.len() > 0))),
                Some(EqPlanV::Index(Some(_))) => Ok((items, Val::Bool(false))),
                Some(EqPlanV::Index(None)) => Ok(
                    (items + held(seqs[0]), Val::Bool(held(seqs[0]).len() > 0)),
                ),
                _ => {
                    let all = joined(h, items, held(seqs[0]), 0);
                    Ok((all, Val::Bool(all.len() > items.len())))
                },
            }
        }
    } else {
        Err(unsupported_call("Set"@, method, args.len() as int))
    }
}

proof fn lemma_joined_grows(h: HostV, items: Seq<Val>, add: Seq<Val>, i: int)
    ensures
        joined(h, items, add, i).len() >= items.len(),
    decreases add.len() - i,
{
    if 0 <= i < add.len() {
        lemma_joined_grows(h, items, add, i + 1);
        lemma_joined_grows(h, items.push(add[i]), add, i + 1);
    }
}

fn join_values(host: &Host, items: &mut Vec<Value>, add: &Vec<Value>)
    ensures
        vals(final(items)@) == joined(host@, vals(old(items)@), vals(add@), 0),
{
    let none: Option<EqPlan> = None;
    let ghost before = vals(items@);
    let mut index: KeyIndex = KeyIndex::new();
    index.rebuild(host, items);
    let mut i: usize = 0;
    while i < add.len()
        invariant
            i <= add.len(),
            plan_view(none) is None,
            index.describes(host@, vals(items@)),
            joined(host@, before, vals(add@), 0) == joined(
                host@,
                vals(items@),
                vals(add@),
                i as int,
            ),
        decreases add.len() - i,
    {
        assert(vals(add@)[i as int] == add@[i as int]@);
        let at: Option<usize> = match index.find(host, items, &add[i]) {
            Some(at) => at,
            None => eq_index(host, &none, items, &add[i], false),
        };
        if at.is_none() {
            index.push(host, &add[i], items.len());
            push_value(items, add[i].copy());
        }
        i += 1;
    }
}

/// Evaluate a `java.util.Set` method on the elements.
pub fn set_method(
    host: &Host,
    items: &mut Vec<Value>,
    fixed: Fixity,
    method: &str,
    args: &Vec<Value>,
    arg_seqs: &Vec<Option<Vec<Value>>>,
    eq: &Option<EqPlan>,
) -> (r: Result<Value, Fault>)
    requires
        arg_seqs.len() == args.len(),
        plan_fits(plan_view(*eq), method@, old(items).len() as int),
    ensures
        changes(
            r,
            vals(old(items)@),
            vals(final(items)@),
            set_called(
                host@,
                vals(old(items)@),
                fixed,
                method@,
                vals(args@),
                seq_views(arg_seqs@),
                plan_view(*eq),
            ),
        ),
{
    let ghost before = vals(items@);
    let frozen: bool = fixed != Fixity::Mutable;
    if args.len() == 0 && same(method, "size") {
        Ok(Value::Int(items.len() as i64))
    } else if args.len() == 0 && same(method, "isEmpty") {
        Ok(Value::Bool(items.len() == 0))
    } else if args.len() == 0 && same(method, "clear") {
        if frozen {
            return Err(unsupported_change());
        }
        clear_values(items);
        Ok(Value::Undef)
    } else if args.len() == 1 && same(method, "contains") {
        Ok(Value::Bool(eq_index(host, eq, items, &args[0], false).is_some()))
    } else if args.len() == 1 && same(method, "add") {
        if frozen {
            return Err(unsupported_change());
        }
        if eq_index(host, eq, items, &args[0], false).is_some() {
            return Ok(Value::Bool(false));
        }
        push_value(items, args[0].copy());
        Ok(Value::Bool(true))
    } else if args.len() == 1 && same(method, "remove") {
        if frozen {
            return Err(unsupported_change());
        }
        match eq_index(host, eq, items, &args[0], false) {
            Some(i) => {
                proof {
                    lemma_first_in_range(before, equal_to(host@, args@[0]@), 0);
                }
                let _ = remove_value(items, i);
                Ok(Value::Bool(true))
            },
            None => Ok(Value::Bool(false)),
        }
    } else if args.len() == 1 && same(method, "addAll") {
        if frozen {
            return Err(unsupported_change());
        }
        assert(seq_views(arg_seqs@)[0] == opt_vals(arg_seqs@[0]));
        match eq {
            Some(EqPlan::Fresh(fresh)) => {
                push_values(items, fresh);
                Ok(Value::Bool(fresh.len() > 0))
            },
            Some(EqPlan::Index(Some(_))) => Ok(Value::Bool(false)),
            Some(EqPlan::Index(None)) => {
                let add: Vec<Value> = copy_held(&arg_seqs[0]);
                push_values(items, &add);
                Ok(Value::Bool(add.len() > 0))
            },
            _ => {
                let add: Vec<Value> = copy_held(&arg_seqs[0]);
                let n: usize = items.len();
                join_values(host, items, &add);
                proof {
                    lemma_joined_grows(host@, before, vals(add@), 0);
                }
                Ok(Value::Bool(items.len() > n))
            },
        }
    } else {
        Err(unsupported_fault("Set", method, args.len()))
    }
}

} // verus!
