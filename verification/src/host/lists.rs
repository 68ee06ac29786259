//! `java.util.List`, `Map` and `Set` on their stored elements.
//!
//! Membership is `equals`. Where a program declares its own, the comparisons
//! run first and come in as an [`EqPlan`]; everything else is decided here.
use vstd::prelude::*;

use crate::host::{Fixity, Host, HostV};
use crate::host::boxes::{jint, jint_of};
use crate::host::order::{equal, value_eq};
use crate::host::strings::{index_message, index_text, unsupported_call, unsupported_fault};
use crate::text::{dec, int_text, own, same, size_text};
use crate::value::{Fault, FaultV, Val, Value, copy_all, java_fault, outcome, vals};

verus! {

/// What the program's own `equals` decided for one call.
pub enum EqPlan {
    /// Where the argument was found among the stored elements.
    Index(Option<usize>),
    /// Whether two lists are equal.
    Same(bool),
    /// The elements that are not yet in a set, in order.
    Fresh(Vec<Value>),
}

pub enum EqPlanV {
    Index(Option<int>),
    Same(bool),
    Fresh(Seq<Val>),
}

impl View for EqPlan {
    type V = EqPlanV;

    open spec fn view(&self) -> EqPlanV {
        match self {
            EqPlan::Index(Some(i)) => EqPlanV::Index(Some(*i as int)),
            EqPlan::Index(None) => EqPlanV::Index(None),
            EqPlan::Same(b) => EqPlanV::Same(*b),
            EqPlan::Fresh(v) => EqPlanV::Fresh(vals(v@)),
        }
    }
}

/// The view of an optional plan.
pub open spec fn plan_view(p: Option<EqPlan>) -> Option<EqPlanV> {
    match p {
        Some(x) => Some(x@),
        None => None,
    }
}

/// The view of an optional sequence of values.
pub open spec fn opt_vals(s: Option<Vec<Value>>) -> Option<Seq<Val>> {
    match s {
        Some(v) => Some(vals(v@)),
        None => None,
    }
}

/// The view of what the arguments of a call hold.
pub open spec fn seq_views(s: Seq<Option<Vec<Value>>>) -> Seq<Option<Seq<Val>>> {
    Seq::new(s.len(), |i: int| opt_vals(s[i]))
}

/// What an optional sequence holds, nothing when it is absent.
pub open spec fn held(s: Option<Seq<Val>>) -> Seq<Val> {
    match s {
        Some(v) => v,
        None => seq![],
    }
}

pub(crate) fn copy_held(s: &Option<Vec<Value>>) -> (r: Vec<Value>)
    ensures
        vals(r@) == held(opt_vals(*s)),
{
    match s {
        Some(v) => copy_all(v),
        None => {
            let r: Vec<Value> = Vec::new();
            assert(vals(r@) =~= seq![]);
            r
        },
    }
}

// ── Finding ─────────────────────────────────────────────────────────────────

/// The values equal to `q`.
pub open spec fn equal_to(h: HostV, q: Val) -> spec_fn(Val) -> bool {
    |x: Val| equal(h, x, q)
}

/// The first position from `i` on whose element is in `same`.
pub open spec fn first_at(items: Seq<Val>, same: spec_fn(Val) -> bool, i: int) -> Option<int>
    decreases items.len() - i,
{
    if i < 0 || i >= items.len() {
        None
    } else if same(items[i]) {
        Some(i)
    } else {
        first_at(items, same, i + 1)
    }
}

/// The last position before `n` whose element is in `same`.
pub open spec fn last_at(items: Seq<Val>, same: spec_fn(Val) -> bool, n: int) -> Option<int>
    decreases n,
{
    if n <= 0 || n > items.len() {
        None
    } else if same(items[n - 1]) {
        Some(n - 1)
    } else {
        last_at(items, same, n - 1)
    }
}

/// Where `q` is in `items`: what the plan says, or the first equal element.
pub open spec fn found(h: HostV, plan: Option<EqPlanV>, items: Seq<Val>, q: Val) -> Option<int> {
    match plan {
        Some(EqPlanV::Index(at)) => at,
        _ => first_at(items, equal_to(h, q), 0),
    }
}

/// Where `q` is last in `items`.
pub open spec fn found_last(h: HostV, plan: Option<EqPlanV>, items: Seq<Val>, q: Val) -> Option<
    int,
> {
    match plan {
        Some(EqPlanV::Index(at)) => at,
        _ => last_at(items, equal_to(h, q), items.len() as int),
    }
}

/// Whether `r` is the position `s`.
pub open spec fn same_place(r: Option<usize>, s: Option<int>) -> bool {
    match (r, s) {
        (Some(a), Some(b)) => a == b,
        (None, None) => true,
        _ => false,
    }
}

fn first_equal(host: &Host, items: &Vec<Value>, q: &Value) -> (r: Option<usize>)
    ensures
        same_place(r, first_at(vals(items@), equal_to(host@, q@), 0)),
        r matches Some(i) ==> i < items.len(),
{
    let mut i: usize = 0;
    while i < items.len()
        invariant
            i <= items.len(),
            first_at(vals(items@), equal_to(host@, q@), 0) == first_at(
                vals(items@),
                equal_to(host@, q@),
                i as int,
            ),
        decreases items.len() - i,
    {
        if value_eq(host, &items[i], q) {
            return Some(i);
        }
        i += 1;
    }
    None
}

fn last_equal(host: &Host, items: &Vec<Value>, q: &Value) -> (r: Option<usize>)
    ensures
        same_place(r, last_at(vals(items@), equal_to(host@, q@), items.len() as int)),
        r matches Some(i) ==> i < items.len(),
{
    let mut n: usize = items.len();
    while n > 0
        invariant
            n <= items.len(),
            last_at(vals(items@), equal_to(host@, q@), items.len() as int) == last_at(
                vals(items@),
                equal_to(host@, q@),
                n as int,
            ),
        decreases n,
    {
        if value_eq(host, &items[n - 1], q) {
            return Some(n - 1);
        }
        n -= 1;
    }
    None
}

/// Where `q` is in `items`: what the plan says, or the first equal element, or
/// the last one.
pub fn eq_index(
    host: &Host,
    eq: &Option<EqPlan>,
    items: &Vec<Value>,
    q: &Value,
    from_end: bool,
) -> (r: Option<usize>)
    ensures
        !from_end ==> same_place(r, found(host@, plan_view(*eq), vals(items@), q@)),
        from_end ==> same_place(r, found_last(host@, plan_view(*eq), vals(items@), q@)),
{
    match eq {
        Some(EqPlan::Index(at)) => *at,
        _ => if from_end {
            last_equal(host, items, q)
        } else {
            first_equal(host, items, q)
        },
    }
}

/// The methods that act on the element at a planned position.
pub open spec fn acts_at(method: Seq<char>) -> bool {
    ||| method == "removeObject"@
    ||| method == "remove"@
    ||| method == "put"@
    ||| method == "putIfAbsent"@
    ||| method == "get"@
    ||| method == "getOrDefault"@
}

/// Whether a planned position that is acted on is one of `n` elements.
pub open spec fn plan_fits(plan: Option<EqPlanV>, method: Seq<char>, n: int) -> bool {
    match plan {
        Some(EqPlanV::Index(Some(i))) => acts_at(method) ==> 0 <= i < n,
        _ => true,
    }
}

/// Whether a planned position that is acted on is one of `n` elements.
pub fn is_fitting(eq: &Option<EqPlan>, method: &str, n: usize) -> (r: bool)
    ensures
        r == plan_fits(plan_view(*eq), method@, n as int),
{
    match eq {
        Some(EqPlan::Index(Some(i))) => {
            let acts: bool = same(method, "removeObject") || same(method, "remove") || same(
                method,
                "put",
            ) || same(method, "putIfAbsent") || same(method, "get") || same(
                method,
                "getOrDefault",
            );
            !acts || *i < n
        },
        _ => true,
    }
}

// ── Lists ───────────────────────────────────────────────────────────────────

/// A change the collection does not accept.
pub open spec fn unsupported_operation() -> FaultV {
    java_fault("UnsupportedOperationException"@, seq![])
}

pub(crate) fn unsupported_change() -> (r: Fault)
    ensures
        r@ == unsupported_operation(),
{
    Fault::java("UnsupportedOperationException", String::new())
}

/// An index outside a list.
pub open spec fn list_index_fault(i: int, len: int) -> FaultV {
    java_fault("IndexOutOfBoundsException"@, index_message(i, len))
}

/// The index `i` as a position in a list of `len` elements.
pub fn list_bounds(i: i64, len: usize) -> (r: Result<usize, Fault>)
    ensures
        match r {
            Ok(a) => 0 <= i < len && a == i,
            Err(f) => !(0 <= i < len) && f@ == list_index_fault(i as int, len as int),
        },
{
    if i < 0 || i as u64 >= len as u64 {
        return Err(Fault::java("IndexOutOfBoundsException", index_text(i, len)));
    }
    Ok(i as usize)
}

/// Whether two sequences are equal element by element.
pub open spec fn same_items(h: HostV, a: Seq<Val>, b: Seq<Val>) -> bool {
    a.len() == b.len() && forall|i: int| 0 <= i < a.len() ==> #[trigger] equal(h, a[i], b[i])
}

fn is_same_items(host: &Host, a: &Vec<Value>, b: &Vec<Value>) -> (r: bool)
    ensures
        r == same_items(host@, vals(a@), vals(b@)),
{
    if a.len() != b.len() {
        return false;
    }
    let mut i: usize = 0;
    while i < a.len()
        invariant
            i <= a.len() == b.len(),
            forall|k: int|
                0 <= k < i ==> #[trigger] equal(host@, vals(a@)[k], vals(b@)[k]),
        decreases a.len() - i,
    {
        if !value_eq(host, &a[i], &b[i]) {
            assert(!equal(host@, vals(a@)[i as int], vals(b@)[i as int]));
            return false;
        }
        i += 1;
    }
    true
}

/// A position as Java answers with it: -1 when there is none.
pub open spec fn place(at: Option<int>) -> Val {
    match at {
        Some(i) => Val::Int(i as i64),
        None => Val::Int(-1i64),
    }
}

fn place_value(at: Option<usize>) -> (r: Value)
    ensures
        forall|s: Option<int>| same_place(at, s) ==> r@ == #[trigger] place(s),
{
    match at {
        Some(i) => Value::Int(i as i64),
        None => Value::Int(-1),
    }
}

/// The list methods that only read.
pub open spec fn list_read(
    h: HostV,
    items: Seq<Val>,
    method: Seq<char>,
    args: Seq<Val>,
    seqs: Seq<Option<Seq<Val>>>,
    plan: Option<EqPlanV>,
) -> Option<Result<Val, FaultV>> {
    if args.len() == 0 {
        if method == "size"@ {
            Some(Ok(Val::Int(items.len() as i64)))
        } else if method == "isEmpty"@ {
            Some(Ok(Val::Bool(items.len() == 0)))
        } else {
            None
        }
    } else if args.len() == 1 {
        if method == "get"@ {
            let i = jint_of(h, args[0]);
            if 0 <= i < items.len() {
                Some(Ok(items[i]))
            } else {
                Some(Err(list_index_fault(i, items.len() as int)))
            }
        } else if method == "contains"@ {
            Some(Ok(Val::Bool(found(h, plan, items, args[0]) is Some)))
        } else if method == "indexOf"@ {
            Some(Ok(place(found(h, plan, items, args[0]))))
        } else if method == "lastIndexOf"@ {
            Some(Ok(place(found_last(h, plan, items, args[0]))))
        } else if method == "equals"@ {
            match plan {
                Some(EqPlanV::Same(b)) => Some(Ok(Val::Bool(b))),
                _ => Some(Ok(Val::Bool(same_items(h, items, held(seqs[0]))))),
            }
        } else {
            None
        }
    } else {
        None
    }
}

fn read_list(
    host: &Host,
    items: &Vec<Value>,
    method: &str,
    args: &Vec<Value>,
    arg_seqs: &Vec<Option<Vec<Value>>>,
    eq: &Option<EqPlan>,
) -> (r: Option<Result<Value, Fault>>)
    requires
        arg_seqs.len() == args.len(),
    ensures
        match (
            r,
            list_read(
                host@,
                vals(items@),
                method@,
                vals(args@),
                seq_views(arg_seqs@),
                plan_view(*eq),
            ),
        ) {
            (Some(x), Some(y)) => outcome(x) == y,
            (None, None) => true,
            _ => false,
        },
{
    if args.len() == 0 {
        if same(method, "size") {
            Some(Ok(Value::Int(items.len() as i64)))
        } else if same(method, "isEmpty") {
            Some(Ok(Value::Bool(items.len() == 0)))
        } else {
            None
        }
    } else if args.len() == 1 {
        assert(vals(args@)[0] == args@[0]@);
        if same(method, "get") {
            match list_bounds(jint(host, &args[0]), items.len()) {
                Ok(i) => {
                    assert(vals(items@)[i as int] == items@[i as int]@);
                    Some(Ok(items[i].copy()))
                },
                Err(f) => Some(Err(f)),
            }
        } else if same(method, "contains") {
            Some(Ok(Value::Bool(eq_index(host, eq, items, &args[0], false).is_some())))
        } else if same(method, "indexOf") {
            Some(Ok(place_value(eq_index(host, eq, items, &args[0], false))))
        } else if same(method, "lastIndexOf") {
            Some(Ok(place_value(eq_index(host, eq, items, &args[0], true))))
        } else if same(method, "equals") {
            match eq {
                Some(EqPlan::Same(b)) => Some(Ok(Value::Bool(*b))),
                _ => {
                    assert(seq_views(arg_seqs@)[0] == opt_vals(arg_seqs@[0]));
                    let other: Vec<Value> = copy_held(&arg_seqs[0]);
                    Some(Ok(Value::Bool(is_same_items(host, items, &other))))
                },
            }
        } else {
            None
        }
    } else {
        None
    }
}

/// The list methods that change the elements: what they leave, and the answer.
pub open spec fn list_write(
    h: HostV,
    items: Seq<Val>,
    fixed: Fixity,
    method: Seq<char>,
    args: Seq<Val>,
    seqs: Seq<Option<Seq<Val>>>,
    plan: Option<EqPlanV>,
) -> Option<Result<(Seq<Val>, Val), FaultV>> {
    let len = items.len() as int;
    let frozen = fixed != Fixity::Mutable;
    if args.len() == 0 && method == "clear"@ {
        if frozen {
            Some(Err(unsupported_operation()))
        } else {
            Some(Ok((seq![], Val::Undef)))
        }
    } else if args.len() == 1 && method == "add"@ {
        if frozen {
            Some(Err(unsupported_operation()))
        } else {
            Some(Ok((items.push(args[0]), Val::Bool(true))))
        }
    } else if args.len() == 1 && method == "remove"@ {
        let i = jint_of(h, args[0]);
        if frozen {
            Some(Err(unsupported_operation()))
        } else if 0 <= i < len {
            Some(Ok((items.remove(i), items[i])))
        } else {
            Some(Err(list_index_fault(i, len)))
        }
    } else if args.len() == 1 && method == "removeObject"@ {
        if frozen {
            Some(Err(unsupported_operation()))
        } else {
            match found(h, plan, items, args[0]) {
                Some(i) => Some(Ok((items.remove(i), Val::Bool(true)))),
                None => Some(Ok((items, Val::Bool(false)))),
            }
        }
    } else if args.len() == 1 && method == "addAll"@ {
        if frozen {
            Some(Err(unsupported_operation()))
        } else {
            Some(Ok((items + held(seqs[0]), Val::Bool(held(seqs[0]).len() > 0))))
        }
    } else if args.len() == 2 && method == "add"@ {
        let at = jint_of(h, args[0]);
        if frozen {
            Some(Err(unsupported_operation()))
        } else if 0 <= at <= len {
            Some(Ok((items.insert(at, args[1]), Val::Undef)))
        } else {
            Some(
                Err(
                    java_fault(
                        "IndexOutOfBoundsException"@,
                        "Index: "@ + dec(at) + ", Size: "@ + dec(len),
                    ),
                ),
            )
        }
    } else if args.len() == 2 && method == "set"@ {
        let i = jint_of(h, args[0]);
        if fixed == Fixity::Immutable {
            Some(Err(unsupported_operation()))
        } else if 0 <= i < len {
            Some(Ok((items.update(i, args[1]), items[i])))
        } else {
            Some(Err(list_index_fault(i, len)))
        }
    } else {
        None
    }
}

/// Whether `r` and the new elements are what `want` says. A fault changes
/// nothing.
pub open spec fn changes(
    r: Result<Value, Fault>,
    before: Seq<Val>,
    after: Seq<Val>,
    want: Result<(Seq<Val>, Val), FaultV>,
) -> bool {
    match (r, want) {
        (Ok(v), Ok((s, x))) => v@ == x && after == s,
        (Err(f), Err(g)) => f@ == g && after == before,
        _ => false,
    }
}

/// Put a value in front of the one at `at`.
fn insert_value(items: &mut Vec<Value>, at: usize, v: Value)
    requires
        at <= old(items).len(),
    ensures
        vals(final(items)@) == vals(old(items)@).insert(at as int, v@),
{
    let ghost before = items@;
    items.insert(at, v);
    assert(vals(items@) =~= vals(before).insert(at as int, v@));
}

/// Take the value at `at` out.
pub(crate) fn remove_value(items: &mut Vec<Value>, at: usize) -> (r: Value)
    requires
        at < old(items).len(),
    ensures
        vals(final(items)@) == vals(old(items)@).remove(at as int),
        r@ == vals(old(items)@)[at as int],
{
    let ghost before = items@;
    let r: Value = items.remove(at);
    assert(vals(items@) =~= vals(before).remove(at as int));
    r
}

/// Replace the value at `at`.
fn replace_value(items: &mut Vec<Value>, at: usize, v: Value) -> (r: Value)
    requires
        at < old(items).len(),
    ensures
        vals(final(items)@) == vals(old(items)@).update(at as int, v@),
        r@ == vals(old(items)@)[at as int],
{
    let ghost before = items@;
    let ghost new = v@;
    let mut r: Value = v;
    std::mem::swap(&mut r, &mut items[at]);
    assert(vals(items@) =~= vals(before).update(at as int, new));
    r
}

/// Put a value at the end.
pub(crate) fn push_value(items: &mut Vec<Value>, v: Value)
    ensures
        vals(final(items)@) == vals(old(items)@).push(v@),
{
    let ghost before = items@;
    items.push(v);
    assert(vals(items@) =~= vals(before).push(v@));
}

/// Put values at the end.
pub(crate) fn push_values(items: &mut Vec<Value>, more: &Vec<Value>)
    ensures
        vals(final(items)@) == vals(old(items)@) + vals(more@),
{
    let ghost before = items@;
    let mut i: usize = 0;
    assert(vals(more@).take(0) =~= seq![]);
    while i < more.len()
        invariant
            i <= more.len(),
            vals(items@) =~= vals(before) + vals(more@).take(i as int),
        decreases more.len() - i,
    {
        push_value(items, more[i].copy());
        assert(vals(more@).take(i + 1) =~= vals(more@).take(i as int).push(more@[i as int]@));
        i += 1;
    }
    assert(vals(more@).take(more.len() as int) =~= vals(more@));
}

/// Take every value out.
pub(crate) fn clear_values(items: &mut Vec<Value>)
    ensures
        vals(final(items)@) == Seq::<Val>::empty(),
{
    items.clear();
    assert(vals(items@) =~= Seq::<Val>::empty());
}

fn write_items(
    host: &Host,
    items: &mut Vec<Value>,
    fixed: Fixity,
    method: &str,
    args: &Vec<Value>,
    arg_seqs: &Vec<Option<Vec<Value>>>,
    eq: &Option<EqPlan>,
) -> (r: Option<Result<Value, Fault>>)
    requires
        arg_seqs.len() == args.len(),
        plan_fits(plan_view(*eq), method@, old(items).len() as int),
    ensures
        match (
            r,
            list_write(
                host@,
                vals(old(items)@),
                fixed,
                method@,
                vals(args@),
                seq_views(arg_seqs@),
                plan_view(*eq),
            ),
        ) {
            (Some(x), Some(y)) => changes(x, vals(old(items)@), vals(final(items)@), y),
            (None, None) => vals(final(items)@) == vals(old(items)@),
            _ => false,
        },
{
    let frozen: bool = fixed != Fixity::Mutable;
    if args.len() == 0 && same(method, "clear") {
        if frozen {
            return Some(Err(unsupported_change()));
        }
        clear_values(items);
        Some(Ok(Value::Undef))
    } else if args.len() == 1 && same(method, "add") {
        if frozen {
            return Some(Err(unsupported_change()));
        }
        push_value(items, args[0].copy());
        Some(Ok(Value::Bool(true)))
    } else if args.len() == 1 && same(method, "remove") {
        if frozen {
            return Some(Err(unsupported_change()));
        }
        match list_bounds(jint(host, &args[0]), items.len()) {
            Ok(i) => Some(Ok(remove_value(items, i))),
            Err(f) => Some(Err(f)),
        }
    } else if args.len() == 1 && same(method, "removeObject") {
        if frozen {
            return Some(Err(unsupported_change()));
        }
        match eq_index(host, eq, items, &args[0], false) {
            Some(i) => {
                proof {
                    lemma_first_in_range(vals(items@), equal_to(host@, args@[0]@), 0);
                }
                let _ = remove_value(items, i);
                Some(Ok(Value::Bool(true)))
            },
            None => Some(Ok(Value::Bool(false))),
        }
    } else if args.len() == 1 && same(method, "addAll") {
        if frozen {
            return Some(Err(unsupported_change()));
        }
        assert(seq_views(arg_seqs@)[0] == opt_vals(arg_seqs@[0]));
        let more: Vec<Value> = copy_held(&arg_seqs[0]);
        push_values(items, &more);
        Some(Ok(Value::Bool(more.len() > 0)))
    } else if args.len() == 2 && same(method, "add") {
        if frozen {
            return Some(Err(unsupported_change()));
        }
        let at: i64 = jint(host, &args[0]);
        if at < 0 || at as u64 > items.len() as u64 {
            let mut m: String = own("Index: ");
            m.append(int_text(at).as_str());
            m.append(", Size: ");
            m.append(size_text(items.len()).as_str());
            return Some(Err(Fault::java("IndexOutOfBoundsException", m)));
        }
        insert_value(items, at as usize, args[1].copy());
        Some(Ok(Value::Undef))
    } else if args.len() == 2 && same(method, "set") {
        if fixed == Fixity::Immutable {
            return Some(Err(unsupported_change()));
        }
        match list_bounds(jint(host, &args[0]), items.len()) {
            Ok(i) => Some(Ok(replace_value(items, i, args[1].copy()))),
            Err(f) => Some(Err(f)),
        }
    } else {
        None
    }
}

/// A position that is found is one of the elements, and its element is equal.
pub proof fn lemma_first_in_range(items: Seq<Val>, same: spec_fn(Val) -> bool, i: int)
    requires
        0 <= i,
    ensures
        first_at(items, same, i) matches Some(k) ==> i <= k < items.len() && same(items[k]) && (
        forall|j: int| i <= j < k ==> !same(#[trigger] items[j])),
        first_at(items, same, i) is None ==> forall|j: int|
            i <= j < items.len() ==> !same(#[trigger] items[j]),
    decreases items.len() - i,
{
    if i < items.len() && !same(items[i]) {
        lemma_first_in_range(items, same, i + 1);
    }
}

/// `list.method(args)` on the elements: what it leaves, and the answer.
pub open spec fn list_called(
    h: HostV,
    items: Seq<Val>,
    fixed: Fixity,
    method: Seq<char>,
    args: Seq<Val>,
    seqs: Seq<Option<Seq<Val>>>,
    plan: Option<EqPlanV>,
) -> Result<(Seq<Val>, Val), FaultV> {
    match list_read(h, items, method, args, seqs, plan) {
        Some(Ok(v)) => Ok((items, v)),
        Some(Err(f)) => Err(f),
        None => match list_write(h, items, fixed, method, args, seqs, plan) {
            Some(r) => r,
            None => Err(unsupported_call("List"@, method, args.len() as int)),
        },
    }
}

/// Evaluate a `java.util.List` method on the elements. A structural change to a
/// fixed list, or any change to an immutable one, is refused.
pub fn list_method(
    host: &Host,
    items: &mut Vec<Value>,
    fixed: Fixity,
    method: &str,
    args: &Vec<Value>,
    arg_seqs: &Vec<Option<Vec<Value>>>,
    eq: &Option<EqPlan>,
) -> (r: Result<Value, Fault>)
    requires
        arg_seqs.len() == args.len(),
        plan_fits(plan_view(*eq), method@, old(items).len() as int),
    ensures
        changes(
            r,
            vals(old(items)@),
            vals(final(items)@),
            list_called(
                host@,
                vals(old(items)@),
                fixed,
                method@,
                vals(args@),
                seq_views(arg_seqs@),
                plan_view(*eq),
            ),
        ),
{
    match read_list(host, items, method, args, arg_seqs, eq) {
        Some(r) => r,
        None => match write_items(host, items, fixed, method, args, arg_seqs, eq) {
            Some(r) => r,
            None => Err(unsupported_fault("List", method, args.len())),
        },
    }
}

} // verus!
