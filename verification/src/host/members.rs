//! The subroutines of a program, and which of them a class resolves a member
//! to.
use vstd::prelude::*;

use crate::host::{Host, HostObj, HostV, ObjV, Row, row_views};
use crate::host::classes::{find_row, row_of};
use crate::host::views::object;
use crate::prelude::opt_view;
use crate::text::{chars_of, find_from, index_from, is_listed, own, same, views};
use crate::value::{Val, Value};

verus! {

/// The names a program's code refers to, and the subroutines it registers: the
/// index of a name and the place the code starts at.
pub struct Members {
    pub names: Vec<String>,
    pub subs: Vec<(u16, usize)>,
}

/// What [`Members`] stands for.
pub struct MembersV {
    pub names: Seq<Seq<char>>,
    pub subs: Seq<(u16, usize)>,
}

impl View for Members {
    type V = MembersV;

    open spec fn view(&self) -> MembersV {
        MembersV { names: views(self.names@), subs: self.subs@ }
    }
}

/// What a member's subroutine is called: the class, then this.
pub open spec fn tostring_suffix() -> Seq<char> {
    "#toString#"@
}

pub open spec fn equals_suffix() -> Seq<char> {
    "#equals#Object"@
}

pub open spec fn hashcode_suffix() -> Seq<char> {
    "#hashCode#"@
}

/// Where the subroutine of a name starts: of two, the first registered.
pub open spec fn sub_of(subs: Seq<(u16, usize)>, name: u16, i: int) -> Option<usize>
    decreases subs.len() - i,
{
    if i < 0 || i >= subs.len() {
        None
    } else if subs[i].0 == name {
        Some(subs[i].1)
    } else {
        sub_of(subs, name, i + 1)
    }
}

/// The first position of a name from `i` on.
pub open spec fn name_at(names: Seq<Seq<char>>, key: Seq<char>, i: int) -> Option<int>
    decreases names.len() - i,
{
    if i < 0 || i >= names.len() {
        None
    } else if names[i] == key {
        Some(i)
    } else {
        name_at(names, key, i + 1)
    }
}

/// Where the subroutine called `key` starts.
pub open spec fn entry_of(m: MembersV, key: Seq<char>) -> Option<usize> {
    match name_at(m.names, key, 0) {
        Some(i) => sub_of(m.subs, i as u16, 0),
        None => None,
    }
}

pub(crate) fn find_sub(subs: &Vec<(u16, usize)>, name: u16) -> (r: Option<usize>)
    ensures
        r == sub_of(subs@, name, 0),
{
    let mut i: usize = 0;
    while i < subs.len()
        invariant
            i <= subs.len(),
            sub_of(subs@, name, 0) == sub_of(subs@, name, i as int),
        decreases subs.len() - i,
    {
        if subs[i].0 == name {
            return Some(subs[i].1);
        }
        i += 1;
    }
    None
}

/// Where the subroutine called `key` starts.
pub fn find_entry(m: &Members, key: &str) -> (r: Option<usize>)
    ensures
        r == entry_of(m@, key@),
{
    let mut i: usize = 0;
    while i < m.names.len()
        invariant
            i <= m.names.len(),
            name_at(m@.names, key@, 0) == name_at(m@.names, key@, i as int),
        decreases m.names.len() - i,
    {
        if same(m.names[i].as_str(), key) {
            return find_sub(&m.subs, i as u16);
        }
        i += 1;
    }
    None
}

/// How many rows are of types not in `seen`.
pub open spec fn unseen(rows: Seq<Row>, seen: Seq<Seq<char>>) -> nat
    decreases rows.len(),
{
    if rows.len() == 0 {
        0
    } else {
        unseen(rows.drop_last(), seen) + if seen.contains(rows.last().0) {
            0nat
        } else {
            1nat
        }
    }
}

/// Seeing one type more leaves no more unseen rows, and fewer when the type has
/// supertypes.
pub proof fn lemma_unseen(rows: Seq<Row>, seen: Seq<Seq<char>>, cur: Seq<char>)
    requires
        !seen.contains(cur),
    ensures
        unseen(rows, seen.push(cur)) <= unseen(rows, seen),
        row_of(rows, cur).len() > 0 ==> unseen(rows, seen.push(cur)) < unseen(rows, seen),
    decreases rows.len(),
{
    if rows.len() > 0 {
        lemma_unseen(rows.drop_last(), seen, cur);
        let n = rows.last().0;
        let s = seen.push(cur);
        assert(s[seen.len() as int] == cur);
        if seen.contains(n) {
            let k = choose|k: int| 0 <= k < seen.len() && seen[k] == n;
            assert(s[k] == n);
        }
        if s.contains(n) && !seen.contains(n) {
            let k = choose|k: int| 0 <= k < s.len() && s[k] == n;
            if k < seen.len() {
                assert(seen[k] == n);
            }
            assert(n == cur);
        }
    }
}

/// The member a search resolves: the types of `stack` are tried from its end,
/// each once, and one without the member is replaced by its supertypes.
pub open spec fn resolved(
    rows: Seq<Row>,
    m: MembersV,
    stack: Seq<Seq<char>>,
    seen: Seq<Seq<char>>,
    suffix: Seq<char>,
) -> Option<usize>
    decreases unseen(rows, seen), stack.len(),
{
    if stack.len() == 0 {
        None
    } else {
        let cur = stack.last();
        let rest = stack.drop_last();
        if seen.contains(cur) {
            resolved(rows, m, rest, seen, suffix)
        } else {
            match entry_of(m, cur + suffix) {
                Some(e) => Some(e),
                None => {
                    proof {
                        lemma_unseen(rows, seen, cur);
                    }
                    resolved(rows, m, rest + row_of(rows, cur), seen.push(cur), suffix)
                },
            }
        }
    }
}

/// The member a class resolves: its own, or the one it inherits.
pub open spec fn member_of(h: HostV, m: MembersV, class: Seq<char>, suffix: Seq<char>) -> Option<
    usize,
> {
    resolved(h.supers, m, seq![class], seq![], suffix)
}

/// Where the body of the member starts that a class resolves: its own, or the
/// one it inherits.
pub fn member_entry(host: &Host, m: &Members, class: &str, suffix: &str) -> (r: Option<usize>)
    ensures
        r == member_of(host@, m@, class@, suffix@),
{
    let ghost rows = host@.supers;
    let mut stack: Vec<String> = Vec::new();
    let mut seen: Vec<String> = Vec::new();
    stack.push(own(class));
    assert(views(stack@) =~= seq![class@]);
    assert(views(seen@) =~= seq![]);
    while stack.len() > 0
        invariant
            rows == host@.supers,
            member_of(host@, m@, class@, suffix@) == resolved(
                rows,
                m@,
                views(stack@),
                views(seen@),
                suffix@,
            ),
        decreases unseen(rows, views(seen@)), stack.len(),
    {
        let ghost before = views(stack@);
        let ghost known = views(seen@);
        let cur: String = match stack.pop() {
            Some(s) => s,
            None => {
                return None;
            },
        };
        assert(views(stack@) =~= before.drop_last());
        assert(cur@ == before.last());
        if !is_listed(&seen, cur.as_str()) {
            let mut key: String = own(cur.as_str());
            key.append(suffix);
            match find_entry(m, key.as_str()) {
                Some(e) => {
                    return Some(e);
                },
                None => {},
            }
            proof {
                lemma_unseen(rows, known, cur@);
            }
            push_supers(&host.supers, cur.as_str(), &mut stack);
            let ghost name = cur@;
            seen.push(cur);
            assert(views(seen@) =~= known.push(name));
        }
    }
    None
}

/// Put the direct supertypes of a type on a stack.
fn push_supers(rows: &Vec<(String, Vec<String>)>, name: &str, stack: &mut Vec<String>)
    ensures
        views(final(stack)@) == views(old(stack)@) + row_of(row_views(rows@), name@),
{
    let ghost before = views(stack@);
    match find_row(rows, name) {
        Some(i) => {
            let ghost row = views(rows@[i as int].1@);
            let mut k: usize = 0;
            assert(row.take(0) =~= seq![]);
            while k < rows[i].1.len()
                invariant
                    i < rows.len(),
                    row == views(rows@[i as int].1@),
                    k <= rows@[i as int].1.len(),
                    views(stack@) =~= before + row.take(k as int),
                decreases rows@[i as int].1.len() - k,
            {
                let ghost mid = stack@;
                stack.push(own(rows[i].1[k].as_str()));
                assert(views(stack@) =~= views(mid).push(row[k as int]));
                assert(row.take(k + 1) =~= row.take(k as int).push(row[k as int]));
                k += 1;
            }
            assert(row.take(row.len() as int) =~= row);
        },
        None => {
            assert(views(stack@) =~= before + row_of(row_views(rows@), name@));
        },
    }
}

/// Whether any name holds `suffix`.
pub open spec fn declares(m: MembersV, suffix: Seq<char>) -> bool {
    exists|i: int| 0 <= i < m.names.len() && index_from(#[trigger] m.names[i], suffix, 0) >= 0
}

/// Whether any class of the program declares the member.
pub fn declares_any(m: &Members, suffix: &str) -> (r: bool)
    ensures
        r == declares(m@, suffix@),
{
    let want: Vec<char> = chars_of(suffix);
    let mut i: usize = 0;
    while i < m.names.len()
        invariant
            i <= m.names.len(),
            want@ == suffix@,
            forall|k: int|
                0 <= k < i ==> index_from(#[trigger] m@.names[k], suffix@, 0) < 0,
        decreases m.names.len() - i,
    {
        let name: Vec<char> = chars_of(m.names[i].as_str());
        assert(m@.names[i as int] == name@);
        if find_from(&name, &want, 0).is_some() {
            return true;
        }
        i += 1;
    }
    false
}

/// Whether the program has a `toString()` of its own.
pub fn any_user_tostring(m: &Members) -> (r: bool)
    ensures
        r == declares(m@, tostring_suffix()),
{
    declares_any(m, "#toString#")
}

/// Whether the program has an `equals(Object)` of its own.
pub fn any_user_equals(m: &Members) -> (r: bool)
    ensures
        r == declares(m@, equals_suffix()),
{
    declares_any(m, "#equals#Object")
}

/// The class of an instance, `None` for every other value.
pub open spec fn class_of_instance(h: HostV, v: Val) -> Option<Seq<char>> {
    match v {
        Val::Obj(id) => match object(h, id as int) {
            Some(ObjV::Instance { class, .. }) => Some(class),
            _ => None,
        },
        _ => None,
    }
}

/// The class of an instance, `None` for every other value.
pub fn instance_class(host: &Host, v: &Value) -> (r: Option<String>)
    ensures
        opt_view(r) == class_of_instance(host@, v@),
{
    match v {
        Value::Obj(id) => {
            let i: usize = *id as usize;
            if i >= host.heap.len() {
                return None;
            }
            assert(host@.heap[i as int] == host.heap@[i as int]@);
            match &host.heap[i] {
                HostObj::Instance { class, .. } => Some(own(class.as_str())),
                _ => None,
            }
        },
        _ => None,
    }
}

/// A class that declares the member resolves it to its own body.
pub proof fn own_member_wins(h: HostV, m: MembersV, class: Seq<char>, suffix: Seq<char>)
    requires
        entry_of(m, class + suffix) is Some,
    ensures
        member_of(h, m, class, suffix) == entry_of(m, class + suffix),
{
    assert(seq![class].last() == class);
}

/// A class without the member inherits its only supertype's.
pub proof fn member_is_inherited(
    h: HostV,
    m: MembersV,
    class: Seq<char>,
    parent: Seq<char>,
    suffix: Seq<char>,
)
    requires
        entry_of(m, class + suffix) is None,
        row_of(h.supers, class) == seq![parent],
        parent != class,
        entry_of(m, parent + suffix) is Some,
    ensures
        member_of(h, m, class, suffix) == member_of(h, m, parent, suffix),
{
    own_member_wins(h, m, parent, suffix);
    let s0: Seq<Seq<char>> = seq![class];
    assert(s0.last() == class);
    assert(s0.drop_last() + seq![parent] =~= seq![parent]);
    assert(Seq::<Seq<char>>::empty().push(class) =~= seq![class]);
    assert(seq![parent].last() == parent);
    assert(!seq![class].contains(parent));
    assert(resolved(h.supers, m, seq![parent], seq![class], suffix) == entry_of(
        m,
        parent + suffix,
    ));
    assert(member_of(h, m, class, suffix) == resolved(
        h.supers,
        m,
        seq![parent],
        seq![class],
        suffix,
    ));
}

} // verus!
