//! Class names, the supertype graph, and the casts it decides.
use vstd::prelude::*;

use crate::host::{Host, HostV, Row, rename_views, row_views};
use crate::lexer::in_word;
use crate::prelude::{class_name, opt_view, qualified_class, qualified_throwable, throwable_name};
use crate::text::{begins, begins_with, chars_of, is_listed, listed, own, same, text_between, views};
use crate::value::{after_last, tail_after};

verus! {

/// The views of a sequence of texts.
pub open spec fn strs(s: Seq<&str>) -> Seq<Seq<char>> {
    Seq::new(s.len(), |i: int| s[i]@)
}

/// The direct supertypes of the JDK types the value model names, one line per
/// `extends`/`implements` clause. `Object` is not an edge: every reference is
/// one. The names that are no Java identifiers stand for shapes the language
/// spells with syntax or the JDK keeps private.
pub open spec fn jdk_supers_of(class: Seq<char>) -> Seq<Seq<char>> {
    if class == "String"@ {
        seq!["CharSequence"@, "Comparable"@, "Serializable"@]
    } else if class == "Integer"@ || class == "Double"@ || class == "Long"@ || class == "Short"@ || class == "Byte"@ || class == "Float"@ {
        seq!["Number"@, "Comparable"@]
    } else if class == "Number"@ {
        seq!["Serializable"@]
    } else if class == "Boolean"@ || class == "Character"@ {
        seq!["Comparable"@, "Serializable"@]
    } else if class == "Enum"@ {
        seq!["Comparable"@, "Serializable"@]
    } else if class == "StringBuilder"@ || class == "StringBuffer"@ {
        seq!["AbstractStringBuilder"@, "Comparable"@, "Serializable"@]
    } else if class == "AbstractStringBuilder"@ {
        seq!["CharSequence"@, "Appendable"@]
    } else if class == "Throwable"@ {
        seq!["Serializable"@]
    } else if class == "List"@ {
        seq!["Collection"@, "SequencedCollection"@]
    } else if class == "Set"@ {
        seq!["Collection"@]
    } else if class == "SequencedCollection"@ {
        seq!["Collection"@]
    } else if class == "SequencedSet"@ {
        seq!["Set"@, "SequencedCollection"@]
    } else if class == "Collection"@ {
        seq!["Iterable"@]
    } else if class == "SortedSet"@ {
        seq!["SequencedSet"@]
    } else if class == "NavigableSet"@ {
        seq!["SortedSet"@]
    } else if class == "SequencedMap"@ {
        seq!["Map"@]
    } else if class == "SortedMap"@ {
        seq!["SequencedMap"@]
    } else if class == "NavigableMap"@ {
        seq!["SortedMap"@]
    } else if class == "AbstractCollection"@ {
        seq!["Collection"@]
    } else if class == "AbstractList"@ {
        seq!["AbstractCollection"@, "List"@]
    } else if class == "AbstractSet"@ {
        seq!["AbstractCollection"@, "Set"@]
    } else if class == "AbstractMap"@ {
        seq!["Map"@]
    } else if class == "ArrayList"@ {
        seq!["AbstractList"@, "RandomAccess"@, "Cloneable"@, "Serializable"@]
    } else if class == "HashMap"@ {
        seq!["AbstractMap"@, "Cloneable"@, "Serializable"@]
    } else if class == "LinkedHashMap"@ {
        seq!["HashMap"@, "SequencedMap"@]
    } else if class == "TreeMap"@ {
        seq!["AbstractMap"@, "NavigableMap"@, "Cloneable"@, "Serializable"@]
    } else if class == "HashSet"@ {
        seq!["AbstractSet"@, "Cloneable"@, "Serializable"@]
    } else if class == "LinkedHashSet"@ {
        seq!["HashSet"@, "SequencedSet"@]
    } else if class == "TreeSet"@ {
        seq!["AbstractSet"@, "NavigableSet"@, "Cloneable"@, "Serializable"@]
    } else if class == "[]"@ {
        seq!["Cloneable"@, "Serializable"@]
    } else if class == "List$immutable"@ {
        seq!["AbstractCollection"@, "List"@, "RandomAccess"@, "Serializable"@]
    } else if class == "Set$immutable"@ {
        seq!["AbstractCollection"@, "Set"@, "Serializable"@]
    } else if class == "List$fixed"@ {
        seq!["AbstractList"@, "RandomAccess"@, "Serializable"@]
    } else if class == "List$sub"@ {
        seq!["AbstractList"@, "RandomAccess"@]
    } else {
        seq![]
    }
}

/// The direct supertypes of a JDK type.
pub fn jdk_supers(class: &str) -> (r: Vec<&'static str>)
    ensures
        strs(r@) == jdk_supers_of(class@),
{
    let r: Vec<&'static str>;
    if same(class, "String") {
        r = vec!["CharSequence", "Comparable", "Serializable"];
        assert(strs(r@) =~= jdk_supers_of(class@));
    } else if same(class, "Integer") || same(class, "Double") || same(class, "Long") || same(class, "Short") || same(class, "Byte") || same(class, "Float") {
        r = vec!["Number", "Comparable"];
        assert(strs(r@) =~= jdk_supers_of(class@));
    } else if same(class, "Number") {
        r = vec!["Serializable"];
        assert(strs(r@) =~= jdk_supers_of(class@));
    } else if same(class, "Boolean") || same(class, "Character") {
        r = vec!["Comparable", "Serializable"];
        assert(strs(r@) =~= jdk_supers_of(class@));
    } else if same(class, "Enum") {
        r = vec!["Comparable", "Serializable"];
        assert(strs(r@) =~= jdk_supers_of(class@));
    } else if same(class, "StringBuilder") || same(class, "StringBuffer") {
        r = vec!["AbstractStringBuilder", "Comparable", "Serializable"];
        assert(strs(r@) =~= jdk_supers_of(class@));
    } else if same(class, "AbstractStringBuilder") {
        r = vec!["CharSequence", "Appendable"];
        assert(strs(r@) =~= jdk_supers_of(class@));
    } else if same(class, "Throwable") {
        r = vec!["Serializable"];
        assert(strs(r@) =~= jdk_supers_of(class@));
    } else if same(class, "List") {
        r = vec!["Collection", "SequencedCollection"];
        assert(strs(r@) =~= jdk_supers_of(class@));
    } else if same(class, "Set") {
        r = vec!["Collection"];
        assert(strs(r@) =~= jdk_supers_of(class@));
    } else if same(class, "SequencedCollection") {
        r = vec!["Collection"];
        assert(strs(r@) =~= jdk_supers_of(class@));
    } else if same(class, "SequencedSet") {
        r = vec!["Set", "SequencedCollection"];
        assert(strs(r@) =~= jdk_supers_of(class@));
    } else if same(class, "Collection") {
        r = vec!["Iterable"];
        assert(strs(r@) =~= jdk_supers_of(class@));
    } else if same(class, "SortedSet") {
        r = vec!["SequencedSet"];
        assert(strs(r@) =~= jdk_supers_of(class@));
    } else if same(class, "NavigableSet") {
        r = vec!["SortedSet"];
        assert(strs(r@) =~= jdk_supers_of(class@));
    } else if same(class, "SequencedMap") {
        r = vec!["Map"];
        assert(strs(r@) =~= jdk_supers_of(class@));
    } else if same(class, "SortedMap") {
        r = vec!["SequencedMap"];
        assert(strs(r@) =~= jdk_supers_of(class@));
    } else if same(class, "NavigableMap") {
        r = vec!["SortedMap"];
        assert(strs(r@) =~= jdk_supers_of(class@));
    } else if same(class, "AbstractCollection") {
        r = vec!["Collection"];
        assert(strs(r@) =~= jdk_supers_of(class@));
    } else if same(class, "AbstractList") {
        r = vec!["AbstractCollection", "List"];
        assert(strs(r@) =~= jdk_supers_of(class@));
    } else if same(class, "AbstractSet") {
        r = vec!["AbstractCollection", "Set"];
        assert(strs(r@) =~= jdk_supers_of(class@));
    } else if same(class, "AbstractMap") {
        r = vec!["Map"];
        assert(strs(r@) =~= jdk_supers_of(class@));
    } else if same(class, "ArrayList") {
        r = vec!["AbstractList", "RandomAccess", "Cloneable", "Serializable"];
        assert(strs(r@) =~= jdk_supers_of(class@));
    } else if same(class, "HashMap") {
        r = vec!["AbstractMap", "Cloneable", "Serializable"];
        assert(strs(r@) =~= jdk_supers_of(class@));
    } else if same(class, "LinkedHashMap") {
        r = vec!["HashMap", "SequencedMap"];
        assert(strs(r@) =~= jdk_supers_of(class@));
    } else if same(class, "TreeMap") {
        r = vec!["AbstractMap", "NavigableMap", "Cloneable", "Serializable"];
        assert(strs(r@) =~= jdk_supers_of(class@));
    } else if same(class, "HashSet") {
        r = vec!["AbstractSet", "Cloneable", "Serializable"];
        assert(strs(r@) =~= jdk_supers_of(class@));
    } else if same(class, "LinkedHashSet") {
        r = vec!["HashSet", "SequencedSet"];
        assert(strs(r@) =~= jdk_supers_of(class@));
    } else if same(class, "TreeSet") {
        r = vec!["AbstractSet", "NavigableSet", "Cloneable", "Serializable"];
        assert(strs(r@) =~= jdk_supers_of(class@));
    } else if same(class, "[]") {
        r = vec!["Cloneable", "Serializable"];
        assert(strs(r@) =~= jdk_supers_of(class@));
    } else if same(class, "List$immutable") {
        r = vec!["AbstractCollection", "List", "RandomAccess", "Serializable"];
        assert(strs(r@) =~= jdk_supers_of(class@));
    } else if same(class, "Set$immutable") {
        r = vec!["AbstractCollection", "Set", "Serializable"];
        assert(strs(r@) =~= jdk_supers_of(class@));
    } else if same(class, "List$fixed") {
        r = vec!["AbstractList", "RandomAccess", "Serializable"];
        assert(strs(r@) =~= jdk_supers_of(class@));
    } else if same(class, "List$sub") {
        r = vec!["AbstractList", "RandomAccess"];
        assert(strs(r@) =~= jdk_supers_of(class@));
    } else {
        r = Vec::new();
        assert(strs(r@) =~= jdk_supers_of(class@));
    }
    r
}

/// Every name that is the supertype of a JDK type.
pub open spec fn jdk_names() -> Seq<Seq<char>> {
    seq![
        "CharSequence"@,
        "Comparable"@,
        "Serializable"@,
        "Number"@,
        "AbstractStringBuilder"@,
        "Appendable"@,
        "Collection"@,
        "SequencedCollection"@,
        "Set"@,
        "Iterable"@,
        "SequencedSet"@,
        "SortedSet"@,
        "Map"@,
        "SequencedMap"@,
        "SortedMap"@,
        "AbstractCollection"@,
        "List"@,
        "AbstractList"@,
        "RandomAccess"@,
        "Cloneable"@,
        "AbstractMap"@,
        "HashMap"@,
        "NavigableMap"@,
        "AbstractSet"@,
        "HashSet"@,
        "NavigableSet"@,
    ]
}

proof fn lemma_jdk_names(class: Seq<char>)
    ensures
        forall|i: int|
            0 <= i < jdk_supers_of(class).len() ==> jdk_names().contains(
                #[trigger] jdk_supers_of(class)[i],
            ),
{
    assert forall|i: int| 0 <= i < jdk_supers_of(class).len() implies jdk_names().contains(
        #[trigger] jdk_supers_of(class)[i],
    ) by {
        assert(jdk_names()[0] == "CharSequence"@);
        assert(jdk_names()[1] == "Comparable"@);
        assert(jdk_names()[2] == "Serializable"@);
        assert(jdk_names()[3] == "Number"@);
        assert(jdk_names()[4] == "AbstractStringBuilder"@);
        assert(jdk_names()[5] == "Appendable"@);
        assert(jdk_names()[6] == "Collection"@);
        assert(jdk_names()[7] == "SequencedCollection"@);
        assert(jdk_names()[8] == "Set"@);
        assert(jdk_names()[9] == "Iterable"@);
        assert(jdk_names()[10] == "SequencedSet"@);
        assert(jdk_names()[11] == "SortedSet"@);
        assert(jdk_names()[12] == "Map"@);
        assert(jdk_names()[13] == "SequencedMap"@);
        assert(jdk_names()[14] == "SortedMap"@);
        assert(jdk_names()[15] == "AbstractCollection"@);
        assert(jdk_names()[16] == "List"@);
        assert(jdk_names()[17] == "AbstractList"@);
        assert(jdk_names()[18] == "RandomAccess"@);
        assert(jdk_names()[19] == "Cloneable"@);
        assert(jdk_names()[20] == "AbstractMap"@);
        assert(jdk_names()[21] == "HashMap"@);
        assert(jdk_names()[22] == "NavigableMap"@);
        assert(jdk_names()[23] == "AbstractSet"@);
        assert(jdk_names()[24] == "HashSet"@);
        assert(jdk_names()[25] == "NavigableSet"@);
    }
}

/// The supertypes a table gives a type: those of its last row for it.
pub open spec fn row_of(rows: Seq<Row>, name: Seq<char>) -> Seq<Seq<char>>
    decreases rows.len(),
{
    if rows.len() == 0 {
        seq![]
    } else if rows.last().0 == name {
        rows.last().1
    } else {
        row_of(rows.drop_last(), name)
    }
}

/// Whether `b` is a direct supertype of `a`, in the program or in the JDK.
pub open spec fn extends(rows: Seq<Row>, a: Seq<char>, b: Seq<char>) -> bool {
    row_of(rows, a).contains(b) || jdk_supers_of(a).contains(b)
}

/// A chain of types, each a direct supertype of the one before.
pub open spec fn chain(rows: Seq<Row>, p: Seq<Seq<char>>) -> bool {
    forall|i: int| 0 <= i < p.len() - 1 ==> extends(rows, #[trigger] p[i], p[i + 1])
}

/// Whether `p` is a chain from `a` to `b`.
pub open spec fn chain_between(
    rows: Seq<Row>,
    p: Seq<Seq<char>>,
    a: Seq<char>,
    b: Seq<char>,
) -> bool {
    p.len() > 0 && p[0] == a && p.last() == b && chain(rows, p)
}

/// Whether `class` is `target` or reaches it through supertypes.
pub open spec fn subclass(rows: Seq<Row>, class: Seq<char>, target: Seq<char>) -> bool {
    exists|p: Seq<Seq<char>>| chain_between(rows, p, class, target)
}

pub(crate) fn find_row(rows: &Vec<(String, Vec<String>)>, name: &str) -> (r: Option<usize>)
    ensures
        match r {
            Some(i) => i < rows.len() && views(rows@[i as int].1@) == row_of(
                row_views(rows@),
                name@,
            ),
            None => row_of(row_views(rows@), name@) == Seq::<Seq<char>>::empty(),
        },
{
    let mut i: usize = rows.len();
    assert(row_views(rows@).take(rows.len() as int) =~= row_views(rows@));
    while i > 0
        invariant
            i <= rows.len(),
            row_of(row_views(rows@), name@) == row_of(row_views(rows@).take(i as int), name@),
        decreases i,
    {
        proof {
            let t = row_views(rows@).take(i as int);
            assert(t.drop_last() =~= row_views(rows@).take(i - 1));
            assert(t.last() == row_views(rows@)[i - 1]);
        }
        i -= 1;
        if same(rows[i].0.as_str(), name) {
            return Some(i);
        }
    }
    None
}

/// Every name that occurs as a supertype in a table.
pub open spec fn row_names(rows: Seq<Row>) -> Seq<Seq<char>>
    decreases rows.len(),
{
    if rows.len() == 0 {
        seq![]
    } else {
        row_names(rows.drop_last()) + rows.last().1
    }
}

proof fn lemma_row_names(rows: Seq<Row>, name: Seq<char>)
    ensures
        forall|i: int|
            0 <= i < row_of(rows, name).len() ==> row_names(rows).contains(
                #[trigger] row_of(rows, name)[i],
            ),
    decreases rows.len(),
{
    if rows.len() > 0 {
        let head = row_names(rows.drop_last());
        let last = rows.last().1;
        lemma_row_names(rows.drop_last(), name);
        assert forall|i: int| 0 <= i < row_of(rows, name).len() implies row_names(rows).contains(
            #[trigger] row_of(rows, name)[i],
        ) by {
            if rows.last().0 == name {
                assert((head + last)[head.len() + i] == last[i]);
            } else {
                let x = row_of(rows.drop_last(), name)[i];
                assert(head.contains(x));
                let k = choose|k: int| 0 <= k < head.len() && head[k] == x;
                assert((head + last)[k] == x);
            }
        }
    }
}

/// Everything reachable from `class` is among these.
spec fn universe(rows: Seq<Row>, class: Seq<char>) -> Seq<Seq<char>> {
    seq![class] + row_names(rows) + jdk_names()
}

proof fn lemma_universe(rows: Seq<Row>, class: Seq<char>, a: Seq<char>, b: Seq<char>)
    requires
        extends(rows, a, b),
    ensures
        universe(rows, class).contains(b),
{
    lemma_jdk_names(a);
    lemma_row_names(rows, a);
    let u = universe(rows, class);
    let n = row_names(rows);
    if row_of(rows, a).contains(b) {
        let i = choose|i: int| 0 <= i < row_of(rows, a).len() && row_of(rows, a)[i] == b;
        assert(n.contains(row_of(rows, a)[i]));
        let k = choose|k: int| 0 <= k < n.len() && n[k] == b;
        assert(u[1 + k] == b);
    } else {
        let i = choose|i: int| 0 <= i < jdk_supers_of(a).len() && jdk_supers_of(a)[i] == b;
        assert(jdk_names().contains(jdk_supers_of(a)[i]));
        let k = choose|k: int| 0 <= k < jdk_names().len() && jdk_names()[k] == b;
        assert(u[1 + n.len() + k] == b);
    }
}

/// A closed set of types that holds the start of a chain holds all of it.
proof fn lemma_closed(rows: Seq<Row>, seen: Seq<Seq<char>>, p: Seq<Seq<char>>, n: int)
    requires
        chain(rows, p),
        p.len() > 0,
        seen.contains(p[0]),
        0 <= n < p.len(),
        forall|a: Seq<char>, b: Seq<char>|
            seen.contains(a) && #[trigger] extends(rows, a, b) ==> seen.contains(b),
    ensures
        seen.contains(p[n]),
    decreases n,
{
    if n > 0 {
        lemma_closed(rows, seen, p, n - 1);
        assert(extends(rows, p[n - 1], p[n - 1 + 1]));
    }
}

proof fn lemma_chain_push(
    rows: Seq<Row>,
    p: Seq<Seq<char>>,
    a: Seq<char>,
    m: Seq<char>,
    b: Seq<char>,
)
    requires
        chain_between(rows, p, a, m),
        extends(rows, m, b),
    ensures
        chain_between(rows, p.push(b), a, b),
{
    let q = p.push(b);
    assert forall|i: int| 0 <= i < q.len() - 1 implies extends(
        rows,
        #[trigger] q[i],
        q[i + 1],
    ) by {
        if i < p.len() - 1 {
            assert(p[i] == q[i]);
            assert(p[i + 1] == q[i + 1]);
        } else {
            assert(q[i] == p.last());
        }
    }
}

proof fn lemma_step(rows: Seq<Row>, a: Seq<char>, m: Seq<char>, b: Seq<char>)
    requires
        subclass(rows, a, m),
        extends(rows, m, b),
    ensures
        subclass(rows, a, b),
{
    let p = choose|p: Seq<Seq<char>>| chain_between(rows, p, a, m);
    lemma_chain_push(rows, p, a, m, b);
}

/// A duplicate-free list over a finite list of names is no longer than it.
proof fn lemma_bounded(s: Seq<Seq<char>>, u: Seq<Seq<char>>)
    requires
        s.no_duplicates(),
        forall|x: Seq<char>| s.contains(x) ==> u.contains(x),
    ensures
        s.len() <= u.len(),
{
    s.unique_seq_to_set();
    assert(s.to_set().subset_of(u.to_set()));
    u.lemma_cardinality_of_set();
    vstd::set_lib::lemma_len_subset(s.to_set(), u.to_set());
}

/// Whether `class` is `target`, a subclass of it, or a type that implements it.
///
/// Both halves of the graph are walked at every node: the program's own
/// declarations and the JDK's.
pub fn is_subclass_of(host: &Host, class: &str, target: &str) -> (r: bool)
    ensures
        r == subclass(host@.supers, class@, target@),
{
    let ghost rows = host@.supers;
    let ghost u = universe(rows, class@);
    let mut stack: Vec<String> = Vec::new();
    let mut seen: Vec<String> = Vec::new();
    stack.push(own(class));
    proof {
        let p = seq![class@];
        assert(chain_between(rows, p, class@, class@));
        assert(views(stack@) =~= seq![class@]);
        assert(views(seen@) =~= seq![]);
        assert(u[0] == class@);
    }
    while stack.len() > 0
        invariant
            rows == host@.supers,
            u == universe(rows, class@),
            views(seen@).no_duplicates(),
            forall|x: Seq<char>|
                #[trigger] views(seen@).contains(x) ==> u.contains(x) && x != target@,
            forall|k: int|
                0 <= k < stack.len() ==> u.contains((#[trigger] stack@[k])@) && subclass(
                    rows,
                    class@,
                    stack@[k]@,
                ),
            forall|x: Seq<char>|
                #[trigger] views(seen@).contains(x) ==> subclass(rows, class@, x),
            views(seen@).contains(class@) || views(stack@).contains(class@),
            forall|a: Seq<char>, b: Seq<char>|
                views(seen@).contains(a) && #[trigger] extends(rows, a, b) ==> views(
                    seen@,
                ).contains(b) || views(stack@).contains(b),
        decreases u.len() - seen.len(), stack.len(),
    {
        let ghost stack0 = views(stack@);
        let ghost seen0 = views(seen@);
        proof {
            lemma_bounded(seen0, u);
        }
        let cur: String = match stack.pop() {
            Some(c) => c,
            None => {
                return false;
            },
        };
        proof {
            assert(stack0 =~= views(stack@).push(cur@));
            assert(stack0[stack0.len() - 1] == cur@);
            assert forall|x: Seq<char>| stack0.contains(x) implies views(stack@).contains(x) || x
                == cur@ by {
                let k = choose|k: int| 0 <= k < stack0.len() && stack0[k] == x;
                if k < stack0.len() - 1 {
                    assert(views(stack@)[k] == x);
                }
            }
        }
        if same(cur.as_str(), target) {
            return true;
        }
        if is_listed(&seen, cur.as_str()) {
            proof {
                assert(seen0.contains(cur@));
            }
            continue ;
        }
        let ghost stack1 = views(stack@);
        let own_row: Option<usize> = find_row(&host.supers, cur.as_str());
        let ghost row = row_of(rows, cur@);
        let mut i: usize = 0;
        let n: usize = match own_row {
            Some(at) => host.supers[at].1.len(),
            None => 0,
        };
        while i < n
            invariant
                rows == host@.supers,
                u == universe(rows, class@),
                i <= n,
                row == row_of(rows, cur@),
                n == row.len(),
                own_row matches Some(at) ==> at < host.supers.len() && views(
                    host.supers@[at as int].1@,
                ) == row,
                own_row is None ==> n == 0,
                subclass(rows, class@, cur@),
                views(stack@) =~= stack1 + row.take(i as int),
                forall|k: int|
                    0 <= k < stack.len() ==> u.contains((#[trigger] stack@[k])@) && subclass(
                        rows,
                        class@,
                        stack@[k]@,
                    ),
            decreases n - i,
        {
            if let Some(at) = own_row {
                assert(row[i as int] == host.supers@[at as int].1@[i as int]@);
                proof {
                    assert(row.contains(row[i as int]));
                    lemma_universe(rows, class@, cur@, row[i as int]);
                    lemma_step(rows, class@, cur@, row[i as int]);
                }
                let ghost pushed = views(stack@).push(row[i as int]);
                stack.push(own(host.supers[at].1[i].as_str()));
                assert(views(stack@) =~= pushed);
                assert(row.take(i + 1) =~= row.take(i as int).push(row[i as int]));
            }
            i += 1;
        }
        let jdk: Vec<&'static str> = jdk_supers(cur.as_str());
        let ghost jrow = jdk_supers_of(cur@);
        let ghost stack2 = views(stack@);
        assert(row.take(n as int) =~= row);
        let mut j: usize = 0;
        while j < jdk.len()
            invariant
                rows == host@.supers,
                u == universe(rows, class@),
                j <= jdk.len(),
                strs(jdk@) == jrow,
                jrow == jdk_supers_of(cur@),
                subclass(rows, class@, cur@),
                views(stack@) =~= stack2 + jrow.take(j as int),
                forall|k: int|
                    0 <= k < stack.len() ==> u.contains((#[trigger] stack@[k])@) && subclass(
                        rows,
                        class@,
                        stack@[k]@,
                    ),
            decreases jdk.len() - j,
        {
            proof {
                assert(strs(jdk@)[j as int] == jdk@[j as int]@);
                assert(jrow.contains(jrow[j as int]));
                lemma_universe(rows, class@, cur@, jrow[j as int]);
                lemma_step(rows, class@, cur@, jrow[j as int]);
            }
            let ghost pushed = views(stack@).push(jrow[j as int]);
            stack.push(own(jdk[j]));
            assert(views(stack@) =~= pushed);
            assert(jrow.take(j + 1) =~= jrow.take(j as int).push(jrow[j as int]));
            j += 1;
        }
        let ghost name = cur@;
        seen.push(cur);
        proof {
            assert(jrow.take(jdk.len() as int) =~= jrow);
            let seen1 = views(seen@);
            let stack3 = views(stack@);
            assert(seen1 =~= seen0.push(name));
            assert(stack3 =~= stack1 + row + jrow);
            assert(seen1[seen1.len() - 1] == name);
            assert forall|x: Seq<char>| seen1.contains(x) implies seen0.contains(x) || x
                == name by {
                let k = choose|k: int| 0 <= k < seen1.len() && seen1[k] == x;
                if k < seen0.len() {
                    assert(seen0[k] == x);
                }
            }
            assert forall|x: Seq<char>| seen0.contains(x) implies seen1.contains(x) by {
                let k = choose|k: int| 0 <= k < seen0.len() && seen0[k] == x;
                assert(seen1[k] == x);
            }
            assert forall|x: Seq<char>| stack1.contains(x) implies stack3.contains(x) by {
                let k = choose|k: int| 0 <= k < stack1.len() && stack1[k] == x;
                assert(stack3[k] == x);
            }
            assert(seen1.no_duplicates()) by {
                assert forall|a: int, b: int| 0 <= a < b < seen1.len() implies seen1[a]
                    != seen1[b] by {
                    if b == seen0.len() {
                        assert(seen0[a] == seen1[a]);
                        assert(seen0.contains(seen0[a]));
                    }
                }
            }
            assert forall|a: Seq<char>, b: Seq<char>|
                seen1.contains(a) && #[trigger] extends(rows, a, b) implies seen1.contains(b)
                || stack3.contains(b) by {
                if a == name {
                    if row.contains(b) {
                        let k = choose|k: int| 0 <= k < row.len() && row[k] == b;
                        assert(stack3[stack1.len() + k] == b);
                    } else {
                        let k = choose|k: int| 0 <= k < jrow.len() && jrow[k] == b;
                        assert(stack3[stack1.len() + row.len() + k] == b);
                    }
                } else {
                    assert(seen0.contains(a));
                    assert(seen0.contains(b) || stack0.contains(b));
                }
            }
            lemma_bounded(seen1, u);
        }
    }
    proof {
        assert(views(stack@) =~= seq![]);
        if subclass(rows, class@, target@) {
            let p = choose|p: Seq<Seq<char>>| chain_between(rows, p, class@, target@);
            lemma_closed(rows, views(seen@), p, p.len() - 1);
            assert(p.last() == target@);
        }
    }
    false
}

/// Being a subclass is reflexive and transitive.
pub proof fn subclassing_is_a_preorder(
    rows: Seq<Row>,
    a: Seq<char>,
    b: Seq<char>,
    c: Seq<char>,
)
    ensures
        subclass(rows, a, a),
        subclass(rows, a, b) && subclass(rows, b, c) ==> subclass(rows, a, c),
{
    assert(chain_between(rows, seq![a], a, a));
    if subclass(rows, a, b) && subclass(rows, b, c) {
        let p = choose|p: Seq<Seq<char>>| chain_between(rows, p, a, b);
        let q = choose|q: Seq<Seq<char>>| chain_between(rows, q, b, c);
        let r = p + q.skip(1);
        assert forall|i: int| 0 <= i < r.len() - 1 implies extends(
            rows,
            #[trigger] r[i],
            r[i + 1],
        ) by {
            if i < p.len() - 1 {
                assert(p[i] == r[i] && p[i + 1] == r[i + 1]);
            } else {
                let k = i - (p.len() - 1);
                assert(q[k] == r[i] && q[k + 1] == r[i + 1]);
            }
        }
        assert(r[0] == a);
        assert(r.last() == c);
        assert(chain_between(rows, r, a, c));
    }
}

// ── Cast targets ────────────────────────────────────────────────────────────

/// The types a reference cast can be decided for. `Object` is not one: every
/// value satisfies it.
pub open spec fn cast_targets() -> Seq<Seq<char>> {
    seq![
        "String"@,
        "Integer"@,
        "Long"@,
        "Short"@,
        "Byte"@,
        "Double"@,
        "Float"@,
        "Boolean"@,
        "Character"@,
        "Number"@,
        "CharSequence"@,
        "Comparable"@,
        "Cloneable"@,
        "Iterable"@,
        "Enum"@,
        "Record"@,
        "Serializable"@,
        "List"@,
        "ArrayList"@,
        "LinkedList"@,
        "Collection"@,
        "SequencedCollection"@,
        "AbstractCollection"@,
        "AbstractList"@,
        "RandomAccess"@,
        "Set"@,
        "HashSet"@,
        "LinkedHashSet"@,
        "TreeSet"@,
        "SortedSet"@,
        "NavigableSet"@,
        "SequencedSet"@,
        "AbstractSet"@,
        "Map"@,
        "HashMap"@,
        "LinkedHashMap"@,
        "TreeMap"@,
        "SortedMap"@,
        "NavigableMap"@,
        "SequencedMap"@,
        "AbstractMap"@,
    ]
}

/// The types a reference cast can be decided for.
pub fn checkable_cast_targets() -> (r: Vec<&'static str>)
    ensures
        strs(r@) == cast_targets(),
{
    let r: Vec<&'static str> = vec![
        "String",
        "Integer",
        "Long",
        "Short",
        "Byte",
        "Double",
        "Float",
        "Boolean",
        "Character",
        "Number",
        "CharSequence",
        "Comparable",
        "Cloneable",
        "Iterable",
        "Enum",
        "Record",
        "Serializable",
        "List",
        "ArrayList",
        "LinkedList",
        "Collection",
        "SequencedCollection",
        "AbstractCollection",
        "AbstractList",
        "RandomAccess",
        "Set",
        "HashSet",
        "LinkedHashSet",
        "TreeSet",
        "SortedSet",
        "NavigableSet",
        "SequencedSet",
        "AbstractSet",
        "Map",
        "HashMap",
        "LinkedHashMap",
        "TreeMap",
        "SortedMap",
        "NavigableMap",
        "SequencedMap",
        "AbstractMap",
    ];
    assert(strs(r@) =~= cast_targets());
    r
}

/// Whether a reference cast to `ty` is one that can be decided.
pub fn is_checkable_cast_target(ty: &str) -> (r: bool)
    ensures
        r == listed(cast_targets(), ty@),
{
    let t: Vec<&'static str> = checkable_cast_targets();
    let mut i: usize = 0;
    while i < t.len()
        invariant
            i <= t.len(),
            strs(t@) == cast_targets(),
            forall|k: int| 0 <= k < i ==> cast_targets()[k] != ty@,
        decreases t.len() - i,
    {
        assert(strs(t@)[i as int] == cast_targets()[i as int]);
        if same(t[i], ty) {
            return true;
        }
        i += 1;
    }
    false
}

/// The list of cast targets is closed over the supertype graph: a direct
/// supertype of a listed JDK type is listed too.
pub proof fn cast_targets_are_closed(t: Seq<char>, i: int)
    requires
        listed(cast_targets(), t),
        0 <= i < jdk_supers_of(t).len(),
    ensures
        listed(cast_targets(), jdk_supers_of(t)[i]),
{
    assert(cast_targets()[10] == "CharSequence"@);
    assert(cast_targets()[11] == "Comparable"@);
    assert(cast_targets()[16] == "Serializable"@);
    assert(cast_targets()[9] == "Number"@);
    assert(cast_targets()[20] == "Collection"@);
    assert(cast_targets()[21] == "SequencedCollection"@);
    assert(cast_targets()[25] == "Set"@);
    assert(cast_targets()[13] == "Iterable"@);
    assert(cast_targets()[31] == "SequencedSet"@);
    assert(cast_targets()[29] == "SortedSet"@);
    assert(cast_targets()[33] == "Map"@);
    assert(cast_targets()[39] == "SequencedMap"@);
    assert(cast_targets()[37] == "SortedMap"@);
    assert(cast_targets()[22] == "AbstractCollection"@);
    assert(cast_targets()[17] == "List"@);
    assert(cast_targets()[23] == "AbstractList"@);
    assert(cast_targets()[24] == "RandomAccess"@);
    assert(cast_targets()[12] == "Cloneable"@);
    assert(cast_targets()[40] == "AbstractMap"@);
    assert(cast_targets()[34] == "HashMap"@);
    assert(cast_targets()[38] == "NavigableMap"@);
    assert(cast_targets()[32] == "AbstractSet"@);
    assert(cast_targets()[26] == "HashSet"@);
    assert(cast_targets()[30] == "NavigableSet"@);
    lemma_builders_are_not_targets();
}

proof fn lemma_builders_are_not_targets()
    ensures
        !listed(cast_targets(), "StringBuilder"@),
        !listed(cast_targets(), "StringBuffer"@),
        !listed(cast_targets(), "AbstractStringBuilder"@),
{
    reveal_strlit("StringBuilder");
    reveal_strlit("StringBuffer");
    reveal_strlit("AbstractStringBuilder");
    reveal_strlit("String");
    reveal_strlit("Integer");
    reveal_strlit("Long");
    reveal_strlit("Short");
    reveal_strlit("Byte");
    reveal_strlit("Double");
    reveal_strlit("Float");
    reveal_strlit("Boolean");
    reveal_strlit("Character");
    reveal_strlit("Number");
    reveal_strlit("CharSequence");
    reveal_strlit("Comparable");
    reveal_strlit("Cloneable");
    reveal_strlit("Iterable");
    reveal_strlit("Enum");
    reveal_strlit("Record");
    reveal_strlit("Serializable");
    reveal_strlit("List");
    reveal_strlit("ArrayList");
    reveal_strlit("LinkedList");
    reveal_strlit("Collection");
    reveal_strlit("SequencedCollection");
    reveal_strlit("AbstractCollection");
    reveal_strlit("AbstractList");
    reveal_strlit("RandomAccess");
    reveal_strlit("Set");
    reveal_strlit("HashSet");
    reveal_strlit("LinkedHashSet");
    reveal_strlit("TreeSet");
    reveal_strlit("SortedSet");
    reveal_strlit("NavigableSet");
    reveal_strlit("SequencedSet");
    reveal_strlit("AbstractSet");
    reveal_strlit("Map");
    reveal_strlit("HashMap");
    reveal_strlit("LinkedHashMap");
    reveal_strlit("TreeMap");
    reveal_strlit("SortedMap");
    reveal_strlit("NavigableMap");
    reveal_strlit("SequencedMap");
    reveal_strlit("AbstractMap");
    let b = "StringBuilder"@;
    let f = "StringBuffer"@;
    let a = "AbstractStringBuilder"@;
    assert forall|k: int| 0 <= k < cast_targets().len() implies #[trigger] cast_targets()[k] != b
        && cast_targets()[k] != f && cast_targets()[k] != a by {
        let c = cast_targets()[k];
        assert(c.len() != 13 || c[0] != 'S');
        assert(c.len() != 12 || c[6] != 'B');
        assert(c.len() != 21);
    }
}

/// The names of the shapes no program can write are not cast targets, and each
/// has supertypes.
pub proof fn shape_names_are_not_targets()
    ensures
        forall|s: Seq<char>|
            s == "[]"@ || s == "List$immutable"@ || s == "List$fixed"@ || s == "List$sub"@ || s
                == "Set$immutable"@ ==> !#[trigger] listed(cast_targets(), s) && jdk_supers_of(
                s,
            ).len() > 0,
{
    reveal_strlit("[]");
    reveal_strlit("List$immutable");
    reveal_strlit("List$fixed");
    reveal_strlit("List$sub");
    reveal_strlit("Set$immutable");
    reveal_strlit("String");
    reveal_strlit("Integer");
    reveal_strlit("Long");
    reveal_strlit("Short");
    reveal_strlit("Byte");
    reveal_strlit("Double");
    reveal_strlit("Float");
    reveal_strlit("Boolean");
    reveal_strlit("Character");
    reveal_strlit("Number");
    reveal_strlit("CharSequence");
    reveal_strlit("Comparable");
    reveal_strlit("Cloneable");
    reveal_strlit("Iterable");
    reveal_strlit("Enum");
    reveal_strlit("Record");
    reveal_strlit("Serializable");
    reveal_strlit("List");
    reveal_strlit("ArrayList");
    reveal_strlit("LinkedList");
    reveal_strlit("Collection");
    reveal_strlit("SequencedCollection");
    reveal_strlit("AbstractCollection");
    reveal_strlit("AbstractList");
    reveal_strlit("RandomAccess");
    reveal_strlit("Set");
    reveal_strlit("HashSet");
    reveal_strlit("LinkedHashSet");
    reveal_strlit("TreeSet");
    reveal_strlit("SortedSet");
    reveal_strlit("NavigableSet");
    reveal_strlit("SequencedSet");
    reveal_strlit("AbstractSet");
    reveal_strlit("Map");
    reveal_strlit("HashMap");
    reveal_strlit("LinkedHashMap");
    reveal_strlit("TreeMap");
    reveal_strlit("SortedMap");
    reveal_strlit("NavigableMap");
    reveal_strlit("SequencedMap");
    reveal_strlit("AbstractMap");
    assert forall|k: int| 0 <= k < cast_targets().len() implies (#[trigger] cast_targets()[k]).len()
        > 2 && (cast_targets()[k].len() > 3 ==> cast_targets()[k][3] != '$') && (
    cast_targets()[k].len() > 4 ==> cast_targets()[k][4] != '$') by {
    }
    assert forall|s: Seq<char>|
        s == "[]"@ || s == "List$immutable"@ || s == "List$fixed"@ || s == "List$sub"@ || s
            == "Set$immutable"@ implies !#[trigger] listed(cast_targets(), s) && jdk_supers_of(
        s,
    ).len() > 0 by {
    }
}

// ── Names ───────────────────────────────────────────────────────────────────

/// The name a table gives: that of its last row for it, the name itself when
/// there is none.
pub open spec fn renamed(rows: Seq<(Seq<char>, Seq<char>)>, name: Seq<char>) -> Seq<char>
    decreases rows.len(),
{
    if rows.len() == 0 {
        name
    } else if rows.last().0 == name {
        rows.last().1
    } else {
        renamed(rows.drop_last(), name)
    }
}

/// The name `getClass().getName()` reports: qualified for a modeled JDK class,
/// binary for a nested class of the program, plain otherwise.
pub open spec fn binary_or_qualified(h: HostV, class: Seq<char>) -> Seq<char> {
    match class_name(class) {
        Some(q) => q,
        None => renamed(h.binary, class),
    }
}

/// The name `getClass().getName()` reports for `class`.
pub fn qualified_or_binary(host: &Host, class: &str) -> (r: String)
    ensures
        r@ == binary_or_qualified(host@, class@),
{
    if let Some(q) = qualified_class(class) {
        return q;
    }
    let rows: &Vec<(String, String)> = &host.binary;
    let mut i: usize = rows.len();
    assert(rename_views(rows@).take(rows.len() as int) =~= rename_views(rows@));
    while i > 0
        invariant
            i <= rows.len(),
            renamed(rename_views(rows@), class@) == renamed(
                rename_views(rows@).take(i as int),
                class@,
            ),
            rename_views(rows@) == host@.binary,
            class_name(class@) is None,
        decreases i,
    {
        proof {
            let t = rename_views(rows@).take(i as int);
            assert(t.drop_last() =~= rename_views(rows@).take(i - 1));
            assert(t.last() == rename_views(rows@)[i - 1]);
        }
        i -= 1;
        if same(rows[i].0.as_str(), class) {
            return own(rows[i].1.as_str());
        }
    }
    own(class)
}

/// Whether a modeled type is in `java.lang`.
pub open spec fn in_lang(n: Seq<char>) -> bool {
    ||| n == "String"@
    ||| n == "Integer"@
    ||| n == "Long"@
    ||| n == "Short"@
    ||| n == "Byte"@
    ||| n == "Double"@
    ||| n == "Float"@
    ||| n == "Boolean"@
    ||| n == "Character"@
    ||| n == "Number"@
    ||| n == "CharSequence"@
    ||| n == "Comparable"@
    ||| n == "Cloneable"@
    ||| n == "Iterable"@
    ||| n == "Enum"@
    ||| n == "Record"@
    ||| n == "Object"@
    ||| n == "StringBuilder"@
    ||| n == "StringBuffer"@
    ||| n == "AbstractStringBuilder"@
    ||| n == "Appendable"@
}

/// Whether a modeled type is in `java.util`.
pub open spec fn in_util(n: Seq<char>) -> bool {
    ||| n == "List"@
    ||| n == "ArrayList"@
    ||| n == "LinkedList"@
    ||| n == "Set"@
    ||| n == "HashSet"@
    ||| n == "LinkedHashSet"@
    ||| n == "TreeSet"@
    ||| n == "SortedSet"@
    ||| n == "NavigableSet"@
    ||| n == "SequencedSet"@
    ||| n == "SequencedCollection"@
    ||| n == "Collection"@
    ||| n == "Map"@
    ||| n == "HashMap"@
    ||| n == "LinkedHashMap"@
    ||| n == "TreeMap"@
    ||| n == "SortedMap"@
    ||| n == "NavigableMap"@
    ||| n == "SequencedMap"@
    ||| n == "AbstractCollection"@
    ||| n == "AbstractList"@
    ||| n == "AbstractSet"@
    ||| n == "AbstractMap"@
    ||| n == "RandomAccess"@
}

/// The qualified name of a modeled JDK type, the binary name of any other.
pub open spec fn jdk_or_binary(h: HostV, n: Seq<char>) -> Seq<char> {
    if in_lang(n) {
        "java.lang."@ + n
    } else if n == "Serializable"@ {
        "java.io.Serializable"@
    } else if in_util(n) {
        "java.util."@ + n
    } else {
        binary_or_qualified(h, n)
    }
}

fn is_lang(n: &str) -> (r: bool)
    ensures
        r == in_lang(n@),
{
    same(n, "String")
        || same(n, "Integer")
        || same(n, "Long")
        || same(n, "Short")
        || same(n, "Byte")
        || same(n, "Double")
        || same(n, "Float")
        || same(n, "Boolean")
        || same(n, "Character")
        || same(n, "Number")
        || same(n, "CharSequence")
        || same(n, "Comparable")
        || same(n, "Cloneable")
        || same(n, "Iterable")
        || same(n, "Enum")
        || same(n, "Record")
        || same(n, "Object")
        || same(n, "StringBuilder")
        || same(n, "StringBuffer")
        || same(n, "AbstractStringBuilder")
        || same(n, "Appendable")
}

fn is_util(n: &str) -> (r: bool)
    ensures
        r == in_util(n@),
{
    same(n, "List")
        || same(n, "ArrayList")
        || same(n, "LinkedList")
        || same(n, "Set")
        || same(n, "HashSet")
        || same(n, "LinkedHashSet")
        || same(n, "TreeSet")
        || same(n, "SortedSet")
        || same(n, "NavigableSet")
        || same(n, "SequencedSet")
        || same(n, "SequencedCollection")
        || same(n, "Collection")
        || same(n, "Map")
        || same(n, "HashMap")
        || same(n, "LinkedHashMap")
        || same(n, "TreeMap")
        || same(n, "SortedMap")
        || same(n, "NavigableMap")
        || same(n, "SequencedMap")
        || same(n, "AbstractCollection")
        || same(n, "AbstractList")
        || same(n, "AbstractSet")
        || same(n, "AbstractMap")
        || same(n, "RandomAccess")
}

/// The qualified name of a modeled JDK type, the binary name of any other.
pub fn jdk_name(host: &Host, n: &str) -> (r: String)
    ensures
        r@ == jdk_or_binary(host@, n@),
{
    if is_lang(n) {
        let mut r: String = own("java.lang.");
        r.append(n);
        r
    } else if same(n, "Serializable") {
        own("java.io.Serializable")
    } else if is_util(n) {
        let mut r: String = own("java.util.");
        r.append(n);
        r
    } else {
        qualified_or_binary(host, n)
    }
}

/// The name a throwable or another type goes by in a message.
pub open spec fn message_name(h: HostV, n: Seq<char>) -> Seq<char> {
    match throwable_name(n) {
        Some(q) => q,
        None => jdk_or_binary(h, n),
    }
}

/// The name a throwable or another type goes by in a message.
pub fn name_in_message(host: &Host, n: &str) -> (r: String)
    ensures
        r@ == message_name(host@, n@),
{
    match qualified_throwable(n) {
        Some(q) => q,
        None => jdk_name(host, n),
    }
}

/// `ClassCastException`'s message. The clause about modules is there when both
/// types are the JDK's.
pub open spec fn cast_text(h: HostV, from: Seq<char>, target: Seq<char>) -> Seq<char> {
    let t = message_name(h, target);
    let head = "class "@ + from + " cannot be cast to class "@ + t;
    if begins(from, "java."@) && begins(t, "java."@) {
        head + " ("@ + from + " and "@ + t + " are in module java.base of loader 'bootstrap')"@
    } else {
        head
    }
}

/// `ClassCastException`'s message, given the binary name of the value's class.
pub fn cast_message(host: &Host, from: &str, target: &str) -> (r: String)
    ensures
        r@ == cast_text(host@, from@, target@),
{
    let t: String = name_in_message(host, target);
    let mut r: String = own("class ");
    r.append(from);
    r.append(" cannot be cast to class ");
    r.append(t.as_str());
    if begins_with(from, "java.") && begins_with(t.as_str(), "java.") {
        r.append(" (");
        r.append(from);
        r.append(" and ");
        r.append(t.as_str());
        r.append(" are in module java.base of loader 'bootstrap')");
    }
    r
}

/// The source name of a primitive descriptor letter.
pub open spec fn primitive_of(d: Seq<char>) -> Option<Seq<char>> {
    if d == "I"@ {
        Some("int"@)
    } else if d == "J"@ {
        Some("long"@)
    } else if d == "S"@ {
        Some("short"@)
    } else if d == "B"@ {
        Some("byte"@)
    } else if d == "C"@ {
        Some("char"@)
    } else if d == "D"@ {
        Some("double"@)
    } else if d == "F"@ {
        Some("float"@)
    } else if d == "Z"@ {
        Some("boolean"@)
    } else {
        None
    }
}

/// The source name of a primitive descriptor letter.
pub fn descriptor_primitive(d: &str) -> (r: Option<&'static str>)
    ensures
        match r {
            Some(s) => primitive_of(d@) == Some(s@),
            None => primitive_of(d@) is None,
        },
{
    if same(d, "I") {
        Some("int")
    } else if same(d, "J") {
        Some("long")
    } else if same(d, "S") {
        Some("short")
    } else if same(d, "B") {
        Some("byte")
    } else if same(d, "C") {
        Some("char")
    } else if same(d, "D") {
        Some("double")
    } else if same(d, "F") {
        Some("float")
    } else if same(d, "Z") {
        Some("boolean")
    } else {
        None
    }
}

/// The descriptor of an array's component, spelled as in source.
pub open spec fn component_descriptor(h: HostV, c: Seq<char>) -> Seq<char> {
    if c == "int"@ {
        "I"@
    } else if c == "long"@ {
        "J"@
    } else if c == "short"@ {
        "S"@
    } else if c == "byte"@ {
        "B"@
    } else if c == "char"@ {
        "C"@
    } else if c == "double"@ {
        "D"@
    } else if c == "float"@ {
        "F"@
    } else if c == "boolean"@ {
        "Z"@
    } else {
        "L"@ + jdk_or_binary(h, c) + ";"@
    }
}

/// The descriptor `Class.getName()` reports for an array type spelled as in
/// source: one `[` per dimension, then the component. `None` for a type that
/// is not an array.
pub open spec fn descriptor(h: HostV, ty: Seq<char>) -> Option<Seq<char>>
    decreases ty.len(),
{
    if ty.len() < 2 || ty[ty.len() - 2] != '[' || ty[ty.len() - 1] != ']' {
        None
    } else {
        let c = ty.take(ty.len() - 2);
        match descriptor(h, c) {
            Some(inner) => Some("["@ + inner),
            None => Some("["@ + component_descriptor(h, c)),
        }
    }
}

fn component_text(host: &Host, c: &str) -> (r: String)
    ensures
        r@ == component_descriptor(host@, c@),
{
    if same(c, "int") {
        own("I")
    } else if same(c, "long") {
        own("J")
    } else if same(c, "short") {
        own("S")
    } else if same(c, "byte") {
        own("B")
    } else if same(c, "char") {
        own("C")
    } else if same(c, "double") {
        own("D")
    } else if same(c, "float") {
        own("F")
    } else if same(c, "boolean") {
        own("Z")
    } else {
        let mut r: String = own("L");
        r.append(jdk_name(host, c).as_str());
        r.append(";");
        r
    }
}

/// The descriptor `Class.getName()` reports for an array type.
pub fn array_descriptor(host: &Host, ty: &str) -> (r: Option<String>)
    ensures
        opt_view(r) == descriptor(host@, ty@),
    decreases ty@.len(),
{
    let c: Vec<char> = chars_of(ty);
    let n: usize = c.len();
    if n < 2 || c[n - 2] != '[' || c[n - 1] != ']' {
        return None;
    }
    let component: String = text_between(&c, 0, n - 2);
    assert(component@ =~= ty@.take(ty@.len() - 2));
    let mut r: String = own("[");
    match array_descriptor(host, component.as_str()) {
        Some(inner) => {
            r.append(inner.as_str());
        },
        None => {
            r.append(component_text(host, component.as_str()).as_str());
        },
    }
    Some(r)
}

/// The name `Class.getSimpleName()` reports for a binary name: what follows the
/// last `.` and then the last `$`. An array's is its source spelling, so its
/// descriptor is decoded; a descriptor letter counts as one only there.
pub open spec fn simple_name(binary: Seq<char>) -> Seq<char>
    decreases binary.len(),
{
    if binary.len() > 0 && binary[0] == '[' {
        let component = binary.skip(1);
        match primitive_of(component) {
            Some(p) => p + "[]"@,
            None => simple_name(component) + "[]"@,
        }
    } else if binary.len() > 1 && binary[0] == 'L' && binary[binary.len() - 1] == ';' {
        simple_name(binary.subrange(1, binary.len() - 1))
    } else {
        after_last(after_last(binary, '.'), '$')
    }
}

/// The name `Class.getSimpleName()` reports for a binary name.
pub fn simple_class_name(binary: &str) -> (r: String)
    ensures
        r@ == simple_name(binary@),
    decreases binary@.len(),
{
    let c: Vec<char> = chars_of(binary);
    let n: usize = c.len();
    if n > 0 && c[0] == '[' {
        let component: String = text_between(&c, 1, n);
        assert(component@ =~= binary@.skip(1));
        let mut r: String = match descriptor_primitive(component.as_str()) {
            Some(p) => own(p),
            None => simple_class_name(component.as_str()),
        };
        r.append("[]");
        return r;
    }
    if n > 1 && c[0] == 'L' && c[n - 1] == ';' {
        let reference: String = text_between(&c, 1, n - 1);
        return simple_class_name(reference.as_str());
    }
    let after_package: String = tail_after(binary, '.');
    tail_after(after_package.as_str(), '$')
}

// ── Names and descriptors ───────────────────────────────────────────────────

/// The type of an array's elements, spelled as in source.
pub open spec fn element_type(ty: Seq<char>) -> Seq<char>
    decreases ty.len(),
{
    if ty.len() < 2 || ty[ty.len() - 2] != '[' || ty[ty.len() - 1] != ']' {
        ty
    } else {
        element_type(ty.take(ty.len() - 2))
    }
}

/// Whether a text is an identifier without a `$`.
pub open spec fn is_simple(name: Seq<char>) -> bool {
    name.len() > 0 && forall|i: int|
        0 <= i < name.len() ==> in_word(#[trigger] name[i]) && name[i] != '$'
}

/// Whether a type goes by its own name, or by a binary name that ends with it
/// behind a `$` and is no descriptor of an array.
pub open spec fn nests_as(h: HostV, name: Seq<char>) -> bool {
    let b = renamed(h.binary, name);
    b == name || (b.len() > 0 && b[0] != '[' && exists|outer: Seq<char>|
        b == #[trigger] outer.push('$') + name)
}

proof fn lemma_after_last(x: Seq<char>, y: Seq<char>, sep: char)
    requires
        forall|i: int| 0 <= i < y.len() ==> #[trigger] y[i] != sep,
    ensures
        after_last(x + y, sep) == after_last(x, sep) + y,
    decreases y.len(),
{
    let s = x + y;
    if y.len() == 0 {
        assert(s =~= x);
        assert(after_last(x, sep) + y =~= after_last(x, sep));
    } else {
        assert(s.last() == y[y.len() - 1]);
        assert(s.drop_last() =~= x + y.drop_last());
        lemma_after_last(x, y.drop_last(), sep);
        assert(after_last(s, sep) =~= after_last(x, sep) + y);
    }
}

/// A name behind a package or an outer class is what is left of the two.
proof fn lemma_simple(front: Seq<char>, name: Seq<char>)
    requires
        is_simple(name),
        front.len() > 0 ==> front[0] != '[' && (front.last() == '.' || front.last() == '$'),
    ensures
        simple_name(front + name) == name,
        primitive_of("L"@ + (front + name) + ";"@) is None,
        simple_name("L"@ + (front + name) + ";"@) == name,
{
    let q = front + name;
    assert forall|i: int| 0 <= i < name.len() implies name[i] != '.' && name[i] != '$' by {
        assert(in_word(name[i]));
    }
    assert(q.last() == name[name.len() - 1]);
    assert(in_word(name[name.len() - 1]) && in_word(name[0]));
    assert(q[0] != '[' && q.last() != ';') by {
        if front.len() > 0 {
            assert(q[0] == front[0]);
        } else {
            assert(q[0] == name[0]);
        }
    }
    assert(seq![] + name =~= name);
    lemma_after_last(seq![], name, '.');
    lemma_after_last(seq![], name, '$');
    lemma_after_last(front, name, '.');
    let tail = after_last(front, '.');
    lemma_after_last(tail, name, '$');
    if front.len() > 0 && front.last() == '$' {
        let outer = front.drop_last();
        assert(tail =~= after_last(outer, '.').push('$'));
    }
    assert(after_last(tail, '$') =~= seq![]);
    assert(simple_name(q) =~= name);
    reveal_strlit("L");
    reveal_strlit(";");
    let d = "L"@ + q + ";"@;
    assert(d.subrange(1, d.len() - 1) =~= q);
    reveal_strlit("I");
    reveal_strlit("J");
    reveal_strlit("S");
    reveal_strlit("B");
    reveal_strlit("C");
    reveal_strlit("D");
    reveal_strlit("F");
    reveal_strlit("Z");
    assert(d.len() > 1);
    assert(d[0] == 'L' && d.last() == ';');
}

/// What a type is called in a descriptor is its name behind a package, behind an
/// outer class, or alone.
proof fn lemma_front(h: HostV, name: Seq<char>) -> (front: Seq<char>)
    requires
        is_simple(name),
        nests_as(h, name),
    ensures
        jdk_or_binary(h, name) == front + name,
        front.len() > 0 ==> front[0] != '[' && (front.last() == '.' || front.last() == '$'),
{
    reveal_strlit("java.lang.");
    reveal_strlit("java.util.");
    reveal_strlit("java.util.regex.");
    reveal_strlit("java.io.");
    reveal_strlit("java.io.Serializable");
    reveal_strlit("Serializable");
    reveal_strlit("java.lang.Object");
    reveal_strlit("Object");
    assert("java.io.Serializable"@ =~= "java.io."@ + "Serializable"@);
    assert("java.lang.Object"@ =~= "java.lang."@ + "Object"@);
    if in_lang(name) {
        "java.lang."@
    } else if name == "Serializable"@ {
        "java.io."@
    } else if in_util(name) {
        "java.util."@
    } else if name == "Object"@ {
        "java.lang."@
    } else if throwable_name(name) is Some {
        if name == "PatternSyntaxException"@ {
            "java.util.regex."@
        } else if throwable_name(name) == Some("java.util."@ + name) {
            "java.util."@
        } else {
            "java.lang."@
        }
    } else if renamed(h.binary, name) == name {
        assert(seq![] + name =~= name);
        seq![]
    } else {
        let b = renamed(h.binary, name);
        let outer = choose|outer: Seq<char>| b == #[trigger] outer.push('$') + name;
        assert(b[0] == outer.push('$')[0]);
        outer.push('$')
    }
}

/// Decoding the descriptor of an array type gives its source spelling back.
pub proof fn descriptors_decode(h: HostV, ty: Seq<char>)
    requires
        descriptor(h, ty) is Some,
        is_simple(element_type(ty)),
        nests_as(h, element_type(ty)),
    ensures
        simple_name(descriptor(h, ty)->0) == ty,
    decreases ty.len(),
{
    let c = ty.take(ty.len() - 2);
    let d = descriptor(h, ty)->0;
    reveal_strlit("[");
    reveal_strlit("[]");
    assert(c + "[]"@ =~= ty);
    assert(d[0] == '[');
    match descriptor(h, c) {
        Some(inner) => {
            descriptors_decode(h, c);
            assert(d.skip(1) =~= inner);
            assert(inner[0] == '[');
            lemma_letters();
            assert(primitive_of(inner) is None);
        },
        None => {
            assert(element_type(c) == c);
            assert(d.skip(1) =~= component_descriptor(h, c));
            lemma_letters();
            let letter = component_descriptor(h, c);
            if !(c == "int"@ || c == "long"@ || c == "short"@ || c == "byte"@ || c == "char"@ || c
                == "double"@ || c == "float"@ || c == "boolean"@) {
                let front = lemma_front(h, c);
                lemma_simple(front, c);
            }
        },
    }
}

/// The letters of the primitive types are different.
proof fn lemma_letters()
    ensures
        primitive_of("I"@) == Some("int"@),
        primitive_of("J"@) == Some("long"@),
        primitive_of("S"@) == Some("short"@),
        primitive_of("B"@) == Some("byte"@),
        primitive_of("C"@) == Some("char"@),
        primitive_of("D"@) == Some("double"@),
        primitive_of("F"@) == Some("float"@),
        primitive_of("Z"@) == Some("boolean"@),
        forall|d: Seq<char>| #[trigger] primitive_of(d) is Some ==> d.len() == 1 && d[0] != '[',
{
    reveal_strlit("I");
    reveal_strlit("J");
    reveal_strlit("S");
    reveal_strlit("B");
    reveal_strlit("C");
    reveal_strlit("D");
    reveal_strlit("F");
    reveal_strlit("Z");
    assert("I"@[0] == 'I' && "J"@[0] == 'J' && "S"@[0] == 'S' && "B"@[0] == 'B' && "C"@[0] == 'C'
        && "D"@[0] == 'D' && "F"@[0] == 'F' && "Z"@[0] == 'Z');
}

} // verus!
