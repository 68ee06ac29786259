use javars::host::collections::{
    coll_method, coll_step, sequence_items, write_sequence, CollStep,
};
use javars::host::equality::{distinct, eq_plan, first_repeat, EqQuestion};
use javars::double::Double;
use javars::host::boxes::box_value;
use javars::host::factories::{collection_static, new_collection, set_of, StaticStep};
use javars::host::index::{index_key, KeyIndex};
use javars::host::lists::EqPlan;
use javars::host::order::{java_hash, natural_order, present_items, string_hash, value_eq};
use javars::host::output::{print_fault, print_text};
use javars::host::render::java_str;
use javars::host::sorting::{natural_positions, pick, sort_with};
use javars::host::{heap_alloc, Fixity, Host, HostObj, Order};
use javars::value::{Fault, Value};

fn s(t: &str) -> Value {
    Value::Str(t.to_string())
}

fn ints(ns: &[i64]) -> Vec<Value> {
    ns.iter().map(|n| Value::Int(*n)).collect()
}

fn list(h: &mut Host, items: Vec<Value>) -> u32 {
    heap_alloc(h, HostObj::List { items, fixed: Fixity::Mutable, mods: 0 })
}

fn map(h: &mut Host, order: Order) -> u32 {
    heap_alloc(h, HostObj::MapObj { entries: Vec::new(), order })
}

fn set(h: &mut Host, order: Order) -> u32 {
    heap_alloc(h, HostObj::SetObj { items: Vec::new(), order, fixed: Fixity::Mutable })
}

fn call(h: &mut Host, id: u32, method: &str, args: Vec<Value>) -> Result<Value, Fault> {
    let seqs: Vec<Option<Vec<Value>>> = args.iter().map(|a| sequence_items(h, a)).collect();
    coll_method(h, id as usize, method, &args, &seqs, &None)
}

fn ok(h: &mut Host, id: u32, method: &str, args: Vec<Value>) -> Value {
    match call(h, id, method, args) {
        Ok(v) => v,
        Err(f) => panic!("{}: {}", f.class, f.msg),
    }
}

fn class_of_fault(r: Result<Value, Fault>) -> String {
    match r {
        Ok(_) => panic!("no fault"),
        Err(f) => f.class,
    }
}

fn shown(h: &Host, id: u32) -> String {
    match java_str(h, &Value::Obj(id)) {
        Some(t) => t,
        None => panic!("no text"),
    }
}

fn view(h: &mut Host, id: u32, from: i64, to: i64) -> u32 {
    match coll_step(h, &Value::Obj(id), "subList", &ints(&[from, to])) {
        Ok(CollStep::Done(Value::Obj(v))) => v,
        _ => panic!("no view"),
    }
}

#[test]
fn a_list_holds_what_it_is_given() {
    let mut h = Host::new();
    let l = list(&mut h, ints(&[1, 2]));
    ok(&mut h, l, "add", ints(&[3]));
    ok(&mut h, l, "add", ints(&[0, 9]));
    assert_eq!(shown(&h, l), "[9, 1, 2, 3]");
    assert!(matches!(ok(&mut h, l, "get", ints(&[1])), Value::Int(1)));
    assert!(matches!(ok(&mut h, l, "set", ints(&[1, 7])), Value::Int(1)));
    assert!(matches!(ok(&mut h, l, "get", ints(&[1])), Value::Int(7)));
    assert!(matches!(ok(&mut h, l, "indexOf", ints(&[2])), Value::Int(2)));
    assert!(matches!(ok(&mut h, l, "contains", ints(&[5])), Value::Bool(false)));
    assert!(matches!(ok(&mut h, l, "remove", ints(&[0])), Value::Int(9)));
    assert!(matches!(ok(&mut h, l, "removeObject", ints(&[3])), Value::Bool(true)));
    assert_eq!(shown(&h, l), "[7, 2]");
    assert!(matches!(ok(&mut h, l, "size", vec![]), Value::Int(2)));
}

#[test]
fn a_list_checks_its_bounds() {
    let mut h = Host::new();
    let l = list(&mut h, ints(&[1, 2]));
    match call(&mut h, l, "get", ints(&[2])) {
        Err(f) => {
            assert_eq!(f.class, "IndexOutOfBoundsException");
            assert_eq!(f.msg, "Index 2 out of bounds for length 2");
        }
        Ok(_) => panic!("no fault"),
    }
    match call(&mut h, l, "add", ints(&[5, 1])) {
        Err(f) => assert_eq!(f.msg, "Index: 5, Size: 2"),
        Ok(_) => panic!("no fault"),
    }
    assert_eq!(shown(&h, l), "[1, 2]");
}

#[test]
fn fixed_and_immutable_lists_refuse() {
    let mut h = Host::new();
    let f = heap_alloc(
        &mut h,
        HostObj::List { items: ints(&[1, 2]), fixed: Fixity::FixedSize, mods: 0 },
    );
    assert_eq!(
        class_of_fault(call(&mut h, f, "add", ints(&[3]))),
        "UnsupportedOperationException"
    );
    ok(&mut h, f, "set", ints(&[0, 5]));
    assert_eq!(shown(&h, f), "[5, 2]");
    let i = heap_alloc(
        &mut h,
        HostObj::List { items: ints(&[1]), fixed: Fixity::Immutable, mods: 0 },
    );
    assert_eq!(
        class_of_fault(call(&mut h, i, "set", ints(&[0, 5]))),
        "UnsupportedOperationException"
    );
    assert_eq!(shown(&h, i), "[1]");
}

#[test]
fn nothing_changes_an_immutable_list() {
    let mut h = Host::new();
    let l = match collection_static(&mut h, "List", "of", &ints(&[2, 1])) {
        Some(Ok(StaticStep::Done(Value::Obj(id)))) => id,
        _ => panic!("no list"),
    };
    let v = view(&mut h, l, 0, 2);
    for id in [l, v] {
        for (class, method) in [("Collections", "reverse"), ("Collections", "sort")] {
            match collection_static(&mut h, class, method, &vec![Value::Obj(id)]) {
                Some(Err(f)) => {
                    assert_eq!(f.class, "UnsupportedOperationException");
                    assert_eq!(f.msg, "");
                }
                _ => panic!("{method} was not refused"),
            }
        }
        match coll_step(&mut h, &Value::Obj(id), "sort", &vec![Value::Undef]) {
            Err(f) => assert_eq!(f.class, "UnsupportedOperationException"),
            _ => panic!("sort was not refused"),
        }
        match write_sequence(&mut h, id as usize, ints(&[1, 2]), true) {
            Err(f) => assert_eq!(f.class, "UnsupportedOperationException"),
            Ok(()) => panic!("writing was not refused"),
        }
        assert_eq!(shown(&h, id), "[2, 1]");
    }
    let fixed = match collection_static(&mut h, "Arrays", "asList", &ints(&[2, 1])) {
        Some(Ok(StaticStep::Done(Value::Obj(id)))) => id,
        _ => panic!("no list"),
    };
    assert!(matches!(
        collection_static(&mut h, "Collections", "reverse", &vec![Value::Obj(fixed)]),
        Some(Ok(_))
    ));
    assert_eq!(shown(&h, fixed), "[1, 2]");
}

#[test]
fn a_view_writes_through_to_its_list() {
    let mut h = Host::new();
    let l = list(&mut h, ints(&[0, 1, 2, 3, 4]));
    let v = view(&mut h, l, 1, 4);
    assert_eq!(shown(&h, v), "[1, 2, 3]");
    ok(&mut h, v, "set", ints(&[0, 9]));
    assert_eq!(shown(&h, l), "[0, 9, 2, 3, 4]");
    ok(&mut h, v, "add", ints(&[7]));
    assert_eq!(shown(&h, l), "[0, 9, 2, 3, 7, 4]");
    assert_eq!(shown(&h, v), "[9, 2, 3, 7]");
    let inner = view(&mut h, v, 1, 3);
    ok(&mut h, inner, "clear", vec![]);
    assert_eq!(shown(&h, l), "[0, 9, 7, 4]");
    assert_eq!(shown(&h, v), "[9, 7]");
}

#[test]
fn a_list_changed_behind_a_view_is_noticed() {
    let mut h = Host::new();
    let l = list(&mut h, ints(&[0, 1, 2]));
    let v = view(&mut h, l, 0, 2);
    ok(&mut h, l, "add", ints(&[3]));
    assert_eq!(
        class_of_fault(call(&mut h, v, "size", vec![])),
        "ConcurrentModificationException"
    );
    match print_fault(&h, &vec![Value::Int(1), Value::Obj(v)]) {
        Some(f) => assert_eq!(f.class, "ConcurrentModificationException"),
        None => panic!("no fault"),
    }
    assert!(print_text(&h, &vec![Value::Obj(v)]).is_err());
}

#[test]
fn printing_joins_the_texts() {
    let mut h = Host::new();
    let l = list(&mut h, ints(&[1, 2]));
    match print_text(&h, &vec![s("a"), Value::Obj(l), Value::Undef, Value::Bool(true)]) {
        Ok(Some(t)) => assert_eq!(t, "a[1, 2]nulltrue"),
        _ => panic!("no text"),
    }
    assert!(matches!(print_text(&h, &vec![]), Ok(Some(t)) if t.is_empty()));
}

#[test]
fn a_list_inside_itself_has_no_text() {
    let mut h = Host::new();
    let l = list(&mut h, vec![]);
    ok(&mut h, l, "add", vec![Value::Obj(l)]);
    assert!(java_str(&h, &Value::Obj(l)).is_none());
    assert!(matches!(print_text(&h, &vec![Value::Obj(l)]), Ok(None)));
}

#[test]
fn a_map_gives_back_what_was_put() {
    let mut h = Host::new();
    let m = map(&mut h, Order::Insertion);
    assert!(ok(&mut h, m, "put", vec![s("b"), Value::Int(1)]).is_undef());
    ok(&mut h, m, "put", vec![s("a"), Value::Int(2)]);
    assert!(matches!(ok(&mut h, m, "put", vec![s("b"), Value::Int(3)]), Value::Int(1)));
    assert!(matches!(ok(&mut h, m, "get", vec![s("b")]), Value::Int(3)));
    assert!(matches!(ok(&mut h, m, "get", vec![s("a")]), Value::Int(2)));
    assert!(ok(&mut h, m, "get", vec![s("x")]).is_undef());
    assert!(matches!(
        ok(&mut h, m, "getOrDefault", vec![s("x"), Value::Int(8)]),
        Value::Int(8)
    ));
    assert!(matches!(ok(&mut h, m, "containsKey", vec![s("a")]), Value::Bool(true)));
    assert!(matches!(ok(&mut h, m, "containsValue", ints(&[3])), Value::Bool(true)));
    assert!(matches!(ok(&mut h, m, "size", vec![]), Value::Int(2)));
    assert_eq!(shown(&h, m), "{b=3, a=2}");
    assert!(matches!(ok(&mut h, m, "remove", vec![s("b")]), Value::Int(3)));
    assert!(matches!(ok(&mut h, m, "containsKey", vec![s("b")]), Value::Bool(false)));
    assert!(matches!(
        ok(&mut h, m, "putIfAbsent", vec![s("a"), Value::Int(9)]),
        Value::Int(2)
    ));
    assert_eq!(shown(&h, m), "{a=2}");
}

#[test]
fn maps_present_their_keys_in_their_order() {
    let mut h = Host::new();
    let keys = ["banana", "apple", "cherry"];
    let t = map(&mut h, Order::Sorted);
    let k = map(&mut h, Order::Hash);
    for (i, key) in keys.iter().enumerate() {
        ok(&mut h, t, "put", vec![s(key), Value::Int(i as i64)]);
        ok(&mut h, k, "put", vec![s(key), Value::Int(i as i64)]);
    }
    assert_eq!(shown(&h, t), "{apple=1, banana=0, cherry=2}");
    // The buckets of a table of sixteen.
    assert_eq!(shown(&h, k), "{banana=0, apple=1, cherry=2}");
}

#[test]
fn hashes_and_buckets_are_those_of_java() {
    assert_eq!(string_hash("hello"), 99162322);
    assert_eq!(string_hash(""), 0);
    let h = Host::new();
    assert_eq!(java_hash(&h, &Value::Int(7)), Some(7));
    assert_eq!(java_hash(&h, &Value::Bool(true)), Some(1231));
    let items = ints(&[33, 16, 1, 17, 2]);
    let order: Vec<i64> = present_items(&h, &items, Order::Hash)
        .iter()
        .map(|v| match v {
            Value::Int(n) => *n,
            _ => panic!("no number"),
        })
        .collect();
    assert_eq!(order, vec![16, 33, 1, 17, 2]);
}

#[test]
fn a_set_holds_nothing_twice() {
    let mut h = Host::new();
    let t = set(&mut h, Order::Insertion);
    assert!(matches!(ok(&mut h, t, "add", ints(&[1])), Value::Bool(true)));
    assert!(matches!(ok(&mut h, t, "add", ints(&[1])), Value::Bool(false)));
    let l = list(&mut h, ints(&[2, 1, 2, 3]));
    assert!(matches!(ok(&mut h, t, "addAll", vec![Value::Obj(l)]), Value::Bool(true)));
    assert_eq!(shown(&h, t), "[1, 2, 3]");
    assert!(matches!(ok(&mut h, t, "contains", ints(&[2])), Value::Bool(true)));
    assert!(matches!(ok(&mut h, t, "remove", ints(&[2])), Value::Bool(true)));
    assert!(matches!(ok(&mut h, t, "remove", ints(&[2])), Value::Bool(false)));
    assert_eq!(shown(&h, t), "[1, 3]");
}

#[test]
fn a_program_decides_what_is_equal() {
    // Numbers are the same here where they leave the same rest.
    let same = |a: &Value, b: &Value| match (a, b) {
        (Value::Int(x), Value::Int(y)) => x % 10 == y % 10,
        _ => false,
    };
    let q = EqQuestion::Find { q: Value::Int(13), against: ints(&[1, 2, 3, 23]), from_end: false };
    assert!(matches!(eq_plan(&q, same), EqPlan::Index(Some(2))));
    let q = EqQuestion::Find { q: Value::Int(13), against: ints(&[1, 2, 3, 23]), from_end: true };
    assert!(matches!(eq_plan(&q, same), EqPlan::Index(Some(3))));
    let q = EqQuestion::Same { mine: ints(&[1, 2]), other: ints(&[11, 12]) };
    assert!(matches!(eq_plan(&q, same), EqPlan::Same(true)));
    let q = EqQuestion::Fresh { items: ints(&[1]), add: ints(&[11, 2, 12]) };
    match eq_plan(&q, same) {
        EqPlan::Fresh(v) => assert!(matches!(v[..], [Value::Int(2)])),
        _ => panic!("no plan"),
    }
    assert_eq!(distinct(&ints(&[1, 11, 2]), same).len(), 2);
    assert!(matches!(first_repeat(&ints(&[1, 2, 11]), same), Some(Value::Int(11))));
    assert!(first_repeat(&ints(&[1, 2]), same).is_none());
}

#[test]
fn a_plan_decides_where_a_key_is() {
    let mut h = Host::new();
    let m = map(&mut h, Order::Insertion);
    ok(&mut h, m, "put", vec![s("k"), Value::Int(1)]);
    let args = vec![s("other"), Value::Int(5)];
    let seqs = vec![None, None];
    let r = coll_method(&mut h, m as usize, "put", &args, &seqs, &Some(EqPlan::Index(Some(0))));
    assert!(matches!(r, Ok(Value::Int(1))));
    assert_eq!(shown(&h, m), "{k=5}");
}

#[test]
fn sorting_is_stable() {
    let items = ints(&[31, 12, 11, 32, 21]);
    let by_tens = |a: &Value, b: &Value| match (a, b) {
        (Value::Int(x), Value::Int(y)) => x / 10 - y / 10,
        _ => 0,
    };
    let sorted: Vec<i64> = sort_with(&items, &by_tens)
        .iter()
        .map(|v| match v {
            Value::Int(n) => *n,
            _ => panic!("no number"),
        })
        .collect();
    assert_eq!(sorted, vec![12, 11, 21, 31, 32]);
    let h = Host::new();
    let texts = vec![s("b"), s("a"), s("c")];
    let at = natural_positions(&h, &texts);
    assert_eq!(at, vec![1, 0, 2]);
    assert!(matches!(&pick(&texts, &at)[0], Value::Str(t) if t == "a"));
}

#[test]
fn equality_and_order_of_values() {
    let h = Host::new();
    assert!(value_eq(&h, &s("a"), &s("a")));
    assert!(!value_eq(&h, &Value::Int(1), &s("1")));
    assert!(value_eq(&h, &Value::Undef, &Value::Undef));
    assert_eq!(natural_order(&h, &Value::Int(2), &Value::Int(10)), -1);
    assert_eq!(natural_order(&h, &s("b"), &s("a")), 1);
    assert_eq!(natural_order(&h, &Value::Undef, &s("a")), -1);
    assert_eq!(natural_order(&h, &Value::Int(2), &double(1.5)), 1);
    assert_eq!(natural_order(&h, &double(-0.0), &double(0.0)), -1);
    assert_eq!(natural_order(&h, &double(f64::NAN), &double(f64::INFINITY)), 1);
    assert_eq!(natural_order(&h, &Value::Bool(false), &Value::Bool(true)), -1);
    assert_eq!(natural_order(&h, &s("b"), &Value::Int(5)), 0);
    assert_eq!(natural_order(&h, &Value::Bool(true), &Value::Int(0)), 0);
    let mut h = Host::new();
    let big = box_value(&mut h, 1, Value::Int(9007199254740993));
    let less = box_value(&mut h, 1, Value::Int(9007199254740992));
    assert_eq!(natural_order(&h, &big, &less), 1);
    assert_eq!(natural_order(&h, &less, &big), -1);
}

#[test]
fn clearing_an_empty_list_is_a_change() {
    let mut h = Host::new();
    let l = list(&mut h, vec![]);
    let v = view(&mut h, l, 0, 0);
    let w = view(&mut h, l, 0, 0);
    assert!(matches!(ok(&mut h, v, "size", vec![]), Value::Int(0)));
    ok(&mut h, v, "clear", vec![]);
    assert!(matches!(ok(&mut h, v, "size", vec![]), Value::Int(0)));
    assert_eq!(
        class_of_fault(call(&mut h, w, "size", vec![])),
        "ConcurrentModificationException"
    );
    ok(&mut h, l, "clear", vec![]);
    assert_eq!(
        class_of_fault(call(&mut h, v, "size", vec![])),
        "ConcurrentModificationException"
    );
}

#[test]
fn collections_made_by_name() {
    let mut h = Host::new();
    match new_collection(&h, "ArrayList", &Value::Undef, vec![]) {
        Ok(HostObj::List { items, .. }) => assert!(items.is_empty()),
        _ => panic!("no list"),
    }
    match new_collection(&h, "TreeMap", &Value::Undef, vec![]) {
        Ok(HostObj::MapObj { order, .. }) => assert!(order == Order::Sorted),
        _ => panic!("no map"),
    }
    let r = collection_static(&mut h, "List", "of", &ints(&[1, 2]));
    match r {
        Some(Ok(StaticStep::Done(Value::Obj(id)))) => {
            assert_eq!(shown(&h, id), "[1, 2]");
            assert_eq!(
                class_of_fault(call(&mut h, id, "add", ints(&[3]))),
                "UnsupportedOperationException"
            );
        }
        _ => panic!("no list"),
    }
    match collection_static(&mut h, "Set", "of", &ints(&[1, 1])) {
        Some(Ok(StaticStep::Unique(items))) => assert_eq!(items.len(), 2),
        _ => panic!("no elements"),
    }
    match collection_static(&mut h, "Arrays", "asList", &ints(&[1, 2])) {
        Some(Ok(StaticStep::Done(Value::Obj(id)))) => {
            assert_eq!(
                class_of_fault(call(&mut h, id, "clear", vec![])),
                "UnsupportedOperationException"
            );
        }
        _ => panic!("no list"),
    }
    match set_of(ints(&[1]), 2, "1") {
        Err(f) => {
            assert_eq!(f.class, "IllegalArgumentException");
            assert_eq!(f.msg, "duplicate element: 1");
        }
        Ok(_) => panic!("no fault"),
    }
    assert!(collection_static(&mut h, "Nobody", "of", &vec![]).is_none());
}

#[test]
fn a_null_receiver_is_a_fault() {
    let mut h = Host::new();
    match coll_step(&mut h, &Value::Undef, "size", &vec![]) {
        Err(f) => assert_eq!(
            f.msg,
            "Cannot invoke \"size()\" because the receiver is null"
        ),
        Ok(_) => panic!("no fault"),
    }
    let l = list(&mut h, ints(&[3, 1]));
    match coll_step(&mut h, &Value::Obj(l), "forEach", &vec![Value::Undef]) {
        Ok(CollStep::ForEach(calls)) => assert_eq!(calls.len(), 2),
        _ => panic!("no calls"),
    }
    match coll_step(&mut h, &Value::Obj(l), "sort", &vec![Value::Undef]) {
        Ok(CollStep::Sort { items, .. }) => assert_eq!(items.len(), 2),
        _ => panic!("no sort"),
    }
}

fn double(f: f64) -> Value {
    Value::Float(Double {
        bits: f.to_bits(),
        plain: format!("{f}"),
        sci: format!("{f:e}"),
        wide: format!("{:.18e}", f.abs()),
        narrow: String::new(),
    })
}

#[test]
fn an_index_finds_what_a_search_finds() {
    let mut h = Host::new();
    let boxed = box_value(&mut h, 0, Value::Int(7));
    let other = box_value(&mut h, 1, Value::Int(7));
    let items = vec![s("Aa"), Value::Int(3), s("BB"), boxed.copy(), Value::Undef, Value::Bool(true)];
    let mut index = KeyIndex::new();
    index.rebuild(&h, &items);
    assert_eq!(index.find(&h, &items, &s("BB")), Some(Some(2)));
    assert_eq!(index.find(&h, &items, &s("C#")), Some(None));
    assert_eq!(index.find(&h, &items, &double(3.0)), Some(Some(1)));
    assert_eq!(index.find(&h, &items, &Value::Int(7)), Some(Some(3)));
    assert_eq!(index.find(&h, &items, &other), Some(None));
    assert_eq!(index.find(&h, &items, &Value::Undef), Some(Some(4)));
    assert_eq!(index.find(&h, &items, &Value::Int(1)), Some(None));
    assert_eq!(index.find(&h, &items, &double(0.5)), None);
    assert_eq!(index_key(&h, &boxed), Some(7));
    assert_eq!(index_key(&h, &double(9007199254740992.0)), None);
    assert_eq!(index_key(&h, &double(f64::NAN)), None);
}

#[test]
fn an_index_of_a_fraction_says_nothing() {
    let h = Host::new();
    let mut items = ints(&[1, 2]);
    let mut index = KeyIndex::new();
    index.rebuild(&h, &items);
    assert_eq!(index.find(&h, &items, &Value::Int(2)), Some(Some(1)));
    index.push(&h, &double(0.5), 2);
    items.push(double(0.5));
    assert_eq!(index.find(&h, &items, &Value::Int(2)), None);
}

#[test]
fn adding_all_passes_over_what_is_there() {
    let mut h = Host::new();
    let t = set(&mut h, Order::Insertion);
    let first = list(&mut h, vec![Value::Int(1), s("Aa"), Value::Int(1), s("BB")]);
    assert!(matches!(ok(&mut h, t, "addAll", vec![Value::Obj(first)]), Value::Bool(true)));
    assert_eq!(shown(&h, t), "[1, Aa, BB]");
    assert!(matches!(ok(&mut h, t, "addAll", vec![Value::Obj(first)]), Value::Bool(false)));
    let second = list(&mut h, vec![double(1.0), double(1.5), double(1.5), Value::Undef, s("BB")]);
    assert!(matches!(ok(&mut h, t, "addAll", vec![Value::Obj(second)]), Value::Bool(true)));
    assert_eq!(shown(&h, t), "[1, Aa, BB, 1.5, null]");
}
