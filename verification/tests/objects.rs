use javars::host::boxes::{
    as_i64, box_class, box_class_code, box_class_name, box_value, deboxed, jfloat, jint, unboxed,
};
use javars::host::classes::{
    array_descriptor, cast_message, is_subclass_of, jdk_name, qualified_or_binary,
    simple_class_name,
};
use javars::host::dispatch::{
    boxed_method, compare_to, obj_default_str, object_method, str_dispatch, BoxedAnswer,
    CompareAnswer, StrStep,
};
use javars::host::equality::{eq_call, eq_question, user_equals, Comparison, EqQuestion};
use javars::host::members::{any_user_equals, any_user_tostring, find_entry, member_entry, Members};
use javars::host::objects::{
    argv_array, array_get, array_new, array_new_multi, array_set, char_to_string, check_fault,
    closure_call, closure_meta, exc_pending, exc_take, field_get, field_set, make_closure,
    new_instance, throw_value, ClosureCall,
};
use javars::host::output::{ffi_outcome, stack_after_cut};
use javars::host::render::java_str;
use javars::host::shapes::{
    arrays_deep_to_string, braced, bracketed, exc_abort, render_step, throwable_str, RenderStep,
};
use javars::host::types::{binary_class, cast_allowed, checkcast, classof, is_instance_of, sequence_len};
use javars::host::{
    heap_alloc, heap_reset, raise, set_argv, set_binary_names, set_exceptions_enabled, set_supertypes,
    take_ffi_error, Fixity, Host, HostObj,
};
use javars::value::{tail_after, Fault, Value};

fn s(t: &str) -> Value {
    Value::Str(t.to_string())
}

fn classes(rows: &[(&str, &[&str])]) -> Host {
    let mut h = Host::new();
    set_supertypes(
        &mut h,
        rows.iter()
            .map(|(n, ss)| (n.to_string(), ss.iter().map(|x| x.to_string()).collect()))
            .collect(),
    );
    h
}

fn shown(h: &Host, v: &Value) -> String {
    match java_str(h, v) {
        Some(t) => t,
        None => panic!("no text"),
    }
}

#[test]
fn arrays_give_back_what_was_written() {
    let mut h = Host::new();
    let a = match array_new(&mut h, 3, &Value::Int(0)) {
        Ok(v) => v,
        Err(_) => panic!("no array"),
    };
    assert!(array_set(&mut h, &a, 1, &Value::Int(5)).is_ok());
    assert!(matches!(array_get(&h, &a, 1), Ok(Value::Int(5))));
    assert!(matches!(array_get(&h, &a, 0), Ok(Value::Int(0))));
    assert!(matches!(field_get(&h, &a, "length"), Ok(Value::Int(3))));
    match array_get(&h, &a, 3) {
        Err(f) => {
            assert_eq!(f.class, "ArrayIndexOutOfBoundsException");
            assert_eq!(f.msg, "Index 3 out of bounds for length 3");
        }
        Ok(_) => panic!("no fault"),
    }
    match array_new(&mut h, -1, &Value::Int(0)) {
        Err(f) => {
            assert_eq!(f.class, "NegativeArraySizeException");
            assert_eq!(f.msg, "-1");
        }
        Ok(_) => panic!("no fault"),
    }
    match array_get(&h, &Value::Undef, 0) {
        Err(f) => assert_eq!(f.class, "NullPointerException"),
        Ok(_) => panic!("no fault"),
    }
}

#[test]
fn arrays_of_arrays() {
    let mut h = Host::new();
    let a = match array_new_multi(&mut h, &vec![2, 3], &Value::Int(7)) {
        Ok(v) => v,
        Err(_) => panic!("no array"),
    };
    let row = match array_get(&h, &a, 1) {
        Ok(v) => v,
        Err(_) => panic!("no row"),
    };
    assert!(matches!(field_get(&h, &row, "length"), Ok(Value::Int(3))));
    assert!(array_set(&mut h, &row, 2, &Value::Int(1)).is_ok());
    assert_eq!(
        arrays_deep_to_string(&h, &a, 10).as_deref(),
        Some("[[7, 7, 7], [7, 7, 1]]")
    );
}

#[test]
fn fields_give_back_what_was_written() {
    let mut h = Host::new();
    let o = new_instance(&mut h, "P");
    assert!(field_set(&mut h, &o, "x", &Value::Int(4)).is_ok());
    assert!(field_set(&mut h, &o, "y", &s("a")).is_ok());
    assert!(field_set(&mut h, &o, "x", &Value::Int(5)).is_ok());
    assert!(matches!(field_get(&h, &o, "x"), Ok(Value::Int(5))));
    assert!(matches!(field_get(&h, &o, "y"), Ok(Value::Str(t)) if t == "a"));
    match field_get(&h, &Value::Undef, "x") {
        Err(f) => assert_eq!(f.class, "NullPointerException"),
        Ok(_) => panic!("no fault"),
    }
    let a = match array_new(&mut h, 2, &Value::Int(0)) {
        Ok(v) => v,
        Err(_) => panic!("no array"),
    };
    assert!(matches!(field_get(&h, &a, "length"), Ok(Value::Int(2))));
}

#[test]
fn small_numbers_share_their_box() {
    let mut h = Host::new();
    let wrapper = match box_class_code("Integer") {
        Some(c) => c as usize,
        None => panic!("no class"),
    };
    let a = box_value(&mut h, wrapper, Value::Int(127));
    let b = box_value(&mut h, wrapper, Value::Int(127));
    let c = box_value(&mut h, wrapper, Value::Int(128));
    let d = box_value(&mut h, wrapper, Value::Int(128));
    let id = |v: &Value| match v {
        Value::Obj(i) => *i,
        _ => panic!("no box"),
    };
    assert_eq!(id(&a), id(&b));
    assert_ne!(id(&c), id(&d));
    assert!(matches!(unboxed(&h, &c), Some(Value::Int(128))));
    assert!(matches!(deboxed(&h, &Value::Int(3)), Value::Int(3)));
    assert_eq!(box_class(&h, &c), Some(wrapper));
    assert_eq!(box_class_name(wrapper), "Integer");
    assert_eq!(box_class_code("Nobody"), None);
    assert_eq!(jint(&h, &c), 128);
    assert_eq!(jfloat(&h, &c), 128.0_f64.to_bits());
    assert_eq!(as_i64(&h, &s("A")), 65);
    assert_eq!(shown(&h, &c), "128");
    match boxed_method(&h, &Value::Int(1 << 32 | 128), "intValue", 0) {
        Some(BoxedAnswer::Value(Value::Int(n))) => assert_eq!(n, 128),
        _ => panic!("no answer"),
    }
}

#[test]
fn a_subclass_is_known_through_its_supertypes() {
    let h = classes(&[("A", &["B", "I"]), ("B", &["C"]), ("I", &[]), ("C", &[])]);
    assert!(is_subclass_of(&h, "A", "C"));
    assert!(is_subclass_of(&h, "A", "I"));
    assert!(is_subclass_of(&h, "A", "A"));
    assert!(!is_subclass_of(&h, "C", "A"));
    let mut h = h;
    let o = new_instance(&mut h, "A");
    assert!(is_instance_of(&h, &o, "C"));
    assert!(is_instance_of(&h, &o, "Object"));
    assert!(!is_instance_of(&h, &Value::Undef, "Object"));
    assert_eq!(classof(&h, &o), "A");
    assert!(checkcast(&h, &o, "C").is_ok());
    for runtime in ["Integer", "Long", "Short", "Byte"] {
        for target in ["Integer", "Long", "Short", "Byte"] {
            assert!(cast_allowed(&h, runtime, target, &Value::Int(1)));
        }
        assert!(!cast_allowed(&h, runtime, "Double", &Value::Int(1)));
        assert!(!cast_allowed(&h, runtime, "String", &Value::Int(1)));
    }
    assert!(cast_allowed(&h, "Float", "Double", &Value::Int(1)));
    assert!(cast_allowed(&h, "Double", "Float", &Value::Int(1)));
    assert!(checkcast(&h, &Value::Undef, "C").is_ok());
    match checkcast(&h, &o, "String") {
        Err(f) => {
            assert_eq!(f.class, "ClassCastException");
            assert!(f.msg.starts_with("class A cannot be cast to class java.lang.String"));
        }
        Ok(()) => panic!("no fault"),
    }
}

#[test]
fn names_of_classes() {
    let mut h = Host::new();
    set_binary_names(&mut h, vec![("Inner".to_string(), "Outer$Inner".to_string())]);
    assert_eq!(qualified_or_binary(&h, "Inner"), "Outer$Inner");
    assert_eq!(qualified_or_binary(&h, "RuntimeException"), "java.lang.RuntimeException");
    assert_eq!(jdk_name(&h, "ArrayList"), "java.util.ArrayList");
    assert_eq!(simple_class_name("Outer$Inner"), "Inner");
    assert_eq!(array_descriptor(&h, "int[]").as_deref(), Some("[I"));
    for ty in ["int[]", "String[][]", "B[]", "Map[]", "Exception[][][]"] {
        let binary = array_descriptor(&h, ty).unwrap_or_default();
        assert_eq!(simple_class_name(&binary), ty);
    }
    assert_eq!(array_descriptor(&h, "String[][]").as_deref(), Some("[[Ljava.lang.String;"));
    assert_eq!(
        cast_message(&h, "Outer$Inner", "String"),
        "class Outer$Inner cannot be cast to class java.lang.String"
    );
    assert_eq!(
        cast_message(&h, "java.lang.Integer", "String"),
        "class java.lang.Integer cannot be cast to class java.lang.String (java.lang.Integer \
         and java.lang.String are in module java.base of loader 'bootstrap')"
    );
    let o = new_instance(&mut h, "Inner");
    assert_eq!(binary_class(&h, &o, &None), "Outer$Inner");
    assert!(shown(&h, &o).starts_with("Outer$Inner@"));
    assert_eq!(tail_after("java.lang.Error", '.'), "Error");
}

fn members() -> Members {
    Members {
        names: vec!["A#toString#".to_string(), "B#equals#Object".to_string()],
        subs: vec![(0, 10), (1, 20)],
    }
}

#[test]
fn members_are_found_through_supertypes() {
    let h = classes(&[("C", &["A"]), ("A", &[]), ("B", &["A"])]);
    let m = members();
    assert_eq!(find_entry(&m, "A#toString#"), Some(10));
    assert_eq!(find_entry(&m, "Z#toString#"), None);
    assert_eq!(member_entry(&h, &m, "A", "#toString#"), Some(10));
    assert_eq!(member_entry(&h, &m, "C", "#toString#"), Some(10));
    assert_eq!(member_entry(&h, &m, "C", "#equals#Object"), None);
    assert!(any_user_tostring(&m));
    assert!(any_user_equals(&m));
    let none = Members { names: Vec::new(), subs: Vec::new() };
    assert!(!any_user_tostring(&none));
    assert!(!any_user_equals(&none));
}

#[test]
fn the_programs_own_text_is_asked_for() {
    let mut h = classes(&[("C", &["A"]), ("A", &[]), ("B", &["A"])]);
    let m = members();
    let c = new_instance(&mut h, "C");
    assert!(matches!(render_step(&h, &m, &c), RenderStep::Run(10)));
    let l = heap_alloc(
        &mut h,
        HostObj::List { items: vec![c.copy()], fixed: Fixity::Mutable, mods: 0 },
    );
    match render_step(&h, &m, &Value::Obj(l)) {
        RenderStep::Items(items) => assert_eq!(items.len(), 1),
        _ => panic!("no elements"),
    }
}

#[test]
fn the_programs_own_equality_is_asked_for() {
    let mut h = classes(&[("B", &[]), ("A", &[])]);
    let m = members();
    let b = new_instance(&mut h, "B");
    let a = new_instance(&mut h, "A");
    let id = match &b {
        Value::Obj(i) => *i,
        _ => panic!("no object"),
    };
    assert_eq!(user_equals(&h, &m, &b), Some((id, 20)));
    assert_eq!(user_equals(&h, &m, &a), None);
    assert!(eq_call(&h, &m, &b, &a) == Comparison::Run { id, entry: 20 });
    assert!(eq_call(&h, &m, &a, &a) == Comparison::Known(true));
    let l = heap_alloc(
        &mut h,
        HostObj::List { items: vec![a.copy()], fixed: Fixity::Mutable, mods: 0 },
    );
    match eq_question(&h, &m, &Value::Obj(l), "contains", &vec![b.copy()], &vec![None]) {
        Some(EqQuestion::Find { against, from_end, .. }) => {
            assert_eq!((against.len(), from_end), (1, false));
        }
        _ => panic!("no question"),
    }
    assert!(eq_question(&h, &m, &Value::Obj(l), "size", &vec![], &vec![]).is_none());
}

#[test]
fn rendering_without_a_text_of_its_own() {
    let mut h = Host::new();
    let none = Members { names: Vec::new(), subs: Vec::new() };
    let a = match array_new(&mut h, 1, &Value::Int(0)) {
        Ok(v) => v,
        Err(_) => panic!("no array"),
    };
    let step = render_step(&h, &none, &a);
    assert!(matches!(
        step,
        RenderStep::Plain | RenderStep::Text(_) | RenderStep::Items(_)
    ));
    assert_eq!(bracketed(&vec!["a".to_string(), "b".to_string()]), "[a, b]");
    assert_eq!(
        braced(&vec!["k".to_string()], &vec!["v".to_string()]),
        "{k=v}"
    );
    assert_eq!(bracketed(&vec![]), "[]");
}

#[test]
fn a_fault_becomes_an_exception_where_one_can_be_caught() {
    let mut h = Host::new();
    set_exceptions_enabled(&mut h, true);
    raise(&mut h, Fault::java("ArithmeticException", "/ by zero".to_string()));
    assert!(exc_pending(&h));
    assert!(take_ffi_error(&mut h).is_none());
    let e = exc_take(&mut h);
    assert!(!exc_pending(&h));
    assert!(is_instance_of(&h, &e, "ArithmeticException"));
    assert_eq!(
        throwable_str(&h, &e).as_deref(),
        Some("java.lang.ArithmeticException: / by zero")
    );
    throw_value(&mut h, e);
    assert!(exc_pending(&h));
    assert!(exc_abort(&mut h));
    match take_ffi_error(&mut h) {
        Some(m) => assert!(m.contains("java.lang.ArithmeticException: / by zero")),
        None => panic!("no message"),
    }
}

#[test]
fn a_fault_ends_the_run_where_nothing_catches() {
    let mut h = Host::new();
    raise(&mut h, Fault::java("ArithmeticException", "/ by zero".to_string()));
    assert!(!exc_pending(&h));
    match take_ffi_error(&mut h) {
        Some(m) => assert!(m.contains("java.lang.ArithmeticException: / by zero")),
        None => panic!("no message"),
    }
    assert!(take_ffi_error(&mut h).is_none());
    set_exceptions_enabled(&mut h, true);
    raise(&mut h, Fault::internal("javars: broken".to_string()));
    assert_eq!(take_ffi_error(&mut h).as_deref(), Some("javars: broken"));
}

#[test]
fn checks_raise_only_what_is_known() {
    assert_eq!(check_fault("NullPointerException", "m").class, "NullPointerException");
    assert_eq!(check_fault("Nobody", "m").msg, "javars: unknown fault `Nobody`");
}

#[test]
fn a_reset_forgets_the_heap() {
    let mut h = Host::new();
    new_instance(&mut h, "A");
    assert_eq!(h.heap.len(), 1);
    assert_eq!(sequence_len(&h, &Value::Obj(0)), None);
    heap_reset(&mut h);
    assert_eq!(h.heap.len(), 0);
}

#[test]
fn arguments_of_the_program() {
    let mut h = Host::new();
    set_argv(&mut h, vec!["a".to_string(), "b".to_string()]);
    let v = argv_array(&mut h);
    assert!(matches!(field_get(&h, &v, "length"), Ok(Value::Int(2))));
    assert!(matches!(array_get(&h, &v, 1), Ok(Value::Str(t)) if t == "b"));
}

#[test]
fn lambdas_carry_what_they_captured() {
    let mut h = Host::new();
    let c = make_closure(&mut h, 1, 2, vec![Value::Int(9)]);
    match closure_meta(&h, &c) {
        Some((name, params, captured)) => {
            assert_eq!((name, params, captured.len()), (1, 2, 1));
        }
        None => panic!("no lambda"),
    }
    assert!(closure_meta(&h, &Value::Int(1)).is_none());
    let m = members();
    match closure_call(&h, &m, &c, &vec![Value::Int(1), Value::Int(2)]) {
        Ok(ClosureCall::Run { entry, frame }) => {
            assert_eq!(entry, 20);
            assert_eq!(frame.len(), 3);
        }
        _ => panic!("no call"),
    }
}

#[test]
fn methods_every_object_has() {
    let mut h = Host::new();
    let o = new_instance(&mut h, "P");
    assert!(matches!(
        object_method(&h, &o, "equals", &vec![o.copy()]),
        Some(Value::Bool(true))
    ));
    let id = match &o {
        Value::Obj(i) => *i,
        _ => panic!("no object"),
    };
    assert!(obj_default_str(&h, id).starts_with("P@"));
    assert!(object_method(&h, &o, "nope", &vec![]).is_none());
}

#[test]
fn comparing_by_the_declared_type() {
    let h = Host::new();
    assert!(matches!(
        compare_to(&h, "int", &Value::Int(1), &Value::Int(2)),
        Ok(CompareAnswer::Sign(-1))
    ));
    assert!(matches!(
        compare_to(&h, "String", &s("a"), &s("b")),
        Ok(CompareAnswer::Texts) | Ok(CompareAnswer::Sign(-1))
    ));
}

#[test]
fn a_method_on_a_text_or_a_number() {
    let h = Host::new();
    let m = Members { names: Vec::new(), subs: Vec::new() };
    assert!(matches!(
        str_dispatch(&h, &m, &s("abc"), "length", &vec![]),
        Ok(StrStep::Answer { .. })
    ));
    match str_dispatch(&h, &m, &Value::Undef, "length", &vec![]) {
        Err(f) => assert_eq!(f.class, "NullPointerException"),
        Ok(_) => panic!("no fault"),
    }
}

#[test]
fn characters_become_texts() {
    assert!(matches!(char_to_string(&Value::Int(65)), Value::Str(t) if t == "A"));
}

#[test]
fn calls_into_native_code() {
    assert!(matches!(ffi_outcome("f", Some(Ok(Value::Int(3)))), Ok(Value::Int(3))));
    match ffi_outcome("f", Some(Err("bad".to_string()))) {
        Err(m) => assert_eq!(m, "javars: rust FFI call f: bad"),
        Ok(_) => panic!("no error"),
    }
    match ffi_outcome("f", None) {
        Err(m) => assert_eq!(m, "javars: unresolved reference: f"),
        Ok(_) => panic!("no error"),
    }
}

#[test]
fn a_stack_is_cut_back() {
    assert_eq!(stack_after_cut(3, 5), 3);
    assert_eq!(stack_after_cut(-1, 5), 0);
    assert_eq!(stack_after_cut(9, 5), 5);
}

#[test]
fn heap_objects_have_their_shape() {
    let mut h = Host::new();
    new_instance(&mut h, "A");
    assert!(matches!(&h.heap[0], HostObj::Instance { class, .. } if class == "A"));
}
