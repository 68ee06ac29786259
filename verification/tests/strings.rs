use javars::host::builder::{builder_method, is_builder, sb_char_offset, sb_grow, sb_new, sb_range};
use javars::host::characters::{char_arg, character_method};
use javars::host::strings::{
    compare_strings, java_is_whitespace, null_string_argument, string_method, Answer,
};
use javars::host::{heap_alloc, Host, HostObj};
use javars::value::{Fault, Value};

fn s(t: &str) -> Value {
    Value::Str(t.to_string())
}

fn call(recv: &str, method: &str, args: Vec<Value>) -> Result<Answer, Fault> {
    string_method(&Host::new(), recv, method, &args)
}

fn text(recv: &str, method: &str, args: Vec<Value>) -> String {
    match call(recv, method, args) {
        Ok(Answer::Value(Value::Str(t))) => t,
        Ok(_) => panic!("{method} gave no text"),
        Err(f) => panic!("{}: {}", f.class, f.msg),
    }
}

fn number(recv: &str, method: &str, args: Vec<Value>) -> i64 {
    match call(recv, method, args) {
        Ok(Answer::Value(Value::Int(n))) => n,
        _ => panic!("{method} gave no number"),
    }
}

fn truth(recv: &str, method: &str, args: Vec<Value>) -> bool {
    match call(recv, method, args) {
        Ok(Answer::Value(Value::Bool(b))) => b,
        _ => panic!("{method} gave no boolean"),
    }
}

fn parts(recv: &str, method: &str, args: Vec<Value>) -> Vec<String> {
    match call(recv, method, args) {
        Ok(Answer::Alloc(HostObj::Array(items))) => items
            .iter()
            .map(|v| match v {
                Value::Str(t) => t.clone(),
                _ => panic!("no text"),
            })
            .collect(),
        _ => panic!("{method} gave no array"),
    }
}

fn fault(recv: &str, method: &str, args: Vec<Value>) -> (String, String) {
    match call(recv, method, args) {
        Ok(_) => panic!("{method} did not fail"),
        Err(f) => (f.class, f.msg),
    }
}

#[test]
fn lengths_and_parts() {
    assert_eq!(number("héllo", "length", vec![]), 5);
    assert!(truth("", "isEmpty", vec![]));
    assert_eq!(text("hello", "substring", vec![Value::Int(1)]), "ello");
    assert_eq!(text("hello", "substring", vec![Value::Int(1), Value::Int(3)]), "el");
    assert_eq!(number("abc", "charAt", vec![Value::Int(2)]), 'c' as i64);
    assert_eq!(text("ab", "concat", vec![s("cd")]), "abcd");
    let (head, tail) = (
        text("hello", "substring", vec![Value::Int(0), Value::Int(2)]),
        text("hello", "substring", vec![Value::Int(2)]),
    );
    assert_eq!(format!("{head}{tail}"), "hello");
    assert_eq!(text("ab", "repeat", vec![Value::Int(3)]), "ababab");
}

#[test]
fn finding_in_a_text() {
    assert_eq!(number("banana", "indexOf", vec![s("an")]), 1);
    assert_eq!(number("banana", "indexOf", vec![s("an"), Value::Int(2)]), 3);
    assert_eq!(number("banana", "lastIndexOf", vec![s("an")]), 3);
    assert_eq!(number("banana", "indexOf", vec![s("x")]), -1);
    assert!(truth("banana", "contains", vec![s("nan")]));
    assert!(truth("banana", "startsWith", vec![s("ban")]));
    assert!(truth("banana", "endsWith", vec![s("na")]));
}

#[test]
fn comparing_texts() {
    assert!(truth("a", "equals", vec![s("a")]));
    assert!(!truth("a", "equals", vec![Value::Undef]));
    assert!(truth("AbC", "equalsIgnoreCase", vec![s("aBc")]));
    assert!(!truth("a", "equalsIgnoreCase", vec![Value::Undef]));
    assert_eq!(compare_strings("apple", "banana", false), -1);
    assert_eq!(compare_strings("abc", "ab", false), 1);
    assert_eq!(compare_strings("ABC", "abd", true), -1);
    assert_eq!(compare_strings("a", "a", false), 0);
    assert_eq!(
        compare_strings("pear", "peach", false),
        -compare_strings("peach", "pear", false)
    );
    assert_eq!(
        compare_strings("PEAR", "peach", true),
        -compare_strings("peach", "PEAR", true)
    );
    assert_eq!(compare_strings("PEAR", "pear", true), 0);
}

#[test]
fn case_and_white_space() {
    assert_eq!(text("aBc", "toUpperCase", vec![]), "ABC");
    assert_eq!(text("aBc", "toLowerCase", vec![]), "abc");
    assert_eq!(text("  a b ", "trim", vec![]), "a b");
    assert_eq!(text("  a b ", "strip", vec![]), "a b");
    assert!(truth(" \t", "isBlank", vec![]));
    assert!(java_is_whitespace(' '));
    assert!(!java_is_whitespace('\u{a0}'));
}

#[test]
fn replacing_in_a_text() {
    assert_eq!(text("aXbX", "replace", vec![s("X"), s("-")]), "a-b-");
    assert_eq!(text("a1b22", "replaceAll", vec![s("[0-9]+"), s("#")]), "a#b#");
    assert_eq!(text("a1b22", "replaceFirst", vec![s("\\d"), s("#")]), "a#b22");
    assert_eq!(
        text("john smith", "replaceAll", vec![s("(\\w+) (\\w+)"), s("$2, $1")]),
        "smith, john"
    );
}

#[test]
fn splitting_and_matching() {
    assert_eq!(parts("a,b,,", "split", vec![s(",")]), vec!["a", "b"]);
    assert_eq!(parts("a,b,,", "split", vec![s(","), Value::Int(-1)]), vec!["a", "b", "", ""]);
    assert_eq!(parts("a,b,c", "split", vec![s(","), Value::Int(2)]), vec!["a", "b,c"]);
    assert!(truth("abc123", "matches", vec![s("[a-z]+\\d+")]));
    assert!(!truth("abc123x", "matches", vec![s("[a-z]+\\d+")]));
}

#[test]
fn faults_of_texts() {
    assert_eq!(
        fault("abc", "charAt", vec![Value::Int(3)]).0,
        "StringIndexOutOfBoundsException"
    );
    assert_eq!(
        fault("abc", "substring", vec![Value::Int(2), Value::Int(1)]).1,
        "Range [2, 1) out of bounds for length 3"
    );
    assert_eq!(fault("a", "repeat", vec![Value::Int(-1)]).0, "IllegalArgumentException");
    assert_eq!(fault("a", "split", vec![s("(")]).0, "PatternSyntaxException");
    assert_eq!(fault("a", "replaceAll", vec![s("a"), s("$9")]).0, "IndexOutOfBoundsException");
    assert!(null_string_argument("contains", &vec![Value::Undef]).is_err());
    assert!(null_string_argument("contains", &vec![s("a")]).is_ok());
}

#[test]
fn characters_by_their_class() {
    let yes = |m: &str, c: char| matches!(character_method(m, c), Some(Value::Bool(true)));
    assert!(yes("isDigit", '7'));
    assert!(yes("isLetter", 'é'));
    assert!(yes("isLetterOrDigit", 'x'));
    assert!(yes("isUpperCase", 'A'));
    assert!(yes("isLowerCase", 'a'));
    assert!(yes("isWhitespace", '\t'));
    assert!(!yes("isDigit", 'x'));
    assert!(!yes("isUpperCase", 'a'));
    assert!(matches!(character_method("toUpperCase", 'a'), Some(Value::Int(65))));
    assert!(matches!(character_method("toLowerCase", 'A'), Some(Value::Int(97))));
    assert!(character_method("nope", 'a').is_none());
    assert_eq!(char_arg(&Host::new(), &Value::Int(65)), 'A');
}

fn builder(host: &mut Host, seed: &str) -> u32 {
    let obj = match sb_new("StringBuilder", &s(seed), seed) {
        Ok(o) => o,
        Err(f) => panic!("{}", f.msg),
    };
    heap_alloc(host, obj)
}

fn edit(host: &mut Host, id: u32, method: &str, args: Vec<Value>) -> Result<Value, Fault> {
    let shown: Vec<String> = args
        .iter()
        .map(|v| match v {
            Value::Str(t) => t.clone(),
            Value::Int(n) => format!("{n}"),
            _ => String::new(),
        })
        .collect();
    match builder_method(host, id, method, &args, &shown) {
        Some(r) => r,
        None => panic!("not a builder method"),
    }
}

#[test]
fn a_builder_leaves_three_methods_to_object() {
    let mut h = Host::new();
    let id = builder(&mut h, "abc");
    let none: Vec<Value> = Vec::new();
    assert!(builder_method(&mut h, id, "hashCode", &none, &vec![]).is_none());
    assert!(builder_method(&mut h, id, "getClass", &none, &vec![]).is_none());
    let other = vec![Value::Obj(id)];
    assert!(builder_method(&mut h, id, "equals", &other, &vec!["abc".to_string()]).is_none());
    assert_eq!(held(&mut h, id), "abc");
}

fn held(host: &mut Host, id: u32) -> String {
    match edit(host, id, "toString", vec![]) {
        Ok(Value::Str(t)) => t,
        _ => panic!("no text"),
    }
}

fn done(host: &mut Host, id: u32, method: &str, args: Vec<Value>) {
    if let Err(f) = edit(host, id, method, args) {
        panic!("{}: {}", f.class, f.msg);
    }
}

#[test]
fn a_builder_is_edited_in_place() {
    let mut h = Host::new();
    let id = builder(&mut h, "abc");
    assert_eq!(is_builder(&h, &Value::Obj(id)), Some(id));
    done(&mut h, id, "append", vec![s("def")]);
    assert_eq!(held(&mut h, id), "abcdef");
    done(&mut h, id, "insert", vec![Value::Int(3), s("--")]);
    assert_eq!(held(&mut h, id), "abc--def");
    done(&mut h, id, "delete", vec![Value::Int(3), Value::Int(5)]);
    assert_eq!(held(&mut h, id), "abcdef");
    done(&mut h, id, "reverse", vec![]);
    assert_eq!(held(&mut h, id), "fedcba");
    done(&mut h, id, "reverse", vec![]);
    assert_eq!(held(&mut h, id), "abcdef");
    done(&mut h, id, "deleteCharAt", vec![Value::Int(0)]);
    done(&mut h, id, "setLength", vec![Value::Int(2)]);
    assert_eq!(held(&mut h, id), "bc");
    match edit(&mut h, id, "length", vec![]) {
        Ok(Value::Int(n)) => assert_eq!(n, 2),
        _ => panic!("no length"),
    }
}

#[test]
fn a_builder_grows_as_java_does() {
    assert_eq!(sb_grow(16, 17), 34);
    assert_eq!(sb_grow(16, 100), 100);
    let mut h = Host::new();
    let id = builder(&mut h, "abc");
    match edit(&mut h, id, "capacity", vec![]) {
        Ok(Value::Int(n)) => assert_eq!(n, 19),
        _ => panic!("no capacity"),
    }
}

#[test]
fn a_builder_checks_its_bounds() {
    let mut h = Host::new();
    let id = builder(&mut h, "abc");
    match edit(&mut h, id, "deleteCharAt", vec![Value::Int(9)]) {
        Err(f) => {
            assert_eq!(f.class, "StringIndexOutOfBoundsException");
            assert_eq!(f.msg, "Index 9 out of bounds for length 3");
        }
        Ok(_) => panic!("no fault"),
    }
    assert_eq!(held(&mut h, id), "abc");
    assert!(sb_range(2, 1, 3).is_err());
    assert!(matches!(sb_range(1, 2, 3), Ok((1, 2))));
    assert!(sb_char_offset(-1, 3).is_err());
}
