use javars::ast::{Expr, Program, StmtKind};
use javars::blocks::{compile_call, ready};
use javars::value::Value;
use javars::{parse, parse_readied, run_result, supertypes, Ended};

#[test]
fn a_parsed_program_has_the_types_it_uses() {
    let src = "class MyEx extends RuntimeException { } interface I { } \
               class C extends MyEx implements I, Runnable { } \
               public class Main { public static void main(String[] args) { } }";
    let p = match parse(src) {
        Ok(p) => p,
        Err(m) => panic!("{m}"),
    };
    assert!(p.classes.iter().any(|c| c.name == "Throwable"));
    let sup = supertypes(&p);
    let of = |n: &str| -> Vec<String> {
        match sup.iter().find(|r| r.0 == n) {
            Some(r) => r.1.clone(),
            None => panic!("no class {n}"),
        }
    };
    assert_eq!(of("C"), vec!["MyEx", "I", "Runnable"]);
    assert_eq!(of("MyEx"), vec!["RuntimeException"]);
    assert_eq!(of("I"), Vec::<String>::new());
}

#[test]
fn a_text_that_is_no_program_is_an_error() {
    match parse("class A { }") {
        Ok(_) => panic!("parsed"),
        Err(m) => assert_eq!(
            m,
            "javars: no class declares `public static void main(String[] args)`"
        ),
    }
}

#[test]
fn a_noted_fault_comes_first() {
    let fault = Some("boom".to_string());
    match run_result(fault, Ended::Done(Value::Int(1)), None) {
        Err(m) => assert_eq!(m, "boom"),
        Ok(_) => panic!("no fault"),
    }
    assert!(matches!(
        run_result(None, Ended::Done(Value::Int(1)), None),
        Ok(Value::Int(1))
    ));
    assert!(matches!(
        run_result(None, Ended::Halted, Some(Value::Int(2))),
        Ok(Value::Int(2))
    ));
    assert!(matches!(run_result(None, Ended::Halted, None), Ok(Value::Undef)));
    match run_result(None, Ended::Failed("stack".to_string()), None) {
        Err(m) => assert_eq!(m, "stack"),
        Ok(_) => panic!("no error"),
    }
}

const BODY: &str = "IHB1YiBmbiBqKHg6IGk2NCkgLT4gaTY0IHsgeCAqIDMgfSA=";

fn calls_in_main(p: &Program) -> Vec<(String, usize, u32)> {
    p.main
        .iter()
        .map(|s| match &s.kind {
            StmtKind::Expr(Expr::Call { name, args, line }) => (name.clone(), args.len(), *line),
            _ => panic!("no call"),
        })
        .collect()
}

#[test]
fn a_native_block_is_rewritten_as_a_call() {
    let src = "public class Ffi {\n  public static void main(String[] args) {\n    \
               rust { pub fn j(x: i64) -> i64 { x * 3 } }\n    j(14);\n  }\n}";
    let text = ready(src);
    assert!(text.contains(&compile_call(BODY, 3)));
    assert!(!text.contains("rust {"));
    let p = match parse(src) {
        Ok(p) => p,
        Err(m) => panic!("{m}"),
    };
    assert_eq!(
        calls_in_main(&p),
        vec![("__rust_compile".to_string(), 2, 3), ("j".to_string(), 1, 4)]
    );
    match &p.main[0].kind {
        StmtKind::Expr(Expr::Call { args, .. }) => {
            assert!(matches!(&args[0], Expr::Str(b) if b == BODY));
            assert!(matches!(&args[1], Expr::Int(3)));
        }
        _ => panic!("no call"),
    }
    match parse_readied(&text) {
        Ok(q) => assert_eq!(calls_in_main(&q), calls_in_main(&p)),
        Err(m) => panic!("{m}"),
    }
    assert!(parse_readied(src).is_err());
}

#[test]
fn the_call_of_a_native_block() {
    assert_eq!(compile_call("QQ==", 12), "__rust_compile(\"QQ==\", 12);");
}

#[test]
fn a_text_without_native_blocks_stays_as_it_is() {
    for src in [
        "",
        "int x = 1; // trust, é",
        "/* é */ f();",
        "/* é, rust { } */ f();",
        "s = \"rust { }\"; /* a /* b */ c */ g(\"é\");",
        "// rust { x }\nrusty { }",
    ] {
        assert_eq!(ready(src), src);
    }
}

#[test]
fn other_letters_outside_comments_are_no_hindrance() {
    let text = ready("s = \"é\"; /* plain */ rust { pub fn j(x: i64) -> i64 { x * 3 } }");
    assert_eq!(text, format!("s = \"é\"; /* plain */ {}", compile_call(BODY, 1)));
}
