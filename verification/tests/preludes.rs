use javars::ast::Program;
use javars::parser::parse;
use javars::prelude::{
    functional_source, functional_table, inject, is_functional, is_throwable, prelude_source,
    qualified_class, qualified_throwable, throwable_table,
};

fn program(body: &str) -> Program {
    let src = format!(
        "public class Main {{ public static void main(String[] args) {{ {body} }} }}"
    );
    match parse(&src) {
        Ok(p) => p,
        Err(m) => panic!("{m}"),
    }
}

fn injected(mut p: Program) -> Program {
    match inject(&mut p) {
        Ok(()) => p,
        Err(m) => panic!("{m}"),
    }
}

#[test]
fn throwables_and_their_packages() {
    assert!(is_throwable("RuntimeException"));
    assert!(is_throwable("Throwable"));
    assert!(!is_throwable("Main"));
    assert_eq!(
        qualified_throwable("NumberFormatException").as_deref(),
        Some("java.lang.NumberFormatException")
    );
    assert_eq!(qualified_throwable("Main"), None);
    assert_eq!(
        qualified_throwable("ConcurrentModificationException").as_deref(),
        Some("java.util.ConcurrentModificationException")
    );
}

#[test]
fn classes_and_their_packages() {
    assert_eq!(qualified_class("Object").as_deref(), Some("java.lang.Object"));
    assert_eq!(qualified_class("Error").as_deref(), Some("java.lang.Error"));
    assert_eq!(qualified_class("String"), None);
    assert_eq!(qualified_class("Main"), None);
}

#[test]
fn functional_interfaces() {
    assert!(is_functional("Function"));
    assert!(is_functional("Runnable"));
    assert!(!is_functional("List"));
}

#[test]
fn every_throwable_extends_one_before_it() {
    let t = throwable_table();
    assert_eq!(t[0], ("Throwable", ""));
    for (i, (name, sup)) in t.iter().enumerate() {
        if i > 0 {
            assert!(
                t[..i].iter().any(|(n, _)| n == sup),
                "{name} extends {sup}, which is not declared before it"
            );
        }
    }
}

#[test]
fn a_plain_program_is_left_alone() {
    let p = injected(program("int x = 1;"));
    assert_eq!(p.classes.len(), 1);
    assert_eq!(p.methods.len(), 0);
}

#[test]
fn a_program_with_exceptions_gets_the_throwables() {
    let p = injected(program("throw new RuntimeException(\"x\");"));
    assert_eq!(p.classes[0].name, "Main");
    assert_eq!(p.classes.len(), 1 + throwable_table().len());
    let t = match p.classes.iter().find(|c| c.name == "IllegalArgumentException") {
        Some(c) => c,
        None => panic!("missing"),
    };
    assert_eq!(t.superclass.as_deref(), Some("RuntimeException"));
    assert_eq!(t.ctors.len(), 2);
    assert!(p.classes.iter().all(|c| !c.name.starts_with("__")));
}

#[test]
fn a_program_with_lambdas_gets_the_interfaces() {
    let p = injected(program("var f = x -> x;"));
    assert_eq!(p.classes.len(), 1 + functional_table().len());
    assert!(p.methods.iter().any(|m| m.owner == "Function" && m.name == "identity"));
    assert!(p.methods.iter().all(|m| !m.owner.starts_with("__")));
}

#[test]
fn a_declared_type_wins_over_the_prelude() {
    let src = "class Function { } class RuntimeException { } public class Main { \
               public static void main(String[] args) { try { } finally { f(); } var g = x -> x; } }";
    let p = match parse(src) {
        Ok(p) => injected(p),
        Err(m) => panic!("{m}"),
    };
    assert_eq!(p.classes.iter().filter(|c| c.name == "Function").count(), 1);
    assert_eq!(p.classes.iter().filter(|c| c.name == "RuntimeException").count(), 1);
    assert_eq!(
        p.classes.len(),
        3 + throwable_table().len() - 1 + functional_table().len() - 1
    );
}

#[test]
fn the_sources_leave_out_what_is_declared() {
    let none: Vec<String> = Vec::new();
    let all = prelude_source(&none);
    assert!(all.starts_with(
        "public class __JavaLang { public static void main(String[] a) { } }\nclass Throwable {"
    ));
    assert!(all.contains(
        "class Error extends Throwable {\n  Error() { }\n  Error(String m) { super(m); }\n}\n"
    ));
    let some = prelude_source(&vec!["Error".to_string()]);
    assert!(!some.contains("class Error extends"));
    let fs = functional_source(&none);
    assert!(fs.contains("interface Runnable { void run();  }\n"));
    let fewer = functional_source(&vec!["Runnable".to_string()]);
    assert!(!fewer.contains("interface Runnable"));
}

#[test]
fn a_second_injection_adds_nothing() {
    let src = "class Error { } class Runnable { } public class Main { \
               public static void main(String[] args) { try { } finally { f(); } var g = x -> x; } }";
    let once = match parse(src) {
        Ok(p) => injected(p),
        Err(m) => panic!("{m}"),
    };
    let twice = match parse(src) {
        Ok(p) => injected(injected(p)),
        Err(m) => panic!("{m}"),
    };
    assert_eq!(
        once.classes.len(),
        3 + throwable_table().len() - 1 + functional_table().len() - 1
    );
    let names: Vec<&str> = once.classes.iter().map(|c| c.name.as_str()).collect();
    let again: Vec<&str> = twice.classes.iter().map(|c| c.name.as_str()).collect();
    assert_eq!(names, again);
    assert_eq!(once.methods.len(), twice.methods.len());
    assert_eq!(names[..4], ["Error", "Runnable", "Main", "Throwable"]);
}
