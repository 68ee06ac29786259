use javars::ast::{
    BinOp, Class, Expr, LambdaBody, Method, Program, Stmt, StmtKind, SwitchArmBody, UnOp,
};
use javars::parser::parse;

/// A program whose `main` holds these statements.
fn in_main(body: &str) -> String {
    format!("public class Main {{ public static void main(String[] args) {{ {body} }} }}")
}

fn program(src: &str) -> Program {
    match parse(src) {
        Ok(p) => p,
        Err(m) => panic!("{m}"),
    }
}

fn error(src: &str) -> String {
    match parse(src) {
        Ok(_) => panic!("parsed: {src}"),
        Err(m) => m,
    }
}

fn main_error(body: &str) -> String {
    error(&in_main(body))
}

fn op_text(op: BinOp) -> &'static str {
    match op {
        BinOp::Add => "+",
        BinOp::Sub => "-",
        BinOp::Mul => "*",
        BinOp::Div => "/",
        BinOp::Mod => "%",
        BinOp::Eq => "==",
        BinOp::Ne => "!=",
        BinOp::Lt => "<",
        BinOp::Gt => ">",
        BinOp::Le => "<=",
        BinOp::Ge => ">=",
        BinOp::And => "&&",
        BinOp::Or => "||",
        BinOp::BitAnd => "&",
        BinOp::BitOr => "|",
        BinOp::BitXor => "^",
        BinOp::Shl => "<<",
        BinOp::Shr => ">>",
        BinOp::Ushr => ">>>",
    }
}

fn list(es: &[Expr]) -> String {
    let parts: Vec<String> = es.iter().map(show).collect();
    parts.join(" ")
}

/// An expression with every bracket written.
fn show(e: &Expr) -> String {
    match e {
        Expr::Int(n) => format!("{n}"),
        Expr::Long(n) => format!("{n}L"),
        Expr::Float(s) => s.clone(),
        Expr::Float32(s) => format!("{s}f"),
        Expr::Str(s) => format!("'{s}'"),
        Expr::Char(c) => format!("c{c}"),
        Expr::Bool(b) => format!("{b}"),
        Expr::Var(n) => n.clone(),
        Expr::This => "this".to_string(),
        Expr::Unary { op, rhs } => {
            let o = match op {
                UnOp::Neg => "-",
                UnOp::Not => "!",
                UnOp::BitNot => "~",
            };
            format!("({o} {})", show(rhs))
        }
        Expr::Binary { op, lhs, rhs } => {
            format!("({} {} {})", op_text(*op), show(lhs), show(rhs))
        }
        Expr::Ternary { cond, yes, no } => {
            format!("(? {} {} {})", show(cond), show(yes), show(no))
        }
        Expr::Index { array, index } => format!("{}[{}]", show(array), show(index)),
        Expr::Field { recv, name } => format!("{}.{name}", show(recv)),
        Expr::MethodCall { recv, method, args, .. } => {
            format!("{}.{method}({})", show(recv), list(args))
        }
        Expr::Call { name, args, .. } => format!("{name}({})", list(args)),
        Expr::NewObject { class, args, .. } => format!("new {class}({})", list(args)),
        Expr::NewArray { elem_ty, sizes, extra_dims } => {
            format!("new {elem_ty}[{}]+{extra_dims}", list(sizes))
        }
        Expr::ArrayLit { elems, elem_ty } => match elem_ty {
            Some(t) => format!("{t}{{{}}}", list(elems)),
            None => format!("{{{}}}", list(elems)),
        },
        Expr::InstanceOf { expr, class } => format!("({} is {class})", show(expr)),
        Expr::Cast { ty, expr, .. } => format!("<{ty}>{}", show(expr)),
        Expr::Lambda { params, body, .. } => match body {
            LambdaBody::Expr(e) => format!("[{} -> {}]", params.join(","), show(e)),
            LambdaBody::Block(b) => format!("[{} -> block of {}]", params.join(","), b.len()),
        },
        Expr::MethodRef { recv, method, .. } => format!("{}::{method}", show(recv)),
        Expr::SwitchExpr { disc, arms, .. } => {
            let mut s = format!("switch {}", show(disc));
            for a in arms {
                let head = if a.is_default {
                    "default".to_string()
                } else {
                    String::new()
                };
                let body = match &a.body {
                    SwitchArmBody::Expr(e) => show(e),
                    SwitchArmBody::Block(b) => format!("block of {}", b.len()),
                };
                s.push_str(&format!(" [{head}{} -> {body}]", list(&a.labels)));
            }
            s
        }
        Expr::Println { newline, err, arg } => format!(
            "print{}{}({})",
            if *newline { "ln" } else { "" },
            if *err { "!" } else { "" },
            match arg {
                Some(e) => show(e),
                None => String::new(),
            }
        ),
        Expr::PostIncDec { name, inc } => format!("{name}{}", if *inc { "++" } else { "--" }),
        Expr::PreIncDec { name, inc } => format!("{}{name}", if *inc { "++" } else { "--" }),
    }
}

/// The initial value of `var x = e;`.
fn value_of(e: &str) -> String {
    let p = program(&in_main(&format!("var x = {e};")));
    match &p.main[0].kind {
        StmtKind::Local { init: Some(v), .. } => show(v),
        _ => panic!("no local"),
    }
}

fn only(body: &str) -> StmtKind {
    let mut p = program(&in_main(body));
    assert_eq!(p.main.len(), 1);
    match p.main.pop() {
        Some(s) => s.kind,
        None => panic!("no statement"),
    }
}

fn class_named<'a>(p: &'a Program, name: &str) -> &'a Class {
    match p.classes.iter().find(|c| c.name == name) {
        Some(c) => c,
        None => panic!("no class {name}"),
    }
}

fn method_named<'a>(c: &'a Class, name: &str) -> &'a Method {
    match c.methods.iter().find(|m| m.name == name) {
        Some(m) => m,
        None => panic!("no method {name}"),
    }
}

fn returned(s: &Stmt) -> String {
    match &s.kind {
        StmtKind::Return(Some(e)) => show(e),
        _ => panic!("no return"),
    }
}

#[test]
fn multiplication_binds_tighter_than_addition() {
    assert_eq!(value_of("1 + 2 * 3"), "(+ 1 (* 2 3))");
    assert_eq!(value_of("(1 + 2) * 3"), "(* (+ 1 2) 3)");
}

#[test]
fn operators_associate_to_the_left() {
    assert_eq!(value_of("a - b - c"), "(- (- a b) c)");
    assert_eq!(value_of("a / b * c % d"), "(% (* (/ a b) c) d)");
}

#[test]
fn the_ladder_of_operators_is_that_of_java() {
    assert_eq!(
        value_of("a || b && c | d ^ e & f == g < h << i + j * k"),
        "(|| a (&& b (| c (^ d (& e (== f (< g (<< h (+ i (* j k))))))))))"
    );
    assert_eq!(value_of("a >>> b >> c"), "(>> (>>> a b) c)");
}

#[test]
fn instanceof_is_relational() {
    assert_eq!(value_of("a == b instanceof C"), "(== a (b is C))");
    assert_eq!(value_of("a instanceof C && b"), "(&& (a is C) b)");
}

#[test]
fn the_conditional_binds_loosest_and_to_the_right() {
    assert_eq!(value_of("a || b ? c : d ? e : f"), "(? (|| a b) c (? d e f))");
}

#[test]
fn prefix_operators_nest_and_plus_is_dropped() {
    assert_eq!(value_of("- - a"), "(- (- a))");
    assert_eq!(value_of("!~+a"), "(! (~ a))");
    assert_eq!(value_of("++a + --b"), "(+ ++a --b)");
    assert_eq!(value_of("a++ - b--"), "(- a++ b--)");
}

#[test]
fn a_cast_is_told_from_brackets() {
    assert_eq!(value_of("(int) -x"), "<int>(- x)");
    assert_eq!(value_of("(a) - b"), "(- a b)");
    assert_eq!(value_of("(Integer) o"), "<Integer>o");
    assert_eq!(value_of("(java.util.List<String>[]) o"), "<List[]>o");
    assert_eq!(value_of("(a) instanceof B"), "(a is B)");
    assert_eq!(value_of("(int[]) o"), "<int[]>o");
}

#[test]
fn chains_go_from_left_to_right() {
    assert_eq!(value_of("s.substring(1).length()"), "s.substring(1).length()");
    assert_eq!(value_of("grid[i][j].next"), "grid[i][j].next");
    assert_eq!(value_of("String::length"), "String::length");
    assert_eq!(value_of("Point::new"), "Point::new");
    assert_eq!(value_of("System.out::println"), "System.out::println");
}

#[test]
fn lambdas_in_all_spellings() {
    assert_eq!(value_of("() -> 1"), "[ -> 1]");
    assert_eq!(value_of("x -> x + 1"), "[x -> (+ x 1)]");
    assert_eq!(value_of("(a, b) -> { return a; }"), "[a,b -> block of 1]");
    assert_eq!(value_of("(final int a, List<String> b) -> a"), "[a,b -> a]");
    assert!(program(&in_main("var x = y -> y;")).uses_functional);
}

#[test]
fn arrays_with_sizes_and_with_elements() {
    assert_eq!(value_of("new int[3]"), "new int[3]+0");
    assert_eq!(value_of("new int[a][b][]"), "new int[a b]+1");
    assert_eq!(value_of("new int[][]{{1, 2}, {3,}}"), "int[]{{1 2} {3}}");
    assert_eq!(
        main_error("int[] a = new int[2][][3];"),
        "javars: a sized array dimension cannot follow an empty one (line 1)"
    );
}

#[test]
fn a_declaration_of_several_names() {
    match only("int a[] = {1}, b, c = 2;") {
        StmtKind::Locals(ds) => {
            let shown: Vec<String> = ds
                .iter()
                .map(|d| match &d.kind {
                    StmtKind::Local { ty, name, init } => format!(
                        "{ty} {name} {}",
                        match init {
                            Some(e) => show(e),
                            None => "-".to_string(),
                        }
                    ),
                    _ => panic!("no local"),
                })
                .collect();
            assert_eq!(shown, vec!["int[] a {1}", "int b -", "int c 2"]);
        }
        _ => panic!("not several"),
    }
    assert_eq!(
        main_error("var a = 1, b = 2;"),
        "javars: 'var' is not allowed in a compound declaration on line 1"
    );
}

#[test]
fn types_lose_their_package_and_arguments() {
    match only("final java.util.Map<String, List<Integer>> m = null;") {
        StmtKind::Local { ty, name, .. } => {
            assert_eq!(ty, "Map");
            assert_eq!(name, "m");
        }
        _ => panic!("no local"),
    }
}

#[test]
fn assignments_to_what_can_be_assigned() {
    assert!(matches!(only("x += 1;"), StmtKind::Assign { .. }));
    assert!(matches!(only("a[0] = 1;"), StmtKind::IndexAssign { .. }));
    assert!(matches!(only("this.x = 1;"), StmtKind::FieldAssign { .. }));
    match only("a[i]++;") {
        StmtKind::IndexAssign { value, .. } => assert_eq!(show(&value), "1"),
        _ => panic!("no assignment"),
    }
    assert_eq!(
        main_error("f() = 1;"),
        "javars: `Call` is not an assignable target on line 1"
    );
}

#[test]
fn jumps_with_and_without_a_label() {
    match only("outer: while (true) { break outer; }") {
        StmtKind::Labeled { label, body } => {
            assert_eq!(label, "outer");
            match body.kind {
                StmtKind::While { body, .. } => match &body[0].kind {
                    StmtKind::Break(Some(l)) => assert_eq!(l, "outer"),
                    _ => panic!("no break"),
                },
                _ => panic!("no loop"),
            }
        }
        _ => panic!("no label"),
    }
    assert!(matches!(only("while (a) continue;"), StmtKind::While { .. }));
    assert!(matches!(only("do { } while (a);"), StmtKind::DoWhile { .. }));
}

#[test]
fn both_forms_of_for() {
    match only("for (int i = 0, n = 3; i < n; i++, n--) { }") {
        StmtKind::For { init, cond, update, .. } => {
            assert_eq!(init.len(), 1);
            assert!(matches!(init[0].kind, StmtKind::Locals(_)));
            assert!(cond.is_some());
            assert_eq!(update.len(), 2);
        }
        _ => panic!("no for"),
    }
    match only("for (;;) { }") {
        StmtKind::For { init, cond, update, .. } => {
            assert_eq!((init.len(), cond.is_none(), update.len()), (0, true, 0));
        }
        _ => panic!("no for"),
    }
    match only("for (final String s : xs) print(s);") {
        StmtKind::ForEach { ty, name, iter, body } => {
            assert_eq!((ty.as_str(), name.as_str()), ("String", "s"));
            assert_eq!(show(&iter), "xs");
            assert_eq!(body.len(), 1);
        }
        _ => panic!("no for"),
    }
}

#[test]
fn a_switch_with_colons_groups_its_labels() {
    match only("switch (n) { case 1: case 2: f(); break; default: g(); }") {
        StmtKind::Switch { disc, groups } => {
            assert_eq!(show(&disc), "n");
            assert_eq!(groups.len(), 2);
            assert_eq!(list(&groups[0].labels), "1 2");
            assert_eq!(groups[0].body.len(), 2);
            assert!(groups[1].is_default);
        }
        _ => panic!("no switch"),
    }
    assert_eq!(
        main_error("switch (n) { f(); }"),
        "javars: expected `case` or `default` in switch body (line 1)"
    );
}

#[test]
fn a_switch_with_arrows_is_an_expression() {
    assert_eq!(
        value_of("switch (x) { case 1, 2 -> 10; default -> { yield 3; } }"),
        "switch x [1 2 -> 10] [default -> block of 1]"
    );
    assert_eq!(
        value_of("switch (x) { case 1: case 2: yield a; default: yield b; }"),
        "switch x [1 2 -> block of 1] [default -> block of 1]"
    );
    assert!(matches!(
        only("switch (x) { case 1 -> f(); default -> throw e; }"),
        StmtKind::Expr(Expr::SwitchExpr { .. })
    ));
}

#[test]
fn yield_is_a_name_outside_an_arm() {
    assert!(matches!(only("yield = 1;"), StmtKind::Assign { .. }));
}

#[test]
fn handlers_and_the_last_block() {
    match only("try { f(); } catch (final A | B e) { g(); } finally { h(); }") {
        StmtKind::Try { body, catches, finally_body } => {
            assert_eq!(body.len(), 1);
            assert_eq!(catches[0].types, vec!["A", "B"]);
            assert_eq!(catches[0].name, "e");
            assert_eq!(finally_body.len(), 1);
        }
        _ => panic!("no try"),
    }
    assert!(program(&in_main("try { } finally { f(); }")).uses_exceptions);
    assert_eq!(
        main_error("try { f(); }"),
        "javars: `try` needs a `catch` or a `finally` (line 1)"
    );
}

#[test]
fn resources_are_closed_in_reverse() {
    match only("try (R a = f(); b) { g(); }") {
        StmtKind::If { cond, body, .. } => {
            assert_eq!(show(&cond), "true");
            assert_eq!(body.len(), 2);
            assert!(matches!(body[0].kind, StmtKind::Local { .. }));
            match &body[1].kind {
                StmtKind::Try { body, finally_body, .. } => {
                    match &finally_body[0].kind {
                        StmtKind::If { cond, body, .. } => {
                            assert_eq!(show(cond), "(!= a null)");
                            match &body[0].kind {
                                StmtKind::Expr(e) => assert_eq!(show(e), "a.close()"),
                                _ => panic!("no close"),
                            }
                        }
                        _ => panic!("no test"),
                    }
                    assert_eq!(body.len(), 1);
                    match &body[0].kind {
                        StmtKind::Try { finally_body, body, .. } => {
                            assert_eq!(body.len(), 1);
                            match &finally_body[0].kind {
                                StmtKind::If { cond, .. } => {
                                    assert_eq!(show(cond), "(!= b null)")
                                }
                                _ => panic!("no test"),
                            }
                        }
                        _ => panic!("no inner try"),
                    }
                }
                _ => panic!("no try"),
            }
        }
        _ => panic!("no block"),
    }
    assert_eq!(
        main_error("try () { f(); }"),
        "javars: try-with-resources needs at least one resource (line 1)"
    );
}

#[test]
fn a_null_monitor_throws() {
    match only("synchronized (next()) { f(); }") {
        StmtKind::If { cond, body, els } => {
            assert_eq!(show(&cond), "(!= next() null)");
            assert_eq!(body.len(), 1);
            match &els[0].kind {
                StmtKind::Throw(e) => assert_eq!(
                    show(e),
                    "new NullPointerException('Cannot enter synchronized block because the \
                     monitor is null')"
                ),
                _ => panic!("no throw"),
            }
        }
        _ => panic!("no if"),
    }
}

#[test]
fn printing_to_the_streams() {
    let shown = |body: &str| match only(body) {
        StmtKind::Expr(e) => show(&e),
        _ => panic!("no expression"),
    };
    assert_eq!(shown("System.out.println(1);"), "println(1)");
    assert_eq!(shown("System.err.print(1);"), "print!(1)");
    assert_eq!(shown("System.out.println();"), "println()");
    assert_eq!(shown("java.lang.System.out.println(1);"), "println(1)");
    assert_eq!(
        shown("System.out.printf(\"%d\", 1);"),
        "print(String.format('%d' 1))"
    );
    assert_eq!(
        main_error("System.in.read();"),
        "javars: only `System.out`/`System.err` are supported, not `System.in` (line 1)"
    );
    assert_eq!(
        main_error("System.out.flush();"),
        "javars: only `System.out.println`/`print`/`printf` are supported, not `flush` (line 1)"
    );
}

#[test]
fn the_first_error_names_its_token_and_line() {
    assert_eq!(
        error("public class Main {\n  public static void main(String[] a) {\n    int x = ;\n  }\n}"),
        "javars: unexpected token Semi in expression on line 3"
    );
    assert_eq!(
        error("class 1 { }"),
        "javars: expected an identifier but found Int(1) on line 1"
    );
    assert_eq!(
        main_error("if true { }"),
        "javars: expected LParen but found True on line 1"
    );
    assert_eq!(
        error("class A { }"),
        "javars: no class declares `public static void main(String[] args)`"
    );
}

#[test]
fn what_messages_show_of_literals() {
    assert_eq!(
        error("class \"a\\n\" { }"),
        "javars: expected an identifier but found Str(\"a\\n\") on line 1"
    );
    assert_eq!(
        error("class 'q' { }"),
        "javars: expected an identifier but found Char('q') on line 1"
    );
    assert_eq!(
        error("class 1.50 { }"),
        "javars: expected an identifier but found Float(1.5) on line 1"
    );
}

#[test]
fn packages_and_imports_are_skipped() {
    let src = format!("package a.b;\nimport java.util.*;\n{}", in_main(""));
    let p = program(&src);
    assert_eq!(p.class_name, "Main");
    assert_eq!(p.main_param.as_deref(), Some("args"));
}

#[test]
fn the_members_of_a_class() {
    let p = program(
        "class A extends B implements I, J {\n\
         static int n = 1; int x, y = 2; static { n = 3; } { x = 4; }\n\
         A(int x) { this.x = x; }\n\
         int get() { return x; }\n\
         static int two() { return 2; }\n\
         abstract void none();\n\
         class Inner { }\n\
         public static void main(String... argv) throws E, F { }\n\
         }",
    );
    let a = class_named(&p, "A");
    assert_eq!(a.superclass.as_deref(), Some("B"));
    assert_eq!(a.interfaces, vec!["I", "J"]);
    assert_eq!(a.static_fields.len(), 1);
    assert_eq!(a.static_init.len(), 2);
    assert_eq!(a.fields.len(), 2);
    assert_eq!(a.inst_init.len(), 2);
    assert_eq!(a.ctors.len(), 1);
    assert_eq!(a.methods.len(), 2);
    assert!(method_named(a, "none").is_abstract);
    assert_eq!(p.methods.len(), 1);
    assert_eq!(p.methods[0].name, "two");
    assert_eq!(p.methods[0].owner, "A");
    assert_eq!(class_named(&p, "Inner").binary, "A$Inner");
    assert_eq!(p.main_param.as_deref(), Some("argv"));
    // The inner class is finished before the one around it.
    assert_eq!(p.classes[0].name, "Inner");
}

#[test]
fn three_dots_are_an_array() {
    let p = program(&format!(
        "class A {{ static void f(int a, String... rest) {{ }} }} {}",
        in_main("")
    ));
    let ps = &p.methods[0].params;
    assert_eq!((ps[1].ty.as_str(), ps[1].varargs), ("String[]", true));
    assert!(!ps[0].varargs);
}

#[test]
fn an_interface_extends_several() {
    let p = program(&format!(
        "interface I extends J, K {{ int f(); default int g() {{ return 1; }} }} {}",
        in_main("")
    ));
    let i = class_named(&p, "I");
    assert!(i.is_interface);
    assert_eq!(i.interfaces, vec!["J", "K"]);
    assert_eq!(i.superclass, None);
    assert!(method_named(i, "f").is_abstract);
    assert!(!method_named(i, "g").is_abstract);
}

#[test]
fn subclassing_an_exception_needs_the_exceptions() {
    let p = program(&format!(
        "class MyEx extends RuntimeException {{ }} {}",
        in_main("")
    ));
    assert!(p.uses_exceptions);
    assert!(!program(&in_main("")).uses_exceptions);
    assert!(program(&in_main("Object e = new Exception(\"x\");")).uses_exceptions);
}

#[test]
fn a_record_derives_its_members() {
    let p = program(&format!(
        "record Pt(int x, double y, String s) {{ }} {}",
        in_main("")
    ));
    let r = class_named(&p, "Pt");
    assert!(r.is_record);
    let fields: Vec<&str> = r.fields.iter().map(|f| f.name.as_str()).collect();
    assert_eq!(fields, vec!["x", "y", "s"]);
    assert_eq!(r.ctors.len(), 1);
    assert_eq!(r.ctors[0].body.len(), 3);
    assert_eq!(returned(&method_named(r, "x").body[0]), "this.x");
    assert_eq!(
        returned(&method_named(r, "toString").body[0]),
        "(+ (+ (+ (+ (+ (+ (+ 'Pt[' 'x=') this.x) ', y=') this.y) ', s=') this.s) ']')"
    );
    let eq = method_named(r, "equals");
    assert_eq!(
        returned(&eq.body[1]),
        "(&& (&& (&& true (== this.x #other.x)) (== Double.compare(this.y #other.y) 0)) \
         Objects.equals(this.s #other.s))"
    );
    match &eq.body[0].kind {
        StmtKind::If { cond, .. } => assert_eq!(show(cond), "(! (#other is Pt))"),
        _ => panic!("no test"),
    }
}

#[test]
fn what_a_record_declares_itself_wins() {
    let p = program(&format!(
        "record A(int x) {{ A {{ check(x); }} int x() {{ return 1; }} \
         public String toString() {{ return \"a\"; }} }} \
         record B(int x) {{ B(int x) {{ this.x = x + 1; }} B() {{ this(0); }} }} {}",
        in_main("")
    ));
    let a = class_named(&p, "A");
    // The compact constructor checks, and the field is assigned behind it.
    assert_eq!(a.ctors.len(), 1);
    assert_eq!(a.ctors[0].body.len(), 2);
    assert!(matches!(a.ctors[0].body[1].kind, StmtKind::FieldAssign { .. }));
    assert_eq!(a.methods.iter().filter(|m| m.name == "x").count(), 1);
    assert_eq!(returned(&method_named(a, "x").body[0]), "1");
    assert_eq!(returned(&method_named(a, "toString").body[0]), "'a'");
    // The one that is written out stands.
    let b = class_named(&p, "B");
    assert_eq!(b.ctors.len(), 2);
    assert_eq!(b.ctors[0].body.len(), 1);
}

#[test]
fn record_is_also_a_name() {
    assert!(matches!(only("record = 1;"), StmtKind::Assign { .. }));
}

#[test]
fn an_enum_has_names_ordinals_and_bodies() {
    let p = program(&format!(
        "enum Op {{ PLUS(1) {{ int apply(int a) {{ return a; }} static int k = 1; int m = 2; }}, \
         MINUS, ; abstract int apply(int a); public String toString() {{ return \"o\"; }} }} {}",
        in_main("")
    ));
    let e = class_named(&p, "Op");
    assert!(e.is_enum);
    let names: Vec<&str> = e.enum_constants.iter().map(|c| c.name.as_str()).collect();
    assert_eq!(names, vec!["PLUS", "MINUS"]);
    assert_eq!(list(&e.enum_constants[0].args), "1");
    let fields: Vec<&str> = e.fields.iter().map(|f| f.name.as_str()).collect();
    assert_eq!(fields, vec!["#name", "#ordinal"]);
    assert_eq!(returned(&method_named(e, "name").body[0]), "this.#name");
    assert_eq!(returned(&method_named(e, "ordinal").body[0]), "this.#ordinal");
    assert_eq!(returned(&method_named(e, "toString").body[0]), "'o'");
    assert_eq!(
        returned(&method_named(e, "compareTo").body[0]),
        "(- this.#ordinal other.#ordinal)"
    );
    assert_eq!(returned(&method_named(e, "equals").body[0]), "(== this other)");
    let body = match &e.enum_constants[0].body_class {
        Some(n) => class_named(&p, n),
        None => panic!("no body"),
    };
    assert_eq!(body.superclass.as_deref(), Some("Op"));
    assert_eq!(body.methods.len(), 1);
    assert_eq!((body.fields.len(), body.inst_init.len()), (1, 1));
    assert_eq!((body.static_fields.len(), body.static_init.len()), (1, 1));
    assert_eq!(e.enum_constants[1].body_class, None);
}

#[test]
fn the_body_of_a_constant_has_no_constructor() {
    assert_eq!(
        error("enum E { A { { } } }"),
        "javars: unsupported member in the body of enum constant `E.A` (line 1)"
    );
}

#[test]
fn annotations_of_no_meaning_here_are_skipped() {
    // A member that is none of the known forms ends at its semicolon or brace.
    let p = program(
        "class A { ; int f() { return 1; } public static void main(String[] a) { } }",
    );
    assert_eq!(class_named(&p, "A").methods.len(), 1);
}

#[test]
fn a_statement_keeps_its_line() {
    let p = program(&format!(
        "class A {{ public static void main(String[] a) {{\n  f();\n\n  g();\n}} }} {}",
        ""
    ));
    let lines: Vec<u32> = p.main.iter().map(|s| s.line).collect();
    assert_eq!(lines, vec![2, 4]);
}
