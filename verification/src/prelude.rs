//! The implicit `java.lang` and `java.util.function` declarations.
//!
//! The exception classes and functional interfaces a program may name are
//! written in Java and parsed like the program itself, so every rule about
//! classes and interfaces applies to them unchanged. Each half goes only into
//! the programs that use it.
use vstd::prelude::*;

use crate::ast::{Class, ClassV, Method, MethodV, Program, ProgramV, class_views, method_views};
use crate::injection::injecting_adds_what_is_missing;
use crate::parser::{parse, parsed};
use crate::text::{is_listed, listed, own, same, views};

verus! {

/// A row of the table of throwables: a class and its superclass, which is empty
/// for the root.
pub open spec fn throwables() -> Seq<(Seq<char>, Seq<char>)> {
    seq![
        ("Throwable"@, ""@),
        ("Error"@, "Throwable"@),
        ("Exception"@, "Throwable"@),
        ("RuntimeException"@, "Exception"@),
        ("IllegalArgumentException"@, "RuntimeException"@),
        ("NumberFormatException"@, "IllegalArgumentException"@),
        ("IllegalStateException"@, "RuntimeException"@),
        ("ArithmeticException"@, "RuntimeException"@),
        ("NullPointerException"@, "RuntimeException"@),
        ("ClassCastException"@, "RuntimeException"@),
        ("UnsupportedOperationException"@, "RuntimeException"@),
        ("NegativeArraySizeException"@, "RuntimeException"@),
        ("IndexOutOfBoundsException"@, "RuntimeException"@),
        ("ArrayIndexOutOfBoundsException"@, "IndexOutOfBoundsException"@),
        ("StringIndexOutOfBoundsException"@, "IndexOutOfBoundsException"@),
        ("PatternSyntaxException"@, "IllegalArgumentException"@),
        ("ConcurrentModificationException"@, "RuntimeException"@),
        ("NoSuchElementException"@, "RuntimeException"@),
        ("IllegalFormatException"@, "IllegalArgumentException"@),
        ("IllegalFormatConversionException"@, "IllegalFormatException"@),
        ("IllegalFormatWidthException"@, "IllegalFormatException"@),
        ("IllegalFormatPrecisionException"@, "IllegalFormatException"@),
        ("MissingFormatArgumentException"@, "IllegalFormatException"@),
        ("UnknownFormatConversionException"@, "IllegalFormatException"@),
        ("FormatFlagsConversionMismatchException"@, "IllegalFormatException"@),
        ("IllegalFormatFlagsException"@, "IllegalFormatException"@),
        ("MissingFormatWidthException"@, "IllegalFormatException"@),
    ]
}

/// The views of a table of pairs.
pub open spec fn pair_views(s: Seq<(&str, &str)>) -> Seq<(Seq<char>, Seq<char>)> {
    Seq::new(s.len(), |i: int| (s[i].0@, s[i].1@))
}

/// The modeled throwables with their superclasses, a superclass always ahead of
/// its subclasses.
pub fn throwable_table() -> (r: Vec<(&'static str, &'static str)>)
    ensures
        pair_views(r@) == throwables(),
{
    let r: Vec<(&'static str, &'static str)> = vec![
        ("Throwable", ""),
        ("Error", "Throwable"),
        ("Exception", "Throwable"),
        ("RuntimeException", "Exception"),
        ("IllegalArgumentException", "RuntimeException"),
        ("NumberFormatException", "IllegalArgumentException"),
        ("IllegalStateException", "RuntimeException"),
        ("ArithmeticException", "RuntimeException"),
        ("NullPointerException", "RuntimeException"),
        ("ClassCastException", "RuntimeException"),
        ("UnsupportedOperationException", "RuntimeException"),
        ("NegativeArraySizeException", "RuntimeException"),
        ("IndexOutOfBoundsException", "RuntimeException"),
        ("ArrayIndexOutOfBoundsException", "IndexOutOfBoundsException"),
        ("StringIndexOutOfBoundsException", "IndexOutOfBoundsException"),
        ("PatternSyntaxException", "IllegalArgumentException"),
        ("ConcurrentModificationException", "RuntimeException"),
        ("NoSuchElementException", "RuntimeException"),
        ("IllegalFormatException", "IllegalArgumentException"),
        ("IllegalFormatConversionException", "IllegalFormatException"),
        ("IllegalFormatWidthException", "IllegalFormatException"),
        ("IllegalFormatPrecisionException", "IllegalFormatException"),
        ("MissingFormatArgumentException", "IllegalFormatException"),
        ("UnknownFormatConversionException", "IllegalFormatException"),
        ("FormatFlagsConversionMismatchException", "IllegalFormatException"),
        ("IllegalFormatFlagsException", "IllegalFormatException"),
        ("MissingFormatWidthException", "IllegalFormatException"),
    ];
    assert(pair_views(r@) =~= throwables());
    r
}

/// Whether `name` is a modeled throwable.
pub open spec fn throwable(name: Seq<char>) -> bool {
    exists|i: int| 0 <= i < throwables().len() && (#[trigger] throwables()[i]).0 == name
}

/// Whether `name` is a modeled throwable.
pub fn is_throwable(name: &str) -> (r: bool)
    ensures
        r == throwable(name@),
{
    let t: Vec<(&'static str, &'static str)> = throwable_table();
    let mut i: usize = 0;
    while i < t.len()
        invariant
            i <= t.len(),
            pair_views(t@) == throwables(),
            forall|k: int| 0 <= k < i ==> (#[trigger] throwables()[k]).0 != name@,
        decreases t.len() - i,
    {
        assert(pair_views(t@)[i as int] == throwables()[i as int]);
        if same(t[i].0, name) {
            return true;
        }
        i += 1;
    }
    false
}

/// Whether a modeled throwable lives in `java.util` rather than `java.lang`.
pub open spec fn util_throwable(name: Seq<char>) -> bool {
    ||| name == "ConcurrentModificationException"@
    ||| name == "NoSuchElementException"@
    ||| name == "IllegalFormatException"@
    ||| name == "IllegalFormatConversionException"@
    ||| name == "IllegalFormatWidthException"@
    ||| name == "IllegalFormatPrecisionException"@
    ||| name == "MissingFormatArgumentException"@
    ||| name == "UnknownFormatConversionException"@
    ||| name == "FormatFlagsConversionMismatchException"@
    ||| name == "IllegalFormatFlagsException"@
    ||| name == "MissingFormatWidthException"@
}

/// The qualified name of a modeled throwable.
pub open spec fn throwable_name(name: Seq<char>) -> Option<Seq<char>> {
    if !throwable(name) {
        None
    } else if name == "PatternSyntaxException"@ {
        Some("java.util.regex."@ + name)
    } else if util_throwable(name) {
        Some("java.util."@ + name)
    } else {
        Some("java.lang."@ + name)
    }
}

/// The view of an optional text.
pub open spec fn opt_view(s: Option<String>) -> Option<Seq<char>> {
    match s {
        Some(t) => Some(t@),
        None => None,
    }
}

fn in_package(package: &str, name: &str) -> (r: String)
    ensures
        r@ == package@ + name@,
{
    let mut r: String = own(package);
    r.append(name);
    r
}

/// The qualified name of a modeled throwable: the name `getClass().getName()`
/// and the uncaught report print.
pub fn qualified_throwable(name: &str) -> (r: Option<String>)
    ensures
        opt_view(r) == throwable_name(name@),
{
    if !is_throwable(name) {
        None
    } else if same(name, "PatternSyntaxException") {
        Some(in_package("java.util.regex.", name))
    } else if same(name, "ConcurrentModificationException")
        || same(name, "NoSuchElementException")
        || same(name, "IllegalFormatException")
        || same(name, "IllegalFormatConversionException")
        || same(name, "IllegalFormatWidthException")
        || same(name, "IllegalFormatPrecisionException")
        || same(name, "MissingFormatArgumentException")
        || same(name, "UnknownFormatConversionException")
        || same(name, "FormatFlagsConversionMismatchException")
        || same(name, "IllegalFormatFlagsException")
        || same(name, "MissingFormatWidthException") {
        Some(in_package("java.util.", name))
    } else {
        Some(in_package("java.lang.", name))
    }
}

/// The qualified name of a modeled class: a throwable, or the root `Object`.
pub open spec fn class_name(name: Seq<char>) -> Option<Seq<char>> {
    if name == "Object"@ {
        Some("java.lang.Object"@)
    } else {
        throwable_name(name)
    }
}

/// The qualified name of a modeled class, `None` for a class of the program.
pub fn qualified_class(name: &str) -> (r: Option<String>)
    ensures
        opt_view(r) == class_name(name@),
{
    if same(name, "Object") {
        Some(own("java.lang.Object"))
    } else {
        qualified_throwable(name)
    }
}

/// A row of the table of functional interfaces: the name, the single abstract
/// method, and the other members.
pub open spec fn functionals() -> Seq<(Seq<char>, Seq<char>, Seq<char>)> {
    seq![
        (
            "Runnable"@,
            "void run()"@,
            ""@,
        ),
        (
            "Callable"@,
            "Object call()"@,
            ""@,
        ),
        (
            "Supplier"@,
            "Object get()"@,
            ""@,
        ),
        (
            "Consumer"@,
            "void accept(Object t)"@,
            "default Consumer andThen(Consumer after) { return t -> { this.accept(t); after.accept(t); }; }"@,
        ),
        (
            "BiConsumer"@,
            "void accept(Object t, Object u)"@,
            "default BiConsumer andThen(BiConsumer after) { return (t, u) -> { this.accept(t, u); after.accept(t, u); }; }"@,
        ),
        (
            "Function"@,
            "Object apply(Object t)"@,
            "default Function andThen(Function after) { return t -> after.apply(this.apply(t)); } default Function compose(Function before) { return v -> this.apply(before.apply(v)); } static Function identity() { return t -> t; }"@,
        ),
        (
            "BiFunction"@,
            "Object apply(Object t, Object u)"@,
            "default BiFunction andThen(Function after) { return (t, u) -> after.apply(this.apply(t, u)); }"@,
        ),
        (
            "UnaryOperator"@,
            "Object apply(Object t)"@,
            "static UnaryOperator identity() { return t -> t; }"@,
        ),
        (
            "BinaryOperator"@,
            "Object apply(Object t, Object u)"@,
            "static BinaryOperator minBy(Comparator comparator) { return (a, b) -> comparator.compare(a, b) <= 0 ? a : b; } static BinaryOperator maxBy(Comparator comparator) { return (a, b) -> comparator.compare(a, b) >= 0 ? a : b; }"@,
        ),
        (
            "Predicate"@,
            "boolean test(Object t)"@,
            "default Predicate and(Predicate other) { return t -> this.test(t) && other.test(t); } default Predicate negate() { return t -> !this.test(t); } default Predicate or(Predicate other) { return t -> this.test(t) || other.test(t); } static Predicate not(Predicate target) { return target.negate(); }"@,
        ),
        (
            "BiPredicate"@,
            "boolean test(Object t, Object u)"@,
            "default BiPredicate and(BiPredicate other) { return (t, u) -> this.test(t, u) && other.test(t, u); } default BiPredicate negate() { return (t, u) -> !this.test(t, u); } default BiPredicate or(BiPredicate other) { return (t, u) -> this.test(t, u) || other.test(t, u); }"@,
        ),
        (
            "Comparator"@,
            "int compare(Object a, Object b)"@,
            "default Comparator reversed() { return (a, b) -> this.compare(b, a); } default Comparator thenComparing(Comparator other) { return (a, b) -> { int r = this.compare(a, b); if (r != 0) { return r; } return other.compare(a, b); }; } static Comparator naturalOrder() { return (a, b) -> a.compareTo(b); } static Comparator reverseOrder() { return (a, b) -> b.compareTo(a); } static Comparator comparing(Function key) { return (a, b) -> key.apply(a).compareTo(key.apply(b)); }"@,
        ),
        (
            "IntSupplier"@,
            "int getAsInt()"@,
            ""@,
        ),
        (
            "IntPredicate"@,
            "boolean test(int value)"@,
            "default IntPredicate and(IntPredicate other) { return value -> this.test(value) && other.test(value); } default IntPredicate negate() { return value -> !this.test(value); } default IntPredicate or(IntPredicate other) { return value -> this.test(value) || other.test(value); }"@,
        ),
        (
            "IntConsumer"@,
            "void accept(int value)"@,
            "default IntConsumer andThen(IntConsumer after) { return value -> { this.accept(value); after.accept(value); }; }"@,
        ),
        (
            "IntUnaryOperator"@,
            "int applyAsInt(int operand)"@,
            "default IntUnaryOperator compose(IntUnaryOperator before) { return v -> this.applyAsInt(before.applyAsInt(v)); } default IntUnaryOperator andThen(IntUnaryOperator after) { return v -> after.applyAsInt(this.applyAsInt(v)); } static IntUnaryOperator identity() { return v -> v; }"@,
        ),
        (
            "IntBinaryOperator"@,
            "int applyAsInt(int left, int right)"@,
            ""@,
        ),
        (
            "ToIntFunction"@,
            "int applyAsInt(Object value)"@,
            ""@,
        ),
        (
            "ToDoubleFunction"@,
            "double applyAsDouble(Object value)"@,
            ""@,
        ),
    ]
}

/// The views of a table of triples.
pub open spec fn triple_views(s: Seq<(&str, &str, &str)>) -> Seq<
    (Seq<char>, Seq<char>, Seq<char>),
> {
    Seq::new(s.len(), |i: int| (s[i].0@, s[i].1@, s[i].2@))
}

/// The modeled functional interfaces. Type parameters are erased; the members
/// beside the abstract method are the JDK's `default` and `static` ones.
pub fn functional_table() -> (r: Vec<(&'static str, &'static str, &'static str)>)
    ensures
        triple_views(r@) == functionals(),
{
    let r: Vec<(&'static str, &'static str, &'static str)> = vec![
        (
            "Runnable",
            "void run()",
            "",
        ),
        (
            "Callable",
            "Object call()",
            "",
        ),
        (
            "Supplier",
            "Object get()",
            "",
        ),
        (
            "Consumer",
            "void accept(Object t)",
            "default Consumer andThen(Consumer after) { return t -> { this.accept(t); after.accept(t); }; }",
        ),
        (
            "BiConsumer",
            "void accept(Object t, Object u)",
            "default BiConsumer andThen(BiConsumer after) { return (t, u) -> { this.accept(t, u); after.accept(t, u); }; }",
        ),
        (
            "Function",
            "Object apply(Object t)",
            "default Function andThen(Function after) { return t -> after.apply(this.apply(t)); } default Function compose(Function before) { return v -> this.apply(before.apply(v)); } static Function identity() { return t -> t; }",
        ),
        (
            "BiFunction",
            "Object apply(Object t, Object u)",
            "default BiFunction andThen(Function after) { return (t, u) -> after.apply(this.apply(t, u)); }",
        ),
        (
            "UnaryOperator",
            "Object apply(Object t)",
            "static UnaryOperator identity() { return t -> t; }",
        ),
        (
            "BinaryOperator",
            "Object apply(Object t, Object u)",
            "static BinaryOperator minBy(Comparator comparator) { return (a, b) -> comparator.compare(a, b) <= 0 ? a : b; } static BinaryOperator maxBy(Comparator comparator) { return (a, b) -> comparator.compare(a, b) >= 0 ? a : b; }",
        ),
        (
            "Predicate",
            "boolean test(Object t)",
            "default Predicate and(Predicate other) { return t -> this.test(t) && other.test(t); } default Predicate negate() { return t -> !this.test(t); } default Predicate or(Predicate other) { return t -> this.test(t) || other.test(t); } static Predicate not(Predicate target) { return target.negate(); }",
        ),
        (
            "BiPredicate",
            "boolean test(Object t, Object u)",
            "default BiPredicate and(BiPredicate other) { return (t, u) -> this.test(t, u) && other.test(t, u); } default BiPredicate negate() { return (t, u) -> !this.test(t, u); } default BiPredicate or(BiPredicate other) { return (t, u) -> this.test(t, u) || other.test(t, u); }",
        ),
        (
            "Comparator",
            "int compare(Object a, Object b)",
            "default Comparator reversed() { return (a, b) -> this.compare(b, a); } default Comparator thenComparing(Comparator other) { return (a, b) -> { int r = this.compare(a, b); if (r != 0) { return r; } return other.compare(a, b); }; } static Comparator naturalOrder() { return (a, b) -> a.compareTo(b); } static Comparator reverseOrder() { return (a, b) -> b.compareTo(a); } static Comparator comparing(Function key) { return (a, b) -> key.apply(a).compareTo(key.apply(b)); }",
        ),
        (
            "IntSupplier",
            "int getAsInt()",
            "",
        ),
        (
            "IntPredicate",
            "boolean test(int value)",
            "default IntPredicate and(IntPredicate other) { return value -> this.test(value) && other.test(value); } default IntPredicate negate() { return value -> !this.test(value); } default IntPredicate or(IntPredicate other) { return value -> this.test(value) || other.test(value); }",
        ),
        (
            "IntConsumer",
            "void accept(int value)",
            "default IntConsumer andThen(IntConsumer after) { return value -> { this.accept(value); after.accept(value); }; }",
        ),
        (
            "IntUnaryOperator",
            "int applyAsInt(int operand)",
            "default IntUnaryOperator compose(IntUnaryOperator before) { return v -> this.applyAsInt(before.applyAsInt(v)); } default IntUnaryOperator andThen(IntUnaryOperator after) { return v -> after.applyAsInt(this.applyAsInt(v)); } static IntUnaryOperator identity() { return v -> v; }",
        ),
        (
            "IntBinaryOperator",
            "int applyAsInt(int left, int right)",
            "",
        ),
        (
            "ToIntFunction",
            "int applyAsInt(Object value)",
            "",
        ),
        (
            "ToDoubleFunction",
            "double applyAsDouble(Object value)",
            "",
        ),
    ];
    assert(triple_views(r@) =~= functionals());
    r
}

/// Whether `name` is a modeled functional interface.
pub open spec fn functional(name: Seq<char>) -> bool {
    exists|i: int| 0 <= i < functionals().len() && (#[trigger] functionals()[i]).0 == name
}

/// Whether `name` is a modeled functional interface.
pub fn is_functional(name: &str) -> (r: bool)
    ensures
        r == functional(name@),
{
    let t: Vec<(&'static str, &'static str, &'static str)> = functional_table();
    let mut i: usize = 0;
    while i < t.len()
        invariant
            i <= t.len(),
            triple_views(t@) == functionals(),
            forall|k: int| 0 <= k < i ==> (#[trigger] functionals()[k]).0 != name@,
        decreases t.len() - i,
    {
        assert(triple_views(t@)[i as int] == functionals()[i as int]);
        if same(t[i].0, name) {
            return true;
        }
        i += 1;
    }
    false
}

/// One throwable class in Java.
pub open spec fn throwable_source(name: Seq<char>, sup: Seq<char>) -> Seq<char> {
    if sup.len() == 0 {
        "class "@ + name + " {\n  String detailMessage;\n  "@ + name + "() { }\n  "@ + name
            + "(String m) { detailMessage = m; }\n  String getMessage() { return detailMessage; }\n  String getLocalizedMessage() { return getMessage(); }\n  String toString() { String n = this.getClass().getName(); if (detailMessage == null) { return n; } return n + \": \" + detailMessage; }\n}\n"@
    } else {
        "class "@ + name + " extends "@ + sup + " {\n  "@ + name + "() { }\n  "@ + name
            + "(String m) { super(m); }\n}\n"@
    }
}

/// The classes of the first `n` rows that the program does not declare itself.
pub open spec fn throwable_sources(declared: Seq<Seq<char>>, n: int) -> Seq<char>
    decreases n,
{
    if n <= 0 {
        "public class __JavaLang { public static void main(String[] a) { } }\n"@
    } else {
        let row = throwables()[n - 1];
        let before = throwable_sources(declared, n - 1);
        if listed(declared, row.0) {
            before
        } else {
            before + throwable_source(row.0, row.1)
        }
    }
}

/// The Java source of the throwables the program does not declare itself.
///
/// The root holds the message, the accessors and the one `toString()` the whole
/// tree inherits; every other class adds its two constructors.
pub fn prelude_source(declared: &Vec<String>) -> (r: String)
    ensures
        r@ == throwable_sources(views(declared@), throwables().len() as int),
{
    let mut src: String = own(
        "public class __JavaLang { public static void main(String[] a) { } }\n",
    );
    let t: Vec<(&'static str, &'static str)> = throwable_table();
    let mut i: usize = 0;
    while i < t.len()
        invariant
            i <= t.len(),
            pair_views(t@) == throwables(),
            src@ == throwable_sources(views(declared@), i as int),
        decreases t.len() - i,
    {
        let (name, sup): (&'static str, &'static str) = t[i];
        assert(pair_views(t@)[i as int] == throwables()[i as int]);
        if !is_listed(declared, name) {
            let mut one: String = own("class ");
            one.append(name);
            if sup.is_empty() {
                one.append(" {\n  String detailMessage;\n  ");
                one.append(name);
                one.append("() { }\n  ");
                one.append(name);
                one.append(
                    "(String m) { detailMessage = m; }\n  String getMessage() { return detailMessage; }\n  String getLocalizedMessage() { return getMessage(); }\n  String toString() { String n = this.getClass().getName(); if (detailMessage == null) { return n; } return n + \": \" + detailMessage; }\n}\n",
                );
            } else {
                one.append(" extends ");
                one.append(sup);
                one.append(" {\n  ");
                one.append(name);
                one.append("() { }\n  ");
                one.append(name);
                one.append("(String m) { super(m); }\n}\n");
            }
            src.append(one.as_str());
        }
        i += 1;
    }
    src
}

/// One functional interface in Java.
pub open spec fn interface_source(name: Seq<char>, sam: Seq<char>, members: Seq<char>) -> Seq<
    char,
> {
    "interface "@ + name + " { "@ + sam + "; "@ + members + " }\n"@
}

/// The interfaces of the first `n` rows that the program does not declare itself.
pub open spec fn interface_sources(declared: Seq<Seq<char>>, n: int) -> Seq<char>
    decreases n,
{
    if n <= 0 {
        "public class __JavaUtilFunction { public static void main(String[] a) { } }\n"@
    } else {
        let row = functionals()[n - 1];
        let before = interface_sources(declared, n - 1);
        if listed(declared, row.0) {
            before
        } else {
            before + interface_source(row.0, row.1, row.2)
        }
    }
}

/// The Java source of the functional interfaces the program does not declare
/// itself.
pub fn functional_source(declared: &Vec<String>) -> (r: String)
    ensures
        r@ == interface_sources(views(declared@), functionals().len() as int),
{
    let mut src: String = own(
        "public class __JavaUtilFunction { public static void main(String[] a) { } }\n",
    );
    let t: Vec<(&'static str, &'static str, &'static str)> = functional_table();
    let mut i: usize = 0;
    while i < t.len()
        invariant
            i <= t.len(),
            triple_views(t@) == functionals(),
            src@ == interface_sources(views(declared@), i as int),
        decreases t.len() - i,
    {
        let (name, sam, members): (&'static str, &'static str, &'static str) = t[i];
        assert(triple_views(t@)[i as int] == functionals()[i as int]);
        if !is_listed(declared, name) {
            let mut one: String = own("interface ");
            one.append(name);
            one.append(" { ");
            one.append(sam);
            one.append("; ");
            one.append(members);
            one.append(" }\n");
            src.append(one.as_str());
        }
        i += 1;
    }
    src
}

// ── Merging ─────────────────────────────────────────────────────────────────

/// The names of the types a program declares.
pub open spec fn names_declared(classes: Seq<ClassV>) -> Seq<Seq<char>> {
    Seq::new(classes.len(), |i: int| classes[i].name)
}

/// The names of the types a program declares.
fn declared_names(prog: &Program) -> (r: Vec<String>)
    ensures
        views(r@) == names_declared(prog@.classes),
{
    let mut r: Vec<String> = Vec::new();
    let mut i: usize = 0;
    while i < prog.classes.len()
        invariant
            i <= prog.classes.len(),
            r.len() == i,
            forall|k: int| 0 <= k < i ==> (#[trigger] r@[k])@ == prog.classes@[k]@.name,
        decreases prog.classes.len() - i,
    {
        r.push(own(prog.classes[i].name.as_str()));
        i = i + 1;
    }
    assert(views(r@) =~= names_declared(prog@.classes));
    r
}

/// Whether a name is that of a synthetic entry class.
pub open spec fn synthetic(name: Seq<char>) -> bool {
    "__"@.is_prefix_of(name)
}

/// Whether a name is that of a synthetic entry class.
fn is_synthetic(name: &str) -> (r: bool)
    ensures
        r == synthetic(name@),
{
    proof {
        reveal_strlit("__");
    }
    if name.unicode_len() < 2 {
        return false;
    }
    let r: bool = name.get_char(0) == '_' && name.get_char(1) == '_';
    assert(r ==> "__"@ =~= name@.take(2));
    assert("__"@.is_prefix_of(name@) ==> "__"@[0] == name@[0] && "__"@[1] == name@[1]);
    assert(r ==> "__"@.is_prefix_of(name@));
    r
}

/// The first `n` classes that are not synthetic.
pub open spec fn kept_classes(classes: Seq<ClassV>, n: int) -> Seq<ClassV>
    decreases n,
{
    if n <= 0 {
        seq![]
    } else if synthetic(classes[n - 1].name) {
        kept_classes(classes, n - 1)
    } else {
        kept_classes(classes, n - 1).push(classes[n - 1])
    }
}

/// The first `n` methods that are not of a synthetic class.
pub open spec fn kept_methods(methods: Seq<MethodV>, n: int) -> Seq<MethodV>
    decreases n,
{
    if n <= 0 {
        seq![]
    } else if synthetic(methods[n - 1].owner) {
        kept_methods(methods, n - 1)
    } else {
        kept_methods(methods, n - 1).push(methods[n - 1])
    }
}

/// A program with the types and static methods of another, except those of its
/// entry class.
pub open spec fn merged(p: ProgramV, q: ProgramV) -> ProgramV {
    ProgramV {
        classes: p.classes + kept_classes(q.classes, q.classes.len() as int),
        methods: p.methods + kept_methods(q.methods, q.methods.len() as int),
        ..p
    }
}

/// A program with the types that a source declares, or the error in it.
pub open spec fn merged_source(p: ProgramV, src: Seq<char>) -> Result<ProgramV, Seq<char>> {
    match parsed(src) {
        Ok(q) => Ok(merged(p, q)),
        Err(m) => Err(m),
    }
}

/// Parse a prelude and fold its types into a program.
fn merge(prog: &mut Program, src: &str) -> (r: Result<(), String>)
    ensures
        match r {
            Ok(_) => merged_source(old(prog)@, src@) == Ok::<ProgramV, Seq<char>>(final(prog)@),
            Err(m) => merged_source(old(prog)@, src@) == Err::<ProgramV, Seq<char>>(m@)
                && final(prog)@ == old(prog)@,
        },
{
    let mut q: Program = match parse(src) {
        Ok(v) => v,
        Err(m) => {
            return Err(m);
        },
    };
    keep_classes(&mut prog.classes, q.classes);
    keep_methods(&mut prog.methods, q.methods);
    Ok(())
}

/// Add the classes that are not synthetic.
fn keep_classes(to: &mut Vec<Class>, from: Vec<Class>)
    ensures
        class_views(final(to)@) == class_views(old(to)@) + kept_classes(
            class_views(from@),
            from.len() as int,
        ),
{
    let ghost all = class_views(from@);
    let ghost were = class_views(to@);
    let mut rest: Vec<Class> = from;
    let ghost mut n: int = 0;
    assert(class_views(rest@) =~= all.skip(0));
    assert(were + kept_classes(all, 0) =~= were);
    while rest.len() > 0
        invariant
            0 <= n <= all.len(),
            rest.len() == all.len() - n,
            class_views(rest@) == all.skip(n),
            class_views(to@) == were + kept_classes(all, n),
        decreases rest.len(),
    {
        let ghost rest_was = rest@;
        let ghost before = class_views(rest@);
        let ghost to_was = class_views(to@);
        let c: Class = rest.remove(0);
        let ghost one = c@;
        assert(before[0] == one);
        assert(one == all[n]);
        assert forall|i: int| 0 <= i < rest.len() implies #[trigger] class_views(rest@)[i] == all.skip(
            n + 1,
        )[i] by {
            assert(rest@[i] == rest_was[i + 1]);
            assert(before[i + 1] == rest_was[i + 1]@);
        }
        assert(class_views(rest@) =~= all.skip(n + 1));
        if !is_synthetic(c.name.as_str()) {
            to.push(c);
            assert(class_views(to@) =~= to_was.push(one));
        }
        assert(class_views(to@) =~= were + kept_classes(all, n + 1));
        proof {
            n = n + 1;
        }
    }
}

/// Add the methods that are not of a synthetic class.
fn keep_methods(to: &mut Vec<Method>, from: Vec<Method>)
    ensures
        method_views(final(to)@) == method_views(old(to)@) + kept_methods(
            method_views(from@),
            from.len() as int,
        ),
{
    let ghost all = method_views(from@);
    let ghost were = method_views(to@);
    let mut rest: Vec<Method> = from;
    let ghost mut n: int = 0;
    assert(method_views(rest@) =~= all.skip(0));
    assert(were + kept_methods(all, 0) =~= were);
    while rest.len() > 0
        invariant
            0 <= n <= all.len(),
            rest.len() == all.len() - n,
            method_views(rest@) == all.skip(n),
            method_views(to@) == were + kept_methods(all, n),
        decreases rest.len(),
    {
        let ghost rest_was = rest@;
        let ghost before = method_views(rest@);
        let ghost to_was = method_views(to@);
        let m: Method = rest.remove(0);
        let ghost one = m@;
        assert(before[0] == one);
        assert(one == all[n]);
        assert forall|i: int| 0 <= i < rest.len() implies #[trigger] method_views(rest@)[i] == all.skip(
            n + 1,
        )[i] by {
            assert(rest@[i] == rest_was[i + 1]);
            assert(before[i + 1] == rest_was[i + 1]@);
        }
        assert(method_views(rest@) =~= all.skip(n + 1));
        if !is_synthetic(m.owner.as_str()) {
            to.push(m);
            assert(method_views(to@) =~= to_was.push(one));
        }
        assert(method_views(to@) =~= were + kept_methods(all, n + 1));
        proof {
            n = n + 1;
        }
    }
}

/// A program with the throwables it does not declare, if it uses exceptions.
pub open spec fn with_throwables(p: ProgramV) -> Result<ProgramV, Seq<char>> {
    if p.uses_exceptions {
        merged_source(
            p,
            throwable_sources(names_declared(p.classes), throwables().len() as int),
        )
    } else {
        Ok(p)
    }
}

/// A program with the functional interfaces it does not declare, if it uses
/// them.
pub open spec fn with_interfaces(p: ProgramV) -> Result<ProgramV, Seq<char>> {
    if p.uses_functional {
        merged_source(
            p,
            interface_sources(names_declared(p.classes), functionals().len() as int),
        )
    } else {
        Ok(p)
    }
}

/// A program with the types it uses and does not declare.
pub open spec fn injected(p: ProgramV) -> Result<ProgramV, Seq<char>> {
    match with_throwables(p) {
        Ok(q) => with_interfaces(q),
        Err(m) => Err(m),
    }
}

/// Add the types that a program uses and does not declare.
pub fn inject(prog: &mut Program) -> (r: Result<(), String>)
    ensures
        r is Ok,
        injected(old(prog)@) == Ok::<ProgramV, Seq<char>>(final(prog)@),
{
    proof {
        injecting_adds_what_is_missing(prog@);
    }
    if prog.uses_exceptions {
        let src: String = prelude_source(&declared_names(prog));
        if let Err(m) = merge(prog, src.as_str()) {
            return Err(m);
        }
    }
    if prog.uses_functional {
        let src: String = functional_source(&declared_names(prog));
        if let Err(m) = merge(prog, src.as_str()) {
            return Err(m);
        }
    }
    Ok(())
}

/// Nothing that a program declares is changed: its classes and methods stand
/// first, and its entry point is the same.
pub proof fn injecting_keeps_the_program(p: ProgramV)
    ensures
        injected(p) matches Ok(q) ==> q.class_name == p.class_name && q.main == p.main
            && q.main_param == p.main_param && p.classes.is_prefix_of(q.classes)
            && p.methods.is_prefix_of(q.methods),
{
    assert forall|a: Seq<ClassV>, b: Seq<ClassV>| #[trigger] (a + b).take(a.len() as int) == a by {
        assert((a + b).take(a.len() as int) =~= a);
    }
    assert forall|a: Seq<MethodV>, b: Seq<MethodV>| #[trigger]
        (a + b).take(a.len() as int) == a by {
        assert((a + b).take(a.len() as int) =~= a);
    }
    if let Ok(q) = injected(p) {
        let m = with_throwables(p)->Ok_0;
        assert(p.classes.is_prefix_of(m.classes));
        assert(m.classes.is_prefix_of(q.classes));
        assert(p.classes =~= q.classes.take(p.classes.len() as int));
        assert(p.methods.is_prefix_of(m.methods));
        assert(m.methods.is_prefix_of(q.methods));
        assert(p.methods =~= q.methods.take(p.methods.len() as int));
    }
}

/// A program that uses neither exceptions nor functional interfaces is left as
/// it is.
pub proof fn plain_programs_are_left_alone(p: ProgramV)
    requires
        !p.uses_exceptions,
        !p.uses_functional,
    ensures
        injected(p) == Ok::<ProgramV, Seq<char>>(p),
{
}

/// A type that a program declares is not declared again: the source of the
/// prelude leaves it out.
pub proof fn declared_types_win(declared: Seq<Seq<char>>, n: int)
    requires
        0 < n <= throwables().len(),
        listed(declared, throwables()[n - 1].0),
    ensures
        throwable_sources(declared, n) == throwable_sources(declared, n - 1),
{
}

/// A functional interface that a program declares is not declared again.
pub proof fn declared_interfaces_win(declared: Seq<Seq<char>>, n: int)
    requires
        0 < n <= functionals().len(),
        listed(declared, functionals()[n - 1].0),
    ensures
        interface_sources(declared, n) == interface_sources(declared, n - 1),
{
}

/// The root of the throwables stands first, and every other one behind its
/// superclass.
pub proof fn superclasses_stand_first(i: int)
    requires
        0 <= i < throwables().len(),
    ensures
        throwables()[i].1.len() == 0 <==> i == 0,
        i > 0 ==> exists|j: int| 0 <= j < i && throwables()[i].1 == (#[trigger] throwables()[j]).0,
{
    let t = throwables();
    reveal_strlit("Exception");
    reveal_strlit("IllegalArgumentException");
    reveal_strlit("IllegalFormatException");
    reveal_strlit("IndexOutOfBoundsException");
    reveal_strlit("RuntimeException");
    reveal_strlit("Throwable");
    reveal_strlit("");
    assert(t[0].1.len() == 0);
    assert(t[1].1 == t[0].0);
    assert(t[2].1 == t[0].0);
    assert(t[3].1 == t[2].0);
    assert(t[4].1 == t[3].0);
    assert(t[5].1 == t[4].0);
    assert(t[6].1 == t[3].0);
    assert(t[7].1 == t[3].0);
    assert(t[8].1 == t[3].0);
    assert(t[9].1 == t[3].0);
    assert(t[10].1 == t[3].0);
    assert(t[11].1 == t[3].0);
    assert(t[12].1 == t[3].0);
    assert(t[13].1 == t[12].0);
    assert(t[14].1 == t[12].0);
    assert(t[15].1 == t[4].0);
    assert(t[16].1 == t[3].0);
    assert(t[17].1 == t[3].0);
    assert(t[18].1 == t[4].0);
    assert(t[19].1 == t[18].0);
    assert(t[20].1 == t[18].0);
    assert(t[21].1 == t[18].0);
    assert(t[22].1 == t[18].0);
    assert(t[23].1 == t[18].0);
    assert(t[24].1 == t[18].0);
    assert(t[25].1 == t[18].0);
    assert(t[26].1 == t[18].0);
}

} // verus!
