//! What an editor asks of the language: the words it can complete, what they
//! mean, and where a text is not a program.
use vstd::prelude::*;

use crate::host::maths::lemma_digits_spell;
use crate::lexer::{Tok, in_word, run_end, word_kind, word_part, words};
use crate::parser::{parse, parsed};
use crate::parser::classes::str_view;
use crate::parser::grammar::at_line;
use crate::prelude::opt_view;
use crate::text::{
    char_index, chars_of, dec, digit_of, digits, digits_value, find_char, is_digit_in,
    last_index_to, number, occurs_at, own, part, same, stands_at, text_between,
};

verus! {

// ── The words ───────────────────────────────────────────────────────────────

/// The words of the language: the name, the chapter, a line of documentation
/// and an example. The words for exceptions are names to the lexer; the parser
/// knows them by where they stand, so they have a chapter of their own.
pub open spec fn words_known() -> Seq<(Seq<char>, Seq<char>, Seq<char>, Seq<char>)> {
    seq![
        (
            "class"@,
            "Keyword"@,
            "declare a class; javars runs the `main` of the entry class"@,
            "public class Main { public static void main(String[] args) { } }"@,
        ),
        (
            "public"@,
            "Keyword"@,
            "access modifier; on the entry class and its `main` method"@,
            "public static void main(String[] args) { }"@,
        ),
        (
            "static"@,
            "Keyword"@,
            "class-level (non-instance) member; required on `main`"@,
            "public static void main(String[] args) { }"@,
        ),
        (
            "void"@,
            "Keyword"@,
            "no return value; the type of `main`"@,
            "static void main(String[] args) { }"@,
        ),
        (
            "if"@,
            "Keyword"@,
            "conditional branch: `if (cond) { .. } else { .. }`"@,
            "if (x > 0) { System.out.println(\"pos\"); }"@,
        ),
        (
            "else"@,
            "Keyword"@,
            "fallback branch of an `if`"@,
            "if (x > 0) { } else { System.out.println(\"non-pos\"); }"@,
        ),
        (
            "while"@,
            "Keyword"@,
            "loop while the condition is true: `while (cond) { .. }`"@,
            "int i = 0; while (i < 3) { i++; }"@,
        ),
        (
            "for"@,
            "Keyword"@,
            "loop: C-style `for (init; cond; update)` or enhanced `for (T x : arr)`"@,
            "for (int i = 0; i < 3; i++) { System.out.println(i); }"@,
        ),
        (
            "do"@,
            "Keyword"@,
            "do/while loop: run the body once, then repeat while the condition holds"@,
            "int i = 0; do { i++; } while (i < 3);"@,
        ),
        (
            "switch"@,
            "Keyword"@,
            "multi-way branch on an int or String; groups fall through until `break`"@,
            "switch (n) { case 1: System.out.println(\"one\"); break; default: }"@,
        ),
        (
            "case"@,
            "Keyword"@,
            "a `switch` label; a matched case runs until a `break` or the switch end"@,
            "case 2: System.out.println(\"two\"); break;"@,
        ),
        (
            "default"@,
            "Keyword"@,
            "the `switch` label taken when no `case` matches"@,
            "default: System.out.println(\"other\");"@,
        ),
        (
            "return"@,
            "Keyword"@,
            "return from the current method (bare `return;` ends `void main`)"@,
            "if (done) return;"@,
        ),
        (
            "break"@,
            "Keyword"@,
            "exit the nearest loop/switch, or a labeled one: `break outer;`"@,
            "outer: for (int i = 0; ; i++) { if (i == 5) break outer; }"@,
        ),
        (
            "continue"@,
            "Keyword"@,
            "skip to the next iteration of the nearest (or labeled) loop"@,
            "for (int i = 0; i < 5; i++) { if (i == 2) continue; }"@,
        ),
        (
            "try"@,
            "Exception"@,
            "guard a block with handlers: `try { .. } catch (E e) { .. } finally { .. }`"@,
            "try { risky(); } catch (RuntimeException e) { System.out.println(e.getMessage()); }"@,
        ),
        (
            "catch"@,
            "Exception"@,
            "handle a thrown exception whose class matches; arms are tried in order"@,
            "catch (IllegalArgumentException e) { System.out.println(e); }"@,
        ),
        (
            "finally"@,
            "Exception"@,
            "block that runs on both the normal and the exceptional path out of a `try`"@,
            "try { work(); } finally { System.out.println(\"done\"); }"@,
        ),
        (
            "throw"@,
            "Exception"@,
            "raise a throwable; it unwinds to the nearest matching `catch`"@,
            "throw new IllegalStateException(\"bad state\");"@,
        ),
        (
            "throws"@,
            "Exception"@,
            "declare the exceptions a method may raise (parsed; javars checks none)"@,
            "static int parse(String s) throws Exception { return Integer.parseInt(s); }"@,
        ),
        (
            "true"@,
            "Keyword"@,
            "the boolean literal true"@,
            "boolean b = true;"@,
        ),
        (
            "false"@,
            "Keyword"@,
            "the boolean literal false"@,
            "boolean b = false;"@,
        ),
        (
            "new"@,
            "Keyword"@,
            "object/array allocation keyword (reserved; recognized by the lexer)"@,
            "int[] a = new int[3];"@,
        ),
        (
            "int"@,
            "Type"@,
            "32-bit integer local declaration"@,
            "int n = 42;"@,
        ),
        (
            "long"@,
            "Type"@,
            "64-bit integer local declaration (`L` literal suffix accepted)"@,
            "long big = 9000000000L;"@,
        ),
        (
            "short"@,
            "Type"@,
            "16-bit integer local declaration"@,
            "short s = 7;"@,
        ),
        (
            "byte"@,
            "Type"@,
            "8-bit integer local declaration"@,
            "byte b = 1;"@,
        ),
        (
            "double"@,
            "Type"@,
            "64-bit floating-point local declaration (prints with a trailing .0)"@,
            "double d = 3.0;   // System.out.println(d) => 3.0"@,
        ),
        (
            "float"@,
            "Type"@,
            "32-bit floating-point local declaration (`f` literal suffix accepted)"@,
            "float f = 1.5f;"@,
        ),
        (
            "boolean"@,
            "Type"@,
            "boolean local declaration (`true` / `false`)"@,
            "boolean ok = true;"@,
        ),
        (
            "char"@,
            "Type"@,
            "character local; a char literal is modeled as a one-char string"@,
            "char c = 'A';"@,
        ),
        (
            "String"@,
            "Type"@,
            "string local; `+` with a String operand concatenates (host numeric hook)"@,
            "String s = \"hi \" + 1 + 2;   // => 'hi 12'"@,
        ),
        (
            "var"@,
            "Type"@,
            "local variable with an inferred type (Java 10+)"@,
            "var s = \"inferred\";"@,
        ),
        (
            "println"@,
            "IO"@,
            "System.out.println(arg): print the Java string form of arg, then a newline"@,
            "System.out.println(\"hello\");"@,
        ),
        (
            "print"@,
            "IO"@,
            "System.out.print(arg): print the Java string form of arg with no newline"@,
            "System.out.print(\"no newline\");"@,
        ),
        (
            "System"@,
            "IO"@,
            "the System class; javars models `System.out` for console output"@,
            "System.out.println(42);"@,
        ),
        (
            "out"@,
            "IO"@,
            "System.out — the standard output stream (println / print)"@,
            "System.out.print(\"x\");"@,
        ),
        (
            "err"@,
            "IO"@,
            "System.err — the standard error stream (println / print)"@,
            "System.err.println(\"oops\");"@,
        ),
    ]
}

/// The views of a table of four columns.
pub open spec fn quad_views(s: Seq<(&str, &str, &str, &str)>) -> Seq<
    (Seq<char>, Seq<char>, Seq<char>, Seq<char>),
> {
    Seq::new(s.len(), |i: int| (s[i].0@, s[i].1@, s[i].2@, s[i].3@))
}

/// The words of the language. Completion, hover and the reference pages are all
/// made from this table.
pub fn corpus() -> (r: Vec<(&'static str, &'static str, &'static str, &'static str)>)
    ensures
        quad_views(r@) == words_known(),
{
    let r: Vec<(&'static str, &'static str, &'static str, &'static str)> = vec![
        (
            "class",
            "Keyword",
            "declare a class; javars runs the `main` of the entry class",
            "public class Main { public static void main(String[] args) { } }",
        ),
        (
            "public",
            "Keyword",
            "access modifier; on the entry class and its `main` method",
            "public static void main(String[] args) { }",
        ),
        (
            "static",
            "Keyword",
            "class-level (non-instance) member; required on `main`",
            "public static void main(String[] args) { }",
        ),
        (
            "void",
            "Keyword",
            "no return value; the type of `main`",
            "static void main(String[] args) { }",
        ),
        (
            "if",
            "Keyword",
            "conditional branch: `if (cond) { .. } else { .. }`",
            "if (x > 0) { System.out.println(\"pos\"); }",
        ),
        (
            "else",
            "Keyword",
            "fallback branch of an `if`",
            "if (x > 0) { } else { System.out.println(\"non-pos\"); }",
        ),
        (
            "while",
            "Keyword",
            "loop while the condition is true: `while (cond) { .. }`",
            "int i = 0; while (i < 3) { i++; }",
        ),
        (
            "for",
            "Keyword",
            "loop: C-style `for (init; cond; update)` or enhanced `for (T x : arr)`",
            "for (int i = 0; i < 3; i++) { System.out.println(i); }",
        ),
        (
            "do",
            "Keyword",
            "do/while loop: run the body once, then repeat while the condition holds",
            "int i = 0; do { i++; } while (i < 3);",
        ),
        (
            "switch",
            "Keyword",
            "multi-way branch on an int or String; groups fall through until `break`",
            "switch (n) { case 1: System.out.println(\"one\"); break; default: }",
        ),
        (
            "case",
            "Keyword",
            "a `switch` label; a matched case runs until a `break` or the switch end",
            "case 2: System.out.println(\"two\"); break;",
        ),
        (
            "default",
            "Keyword",
            "the `switch` label taken when no `case` matches",
            "default: System.out.println(\"other\");",
        ),
        (
            "return",
            "Keyword",
            "return from the current method (bare `return;` ends `void main`)",
            "if (done) return;",
        ),
        (
            "break",
            "Keyword",
            "exit the nearest loop/switch, or a labeled one: `break outer;`",
            "outer: for (int i = 0; ; i++) { if (i == 5) break outer; }",
        ),
        (
            "continue",
            "Keyword",
            "skip to the next iteration of the nearest (or labeled) loop",
            "for (int i = 0; i < 5; i++) { if (i == 2) continue; }",
        ),
        (
            "try",
            "Exception",
            "guard a block with handlers: `try { .. } catch (E e) { .. } finally { .. }`",
            "try { risky(); } catch (RuntimeException e) { System.out.println(e.getMessage()); }",
        ),
        (
            "catch",
            "Exception",
            "handle a thrown exception whose class matches; arms are tried in order",
            "catch (IllegalArgumentException e) { System.out.println(e); }",
        ),
        (
            "finally",
            "Exception",
            "block that runs on both the normal and the exceptional path out of a `try`",
            "try { work(); } finally { System.out.println(\"done\"); }",
        ),
        (
            "throw",
            "Exception",
            "raise a throwable; it unwinds to the nearest matching `catch`",
            "throw new IllegalStateException(\"bad state\");",
        ),
        (
            "throws",
            "Exception",
            "declare the exceptions a method may raise (parsed; javars checks none)",
            "static int parse(String s) throws Exception { return Integer.parseInt(s); }",
        ),
        (
            "true",
            "Keyword",
            "the boolean literal true",
            "boolean b = true;",
        ),
        (
            "false",
            "Keyword",
            "the boolean literal false",
            "boolean b = false;",
        ),
        (
            "new",
            "Keyword",
            "object/array allocation keyword (reserved; recognized by the lexer)",
            "int[] a = new int[3];",
        ),
        (
            "int",
            "Type",
            "32-bit integer local declaration",
            "int n = 42;",
        ),
        (
            "long",
            "Type",
            "64-bit integer local declaration (`L` literal suffix accepted)",
            "long big = 9000000000L;",
        ),
        (
            "short",
            "Type",
            "16-bit integer local declaration",
            "short s = 7;",
        ),
        (
            "byte",
            "Type",
            "8-bit integer local declaration",
            "byte b = 1;",
        ),
        (
            "double",
            "Type",
            "64-bit floating-point local declaration (prints with a trailing .0)",
            "double d = 3.0;   // System.out.println(d) => 3.0",
        ),
        (
            "float",
            "Type",
            "32-bit floating-point local declaration (`f` literal suffix accepted)",
            "float f = 1.5f;",
        ),
        (
            "boolean",
            "Type",
            "boolean local declaration (`true` / `false`)",
            "boolean ok = true;",
        ),
        (
            "char",
            "Type",
            "character local; a char literal is modeled as a one-char string",
            "char c = 'A';",
        ),
        (
            "String",
            "Type",
            "string local; `+` with a String operand concatenates (host numeric hook)",
            "String s = \"hi \" + 1 + 2;   // => 'hi 12'",
        ),
        (
            "var",
            "Type",
            "local variable with an inferred type (Java 10+)",
            "var s = \"inferred\";",
        ),
        (
            "println",
            "IO",
            "System.out.println(arg): print the Java string form of arg, then a newline",
            "System.out.println(\"hello\");",
        ),
        (
            "print",
            "IO",
            "System.out.print(arg): print the Java string form of arg with no newline",
            "System.out.print(\"no newline\");",
        ),
        (
            "System",
            "IO",
            "the System class; javars models `System.out` for console output",
            "System.out.println(42);",
        ),
        (
            "out",
            "IO",
            "System.out — the standard output stream (println / print)",
            "System.out.print(\"x\");",
        ),
        (
            "err",
            "IO",
            "System.err — the standard error stream (println / print)",
            "System.err.println(\"oops\");",
        ),
    ];
    assert(quad_views(r@) =~= words_known());
    r
}

// ── The chapters ────────────────────────────────────────────────────────────

/// A number for a word: its length, its first and its last letter.
spec fn mark(s: Seq<char>) -> int {
    s.len() * 0x1_0000 + s[0] as int * 0x100 + s.last() as int
}

/// The row of the word with a mark.
spec fn row_marked(m: int) -> int {
    if m == 353139 {
        0
    } else if m == 421987 {
        1
    } else if m == 422755 {
        2
    } else if m == 292452 {
        3
    } else if m == 158054 {
        4
    } else if m == 288101 {
        5
    } else if m == 358245 {
        6
    } else if m == 222834 {
        7
    } else if m == 156783 {
        8
    } else if m == 422760 {
        9
    } else if m == 287589 {
        10
    } else if m == 484468 {
        11
    } else if m == 422510 {
        12
    } else if m == 352875 {
        13
    } else if m == 549733 {
        14
    } else if m == 226425 {
        15
    } else if m == 353128 {
        16
    } else if m == 484985 {
        17
    } else if m == 357495 {
        18
    } else if m == 423027 {
        19
    } else if m == 291941 {
        20
    } else if m == 353893 {
        21
    } else if m == 224887 {
        22
    } else if m == 223604 {
        23
    } else if m == 289895 {
        24
    } else if m == 357236 {
        25
    } else if m == 287333 {
        26
    } else if m == 418917 {
        27
    } else if m == 353908 {
        28
    } else if m == 483950 {
        29
    } else if m == 287602 {
        30
    } else if m == 414567 {
        31
    } else if m == 226930 {
        32
    } else if m == 487534 {
        33
    } else if m == 356468 {
        34
    } else if m == 414573 {
        35
    } else if m == 225140 {
        36
    } else if m == 222578 {
        37
    } else {
        -1
    }
}

proof fn lemma_marks()
    ensures
        words_known().len() == 38,
        forall|i: int| 0 <= i < 38 ==> row_marked(mark(#[trigger] words_known()[i].0)) == i,
{
    reveal_strlit("class");
    reveal_strlit("public");
    reveal_strlit("static");
    reveal_strlit("void");
    reveal_strlit("if");
    reveal_strlit("else");
    reveal_strlit("while");
    reveal_strlit("for");
    reveal_strlit("do");
    reveal_strlit("switch");
    reveal_strlit("case");
    reveal_strlit("default");
    reveal_strlit("return");
    reveal_strlit("break");
    reveal_strlit("continue");
    reveal_strlit("try");
    reveal_strlit("catch");
    reveal_strlit("finally");
    reveal_strlit("throw");
    reveal_strlit("throws");
    reveal_strlit("true");
    reveal_strlit("false");
    reveal_strlit("new");
    reveal_strlit("int");
    reveal_strlit("long");
    reveal_strlit("short");
    reveal_strlit("byte");
    reveal_strlit("double");
    reveal_strlit("float");
    reveal_strlit("boolean");
    reveal_strlit("char");
    reveal_strlit("String");
    reveal_strlit("var");
    reveal_strlit("println");
    reveal_strlit("print");
    reveal_strlit("System");
    reveal_strlit("out");
    reveal_strlit("err");
    let t = words_known();
    assert(row_marked(mark(t[0].0)) == 0);
    assert(row_marked(mark(t[1].0)) == 1);
    assert(row_marked(mark(t[2].0)) == 2);
    assert(row_marked(mark(t[3].0)) == 3);
    assert(row_marked(mark(t[4].0)) == 4);
    assert(row_marked(mark(t[5].0)) == 5);
    assert(row_marked(mark(t[6].0)) == 6);
    assert(row_marked(mark(t[7].0)) == 7);
    assert(row_marked(mark(t[8].0)) == 8);
    assert(row_marked(mark(t[9].0)) == 9);
    assert(row_marked(mark(t[10].0)) == 10);
    assert(row_marked(mark(t[11].0)) == 11);
    assert(row_marked(mark(t[12].0)) == 12);
    assert(row_marked(mark(t[13].0)) == 13);
    assert(row_marked(mark(t[14].0)) == 14);
    assert(row_marked(mark(t[15].0)) == 15);
    assert(row_marked(mark(t[16].0)) == 16);
    assert(row_marked(mark(t[17].0)) == 17);
    assert(row_marked(mark(t[18].0)) == 18);
    assert(row_marked(mark(t[19].0)) == 19);
    assert(row_marked(mark(t[20].0)) == 20);
    assert(row_marked(mark(t[21].0)) == 21);
    assert(row_marked(mark(t[22].0)) == 22);
    assert(row_marked(mark(t[23].0)) == 23);
    assert(row_marked(mark(t[24].0)) == 24);
    assert(row_marked(mark(t[25].0)) == 25);
    assert(row_marked(mark(t[26].0)) == 26);
    assert(row_marked(mark(t[27].0)) == 27);
    assert(row_marked(mark(t[28].0)) == 28);
    assert(row_marked(mark(t[29].0)) == 29);
    assert(row_marked(mark(t[30].0)) == 30);
    assert(row_marked(mark(t[31].0)) == 31);
    assert(row_marked(mark(t[32].0)) == 32);
    assert(row_marked(mark(t[33].0)) == 33);
    assert(row_marked(mark(t[34].0)) == 34);
    assert(row_marked(mark(t[35].0)) == 35);
    assert(row_marked(mark(t[36].0)) == 36);
    assert(row_marked(mark(t[37].0)) == 37);
}

/// No word stands in the table twice.
pub proof fn words_are_listed_once(i: int, j: int)
    requires
        0 <= i < j < words_known().len(),
    ensures
        words_known()[i].0 != words_known()[j].0,
{
    lemma_marks();
}

/// A word of the chapter on keywords is one that the lexer reserves, and no other
/// word of the table is.
pub proof fn keywords_are_reserved(i: int)
    requires
        0 <= i < words_known().len(),
    ensures
        words_known()[i].1 == "Keyword"@ <==> word_kind(words_known()[i].0) != Tok::Ident,
{
    lemma_marks();
    reveal_strlit("Keyword");
    reveal_strlit("Exception");
    reveal_strlit("Type");
    reveal_strlit("IO");
    let t = words_known();
    if word_kind(t[i].0) != Tok::Ident {
        reserved_words_are_keywords(t[i].0);
        let k = choose|k: int| 0 <= k < t.len() && (#[trigger] t[k]).0 == t[i].0 && t[k].1 == "Keyword"@;
        assert(row_marked(mark(t[k].0)) == k);
        assert(row_marked(mark(t[i].0)) == i);
    } else {
        assert(word_kind("class"@) != Tok::Ident);
        assert(word_kind("public"@) != Tok::Ident);
        assert(word_kind("static"@) != Tok::Ident);
        assert(word_kind("void"@) != Tok::Ident);
        assert(word_kind("if"@) != Tok::Ident);
        assert(word_kind("else"@) != Tok::Ident);
        assert(word_kind("while"@) != Tok::Ident);
        assert(word_kind("for"@) != Tok::Ident);
        assert(word_kind("do"@) != Tok::Ident);
        assert(word_kind("switch"@) != Tok::Ident);
        assert(word_kind("case"@) != Tok::Ident);
        assert(word_kind("default"@) != Tok::Ident);
        assert(word_kind("return"@) != Tok::Ident);
        assert(word_kind("break"@) != Tok::Ident);
        assert(word_kind("continue"@) != Tok::Ident);
        assert(word_kind("true"@) != Tok::Ident);
        assert(word_kind("false"@) != Tok::Ident);
        assert(word_kind("new"@) != Tok::Ident);
        assert("Exception"@.len() == 9);
        assert("Type"@.len() == 4);
        assert("IO"@.len() == 2);
    }
}

/// Every word that the lexer reserves stands in the chapter on keywords.
pub proof fn reserved_words_are_keywords(w: Seq<char>)
    requires
        word_kind(w) != Tok::Ident,
    ensures
        exists|i: int|
            0 <= i < words_known().len() && (#[trigger] words_known()[i]).0 == w
                && words_known()[i].1 == "Keyword"@,
{
    let t = words_known();
    assert(t[0].0 == "class"@ && t[0].1 == "Keyword"@);
    assert(t[1].0 == "public"@ && t[1].1 == "Keyword"@);
    assert(t[2].0 == "static"@ && t[2].1 == "Keyword"@);
    assert(t[3].0 == "void"@ && t[3].1 == "Keyword"@);
    assert(t[4].0 == "if"@ && t[4].1 == "Keyword"@);
    assert(t[5].0 == "else"@ && t[5].1 == "Keyword"@);
    assert(t[6].0 == "while"@ && t[6].1 == "Keyword"@);
    assert(t[7].0 == "for"@ && t[7].1 == "Keyword"@);
    assert(t[8].0 == "do"@ && t[8].1 == "Keyword"@);
    assert(t[9].0 == "switch"@ && t[9].1 == "Keyword"@);
    assert(t[10].0 == "case"@ && t[10].1 == "Keyword"@);
    assert(t[11].0 == "default"@ && t[11].1 == "Keyword"@);
    assert(t[12].0 == "return"@ && t[12].1 == "Keyword"@);
    assert(t[13].0 == "break"@ && t[13].1 == "Keyword"@);
    assert(t[14].0 == "continue"@ && t[14].1 == "Keyword"@);
    assert(t[20].0 == "true"@ && t[20].1 == "Keyword"@);
    assert(t[21].0 == "false"@ && t[21].1 == "Keyword"@);
    assert(t[22].0 == "new"@ && t[22].1 == "Keyword"@);
}

// ── Completion ──────────────────────────────────────────────────────────────

/// What a completed word is shown as.
#[derive(Clone, Copy, PartialEq, Eq, Structural, Debug)]
pub enum SuggestionKind {
    Keyword,
    Class,
    Method,
}

/// A word an editor can complete.
pub struct Suggestion {
    pub label: String,
    pub kind: SuggestionKind,
    pub detail: String,
}

pub struct SuggestionV {
    pub label: Seq<char>,
    pub kind: SuggestionKind,
    pub detail: Seq<char>,
}

impl View for Suggestion {
    type V = SuggestionV;

    open spec fn view(&self) -> SuggestionV {
        SuggestionV { label: self.label@, kind: self.kind, detail: self.detail@ }
    }
}

/// What a word of a chapter is shown as.
pub open spec fn shown_as(chapter: Seq<char>) -> SuggestionKind {
    if chapter == "Keyword"@ || chapter == "Exception"@ {
        SuggestionKind::Keyword
    } else if chapter == "Type"@ {
        SuggestionKind::Class
    } else {
        SuggestionKind::Method
    }
}

/// The words an editor can complete: all of them.
pub fn completions() -> (r: Vec<Suggestion>)
    ensures
        r.len() == words_known().len(),
        forall|i: int|
            0 <= i < r.len() ==> (#[trigger] r@[i])@ == (SuggestionV {
                label: words_known()[i].0,
                kind: shown_as(words_known()[i].1),
                detail: words_known()[i].2,
            }),
{
    let table: Vec<(&'static str, &'static str, &'static str, &'static str)> = corpus();
    let mut r: Vec<Suggestion> = Vec::new();
    let mut i: usize = 0;
    while i < table.len()
        invariant
            i <= table.len(),
            r.len() == i,
            quad_views(table@) == words_known(),
            forall|k: int|
                0 <= k < i ==> (#[trigger] r@[k])@ == (SuggestionV {
                    label: words_known()[k].0,
                    kind: shown_as(words_known()[k].1),
                    detail: words_known()[k].2,
                }),
        decreases table.len() - i,
    {
        assert(quad_views(table@)[i as int] == words_known()[i as int]);
        let kind: SuggestionKind = if same(table[i].1, "Keyword") || same(
            table[i].1,
            "Exception",
        ) {
            SuggestionKind::Keyword
        } else if same(table[i].1, "Type") {
            SuggestionKind::Class
        } else {
            SuggestionKind::Method
        };
        r.push(Suggestion { label: own(table[i].0), kind, detail: own(table[i].2) });
        i = i + 1;
    }
    assert(quad_views(table@).len() == table.len());
    r
}

// ── Hover ───────────────────────────────────────────────────────────────────

/// The line `n` lines after the one that starts at `i`. A line ends before its
/// line feed, or before the carriage return in front of that; nothing after the
/// last line feed is no line.
pub open spec fn line_from(s: Seq<char>, i: int, n: int) -> Option<Seq<char>>
    decreases n,
{
    let end = char_index(s, '\n', i);
    if i < 0 || i >= s.len() {
        None
    } else if n <= 0 {
        if end < 0 {
            Some(s.skip(i))
        } else if end > i && s[end - 1] == '\r' {
            Some(s.subrange(i, end - 1))
        } else {
            Some(s.subrange(i, end))
        }
    } else if end < 0 {
        None
    } else {
        line_from(s, end + 1, n - 1)
    }
}

/// The line of this number, the first of which is zero.
fn nth_line(text: &Vec<char>, n: u32) -> (r: Option<Vec<char>>)
    ensures
        match r {
            Some(line) => line_from(text@, 0, n as int) == Some(line@),
            None => line_from(text@, 0, n as int) is None,
        },
{
    let mut i: usize = 0;
    let mut left: u32 = n;
    while left > 0
        invariant
            i <= text.len(),
            line_from(text@, 0, n as int) == line_from(text@, i as int, left as int),
        decreases left,
    {
        if i >= text.len() {
            return None;
        }
        match find_char(text, '\n', i) {
            Some(end) => {
                i = end + 1;
                left = left - 1;
            },
            None => {
                return None;
            },
        }
    }
    if i >= text.len() {
        return None;
    }
    match find_char(text, '\n', i) {
        Some(end) => if end > i && text[end - 1] == '\r' {
            Some(part(text, i, end - 1))
        } else {
            Some(part(text, i, end))
        },
        None => {
            assert(text@.skip(i as int) =~= text@.subrange(i as int, text.len() as int));
            Some(part(text, i, text.len()))
        },
    }
}

/// Where the name that runs up to `i` starts.
pub open spec fn name_start(s: Seq<char>, i: int) -> int
    decreases i,
{
    if 0 < i <= s.len() && in_word(s[i - 1]) {
        name_start(s, i - 1)
    } else {
        i
    }
}

/// The name in a line that spans a column, which may be past the end.
pub open spec fn name_across(line: Seq<char>, column: int) -> Option<Seq<char>> {
    let at = if column < line.len() {
        column
    } else {
        line.len() as int
    };
    let start = name_start(line, at);
    let end = run_end(line, at, words());
    if start == end {
        None
    } else {
        Some(line.subrange(start, end))
    }
}

/// The name at a line and column of a text.
pub open spec fn name_in(text: Seq<char>, line: int, column: int) -> Option<Seq<char>> {
    match line_from(text, 0, line) {
        Some(l) => name_across(l, column),
        None => None,
    }
}

/// The name at a line and column of a text.
pub fn word_under(text: &str, line: u32, column: u32) -> (r: Option<String>)
    ensures
        opt_view(r) == name_in(text@, line as int, column as int),
{
    let chars: Vec<char> = match nth_line(&chars_of(text), line) {
        Some(v) => v,
        None => {
            return None;
        },
    };
    let at: usize = if (column as usize) < chars.len() {
        column as usize
    } else {
        chars.len()
    };
    let mut start: usize = at;
    while start > 0 && word_part(chars[start - 1])
        invariant
            start <= at <= chars.len(),
            name_start(chars@, at as int) == name_start(chars@, start as int),
        decreases start,
    {
        start = start - 1;
    }
    let mut end: usize = at;
    while end < chars.len() && word_part(chars[end])
        invariant
            at <= end <= chars.len(),
            run_end(chars@, at as int, words()) == run_end(chars@, end as int, words()),
        decreases chars.len() - end,
    {
        end = end + 1;
    }
    if start == end {
        None
    } else {
        Some(text_between(&chars, start, end))
    }
}

/// What is said of a word: its name and chapter, its line and its example.
pub open spec fn said_of(row: (Seq<char>, Seq<char>, Seq<char>, Seq<char>)) -> Seq<char> {
    "**`"@ + row.0 + "`** — _"@ + row.1 + "_\n\n"@ + row.2 + "\n\n```java\n"@ + row.3 + "\n```"@
}

/// What is said of a word in the first `n` rows, with an empty line between two.
pub open spec fn explained(word: Seq<char>, n: int) -> Seq<char>
    decreases n,
{
    if n <= 0 {
        seq![]
    } else if words_known()[n - 1].0 != word {
        explained(word, n - 1)
    } else if explained(word, n - 1).len() == 0 {
        said_of(words_known()[n - 1])
    } else {
        explained(word, n - 1) + "\n\n"@ + said_of(words_known()[n - 1])
    }
}

/// What is said where nothing is known of a word.
pub open spec fn banner() -> Seq<char> {
    "**javars** — Java on the fusevm bytecode VM + Cranelift JIT."@
}

/// What an editor shows for a word.
pub open spec fn hovered(word: Seq<char>) -> Seq<char> {
    let text = explained(word, words_known().len() as int);
    if text.len() == 0 {
        banner()
    } else {
        text
    }
}

/// What an editor shows for a word.
fn explain(word: &str) -> (r: String)
    ensures
        r@ == hovered(word@),
{
    let table: Vec<(&'static str, &'static str, &'static str, &'static str)> = corpus();
    assert(quad_views(table@).len() == table.len());
    let mut out: String = String::new();
    let mut i: usize = 0;
    while i < table.len()
        invariant
            i <= table.len(),
            table.len() == words_known().len(),
            quad_views(table@) == words_known(),
            out@ == explained(word@, i as int),
        decreases table.len() - i,
    {
        assert(quad_views(table@)[i as int] == words_known()[i as int]);
        if same(table[i].0, word) {
            let first: bool = out.as_str().unicode_len() == 0;
            if !first {
                out.append("\n\n");
            }
            let mut said: String = own("**`");
            said.append(table[i].0);
            said.append("`** — _");
            said.append(table[i].1);
            said.append("_\n\n");
            said.append(table[i].2);
            said.append("\n\n```java\n");
            said.append(table[i].3);
            said.append("\n```");
            out.append(said.as_str());
            assert(first ==> out@ =~= said@);
        }
        i = i + 1;
    }
    if out.as_str().unicode_len() == 0 {
        return own("**javars** — Java on the fusevm bytecode VM + Cranelift JIT.");
    }
    out
}

/// What an editor shows at a line and column of a text; there is none where the
/// document is not open.
pub fn hover(text: Option<&str>, line: u32, column: u32) -> (r: String)
    ensures
        r@ == hovered(
            match text {
                Some(t) => match name_in(t@, line as int, column as int) {
                    Some(w) => w,
                    None => seq![],
                },
                None => seq![],
            },
        ),
{
    if let Some(t) = text {
        if let Some(word) = word_under(t, line, column) {
            return explain(word.as_str());
        }
    }
    let none: String = String::new();
    assert(none@ =~= seq![]);
    explain(none.as_str())
}

// ── Diagnostics ─────────────────────────────────────────────────────────────

/// The text after the last occurrence of a mark.
pub open spec fn rest_after(s: Seq<char>, mark: Seq<char>) -> Option<Seq<char>> {
    let at = last_index_to(s, mark, s.len() as int);
    if at < 0 {
        None
    } else {
        Some(s.skip(at + mark.len()))
    }
}

/// The first digit from `i` on, or the end.
pub open spec fn number_start(s: Seq<char>, i: int) -> int
    decreases s.len() - i,
{
    if 0 <= i < s.len() && !is_digit_in(s[i], 10) {
        number_start(s, i + 1)
    } else {
        i
    }
}

/// The end of the digits from `i` on.
pub open spec fn run_of_digits_end(s: Seq<char>, i: int) -> int
    decreases s.len() - i,
{
    if 0 <= i < s.len() && is_digit_in(s[i], 10) {
        run_of_digits_end(s, i + 1)
    } else {
        i
    }
}

/// The first number in a text. One that no line can have counts as the first
/// line, and so does none.
pub open spec fn first_number(s: Seq<char>) -> int {
    let from = number_start(s, 0);
    let run = s.subrange(from, run_of_digits_end(s, from));
    if run.len() > 0 && number(run, 10) <= u32::MAX {
        number(run, 10)
    } else {
        1
    }
}

/// The line an error names; the first where it names none.
pub open spec fn error_line(e: Seq<char>) -> int {
    match rest_after(e, "on line "@) {
        Some(rest) => first_number(rest),
        None => match rest_after(e, "(line "@) {
            Some(rest) => first_number(rest),
            None => 1,
        },
    }
}

/// The place after the last occurrence of a mark.
fn place_after(v: &Vec<char>, mark: &str) -> (r: Option<usize>)
    ensures
        match r {
            Some(i) => i <= v.len() && rest_after(v@, mark@) == Some(v@.skip(i as int)),
            None => rest_after(v@, mark@) is None,
        },
{
    let m: Vec<char> = chars_of(mark);
    let mut i: usize = v.len();
    loop
        invariant
            m@ == mark@,
            i <= v.len(),
            last_index_to(v@, mark@, v.len() as int) == last_index_to(v@, mark@, i as int),
        decreases i,
    {
        if stands_at(v, &m, i) {
            return Some(i + m.len());
        }
        if i == 0 {
            assert(last_index_to(v@, mark@, -1) == -1);
            return None;
        }
        i = i - 1;
    }
}

/// The first number in a text from a place on.
fn number_from(v: &Vec<char>, at: usize) -> (r: u32)
    requires
        at <= v.len(),
    ensures
        r == first_number(v@.skip(at as int)),
{
    let ghost s = v@.skip(at as int);
    let mut i: usize = at;
    while i < v.len() && digit_of(v[i], 10).is_none()
        invariant
            at <= i <= v.len(),
            s == v@.skip(at as int),
            number_start(s, 0) == number_start(s, i - at),
        decreases v.len() - i,
    {
        assert(s[i - at] == v@[i as int]);
        i = i + 1;
    }
    let from: usize = i;
    assert(from < v.len() ==> s[from - at] == v@[from as int]);
    while i < v.len() && digit_of(v[i], 10).is_some()
        invariant
            at <= from <= i <= v.len(),
            s == v@.skip(at as int),
            run_of_digits_end(s, from - at) == run_of_digits_end(s, i - at),
            forall|k: int| from <= k < i ==> is_digit_in(#[trigger] v@[k], 10),
        decreases v.len() - i,
    {
        assert(s[i - at] == v@[i as int]);
        i = i + 1;
    }
    assert(i < v.len() ==> s[i - at] == v@[i as int]);
    assert(v@.subrange(from as int, i as int) =~= s.subrange(from - at, i - at));
    match digits_value(v, from, i, 10, u32::MAX as u64) {
        Some(n) => n as u32,
        None => 1,
    }
}

/// The line an error names.
pub fn parse_error_line(e: &str) -> (r: u32)
    ensures
        r == error_line(e@),
{
    let v: Vec<char> = chars_of(e);
    match place_after(&v, "on line ") {
        Some(i) => number_from(&v, i),
        None => match place_after(&v, "(line ") {
            Some(i) => number_from(&v, i),
            None => 1,
        },
    }
}

/// Whether a character has the property White_Space of Unicode.
pub open spec fn white(c: char) -> bool {
    '\t' <= c <= '\r' || c == ' ' || c == '\u{85}' || c == '\u{a0}' || c == '\u{1680}'
        || '\u{2000}' <= c <= '\u{200a}' || c == '\u{2028}' || c == '\u{2029}' || c
        == '\u{202f}' || c == '\u{205f}' || c == '\u{3000}'
}

/// `char::is_whitespace`: whether a character has the property White_Space.
#[verifier::external_body]
fn is_white(c: char) -> (r: bool)
    ensures
        r == white(c),
{
    c.is_whitespace()
}

/// Where a text is not a program, and why. The columns take in the whole line.
pub struct Problem {
    pub line: u32,
    pub start: u32,
    pub end: u32,
    pub message: String,
}

pub struct ProblemV {
    pub line: int,
    pub start: int,
    pub end: int,
    pub message: Seq<char>,
}

impl View for Problem {
    type V = ProblemV;

    open spec fn view(&self) -> ProblemV {
        ProblemV {
            line: self.line as int,
            start: self.start as int,
            end: self.end as int,
            message: self.message@,
        }
    }
}

/// The problem in a text: none in a blank one or in a program. The first line
/// is zero.
pub open spec fn problem_in(text: Seq<char>) -> Option<ProblemV> {
    if forall|i: int| 0 <= i < text.len() ==> white(#[trigger] text[i]) {
        None
    } else {
        match parsed(text) {
            Ok(_) => None,
            Err(m) => Some(
                ProblemV {
                    line: if error_line(m) > 0 {
                        error_line(m) - 1
                    } else {
                        0
                    },
                    start: 0,
                    end: 200,
                    message: m,
                },
            ),
        }
    }
}

/// The view of an optional problem.
pub open spec fn opt_problem(p: Option<Problem>) -> Option<ProblemV> {
    match p {
        Some(x) => Some(x@),
        None => None,
    }
}

/// The problem in a text, found by the parser that runs it.
pub fn compute_diagnostics(text: &str) -> (r: Option<Problem>)
    ensures
        opt_problem(r) == problem_in(text@),
{
    let v: Vec<char> = chars_of(text);
    let mut i: usize = 0;
    while i < v.len() && is_white(v[i])
        invariant
            i <= v.len(),
            v@ == text@,
            forall|k: int| 0 <= k < i ==> white(#[trigger] text@[k]),
        decreases v.len() - i,
    {
        i = i + 1;
    }
    if i >= v.len() {
        return None;
    }
    assert(!white(text@[i as int]));
    match parse(text) {
        Ok(_) => None,
        Err(message) => {
            let named: u32 = parse_error_line(message.as_str());
            let line: u32 = if named > 0 {
                named - 1
            } else {
                0
            };
            Some(Problem { line, start: 0, end: 200, message })
        },
    }
}

// ── Documents ───────────────────────────────────────────────────────────────

/// The texts of the documents that are open, each with its name.
pub struct Documents {
    pub rows: Vec<(String, String)>,
}

/// What an editor tells of a document.
pub enum DocumentEvent {
    Opened { uri: String, text: String },
    /// The texts after each change; the last one stands.
    Changed { uri: String, texts: Vec<String> },
    Closed { uri: String },
}

/// The text of a document in the first `n` rows: the last row with its name.
pub open spec fn text_in(rows: Seq<(String, String)>, uri: Seq<char>, n: int) -> Option<Seq<char>>
    decreases n,
{
    if n <= 0 {
        None
    } else if rows[n - 1].0@ == uri {
        Some(rows[n - 1].1@)
    } else {
        text_in(rows, uri, n - 1)
    }
}

impl Documents {
    /// The text of a document, if it is open.
    pub open spec fn held(&self, uri: Seq<char>) -> Option<Seq<char>> {
        text_in(self.rows@, uri, self.rows.len() as int)
    }

    /// No document is open.
    pub fn new() -> (r: Documents)
        ensures
            forall|uri: Seq<char>| (#[trigger] r.held(uri)) is None,
    {
        Documents { rows: Vec::new() }
    }

    /// The text of a document, if it is open.
    pub fn text(&self, uri: &str) -> (r: Option<&str>)
        ensures
            str_view(r) == self.held(uri@),
    {
        let mut i: usize = self.rows.len();
        while i > 0
            invariant
                i <= self.rows.len(),
                self.held(uri@) == text_in(self.rows@, uri@, i as int),
            decreases i,
        {
            if same(self.rows[i - 1].0.as_str(), uri) {
                return Some(self.rows[i - 1].1.as_str());
            }
            i = i - 1;
        }
        None
    }

    /// Close a document.
    fn close(&mut self, uri: &str)
        ensures
            forall|other: Seq<char>| #[trigger]
                final(self).held(other) == if other == uri@ {
                    None
                } else {
                    old(self).held(other)
                },
    {
        let ghost was = self.rows@;
        let mut kept: Vec<(String, String)> = Vec::new();
        let mut rest: Vec<(String, String)> = Vec::new();
        std::mem::swap(&mut rest, &mut self.rows);
        let ghost mut n: int = 0;
        assert(rest@ =~= was.skip(0));
        while rest.len() > 0
            invariant
                0 <= n <= was.len(),
                rest@ == was.skip(n),
                forall|other: Seq<char>|
                    other != uri@ ==> #[trigger] text_in(kept@, other, kept.len() as int)
                        == text_in(was, other, n),
                text_in(kept@, uri@, kept.len() as int) is None,
            decreases rest.len(),
        {
            let ghost kept_was = kept@;
            let row: (String, String) = rest.remove(0);
            assert(row == was[n]);
            assert(rest@ =~= was.skip(n + 1));
            if !same(row.0.as_str(), uri) {
                kept.push(row);
                assert forall|other: Seq<char>| other != uri@ implies #[trigger] text_in(
                    kept@,
                    other,
                    kept.len() as int,
                ) == text_in(was, other, n + 1) by {
                    lemma_rows_before(kept@, kept_was, other, kept_was.len() as int);
                }
                proof {
                    lemma_rows_before(kept@, kept_was, uri@, kept_was.len() as int);
                }
            }
            proof {
                n = n + 1;
            }
        }
        self.rows = kept;
    }

    /// Hold a text as that of a document.
    fn hold(&mut self, uri: &str, text: &str)
        ensures
            forall|other: Seq<char>| #[trigger]
                final(self).held(other) == if other == uri@ {
                    Some(text@)
                } else {
                    old(self).held(other)
                },
    {
        self.close(uri);
        let ghost closed = *self;
        let ghost was = self.rows@;
        self.rows.push((own(uri), own(text)));
        assert forall|other: Seq<char>| #[trigger]
            self.held(other) == if other == uri@ {
                Some(text@)
            } else {
                old(self).held(other)
            } by {
            lemma_rows_before(self.rows@, was, other, was.len() as int);
            assert(closed.held(other) == text_in(was, other, was.len() as int));
        }
    }

    /// Take note of what an editor tells. What comes back is the document whose
    /// problems are to be shown, and the text to look for them in; a closed one
    /// has none.
    pub fn update(&mut self, event: DocumentEvent) -> (r: Option<(String, String)>)
        ensures
            match told(event) {
                Some((uri, text)) => {
                    &&& shown_for(r) == Some(
                        (
                            uri,
                            match text {
                                Some(t) => t,
                                None => seq![],
                            },
                        ),
                    )
                    &&& forall|other: Seq<char>| #[trigger]
                        final(self).held(other) == if other == uri {
                            text
                        } else {
                            old(self).held(other)
                        }
                },
                None => r is None && final(self).rows@ == old(self).rows@,
            },
    {
        match event {
            DocumentEvent::Opened { uri, text } => {
                self.hold(uri.as_str(), text.as_str());
                Some((uri, text))
            },
            DocumentEvent::Changed { uri, texts } => {
                let mut texts: Vec<String> = texts;
                match texts.pop() {
                    Some(text) => {
                        self.hold(uri.as_str(), text.as_str());
                        Some((uri, text))
                    },
                    None => None,
                }
            },
            DocumentEvent::Closed { uri } => {
                self.close(uri.as_str());
                let none: String = String::new();
                assert(none@ =~= seq![]);
                Some((uri, none))
            },
        }
    }
}

/// The document an editor tells of and the text it has from there on: none where
/// it is closed. A change without a text tells nothing.
pub open spec fn told(event: DocumentEvent) -> Option<(Seq<char>, Option<Seq<char>>)> {
    match event {
        DocumentEvent::Opened { uri, text } => Some((uri@, Some(text@))),
        DocumentEvent::Changed { uri, texts } => if texts@.len() > 0 {
            Some((uri@, Some(texts@.last()@)))
        } else {
            None
        },
        DocumentEvent::Closed { uri } => Some((uri@, None)),
    }
}

/// The view of a document's name and text.
pub open spec fn shown_for(r: Option<(String, String)>) -> Option<(Seq<char>, Seq<char>)> {
    match r {
        Some((uri, text)) => Some((uri@, text@)),
        None => None,
    }
}

/// Rows behind others change nothing of what those hold.
proof fn lemma_rows_before(
    rows: Seq<(String, String)>,
    before: Seq<(String, String)>,
    uri: Seq<char>,
    n: int,
)
    requires
        n <= before.len() <= rows.len(),
        forall|i: int| 0 <= i < before.len() ==> rows[i] == before[i],
    ensures
        text_in(rows, uri, n) == text_in(before, uri, n),
    decreases n,
{
    if n > 0 {
        lemma_rows_before(rows, before, uri, n - 1);
    }
}

// ── What holds of the lines ─────────────────────────────────────────────────

/// The last occurrence of a mark is where it stands and no later.
proof fn lemma_last_mark(e: Seq<char>, mark: Seq<char>, at: int, from: int)
    requires
        0 <= at <= from,
        occurs_at(e, mark, at),
        forall|i: int| at < i <= from ==> !(#[trigger] occurs_at(e, mark, i)),
    ensures
        last_index_to(e, mark, from) == at,
    decreases from - at,
{
    if at < from {
        assert(!occurs_at(e, mark, from));
        lemma_last_mark(e, mark, at, from - 1);
    }
}

/// A number at the start of a text is its first.
proof fn lemma_leading_number(n: int, rest: Seq<char>)
    requires
        0 <= n <= u32::MAX,
        rest.len() > 0 ==> !is_digit_in(rest[0], 10),
    ensures
        first_number(dec(n) + rest) == n,
{
    lemma_digits_spell(n, 10);
    let d = digits(n, 10);
    let s = d + rest;
    assert(s[0] == d[0]);
    assert(is_digit_in(d[0], 10));
    assert(number_start(s, 0) == 0);
    lemma_digits_to(s, d.len() as int, 0);
    assert(s.subrange(0, d.len() as int) =~= d);
}

/// Digits up to a place end there.
proof fn lemma_digits_to(s: Seq<char>, end: int, i: int)
    requires
        0 <= i <= end <= s.len(),
        forall|k: int| i <= k < end ==> is_digit_in(#[trigger] s[k], 10),
        end < s.len() ==> !is_digit_in(s[end], 10),
    ensures
        run_of_digits_end(s, i) == end,
    decreases end - i,
{
    if i < end {
        assert(is_digit_in(s[i], 10));
        lemma_digits_to(s, end, i + 1);
    }
}

/// A mark whose first character is not found again after it does not stand any
/// later.
proof fn lemma_no_later_mark(e: Seq<char>, mark: Seq<char>, at: int)
    requires
        mark.len() > 0,
        forall|i: int| at < i < e.len() ==> #[trigger] e[i] != mark[0],
    ensures
        forall|i: int| at < i <= e.len() ==> !(#[trigger] occurs_at(e, mark, i)),
{
    assert forall|i: int| at < i <= e.len() implies !(#[trigger] occurs_at(e, mark, i)) by {
        if occurs_at(e, mark, i) {
            assert(e.subrange(i, i + mark.len())[0] == e[i]);
        }
    }
}

/// An error that ends in the words for its line is shown on that line.
pub proof fn named_line_is_found(msg: Seq<char>, line: int)
    requires
        0 <= line <= u32::MAX,
    ensures
        error_line(msg + "on line "@ + dec(line)) == line,
{
    let mark = "on line "@;
    let d = dec(line);
    let e = msg + mark + d;
    let at = msg.len() as int;
    lemma_digits_spell(line, 10);
    assert(e.subrange(at, at + mark.len()) =~= mark);
    assert(e.skip(at + mark.len()) =~= d + Seq::<char>::empty());
    assert(mark.len() == 8 && mark[0] == 'o' && forall|k: int|
        0 < k < 8 ==> #[trigger] mark[k] != 'o') by {
        reveal_strlit("on line ");
    }
    assert forall|i: int| at < i < e.len() implies #[trigger] e[i] != mark[0] by {
        if i < at + 8 {
            assert(e[i] == mark[i - at]);
        } else {
            assert(e[i] == d[i - at - 8]);
            assert(is_digit_in(d[i - at - 8], 10));
        }
    }
    lemma_no_later_mark(e, mark, at);
    lemma_last_mark(e, mark, at, e.len() as int);
    lemma_leading_number(line, seq![]);
}

/// An error that ends in its line in brackets is shown on that line, unless it
/// also holds the words of the other form.
pub proof fn bracketed_line_is_found(msg: Seq<char>, line: u32)
    requires
        forall|i: int| !(#[trigger] occurs_at(at_line(msg, line), "on line "@, i)),
    ensures
        error_line(at_line(msg, line)) == line,
{
    let mark = "(line "@;
    let d = dec(line as int);
    let e = at_line(msg, line);
    let at = msg.len() as int + 1;
    lemma_digits_spell(line as int, 10);
    assert(" (line "@ =~= seq![' '] + mark && mark.len() == 6 && mark[0] == '(' && forall|k: int|
        0 < k < 6 ==> #[trigger] mark[k] != '(') by {
        reveal_strlit("(line ");
        reveal_strlit(" (line ");
    }
    assert(")"@ =~= seq![')']) by {
        reveal_strlit(")");
    }
    assert(e =~= msg + seq![' '] + mark + d + seq![')']);
    assert(e.subrange(at, at + mark.len()) =~= mark);
    assert(e.skip(at + mark.len()) =~= d + seq![')']);
    assert forall|i: int| at < i < e.len() implies #[trigger] e[i] != mark[0] by {
        if i < at + 6 {
            assert(e[i] == mark[i - at]);
        } else if i < at + 6 + d.len() {
            assert(e[i] == d[i - at - 6]);
            assert(is_digit_in(d[i - at - 6], 10));
        } else {
            assert(e[i] == ')');
        }
    }
    lemma_no_later_mark(e, mark, at);
    lemma_last_mark(e, mark, at, e.len() as int);
    lemma_no_mark(e, "on line "@, e.len() as int);
    lemma_leading_number(line as int, seq![')']);
}

/// What occurs nowhere has no last occurrence.
proof fn lemma_no_mark(e: Seq<char>, mark: Seq<char>, from: int)
    requires
        forall|i: int| !(#[trigger] occurs_at(e, mark, i)),
    ensures
        last_index_to(e, mark, from) == -1,
    decreases from + 1,
{
    if from >= 0 {
        assert(!occurs_at(e, mark, from));
        lemma_no_mark(e, mark, from - 1);
    }
}

} // verus!
