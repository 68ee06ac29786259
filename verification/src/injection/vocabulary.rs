//! The words that the prelude is written in.
use vstd::prelude::*;

use crate::injection::reading::{is_plain_word, is_variable, starts_member};
use crate::injection::spelling::is_word;
use crate::lexer::{Tok, word_kind};
use crate::prelude::throwables;

verus! {

/// Whether a word is a name wherever it stands.
pub open spec fn is_common(w: Seq<char>) -> bool {
    is_word(w) && word_kind(w) == Tok::Ident && is_variable(w) && is_plain_word(w) && starts_member(w)
}

/// The words that mean something to the lexer or the parser.
proof fn lemma_special()
    ensures
        "class"@.len() == 5 && "class"@[0] == 'c' && "class"@.last() == 's' && "class"@[1] == 'l',
        "public"@.len() == 6 && "public"@[0] == 'p' && "public"@.last() == 'c' && "public"@[1] == 'u',
        "static"@.len() == 6 && "static"@[0] == 's' && "static"@.last() == 'c' && "static"@[1] == 't',
        "void"@.len() == 4 && "void"@[0] == 'v' && "void"@.last() == 'd' && "void"@[1] == 'o',
        "if"@.len() == 2 && "if"@[0] == 'i' && "if"@.last() == 'f' && "if"@[1] == 'f',
        "else"@.len() == 4 && "else"@[0] == 'e' && "else"@.last() == 'e' && "else"@[1] == 'l',
        "while"@.len() == 5 && "while"@[0] == 'w' && "while"@.last() == 'e' && "while"@[1] == 'h',
        "for"@.len() == 3 && "for"@[0] == 'f' && "for"@.last() == 'r' && "for"@[1] == 'o',
        "do"@.len() == 2 && "do"@[0] == 'd' && "do"@.last() == 'o' && "do"@[1] == 'o',
        "switch"@.len() == 6 && "switch"@[0] == 's' && "switch"@.last() == 'h' && "switch"@[1] == 'w',
        "case"@.len() == 4 && "case"@[0] == 'c' && "case"@.last() == 'e' && "case"@[1] == 'a',
        "default"@.len() == 7 && "default"@[0] == 'd' && "default"@.last() == 't' && "default"@[1] == 'e',
        "return"@.len() == 6 && "return"@[0] == 'r' && "return"@.last() == 'n' && "return"@[1] == 'e',
        "break"@.len() == 5 && "break"@[0] == 'b' && "break"@.last() == 'k' && "break"@[1] == 'r',
        "continue"@.len() == 8 && "continue"@[0] == 'c' && "continue"@.last() == 'e' && "continue"@[1] == 'o',
        "true"@.len() == 4 && "true"@[0] == 't' && "true"@.last() == 'e' && "true"@[1] == 'r',
        "false"@.len() == 5 && "false"@[0] == 'f' && "false"@.last() == 'e' && "false"@[1] == 'a',
        "new"@.len() == 3 && "new"@[0] == 'n' && "new"@.last() == 'w' && "new"@[1] == 'e',
        "this"@.len() == 4 && "this"@[0] == 't' && "this"@.last() == 's' && "this"@[1] == 'h',
        "java"@.len() == 4 && "java"@[0] == 'j' && "java"@.last() == 'a' && "java"@[1] == 'a',
        "System"@.len() == 6 && "System"@[0] == 'S' && "System"@.last() == 'm' && "System"@[1] == 'y',
        "instanceof"@.len() == 10 && "instanceof"@[0] == 'i' && "instanceof"@.last() == 'f' && "instanceof"@[1] == 'n',
        "try"@.len() == 3 && "try"@[0] == 't' && "try"@.last() == 'y' && "try"@[1] == 'r',
        "yield"@.len() == 5 && "yield"@[0] == 'y' && "yield"@.last() == 'd' && "yield"@[1] == 'i',
        "throw"@.len() == 5 && "throw"@[0] == 't' && "throw"@.last() == 'w' && "throw"@[1] == 'h',
        "synchronized"@.len() == 12 && "synchronized"@[0] == 's' && "synchronized"@.last() == 'd' && "synchronized"@[1] == 'y',
        "final"@.len() == 5 && "final"@[0] == 'f' && "final"@.last() == 'l' && "final"@[1] == 'i',
        "abstract"@.len() == 8 && "abstract"@[0] == 'a' && "abstract"@.last() == 't' && "abstract"@[1] == 'b',
        "private"@.len() == 7 && "private"@[0] == 'p' && "private"@.last() == 'e' && "private"@[1] == 'r',
        "protected"@.len() == 9 && "protected"@[0] == 'p' && "protected"@.last() == 'd' && "protected"@[1] == 'r',
        "native"@.len() == 6 && "native"@[0] == 'n' && "native"@.last() == 'e' && "native"@[1] == 'a',
        "volatile"@.len() == 8 && "volatile"@[0] == 'v' && "volatile"@.last() == 'e' && "volatile"@[1] == 'o',
        "transient"@.len() == 9 && "transient"@[0] == 't' && "transient"@.last() == 't' && "transient"@[1] == 'r',
        "interface"@.len() == 9 && "interface"@[0] == 'i' && "interface"@.last() == 'e' && "interface"@[1] == 'n',
        "enum"@.len() == 4 && "enum"@[0] == 'e' && "enum"@.last() == 'm' && "enum"@[1] == 'n',
        "record"@.len() == 6 && "record"@[0] == 'r' && "record"@.last() == 'd' && "record"@[1] == 'e',
{
    reveal_strlit("class");
    reveal_strlit("public");
    reveal_strlit("static");
    reveal_strlit("void");
    reveal_strlit("if");
    reveal_strlit("else");
    reveal_strlit("while");
    reveal_strlit("for");
    reveal_strlit("do");
    reveal_strlit("switch");
    reveal_strlit("case");
    reveal_strlit("default");
    reveal_strlit("return");
    reveal_strlit("break");
    reveal_strlit("continue");
    reveal_strlit("true");
    reveal_strlit("false");
    reveal_strlit("new");
    reveal_strlit("this");
    reveal_strlit("java");
    reveal_strlit("System");
    reveal_strlit("instanceof");
    reveal_strlit("try");
    reveal_strlit("yield");
    reveal_strlit("throw");
    reveal_strlit("synchronized");
    reveal_strlit("final");
    reveal_strlit("abstract");
    reveal_strlit("private");
    reveal_strlit("protected");
    reveal_strlit("native");
    reveal_strlit("volatile");
    reveal_strlit("transient");
    reveal_strlit("interface");
    reveal_strlit("enum");
    reveal_strlit("record");
}

proof fn lemma_words_1()
    ensures
        is_common("BiConsumer"@) && "BiConsumer"@.len() == 10,
        is_common("BiFunction"@) && "BiFunction"@.len() == 10,
        is_common("BiPredicate"@) && "BiPredicate"@.len() == 11,
        is_common("BinaryOperator"@) && "BinaryOperator"@.len() == 14,
        is_common("Callable"@) && "Callable"@.len() == 8,
        is_common("Comparator"@) && "Comparator"@.len() == 10,
{
    lemma_special();
    reveal_strlit("BiConsumer");
    reveal_strlit("BiFunction");
    reveal_strlit("BiPredicate");
    reveal_strlit("BinaryOperator");
    reveal_strlit("Callable");
    reveal_strlit("Comparator");
    assert("BiConsumer"@.len() == 10 && "BiConsumer"@[0] == 'B' && "BiConsumer"@.last() == 'r' && "BiConsumer"@[1] == 'i');
    assert("BiFunction"@.len() == 10 && "BiFunction"@[0] == 'B' && "BiFunction"@.last() == 'n' && "BiFunction"@[1] == 'i');
    assert("BiPredicate"@.len() == 11 && "BiPredicate"@[0] == 'B' && "BiPredicate"@.last() == 'e' && "BiPredicate"@[1] == 'i');
    assert("BinaryOperator"@.len() == 14 && "BinaryOperator"@[0] == 'B' && "BinaryOperator"@.last() == 'r' && "BinaryOperator"@[1] == 'i');
    assert("Callable"@.len() == 8 && "Callable"@[0] == 'C' && "Callable"@.last() == 'e' && "Callable"@[1] == 'a');
    assert("Comparator"@.len() == 10 && "Comparator"@[0] == 'C' && "Comparator"@.last() == 'r' && "Comparator"@[1] == 'o');
}

proof fn lemma_words_2()
    ensures
        is_common("Consumer"@) && "Consumer"@.len() == 8,
        is_common("Function"@) && "Function"@.len() == 8,
        is_common("IntBinaryOperator"@) && "IntBinaryOperator"@.len() == 17,
        is_common("IntConsumer"@) && "IntConsumer"@.len() == 11,
        is_common("IntPredicate"@) && "IntPredicate"@.len() == 12,
        is_common("IntSupplier"@) && "IntSupplier"@.len() == 11,
{
    lemma_special();
    reveal_strlit("Consumer");
    reveal_strlit("Function");
    reveal_strlit("IntBinaryOperator");
    reveal_strlit("IntConsumer");
    reveal_strlit("IntPredicate");
    reveal_strlit("IntSupplier");
    assert("Consumer"@.len() == 8 && "Consumer"@[0] == 'C' && "Consumer"@.last() == 'r' && "Consumer"@[1] == 'o');
    assert("Function"@.len() == 8 && "Function"@[0] == 'F' && "Function"@.last() == 'n' && "Function"@[1] == 'u');
    assert("IntBinaryOperator"@.len() == 17 && "IntBinaryOperator"@[0] == 'I' && "IntBinaryOperator"@.last() == 'r' && "IntBinaryOperator"@[1] == 'n');
    assert("IntConsumer"@.len() == 11 && "IntConsumer"@[0] == 'I' && "IntConsumer"@.last() == 'r' && "IntConsumer"@[1] == 'n');
    assert("IntPredicate"@.len() == 12 && "IntPredicate"@[0] == 'I' && "IntPredicate"@.last() == 'e' && "IntPredicate"@[1] == 'n');
    assert("IntSupplier"@.len() == 11 && "IntSupplier"@[0] == 'I' && "IntSupplier"@.last() == 'r' && "IntSupplier"@[1] == 'n');
}

proof fn lemma_words_3()
    ensures
        is_common("IntUnaryOperator"@) && "IntUnaryOperator"@.len() == 16,
        is_common("Object"@) && "Object"@.len() == 6,
        is_common("Predicate"@) && "Predicate"@.len() == 9,
        is_common("Runnable"@) && "Runnable"@.len() == 8,
        is_common("String"@) && "String"@.len() == 6,
        is_common("Supplier"@) && "Supplier"@.len() == 8,
{
    lemma_special();
    reveal_strlit("IntUnaryOperator");
    reveal_strlit("Object");
    reveal_strlit("Predicate");
    reveal_strlit("Runnable");
    reveal_strlit("String");
    reveal_strlit("Supplier");
    assert("IntUnaryOperator"@.len() == 16 && "IntUnaryOperator"@[0] == 'I' && "IntUnaryOperator"@.last() == 'r' && "IntUnaryOperator"@[1] == 'n');
    assert("Object"@.len() == 6 && "Object"@[0] == 'O' && "Object"@.last() == 't' && "Object"@[1] == 'b');
    assert("Predicate"@.len() == 9 && "Predicate"@[0] == 'P' && "Predicate"@.last() == 'e' && "Predicate"@[1] == 'r');
    assert("Runnable"@.len() == 8 && "Runnable"@[0] == 'R' && "Runnable"@.last() == 'e' && "Runnable"@[1] == 'u');
    assert("String"@.len() == 6 && "String"@[0] == 'S' && "String"@.last() == 'g' && "String"@[1] == 't');
    assert("Supplier"@.len() == 8 && "Supplier"@[0] == 'S' && "Supplier"@.last() == 'r' && "Supplier"@[1] == 'u');
}

proof fn lemma_words_4()
    ensures
        is_common("ToDoubleFunction"@) && "ToDoubleFunction"@.len() == 16,
        is_common("ToIntFunction"@) && "ToIntFunction"@.len() == 13,
        is_common("UnaryOperator"@) && "UnaryOperator"@.len() == 13,
        is_common("a"@) && "a"@.len() == 1,
        is_common("accept"@) && "accept"@.len() == 6,
        is_common("after"@) && "after"@.len() == 5,
{
    lemma_special();
    reveal_strlit("ToDoubleFunction");
    reveal_strlit("ToIntFunction");
    reveal_strlit("UnaryOperator");
    reveal_strlit("a");
    reveal_strlit("accept");
    reveal_strlit("after");
    assert("ToDoubleFunction"@.len() == 16 && "ToDoubleFunction"@[0] == 'T' && "ToDoubleFunction"@.last() == 'n' && "ToDoubleFunction"@[1] == 'o');
    assert("ToIntFunction"@.len() == 13 && "ToIntFunction"@[0] == 'T' && "ToIntFunction"@.last() == 'n' && "ToIntFunction"@[1] == 'o');
    assert("UnaryOperator"@.len() == 13 && "UnaryOperator"@[0] == 'U' && "UnaryOperator"@.last() == 'r' && "UnaryOperator"@[1] == 'n');
    assert("a"@.len() == 1 && "a"@[0] == 'a' && "a"@.last() == 'a');
    assert("accept"@.len() == 6 && "accept"@[0] == 'a' && "accept"@.last() == 't' && "accept"@[1] == 'c');
    assert("after"@.len() == 5 && "after"@[0] == 'a' && "after"@.last() == 'r' && "after"@[1] == 'f');
}

proof fn lemma_words_5()
    ensures
        is_common("and"@) && "and"@.len() == 3,
        is_common("andThen"@) && "andThen"@.len() == 7,
        is_common("apply"@) && "apply"@.len() == 5,
        is_common("applyAsDouble"@) && "applyAsDouble"@.len() == 13,
        is_common("applyAsInt"@) && "applyAsInt"@.len() == 10,
        is_common("b"@) && "b"@.len() == 1,
{
    lemma_special();
    reveal_strlit("and");
    reveal_strlit("andThen");
    reveal_strlit("apply");
    reveal_strlit("applyAsDouble");
    reveal_strlit("applyAsInt");
    reveal_strlit("b");
    assert("and"@.len() == 3 && "and"@[0] == 'a' && "and"@.last() == 'd' && "and"@[1] == 'n');
    assert("andThen"@.len() == 7 && "andThen"@[0] == 'a' && "andThen"@.last() == 'n' && "andThen"@[1] == 'n');
    assert("apply"@.len() == 5 && "apply"@[0] == 'a' && "apply"@.last() == 'y' && "apply"@[1] == 'p');
    assert("applyAsDouble"@.len() == 13 && "applyAsDouble"@[0] == 'a' && "applyAsDouble"@.last() == 'e' && "applyAsDouble"@[1] == 'p');
    assert("applyAsInt"@.len() == 10 && "applyAsInt"@[0] == 'a' && "applyAsInt"@.last() == 't' && "applyAsInt"@[1] == 'p');
    assert("b"@.len() == 1 && "b"@[0] == 'b' && "b"@.last() == 'b');
}

proof fn lemma_words_6()
    ensures
        is_common("before"@) && "before"@.len() == 6,
        is_common("boolean"@) && "boolean"@.len() == 7,
        is_common("call"@) && "call"@.len() == 4,
        is_common("comparator"@) && "comparator"@.len() == 10,
        is_common("compare"@) && "compare"@.len() == 7,
        is_common("compareTo"@) && "compareTo"@.len() == 9,
{
    lemma_special();
    reveal_strlit("before");
    reveal_strlit("boolean");
    reveal_strlit("call");
    reveal_strlit("comparator");
    reveal_strlit("compare");
    reveal_strlit("compareTo");
    assert("before"@.len() == 6 && "before"@[0] == 'b' && "before"@.last() == 'e' && "before"@[1] == 'e');
    assert("boolean"@.len() == 7 && "boolean"@[0] == 'b' && "boolean"@.last() == 'n' && "boolean"@[1] == 'o');
    assert("call"@.len() == 4 && "call"@[0] == 'c' && "call"@.last() == 'l' && "call"@[1] == 'a');
    assert("comparator"@.len() == 10 && "comparator"@[0] == 'c' && "comparator"@.last() == 'r' && "comparator"@[1] == 'o');
    assert("compare"@.len() == 7 && "compare"@[0] == 'c' && "compare"@.last() == 'e' && "compare"@[1] == 'o');
    assert("compareTo"@.len() == 9 && "compareTo"@[0] == 'c' && "compareTo"@.last() == 'o' && "compareTo"@[1] == 'o');
}

proof fn lemma_words_7()
    ensures
        is_common("comparing"@) && "comparing"@.len() == 9,
        is_common("compose"@) && "compose"@.len() == 7,
        is_common("detailMessage"@) && "detailMessage"@.len() == 13,
        is_common("double"@) && "double"@.len() == 6,
        is_common("get"@) && "get"@.len() == 3,
        is_common("getAsInt"@) && "getAsInt"@.len() == 8,
{
    lemma_special();
    reveal_strlit("comparing");
    reveal_strlit("compose");
    reveal_strlit("detailMessage");
    reveal_strlit("double");
    reveal_strlit("get");
    reveal_strlit("getAsInt");
    assert("comparing"@.len() == 9 && "comparing"@[0] == 'c' && "comparing"@.last() == 'g' && "comparing"@[1] == 'o');
    assert("compose"@.len() == 7 && "compose"@[0] == 'c' && "compose"@.last() == 'e' && "compose"@[1] == 'o');
    assert("detailMessage"@.len() == 13 && "detailMessage"@[0] == 'd' && "detailMessage"@.last() == 'e' && "detailMessage"@[1] == 'e');
    assert("double"@.len() == 6 && "double"@[0] == 'd' && "double"@.last() == 'e' && "double"@[1] == 'o');
    assert("get"@.len() == 3 && "get"@[0] == 'g' && "get"@.last() == 't' && "get"@[1] == 'e');
    assert("getAsInt"@.len() == 8 && "getAsInt"@[0] == 'g' && "getAsInt"@.last() == 't' && "getAsInt"@[1] == 'e');
}

proof fn lemma_words_8()
    ensures
        is_common("getClass"@) && "getClass"@.len() == 8,
        is_common("getLocalizedMessage"@) && "getLocalizedMessage"@.len() == 19,
        is_common("getMessage"@) && "getMessage"@.len() == 10,
        is_common("getName"@) && "getName"@.len() == 7,
        is_common("identity"@) && "identity"@.len() == 8,
        is_common("int"@) && "int"@.len() == 3,
{
    lemma_special();
    reveal_strlit("getClass");
    reveal_strlit("getLocalizedMessage");
    reveal_strlit("getMessage");
    reveal_strlit("getName");
    reveal_strlit("identity");
    reveal_strlit("int");
    assert("getClass"@.len() == 8 && "getClass"@[0] == 'g' && "getClass"@.last() == 's' && "getClass"@[1] == 'e');
    assert("getLocalizedMessage"@.len() == 19 && "getLocalizedMessage"@[0] == 'g' && "getLocalizedMessage"@.last() == 'e' && "getLocalizedMessage"@[1] == 'e');
    assert("getMessage"@.len() == 10 && "getMessage"@[0] == 'g' && "getMessage"@.last() == 'e' && "getMessage"@[1] == 'e');
    assert("getName"@.len() == 7 && "getName"@[0] == 'g' && "getName"@.last() == 'e' && "getName"@[1] == 'e');
    assert("identity"@.len() == 8 && "identity"@[0] == 'i' && "identity"@.last() == 'y' && "identity"@[1] == 'd');
    assert("int"@.len() == 3 && "int"@[0] == 'i' && "int"@.last() == 't' && "int"@[1] == 'n');
}

proof fn lemma_words_9()
    ensures
        is_common("key"@) && "key"@.len() == 3,
        is_common("left"@) && "left"@.len() == 4,
        is_common("m"@) && "m"@.len() == 1,
        is_common("main"@) && "main"@.len() == 4,
        is_common("maxBy"@) && "maxBy"@.len() == 5,
        is_common("minBy"@) && "minBy"@.len() == 5,
{
    lemma_special();
    reveal_strlit("key");
    reveal_strlit("left");
    reveal_strlit("m");
    reveal_strlit("main");
    reveal_strlit("maxBy");
    reveal_strlit("minBy");
    assert("key"@.len() == 3 && "key"@[0] == 'k' && "key"@.last() == 'y' && "key"@[1] == 'e');
    assert("left"@.len() == 4 && "left"@[0] == 'l' && "left"@.last() == 't' && "left"@[1] == 'e');
    assert("m"@.len() == 1 && "m"@[0] == 'm' && "m"@.last() == 'm');
    assert("main"@.len() == 4 && "main"@[0] == 'm' && "main"@.last() == 'n' && "main"@[1] == 'a');
    assert("maxBy"@.len() == 5 && "maxBy"@[0] == 'm' && "maxBy"@.last() == 'y' && "maxBy"@[1] == 'a');
    assert("minBy"@.len() == 5 && "minBy"@[0] == 'm' && "minBy"@.last() == 'y' && "minBy"@[1] == 'i');
}

proof fn lemma_words_10()
    ensures
        is_common("n"@) && "n"@.len() == 1,
        is_common("naturalOrder"@) && "naturalOrder"@.len() == 12,
        is_common("negate"@) && "negate"@.len() == 6,
        is_common("not"@) && "not"@.len() == 3,
        is_common("null"@) && "null"@.len() == 4,
        is_common("operand"@) && "operand"@.len() == 7,
{
    lemma_special();
    reveal_strlit("n");
    reveal_strlit("naturalOrder");
    reveal_strlit("negate");
    reveal_strlit("not");
    reveal_strlit("null");
    reveal_strlit("operand");
    assert("n"@.len() == 1 && "n"@[0] == 'n' && "n"@.last() == 'n');
    assert("naturalOrder"@.len() == 12 && "naturalOrder"@[0] == 'n' && "naturalOrder"@.last() == 'r' && "naturalOrder"@[1] == 'a');
    assert("negate"@.len() == 6 && "negate"@[0] == 'n' && "negate"@.last() == 'e' && "negate"@[1] == 'e');
    assert("not"@.len() == 3 && "not"@[0] == 'n' && "not"@.last() == 't' && "not"@[1] == 'o');
    assert("null"@.len() == 4 && "null"@[0] == 'n' && "null"@.last() == 'l' && "null"@[1] == 'u');
    assert("operand"@.len() == 7 && "operand"@[0] == 'o' && "operand"@.last() == 'd' && "operand"@[1] == 'p');
}

proof fn lemma_words_11()
    ensures
        is_common("or"@) && "or"@.len() == 2,
        is_common("other"@) && "other"@.len() == 5,
        is_common("r"@) && "r"@.len() == 1,
        is_common("reverseOrder"@) && "reverseOrder"@.len() == 12,
        is_common("reversed"@) && "reversed"@.len() == 8,
        is_common("right"@) && "right"@.len() == 5,
{
    lemma_special();
    reveal_strlit("or");
    reveal_strlit("other");
    reveal_strlit("r");
    reveal_strlit("reverseOrder");
    reveal_strlit("reversed");
    reveal_strlit("right");
    assert("or"@.len() == 2 && "or"@[0] == 'o' && "or"@.last() == 'r' && "or"@[1] == 'r');
    assert("other"@.len() == 5 && "other"@[0] == 'o' && "other"@.last() == 'r' && "other"@[1] == 't');
    assert("r"@.len() == 1 && "r"@[0] == 'r' && "r"@.last() == 'r');
    assert("reverseOrder"@.len() == 12 && "reverseOrder"@[0] == 'r' && "reverseOrder"@.last() == 'r' && "reverseOrder"@[1] == 'e');
    assert("reversed"@.len() == 8 && "reversed"@[0] == 'r' && "reversed"@.last() == 'd' && "reversed"@[1] == 'e');
    assert("right"@.len() == 5 && "right"@[0] == 'r' && "right"@.last() == 't' && "right"@[1] == 'i');
}

proof fn lemma_words_12()
    ensures
        is_common("run"@) && "run"@.len() == 3,
        is_common("super"@) && "super"@.len() == 5,
        is_common("t"@) && "t"@.len() == 1,
        is_common("target"@) && "target"@.len() == 6,
        is_common("test"@) && "test"@.len() == 4,
        is_common("thenComparing"@) && "thenComparing"@.len() == 13,
{
    lemma_special();
    reveal_strlit("run");
    reveal_strlit("super");
    reveal_strlit("t");
    reveal_strlit("target");
    reveal_strlit("test");
    reveal_strlit("thenComparing");
    assert("run"@.len() == 3 && "run"@[0] == 'r' && "run"@.last() == 'n' && "run"@[1] == 'u');
    assert("super"@.len() == 5 && "super"@[0] == 's' && "super"@.last() == 'r' && "super"@[1] == 'u');
    assert("t"@.len() == 1 && "t"@[0] == 't' && "t"@.last() == 't');
    assert("target"@.len() == 6 && "target"@[0] == 't' && "target"@.last() == 't' && "target"@[1] == 'a');
    assert("test"@.len() == 4 && "test"@[0] == 't' && "test"@.last() == 't' && "test"@[1] == 'e');
    assert("thenComparing"@.len() == 13 && "thenComparing"@[0] == 't' && "thenComparing"@.last() == 'g' && "thenComparing"@[1] == 'h');
}

proof fn lemma_words_13()
    ensures
        is_common("toString"@) && "toString"@.len() == 8,
        is_common("u"@) && "u"@.len() == 1,
        is_common("v"@) && "v"@.len() == 1,
        is_common("value"@) && "value"@.len() == 5,
{
    lemma_special();
    reveal_strlit("toString");
    reveal_strlit("u");
    reveal_strlit("v");
    reveal_strlit("value");
    assert("toString"@.len() == 8 && "toString"@[0] == 't' && "toString"@.last() == 'g' && "toString"@[1] == 'o');
    assert("u"@.len() == 1 && "u"@[0] == 'u' && "u"@.last() == 'u');
    assert("v"@.len() == 1 && "v"@[0] == 'v' && "v"@.last() == 'v');
    assert("value"@.len() == 5 && "value"@[0] == 'v' && "value"@.last() == 'e' && "value"@[1] == 'a');
}

/// The words of the prelude are names, and its reserved words are reserved.
pub proof fn words_are_known()
    ensures
        is_common("BiConsumer"@) && "BiConsumer"@.len() == 10,
        is_common("BiFunction"@) && "BiFunction"@.len() == 10,
        is_common("BiPredicate"@) && "BiPredicate"@.len() == 11,
        is_common("BinaryOperator"@) && "BinaryOperator"@.len() == 14,
        is_common("Callable"@) && "Callable"@.len() == 8,
        is_common("Comparator"@) && "Comparator"@.len() == 10,
        is_common("Consumer"@) && "Consumer"@.len() == 8,
        is_common("Function"@) && "Function"@.len() == 8,
        is_common("IntBinaryOperator"@) && "IntBinaryOperator"@.len() == 17,
        is_common("IntConsumer"@) && "IntConsumer"@.len() == 11,
        is_common("IntPredicate"@) && "IntPredicate"@.len() == 12,
        is_common("IntSupplier"@) && "IntSupplier"@.len() == 11,
        is_common("IntUnaryOperator"@) && "IntUnaryOperator"@.len() == 16,
        is_common("Object"@) && "Object"@.len() == 6,
        is_common("Predicate"@) && "Predicate"@.len() == 9,
        is_common("Runnable"@) && "Runnable"@.len() == 8,
        is_common("String"@) && "String"@.len() == 6,
        is_common("Supplier"@) && "Supplier"@.len() == 8,
        is_common("ToDoubleFunction"@) && "ToDoubleFunction"@.len() == 16,
        is_common("ToIntFunction"@) && "ToIntFunction"@.len() == 13,
        is_common("UnaryOperator"@) && "UnaryOperator"@.len() == 13,
        is_common("a"@) && "a"@.len() == 1,
        is_common("accept"@) && "accept"@.len() == 6,
        is_common("after"@) && "after"@.len() == 5,
        is_common("and"@) && "and"@.len() == 3,
        is_common("andThen"@) && "andThen"@.len() == 7,
        is_common("apply"@) && "apply"@.len() == 5,
        is_common("applyAsDouble"@) && "applyAsDouble"@.len() == 13,
        is_common("applyAsInt"@) && "applyAsInt"@.len() == 10,
        is_common("b"@) && "b"@.len() == 1,
        is_common("before"@) && "before"@.len() == 6,
        is_common("boolean"@) && "boolean"@.len() == 7,
        is_common("call"@) && "call"@.len() == 4,
        is_common("comparator"@) && "comparator"@.len() == 10,
        is_common("compare"@) && "compare"@.len() == 7,
        is_common("compareTo"@) && "compareTo"@.len() == 9,
        is_common("comparing"@) && "comparing"@.len() == 9,
        is_common("compose"@) && "compose"@.len() == 7,
        is_common("detailMessage"@) && "detailMessage"@.len() == 13,
        is_common("double"@) && "double"@.len() == 6,
        is_common("get"@) && "get"@.len() == 3,
        is_common("getAsInt"@) && "getAsInt"@.len() == 8,
        is_common("getClass"@) && "getClass"@.len() == 8,
        is_common("getLocalizedMessage"@) && "getLocalizedMessage"@.len() == 19,
        is_common("getMessage"@) && "getMessage"@.len() == 10,
        is_common("getName"@) && "getName"@.len() == 7,
        is_common("identity"@) && "identity"@.len() == 8,
        is_common("int"@) && "int"@.len() == 3,
        is_common("key"@) && "key"@.len() == 3,
        is_common("left"@) && "left"@.len() == 4,
        is_common("m"@) && "m"@.len() == 1,
        is_common("main"@) && "main"@.len() == 4,
        is_common("maxBy"@) && "maxBy"@.len() == 5,
        is_common("minBy"@) && "minBy"@.len() == 5,
        is_common("n"@) && "n"@.len() == 1,
        is_common("naturalOrder"@) && "naturalOrder"@.len() == 12,
        is_common("negate"@) && "negate"@.len() == 6,
        is_common("not"@) && "not"@.len() == 3,
        is_common("null"@) && "null"@.len() == 4,
        is_common("operand"@) && "operand"@.len() == 7,
        is_common("or"@) && "or"@.len() == 2,
        is_common("other"@) && "other"@.len() == 5,
        is_common("r"@) && "r"@.len() == 1,
        is_common("reverseOrder"@) && "reverseOrder"@.len() == 12,
        is_common("reversed"@) && "reversed"@.len() == 8,
        is_common("right"@) && "right"@.len() == 5,
        is_common("run"@) && "run"@.len() == 3,
        is_common("super"@) && "super"@.len() == 5,
        is_common("t"@) && "t"@.len() == 1,
        is_common("target"@) && "target"@.len() == 6,
        is_common("test"@) && "test"@.len() == 4,
        is_common("thenComparing"@) && "thenComparing"@.len() == 13,
        is_common("toString"@) && "toString"@.len() == 8,
        is_common("u"@) && "u"@.len() == 1,
        is_common("v"@) && "v"@.len() == 1,
        is_common("value"@) && "value"@.len() == 5,
        is_word("class"@) && word_kind("class"@) == Tok::Class && "class"@.len() == 5,
        is_word("default"@) && word_kind("default"@) == Tok::Default && "default"@.len() == 7,
        is_word("if"@) && word_kind("if"@) == Tok::If && "if"@.len() == 2,
        is_word("public"@) && word_kind("public"@) == Tok::Public && "public"@.len() == 6,
        is_word("return"@) && word_kind("return"@) == Tok::Return && "return"@.len() == 6,
        is_word("static"@) && word_kind("static"@) == Tok::Static && "static"@.len() == 6,
        is_word("void"@) && word_kind("void"@) == Tok::Void && "void"@.len() == 4,
        is_word("this"@) && word_kind("this"@) == Tok::Ident && "this"@.len() == 4,
        is_word("interface"@) && word_kind("interface"@) == Tok::Ident && "interface"@.len() == 9,
        is_word("extends"@) && word_kind("extends"@) == Tok::Ident && "extends"@.len() == 7,
        is_plain_word("this"@),
{
    lemma_words_1();
    lemma_words_2();
    lemma_words_3();
    lemma_words_4();
    lemma_words_5();
    lemma_words_6();
    lemma_words_7();
    lemma_words_8();
    lemma_words_9();
    lemma_words_10();
    lemma_words_11();
    lemma_words_12();
    lemma_words_13();
    lemma_special();
    reveal_strlit("class");
    reveal_strlit("default");
    reveal_strlit("if");
    reveal_strlit("public");
    reveal_strlit("return");
    reveal_strlit("static");
    reveal_strlit("void");
    reveal_strlit("this");
    reveal_strlit("interface");
    reveal_strlit("extends");
    assert("class"@.len() == 5 && "class"@[0] == 'c' && "class"@.last() == 's' && "class"@[1] == 'l');
    assert("default"@.len() == 7 && "default"@[0] == 'd' && "default"@.last() == 't' && "default"@[1] == 'e');
    assert("if"@.len() == 2 && "if"@[0] == 'i' && "if"@.last() == 'f' && "if"@[1] == 'f');
    assert("public"@.len() == 6 && "public"@[0] == 'p' && "public"@.last() == 'c' && "public"@[1] == 'u');
    assert("return"@.len() == 6 && "return"@[0] == 'r' && "return"@.last() == 'n' && "return"@[1] == 'e');
    assert("static"@.len() == 6 && "static"@[0] == 's' && "static"@.last() == 'c' && "static"@[1] == 't');
    assert("void"@.len() == 4 && "void"@[0] == 'v' && "void"@.last() == 'd' && "void"@[1] == 'o');
    assert("this"@.len() == 4 && "this"@[0] == 't' && "this"@.last() == 's' && "this"@[1] == 'h');
    assert("interface"@.len() == 9 && "interface"@[0] == 'i' && "interface"@.last() == 'e' && "interface"@[1] == 'n');
    assert("extends"@.len() == 7 && "extends"@[0] == 'e' && "extends"@.last() == 's' && "extends"@[1] == 'x');
}

proof fn lemma_throwables_1()
    ensures
        is_common("Throwable"@) && "Throwable"@.len() == 9 && "Throwable"@[0] == 'T',
        is_common("Error"@) && "Error"@.len() == 5 && "Error"@[0] == 'E',
        is_common("Exception"@) && "Exception"@.len() == 9 && "Exception"@[0] == 'E',
        is_common("RuntimeException"@) && "RuntimeException"@.len() == 16 && "RuntimeException"@[0] == 'R',
        is_common("IllegalArgumentException"@) && "IllegalArgumentException"@.len() == 24 && "IllegalArgumentException"@[0] == 'I',
        is_common("NumberFormatException"@) && "NumberFormatException"@.len() == 21 && "NumberFormatException"@[0] == 'N',
        is_common("IllegalStateException"@) && "IllegalStateException"@.len() == 21 && "IllegalStateException"@[0] == 'I',
{
    lemma_special();
    reveal_strlit("Throwable");
    reveal_strlit("Error");
    reveal_strlit("Exception");
    reveal_strlit("RuntimeException");
    reveal_strlit("IllegalArgumentException");
    reveal_strlit("NumberFormatException");
    reveal_strlit("IllegalStateException");
    assert("Throwable"@.len() == 9 && "Throwable"@[0] == 'T' && "Throwable"@.last() == 'e' && "Throwable"@[1] == 'h');
    assert("Error"@.len() == 5 && "Error"@[0] == 'E' && "Error"@.last() == 'r' && "Error"@[1] == 'r');
    assert("Exception"@.len() == 9 && "Exception"@[0] == 'E' && "Exception"@.last() == 'n' && "Exception"@[1] == 'x');
    assert("RuntimeException"@.len() == 16 && "RuntimeException"@[0] == 'R' && "RuntimeException"@.last() == 'n' && "RuntimeException"@[1] == 'u');
    assert("IllegalArgumentException"@.len() == 24 && "IllegalArgumentException"@[0] == 'I' && "IllegalArgumentException"@.last() == 'n' && "IllegalArgumentException"@[1] == 'l');
    assert("NumberFormatException"@.len() == 21 && "NumberFormatException"@[0] == 'N' && "NumberFormatException"@.last() == 'n' && "NumberFormatException"@[1] == 'u');
    assert("IllegalStateException"@.len() == 21 && "IllegalStateException"@[0] == 'I' && "IllegalStateException"@.last() == 'n' && "IllegalStateException"@[1] == 'l');
}

proof fn lemma_throwables_2()
    ensures
        is_common("ArithmeticException"@) && "ArithmeticException"@.len() == 19 && "ArithmeticException"@[0] == 'A',
        is_common("NullPointerException"@) && "NullPointerException"@.len() == 20 && "NullPointerException"@[0] == 'N',
        is_common("ClassCastException"@) && "ClassCastException"@.len() == 18 && "ClassCastException"@[0] == 'C',
        is_common("UnsupportedOperationException"@) && "UnsupportedOperationException"@.len() == 29 && "UnsupportedOperationException"@[0] == 'U',
        is_common("NegativeArraySizeException"@) && "NegativeArraySizeException"@.len() == 26 && "NegativeArraySizeException"@[0] == 'N',
        is_common("IndexOutOfBoundsException"@) && "IndexOutOfBoundsException"@.len() == 25 && "IndexOutOfBoundsException"@[0] == 'I',
        is_common("ArrayIndexOutOfBoundsException"@) && "ArrayIndexOutOfBoundsException"@.len() == 30 && "ArrayIndexOutOfBoundsException"@[0] == 'A',
{
    lemma_special();
    reveal_strlit("ArithmeticException");
    reveal_strlit("NullPointerException");
    reveal_strlit("ClassCastException");
    reveal_strlit("UnsupportedOperationException");
    reveal_strlit("NegativeArraySizeException");
    reveal_strlit("IndexOutOfBoundsException");
    reveal_strlit("ArrayIndexOutOfBoundsException");
    assert("ArithmeticException"@.len() == 19 && "ArithmeticException"@[0] == 'A' && "ArithmeticException"@.last() == 'n' && "ArithmeticException"@[1] == 'r');
    assert("NullPointerException"@.len() == 20 && "NullPointerException"@[0] == 'N' && "NullPointerException"@.last() == 'n' && "NullPointerException"@[1] == 'u');
    assert("ClassCastException"@.len() == 18 && "ClassCastException"@[0] == 'C' && "ClassCastException"@.last() == 'n' && "ClassCastException"@[1] == 'l');
    assert("UnsupportedOperationException"@.len() == 29 && "UnsupportedOperationException"@[0] == 'U' && "UnsupportedOperationException"@.last() == 'n' && "UnsupportedOperationException"@[1] == 'n');
    assert("NegativeArraySizeException"@.len() == 26 && "NegativeArraySizeException"@[0] == 'N' && "NegativeArraySizeException"@.last() == 'n' && "NegativeArraySizeException"@[1] == 'e');
    assert("IndexOutOfBoundsException"@.len() == 25 && "IndexOutOfBoundsException"@[0] == 'I' && "IndexOutOfBoundsException"@.last() == 'n' && "IndexOutOfBoundsException"@[1] == 'n');
    assert("ArrayIndexOutOfBoundsException"@.len() == 30 && "ArrayIndexOutOfBoundsException"@[0] == 'A' && "ArrayIndexOutOfBoundsException"@.last() == 'n' && "ArrayIndexOutOfBoundsException"@[1] == 'r');
}

proof fn lemma_throwables_3()
    ensures
        is_common("StringIndexOutOfBoundsException"@) && "StringIndexOutOfBoundsException"@.len() == 31 && "StringIndexOutOfBoundsException"@[0] == 'S',
        is_common("PatternSyntaxException"@) && "PatternSyntaxException"@.len() == 22 && "PatternSyntaxException"@[0] == 'P',
        is_common("ConcurrentModificationException"@) && "ConcurrentModificationException"@.len() == 31 && "ConcurrentModificationException"@[0] == 'C',
        is_common("NoSuchElementException"@) && "NoSuchElementException"@.len() == 22 && "NoSuchElementException"@[0] == 'N',
        is_common("IllegalFormatException"@) && "IllegalFormatException"@.len() == 22 && "IllegalFormatException"@[0] == 'I',
        is_common("IllegalFormatConversionException"@) && "IllegalFormatConversionException"@.len() == 32 && "IllegalFormatConversionException"@[0] == 'I',
        is_common("IllegalFormatWidthException"@) && "IllegalFormatWidthException"@.len() == 27 && "IllegalFormatWidthException"@[0] == 'I',
{
    lemma_special();
    reveal_strlit("StringIndexOutOfBoundsException");
    reveal_strlit("PatternSyntaxException");
    reveal_strlit("ConcurrentModificationException");
    reveal_strlit("NoSuchElementException");
    reveal_strlit("IllegalFormatException");
    reveal_strlit("IllegalFormatConversionException");
    reveal_strlit("IllegalFormatWidthException");
    assert("StringIndexOutOfBoundsException"@.len() == 31 && "StringIndexOutOfBoundsException"@[0] == 'S' && "StringIndexOutOfBoundsException"@.last() == 'n' && "StringIndexOutOfBoundsException"@[1] == 't');
    assert("PatternSyntaxException"@.len() == 22 && "PatternSyntaxException"@[0] == 'P' && "PatternSyntaxException"@.last() == 'n' && "PatternSyntaxException"@[1] == 'a');
    assert("ConcurrentModificationException"@.len() == 31 && "ConcurrentModificationException"@[0] == 'C' && "ConcurrentModificationException"@.last() == 'n' && "ConcurrentModificationException"@[1] == 'o');
    assert("NoSuchElementException"@.len() == 22 && "NoSuchElementException"@[0] == 'N' && "NoSuchElementException"@.last() == 'n' && "NoSuchElementException"@[1] == 'o');
    assert("IllegalFormatException"@.len() == 22 && "IllegalFormatException"@[0] == 'I' && "IllegalFormatException"@.last() == 'n' && "IllegalFormatException"@[1] == 'l');
    assert("IllegalFormatConversionException"@.len() == 32 && "IllegalFormatConversionException"@[0] == 'I' && "IllegalFormatConversionException"@.last() == 'n' && "IllegalFormatConversionException"@[1] == 'l');
    assert("IllegalFormatWidthException"@.len() == 27 && "IllegalFormatWidthException"@[0] == 'I' && "IllegalFormatWidthException"@.last() == 'n' && "IllegalFormatWidthException"@[1] == 'l');
}

proof fn lemma_throwables_4()
    ensures
        is_common("IllegalFormatPrecisionException"@) && "IllegalFormatPrecisionException"@.len() == 31 && "IllegalFormatPrecisionException"@[0] == 'I',
        is_common("MissingFormatArgumentException"@) && "MissingFormatArgumentException"@.len() == 30 && "MissingFormatArgumentException"@[0] == 'M',
        is_common("UnknownFormatConversionException"@) && "UnknownFormatConversionException"@.len() == 32 && "UnknownFormatConversionException"@[0] == 'U',
        is_common("FormatFlagsConversionMismatchException"@) && "FormatFlagsConversionMismatchException"@.len() == 38 && "FormatFlagsConversionMismatchException"@[0] == 'F',
        is_common("IllegalFormatFlagsException"@) && "IllegalFormatFlagsException"@.len() == 27 && "IllegalFormatFlagsException"@[0] == 'I',
        is_common("MissingFormatWidthException"@) && "MissingFormatWidthException"@.len() == 27 && "MissingFormatWidthException"@[0] == 'M',
{
    lemma_special();
    reveal_strlit("IllegalFormatPrecisionException");
    reveal_strlit("MissingFormatArgumentException");
    reveal_strlit("UnknownFormatConversionException");
    reveal_strlit("FormatFlagsConversionMismatchException");
    reveal_strlit("IllegalFormatFlagsException");
    reveal_strlit("MissingFormatWidthException");
    assert("IllegalFormatPrecisionException"@.len() == 31 && "IllegalFormatPrecisionException"@[0] == 'I' && "IllegalFormatPrecisionException"@.last() == 'n' && "IllegalFormatPrecisionException"@[1] == 'l');
    assert("MissingFormatArgumentException"@.len() == 30 && "MissingFormatArgumentException"@[0] == 'M' && "MissingFormatArgumentException"@.last() == 'n' && "MissingFormatArgumentException"@[1] == 'i');
    assert("UnknownFormatConversionException"@.len() == 32 && "UnknownFormatConversionException"@[0] == 'U' && "UnknownFormatConversionException"@.last() == 'n' && "UnknownFormatConversionException"@[1] == 'n');
    assert("FormatFlagsConversionMismatchException"@.len() == 38 && "FormatFlagsConversionMismatchException"@[0] == 'F' && "FormatFlagsConversionMismatchException"@.last() == 'n' && "FormatFlagsConversionMismatchException"@[1] == 'o');
    assert("IllegalFormatFlagsException"@.len() == 27 && "IllegalFormatFlagsException"@[0] == 'I' && "IllegalFormatFlagsException"@.last() == 'n' && "IllegalFormatFlagsException"@[1] == 'l');
    assert("MissingFormatWidthException"@.len() == 27 && "MissingFormatWidthException"@[0] == 'M' && "MissingFormatWidthException"@.last() == 'n' && "MissingFormatWidthException"@[1] == 'i');
}

/// The throwables are names, and so are the superclasses they have.
pub proof fn throwable_names_are_known(k: int)
    requires
        0 <= k < throwables().len(),
    ensures
        is_common(throwables()[k].0),
        throwables()[k].0[0] != '_',
        throwables()[k].1.len() == 0 || is_common(throwables()[k].1),
        throwables()[k].1.len() == 0 ==> throwables()[k].1 == ""@,
{
    lemma_throwables_1();
    lemma_throwables_2();
    lemma_throwables_3();
    lemma_throwables_4();
    reveal_strlit("");
    let rows = throwables();
    assert(rows.len() == 27);
    assert(rows[0] == ("Throwable"@, ""@));
    assert(rows[1] == ("Error"@, "Throwable"@));
    assert(rows[2] == ("Exception"@, "Throwable"@));
    assert(rows[3] == ("RuntimeException"@, "Exception"@));
    assert(rows[4] == ("IllegalArgumentException"@, "RuntimeException"@));
    assert(rows[5] == ("NumberFormatException"@, "IllegalArgumentException"@));
    assert(rows[6] == ("IllegalStateException"@, "RuntimeException"@));
    assert(rows[7] == ("ArithmeticException"@, "RuntimeException"@));
    assert(rows[8] == ("NullPointerException"@, "RuntimeException"@));
    assert(rows[9] == ("ClassCastException"@, "RuntimeException"@));
    assert(rows[10] == ("UnsupportedOperationException"@, "RuntimeException"@));
    assert(rows[11] == ("NegativeArraySizeException"@, "RuntimeException"@));
    assert(rows[12] == ("IndexOutOfBoundsException"@, "RuntimeException"@));
    assert(rows[13] == ("ArrayIndexOutOfBoundsException"@, "IndexOutOfBoundsException"@));
    assert(rows[14] == ("StringIndexOutOfBoundsException"@, "IndexOutOfBoundsException"@));
    assert(rows[15] == ("PatternSyntaxException"@, "IllegalArgumentException"@));
    assert(rows[16] == ("ConcurrentModificationException"@, "RuntimeException"@));
    assert(rows[17] == ("NoSuchElementException"@, "RuntimeException"@));
    assert(rows[18] == ("IllegalFormatException"@, "IllegalArgumentException"@));
    assert(rows[19] == ("IllegalFormatConversionException"@, "IllegalFormatException"@));
    assert(rows[20] == ("IllegalFormatWidthException"@, "IllegalFormatException"@));
    assert(rows[21] == ("IllegalFormatPrecisionException"@, "IllegalFormatException"@));
    assert(rows[22] == ("MissingFormatArgumentException"@, "IllegalFormatException"@));
    assert(rows[23] == ("UnknownFormatConversionException"@, "IllegalFormatException"@));
    assert(rows[24] == ("FormatFlagsConversionMismatchException"@, "IllegalFormatException"@));
    assert(rows[25] == ("IllegalFormatFlagsException"@, "IllegalFormatException"@));
    assert(rows[26] == ("MissingFormatWidthException"@, "IllegalFormatException"@));
}

} // verus!
