//! What injecting the prelude does to a program: it never fails, adds the types
//! that are missing, and a second time adds nothing.
use vstd::prelude::*;

mod defaults;
mod interfaces;
pub mod reading;
mod spelling;
mod throwables;
mod vocabulary;

use crate::ast::{ClassV, ProgramV, StmtV};
use crate::injection::interfaces::{
    bi_consumer_row, bi_function_row, bi_predicate_row, binary_operator_row, callable_row,
    comparator_row, consumer_row, declares_bi_consumer, declares_bi_function,
    declares_bi_predicate, declares_binary_operator, declares_callable, declares_comparator,
    declares_consumer, declares_function, declares_int_binary_operator, declares_int_consumer,
    declares_int_predicate, declares_int_supplier, declares_int_unary_operator,
    declares_predicate, declares_runnable, declares_supplier, declares_to_double_function,
    declares_to_int_function, declares_unary_operator, function_row, int_binary_operator_row,
    int_consumer_row, int_predicate_row, int_supplier_row, int_unary_operator_row,
    lexes_bi_consumer_row, lexes_bi_function_row, lexes_bi_predicate_row,
    lexes_binary_operator_row, lexes_callable_row, lexes_comparator_row, lexes_consumer_row,
    lexes_function_row, lexes_int_binary_operator_row, lexes_int_consumer_row,
    lexes_int_predicate_row, lexes_int_supplier_row, lexes_int_unary_operator_row,
    lexes_predicate_row, lexes_runnable_row, lexes_supplier_row, lexes_to_double_function_row,
    lexes_to_int_function_row, lexes_unary_operator_row, predicate_row, runnable_row,
    supplier_row, to_double_function_row, to_int_function_row, unary_operator_row,
};
use crate::injection::reading::{declares_class, is_at};
use crate::injection::spelling::{lexes_end, name_tok, rest, sign_tok, spells, spells_both};
use crate::injection::throwables::{
    declares_derived, declares_root, derived_row, entry_body_tokens, entry_front_tokens,
    entry_row, lexes_derived_row, lexes_entry_row, lexes_root_row, root_row,
};
use crate::injection::vocabulary::throwable_names_are_known;
use crate::lexer::{Tok, TokenV, in_word, next_line, tokens_of, word_kind};
use crate::parser::parsed;
use crate::parser::classes::{
    HeaderV, UnitV, after_prologue, class_decl, class_header, class_made, classes_rest, member,
    members_rest, no_body, no_unit,
};
use crate::parser::grammar::{Rule, applied, block, block_rest_rule, block_rule, by_the_rule};
use crate::parser::members::{Slot, after_modifiers, main_ahead, main_method};
use crate::parser::names::{brackets, declarator, declared_type, param, params, simple_type};
use crate::parser::tokens::{Place, kind_at, moved};
use crate::prelude::{
    functional, functionals, injected, interface_source, interface_sources, kept_classes,
    kept_methods, merged, merged_source, names_declared, synthetic, throwable_source,
    throwable_sources, throwables, with_throwables,
};
use crate::text::listed;

verus! {

/// The entry class that the source of a prelude starts with.
pub open spec fn header(name: Seq<char>) -> Seq<char> {
    "public class "@ + name + " { public static void main(String[] a) { } }\n"@
}

/// Whether a name is one that an entry class of the prelude can have.
pub open spec fn entry_name(name: Seq<char>) -> bool {
    name.len() > 2 && name[0] == '_' && name[1] == '_' && forall|i: int|
        0 <= i < name.len() ==> in_word(#[trigger] name[i])
}

/// No reserved word starts with an underscore.
proof fn lemma_not_reserved(name: Seq<char>)
    requires
        entry_name(name),
    ensures
        word_kind(name) == Tok::Ident,
{
    reveal_strlit("class");
    assert("class"@[0] == 'c');
    reveal_strlit("public");
    assert("public"@[0] == 'p');
    reveal_strlit("static");
    assert("static"@[0] == 's');
    reveal_strlit("void");
    assert("void"@[0] == 'v');
    reveal_strlit("if");
    assert("if"@[0] == 'i');
    reveal_strlit("else");
    assert("else"@[0] == 'e');
    reveal_strlit("while");
    assert("while"@[0] == 'w');
    reveal_strlit("for");
    assert("for"@[0] == 'f');
    reveal_strlit("do");
    assert("do"@[0] == 'd');
    reveal_strlit("switch");
    assert("switch"@[0] == 's');
    reveal_strlit("case");
    assert("case"@[0] == 'c');
    reveal_strlit("default");
    assert("default"@[0] == 'd');
    reveal_strlit("return");
    assert("return"@[0] == 'r');
    reveal_strlit("break");
    assert("break"@[0] == 'b');
    reveal_strlit("continue");
    assert("continue"@[0] == 'c');
    reveal_strlit("true");
    assert("true"@[0] == 't');
    reveal_strlit("false");
    assert("false"@[0] == 'f');
    reveal_strlit("new");
    assert("new"@[0] == 'n');
}

/// Whether tokens start with those of an entry class.
spec fn starts_with_entry(t: Seq<TokenV>, name: Seq<char>) -> bool {
    &&& t.len() > 17
    &&& t[0].kind == Tok::Public
    &&& t[1].kind == Tok::Class
    &&& t[2].kind == Tok::Ident && t[2].text == name
    &&& t[3].kind == Tok::LBrace
    &&& t[4].kind == Tok::Public
    &&& t[5].kind == Tok::Static
    &&& t[6].kind == Tok::Void
    &&& t[7].kind == Tok::Ident && t[7].text == "main"@
    &&& t[8].kind == Tok::LParen
    &&& t[9].kind == Tok::Ident && t[9].text == "String"@
    &&& t[10].kind == Tok::LBracket
    &&& t[11].kind == Tok::RBracket
    &&& t[12].kind == Tok::Ident
    &&& t[13].kind == Tok::RParen
    &&& t[14].kind == Tok::LBrace
    &&& t[15].kind == Tok::RBrace
    &&& t[16].kind == Tok::RBrace
}

/// A place of the tokens with nothing wrong.
spec fn place(i: int) -> Place {
    Place { pos: i, exc: false, fun: false, depth: 0, err: None }
}

/// The body of the entry point is empty.
proof fn lemma_empty_body(t: Seq<TokenV>, i: int)
    requires
        0 <= i < t.len() - 1,
        t[i].kind == Tok::RBrace,
    ensures
        block(t, place(i)) == (Seq::<StmtV>::empty(), place(i + 1)),
{
    by_the_rule(t, Rule::Block, place(i));
    by_the_rule(t, Rule::BlockRest(seq![]), place(i));
    reveal(applied);
    reveal(block_rule);
    reveal(block_rest_rule);
}

proof fn lemma_header_class(t: Seq<TokenV>, name: Seq<char>)
    requires
        starts_with_entry(t, name),
    ensures
        ({
            let (h, s) = class_header(t, place(0), None);
            &&& h.name == name
            &&& !h.is_enum
            &&& !h.is_record
            &&& s == place(4)
        }),
{
    reveal(class_header);
    assert(after_modifiers(t, 1, Slot::Class) == 1);
    assert(after_modifiers(t, 0, Slot::Class) == 1);
}

proof fn lemma_main(t: Seq<TokenV>, name: Seq<char>, h: HeaderV, u: UnitV)
    requires
        starts_with_entry(t, name),
        u == no_unit(),
    ensures
        ({
            let ((b, u2), s) = members_rest(t, place(4), h, no_body(), u);
            &&& b == no_body()
            &&& u2.entry is Some
            &&& u2.methods.len() == 0
            &&& u2.classes.len() == 0
            &&& s == place(17)
        }),
{
    reveal(main_method);
    assert(after_modifiers(t, 6, Slot::Main) == 6);
    assert(after_modifiers(t, 5, Slot::Main) == 6);
    assert(after_modifiers(t, 4, Slot::Main) == 6);
    assert(kind_at(t, 5) == Tok::Static);
    assert(main_ahead(t, 4));
    lemma_params(t, name);
    lemma_empty_body(t, 15);
    let made = member(t, place(4), h, no_body(), u);
    assert(made.1 == place(16));
    assert(members_rest(t, place(16), h, no_body(), made.0.1).1 == place(17));
}

proof fn lemma_not_functional()
    ensures
        !functional("String"@),
{
    reveal_strlit("String");
    let f = functionals();
    reveal_strlit("Runnable");
    assert(f[0].0.len() == 8);
    reveal_strlit("Callable");
    assert(f[1].0.len() == 8);
    reveal_strlit("Supplier");
    assert(f[2].0.len() == 8);
    reveal_strlit("Consumer");
    assert(f[3].0.len() == 8);
    reveal_strlit("BiConsumer");
    assert(f[4].0.len() == 10);
    reveal_strlit("Function");
    assert(f[5].0.len() == 8);
    reveal_strlit("BiFunction");
    assert(f[6].0.len() == 10);
    reveal_strlit("UnaryOperator");
    assert(f[7].0.len() == 13);
    reveal_strlit("BinaryOperator");
    assert(f[8].0.len() == 14);
    reveal_strlit("Predicate");
    assert(f[9].0.len() == 9);
    reveal_strlit("BiPredicate");
    assert(f[10].0.len() == 11);
    reveal_strlit("Comparator");
    assert(f[11].0.len() == 10);
    reveal_strlit("IntSupplier");
    assert(f[12].0.len() == 11);
    reveal_strlit("IntPredicate");
    assert(f[13].0.len() == 12);
    reveal_strlit("IntConsumer");
    assert(f[14].0.len() == 11);
    reveal_strlit("IntUnaryOperator");
    assert(f[15].0.len() == 16);
    reveal_strlit("IntBinaryOperator");
    assert(f[16].0.len() == 17);
    reveal_strlit("ToIntFunction");
    assert(f[17].0.len() == 13);
    reveal_strlit("ToDoubleFunction");
    assert(f[18].0.len() == 16);
    assert forall|i: int| 0 <= i < f.len() implies (#[trigger] f[i]).0 != "String"@ by {
        assert(f.len() == 19);
    }
}

proof fn lemma_params(t: Seq<TokenV>, name: Seq<char>)
    requires
        starts_with_entry(t, name),
    ensures
        params(t, place(9)).1 == place(13),
{
    lemma_not_functional();
    assert(simple_type(t, place(9)) == ("String"@, place(10)));
    assert(brackets(t, "String"@ + "[]"@, place(12)) == ("String"@ + "[]"@, place(12)));
    assert(brackets(t, "String"@, place(10)) == ("String"@ + "[]"@, place(12)));
    assert(declared_type(t, place(9)) == ("String"@ + "[]"@, place(12)));
    assert(declarator(t, place(12), "String"@ + "[]"@).1 == place(13));
    assert(param(t, place(9)).1 == place(13));
}

/// The entry class is read as one with nothing but an empty entry point.
proof fn lemma_header_read(t: Seq<TokenV>, name: Seq<char>) -> (u: UnitV)
    requires
        starts_with_entry(t, name),
    ensures
        classes_rest(t, place(0), no_unit()) == classes_rest(t, place(17), u),
        u.entry is Some,
        u.methods.len() == 0,
        u.classes.len() == 1,
        u.classes[0].name == name,
{
    let u = no_unit();
    lemma_header_class(t, name);
    let (h, s) = class_header(t, place(0), None);
    lemma_main(t, name, h, u);
    lemma_empty_body(t, 15);
    reveal(class_made);
    let ((b, u2), s3) = members_rest(t, place(4), h, no_body(), UnitV { classes: seq![], ..u });
    assert(UnitV { classes: seq![], ..u } == u);
    assert(class_decl(t, place(0), None, u) == (
        UnitV { classes: u2.classes.push(class_made(h, seq![], no_body())), ..u2 },
        place(17),
    ));
    UnitV { classes: u2.classes.push(class_made(h, seq![], no_body())), ..u2 }
}

// ── The rows of the two tables ──────────────────────────────────────────────

/// How many types a table has: the functional interfaces, or the throwables.
pub open spec fn row_count(functional: bool) -> int {
    if functional {
        functionals().len() as int
    } else {
        throwables().len() as int
    }
}

/// The name of a type in a table.
pub open spec fn row_name(functional: bool, k: int) -> Seq<char> {
    if functional {
        functionals()[k].0
    } else {
        throwables()[k].0
    }
}

/// The superclass of a type in a table, where it has one.
pub open spec fn row_superclass(functional: bool, k: int) -> Option<Seq<char>> {
    if functional || throwables()[k].1.len() == 0 {
        None
    } else {
        Some(throwables()[k].1)
    }
}

/// Whether a class is a plain one, or an interface, with this name and this
/// superclass and without interfaces of its own.
pub open spec fn is_plain_type(
    c: ClassV,
    name: Seq<char>,
    sup: Option<Seq<char>>,
    is_interface: bool,
) -> bool {
    c.name == name && c.superclass == sup && c.interfaces.len() == 0 && c.is_interface
        == is_interface && !c.is_enum && !c.is_record
}

/// Whether a class is a type of a table: an interface, or a throwable with its
/// superclass.
pub open spec fn is_row(functional: bool, c: ClassV) -> bool {
    exists|k: int|
        0 <= k < row_count(functional) && #[trigger] is_plain_type(
            c,
            row_name(functional, k),
            row_superclass(functional, k),
            functional,
        )
}

spec fn row_source(functional: bool, k: int) -> Seq<char> {
    if functional {
        interface_source(functionals()[k].0, functionals()[k].1, functionals()[k].2)
    } else {
        throwable_source(throwables()[k].0, throwables()[k].1)
    }
}

spec fn interface_row(k: int, l: int) -> Seq<TokenV> {
    if k == 0 {
        runnable_row(l)
    } else if k == 1 {
        callable_row(l)
    } else if k == 2 {
        supplier_row(l)
    } else if k == 3 {
        consumer_row(l)
    } else if k == 4 {
        bi_consumer_row(l)
    } else if k == 5 {
        function_row(l)
    } else if k == 6 {
        bi_function_row(l)
    } else if k == 7 {
        unary_operator_row(l)
    } else if k == 8 {
        binary_operator_row(l)
    } else if k == 9 {
        predicate_row(l)
    } else if k == 10 {
        bi_predicate_row(l)
    } else if k == 11 {
        comparator_row(l)
    } else if k == 12 {
        int_supplier_row(l)
    } else if k == 13 {
        int_predicate_row(l)
    } else if k == 14 {
        int_consumer_row(l)
    } else if k == 15 {
        int_unary_operator_row(l)
    } else if k == 16 {
        int_binary_operator_row(l)
    } else if k == 17 {
        to_int_function_row(l)
    } else {
        to_double_function_row(l)
    }
}

spec fn row_tokens(functional: bool, k: int, l: int) -> Seq<TokenV> {
    if functional {
        interface_row(k, l)
    } else if throwables()[k].1.len() == 0 {
        root_row(throwables()[k].0, l)
    } else {
        derived_row(throwables()[k].0, throwables()[k].1, l)
    }
}

/// The line behind a type that starts on a line.
spec fn row_end(functional: bool, k: int, l: int) -> int {
    let after = next_line(l);
    if functional {
        after
    } else {
        let later = next_line(next_line(next_line(after)));
        if throwables()[k].1.len() == 0 {
            next_line(next_line(next_line(next_line(later))))
        } else {
            later
        }
    }
}

proof fn lemma_row_lexed(
    functional: bool,
    k: int,
    s: Seq<char>,
    b: int,
    l: int,
    done: Seq<TokenV>,
)
    requires
        0 <= k < row_count(functional),
        spells(s, b, row_source(functional, k)),
    ensures
        rest(s, b, l, done) == rest(
            s,
            b + row_source(functional, k).len(),
            row_end(functional, k, l),
            done + row_tokens(functional, k, l),
        ),
{
    if functional {
        if k == 0 {
            lexes_runnable_row(s, b, l, done);
        } else if k == 1 {
            lexes_callable_row(s, b, l, done);
        } else if k == 2 {
            lexes_supplier_row(s, b, l, done);
        } else if k == 3 {
            lexes_consumer_row(s, b, l, done);
        } else if k == 4 {
            lexes_bi_consumer_row(s, b, l, done);
        } else if k == 5 {
            lexes_function_row(s, b, l, done);
        } else if k == 6 {
            lexes_bi_function_row(s, b, l, done);
        } else if k == 7 {
            lexes_unary_operator_row(s, b, l, done);
        } else if k == 8 {
            lexes_binary_operator_row(s, b, l, done);
        } else if k == 9 {
            lexes_predicate_row(s, b, l, done);
        } else if k == 10 {
            lexes_bi_predicate_row(s, b, l, done);
        } else if k == 11 {
            lexes_comparator_row(s, b, l, done);
        } else if k == 12 {
            lexes_int_supplier_row(s, b, l, done);
        } else if k == 13 {
            lexes_int_predicate_row(s, b, l, done);
        } else if k == 14 {
            lexes_int_consumer_row(s, b, l, done);
        } else if k == 15 {
            lexes_int_unary_operator_row(s, b, l, done);
        } else if k == 16 {
            lexes_int_binary_operator_row(s, b, l, done);
        } else if k == 17 {
            lexes_to_int_function_row(s, b, l, done);
        } else {
            lexes_to_double_function_row(s, b, l, done);
        }
    } else {
        throwable_names_are_known(k);
        if throwables()[k].1.len() == 0 {
            lexes_root_row(throwables()[k].0, s, b, l, done);
        } else {
            lexes_derived_row(throwables()[k].0, throwables()[k].1, s, b, l, done);
        }
    }
}

proof fn lemma_row_read(functional: bool, k: int, t: Seq<TokenV>, p: int, l: int)
    requires
        0 <= k < row_count(functional),
        0 <= p,
        p + row_tokens(functional, k, l).len() < t.len(),
        t.subrange(p, p + row_tokens(functional, k, l).len()) == row_tokens(functional, k, l),
    ensures
        declares_class(
            t,
            row_name(functional, k),
            row_superclass(functional, k),
            functional,
            p,
            p + row_tokens(functional, k, l).len(),
        ),
        t[p].kind != Tok::Eof,
{
    if functional {
        if k == 0 {
            declares_runnable(t, p, l);
        } else if k == 1 {
            declares_callable(t, p, l);
        } else if k == 2 {
            declares_supplier(t, p, l);
        } else if k == 3 {
            declares_consumer(t, p, l);
        } else if k == 4 {
            declares_bi_consumer(t, p, l);
        } else if k == 5 {
            declares_function(t, p, l);
        } else if k == 6 {
            declares_bi_function(t, p, l);
        } else if k == 7 {
            declares_unary_operator(t, p, l);
        } else if k == 8 {
            declares_binary_operator(t, p, l);
        } else if k == 9 {
            declares_predicate(t, p, l);
        } else if k == 10 {
            declares_bi_predicate(t, p, l);
        } else if k == 11 {
            declares_comparator(t, p, l);
        } else if k == 12 {
            declares_int_supplier(t, p, l);
        } else if k == 13 {
            declares_int_predicate(t, p, l);
        } else if k == 14 {
            declares_int_consumer(t, p, l);
        } else if k == 15 {
            declares_int_unary_operator(t, p, l);
        } else if k == 16 {
            declares_int_binary_operator(t, p, l);
        } else if k == 17 {
            declares_to_int_function(t, p, l);
        } else {
            declares_to_double_function(t, p, l);
        }
    } else {
        throwable_names_are_known(k);
        if throwables()[k].1.len() == 0 {
            declares_root(throwables()[k].0, t, p, l);
        } else {
            declares_derived(throwables()[k].0, throwables()[k].1, t, p, l);
        }
    }
}

/// No type of the prelude is synthetic.
proof fn lemma_row_named(functional: bool, k: int)
    requires
        0 <= k < row_count(functional),
    ensures
        !synthetic(row_name(functional, k)),
{
    reveal_strlit("__");
    assert("__"@[0] == '_');
    if functional {
        let f = functionals();
        assert(f.len() == 19);
        reveal_strlit("Runnable");
        assert(f[0].0[0] == 'R');
        reveal_strlit("Callable");
        assert(f[1].0[0] == 'C');
        reveal_strlit("Supplier");
        assert(f[2].0[0] == 'S');
        reveal_strlit("Consumer");
        assert(f[3].0[0] == 'C');
        reveal_strlit("BiConsumer");
        assert(f[4].0[0] == 'B');
        reveal_strlit("Function");
        assert(f[5].0[0] == 'F');
        reveal_strlit("BiFunction");
        assert(f[6].0[0] == 'B');
        reveal_strlit("UnaryOperator");
        assert(f[7].0[0] == 'U');
        reveal_strlit("BinaryOperator");
        assert(f[8].0[0] == 'B');
        reveal_strlit("Predicate");
        assert(f[9].0[0] == 'P');
        reveal_strlit("BiPredicate");
        assert(f[10].0[0] == 'B');
        reveal_strlit("Comparator");
        assert(f[11].0[0] == 'C');
        reveal_strlit("IntSupplier");
        assert(f[12].0[0] == 'I');
        reveal_strlit("IntPredicate");
        assert(f[13].0[0] == 'I');
        reveal_strlit("IntConsumer");
        assert(f[14].0[0] == 'I');
        reveal_strlit("IntUnaryOperator");
        assert(f[15].0[0] == 'I');
        reveal_strlit("IntBinaryOperator");
        assert(f[16].0[0] == 'I');
        reveal_strlit("ToIntFunction");
        assert(f[17].0[0] == 'T');
        reveal_strlit("ToDoubleFunction");
        assert(f[18].0[0] == 'T');
    } else {
        throwable_names_are_known(k);
    }
}

// ── The sources ─────────────────────────────────────────────────────────────

/// The name of the entry class of a source.
spec fn entry_of(functional: bool) -> Seq<char> {
    if functional {
        "__JavaUtilFunction"@
    } else {
        "__JavaLang"@
    }
}

/// The source of the first `n` types of a table that are not declared.
spec fn sources(functional: bool, declared: Seq<Seq<char>>, n: int) -> Seq<char> {
    if functional {
        interface_sources(declared, n)
    } else {
        throwable_sources(declared, n)
    }
}

/// The names of the first `n` types of a table that are not declared.
pub open spec fn missing(functional: bool, declared: Seq<Seq<char>>, n: int) -> Seq<Seq<char>>
    decreases n,
{
    if n <= 0 {
        seq![]
    } else if listed(declared, row_name(functional, n - 1)) {
        missing(functional, declared, n - 1)
    } else {
        missing(functional, declared, n - 1).push(row_name(functional, n - 1))
    }
}

/// The line behind the source of the first `n` types.
spec fn line_behind(functional: bool, declared: Seq<Seq<char>>, n: int) -> int
    decreases n,
{
    if n <= 0 {
        next_line(1)
    } else if listed(declared, row_name(functional, n - 1)) {
        line_behind(functional, declared, n - 1)
    } else {
        row_end(functional, n - 1, line_behind(functional, declared, n - 1))
    }
}

/// The tokens of the source of the first `n` types.
spec fn tokens_upto(functional: bool, declared: Seq<Seq<char>>, n: int) -> Seq<TokenV>
    decreases n,
{
    if n <= 0 {
        entry_row(entry_of(functional), 1)
    } else if listed(declared, row_name(functional, n - 1)) {
        tokens_upto(functional, declared, n - 1)
    } else {
        tokens_upto(functional, declared, n - 1) + row_tokens(
            functional,
            n - 1,
            line_behind(functional, declared, n - 1),
        )
    }
}

proof fn lemma_entry(functional: bool, declared: Seq<Seq<char>>)
    ensures
        sources(functional, declared, 0) == header(entry_of(functional)),
        entry_name(entry_of(functional)),
        synthetic(entry_of(functional)),
{
    reveal_strlit("public class __JavaLang { public static void main(String[] a) { } }\n");
    reveal_strlit("public class __JavaUtilFunction { public static void main(String[] a) { } }\n");
    reveal_strlit("public class ");
    reveal_strlit("__JavaLang");
    reveal_strlit("__JavaUtilFunction");
    reveal_strlit(" { public static void main(String[] a) { } }\n");
    assert("public class __JavaLang { public static void main(String[] a) { } }\n"@ =~= header("__JavaLang"@));
    assert("public class __JavaUtilFunction { public static void main(String[] a) { } }\n"@ =~= header("__JavaUtilFunction"@));
    reveal_strlit("__");
    assert("__"@ =~= "__JavaLang"@.take(2));
    assert("__"@ =~= "__JavaUtilFunction"@.take(2));
}

/// The source of the first `n` types is lexed as their tokens.
proof fn lemma_sources_lexed(functional: bool, declared: Seq<Seq<char>>, n: int, s: Seq<char>)
    requires
        0 <= n <= row_count(functional),
        spells(s, 0, sources(functional, declared, n)),
    ensures
        rest(s, 0, 1, seq![]) == rest(
            s,
            sources(functional, declared, n).len() as int,
            line_behind(functional, declared, n),
            tokens_upto(functional, declared, n),
        ),
    decreases n,
{
    if n == 0 {
        lemma_entry(functional, declared);
        lemma_not_reserved(entry_of(functional));
        lexes_entry_row(entry_of(functional), s, 0, 1, seq![]);
        assert(Seq::<TokenV>::empty() + entry_row(entry_of(functional), 1) =~= entry_row(
            entry_of(functional),
            1,
        ));
    } else {
        let before = sources(functional, declared, n - 1);
        if listed(declared, row_name(functional, n - 1)) {
            assert(sources(functional, declared, n) == before);
            lemma_sources_lexed(functional, declared, n - 1, s);
        } else {
            assert(sources(functional, declared, n) == before + row_source(functional, n - 1));
            spells_both(s, 0, before, row_source(functional, n - 1));
            lemma_sources_lexed(functional, declared, n - 1, s);
            lemma_row_lexed(
                functional,
                n - 1,
                s,
                before.len() as int,
                line_behind(functional, declared, n - 1),
                tokens_upto(functional, declared, n - 1),
            );
        }
    }
}

/// Whether the types that were read are an entry class and the given ones.
spec fn holds_types(functional: bool, u: UnitV, entry: Seq<char>, names: Seq<Seq<char>>) -> bool {
    &&& u.entry is Some
    &&& u.classes.len() == names.len() + 1
    &&& u.classes[0].name == entry
    &&& forall|i: int| 0 <= i < names.len() ==> #[trigger] u.classes[i + 1].name == names[i]
    &&& forall|i: int| 1 <= i < u.classes.len() ==> is_row(functional, #[trigger] u.classes[i])
    &&& names.len() == 0 ==> u.methods.len() == 0
}

/// The tokens of the first `n` types are read as these types.
proof fn lemma_sources_read(
    functional: bool,
    declared: Seq<Seq<char>>,
    n: int,
    t: Seq<TokenV>,
) -> (r: (UnitV, Place))
    requires
        0 <= n <= row_count(functional),
        tokens_upto(functional, declared, n).len() < t.len(),
        t.take(tokens_upto(functional, declared, n).len() as int) == tokens_upto(
            functional,
            declared,
            n,
        ),
    ensures
        classes_rest(t, place(0), no_unit()) == classes_rest(t, r.1, r.0),
        is_at(r.1, tokens_upto(functional, declared, n).len() as int),
        holds_types(functional, r.0, entry_of(functional), missing(functional, declared, n)),
    decreases n,
{
    let w = tokens_upto(functional, declared, n);
    if n == 0 {
        let name = entry_of(functional);
        lemma_entry_tokens(t, name);
        let u = lemma_header_read(t, name);
        (u, place(17))
    } else if listed(declared, row_name(functional, n - 1)) {
        lemma_sources_read(functional, declared, n - 1, t)
    } else {
        let before = tokens_upto(functional, declared, n - 1);
        let l = line_behind(functional, declared, n - 1);
        let row = row_tokens(functional, n - 1, l);
        let p = before.len() as int;
        assert(t.take(p) =~= before) by {
            assert forall|k: int| 0 <= k < p implies t[k] == before[k] by {
                assert(t.take(w.len() as int)[k] == w[k]);
            }
        }
        assert(t.subrange(p, p + row.len()) =~= row) by {
            assert forall|k: int| 0 <= k < row.len() implies t[p + k] == row[k] by {
                assert(t.take(w.len() as int)[p + k] == w[p + k]);
            }
        }
        let (u, st) = lemma_sources_read(functional, declared, n - 1, t);
        lemma_row_read(functional, n - 1, t, p, l);
        reveal(declares_class);
        let (u2, s) = class_decl(t, st, None, u);
        assert(is_at(s, p + row.len()));
        assert(moved(t, st, s) == s);
        let names = missing(functional, declared, n - 1);
        assert forall|i: int| 0 <= i < names.len() + 1 implies #[trigger] u2.classes[i + 1].name
            == missing(functional, declared, n)[i] by {
            if i < names.len() {
                assert(u2.classes.drop_last()[i + 1] == u.classes[i + 1]);
            }
        }
        assert(u2.classes.drop_last()[0] == u.classes[0]);
        assert forall|i: int| 1 <= i < u2.classes.len() implies is_row(
            functional,
            #[trigger] u2.classes[i],
        ) by {
            if i < u.classes.len() {
                assert(u2.classes.drop_last()[i] == u.classes[i]);
            } else {
                assert(is_plain_type(
                    u2.classes[i],
                    row_name(functional, n - 1),
                    row_superclass(functional, n - 1),
                    functional,
                ));
            }
        }
        (u2, s)
    }
}

proof fn lemma_entry_tokens(t: Seq<TokenV>, name: Seq<char>)
    requires
        t.len() > entry_row(name, 1).len(),
        t.take(entry_row(name, 1).len() as int) == entry_row(name, 1),
    ensures
        starts_with_entry(t, name),
        entry_row(name, 1).len() == 17,
{
    let w = entry_row(name, 1);
    assert(entry_front_tokens(1).len() == 2);
    assert(entry_body_tokens(1).len() == 14);
    assert(w.len() == 17);
    assert forall|k: int| 0 <= k < 17 implies t[k] == #[trigger] w[k] by {
        assert(t.take(17)[k] == w[k]);
    }
    assert(t[0] == w[0] && w[0] == entry_front_tokens(1)[0]);
    assert(t[1] == w[1] && w[1] == entry_front_tokens(1)[1]);
    assert(t[2] == w[2] && w[2] == name_tok(name, 1));
    assert(t[3] == w[3] && w[3] == entry_body_tokens(1)[0]);
    assert(t[4] == w[4] && w[4] == entry_body_tokens(1)[1]);
    assert(t[5] == w[5] && w[5] == entry_body_tokens(1)[2]);
    assert(t[6] == w[6] && w[6] == entry_body_tokens(1)[3]);
    assert(t[7] == w[7] && w[7] == entry_body_tokens(1)[4]);
    assert(t[8] == w[8] && w[8] == entry_body_tokens(1)[5]);
    assert(t[9] == w[9] && w[9] == entry_body_tokens(1)[6]);
    assert(t[10] == w[10] && w[10] == entry_body_tokens(1)[7]);
    assert(t[11] == w[11] && w[11] == entry_body_tokens(1)[8]);
    assert(t[12] == w[12] && w[12] == entry_body_tokens(1)[9]);
    assert(t[13] == w[13] && w[13] == entry_body_tokens(1)[10]);
    assert(t[14] == w[14] && w[14] == entry_body_tokens(1)[11]);
    assert(t[15] == w[15] && w[15] == entry_body_tokens(1)[12]);
    assert(t[16] == w[16] && w[16] == entry_body_tokens(1)[13]);
}

/// The source of what is missing is parsed as an entry class and these types.
proof fn lemma_sources_parsed(functional: bool, declared: Seq<Seq<char>>)
    ensures
        parsed(sources(functional, declared, row_count(functional))) matches Ok(q) && {
            let names = missing(functional, declared, row_count(functional));
            &&& q.classes.len() == names.len() + 1
            &&& q.classes[0].name == entry_of(functional)
            &&& forall|i: int| 0 <= i < names.len() ==> #[trigger] q.classes[i + 1].name == names[i]
            &&& forall|i: int| 1 <= i < q.classes.len() ==> is_row(
                functional,
                #[trigger] q.classes[i],
            )
            &&& names.len() == 0 ==> q.methods.len() == 0
        },
{
    let n = row_count(functional);
    let s = sources(functional, declared, n);
    let w = tokens_upto(functional, declared, n);
    let l = line_behind(functional, declared, n);
    assert(s.subrange(0, s.len() as int) =~= s);
    lemma_sources_lexed(functional, declared, n, s);
    lexes_end(s, l, w);
    let t = w.push(sign_tok(Tok::Eof, l));
    assert(tokens_of(s) == Ok::<Seq<TokenV>, Seq<char>>(t)) by {
        reveal(rest);
    }
    assert(t.take(w.len() as int) =~= w);
    let (u, st) = lemma_sources_read(functional, declared, n, t);
    assert(classes_rest(t, st, u) == (u, st));
    lemma_first_token(functional, declared, n);
    assert(t[0] == w[0]);
    assert(after_prologue(t, place(0)) == place(0));
}

proof fn lemma_first_token(functional: bool, declared: Seq<Seq<char>>, n: int)
    ensures
        tokens_upto(functional, declared, n).len() > 0,
        tokens_upto(functional, declared, n)[0].kind == Tok::Public,
    decreases n,
{
    if n > 0 {
        lemma_first_token(functional, declared, n - 1);
    } else {
        assert(entry_front_tokens(1).len() == 2);
        assert(entry_row(entry_of(functional), 1)[0] == entry_front_tokens(1)[0]);
    }
}

// ── What is merged ──────────────────────────────────────────────────────────

proof fn lemma_kept(classes: Seq<ClassV>, n: int)
    requires
        1 <= n <= classes.len(),
        synthetic(classes[0].name),
        forall|i: int| 1 <= i < n ==> !synthetic(#[trigger] classes[i].name),
    ensures
        kept_classes(classes, n) == classes.subrange(1, n),
    decreases n,
{
    if n > 1 {
        lemma_kept(classes, n - 1);
        assert(classes.subrange(1, n) =~= classes.subrange(1, n - 1).push(classes[n - 1]));
    } else {
        assert(kept_classes(classes, 0) =~= seq![]);
        assert(classes.subrange(1, 1) =~= seq![]);
    }
}

proof fn lemma_missing_named(functional: bool, declared: Seq<Seq<char>>, n: int)
    requires
        0 <= n <= row_count(functional),
    ensures
        forall|i: int|
            0 <= i < missing(functional, declared, n).len() ==> !synthetic(
                #[trigger] missing(functional, declared, n)[i],
            ),
    decreases n,
{
    if n > 0 {
        lemma_missing_named(functional, declared, n - 1);
        lemma_row_named(functional, n - 1);
        let fewer = missing(functional, declared, n - 1);
        let names = missing(functional, declared, n);
        assert forall|i: int| 0 <= i < names.len() implies !synthetic(#[trigger] names[i]) by {
            if i < fewer.len() {
                assert(names[i] == fewer[i]);
            }
        }
    }
}

/// Every type of a table is declared or missing.
proof fn lemma_none_left(functional: bool, declared: Seq<Seq<char>>, n: int, k: int)
    requires
        0 <= k < n <= row_count(functional),
    ensures
        listed(declared + missing(functional, declared, n), row_name(functional, k)),
    decreases n,
{
    let name = row_name(functional, k);
    let all = declared + missing(functional, declared, n);
    if listed(declared, name) {
        let i = choose|i: int| 0 <= i < declared.len() && #[trigger] declared[i] == name;
        assert(all[i] == name);
    } else if k == n - 1 {
        assert(all[all.len() - 1] == name);
    } else {
        lemma_none_left(functional, declared, n - 1, k);
        let fewer = declared + missing(functional, declared, n - 1);
        let i = choose|i: int| 0 <= i < fewer.len() && #[trigger] fewer[i] == name;
        assert(all[i] == name);
    }
}

/// What a program is with the types of a table that it does not declare: what it
/// was, with these types behind its own, each as the table has it.
pub open spec fn adds_missing(p: ProgramV, q: ProgramV, functional: bool) -> bool {
    let more = missing(functional, names_declared(p.classes), row_count(functional));
    &&& q.classes.len() >= p.classes.len()
    &&& q.classes.take(p.classes.len() as int) == p.classes
    &&& names_declared(q.classes) == names_declared(p.classes) + more
    &&& forall|i: int|
        p.classes.len() <= i < q.classes.len() ==> is_row(functional, #[trigger] q.classes[i])
    &&& q.methods.len() >= p.methods.len()
    &&& q.methods.take(p.methods.len() as int) == p.methods
    &&& q == (ProgramV { classes: q.classes, methods: q.methods, ..p })
    &&& more.len() == 0 ==> q == p
}

proof fn lemma_merged(p: ProgramV, functional: bool)
    ensures
        merged_source(
            p,
            sources(functional, names_declared(p.classes), row_count(functional)),
        ) matches Ok(q) && adds_missing(p, q, functional),
{
    let declared = names_declared(p.classes);
    let n = row_count(functional);
    let more = missing(functional, declared, n);
    lemma_sources_parsed(functional, declared);
    let q = parsed(sources(functional, declared, n))->Ok_0;
    lemma_entry(functional, declared);
    lemma_missing_named(functional, declared, n);
    assert forall|i: int| 1 <= i < q.classes.len() implies !synthetic(
        #[trigger] q.classes[i].name,
    ) by {
        assert(q.classes[(i - 1) + 1].name == more[i - 1]);
    }
    lemma_kept(q.classes, q.classes.len() as int);
    let kept = q.classes.subrange(1, q.classes.len() as int);
    let m = merged(p, q);
    assert(m.classes == p.classes + kept);
    assert(m.classes.take(p.classes.len() as int) =~= p.classes);
    assert(m.methods.take(p.methods.len() as int) =~= p.methods);
    assert forall|i: int| 0 <= i < more.len() implies #[trigger] kept[i].name == more[i] by {
        assert(q.classes[i + 1].name == more[i]);
    }
    assert(names_declared(m.classes) =~= declared + more);
    assert forall|i: int| p.classes.len() <= i < m.classes.len() implies is_row(
        functional,
        #[trigger] m.classes[i],
    ) by {
        assert(m.classes[i] == q.classes[i - p.classes.len() + 1]);
    }
    if more.len() == 0 {
        assert(kept_methods(q.methods, 0) =~= seq![]);
        assert(m.classes =~= p.classes);
        assert(m.methods =~= p.methods);
    }
}

proof fn lemma_listed_on(a: Seq<Seq<char>>, b: Seq<Seq<char>>, w: Seq<char>)
    requires
        listed(a, w),
    ensures
        listed(a + b, w),
{
    let i = choose|i: int| 0 <= i < a.len() && #[trigger] a[i] == w;
    assert((a + b)[i] == w);
}

/// Whether a program declares every type of the prelude that it makes use of.
pub open spec fn is_complete(p: ProgramV) -> bool {
    let names = names_declared(p.classes);
    &&& p.uses_exceptions ==> forall|i: int|
        0 <= i < throwables().len() ==> listed(names, #[trigger] throwables()[i].0)
    &&& p.uses_functional ==> forall|i: int|
        0 <= i < functionals().len() ==> listed(names, #[trigger] functionals()[i].0)
}

/// Injecting never fails: a program that uses exceptions gets the throwables it
/// does not declare, then one that uses functional interfaces gets those it does
/// not declare, each behind what was there.
pub proof fn injecting_adds_what_is_missing(p: ProgramV)
    ensures
        ({
            let q = with_throwables(p)->Ok_0;
            let r = injected(p)->Ok_0;
            &&& with_throwables(p) is Ok
            &&& injected(p) is Ok
            &&& if p.uses_exceptions {
                adds_missing(p, q, false)
            } else {
                q == p
            }
            &&& if p.uses_functional {
                adds_missing(q, r, true)
            } else {
                r == q
            }
        }),
{
    lemma_merged(p, false);
    let q = with_throwables(p)->Ok_0;
    lemma_merged(q, true);
}

/// An injected program declares every type of the prelude that it makes use of.
pub proof fn injected_programs_are_complete(p: ProgramV)
    ensures
        injected(p) matches Ok(q) && is_complete(q),
{
    injecting_adds_what_is_missing(p);
    let q = with_throwables(p)->Ok_0;
    let r = injected(p)->Ok_0;
    let names = names_declared(p.classes);
    let more = names_declared(q.classes);
    let all = names_declared(r.classes);
    if r.uses_exceptions {
        assert forall|i: int| 0 <= i < throwables().len() implies listed(
            all,
            #[trigger] throwables()[i].0,
        ) by {
            lemma_none_left(false, names, row_count(false), i);
            assert(listed(more, row_name(false, i)));
            if p.uses_functional {
                lemma_listed_on(more, missing(true, more, row_count(true)), row_name(false, i));
            }
        }
    }
    if r.uses_functional {
        assert forall|i: int| 0 <= i < functionals().len() implies listed(
            all,
            #[trigger] functionals()[i].0,
        ) by {
            lemma_none_left(true, more, row_count(true), i);
            assert(listed(all, row_name(true, i)));
        }
    }
}

proof fn lemma_none_missing(functional: bool, declared: Seq<Seq<char>>, n: int)
    requires
        0 <= n <= row_count(functional),
        forall|i: int|
            0 <= i < row_count(functional) ==> listed(declared, #[trigger] row_name(functional, i)),
    ensures
        missing(functional, declared, n).len() == 0,
    decreases n,
{
    if n > 0 {
        lemma_none_missing(functional, declared, n - 1);
        assert(listed(declared, row_name(functional, n - 1)));
    }
}

/// A program that declares every type of the prelude it makes use of is left as it
/// is.
pub proof fn complete_programs_are_left_alone(p: ProgramV)
    requires
        is_complete(p),
    ensures
        injected(p) == Ok::<ProgramV, Seq<char>>(p),
{
    let names = names_declared(p.classes);
    injecting_adds_what_is_missing(p);
    if p.uses_exceptions {
        assert forall|i: int| 0 <= i < row_count(false) implies listed(
            names,
            #[trigger] row_name(false, i),
        ) by {
            assert(listed(names, throwables()[i].0));
        }
        lemma_none_missing(false, names, row_count(false));
    }
    if p.uses_functional {
        assert forall|i: int| 0 <= i < row_count(true) implies listed(
            names,
            #[trigger] row_name(true, i),
        ) by {
            assert(listed(names, functionals()[i].0));
        }
        lemma_none_missing(true, names, row_count(true));
    }
}

/// Injecting a second time changes nothing.
pub proof fn what_was_added_is_not_added_again(p: ProgramV)
    ensures
        injected(p) is Ok,
        injected(injected(p)->Ok_0) == injected(p),
{
    injected_programs_are_complete(p);
    complete_programs_are_left_alone(injected(p)->Ok_0);
}

} // verus!
