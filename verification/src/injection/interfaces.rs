//! The functional interfaces: how each is lexed, and that it is read as one
//! interface.
use vstd::prelude::*;

use crate::injection::defaults::{
    bi_consumer_and_then_tokens, bi_function_and_then_tokens, bi_predicate_and_text,
    bi_predicate_and_tokens, bi_predicate_negate_text, bi_predicate_negate_tokens,
    bi_predicate_or_text, bi_predicate_or_tokens, binary_operator_max_by_text,
    binary_operator_max_by_tokens, binary_operator_min_by_text, binary_operator_min_by_tokens,
    comparator_comparing_text, comparator_comparing_tokens, comparator_natural_order_text,
    comparator_natural_order_tokens, comparator_reverse_order_text,
    comparator_reverse_order_tokens, comparator_reversed_text, comparator_reversed_tokens,
    comparator_then_comparing_text, comparator_then_comparing_tokens, consumer_and_then_tokens,
    function_and_then_text, function_and_then_tokens, function_compose_text,
    function_compose_tokens, function_identity_text, function_identity_tokens,
    int_consumer_and_then_tokens, int_predicate_and_text, int_predicate_and_tokens,
    int_predicate_negate_text, int_predicate_negate_tokens, int_predicate_or_text,
    int_predicate_or_tokens, int_unary_operator_and_then_text, int_unary_operator_and_then_tokens,
    int_unary_operator_compose_text, int_unary_operator_compose_tokens,
    int_unary_operator_identity_text, int_unary_operator_identity_tokens,
    lexes_bi_consumer_and_then, lexes_bi_function_and_then, lexes_bi_predicate_and,
    lexes_bi_predicate_negate, lexes_bi_predicate_or, lexes_binary_operator_max_by,
    lexes_binary_operator_min_by, lexes_comparator_comparing, lexes_comparator_natural_order,
    lexes_comparator_reverse_order, lexes_comparator_reversed, lexes_comparator_then_comparing,
    lexes_consumer_and_then, lexes_function_and_then, lexes_function_compose,
    lexes_function_identity, lexes_int_consumer_and_then, lexes_int_predicate_and,
    lexes_int_predicate_negate, lexes_int_predicate_or, lexes_int_unary_operator_and_then,
    lexes_int_unary_operator_compose, lexes_int_unary_operator_identity, lexes_predicate_and,
    lexes_predicate_negate, lexes_predicate_not, lexes_predicate_or,
    lexes_unary_operator_identity, predicate_and_text, predicate_and_tokens,
    predicate_negate_text, predicate_negate_tokens, predicate_not_text, predicate_not_tokens,
    predicate_or_text, predicate_or_tokens, spelling_of_bi_consumer_and_then,
    spelling_of_bi_function_and_then, spelling_of_bi_predicate_and,
    spelling_of_bi_predicate_negate, spelling_of_bi_predicate_or,
    spelling_of_binary_operator_max_by, spelling_of_binary_operator_min_by,
    spelling_of_comparator_comparing, spelling_of_comparator_natural_order,
    spelling_of_comparator_reverse_order, spelling_of_comparator_reversed,
    spelling_of_comparator_then_comparing, spelling_of_consumer_and_then,
    spelling_of_function_and_then, spelling_of_function_compose, spelling_of_function_identity,
    spelling_of_int_consumer_and_then, spelling_of_int_predicate_and,
    spelling_of_int_predicate_negate, spelling_of_int_predicate_or,
    spelling_of_int_unary_operator_and_then, spelling_of_int_unary_operator_compose,
    spelling_of_int_unary_operator_identity, spelling_of_predicate_and,
    spelling_of_predicate_negate, spelling_of_predicate_not, spelling_of_predicate_or,
    spelling_of_unary_operator_identity, stands_bi_consumer_and_then, stands_bi_function_and_then,
    stands_bi_predicate_and, stands_bi_predicate_negate, stands_bi_predicate_or,
    stands_binary_operator_max_by, stands_binary_operator_min_by, stands_comparator_comparing,
    stands_comparator_natural_order, stands_comparator_reverse_order, stands_comparator_reversed,
    stands_comparator_then_comparing, stands_consumer_and_then, stands_function_and_then,
    stands_function_compose, stands_function_identity, stands_int_consumer_and_then,
    stands_int_predicate_and, stands_int_predicate_negate, stands_int_predicate_or,
    stands_int_unary_operator_and_then, stands_int_unary_operator_compose,
    stands_int_unary_operator_identity, stands_predicate_and, stands_predicate_negate,
    stands_predicate_not, stands_predicate_or, stands_unary_operator_identity,
    unary_operator_identity_tokens,
};
use crate::injection::reading::{
    declares_class, reads_interface, reads_last_parameter, reads_members_end, reads_method,
    reads_next_member, reads_next_parameter, reads_no_parameters, reads_parameters,
};
use crate::injection::spelling::{
    lexes_name_space, name_tok, reads_gap, reads_key_space, reads_line, reads_name,
    reads_name_space, reads_sign, reads_space, rest, sign_tok, signs_are_known, spells,
    spells_both,
};
use crate::injection::vocabulary::words_are_known;
use crate::lexer::{Tok, TokenV, next_line};
use crate::prelude::interface_source;

verus! {

/// The tokens of `void run()`.
pub open spec fn runnable_sam_tokens(l: int) -> Seq<TokenV> {
    seq![
        sign_tok(Tok::Void, l), name_tok("run"@, l), sign_tok(Tok::LParen, l),
        sign_tok(Tok::RParen, l),
    ]
}

proof fn spelling_of_runnable_sam()
    ensures
        "void run()"@.len() == 10,
        spells("void run()"@, 0, "void"@) && spells("void run()"@, 5, "run"@),
        "void run()"@[4] == ' ' && "void run()"@[8] == '(' && "void run()"@[9] == ')',
{
    reveal_strlit("void run()");
    reveal_strlit("run");
    reveal_strlit("void");
}

proof fn lexes_runnable_sam(s: Seq<char>, b: int, l: int, done: Seq<TokenV>)
    requires
        spells(s, b, "void run()"@),
    ensures
        rest(s, b, l, done) == rest(s, b + 10, l, done + runnable_sam_tokens(l)),
{
    words_are_known();
    spelling_of_runnable_sam();
    let text = "void run()"@;
    let d0 = done;
    reads_key_space(s, b, text, 0, 5, "void"@, Tok::Void, l, d0);
    let d1 = d0.push(sign_tok(Tok::Void, l));
    reads_name(s, b, text, 5, 8, "run"@, l, d1);
    let d2 = d1.push(name_tok("run"@, l));
    reads_sign(s, b, text, 8, Tok::LParen, l, d2);
    let d3 = d2.push(sign_tok(Tok::LParen, l));
    reads_sign(s, b, text, 9, Tok::RParen, l, d3);
    let d4 = d3.push(sign_tok(Tok::RParen, l));
    assert(d4 =~= done + runnable_sam_tokens(l));
}

/// The tokens of the interface `Runnable`.
pub open spec fn runnable_row(l: int) -> Seq<TokenV> {
    seq![name_tok("interface"@, l), name_tok("Runnable"@, l), sign_tok(Tok::LBrace, l)] + runnable_sam_tokens(l)
        + seq![sign_tok(Tok::Semi, l)] + seq![sign_tok(Tok::RBrace, l)]
}

/// The interface `Runnable` is lexed as these tokens.
pub proof fn lexes_runnable_row(s: Seq<char>, b: int, l: int, done: Seq<TokenV>)
    requires
        spells(s, b, interface_source("Runnable"@, "void run()"@, ""@)),
    ensures
        rest(s, b, l, done) == rest(
            s,
            b + interface_source("Runnable"@, "void run()"@, ""@).len(),
            next_line(l),
            done + runnable_row(l),
        ),
{
    words_are_known();
    signs_are_known();
    let x1 = "interface "@ + "Runnable"@;
    let x2 = x1 + " { "@;
    let x3 = x2 + "void run()"@;
    let x4 = x3 + "; "@;
    let x5 = x4 + ""@;
    assert("void run()"@.len() == 10) by {
        reveal_strlit("void run()");
    }
    assert(""@.len() == 0) by {
        reveal_strlit("");
    }
    spells_both(s, b, x5, " }\n"@);
    spells_both(s, b, x4, ""@);
    spells_both(s, b, x3, "; "@);
    spells_both(s, b, x2, "void run()"@);
    spells_both(s, b, x1, " { "@);
    spells_both(s, b, "interface "@, "Runnable"@);
    let d0 = done;
    reads_name_space(s, b, "interface "@, 0, 10, "interface"@, l, d0);
    let d1 = d0.push(name_tok("interface"@, l));
    reads_gap(s, b + 18, " { "@, 0);
    lexes_name_space(s, b + 10, b + 19, "Runnable"@, l, d1);
    let d2 = d1.push(name_tok("Runnable"@, l));
    reads_sign(s, b + 18, " { "@, 1, Tok::LBrace, l, d2);
    let d3 = d2.push(sign_tok(Tok::LBrace, l));
    reads_space(s, b + 18, " { "@, 2, l, d3);
    lexes_runnable_sam(s, b + 21, l, d3);
    let d4 = d3 + runnable_sam_tokens(l);
    reads_sign(s, b + 31, "; "@, 0, Tok::Semi, l, d4);
    let d5 = d4.push(sign_tok(Tok::Semi, l));
    reads_space(s, b + 31, "; "@, 1, l, d5);
    reads_space(s, b + 33, " }\n"@, 0, l, d5);
    reads_sign(s, b + 33, " }\n"@, 1, Tok::RBrace, l, d5);
    let d6 = d5.push(sign_tok(Tok::RBrace, l));
    reads_line(s, b + 33, " }\n"@, 2, l, d6);
    assert(d6 =~= done + runnable_row(l));
}

/// The interface `Runnable` is read as one.
pub proof fn declares_runnable(t: Seq<TokenV>, p: int, l: int)
    requires
        0 <= p,
        p + runnable_row(l).len() < t.len(),
        t.subrange(p, p + runnable_row(l).len()) == runnable_row(l),
    ensures
        declares_class(t, "Runnable"@, None, true, p, p + runnable_row(l).len()),
        t[p].kind != Tok::Eof,
{
    words_are_known();
    let name = "Runnable"@;
    let w = runnable_row(l);
    assert(runnable_sam_tokens(l).len() == 4);
    assert(w.len() == 9);
    let q = p + 3;
    assert forall|k: int| 0 <= k < 9 implies t[p + k] == #[trigger] w[k] by {
        assert(t.subrange(p, p + w.len())[k] == w[k]);
    }
    assert(t[p] == w[0] && t[p + 1] == w[1] && t[p + 2] == w[2]);
    let u = runnable_sam_tokens(l);
    assert(t[q] == w[3] && w[3] == u[0]);
    assert(t[q + 1] == w[4] && w[4] == u[1]);
    assert(t[q + 2] == w[5] && w[5] == u[2]);
    assert(t[q + 3] == w[6] && w[6] == u[3]);
    assert(t[q + 4] == w[7]);
    reads_no_parameters(t, q + 3);
    reads_method(t, name, q, q, q + 3, q + 5);
    assert(t[p + 8] == w[8]);
    reads_members_end(t, name, p + 8);
    reads_next_member(t, name, p + 3, p + 8, p + 9);
    reads_interface(t, p, p + 9);
}

/// The tokens of `Object call()`.
pub open spec fn callable_sam_tokens(l: int) -> Seq<TokenV> {
    seq![
        name_tok("Object"@, l), name_tok("call"@, l), sign_tok(Tok::LParen, l),
        sign_tok(Tok::RParen, l),
    ]
}

proof fn spelling_of_callable_sam()
    ensures
        "Object call()"@.len() == 13,
        spells("Object call()"@, 0, "Object"@) && spells("Object call()"@, 7, "call"@),
        "Object call()"@[6] == ' ' && "Object call()"@[11] == '(',
        "Object call()"@[12] == ')',
{
    reveal_strlit("Object call()");
    reveal_strlit("Object");
    reveal_strlit("call");
}

proof fn lexes_callable_sam(s: Seq<char>, b: int, l: int, done: Seq<TokenV>)
    requires
        spells(s, b, "Object call()"@),
    ensures
        rest(s, b, l, done) == rest(s, b + 13, l, done + callable_sam_tokens(l)),
{
    words_are_known();
    spelling_of_callable_sam();
    let text = "Object call()"@;
    let d0 = done;
    reads_name_space(s, b, text, 0, 7, "Object"@, l, d0);
    let d1 = d0.push(name_tok("Object"@, l));
    reads_name(s, b, text, 7, 11, "call"@, l, d1);
    let d2 = d1.push(name_tok("call"@, l));
    reads_sign(s, b, text, 11, Tok::LParen, l, d2);
    let d3 = d2.push(sign_tok(Tok::LParen, l));
    reads_sign(s, b, text, 12, Tok::RParen, l, d3);
    let d4 = d3.push(sign_tok(Tok::RParen, l));
    assert(d4 =~= done + callable_sam_tokens(l));
}

/// The tokens of the interface `Callable`.
pub open spec fn callable_row(l: int) -> Seq<TokenV> {
    seq![name_tok("interface"@, l), name_tok("Callable"@, l), sign_tok(Tok::LBrace, l)] + callable_sam_tokens(l)
        + seq![sign_tok(Tok::Semi, l)] + seq![sign_tok(Tok::RBrace, l)]
}

/// The interface `Callable` is lexed as these tokens.
pub proof fn lexes_callable_row(s: Seq<char>, b: int, l: int, done: Seq<TokenV>)
    requires
        spells(s, b, interface_source("Callable"@, "Object call()"@, ""@)),
    ensures
        rest(s, b, l, done) == rest(
            s,
            b + interface_source("Callable"@, "Object call()"@, ""@).len(),
            next_line(l),
            done + callable_row(l),
        ),
{
    words_are_known();
    signs_are_known();
    let x1 = "interface "@ + "Callable"@;
    let x2 = x1 + " { "@;
    let x3 = x2 + "Object call()"@;
    let x4 = x3 + "; "@;
    let x5 = x4 + ""@;
    assert("Object call()"@.len() == 13) by {
        reveal_strlit("Object call()");
    }
    assert(""@.len() == 0) by {
        reveal_strlit("");
    }
    spells_both(s, b, x5, " }\n"@);
    spells_both(s, b, x4, ""@);
    spells_both(s, b, x3, "; "@);
    spells_both(s, b, x2, "Object call()"@);
    spells_both(s, b, x1, " { "@);
    spells_both(s, b, "interface "@, "Callable"@);
    let d0 = done;
    reads_name_space(s, b, "interface "@, 0, 10, "interface"@, l, d0);
    let d1 = d0.push(name_tok("interface"@, l));
    reads_gap(s, b + 18, " { "@, 0);
    lexes_name_space(s, b + 10, b + 19, "Callable"@, l, d1);
    let d2 = d1.push(name_tok("Callable"@, l));
    reads_sign(s, b + 18, " { "@, 1, Tok::LBrace, l, d2);
    let d3 = d2.push(sign_tok(Tok::LBrace, l));
    reads_space(s, b + 18, " { "@, 2, l, d3);
    lexes_callable_sam(s, b + 21, l, d3);
    let d4 = d3 + callable_sam_tokens(l);
    reads_sign(s, b + 34, "; "@, 0, Tok::Semi, l, d4);
    let d5 = d4.push(sign_tok(Tok::Semi, l));
    reads_space(s, b + 34, "; "@, 1, l, d5);
    reads_space(s, b + 36, " }\n"@, 0, l, d5);
    reads_sign(s, b + 36, " }\n"@, 1, Tok::RBrace, l, d5);
    let d6 = d5.push(sign_tok(Tok::RBrace, l));
    reads_line(s, b + 36, " }\n"@, 2, l, d6);
    assert(d6 =~= done + callable_row(l));
}

/// The interface `Callable` is read as one.
pub proof fn declares_callable(t: Seq<TokenV>, p: int, l: int)
    requires
        0 <= p,
        p + callable_row(l).len() < t.len(),
        t.subrange(p, p + callable_row(l).len()) == callable_row(l),
    ensures
        declares_class(t, "Callable"@, None, true, p, p + callable_row(l).len()),
        t[p].kind != Tok::Eof,
{
    words_are_known();
    let name = "Callable"@;
    let w = callable_row(l);
    assert(callable_sam_tokens(l).len() == 4);
    assert(w.len() == 9);
    let q = p + 3;
    assert forall|k: int| 0 <= k < 9 implies t[p + k] == #[trigger] w[k] by {
        assert(t.subrange(p, p + w.len())[k] == w[k]);
    }
    assert(t[p] == w[0] && t[p + 1] == w[1] && t[p + 2] == w[2]);
    let u = callable_sam_tokens(l);
    assert(t[q] == w[3] && w[3] == u[0]);
    assert(t[q + 1] == w[4] && w[4] == u[1]);
    assert(t[q + 2] == w[5] && w[5] == u[2]);
    assert(t[q + 3] == w[6] && w[6] == u[3]);
    assert(t[q + 4] == w[7]);
    reads_no_parameters(t, q + 3);
    reads_method(t, name, q, q, q + 3, q + 5);
    assert(t[p + 8] == w[8]);
    reads_members_end(t, name, p + 8);
    reads_next_member(t, name, p + 3, p + 8, p + 9);
    reads_interface(t, p, p + 9);
}

/// The tokens of `Object get()`.
pub open spec fn supplier_sam_tokens(l: int) -> Seq<TokenV> {
    seq![
        name_tok("Object"@, l), name_tok("get"@, l), sign_tok(Tok::LParen, l),
        sign_tok(Tok::RParen, l),
    ]
}

proof fn spelling_of_supplier_sam()
    ensures
        "Object get()"@.len() == 12,
        spells("Object get()"@, 0, "Object"@) && spells("Object get()"@, 7, "get"@),
        "Object get()"@[6] == ' ' && "Object get()"@[10] == '(' && "Object get()"@[11] == ')',
{
    reveal_strlit("Object get()");
    reveal_strlit("Object");
    reveal_strlit("get");
}

proof fn lexes_supplier_sam(s: Seq<char>, b: int, l: int, done: Seq<TokenV>)
    requires
        spells(s, b, "Object get()"@),
    ensures
        rest(s, b, l, done) == rest(s, b + 12, l, done + supplier_sam_tokens(l)),
{
    words_are_known();
    spelling_of_supplier_sam();
    let text = "Object get()"@;
    let d0 = done;
    reads_name_space(s, b, text, 0, 7, "Object"@, l, d0);
    let d1 = d0.push(name_tok("Object"@, l));
    reads_name(s, b, text, 7, 10, "get"@, l, d1);
    let d2 = d1.push(name_tok("get"@, l));
    reads_sign(s, b, text, 10, Tok::LParen, l, d2);
    let d3 = d2.push(sign_tok(Tok::LParen, l));
    reads_sign(s, b, text, 11, Tok::RParen, l, d3);
    let d4 = d3.push(sign_tok(Tok::RParen, l));
    assert(d4 =~= done + supplier_sam_tokens(l));
}

/// The tokens of the interface `Supplier`.
pub open spec fn supplier_row(l: int) -> Seq<TokenV> {
    seq![name_tok("interface"@, l), name_tok("Supplier"@, l), sign_tok(Tok::LBrace, l)] + supplier_sam_tokens(l)
        + seq![sign_tok(Tok::Semi, l)] + seq![sign_tok(Tok::RBrace, l)]
}

/// The interface `Supplier` is lexed as these tokens.
pub proof fn lexes_supplier_row(s: Seq<char>, b: int, l: int, done: Seq<TokenV>)
    requires
        spells(s, b, interface_source("Supplier"@, "Object get()"@, ""@)),
    ensures
        rest(s, b, l, done) == rest(
            s,
            b + interface_source("Supplier"@, "Object get()"@, ""@).len(),
            next_line(l),
            done + supplier_row(l),
        ),
{
    words_are_known();
    signs_are_known();
    let x1 = "interface "@ + "Supplier"@;
    let x2 = x1 + " { "@;
    let x3 = x2 + "Object get()"@;
    let x4 = x3 + "; "@;
    let x5 = x4 + ""@;
    assert("Object get()"@.len() == 12) by {
        reveal_strlit("Object get()");
    }
    assert(""@.len() == 0) by {
        reveal_strlit("");
    }
    spells_both(s, b, x5, " }\n"@);
    spells_both(s, b, x4, ""@);
    spells_both(s, b, x3, "; "@);
    spells_both(s, b, x2, "Object get()"@);
    spells_both(s, b, x1, " { "@);
    spells_both(s, b, "interface "@, "Supplier"@);
    let d0 = done;
    reads_name_space(s, b, "interface "@, 0, 10, "interface"@, l, d0);
    let d1 = d0.push(name_tok("interface"@, l));
    reads_gap(s, b + 18, " { "@, 0);
    lexes_name_space(s, b + 10, b + 19, "Supplier"@, l, d1);
    let d2 = d1.push(name_tok("Supplier"@, l));
    reads_sign(s, b + 18, " { "@, 1, Tok::LBrace, l, d2);
    let d3 = d2.push(sign_tok(Tok::LBrace, l));
    reads_space(s, b + 18, " { "@, 2, l, d3);
    lexes_supplier_sam(s, b + 21, l, d3);
    let d4 = d3 + supplier_sam_tokens(l);
    reads_sign(s, b + 33, "; "@, 0, Tok::Semi, l, d4);
    let d5 = d4.push(sign_tok(Tok::Semi, l));
    reads_space(s, b + 33, "; "@, 1, l, d5);
    reads_space(s, b + 35, " }\n"@, 0, l, d5);
    reads_sign(s, b + 35, " }\n"@, 1, Tok::RBrace, l, d5);
    let d6 = d5.push(sign_tok(Tok::RBrace, l));
    reads_line(s, b + 35, " }\n"@, 2, l, d6);
    assert(d6 =~= done + supplier_row(l));
}

/// The interface `Supplier` is read as one.
pub proof fn declares_supplier(t: Seq<TokenV>, p: int, l: int)
    requires
        0 <= p,
        p + supplier_row(l).len() < t.len(),
        t.subrange(p, p + supplier_row(l).len()) == supplier_row(l),
    ensures
        declares_class(t, "Supplier"@, None, true, p, p + supplier_row(l).len()),
        t[p].kind != Tok::Eof,
{
    words_are_known();
    let name = "Supplier"@;
    let w = supplier_row(l);
    assert(supplier_sam_tokens(l).len() == 4);
    assert(w.len() == 9);
    let q = p + 3;
    assert forall|k: int| 0 <= k < 9 implies t[p + k] == #[trigger] w[k] by {
        assert(t.subrange(p, p + w.len())[k] == w[k]);
    }
    assert(t[p] == w[0] && t[p + 1] == w[1] && t[p + 2] == w[2]);
    let u = supplier_sam_tokens(l);
    assert(t[q] == w[3] && w[3] == u[0]);
    assert(t[q + 1] == w[4] && w[4] == u[1]);
    assert(t[q + 2] == w[5] && w[5] == u[2]);
    assert(t[q + 3] == w[6] && w[6] == u[3]);
    assert(t[q + 4] == w[7]);
    reads_no_parameters(t, q + 3);
    reads_method(t, name, q, q, q + 3, q + 5);
    assert(t[p + 8] == w[8]);
    reads_members_end(t, name, p + 8);
    reads_next_member(t, name, p + 3, p + 8, p + 9);
    reads_interface(t, p, p + 9);
}

/// The tokens of `void accept(Object t)`.
pub open spec fn consumer_sam_tokens(l: int) -> Seq<TokenV> {
    seq![
        sign_tok(Tok::Void, l), name_tok("accept"@, l), sign_tok(Tok::LParen, l),
        name_tok("Object"@, l), name_tok("t"@, l), sign_tok(Tok::RParen, l),
    ]
}

proof fn spelling_of_consumer_sam()
    ensures
        "void accept(Object t)"@.len() == 21,
        spells("void accept(Object t)"@, 0, "void"@),
        spells("void accept(Object t)"@, 5, "accept"@),
        spells("void accept(Object t)"@, 12, "Object"@),
        spells("void accept(Object t)"@, 19, "t"@),
        "void accept(Object t)"@[4] == ' ' && "void accept(Object t)"@[11] == '(',
        "void accept(Object t)"@[12] == 'O' && "void accept(Object t)"@[18] == ' ',
        "void accept(Object t)"@[20] == ')',
{
    reveal_strlit("void accept(Object t)");
    reveal_strlit("Object");
    reveal_strlit("accept");
    reveal_strlit("t");
    reveal_strlit("void");
}

proof fn lexes_consumer_sam(s: Seq<char>, b: int, l: int, done: Seq<TokenV>)
    requires
        spells(s, b, "void accept(Object t)"@),
    ensures
        rest(s, b, l, done) == rest(s, b + 21, l, done + consumer_sam_tokens(l)),
{
    words_are_known();
    spelling_of_consumer_sam();
    let text = "void accept(Object t)"@;
    let d0 = done;
    reads_key_space(s, b, text, 0, 5, "void"@, Tok::Void, l, d0);
    let d1 = d0.push(sign_tok(Tok::Void, l));
    reads_name(s, b, text, 5, 11, "accept"@, l, d1);
    let d2 = d1.push(name_tok("accept"@, l));
    reads_sign(s, b, text, 11, Tok::LParen, l, d2);
    let d3 = d2.push(sign_tok(Tok::LParen, l));
    reads_name_space(s, b, text, 12, 19, "Object"@, l, d3);
    let d4 = d3.push(name_tok("Object"@, l));
    reads_name(s, b, text, 19, 20, "t"@, l, d4);
    let d5 = d4.push(name_tok("t"@, l));
    reads_sign(s, b, text, 20, Tok::RParen, l, d5);
    let d6 = d5.push(sign_tok(Tok::RParen, l));
    assert(d6 =~= done + consumer_sam_tokens(l));
}

/// The tokens of the interface `Consumer`.
pub open spec fn consumer_row(l: int) -> Seq<TokenV> {
    seq![name_tok("interface"@, l), name_tok("Consumer"@, l), sign_tok(Tok::LBrace, l)] + consumer_sam_tokens(l)
        + seq![sign_tok(Tok::Semi, l)] + consumer_and_then_tokens(l) + seq![sign_tok(Tok::RBrace, l)]
}

/// The interface `Consumer` is lexed as these tokens.
pub proof fn lexes_consumer_row(s: Seq<char>, b: int, l: int, done: Seq<TokenV>)
    requires
        spells(s, b, interface_source("Consumer"@, "void accept(Object t)"@, "default Consumer andThen(Consumer after) { return t -> { this.accept(t); after.accept(t); }; }"@)),
    ensures
        rest(s, b, l, done) == rest(
            s,
            b + interface_source("Consumer"@, "void accept(Object t)"@, "default Consumer andThen(Consumer after) { return t -> { this.accept(t); after.accept(t); }; }"@).len(),
            next_line(l),
            done + consumer_row(l),
        ),
{
    words_are_known();
    signs_are_known();
    let x1 = "interface "@ + "Consumer"@;
    let x2 = x1 + " { "@;
    let x3 = x2 + "void accept(Object t)"@;
    let x4 = x3 + "; "@;
    let x5 = x4 + "default Consumer andThen(Consumer after) { return t -> { this.accept(t); after.accept(t); }; }"@;
    assert("void accept(Object t)"@.len() == 21) by {
        reveal_strlit("void accept(Object t)");
    }
    assert("default Consumer andThen(Consumer after) { return t -> { this.accept(t); after.accept(t); }; }"@.len() == 94) by {
        reveal_strlit("default Consumer andThen(Consumer after) { return t -> { this.accept(t); after.accept(t); }; }");
    }
    spells_both(s, b, x5, " }\n"@);
    spells_both(s, b, x4, "default Consumer andThen(Consumer after) { return t -> { this.accept(t); after.accept(t); }; }"@);
    spells_both(s, b, x3, "; "@);
    spells_both(s, b, x2, "void accept(Object t)"@);
    spells_both(s, b, x1, " { "@);
    spells_both(s, b, "interface "@, "Consumer"@);
    let d0 = done;
    reads_name_space(s, b, "interface "@, 0, 10, "interface"@, l, d0);
    let d1 = d0.push(name_tok("interface"@, l));
    reads_gap(s, b + 18, " { "@, 0);
    lexes_name_space(s, b + 10, b + 19, "Consumer"@, l, d1);
    let d2 = d1.push(name_tok("Consumer"@, l));
    reads_sign(s, b + 18, " { "@, 1, Tok::LBrace, l, d2);
    let d3 = d2.push(sign_tok(Tok::LBrace, l));
    reads_space(s, b + 18, " { "@, 2, l, d3);
    lexes_consumer_sam(s, b + 21, l, d3);
    let d4 = d3 + consumer_sam_tokens(l);
    reads_sign(s, b + 42, "; "@, 0, Tok::Semi, l, d4);
    let d5 = d4.push(sign_tok(Tok::Semi, l));
    reads_space(s, b + 42, "; "@, 1, l, d5);
    spelling_of_consumer_and_then();
    lexes_consumer_and_then(s, b + 44, l, d5);
    let d6 = d5 + consumer_and_then_tokens(l);
    reads_space(s, b + 138, " }\n"@, 0, l, d6);
    reads_sign(s, b + 138, " }\n"@, 1, Tok::RBrace, l, d6);
    let d7 = d6.push(sign_tok(Tok::RBrace, l));
    reads_line(s, b + 138, " }\n"@, 2, l, d7);
    assert(d7 =~= done + consumer_row(l));
}

/// The interface `Consumer` is read as one.
pub proof fn declares_consumer(t: Seq<TokenV>, p: int, l: int)
    requires
        0 <= p,
        p + consumer_row(l).len() < t.len(),
        t.subrange(p, p + consumer_row(l).len()) == consumer_row(l),
    ensures
        declares_class(t, "Consumer"@, None, true, p, p + consumer_row(l).len()),
        t[p].kind != Tok::Eof,
{
    words_are_known();
    let name = "Consumer"@;
    let w = consumer_row(l);
    assert(consumer_sam_tokens(l).len() == 6);
    assert(consumer_and_then_tokens(l).len() == 29);
    assert(w.len() == 40);
    let q = p + 3;
    assert forall|k: int| 0 <= k < 40 implies t[p + k] == #[trigger] w[k] by {
        assert(t.subrange(p, p + w.len())[k] == w[k]);
    }
    assert(t[p] == w[0] && t[p + 1] == w[1] && t[p + 2] == w[2]);
    let u = consumer_sam_tokens(l);
    assert(t[q] == w[3] && w[3] == u[0]);
    assert(t[q + 1] == w[4] && w[4] == u[1]);
    assert(t[q + 2] == w[5] && w[5] == u[2]);
    assert(t[q + 3] == w[6] && w[6] == u[3]);
    assert(t[q + 4] == w[7] && w[7] == u[4]);
    assert(t[q + 5] == w[8] && w[8] == u[5]);
    assert(t[q + 6] == w[9]);
    reads_last_parameter(t, q + 3);
    reads_parameters(t, q + 3, q + 5);
    reads_method(t, name, q, q, q + 5, q + 7);
    assert(t.subrange(p + 10, p + 39) =~= consumer_and_then_tokens(l)) by {
        assert forall|k: int| 0 <= k < 29 implies t[p + 10 + k] == #[trigger] consumer_and_then_tokens(l)[k] by {
            assert(t.subrange(p, p + w.len())[10 + k] == w[10 + k]);
        }
    }
    stands_consumer_and_then(t, name, p + 10, l);
    assert(t[p + 10] == consumer_and_then_tokens(l)[0]);
    assert(t[p + 39] == w[39]);
    reads_members_end(t, name, p + 39);
    reads_next_member(t, name, p + 10, p + 39, p + 40);
    reads_next_member(t, name, p + 3, p + 10, p + 40);
    reads_interface(t, p, p + 40);
}

/// The tokens of `void accept(Object t, Object u)`.
pub open spec fn bi_consumer_sam_tokens(l: int) -> Seq<TokenV> {
    seq![
        sign_tok(Tok::Void, l), name_tok("accept"@, l), sign_tok(Tok::LParen, l),
        name_tok("Object"@, l), name_tok("t"@, l), sign_tok(Tok::Comma, l),
        name_tok("Object"@, l), name_tok("u"@, l), sign_tok(Tok::RParen, l),
    ]
}

proof fn spelling_of_bi_consumer_sam()
    ensures
        "void accept(Object t, Object u)"@.len() == 31,
        spells("void accept(Object t, Object u)"@, 0, "void"@),
        spells("void accept(Object t, Object u)"@, 5, "accept"@),
        spells("void accept(Object t, Object u)"@, 12, "Object"@),
        spells("void accept(Object t, Object u)"@, 19, "t"@),
        spells("void accept(Object t, Object u)"@, 22, "Object"@),
        spells("void accept(Object t, Object u)"@, 29, "u"@),
        "void accept(Object t, Object u)"@[4] == ' ',
        "void accept(Object t, Object u)"@[11] == '(',
        "void accept(Object t, Object u)"@[12] == 'O',
        "void accept(Object t, Object u)"@[18] == ' ',
        "void accept(Object t, Object u)"@[20] == ',',
        "void accept(Object t, Object u)"@[21] == ' ',
        "void accept(Object t, Object u)"@[28] == ' ',
        "void accept(Object t, Object u)"@[30] == ')',
{
    reveal_strlit("void accept(Object t, Object u)");
    reveal_strlit("Object");
    reveal_strlit("accept");
    reveal_strlit("t");
    reveal_strlit("u");
    reveal_strlit("void");
}

proof fn lexes_bi_consumer_sam(s: Seq<char>, b: int, l: int, done: Seq<TokenV>)
    requires
        spells(s, b, "void accept(Object t, Object u)"@),
    ensures
        rest(s, b, l, done) == rest(s, b + 31, l, done + bi_consumer_sam_tokens(l)),
{
    words_are_known();
    spelling_of_bi_consumer_sam();
    let text = "void accept(Object t, Object u)"@;
    let d0 = done;
    reads_key_space(s, b, text, 0, 5, "void"@, Tok::Void, l, d0);
    let d1 = d0.push(sign_tok(Tok::Void, l));
    reads_name(s, b, text, 5, 11, "accept"@, l, d1);
    let d2 = d1.push(name_tok("accept"@, l));
    reads_sign(s, b, text, 11, Tok::LParen, l, d2);
    let d3 = d2.push(sign_tok(Tok::LParen, l));
    reads_name_space(s, b, text, 12, 19, "Object"@, l, d3);
    let d4 = d3.push(name_tok("Object"@, l));
    reads_name(s, b, text, 19, 20, "t"@, l, d4);
    let d5 = d4.push(name_tok("t"@, l));
    reads_sign(s, b, text, 20, Tok::Comma, l, d5);
    let d6 = d5.push(sign_tok(Tok::Comma, l));
    reads_space(s, b, text, 21, l, d6);
    reads_name_space(s, b, text, 22, 29, "Object"@, l, d6);
    let d7 = d6.push(name_tok("Object"@, l));
    reads_name(s, b, text, 29, 30, "u"@, l, d7);
    let d8 = d7.push(name_tok("u"@, l));
    reads_sign(s, b, text, 30, Tok::RParen, l, d8);
    let d9 = d8.push(sign_tok(Tok::RParen, l));
    assert(d9 =~= done + bi_consumer_sam_tokens(l));
}

/// The tokens of the interface `BiConsumer`.
pub open spec fn bi_consumer_row(l: int) -> Seq<TokenV> {
    seq![name_tok("interface"@, l), name_tok("BiConsumer"@, l), sign_tok(Tok::LBrace, l)] + bi_consumer_sam_tokens(l)
        + seq![sign_tok(Tok::Semi, l)] + bi_consumer_and_then_tokens(l) + seq![sign_tok(Tok::RBrace, l)]
}

/// The interface `BiConsumer` is lexed as these tokens.
pub proof fn lexes_bi_consumer_row(s: Seq<char>, b: int, l: int, done: Seq<TokenV>)
    requires
        spells(s, b, interface_source("BiConsumer"@, "void accept(Object t, Object u)"@, "default BiConsumer andThen(BiConsumer after) { return (t, u) -> { this.accept(t, u); after.accept(t, u); }; }"@)),
    ensures
        rest(s, b, l, done) == rest(
            s,
            b + interface_source("BiConsumer"@, "void accept(Object t, Object u)"@, "default BiConsumer andThen(BiConsumer after) { return (t, u) -> { this.accept(t, u); after.accept(t, u); }; }"@).len(),
            next_line(l),
            done + bi_consumer_row(l),
        ),
{
    words_are_known();
    signs_are_known();
    let x1 = "interface "@ + "BiConsumer"@;
    let x2 = x1 + " { "@;
    let x3 = x2 + "void accept(Object t, Object u)"@;
    let x4 = x3 + "; "@;
    let x5 = x4 + "default BiConsumer andThen(BiConsumer after) { return (t, u) -> { this.accept(t, u); after.accept(t, u); }; }"@;
    assert("void accept(Object t, Object u)"@.len() == 31) by {
        reveal_strlit("void accept(Object t, Object u)");
    }
    assert("default BiConsumer andThen(BiConsumer after) { return (t, u) -> { this.accept(t, u); after.accept(t, u); }; }"@.len() == 109) by {
        reveal_strlit("default BiConsumer andThen(BiConsumer after) { return (t, u) -> { this.accept(t, u); after.accept(t, u); }; }");
    }
    spells_both(s, b, x5, " }\n"@);
    spells_both(s, b, x4, "default BiConsumer andThen(BiConsumer after) { return (t, u) -> { this.accept(t, u); after.accept(t, u); }; }"@);
    spells_both(s, b, x3, "; "@);
    spells_both(s, b, x2, "void accept(Object t, Object u)"@);
    spells_both(s, b, x1, " { "@);
    spells_both(s, b, "interface "@, "BiConsumer"@);
    let d0 = done;
    reads_name_space(s, b, "interface "@, 0, 10, "interface"@, l, d0);
    let d1 = d0.push(name_tok("interface"@, l));
    reads_gap(s, b + 20, " { "@, 0);
    lexes_name_space(s, b + 10, b + 21, "BiConsumer"@, l, d1);
    let d2 = d1.push(name_tok("BiConsumer"@, l));
    reads_sign(s, b + 20, " { "@, 1, Tok::LBrace, l, d2);
    let d3 = d2.push(sign_tok(Tok::LBrace, l));
    reads_space(s, b + 20, " { "@, 2, l, d3);
    lexes_bi_consumer_sam(s, b + 23, l, d3);
    let d4 = d3 + bi_consumer_sam_tokens(l);
    reads_sign(s, b + 54, "; "@, 0, Tok::Semi, l, d4);
    let d5 = d4.push(sign_tok(Tok::Semi, l));
    reads_space(s, b + 54, "; "@, 1, l, d5);
    spelling_of_bi_consumer_and_then();
    lexes_bi_consumer_and_then(s, b + 56, l, d5);
    let d6 = d5 + bi_consumer_and_then_tokens(l);
    reads_space(s, b + 165, " }\n"@, 0, l, d6);
    reads_sign(s, b + 165, " }\n"@, 1, Tok::RBrace, l, d6);
    let d7 = d6.push(sign_tok(Tok::RBrace, l));
    reads_line(s, b + 165, " }\n"@, 2, l, d7);
    assert(d7 =~= done + bi_consumer_row(l));
}

/// The interface `BiConsumer` is read as one.
pub proof fn declares_bi_consumer(t: Seq<TokenV>, p: int, l: int)
    requires
        0 <= p,
        p + bi_consumer_row(l).len() < t.len(),
        t.subrange(p, p + bi_consumer_row(l).len()) == bi_consumer_row(l),
    ensures
        declares_class(t, "BiConsumer"@, None, true, p, p + bi_consumer_row(l).len()),
        t[p].kind != Tok::Eof,
{
    words_are_known();
    let name = "BiConsumer"@;
    let w = bi_consumer_row(l);
    assert(bi_consumer_sam_tokens(l).len() == 9);
    assert(bi_consumer_and_then_tokens(l).len() == 37);
    assert(w.len() == 51);
    let q = p + 3;
    assert forall|k: int| 0 <= k < 51 implies t[p + k] == #[trigger] w[k] by {
        assert(t.subrange(p, p + w.len())[k] == w[k]);
    }
    assert(t[p] == w[0] && t[p + 1] == w[1] && t[p + 2] == w[2]);
    let u = bi_consumer_sam_tokens(l);
    assert(t[q] == w[3] && w[3] == u[0]);
    assert(t[q + 1] == w[4] && w[4] == u[1]);
    assert(t[q + 2] == w[5] && w[5] == u[2]);
    assert(t[q + 3] == w[6] && w[6] == u[3]);
    assert(t[q + 4] == w[7] && w[7] == u[4]);
    assert(t[q + 5] == w[8] && w[8] == u[5]);
    assert(t[q + 6] == w[9] && w[9] == u[6]);
    assert(t[q + 7] == w[10] && w[10] == u[7]);
    assert(t[q + 8] == w[11] && w[11] == u[8]);
    assert(t[q + 9] == w[12]);
    reads_last_parameter(t, q + 6);
    reads_next_parameter(t, q + 3, q + 8);
    reads_parameters(t, q + 3, q + 8);
    reads_method(t, name, q, q, q + 8, q + 10);
    assert(t.subrange(p + 13, p + 50) =~= bi_consumer_and_then_tokens(l)) by {
        assert forall|k: int| 0 <= k < 37 implies t[p + 13 + k] == #[trigger] bi_consumer_and_then_tokens(l)[k] by {
            assert(t.subrange(p, p + w.len())[13 + k] == w[13 + k]);
        }
    }
    stands_bi_consumer_and_then(t, name, p + 13, l);
    assert(t[p + 13] == bi_consumer_and_then_tokens(l)[0]);
    assert(t[p + 50] == w[50]);
    reads_members_end(t, name, p + 50);
    reads_next_member(t, name, p + 13, p + 50, p + 51);
    reads_next_member(t, name, p + 3, p + 13, p + 51);
    reads_interface(t, p, p + 51);
}

/// The tokens of `Object apply(Object t)`.
pub open spec fn function_sam_tokens(l: int) -> Seq<TokenV> {
    seq![
        name_tok("Object"@, l), name_tok("apply"@, l), sign_tok(Tok::LParen, l),
        name_tok("Object"@, l), name_tok("t"@, l), sign_tok(Tok::RParen, l),
    ]
}

proof fn spelling_of_function_sam()
    ensures
        "Object apply(Object t)"@.len() == 22,
        spells("Object apply(Object t)"@, 0, "Object"@),
        spells("Object apply(Object t)"@, 7, "apply"@),
        spells("Object apply(Object t)"@, 13, "Object"@),
        spells("Object apply(Object t)"@, 20, "t"@),
        "Object apply(Object t)"@[6] == ' ' && "Object apply(Object t)"@[12] == '(',
        "Object apply(Object t)"@[13] == 'O' && "Object apply(Object t)"@[19] == ' ',
        "Object apply(Object t)"@[21] == ')',
{
    reveal_strlit("Object apply(Object t)");
    reveal_strlit("Object");
    reveal_strlit("apply");
    reveal_strlit("t");
}

proof fn lexes_function_sam(s: Seq<char>, b: int, l: int, done: Seq<TokenV>)
    requires
        spells(s, b, "Object apply(Object t)"@),
    ensures
        rest(s, b, l, done) == rest(s, b + 22, l, done + function_sam_tokens(l)),
{
    words_are_known();
    spelling_of_function_sam();
    let text = "Object apply(Object t)"@;
    let d0 = done;
    reads_name_space(s, b, text, 0, 7, "Object"@, l, d0);
    let d1 = d0.push(name_tok("Object"@, l));
    reads_name(s, b, text, 7, 12, "apply"@, l, d1);
    let d2 = d1.push(name_tok("apply"@, l));
    reads_sign(s, b, text, 12, Tok::LParen, l, d2);
    let d3 = d2.push(sign_tok(Tok::LParen, l));
    reads_name_space(s, b, text, 13, 20, "Object"@, l, d3);
    let d4 = d3.push(name_tok("Object"@, l));
    reads_name(s, b, text, 20, 21, "t"@, l, d4);
    let d5 = d4.push(name_tok("t"@, l));
    reads_sign(s, b, text, 21, Tok::RParen, l, d5);
    let d6 = d5.push(sign_tok(Tok::RParen, l));
    assert(d6 =~= done + function_sam_tokens(l));
}

/// The tokens of the interface `Function`.
pub open spec fn function_row(l: int) -> Seq<TokenV> {
    seq![name_tok("interface"@, l), name_tok("Function"@, l), sign_tok(Tok::LBrace, l)] + function_sam_tokens(l)
        + seq![sign_tok(Tok::Semi, l)] + function_and_then_tokens(l) + function_compose_tokens(l) + function_identity_tokens(l) + seq![sign_tok(Tok::RBrace, l)]
}

/// The interface `Function` is lexed as these tokens.
pub proof fn lexes_function_row(s: Seq<char>, b: int, l: int, done: Seq<TokenV>)
    requires
        spells(s, b, interface_source("Function"@, "Object apply(Object t)"@, "default Function andThen(Function after) { return t -> after.apply(this.apply(t)); } default Function compose(Function before) { return v -> this.apply(before.apply(v)); } static Function identity() { return t -> t; }"@)),
    ensures
        rest(s, b, l, done) == rest(
            s,
            b + interface_source("Function"@, "Object apply(Object t)"@, "default Function andThen(Function after) { return t -> after.apply(this.apply(t)); } default Function compose(Function before) { return v -> this.apply(before.apply(v)); } static Function identity() { return t -> t; }"@).len(),
            next_line(l),
            done + function_row(l),
        ),
{
    words_are_known();
    signs_are_known();
    let x1 = "interface "@ + "Function"@;
    let x2 = x1 + " { "@;
    let x3 = x2 + "Object apply(Object t)"@;
    let x4 = x3 + "; "@;
    let x5 = x4 + "default Function andThen(Function after) { return t -> after.apply(this.apply(t)); } default Function compose(Function before) { return v -> this.apply(before.apply(v)); } static Function identity() { return t -> t; }"@;
    assert("Object apply(Object t)"@.len() == 22) by {
        reveal_strlit("Object apply(Object t)");
    }
    assert("default Function andThen(Function after) { return t -> after.apply(this.apply(t)); } default Function compose(Function before) { return v -> this.apply(before.apply(v)); } static Function identity() { return t -> t; }"@.len() == 217) by {
        reveal_strlit("default Function andThen(Function after) { return t -> after.apply(this.apply(t)); } default Function compose(Function before) { return v -> this.apply(before.apply(v)); } static Function identity() { return t -> t; }");
    }
    spells_both(s, b, x5, " }\n"@);
    spells_both(s, b, x4, "default Function andThen(Function after) { return t -> after.apply(this.apply(t)); } default Function compose(Function before) { return v -> this.apply(before.apply(v)); } static Function identity() { return t -> t; }"@);
    spells_both(s, b, x3, "; "@);
    spells_both(s, b, x2, "Object apply(Object t)"@);
    spells_both(s, b, x1, " { "@);
    spells_both(s, b, "interface "@, "Function"@);
    let d0 = done;
    reads_name_space(s, b, "interface "@, 0, 10, "interface"@, l, d0);
    let d1 = d0.push(name_tok("interface"@, l));
    reads_gap(s, b + 18, " { "@, 0);
    lexes_name_space(s, b + 10, b + 19, "Function"@, l, d1);
    let d2 = d1.push(name_tok("Function"@, l));
    reads_sign(s, b + 18, " { "@, 1, Tok::LBrace, l, d2);
    let d3 = d2.push(sign_tok(Tok::LBrace, l));
    reads_space(s, b + 18, " { "@, 2, l, d3);
    lexes_function_sam(s, b + 21, l, d3);
    let d4 = d3 + function_sam_tokens(l);
    reads_sign(s, b + 43, "; "@, 0, Tok::Semi, l, d4);
    let d5 = d4.push(sign_tok(Tok::Semi, l));
    reads_space(s, b + 43, "; "@, 1, l, d5);
    assert("default Function andThen(Function after) { return t -> after.apply(this.apply(t)); } default Function compose(Function before) { return v -> this.apply(before.apply(v)); } static Function identity() { return t -> t; }"@ =~= function_and_then_text() + " "@ + function_compose_text() + " "@ + function_identity_text()) by {
        reveal_strlit("default Function andThen(Function after) { return t -> after.apply(this.apply(t)); } default Function compose(Function before) { return v -> this.apply(before.apply(v)); } static Function identity() { return t -> t; }");
        reveal_strlit(" ");
        reveal_strlit("default Function andThen(Function after) { return t -> after.apply(this.apply(t)); }");
        reveal_strlit("default Function compose(Function before) { return v -> this.apply(before.apply(v)); }");
        reveal_strlit("static Function identity() { return t -> t; }");
    }
    spelling_of_function_and_then();
    spelling_of_function_compose();
    spelling_of_function_identity();
    spells_both(s, b + 45, function_and_then_text() + " "@ + function_compose_text() + " "@, function_identity_text());
    spells_both(s, b + 45, function_and_then_text() + " "@ + function_compose_text(), " "@);
    spells_both(s, b + 45, function_and_then_text() + " "@, function_compose_text());
    spells_both(s, b + 45, function_and_then_text(), " "@);
    lexes_function_and_then(s, b + 45, l, d5);
    let d6 = d5 + function_and_then_tokens(l);
    reads_space(s, b + 129, " "@, 0, l, d6);
    lexes_function_compose(s, b + 130, l, d6);
    let d7 = d6 + function_compose_tokens(l);
    reads_space(s, b + 216, " "@, 0, l, d7);
    lexes_function_identity(s, b + 217, l, d7);
    let d8 = d7 + function_identity_tokens(l);
    reads_space(s, b + 262, " }\n"@, 0, l, d8);
    reads_sign(s, b + 262, " }\n"@, 1, Tok::RBrace, l, d8);
    let d9 = d8.push(sign_tok(Tok::RBrace, l));
    reads_line(s, b + 262, " }\n"@, 2, l, d9);
    assert(d9 =~= done + function_row(l));
}

/// The interface `Function` is read as one.
pub proof fn declares_function(t: Seq<TokenV>, p: int, l: int)
    requires
        0 <= p,
        p + function_row(l).len() < t.len(),
        t.subrange(p, p + function_row(l).len()) == function_row(l),
    ensures
        declares_class(t, "Function"@, None, true, p, p + function_row(l).len()),
        t[p].kind != Tok::Eof,
{
    words_are_known();
    let name = "Function"@;
    let w = function_row(l);
    assert(function_sam_tokens(l).len() == 6);
    assert(function_and_then_tokens(l).len() == 24);
    assert(function_compose_tokens(l).len() == 24);
    assert(function_identity_tokens(l).len() == 12);
    assert(w.len() == 71);
    let q = p + 3;
    assert forall|k: int| 0 <= k < 71 implies t[p + k] == #[trigger] w[k] by {
        assert(t.subrange(p, p + w.len())[k] == w[k]);
    }
    assert(t[p] == w[0] && t[p + 1] == w[1] && t[p + 2] == w[2]);
    let u = function_sam_tokens(l);
    assert(t[q] == w[3] && w[3] == u[0]);
    assert(t[q + 1] == w[4] && w[4] == u[1]);
    assert(t[q + 2] == w[5] && w[5] == u[2]);
    assert(t[q + 3] == w[6] && w[6] == u[3]);
    assert(t[q + 4] == w[7] && w[7] == u[4]);
    assert(t[q + 5] == w[8] && w[8] == u[5]);
    assert(t[q + 6] == w[9]);
    reads_last_parameter(t, q + 3);
    reads_parameters(t, q + 3, q + 5);
    reads_method(t, name, q, q, q + 5, q + 7);
    assert(t.subrange(p + 10, p + 34) =~= function_and_then_tokens(l)) by {
        assert forall|k: int| 0 <= k < 24 implies t[p + 10 + k] == #[trigger] function_and_then_tokens(l)[k] by {
            assert(t.subrange(p, p + w.len())[10 + k] == w[10 + k]);
        }
    }
    stands_function_and_then(t, name, p + 10, l);
    assert(t[p + 10] == function_and_then_tokens(l)[0]);
    assert(t.subrange(p + 34, p + 58) =~= function_compose_tokens(l)) by {
        assert forall|k: int| 0 <= k < 24 implies t[p + 34 + k] == #[trigger] function_compose_tokens(l)[k] by {
            assert(t.subrange(p, p + w.len())[34 + k] == w[34 + k]);
        }
    }
    stands_function_compose(t, name, p + 34, l);
    assert(t[p + 34] == function_compose_tokens(l)[0]);
    assert(t.subrange(p + 58, p + 70) =~= function_identity_tokens(l)) by {
        assert forall|k: int| 0 <= k < 12 implies t[p + 58 + k] == #[trigger] function_identity_tokens(l)[k] by {
            assert(t.subrange(p, p + w.len())[58 + k] == w[58 + k]);
        }
    }
    stands_function_identity(t, name, p + 58, l);
    assert(t[p + 58] == function_identity_tokens(l)[0]);
    assert(t[p + 70] == w[70]);
    reads_members_end(t, name, p + 70);
    reads_next_member(t, name, p + 58, p + 70, p + 71);
    reads_next_member(t, name, p + 34, p + 58, p + 71);
    reads_next_member(t, name, p + 10, p + 34, p + 71);
    reads_next_member(t, name, p + 3, p + 10, p + 71);
    reads_interface(t, p, p + 71);
}

/// The tokens of `Object apply(Object t, Object u)`.
pub open spec fn bi_function_sam_tokens(l: int) -> Seq<TokenV> {
    seq![
        name_tok("Object"@, l), name_tok("apply"@, l), sign_tok(Tok::LParen, l),
        name_tok("Object"@, l), name_tok("t"@, l), sign_tok(Tok::Comma, l),
        name_tok("Object"@, l), name_tok("u"@, l), sign_tok(Tok::RParen, l),
    ]
}

proof fn spelling_of_bi_function_sam()
    ensures
        "Object apply(Object t, Object u)"@.len() == 32,
        spells("Object apply(Object t, Object u)"@, 0, "Object"@),
        spells("Object apply(Object t, Object u)"@, 7, "apply"@),
        spells("Object apply(Object t, Object u)"@, 13, "Object"@),
        spells("Object apply(Object t, Object u)"@, 20, "t"@),
        spells("Object apply(Object t, Object u)"@, 23, "Object"@),
        spells("Object apply(Object t, Object u)"@, 30, "u"@),
        "Object apply(Object t, Object u)"@[6] == ' ',
        "Object apply(Object t, Object u)"@[12] == '(',
        "Object apply(Object t, Object u)"@[13] == 'O',
        "Object apply(Object t, Object u)"@[19] == ' ',
        "Object apply(Object t, Object u)"@[21] == ',',
        "Object apply(Object t, Object u)"@[22] == ' ',
        "Object apply(Object t, Object u)"@[29] == ' ',
        "Object apply(Object t, Object u)"@[31] == ')',
{
    reveal_strlit("Object apply(Object t, Object u)");
    reveal_strlit("Object");
    reveal_strlit("apply");
    reveal_strlit("t");
    reveal_strlit("u");
}

proof fn lexes_bi_function_sam(s: Seq<char>, b: int, l: int, done: Seq<TokenV>)
    requires
        spells(s, b, "Object apply(Object t, Object u)"@),
    ensures
        rest(s, b, l, done) == rest(s, b + 32, l, done + bi_function_sam_tokens(l)),
{
    words_are_known();
    spelling_of_bi_function_sam();
    let text = "Object apply(Object t, Object u)"@;
    let d0 = done;
    reads_name_space(s, b, text, 0, 7, "Object"@, l, d0);
    let d1 = d0.push(name_tok("Object"@, l));
    reads_name(s, b, text, 7, 12, "apply"@, l, d1);
    let d2 = d1.push(name_tok("apply"@, l));
    reads_sign(s, b, text, 12, Tok::LParen, l, d2);
    let d3 = d2.push(sign_tok(Tok::LParen, l));
    reads_name_space(s, b, text, 13, 20, "Object"@, l, d3);
    let d4 = d3.push(name_tok("Object"@, l));
    reads_name(s, b, text, 20, 21, "t"@, l, d4);
    let d5 = d4.push(name_tok("t"@, l));
    reads_sign(s, b, text, 21, Tok::Comma, l, d5);
    let d6 = d5.push(sign_tok(Tok::Comma, l));
    reads_space(s, b, text, 22, l, d6);
    reads_name_space(s, b, text, 23, 30, "Object"@, l, d6);
    let d7 = d6.push(name_tok("Object"@, l));
    reads_name(s, b, text, 30, 31, "u"@, l, d7);
    let d8 = d7.push(name_tok("u"@, l));
    reads_sign(s, b, text, 31, Tok::RParen, l, d8);
    let d9 = d8.push(sign_tok(Tok::RParen, l));
    assert(d9 =~= done + bi_function_sam_tokens(l));
}

/// The tokens of the interface `BiFunction`.
pub open spec fn bi_function_row(l: int) -> Seq<TokenV> {
    seq![name_tok("interface"@, l), name_tok("BiFunction"@, l), sign_tok(Tok::LBrace, l)] + bi_function_sam_tokens(l)
        + seq![sign_tok(Tok::Semi, l)] + bi_function_and_then_tokens(l) + seq![sign_tok(Tok::RBrace, l)]
}

/// The interface `BiFunction` is lexed as these tokens.
pub proof fn lexes_bi_function_row(s: Seq<char>, b: int, l: int, done: Seq<TokenV>)
    requires
        spells(s, b, interface_source("BiFunction"@, "Object apply(Object t, Object u)"@, "default BiFunction andThen(Function after) { return (t, u) -> after.apply(this.apply(t, u)); }"@)),
    ensures
        rest(s, b, l, done) == rest(
            s,
            b + interface_source("BiFunction"@, "Object apply(Object t, Object u)"@, "default BiFunction andThen(Function after) { return (t, u) -> after.apply(this.apply(t, u)); }"@).len(),
            next_line(l),
            done + bi_function_row(l),
        ),
{
    words_are_known();
    signs_are_known();
    let x1 = "interface "@ + "BiFunction"@;
    let x2 = x1 + " { "@;
    let x3 = x2 + "Object apply(Object t, Object u)"@;
    let x4 = x3 + "; "@;
    let x5 = x4 + "default BiFunction andThen(Function after) { return (t, u) -> after.apply(this.apply(t, u)); }"@;
    assert("Object apply(Object t, Object u)"@.len() == 32) by {
        reveal_strlit("Object apply(Object t, Object u)");
    }
    assert("default BiFunction andThen(Function after) { return (t, u) -> after.apply(this.apply(t, u)); }"@.len() == 94) by {
        reveal_strlit("default BiFunction andThen(Function after) { return (t, u) -> after.apply(this.apply(t, u)); }");
    }
    spells_both(s, b, x5, " }\n"@);
    spells_both(s, b, x4, "default BiFunction andThen(Function after) { return (t, u) -> after.apply(this.apply(t, u)); }"@);
    spells_both(s, b, x3, "; "@);
    spells_both(s, b, x2, "Object apply(Object t, Object u)"@);
    spells_both(s, b, x1, " { "@);
    spells_both(s, b, "interface "@, "BiFunction"@);
    let d0 = done;
    reads_name_space(s, b, "interface "@, 0, 10, "interface"@, l, d0);
    let d1 = d0.push(name_tok("interface"@, l));
    reads_gap(s, b + 20, " { "@, 0);
    lexes_name_space(s, b + 10, b + 21, "BiFunction"@, l, d1);
    let d2 = d1.push(name_tok("BiFunction"@, l));
    reads_sign(s, b + 20, " { "@, 1, Tok::LBrace, l, d2);
    let d3 = d2.push(sign_tok(Tok::LBrace, l));
    reads_space(s, b + 20, " { "@, 2, l, d3);
    lexes_bi_function_sam(s, b + 23, l, d3);
    let d4 = d3 + bi_function_sam_tokens(l);
    reads_sign(s, b + 55, "; "@, 0, Tok::Semi, l, d4);
    let d5 = d4.push(sign_tok(Tok::Semi, l));
    reads_space(s, b + 55, "; "@, 1, l, d5);
    spelling_of_bi_function_and_then();
    lexes_bi_function_and_then(s, b + 57, l, d5);
    let d6 = d5 + bi_function_and_then_tokens(l);
    reads_space(s, b + 151, " }\n"@, 0, l, d6);
    reads_sign(s, b + 151, " }\n"@, 1, Tok::RBrace, l, d6);
    let d7 = d6.push(sign_tok(Tok::RBrace, l));
    reads_line(s, b + 151, " }\n"@, 2, l, d7);
    assert(d7 =~= done + bi_function_row(l));
}

/// The interface `BiFunction` is read as one.
pub proof fn declares_bi_function(t: Seq<TokenV>, p: int, l: int)
    requires
        0 <= p,
        p + bi_function_row(l).len() < t.len(),
        t.subrange(p, p + bi_function_row(l).len()) == bi_function_row(l),
    ensures
        declares_class(t, "BiFunction"@, None, true, p, p + bi_function_row(l).len()),
        t[p].kind != Tok::Eof,
{
    words_are_known();
    let name = "BiFunction"@;
    let w = bi_function_row(l);
    assert(bi_function_sam_tokens(l).len() == 9);
    assert(bi_function_and_then_tokens(l).len() == 30);
    assert(w.len() == 44);
    let q = p + 3;
    assert forall|k: int| 0 <= k < 44 implies t[p + k] == #[trigger] w[k] by {
        assert(t.subrange(p, p + w.len())[k] == w[k]);
    }
    assert(t[p] == w[0] && t[p + 1] == w[1] && t[p + 2] == w[2]);
    let u = bi_function_sam_tokens(l);
    assert(t[q] == w[3] && w[3] == u[0]);
    assert(t[q + 1] == w[4] && w[4] == u[1]);
    assert(t[q + 2] == w[5] && w[5] == u[2]);
    assert(t[q + 3] == w[6] && w[6] == u[3]);
    assert(t[q + 4] == w[7] && w[7] == u[4]);
    assert(t[q + 5] == w[8] && w[8] == u[5]);
    assert(t[q + 6] == w[9] && w[9] == u[6]);
    assert(t[q + 7] == w[10] && w[10] == u[7]);
    assert(t[q + 8] == w[11] && w[11] == u[8]);
    assert(t[q + 9] == w[12]);
    reads_last_parameter(t, q + 6);
    reads_next_parameter(t, q + 3, q + 8);
    reads_parameters(t, q + 3, q + 8);
    reads_method(t, name, q, q, q + 8, q + 10);
    assert(t.subrange(p + 13, p + 43) =~= bi_function_and_then_tokens(l)) by {
        assert forall|k: int| 0 <= k < 30 implies t[p + 13 + k] == #[trigger] bi_function_and_then_tokens(l)[k] by {
            assert(t.subrange(p, p + w.len())[13 + k] == w[13 + k]);
        }
    }
    stands_bi_function_and_then(t, name, p + 13, l);
    assert(t[p + 13] == bi_function_and_then_tokens(l)[0]);
    assert(t[p + 43] == w[43]);
    reads_members_end(t, name, p + 43);
    reads_next_member(t, name, p + 13, p + 43, p + 44);
    reads_next_member(t, name, p + 3, p + 13, p + 44);
    reads_interface(t, p, p + 44);
}

/// The tokens of `Object apply(Object t)`.
pub open spec fn unary_operator_sam_tokens(l: int) -> Seq<TokenV> {
    seq![
        name_tok("Object"@, l), name_tok("apply"@, l), sign_tok(Tok::LParen, l),
        name_tok("Object"@, l), name_tok("t"@, l), sign_tok(Tok::RParen, l),
    ]
}

proof fn spelling_of_unary_operator_sam()
    ensures
        "Object apply(Object t)"@.len() == 22,
        spells("Object apply(Object t)"@, 0, "Object"@),
        spells("Object apply(Object t)"@, 7, "apply"@),
        spells("Object apply(Object t)"@, 13, "Object"@),
        spells("Object apply(Object t)"@, 20, "t"@),
        "Object apply(Object t)"@[6] == ' ' && "Object apply(Object t)"@[12] == '(',
        "Object apply(Object t)"@[13] == 'O' && "Object apply(Object t)"@[19] == ' ',
        "Object apply(Object t)"@[21] == ')',
{
    reveal_strlit("Object apply(Object t)");
    reveal_strlit("Object");
    reveal_strlit("apply");
    reveal_strlit("t");
}

proof fn lexes_unary_operator_sam(s: Seq<char>, b: int, l: int, done: Seq<TokenV>)
    requires
        spells(s, b, "Object apply(Object t)"@),
    ensures
        rest(s, b, l, done) == rest(s, b + 22, l, done + unary_operator_sam_tokens(l)),
{
    words_are_known();
    spelling_of_unary_operator_sam();
    let text = "Object apply(Object t)"@;
    let d0 = done;
    reads_name_space(s, b, text, 0, 7, "Object"@, l, d0);
    let d1 = d0.push(name_tok("Object"@, l));
    reads_name(s, b, text, 7, 12, "apply"@, l, d1);
    let d2 = d1.push(name_tok("apply"@, l));
    reads_sign(s, b, text, 12, Tok::LParen, l, d2);
    let d3 = d2.push(sign_tok(Tok::LParen, l));
    reads_name_space(s, b, text, 13, 20, "Object"@, l, d3);
    let d4 = d3.push(name_tok("Object"@, l));
    reads_name(s, b, text, 20, 21, "t"@, l, d4);
    let d5 = d4.push(name_tok("t"@, l));
    reads_sign(s, b, text, 21, Tok::RParen, l, d5);
    let d6 = d5.push(sign_tok(Tok::RParen, l));
    assert(d6 =~= done + unary_operator_sam_tokens(l));
}

/// The tokens of the interface `UnaryOperator`.
pub open spec fn unary_operator_row(l: int) -> Seq<TokenV> {
    seq![name_tok("interface"@, l), name_tok("UnaryOperator"@, l), sign_tok(Tok::LBrace, l)] + unary_operator_sam_tokens(l)
        + seq![sign_tok(Tok::Semi, l)] + unary_operator_identity_tokens(l) + seq![sign_tok(Tok::RBrace, l)]
}

/// The interface `UnaryOperator` is lexed as these tokens.
pub proof fn lexes_unary_operator_row(s: Seq<char>, b: int, l: int, done: Seq<TokenV>)
    requires
        spells(s, b, interface_source("UnaryOperator"@, "Object apply(Object t)"@, "static UnaryOperator identity() { return t -> t; }"@)),
    ensures
        rest(s, b, l, done) == rest(
            s,
            b + interface_source("UnaryOperator"@, "Object apply(Object t)"@, "static UnaryOperator identity() { return t -> t; }"@).len(),
            next_line(l),
            done + unary_operator_row(l),
        ),
{
    words_are_known();
    signs_are_known();
    let x1 = "interface "@ + "UnaryOperator"@;
    let x2 = x1 + " { "@;
    let x3 = x2 + "Object apply(Object t)"@;
    let x4 = x3 + "; "@;
    let x5 = x4 + "static UnaryOperator identity() { return t -> t; }"@;
    assert("Object apply(Object t)"@.len() == 22) by {
        reveal_strlit("Object apply(Object t)");
    }
    assert("static UnaryOperator identity() { return t -> t; }"@.len() == 50) by {
        reveal_strlit("static UnaryOperator identity() { return t -> t; }");
    }
    spells_both(s, b, x5, " }\n"@);
    spells_both(s, b, x4, "static UnaryOperator identity() { return t -> t; }"@);
    spells_both(s, b, x3, "; "@);
    spells_both(s, b, x2, "Object apply(Object t)"@);
    spells_both(s, b, x1, " { "@);
    spells_both(s, b, "interface "@, "UnaryOperator"@);
    let d0 = done;
    reads_name_space(s, b, "interface "@, 0, 10, "interface"@, l, d0);
    let d1 = d0.push(name_tok("interface"@, l));
    reads_gap(s, b + 23, " { "@, 0);
    lexes_name_space(s, b + 10, b + 24, "UnaryOperator"@, l, d1);
    let d2 = d1.push(name_tok("UnaryOperator"@, l));
    reads_sign(s, b + 23, " { "@, 1, Tok::LBrace, l, d2);
    let d3 = d2.push(sign_tok(Tok::LBrace, l));
    reads_space(s, b + 23, " { "@, 2, l, d3);
    lexes_unary_operator_sam(s, b + 26, l, d3);
    let d4 = d3 + unary_operator_sam_tokens(l);
    reads_sign(s, b + 48, "; "@, 0, Tok::Semi, l, d4);
    let d5 = d4.push(sign_tok(Tok::Semi, l));
    reads_space(s, b + 48, "; "@, 1, l, d5);
    spelling_of_unary_operator_identity();
    lexes_unary_operator_identity(s, b + 50, l, d5);
    let d6 = d5 + unary_operator_identity_tokens(l);
    reads_space(s, b + 100, " }\n"@, 0, l, d6);
    reads_sign(s, b + 100, " }\n"@, 1, Tok::RBrace, l, d6);
    let d7 = d6.push(sign_tok(Tok::RBrace, l));
    reads_line(s, b + 100, " }\n"@, 2, l, d7);
    assert(d7 =~= done + unary_operator_row(l));
}

/// The interface `UnaryOperator` is read as one.
pub proof fn declares_unary_operator(t: Seq<TokenV>, p: int, l: int)
    requires
        0 <= p,
        p + unary_operator_row(l).len() < t.len(),
        t.subrange(p, p + unary_operator_row(l).len()) == unary_operator_row(l),
    ensures
        declares_class(t, "UnaryOperator"@, None, true, p, p + unary_operator_row(l).len()),
        t[p].kind != Tok::Eof,
{
    words_are_known();
    let name = "UnaryOperator"@;
    let w = unary_operator_row(l);
    assert(unary_operator_sam_tokens(l).len() == 6);
    assert(unary_operator_identity_tokens(l).len() == 12);
    assert(w.len() == 23);
    let q = p + 3;
    assert forall|k: int| 0 <= k < 23 implies t[p + k] == #[trigger] w[k] by {
        assert(t.subrange(p, p + w.len())[k] == w[k]);
    }
    assert(t[p] == w[0] && t[p + 1] == w[1] && t[p + 2] == w[2]);
    let u = unary_operator_sam_tokens(l);
    assert(t[q] == w[3] && w[3] == u[0]);
    assert(t[q + 1] == w[4] && w[4] == u[1]);
    assert(t[q + 2] == w[5] && w[5] == u[2]);
    assert(t[q + 3] == w[6] && w[6] == u[3]);
    assert(t[q + 4] == w[7] && w[7] == u[4]);
    assert(t[q + 5] == w[8] && w[8] == u[5]);
    assert(t[q + 6] == w[9]);
    reads_last_parameter(t, q + 3);
    reads_parameters(t, q + 3, q + 5);
    reads_method(t, name, q, q, q + 5, q + 7);
    assert(t.subrange(p + 10, p + 22) =~= unary_operator_identity_tokens(l)) by {
        assert forall|k: int| 0 <= k < 12 implies t[p + 10 + k] == #[trigger] unary_operator_identity_tokens(l)[k] by {
            assert(t.subrange(p, p + w.len())[10 + k] == w[10 + k]);
        }
    }
    stands_unary_operator_identity(t, name, p + 10, l);
    assert(t[p + 10] == unary_operator_identity_tokens(l)[0]);
    assert(t[p + 22] == w[22]);
    reads_members_end(t, name, p + 22);
    reads_next_member(t, name, p + 10, p + 22, p + 23);
    reads_next_member(t, name, p + 3, p + 10, p + 23);
    reads_interface(t, p, p + 23);
}

/// The tokens of `Object apply(Object t, Object u)`.
pub open spec fn binary_operator_sam_tokens(l: int) -> Seq<TokenV> {
    seq![
        name_tok("Object"@, l), name_tok("apply"@, l), sign_tok(Tok::LParen, l),
        name_tok("Object"@, l), name_tok("t"@, l), sign_tok(Tok::Comma, l),
        name_tok("Object"@, l), name_tok("u"@, l), sign_tok(Tok::RParen, l),
    ]
}

proof fn spelling_of_binary_operator_sam()
    ensures
        "Object apply(Object t, Object u)"@.len() == 32,
        spells("Object apply(Object t, Object u)"@, 0, "Object"@),
        spells("Object apply(Object t, Object u)"@, 7, "apply"@),
        spells("Object apply(Object t, Object u)"@, 13, "Object"@),
        spells("Object apply(Object t, Object u)"@, 20, "t"@),
        spells("Object apply(Object t, Object u)"@, 23, "Object"@),
        spells("Object apply(Object t, Object u)"@, 30, "u"@),
        "Object apply(Object t, Object u)"@[6] == ' ',
        "Object apply(Object t, Object u)"@[12] == '(',
        "Object apply(Object t, Object u)"@[13] == 'O',
        "Object apply(Object t, Object u)"@[19] == ' ',
        "Object apply(Object t, Object u)"@[21] == ',',
        "Object apply(Object t, Object u)"@[22] == ' ',
        "Object apply(Object t, Object u)"@[29] == ' ',
        "Object apply(Object t, Object u)"@[31] == ')',
{
    reveal_strlit("Object apply(Object t, Object u)");
    reveal_strlit("Object");
    reveal_strlit("apply");
    reveal_strlit("t");
    reveal_strlit("u");
}

proof fn lexes_binary_operator_sam(s: Seq<char>, b: int, l: int, done: Seq<TokenV>)
    requires
        spells(s, b, "Object apply(Object t, Object u)"@),
    ensures
        rest(s, b, l, done) == rest(s, b + 32, l, done + binary_operator_sam_tokens(l)),
{
    words_are_known();
    spelling_of_binary_operator_sam();
    let text = "Object apply(Object t, Object u)"@;
    let d0 = done;
    reads_name_space(s, b, text, 0, 7, "Object"@, l, d0);
    let d1 = d0.push(name_tok("Object"@, l));
    reads_name(s, b, text, 7, 12, "apply"@, l, d1);
    let d2 = d1.push(name_tok("apply"@, l));
    reads_sign(s, b, text, 12, Tok::LParen, l, d2);
    let d3 = d2.push(sign_tok(Tok::LParen, l));
    reads_name_space(s, b, text, 13, 20, "Object"@, l, d3);
    let d4 = d3.push(name_tok("Object"@, l));
    reads_name(s, b, text, 20, 21, "t"@, l, d4);
    let d5 = d4.push(name_tok("t"@, l));
    reads_sign(s, b, text, 21, Tok::Comma, l, d5);
    let d6 = d5.push(sign_tok(Tok::Comma, l));
    reads_space(s, b, text, 22, l, d6);
    reads_name_space(s, b, text, 23, 30, "Object"@, l, d6);
    let d7 = d6.push(name_tok("Object"@, l));
    reads_name(s, b, text, 30, 31, "u"@, l, d7);
    let d8 = d7.push(name_tok("u"@, l));
    reads_sign(s, b, text, 31, Tok::RParen, l, d8);
    let d9 = d8.push(sign_tok(Tok::RParen, l));
    assert(d9 =~= done + binary_operator_sam_tokens(l));
}

/// The tokens of the interface `BinaryOperator`.
pub open spec fn binary_operator_row(l: int) -> Seq<TokenV> {
    seq![name_tok("interface"@, l), name_tok("BinaryOperator"@, l), sign_tok(Tok::LBrace, l)] + binary_operator_sam_tokens(l)
        + seq![sign_tok(Tok::Semi, l)] + binary_operator_min_by_tokens(l) + binary_operator_max_by_tokens(l) + seq![sign_tok(Tok::RBrace, l)]
}

/// The interface `BinaryOperator` is lexed as these tokens.
pub proof fn lexes_binary_operator_row(s: Seq<char>, b: int, l: int, done: Seq<TokenV>)
    requires
        spells(s, b, interface_source("BinaryOperator"@, "Object apply(Object t, Object u)"@, "static BinaryOperator minBy(Comparator comparator) { return (a, b) -> comparator.compare(a, b) <= 0 ? a : b; } static BinaryOperator maxBy(Comparator comparator) { return (a, b) -> comparator.compare(a, b) >= 0 ? a : b; }"@)),
    ensures
        rest(s, b, l, done) == rest(
            s,
            b + interface_source("BinaryOperator"@, "Object apply(Object t, Object u)"@, "static BinaryOperator minBy(Comparator comparator) { return (a, b) -> comparator.compare(a, b) <= 0 ? a : b; } static BinaryOperator maxBy(Comparator comparator) { return (a, b) -> comparator.compare(a, b) >= 0 ? a : b; }"@).len(),
            next_line(l),
            done + binary_operator_row(l),
        ),
{
    words_are_known();
    signs_are_known();
    let x1 = "interface "@ + "BinaryOperator"@;
    let x2 = x1 + " { "@;
    let x3 = x2 + "Object apply(Object t, Object u)"@;
    let x4 = x3 + "; "@;
    let x5 = x4 + "static BinaryOperator minBy(Comparator comparator) { return (a, b) -> comparator.compare(a, b) <= 0 ? a : b; } static BinaryOperator maxBy(Comparator comparator) { return (a, b) -> comparator.compare(a, b) >= 0 ? a : b; }"@;
    assert("Object apply(Object t, Object u)"@.len() == 32) by {
        reveal_strlit("Object apply(Object t, Object u)");
    }
    assert("static BinaryOperator minBy(Comparator comparator) { return (a, b) -> comparator.compare(a, b) <= 0 ? a : b; } static BinaryOperator maxBy(Comparator comparator) { return (a, b) -> comparator.compare(a, b) >= 0 ? a : b; }"@.len() == 221) by {
        reveal_strlit("static BinaryOperator minBy(Comparator comparator) { return (a, b) -> comparator.compare(a, b) <= 0 ? a : b; } static BinaryOperator maxBy(Comparator comparator) { return (a, b) -> comparator.compare(a, b) >= 0 ? a : b; }");
    }
    spells_both(s, b, x5, " }\n"@);
    spells_both(s, b, x4, "static BinaryOperator minBy(Comparator comparator) { return (a, b) -> comparator.compare(a, b) <= 0 ? a : b; } static BinaryOperator maxBy(Comparator comparator) { return (a, b) -> comparator.compare(a, b) >= 0 ? a : b; }"@);
    spells_both(s, b, x3, "; "@);
    spells_both(s, b, x2, "Object apply(Object t, Object u)"@);
    spells_both(s, b, x1, " { "@);
    spells_both(s, b, "interface "@, "BinaryOperator"@);
    let d0 = done;
    reads_name_space(s, b, "interface "@, 0, 10, "interface"@, l, d0);
    let d1 = d0.push(name_tok("interface"@, l));
    reads_gap(s, b + 24, " { "@, 0);
    lexes_name_space(s, b + 10, b + 25, "BinaryOperator"@, l, d1);
    let d2 = d1.push(name_tok("BinaryOperator"@, l));
    reads_sign(s, b + 24, " { "@, 1, Tok::LBrace, l, d2);
    let d3 = d2.push(sign_tok(Tok::LBrace, l));
    reads_space(s, b + 24, " { "@, 2, l, d3);
    lexes_binary_operator_sam(s, b + 27, l, d3);
    let d4 = d3 + binary_operator_sam_tokens(l);
    reads_sign(s, b + 59, "; "@, 0, Tok::Semi, l, d4);
    let d5 = d4.push(sign_tok(Tok::Semi, l));
    reads_space(s, b + 59, "; "@, 1, l, d5);
    assert("static BinaryOperator minBy(Comparator comparator) { return (a, b) -> comparator.compare(a, b) <= 0 ? a : b; } static BinaryOperator maxBy(Comparator comparator) { return (a, b) -> comparator.compare(a, b) >= 0 ? a : b; }"@ =~= binary_operator_min_by_text() + " "@ + binary_operator_max_by_text()) by {
        reveal_strlit("static BinaryOperator minBy(Comparator comparator) { return (a, b) -> comparator.compare(a, b) <= 0 ? a : b; } static BinaryOperator maxBy(Comparator comparator) { return (a, b) -> comparator.compare(a, b) >= 0 ? a : b; }");
        reveal_strlit(" ");
        reveal_strlit("static BinaryOperator minBy(Comparator comparator) { return (a, b) -> comparator.compare(a, b) <= 0 ? a : b; }");
        reveal_strlit("static BinaryOperator maxBy(Comparator comparator) { return (a, b) -> comparator.compare(a, b) >= 0 ? a : b; }");
    }
    spelling_of_binary_operator_min_by();
    spelling_of_binary_operator_max_by();
    spells_both(s, b + 61, binary_operator_min_by_text() + " "@, binary_operator_max_by_text());
    spells_both(s, b + 61, binary_operator_min_by_text(), " "@);
    lexes_binary_operator_min_by(s, b + 61, l, d5);
    let d6 = d5 + binary_operator_min_by_tokens(l);
    reads_space(s, b + 171, " "@, 0, l, d6);
    lexes_binary_operator_max_by(s, b + 172, l, d6);
    let d7 = d6 + binary_operator_max_by_tokens(l);
    reads_space(s, b + 282, " }\n"@, 0, l, d7);
    reads_sign(s, b + 282, " }\n"@, 1, Tok::RBrace, l, d7);
    let d8 = d7.push(sign_tok(Tok::RBrace, l));
    reads_line(s, b + 282, " }\n"@, 2, l, d8);
    assert(d8 =~= done + binary_operator_row(l));
}

/// The interface `BinaryOperator` is read as one.
pub proof fn declares_binary_operator(t: Seq<TokenV>, p: int, l: int)
    requires
        0 <= p,
        p + binary_operator_row(l).len() < t.len(),
        t.subrange(p, p + binary_operator_row(l).len()) == binary_operator_row(l),
    ensures
        declares_class(t, "BinaryOperator"@, None, true, p, p + binary_operator_row(l).len()),
        t[p].kind != Tok::Eof,
{
    words_are_known();
    let name = "BinaryOperator"@;
    let w = binary_operator_row(l);
    assert(binary_operator_sam_tokens(l).len() == 9);
    assert(binary_operator_min_by_tokens(l).len() == 31);
    assert(binary_operator_max_by_tokens(l).len() == 31);
    assert(w.len() == 76);
    let q = p + 3;
    assert forall|k: int| 0 <= k < 76 implies t[p + k] == #[trigger] w[k] by {
        assert(t.subrange(p, p + w.len())[k] == w[k]);
    }
    assert(t[p] == w[0] && t[p + 1] == w[1] && t[p + 2] == w[2]);
    let u = binary_operator_sam_tokens(l);
    assert(t[q] == w[3] && w[3] == u[0]);
    assert(t[q + 1] == w[4] && w[4] == u[1]);
    assert(t[q + 2] == w[5] && w[5] == u[2]);
    assert(t[q + 3] == w[6] && w[6] == u[3]);
    assert(t[q + 4] == w[7] && w[7] == u[4]);
    assert(t[q + 5] == w[8] && w[8] == u[5]);
    assert(t[q + 6] == w[9] && w[9] == u[6]);
    assert(t[q + 7] == w[10] && w[10] == u[7]);
    assert(t[q + 8] == w[11] && w[11] == u[8]);
    assert(t[q + 9] == w[12]);
    reads_last_parameter(t, q + 6);
    reads_next_parameter(t, q + 3, q + 8);
    reads_parameters(t, q + 3, q + 8);
    reads_method(t, name, q, q, q + 8, q + 10);
    assert(t.subrange(p + 13, p + 44) =~= binary_operator_min_by_tokens(l)) by {
        assert forall|k: int| 0 <= k < 31 implies t[p + 13 + k] == #[trigger] binary_operator_min_by_tokens(l)[k] by {
            assert(t.subrange(p, p + w.len())[13 + k] == w[13 + k]);
        }
    }
    stands_binary_operator_min_by(t, name, p + 13, l);
    assert(t[p + 13] == binary_operator_min_by_tokens(l)[0]);
    assert(t.subrange(p + 44, p + 75) =~= binary_operator_max_by_tokens(l)) by {
        assert forall|k: int| 0 <= k < 31 implies t[p + 44 + k] == #[trigger] binary_operator_max_by_tokens(l)[k] by {
            assert(t.subrange(p, p + w.len())[44 + k] == w[44 + k]);
        }
    }
    stands_binary_operator_max_by(t, name, p + 44, l);
    assert(t[p + 44] == binary_operator_max_by_tokens(l)[0]);
    assert(t[p + 75] == w[75]);
    reads_members_end(t, name, p + 75);
    reads_next_member(t, name, p + 44, p + 75, p + 76);
    reads_next_member(t, name, p + 13, p + 44, p + 76);
    reads_next_member(t, name, p + 3, p + 13, p + 76);
    reads_interface(t, p, p + 76);
}

/// The tokens of `boolean test(Object t)`.
pub open spec fn predicate_sam_tokens(l: int) -> Seq<TokenV> {
    seq![
        name_tok("boolean"@, l), name_tok("test"@, l), sign_tok(Tok::LParen, l),
        name_tok("Object"@, l), name_tok("t"@, l), sign_tok(Tok::RParen, l),
    ]
}

proof fn spelling_of_predicate_sam()
    ensures
        "boolean test(Object t)"@.len() == 22,
        spells("boolean test(Object t)"@, 0, "boolean"@),
        spells("boolean test(Object t)"@, 8, "test"@),
        spells("boolean test(Object t)"@, 13, "Object"@),
        spells("boolean test(Object t)"@, 20, "t"@),
        "boolean test(Object t)"@[7] == ' ' && "boolean test(Object t)"@[12] == '(',
        "boolean test(Object t)"@[13] == 'O' && "boolean test(Object t)"@[19] == ' ',
        "boolean test(Object t)"@[21] == ')',
{
    reveal_strlit("boolean test(Object t)");
    reveal_strlit("Object");
    reveal_strlit("boolean");
    reveal_strlit("t");
    reveal_strlit("test");
}

proof fn lexes_predicate_sam(s: Seq<char>, b: int, l: int, done: Seq<TokenV>)
    requires
        spells(s, b, "boolean test(Object t)"@),
    ensures
        rest(s, b, l, done) == rest(s, b + 22, l, done + predicate_sam_tokens(l)),
{
    words_are_known();
    spelling_of_predicate_sam();
    let text = "boolean test(Object t)"@;
    let d0 = done;
    reads_name_space(s, b, text, 0, 8, "boolean"@, l, d0);
    let d1 = d0.push(name_tok("boolean"@, l));
    reads_name(s, b, text, 8, 12, "test"@, l, d1);
    let d2 = d1.push(name_tok("test"@, l));
    reads_sign(s, b, text, 12, Tok::LParen, l, d2);
    let d3 = d2.push(sign_tok(Tok::LParen, l));
    reads_name_space(s, b, text, 13, 20, "Object"@, l, d3);
    let d4 = d3.push(name_tok("Object"@, l));
    reads_name(s, b, text, 20, 21, "t"@, l, d4);
    let d5 = d4.push(name_tok("t"@, l));
    reads_sign(s, b, text, 21, Tok::RParen, l, d5);
    let d6 = d5.push(sign_tok(Tok::RParen, l));
    assert(d6 =~= done + predicate_sam_tokens(l));
}

/// The tokens of the interface `Predicate`.
pub open spec fn predicate_row(l: int) -> Seq<TokenV> {
    seq![name_tok("interface"@, l), name_tok("Predicate"@, l), sign_tok(Tok::LBrace, l)] + predicate_sam_tokens(l)
        + seq![sign_tok(Tok::Semi, l)] + predicate_and_tokens(l) + predicate_negate_tokens(l) + predicate_or_tokens(l) + predicate_not_tokens(l) + seq![sign_tok(Tok::RBrace, l)]
}

/// The interface `Predicate` is lexed as these tokens.
pub proof fn lexes_predicate_row(s: Seq<char>, b: int, l: int, done: Seq<TokenV>)
    requires
        spells(s, b, interface_source("Predicate"@, "boolean test(Object t)"@, "default Predicate and(Predicate other) { return t -> this.test(t) && other.test(t); } default Predicate negate() { return t -> !this.test(t); } default Predicate or(Predicate other) { return t -> this.test(t) || other.test(t); } static Predicate not(Predicate target) { return target.negate(); }"@)),
    ensures
        rest(s, b, l, done) == rest(
            s,
            b + interface_source("Predicate"@, "boolean test(Object t)"@, "default Predicate and(Predicate other) { return t -> this.test(t) && other.test(t); } default Predicate negate() { return t -> !this.test(t); } default Predicate or(Predicate other) { return t -> this.test(t) || other.test(t); } static Predicate not(Predicate target) { return target.negate(); }"@).len(),
            next_line(l),
            done + predicate_row(l),
        ),
{
    words_are_known();
    signs_are_known();
    let x1 = "interface "@ + "Predicate"@;
    let x2 = x1 + " { "@;
    let x3 = x2 + "boolean test(Object t)"@;
    let x4 = x3 + "; "@;
    let x5 = x4 + "default Predicate and(Predicate other) { return t -> this.test(t) && other.test(t); } default Predicate negate() { return t -> !this.test(t); } default Predicate or(Predicate other) { return t -> this.test(t) || other.test(t); } static Predicate not(Predicate target) { return target.negate(); }"@;
    assert("boolean test(Object t)"@.len() == 22) by {
        reveal_strlit("boolean test(Object t)");
    }
    assert("default Predicate and(Predicate other) { return t -> this.test(t) && other.test(t); } default Predicate negate() { return t -> !this.test(t); } default Predicate or(Predicate other) { return t -> this.test(t) || other.test(t); } static Predicate not(Predicate target) { return target.negate(); }"@.len() == 295) by {
        reveal_strlit("default Predicate and(Predicate other) { return t -> this.test(t) && other.test(t); } default Predicate negate() { return t -> !this.test(t); } default Predicate or(Predicate other) { return t -> this.test(t) || other.test(t); } static Predicate not(Predicate target) { return target.negate(); }");
    }
    spells_both(s, b, x5, " }\n"@);
    spells_both(s, b, x4, "default Predicate and(Predicate other) { return t -> this.test(t) && other.test(t); } default Predicate negate() { return t -> !this.test(t); } default Predicate or(Predicate other) { return t -> this.test(t) || other.test(t); } static Predicate not(Predicate target) { return target.negate(); }"@);
    spells_both(s, b, x3, "; "@);
    spells_both(s, b, x2, "boolean test(Object t)"@);
    spells_both(s, b, x1, " { "@);
    spells_both(s, b, "interface "@, "Predicate"@);
    let d0 = done;
    reads_name_space(s, b, "interface "@, 0, 10, "interface"@, l, d0);
    let d1 = d0.push(name_tok("interface"@, l));
    reads_gap(s, b + 19, " { "@, 0);
    lexes_name_space(s, b + 10, b + 20, "Predicate"@, l, d1);
    let d2 = d1.push(name_tok("Predicate"@, l));
    reads_sign(s, b + 19, " { "@, 1, Tok::LBrace, l, d2);
    let d3 = d2.push(sign_tok(Tok::LBrace, l));
    reads_space(s, b + 19, " { "@, 2, l, d3);
    lexes_predicate_sam(s, b + 22, l, d3);
    let d4 = d3 + predicate_sam_tokens(l);
    reads_sign(s, b + 44, "; "@, 0, Tok::Semi, l, d4);
    let d5 = d4.push(sign_tok(Tok::Semi, l));
    reads_space(s, b + 44, "; "@, 1, l, d5);
    assert("default Predicate and(Predicate other) { return t -> this.test(t) && other.test(t); } default Predicate negate() { return t -> !this.test(t); } default Predicate or(Predicate other) { return t -> this.test(t) || other.test(t); } static Predicate not(Predicate target) { return target.negate(); }"@ =~= predicate_and_text() + " "@ + predicate_negate_text() + " "@ + predicate_or_text() + " "@ + predicate_not_text()) by {
        reveal_strlit("default Predicate and(Predicate other) { return t -> this.test(t) && other.test(t); } default Predicate negate() { return t -> !this.test(t); } default Predicate or(Predicate other) { return t -> this.test(t) || other.test(t); } static Predicate not(Predicate target) { return target.negate(); }");
        reveal_strlit(" ");
        reveal_strlit("default Predicate and(Predicate other) { return t -> this.test(t) && other.test(t); }");
        reveal_strlit("default Predicate negate() { return t -> !this.test(t); }");
        reveal_strlit("default Predicate or(Predicate other) { return t -> this.test(t) || other.test(t); }");
        reveal_strlit("static Predicate not(Predicate target) { return target.negate(); }");
    }
    spelling_of_predicate_and();
    spelling_of_predicate_negate();
    spelling_of_predicate_or();
    spelling_of_predicate_not();
    spells_both(s, b + 46, predicate_and_text() + " "@ + predicate_negate_text() + " "@ + predicate_or_text() + " "@, predicate_not_text());
    spells_both(s, b + 46, predicate_and_text() + " "@ + predicate_negate_text() + " "@ + predicate_or_text(), " "@);
    spells_both(s, b + 46, predicate_and_text() + " "@ + predicate_negate_text() + " "@, predicate_or_text());
    spells_both(s, b + 46, predicate_and_text() + " "@ + predicate_negate_text(), " "@);
    spells_both(s, b + 46, predicate_and_text() + " "@, predicate_negate_text());
    spells_both(s, b + 46, predicate_and_text(), " "@);
    lexes_predicate_and(s, b + 46, l, d5);
    let d6 = d5 + predicate_and_tokens(l);
    reads_space(s, b + 131, " "@, 0, l, d6);
    lexes_predicate_negate(s, b + 132, l, d6);
    let d7 = d6 + predicate_negate_tokens(l);
    reads_space(s, b + 189, " "@, 0, l, d7);
    lexes_predicate_or(s, b + 190, l, d7);
    let d8 = d7 + predicate_or_tokens(l);
    reads_space(s, b + 274, " "@, 0, l, d8);
    lexes_predicate_not(s, b + 275, l, d8);
    let d9 = d8 + predicate_not_tokens(l);
    reads_space(s, b + 341, " }\n"@, 0, l, d9);
    reads_sign(s, b + 341, " }\n"@, 1, Tok::RBrace, l, d9);
    let d10 = d9.push(sign_tok(Tok::RBrace, l));
    reads_line(s, b + 341, " }\n"@, 2, l, d10);
    assert(d10 =~= done + predicate_row(l));
}

/// The interface `Predicate` is read as one.
pub proof fn declares_predicate(t: Seq<TokenV>, p: int, l: int)
    requires
        0 <= p,
        p + predicate_row(l).len() < t.len(),
        t.subrange(p, p + predicate_row(l).len()) == predicate_row(l),
    ensures
        declares_class(t, "Predicate"@, None, true, p, p + predicate_row(l).len()),
        t[p].kind != Tok::Eof,
{
    words_are_known();
    let name = "Predicate"@;
    let w = predicate_row(l);
    assert(predicate_sam_tokens(l).len() == 6);
    assert(predicate_and_tokens(l).len() == 26);
    assert(predicate_negate_tokens(l).len() == 18);
    assert(predicate_or_tokens(l).len() == 26);
    assert(predicate_not_tokens(l).len() == 16);
    assert(w.len() == 97);
    let q = p + 3;
    assert forall|k: int| 0 <= k < 97 implies t[p + k] == #[trigger] w[k] by {
        assert(t.subrange(p, p + w.len())[k] == w[k]);
    }
    assert(t[p] == w[0] && t[p + 1] == w[1] && t[p + 2] == w[2]);
    let u = predicate_sam_tokens(l);
    assert(t[q] == w[3] && w[3] == u[0]);
    assert(t[q + 1] == w[4] && w[4] == u[1]);
    assert(t[q + 2] == w[5] && w[5] == u[2]);
    assert(t[q + 3] == w[6] && w[6] == u[3]);
    assert(t[q + 4] == w[7] && w[7] == u[4]);
    assert(t[q + 5] == w[8] && w[8] == u[5]);
    assert(t[q + 6] == w[9]);
    reads_last_parameter(t, q + 3);
    reads_parameters(t, q + 3, q + 5);
    reads_method(t, name, q, q, q + 5, q + 7);
    assert(t.subrange(p + 10, p + 36) =~= predicate_and_tokens(l)) by {
        assert forall|k: int| 0 <= k < 26 implies t[p + 10 + k] == #[trigger] predicate_and_tokens(l)[k] by {
            assert(t.subrange(p, p + w.len())[10 + k] == w[10 + k]);
        }
    }
    stands_predicate_and(t, name, p + 10, l);
    assert(t[p + 10] == predicate_and_tokens(l)[0]);
    assert(t.subrange(p + 36, p + 54) =~= predicate_negate_tokens(l)) by {
        assert forall|k: int| 0 <= k < 18 implies t[p + 36 + k] == #[trigger] predicate_negate_tokens(l)[k] by {
            assert(t.subrange(p, p + w.len())[36 + k] == w[36 + k]);
        }
    }
    stands_predicate_negate(t, name, p + 36, l);
    assert(t[p + 36] == predicate_negate_tokens(l)[0]);
    assert(t.subrange(p + 54, p + 80) =~= predicate_or_tokens(l)) by {
        assert forall|k: int| 0 <= k < 26 implies t[p + 54 + k] == #[trigger] predicate_or_tokens(l)[k] by {
            assert(t.subrange(p, p + w.len())[54 + k] == w[54 + k]);
        }
    }
    stands_predicate_or(t, name, p + 54, l);
    assert(t[p + 54] == predicate_or_tokens(l)[0]);
    assert(t.subrange(p + 80, p + 96) =~= predicate_not_tokens(l)) by {
        assert forall|k: int| 0 <= k < 16 implies t[p + 80 + k] == #[trigger] predicate_not_tokens(l)[k] by {
            assert(t.subrange(p, p + w.len())[80 + k] == w[80 + k]);
        }
    }
    stands_predicate_not(t, name, p + 80, l);
    assert(t[p + 80] == predicate_not_tokens(l)[0]);
    assert(t[p + 96] == w[96]);
    reads_members_end(t, name, p + 96);
    reads_next_member(t, name, p + 80, p + 96, p + 97);
    reads_next_member(t, name, p + 54, p + 80, p + 97);
    reads_next_member(t, name, p + 36, p + 54, p + 97);
    reads_next_member(t, name, p + 10, p + 36, p + 97);
    reads_next_member(t, name, p + 3, p + 10, p + 97);
    reads_interface(t, p, p + 97);
}

/// The tokens of `boolean test(Object t, Object u)`.
pub open spec fn bi_predicate_sam_tokens(l: int) -> Seq<TokenV> {
    seq![
        name_tok("boolean"@, l), name_tok("test"@, l), sign_tok(Tok::LParen, l),
        name_tok("Object"@, l), name_tok("t"@, l), sign_tok(Tok::Comma, l),
        name_tok("Object"@, l), name_tok("u"@, l), sign_tok(Tok::RParen, l),
    ]
}

proof fn spelling_of_bi_predicate_sam()
    ensures
        "boolean test(Object t, Object u)"@.len() == 32,
        spells("boolean test(Object t, Object u)"@, 0, "boolean"@),
        spells("boolean test(Object t, Object u)"@, 8, "test"@),
        spells("boolean test(Object t, Object u)"@, 13, "Object"@),
        spells("boolean test(Object t, Object u)"@, 20, "t"@),
        spells("boolean test(Object t, Object u)"@, 23, "Object"@),
        spells("boolean test(Object t, Object u)"@, 30, "u"@),
        "boolean test(Object t, Object u)"@[7] == ' ',
        "boolean test(Object t, Object u)"@[12] == '(',
        "boolean test(Object t, Object u)"@[13] == 'O',
        "boolean test(Object t, Object u)"@[19] == ' ',
        "boolean test(Object t, Object u)"@[21] == ',',
        "boolean test(Object t, Object u)"@[22] == ' ',
        "boolean test(Object t, Object u)"@[29] == ' ',
        "boolean test(Object t, Object u)"@[31] == ')',
{
    reveal_strlit("boolean test(Object t, Object u)");
    reveal_strlit("Object");
    reveal_strlit("boolean");
    reveal_strlit("t");
    reveal_strlit("test");
    reveal_strlit("u");
}

proof fn lexes_bi_predicate_sam(s: Seq<char>, b: int, l: int, done: Seq<TokenV>)
    requires
        spells(s, b, "boolean test(Object t, Object u)"@),
    ensures
        rest(s, b, l, done) == rest(s, b + 32, l, done + bi_predicate_sam_tokens(l)),
{
    words_are_known();
    spelling_of_bi_predicate_sam();
    let text = "boolean test(Object t, Object u)"@;
    let d0 = done;
    reads_name_space(s, b, text, 0, 8, "boolean"@, l, d0);
    let d1 = d0.push(name_tok("boolean"@, l));
    reads_name(s, b, text, 8, 12, "test"@, l, d1);
    let d2 = d1.push(name_tok("test"@, l));
    reads_sign(s, b, text, 12, Tok::LParen, l, d2);
    let d3 = d2.push(sign_tok(Tok::LParen, l));
    reads_name_space(s, b, text, 13, 20, "Object"@, l, d3);
    let d4 = d3.push(name_tok("Object"@, l));
    reads_name(s, b, text, 20, 21, "t"@, l, d4);
    let d5 = d4.push(name_tok("t"@, l));
    reads_sign(s, b, text, 21, Tok::Comma, l, d5);
    let d6 = d5.push(sign_tok(Tok::Comma, l));
    reads_space(s, b, text, 22, l, d6);
    reads_name_space(s, b, text, 23, 30, "Object"@, l, d6);
    let d7 = d6.push(name_tok("Object"@, l));
    reads_name(s, b, text, 30, 31, "u"@, l, d7);
    let d8 = d7.push(name_tok("u"@, l));
    reads_sign(s, b, text, 31, Tok::RParen, l, d8);
    let d9 = d8.push(sign_tok(Tok::RParen, l));
    assert(d9 =~= done + bi_predicate_sam_tokens(l));
}

/// The tokens of the interface `BiPredicate`.
pub open spec fn bi_predicate_row(l: int) -> Seq<TokenV> {
    seq![name_tok("interface"@, l), name_tok("BiPredicate"@, l), sign_tok(Tok::LBrace, l)] + bi_predicate_sam_tokens(l)
        + seq![sign_tok(Tok::Semi, l)] + bi_predicate_and_tokens(l) + bi_predicate_negate_tokens(l) + bi_predicate_or_tokens(l) + seq![sign_tok(Tok::RBrace, l)]
}

/// The interface `BiPredicate` is lexed as these tokens.
pub proof fn lexes_bi_predicate_row(s: Seq<char>, b: int, l: int, done: Seq<TokenV>)
    requires
        spells(s, b, interface_source("BiPredicate"@, "boolean test(Object t, Object u)"@, "default BiPredicate and(BiPredicate other) { return (t, u) -> this.test(t, u) && other.test(t, u); } default BiPredicate negate() { return (t, u) -> !this.test(t, u); } default BiPredicate or(BiPredicate other) { return (t, u) -> this.test(t, u) || other.test(t, u); }"@)),
    ensures
        rest(s, b, l, done) == rest(
            s,
            b + interface_source("BiPredicate"@, "boolean test(Object t, Object u)"@, "default BiPredicate and(BiPredicate other) { return (t, u) -> this.test(t, u) && other.test(t, u); } default BiPredicate negate() { return (t, u) -> !this.test(t, u); } default BiPredicate or(BiPredicate other) { return (t, u) -> this.test(t, u) || other.test(t, u); }"@).len(),
            next_line(l),
            done + bi_predicate_row(l),
        ),
{
    words_are_known();
    signs_are_known();
    let x1 = "interface "@ + "BiPredicate"@;
    let x2 = x1 + " { "@;
    let x3 = x2 + "boolean test(Object t, Object u)"@;
    let x4 = x3 + "; "@;
    let x5 = x4 + "default BiPredicate and(BiPredicate other) { return (t, u) -> this.test(t, u) && other.test(t, u); } default BiPredicate negate() { return (t, u) -> !this.test(t, u); } default BiPredicate or(BiPredicate other) { return (t, u) -> this.test(t, u) || other.test(t, u); }"@;
    assert("boolean test(Object t, Object u)"@.len() == 32) by {
        reveal_strlit("boolean test(Object t, Object u)");
    }
    assert("default BiPredicate and(BiPredicate other) { return (t, u) -> this.test(t, u) && other.test(t, u); } default BiPredicate negate() { return (t, u) -> !this.test(t, u); } default BiPredicate or(BiPredicate other) { return (t, u) -> this.test(t, u) || other.test(t, u); }"@.len() == 268) by {
        reveal_strlit("default BiPredicate and(BiPredicate other) { return (t, u) -> this.test(t, u) && other.test(t, u); } default BiPredicate negate() { return (t, u) -> !this.test(t, u); } default BiPredicate or(BiPredicate other) { return (t, u) -> this.test(t, u) || other.test(t, u); }");
    }
    spells_both(s, b, x5, " }\n"@);
    spells_both(s, b, x4, "default BiPredicate and(BiPredicate other) { return (t, u) -> this.test(t, u) && other.test(t, u); } default BiPredicate negate() { return (t, u) -> !this.test(t, u); } default BiPredicate or(BiPredicate other) { return (t, u) -> this.test(t, u) || other.test(t, u); }"@);
    spells_both(s, b, x3, "; "@);
    spells_both(s, b, x2, "boolean test(Object t, Object u)"@);
    spells_both(s, b, x1, " { "@);
    spells_both(s, b, "interface "@, "BiPredicate"@);
    let d0 = done;
    reads_name_space(s, b, "interface "@, 0, 10, "interface"@, l, d0);
    let d1 = d0.push(name_tok("interface"@, l));
    reads_gap(s, b + 21, " { "@, 0);
    lexes_name_space(s, b + 10, b + 22, "BiPredicate"@, l, d1);
    let d2 = d1.push(name_tok("BiPredicate"@, l));
    reads_sign(s, b + 21, " { "@, 1, Tok::LBrace, l, d2);
    let d3 = d2.push(sign_tok(Tok::LBrace, l));
    reads_space(s, b + 21, " { "@, 2, l, d3);
    lexes_bi_predicate_sam(s, b + 24, l, d3);
    let d4 = d3 + bi_predicate_sam_tokens(l);
    reads_sign(s, b + 56, "; "@, 0, Tok::Semi, l, d4);
    let d5 = d4.push(sign_tok(Tok::Semi, l));
    reads_space(s, b + 56, "; "@, 1, l, d5);
    assert("default BiPredicate and(BiPredicate other) { return (t, u) -> this.test(t, u) && other.test(t, u); } default BiPredicate negate() { return (t, u) -> !this.test(t, u); } default BiPredicate or(BiPredicate other) { return (t, u) -> this.test(t, u) || other.test(t, u); }"@ =~= bi_predicate_and_text() + " "@ + bi_predicate_negate_text() + " "@ + bi_predicate_or_text()) by {
        reveal_strlit("default BiPredicate and(BiPredicate other) { return (t, u) -> this.test(t, u) && other.test(t, u); } default BiPredicate negate() { return (t, u) -> !this.test(t, u); } default BiPredicate or(BiPredicate other) { return (t, u) -> this.test(t, u) || other.test(t, u); }");
        reveal_strlit(" ");
        reveal_strlit("default BiPredicate and(BiPredicate other) { return (t, u) -> this.test(t, u) && other.test(t, u); }");
        reveal_strlit("default BiPredicate negate() { return (t, u) -> !this.test(t, u); }");
        reveal_strlit("default BiPredicate or(BiPredicate other) { return (t, u) -> this.test(t, u) || other.test(t, u); }");
    }
    spelling_of_bi_predicate_and();
    spelling_of_bi_predicate_negate();
    spelling_of_bi_predicate_or();
    spells_both(s, b + 58, bi_predicate_and_text() + " "@ + bi_predicate_negate_text() + " "@, bi_predicate_or_text());
    spells_both(s, b + 58, bi_predicate_and_text() + " "@ + bi_predicate_negate_text(), " "@);
    spells_both(s, b + 58, bi_predicate_and_text() + " "@, bi_predicate_negate_text());
    spells_both(s, b + 58, bi_predicate_and_text(), " "@);
    lexes_bi_predicate_and(s, b + 58, l, d5);
    let d6 = d5 + bi_predicate_and_tokens(l);
    reads_space(s, b + 158, " "@, 0, l, d6);
    lexes_bi_predicate_negate(s, b + 159, l, d6);
    let d7 = d6 + bi_predicate_negate_tokens(l);
    reads_space(s, b + 226, " "@, 0, l, d7);
    lexes_bi_predicate_or(s, b + 227, l, d7);
    let d8 = d7 + bi_predicate_or_tokens(l);
    reads_space(s, b + 326, " }\n"@, 0, l, d8);
    reads_sign(s, b + 326, " }\n"@, 1, Tok::RBrace, l, d8);
    let d9 = d8.push(sign_tok(Tok::RBrace, l));
    reads_line(s, b + 326, " }\n"@, 2, l, d9);
    assert(d9 =~= done + bi_predicate_row(l));
}

/// The interface `BiPredicate` is read as one.
pub proof fn declares_bi_predicate(t: Seq<TokenV>, p: int, l: int)
    requires
        0 <= p,
        p + bi_predicate_row(l).len() < t.len(),
        t.subrange(p, p + bi_predicate_row(l).len()) == bi_predicate_row(l),
    ensures
        declares_class(t, "BiPredicate"@, None, true, p, p + bi_predicate_row(l).len()),
        t[p].kind != Tok::Eof,
{
    words_are_known();
    let name = "BiPredicate"@;
    let w = bi_predicate_row(l);
    assert(bi_predicate_sam_tokens(l).len() == 9);
    assert(bi_predicate_and_tokens(l).len() == 34);
    assert(bi_predicate_negate_tokens(l).len() == 24);
    assert(bi_predicate_or_tokens(l).len() == 34);
    assert(w.len() == 106);
    let q = p + 3;
    assert forall|k: int| 0 <= k < 106 implies t[p + k] == #[trigger] w[k] by {
        assert(t.subrange(p, p + w.len())[k] == w[k]);
    }
    assert(t[p] == w[0] && t[p + 1] == w[1] && t[p + 2] == w[2]);
    let u = bi_predicate_sam_tokens(l);
    assert(t[q] == w[3] && w[3] == u[0]);
    assert(t[q + 1] == w[4] && w[4] == u[1]);
    assert(t[q + 2] == w[5] && w[5] == u[2]);
    assert(t[q + 3] == w[6] && w[6] == u[3]);
    assert(t[q + 4] == w[7] && w[7] == u[4]);
    assert(t[q + 5] == w[8] && w[8] == u[5]);
    assert(t[q + 6] == w[9] && w[9] == u[6]);
    assert(t[q + 7] == w[10] && w[10] == u[7]);
    assert(t[q + 8] == w[11] && w[11] == u[8]);
    assert(t[q + 9] == w[12]);
    reads_last_parameter(t, q + 6);
    reads_next_parameter(t, q + 3, q + 8);
    reads_parameters(t, q + 3, q + 8);
    reads_method(t, name, q, q, q + 8, q + 10);
    assert(t.subrange(p + 13, p + 47) =~= bi_predicate_and_tokens(l)) by {
        assert forall|k: int| 0 <= k < 34 implies t[p + 13 + k] == #[trigger] bi_predicate_and_tokens(l)[k] by {
            assert(t.subrange(p, p + w.len())[13 + k] == w[13 + k]);
        }
    }
    stands_bi_predicate_and(t, name, p + 13, l);
    assert(t[p + 13] == bi_predicate_and_tokens(l)[0]);
    assert(t.subrange(p + 47, p + 71) =~= bi_predicate_negate_tokens(l)) by {
        assert forall|k: int| 0 <= k < 24 implies t[p + 47 + k] == #[trigger] bi_predicate_negate_tokens(l)[k] by {
            assert(t.subrange(p, p + w.len())[47 + k] == w[47 + k]);
        }
    }
    stands_bi_predicate_negate(t, name, p + 47, l);
    assert(t[p + 47] == bi_predicate_negate_tokens(l)[0]);
    assert(t.subrange(p + 71, p + 105) =~= bi_predicate_or_tokens(l)) by {
        assert forall|k: int| 0 <= k < 34 implies t[p + 71 + k] == #[trigger] bi_predicate_or_tokens(l)[k] by {
            assert(t.subrange(p, p + w.len())[71 + k] == w[71 + k]);
        }
    }
    stands_bi_predicate_or(t, name, p + 71, l);
    assert(t[p + 71] == bi_predicate_or_tokens(l)[0]);
    assert(t[p + 105] == w[105]);
    reads_members_end(t, name, p + 105);
    reads_next_member(t, name, p + 71, p + 105, p + 106);
    reads_next_member(t, name, p + 47, p + 71, p + 106);
    reads_next_member(t, name, p + 13, p + 47, p + 106);
    reads_next_member(t, name, p + 3, p + 13, p + 106);
    reads_interface(t, p, p + 106);
}

/// The tokens of `int compare(Object a, Object b)`.
pub open spec fn comparator_sam_tokens(l: int) -> Seq<TokenV> {
    seq![
        name_tok("int"@, l), name_tok("compare"@, l), sign_tok(Tok::LParen, l),
        name_tok("Object"@, l), name_tok("a"@, l), sign_tok(Tok::Comma, l),
        name_tok("Object"@, l), name_tok("b"@, l), sign_tok(Tok::RParen, l),
    ]
}

proof fn spelling_of_comparator_sam()
    ensures
        "int compare(Object a, Object b)"@.len() == 31,
        spells("int compare(Object a, Object b)"@, 0, "int"@),
        spells("int compare(Object a, Object b)"@, 4, "compare"@),
        spells("int compare(Object a, Object b)"@, 12, "Object"@),
        spells("int compare(Object a, Object b)"@, 19, "a"@),
        spells("int compare(Object a, Object b)"@, 22, "Object"@),
        spells("int compare(Object a, Object b)"@, 29, "b"@),
        "int compare(Object a, Object b)"@[3] == ' ',
        "int compare(Object a, Object b)"@[11] == '(',
        "int compare(Object a, Object b)"@[12] == 'O',
        "int compare(Object a, Object b)"@[18] == ' ',
        "int compare(Object a, Object b)"@[20] == ',',
        "int compare(Object a, Object b)"@[21] == ' ',
        "int compare(Object a, Object b)"@[28] == ' ',
        "int compare(Object a, Object b)"@[30] == ')',
{
    reveal_strlit("int compare(Object a, Object b)");
    reveal_strlit("Object");
    reveal_strlit("a");
    reveal_strlit("b");
    reveal_strlit("compare");
    reveal_strlit("int");
}

proof fn lexes_comparator_sam(s: Seq<char>, b: int, l: int, done: Seq<TokenV>)
    requires
        spells(s, b, "int compare(Object a, Object b)"@),
    ensures
        rest(s, b, l, done) == rest(s, b + 31, l, done + comparator_sam_tokens(l)),
{
    words_are_known();
    spelling_of_comparator_sam();
    let text = "int compare(Object a, Object b)"@;
    let d0 = done;
    reads_name_space(s, b, text, 0, 4, "int"@, l, d0);
    let d1 = d0.push(name_tok("int"@, l));
    reads_name(s, b, text, 4, 11, "compare"@, l, d1);
    let d2 = d1.push(name_tok("compare"@, l));
    reads_sign(s, b, text, 11, Tok::LParen, l, d2);
    let d3 = d2.push(sign_tok(Tok::LParen, l));
    reads_name_space(s, b, text, 12, 19, "Object"@, l, d3);
    let d4 = d3.push(name_tok("Object"@, l));
    reads_name(s, b, text, 19, 20, "a"@, l, d4);
    let d5 = d4.push(name_tok("a"@, l));
    reads_sign(s, b, text, 20, Tok::Comma, l, d5);
    let d6 = d5.push(sign_tok(Tok::Comma, l));
    reads_space(s, b, text, 21, l, d6);
    reads_name_space(s, b, text, 22, 29, "Object"@, l, d6);
    let d7 = d6.push(name_tok("Object"@, l));
    reads_name(s, b, text, 29, 30, "b"@, l, d7);
    let d8 = d7.push(name_tok("b"@, l));
    reads_sign(s, b, text, 30, Tok::RParen, l, d8);
    let d9 = d8.push(sign_tok(Tok::RParen, l));
    assert(d9 =~= done + comparator_sam_tokens(l));
}

/// The tokens of the interface `Comparator`.
pub open spec fn comparator_row(l: int) -> Seq<TokenV> {
    seq![name_tok("interface"@, l), name_tok("Comparator"@, l), sign_tok(Tok::LBrace, l)] + comparator_sam_tokens(l)
        + seq![sign_tok(Tok::Semi, l)] + comparator_reversed_tokens(l) + comparator_then_comparing_tokens(l) + comparator_natural_order_tokens(l) + comparator_reverse_order_tokens(l) + comparator_comparing_tokens(l) + seq![sign_tok(Tok::RBrace, l)]
}

/// The interface `Comparator` is lexed as these tokens.
pub proof fn lexes_comparator_row(s: Seq<char>, b: int, l: int, done: Seq<TokenV>)
    requires
        spells(s, b, interface_source("Comparator"@, "int compare(Object a, Object b)"@, "default Comparator reversed() { return (a, b) -> this.compare(b, a); } default Comparator thenComparing(Comparator other) { return (a, b) -> { int r = this.compare(a, b); if (r != 0) { return r; } return other.compare(a, b); }; } static Comparator naturalOrder() { return (a, b) -> a.compareTo(b); } static Comparator reverseOrder() { return (a, b) -> b.compareTo(a); } static Comparator comparing(Function key) { return (a, b) -> key.apply(a).compareTo(key.apply(b)); }"@)),
    ensures
        rest(s, b, l, done) == rest(
            s,
            b + interface_source("Comparator"@, "int compare(Object a, Object b)"@, "default Comparator reversed() { return (a, b) -> this.compare(b, a); } default Comparator thenComparing(Comparator other) { return (a, b) -> { int r = this.compare(a, b); if (r != 0) { return r; } return other.compare(a, b); }; } static Comparator naturalOrder() { return (a, b) -> a.compareTo(b); } static Comparator reverseOrder() { return (a, b) -> b.compareTo(a); } static Comparator comparing(Function key) { return (a, b) -> key.apply(a).compareTo(key.apply(b)); }"@).len(),
            next_line(l),
            done + comparator_row(l),
        ),
{
    words_are_known();
    signs_are_known();
    let x1 = "interface "@ + "Comparator"@;
    let x2 = x1 + " { "@;
    let x3 = x2 + "int compare(Object a, Object b)"@;
    let x4 = x3 + "; "@;
    let x5 = x4 + "default Comparator reversed() { return (a, b) -> this.compare(b, a); } default Comparator thenComparing(Comparator other) { return (a, b) -> { int r = this.compare(a, b); if (r != 0) { return r; } return other.compare(a, b); }; } static Comparator naturalOrder() { return (a, b) -> a.compareTo(b); } static Comparator reverseOrder() { return (a, b) -> b.compareTo(a); } static Comparator comparing(Function key) { return (a, b) -> key.apply(a).compareTo(key.apply(b)); }"@;
    assert("int compare(Object a, Object b)"@.len() == 31) by {
        reveal_strlit("int compare(Object a, Object b)");
    }
    assert("default Comparator reversed() { return (a, b) -> this.compare(b, a); } default Comparator thenComparing(Comparator other) { return (a, b) -> { int r = this.compare(a, b); if (r != 0) { return r; } return other.compare(a, b); }; } static Comparator naturalOrder() { return (a, b) -> a.compareTo(b); } static Comparator reverseOrder() { return (a, b) -> b.compareTo(a); } static Comparator comparing(Function key) { return (a, b) -> key.apply(a).compareTo(key.apply(b)); }"@.len() == 470) by {
        reveal_strlit("default Comparator reversed() { return (a, b) -> this.compare(b, a); } default Comparator thenComparing(Comparator other) { return (a, b) -> { int r = this.compare(a, b); if (r != 0) { return r; } return other.compare(a, b); }; } static Comparator naturalOrder() { return (a, b) -> a.compareTo(b); } static Comparator reverseOrder() { return (a, b) -> b.compareTo(a); } static Comparator comparing(Function key) { return (a, b) -> key.apply(a).compareTo(key.apply(b)); }");
    }
    spells_both(s, b, x5, " }\n"@);
    spells_both(s, b, x4, "default Comparator reversed() { return (a, b) -> this.compare(b, a); } default Comparator thenComparing(Comparator other) { return (a, b) -> { int r = this.compare(a, b); if (r != 0) { return r; } return other.compare(a, b); }; } static Comparator naturalOrder() { return (a, b) -> a.compareTo(b); } static Comparator reverseOrder() { return (a, b) -> b.compareTo(a); } static Comparator comparing(Function key) { return (a, b) -> key.apply(a).compareTo(key.apply(b)); }"@);
    spells_both(s, b, x3, "; "@);
    spells_both(s, b, x2, "int compare(Object a, Object b)"@);
    spells_both(s, b, x1, " { "@);
    spells_both(s, b, "interface "@, "Comparator"@);
    let d0 = done;
    reads_name_space(s, b, "interface "@, 0, 10, "interface"@, l, d0);
    let d1 = d0.push(name_tok("interface"@, l));
    reads_gap(s, b + 20, " { "@, 0);
    lexes_name_space(s, b + 10, b + 21, "Comparator"@, l, d1);
    let d2 = d1.push(name_tok("Comparator"@, l));
    reads_sign(s, b + 20, " { "@, 1, Tok::LBrace, l, d2);
    let d3 = d2.push(sign_tok(Tok::LBrace, l));
    reads_space(s, b + 20, " { "@, 2, l, d3);
    lexes_comparator_sam(s, b + 23, l, d3);
    let d4 = d3 + comparator_sam_tokens(l);
    reads_sign(s, b + 54, "; "@, 0, Tok::Semi, l, d4);
    let d5 = d4.push(sign_tok(Tok::Semi, l));
    reads_space(s, b + 54, "; "@, 1, l, d5);
    assert("default Comparator reversed() { return (a, b) -> this.compare(b, a); } default Comparator thenComparing(Comparator other) { return (a, b) -> { int r = this.compare(a, b); if (r != 0) { return r; } return other.compare(a, b); }; } static Comparator naturalOrder() { return (a, b) -> a.compareTo(b); } static Comparator reverseOrder() { return (a, b) -> b.compareTo(a); } static Comparator comparing(Function key) { return (a, b) -> key.apply(a).compareTo(key.apply(b)); }"@ =~= comparator_reversed_text() + " "@ + comparator_then_comparing_text() + " "@ + comparator_natural_order_text() + " "@ + comparator_reverse_order_text() + " "@ + comparator_comparing_text()) by {
        reveal_strlit("default Comparator reversed() { return (a, b) -> this.compare(b, a); } default Comparator thenComparing(Comparator other) { return (a, b) -> { int r = this.compare(a, b); if (r != 0) { return r; } return other.compare(a, b); }; } static Comparator naturalOrder() { return (a, b) -> a.compareTo(b); } static Comparator reverseOrder() { return (a, b) -> b.compareTo(a); } static Comparator comparing(Function key) { return (a, b) -> key.apply(a).compareTo(key.apply(b)); }");
        reveal_strlit(" ");
        reveal_strlit("default Comparator reversed() { return (a, b) -> this.compare(b, a); }");
        reveal_strlit("default Comparator thenComparing(Comparator other) { return (a, b) -> { int r = this.compare(a, b); if (r != 0) { return r; } return other.compare(a, b); }; }");
        reveal_strlit("static Comparator naturalOrder() { return (a, b) -> a.compareTo(b); }");
        reveal_strlit("static Comparator reverseOrder() { return (a, b) -> b.compareTo(a); }");
        reveal_strlit("static Comparator comparing(Function key) { return (a, b) -> key.apply(a).compareTo(key.apply(b)); }");
    }
    spelling_of_comparator_reversed();
    spelling_of_comparator_then_comparing();
    spelling_of_comparator_natural_order();
    spelling_of_comparator_reverse_order();
    spelling_of_comparator_comparing();
    spells_both(s, b + 56, comparator_reversed_text() + " "@ + comparator_then_comparing_text() + " "@ + comparator_natural_order_text() + " "@ + comparator_reverse_order_text() + " "@, comparator_comparing_text());
    spells_both(s, b + 56, comparator_reversed_text() + " "@ + comparator_then_comparing_text() + " "@ + comparator_natural_order_text() + " "@ + comparator_reverse_order_text(), " "@);
    spells_both(s, b + 56, comparator_reversed_text() + " "@ + comparator_then_comparing_text() + " "@ + comparator_natural_order_text() + " "@, comparator_reverse_order_text());
    spells_both(s, b + 56, comparator_reversed_text() + " "@ + comparator_then_comparing_text() + " "@ + comparator_natural_order_text(), " "@);
    spells_both(s, b + 56, comparator_reversed_text() + " "@ + comparator_then_comparing_text() + " "@, comparator_natural_order_text());
    spells_both(s, b + 56, comparator_reversed_text() + " "@ + comparator_then_comparing_text(), " "@);
    spells_both(s, b + 56, comparator_reversed_text() + " "@, comparator_then_comparing_text());
    spells_both(s, b + 56, comparator_reversed_text(), " "@);
    lexes_comparator_reversed(s, b + 56, l, d5);
    let d6 = d5 + comparator_reversed_tokens(l);
    reads_space(s, b + 126, " "@, 0, l, d6);
    lexes_comparator_then_comparing(s, b + 127, l, d6);
    let d7 = d6 + comparator_then_comparing_tokens(l);
    reads_space(s, b + 285, " "@, 0, l, d7);
    lexes_comparator_natural_order(s, b + 286, l, d7);
    let d8 = d7 + comparator_natural_order_tokens(l);
    reads_space(s, b + 355, " "@, 0, l, d8);
    lexes_comparator_reverse_order(s, b + 356, l, d8);
    let d9 = d8 + comparator_reverse_order_tokens(l);
    reads_space(s, b + 425, " "@, 0, l, d9);
    lexes_comparator_comparing(s, b + 426, l, d9);
    let d10 = d9 + comparator_comparing_tokens(l);
    reads_space(s, b + 526, " }\n"@, 0, l, d10);
    reads_sign(s, b + 526, " }\n"@, 1, Tok::RBrace, l, d10);
    let d11 = d10.push(sign_tok(Tok::RBrace, l));
    reads_line(s, b + 526, " }\n"@, 2, l, d11);
    assert(d11 =~= done + comparator_row(l));
}

/// The interface `Comparator` is read as one.
pub proof fn declares_comparator(t: Seq<TokenV>, p: int, l: int)
    requires
        0 <= p,
        p + comparator_row(l).len() < t.len(),
        t.subrange(p, p + comparator_row(l).len()) == comparator_row(l),
    ensures
        declares_class(t, "Comparator"@, None, true, p, p + comparator_row(l).len()),
        t[p].kind != Tok::Eof,
{
    words_are_known();
    let name = "Comparator"@;
    let w = comparator_row(l);
    assert(comparator_sam_tokens(l).len() == 9);
    assert(comparator_reversed_tokens(l).len() == 23);
    assert(comparator_then_comparing_tokens(l).len() == 52);
    assert(comparator_natural_order_tokens(l).len() == 21);
    assert(comparator_reverse_order_tokens(l).len() == 21);
    assert(comparator_comparing_tokens(l).len() == 33);
    assert(w.len() == 164);
    let q = p + 3;
    assert forall|k: int| 0 <= k < 164 implies t[p + k] == #[trigger] w[k] by {
        assert(t.subrange(p, p + w.len())[k] == w[k]);
    }
    assert(t[p] == w[0] && t[p + 1] == w[1] && t[p + 2] == w[2]);
    let u = comparator_sam_tokens(l);
    assert(t[q] == w[3] && w[3] == u[0]);
    assert(t[q + 1] == w[4] && w[4] == u[1]);
    assert(t[q + 2] == w[5] && w[5] == u[2]);
    assert(t[q + 3] == w[6] && w[6] == u[3]);
    assert(t[q + 4] == w[7] && w[7] == u[4]);
    assert(t[q + 5] == w[8] && w[8] == u[5]);
    assert(t[q + 6] == w[9] && w[9] == u[6]);
    assert(t[q + 7] == w[10] && w[10] == u[7]);
    assert(t[q + 8] == w[11] && w[11] == u[8]);
    assert(t[q + 9] == w[12]);
    reads_last_parameter(t, q + 6);
    reads_next_parameter(t, q + 3, q + 8);
    reads_parameters(t, q + 3, q + 8);
    reads_method(t, name, q, q, q + 8, q + 10);
    assert(t.subrange(p + 13, p + 36) =~= comparator_reversed_tokens(l)) by {
        assert forall|k: int| 0 <= k < 23 implies t[p + 13 + k] == #[trigger] comparator_reversed_tokens(l)[k] by {
            assert(t.subrange(p, p + w.len())[13 + k] == w[13 + k]);
        }
    }
    stands_comparator_reversed(t, name, p + 13, l);
    assert(t[p + 13] == comparator_reversed_tokens(l)[0]);
    assert(t.subrange(p + 36, p + 88) =~= comparator_then_comparing_tokens(l)) by {
        assert forall|k: int| 0 <= k < 52 implies t[p + 36 + k] == #[trigger] comparator_then_comparing_tokens(l)[k] by {
            assert(t.subrange(p, p + w.len())[36 + k] == w[36 + k]);
        }
    }
    stands_comparator_then_comparing(t, name, p + 36, l);
    assert(t[p + 36] == comparator_then_comparing_tokens(l)[0]);
    assert(t.subrange(p + 88, p + 109) =~= comparator_natural_order_tokens(l)) by {
        assert forall|k: int| 0 <= k < 21 implies t[p + 88 + k] == #[trigger] comparator_natural_order_tokens(l)[k] by {
            assert(t.subrange(p, p + w.len())[88 + k] == w[88 + k]);
        }
    }
    stands_comparator_natural_order(t, name, p + 88, l);
    assert(t[p + 88] == comparator_natural_order_tokens(l)[0]);
    assert(t.subrange(p + 109, p + 130) =~= comparator_reverse_order_tokens(l)) by {
        assert forall|k: int| 0 <= k < 21 implies t[p + 109 + k] == #[trigger] comparator_reverse_order_tokens(l)[k] by {
            assert(t.subrange(p, p + w.len())[109 + k] == w[109 + k]);
        }
    }
    stands_comparator_reverse_order(t, name, p + 109, l);
    assert(t[p + 109] == comparator_reverse_order_tokens(l)[0]);
    assert(t.subrange(p + 130, p + 163) =~= comparator_comparing_tokens(l)) by {
        assert forall|k: int| 0 <= k < 33 implies t[p + 130 + k] == #[trigger] comparator_comparing_tokens(l)[k] by {
            assert(t.subrange(p, p + w.len())[130 + k] == w[130 + k]);
        }
    }
    stands_comparator_comparing(t, name, p + 130, l);
    assert(t[p + 130] == comparator_comparing_tokens(l)[0]);
    assert(t[p + 163] == w[163]);
    reads_members_end(t, name, p + 163);
    reads_next_member(t, name, p + 130, p + 163, p + 164);
    reads_next_member(t, name, p + 109, p + 130, p + 164);
    reads_next_member(t, name, p + 88, p + 109, p + 164);
    reads_next_member(t, name, p + 36, p + 88, p + 164);
    reads_next_member(t, name, p + 13, p + 36, p + 164);
    reads_next_member(t, name, p + 3, p + 13, p + 164);
    reads_interface(t, p, p + 164);
}

/// The tokens of `int getAsInt()`.
pub open spec fn int_supplier_sam_tokens(l: int) -> Seq<TokenV> {
    seq![
        name_tok("int"@, l), name_tok("getAsInt"@, l), sign_tok(Tok::LParen, l),
        sign_tok(Tok::RParen, l),
    ]
}

proof fn spelling_of_int_supplier_sam()
    ensures
        "int getAsInt()"@.len() == 14,
        spells("int getAsInt()"@, 0, "int"@) && spells("int getAsInt()"@, 4, "getAsInt"@),
        "int getAsInt()"@[3] == ' ' && "int getAsInt()"@[12] == '(',
        "int getAsInt()"@[13] == ')',
{
    reveal_strlit("int getAsInt()");
    reveal_strlit("getAsInt");
    reveal_strlit("int");
}

proof fn lexes_int_supplier_sam(s: Seq<char>, b: int, l: int, done: Seq<TokenV>)
    requires
        spells(s, b, "int getAsInt()"@),
    ensures
        rest(s, b, l, done) == rest(s, b + 14, l, done + int_supplier_sam_tokens(l)),
{
    words_are_known();
    spelling_of_int_supplier_sam();
    let text = "int getAsInt()"@;
    let d0 = done;
    reads_name_space(s, b, text, 0, 4, "int"@, l, d0);
    let d1 = d0.push(name_tok("int"@, l));
    reads_name(s, b, text, 4, 12, "getAsInt"@, l, d1);
    let d2 = d1.push(name_tok("getAsInt"@, l));
    reads_sign(s, b, text, 12, Tok::LParen, l, d2);
    let d3 = d2.push(sign_tok(Tok::LParen, l));
    reads_sign(s, b, text, 13, Tok::RParen, l, d3);
    let d4 = d3.push(sign_tok(Tok::RParen, l));
    assert(d4 =~= done + int_supplier_sam_tokens(l));
}

/// The tokens of the interface `IntSupplier`.
pub open spec fn int_supplier_row(l: int) -> Seq<TokenV> {
    seq![name_tok("interface"@, l), name_tok("IntSupplier"@, l), sign_tok(Tok::LBrace, l)] + int_supplier_sam_tokens(l)
        + seq![sign_tok(Tok::Semi, l)] + seq![sign_tok(Tok::RBrace, l)]
}

/// The interface `IntSupplier` is lexed as these tokens.
pub proof fn lexes_int_supplier_row(s: Seq<char>, b: int, l: int, done: Seq<TokenV>)
    requires
        spells(s, b, interface_source("IntSupplier"@, "int getAsInt()"@, ""@)),
    ensures
        rest(s, b, l, done) == rest(
            s,
            b + interface_source("IntSupplier"@, "int getAsInt()"@, ""@).len(),
            next_line(l),
            done + int_supplier_row(l),
        ),
{
    words_are_known();
    signs_are_known();
    let x1 = "interface "@ + "IntSupplier"@;
    let x2 = x1 + " { "@;
    let x3 = x2 + "int getAsInt()"@;
    let x4 = x3 + "; "@;
    let x5 = x4 + ""@;
    assert("int getAsInt()"@.len() == 14) by {
        reveal_strlit("int getAsInt()");
    }
    assert(""@.len() == 0) by {
        reveal_strlit("");
    }
    spells_both(s, b, x5, " }\n"@);
    spells_both(s, b, x4, ""@);
    spells_both(s, b, x3, "; "@);
    spells_both(s, b, x2, "int getAsInt()"@);
    spells_both(s, b, x1, " { "@);
    spells_both(s, b, "interface "@, "IntSupplier"@);
    let d0 = done;
    reads_name_space(s, b, "interface "@, 0, 10, "interface"@, l, d0);
    let d1 = d0.push(name_tok("interface"@, l));
    reads_gap(s, b + 21, " { "@, 0);
    lexes_name_space(s, b + 10, b + 22, "IntSupplier"@, l, d1);
    let d2 = d1.push(name_tok("IntSupplier"@, l));
    reads_sign(s, b + 21, " { "@, 1, Tok::LBrace, l, d2);
    let d3 = d2.push(sign_tok(Tok::LBrace, l));
    reads_space(s, b + 21, " { "@, 2, l, d3);
    lexes_int_supplier_sam(s, b + 24, l, d3);
    let d4 = d3 + int_supplier_sam_tokens(l);
    reads_sign(s, b + 38, "; "@, 0, Tok::Semi, l, d4);
    let d5 = d4.push(sign_tok(Tok::Semi, l));
    reads_space(s, b + 38, "; "@, 1, l, d5);
    reads_space(s, b + 40, " }\n"@, 0, l, d5);
    reads_sign(s, b + 40, " }\n"@, 1, Tok::RBrace, l, d5);
    let d6 = d5.push(sign_tok(Tok::RBrace, l));
    reads_line(s, b + 40, " }\n"@, 2, l, d6);
    assert(d6 =~= done + int_supplier_row(l));
}

/// The interface `IntSupplier` is read as one.
pub proof fn declares_int_supplier(t: Seq<TokenV>, p: int, l: int)
    requires
        0 <= p,
        p + int_supplier_row(l).len() < t.len(),
        t.subrange(p, p + int_supplier_row(l).len()) == int_supplier_row(l),
    ensures
        declares_class(t, "IntSupplier"@, None, true, p, p + int_supplier_row(l).len()),
        t[p].kind != Tok::Eof,
{
    words_are_known();
    let name = "IntSupplier"@;
    let w = int_supplier_row(l);
    assert(int_supplier_sam_tokens(l).len() == 4);
    assert(w.len() == 9);
    let q = p + 3;
    assert forall|k: int| 0 <= k < 9 implies t[p + k] == #[trigger] w[k] by {
        assert(t.subrange(p, p + w.len())[k] == w[k]);
    }
    assert(t[p] == w[0] && t[p + 1] == w[1] && t[p + 2] == w[2]);
    let u = int_supplier_sam_tokens(l);
    assert(t[q] == w[3] && w[3] == u[0]);
    assert(t[q + 1] == w[4] && w[4] == u[1]);
    assert(t[q + 2] == w[5] && w[5] == u[2]);
    assert(t[q + 3] == w[6] && w[6] == u[3]);
    assert(t[q + 4] == w[7]);
    reads_no_parameters(t, q + 3);
    reads_method(t, name, q, q, q + 3, q + 5);
    assert(t[p + 8] == w[8]);
    reads_members_end(t, name, p + 8);
    reads_next_member(t, name, p + 3, p + 8, p + 9);
    reads_interface(t, p, p + 9);
}

/// The tokens of `boolean test(int value)`.
pub open spec fn int_predicate_sam_tokens(l: int) -> Seq<TokenV> {
    seq![
        name_tok("boolean"@, l), name_tok("test"@, l), sign_tok(Tok::LParen, l),
        name_tok("int"@, l), name_tok("value"@, l), sign_tok(Tok::RParen, l),
    ]
}

proof fn spelling_of_int_predicate_sam()
    ensures
        "boolean test(int value)"@.len() == 23,
        spells("boolean test(int value)"@, 0, "boolean"@),
        spells("boolean test(int value)"@, 8, "test"@),
        spells("boolean test(int value)"@, 13, "int"@),
        spells("boolean test(int value)"@, 17, "value"@),
        "boolean test(int value)"@[7] == ' ' && "boolean test(int value)"@[12] == '(',
        "boolean test(int value)"@[13] == 'i' && "boolean test(int value)"@[16] == ' ',
        "boolean test(int value)"@[22] == ')',
{
    reveal_strlit("boolean test(int value)");
    reveal_strlit("boolean");
    reveal_strlit("int");
    reveal_strlit("test");
    reveal_strlit("value");
}

proof fn lexes_int_predicate_sam(s: Seq<char>, b: int, l: int, done: Seq<TokenV>)
    requires
        spells(s, b, "boolean test(int value)"@),
    ensures
        rest(s, b, l, done) == rest(s, b + 23, l, done + int_predicate_sam_tokens(l)),
{
    words_are_known();
    spelling_of_int_predicate_sam();
    let text = "boolean test(int value)"@;
    let d0 = done;
    reads_name_space(s, b, text, 0, 8, "boolean"@, l, d0);
    let d1 = d0.push(name_tok("boolean"@, l));
    reads_name(s, b, text, 8, 12, "test"@, l, d1);
    let d2 = d1.push(name_tok("test"@, l));
    reads_sign(s, b, text, 12, Tok::LParen, l, d2);
    let d3 = d2.push(sign_tok(Tok::LParen, l));
    reads_name_space(s, b, text, 13, 17, "int"@, l, d3);
    let d4 = d3.push(name_tok("int"@, l));
    reads_name(s, b, text, 17, 22, "value"@, l, d4);
    let d5 = d4.push(name_tok("value"@, l));
    reads_sign(s, b, text, 22, Tok::RParen, l, d5);
    let d6 = d5.push(sign_tok(Tok::RParen, l));
    assert(d6 =~= done + int_predicate_sam_tokens(l));
}

/// The tokens of the interface `IntPredicate`.
pub open spec fn int_predicate_row(l: int) -> Seq<TokenV> {
    seq![name_tok("interface"@, l), name_tok("IntPredicate"@, l), sign_tok(Tok::LBrace, l)] + int_predicate_sam_tokens(l)
        + seq![sign_tok(Tok::Semi, l)] + int_predicate_and_tokens(l) + int_predicate_negate_tokens(l) + int_predicate_or_tokens(l) + seq![sign_tok(Tok::RBrace, l)]
}

/// The interface `IntPredicate` is lexed as these tokens.
pub proof fn lexes_int_predicate_row(s: Seq<char>, b: int, l: int, done: Seq<TokenV>)
    requires
        spells(s, b, interface_source("IntPredicate"@, "boolean test(int value)"@, "default IntPredicate and(IntPredicate other) { return value -> this.test(value) && other.test(value); } default IntPredicate negate() { return value -> !this.test(value); } default IntPredicate or(IntPredicate other) { return value -> this.test(value) || other.test(value); }"@)),
    ensures
        rest(s, b, l, done) == rest(
            s,
            b + interface_source("IntPredicate"@, "boolean test(int value)"@, "default IntPredicate and(IntPredicate other) { return value -> this.test(value) && other.test(value); } default IntPredicate negate() { return value -> !this.test(value); } default IntPredicate or(IntPredicate other) { return value -> this.test(value) || other.test(value); }"@).len(),
            next_line(l),
            done + int_predicate_row(l),
        ),
{
    words_are_known();
    signs_are_known();
    let x1 = "interface "@ + "IntPredicate"@;
    let x2 = x1 + " { "@;
    let x3 = x2 + "boolean test(int value)"@;
    let x4 = x3 + "; "@;
    let x5 = x4 + "default IntPredicate and(IntPredicate other) { return value -> this.test(value) && other.test(value); } default IntPredicate negate() { return value -> !this.test(value); } default IntPredicate or(IntPredicate other) { return value -> this.test(value) || other.test(value); }"@;
    assert("boolean test(int value)"@.len() == 23) by {
        reveal_strlit("boolean test(int value)");
    }
    assert("default IntPredicate and(IntPredicate other) { return value -> this.test(value) && other.test(value); } default IntPredicate negate() { return value -> !this.test(value); } default IntPredicate or(IntPredicate other) { return value -> this.test(value) || other.test(value); }"@.len() == 275) by {
        reveal_strlit("default IntPredicate and(IntPredicate other) { return value -> this.test(value) && other.test(value); } default IntPredicate negate() { return value -> !this.test(value); } default IntPredicate or(IntPredicate other) { return value -> this.test(value) || other.test(value); }");
    }
    spells_both(s, b, x5, " }\n"@);
    spells_both(s, b, x4, "default IntPredicate and(IntPredicate other) { return value -> this.test(value) && other.test(value); } default IntPredicate negate() { return value -> !this.test(value); } default IntPredicate or(IntPredicate other) { return value -> this.test(value) || other.test(value); }"@);
    spells_both(s, b, x3, "; "@);
    spells_both(s, b, x2, "boolean test(int value)"@);
    spells_both(s, b, x1, " { "@);
    spells_both(s, b, "interface "@, "IntPredicate"@);
    let d0 = done;
    reads_name_space(s, b, "interface "@, 0, 10, "interface"@, l, d0);
    let d1 = d0.push(name_tok("interface"@, l));
    reads_gap(s, b + 22, " { "@, 0);
    lexes_name_space(s, b + 10, b + 23, "IntPredicate"@, l, d1);
    let d2 = d1.push(name_tok("IntPredicate"@, l));
    reads_sign(s, b + 22, " { "@, 1, Tok::LBrace, l, d2);
    let d3 = d2.push(sign_tok(Tok::LBrace, l));
    reads_space(s, b + 22, " { "@, 2, l, d3);
    lexes_int_predicate_sam(s, b + 25, l, d3);
    let d4 = d3 + int_predicate_sam_tokens(l);
    reads_sign(s, b + 48, "; "@, 0, Tok::Semi, l, d4);
    let d5 = d4.push(sign_tok(Tok::Semi, l));
    reads_space(s, b + 48, "; "@, 1, l, d5);
    assert("default IntPredicate and(IntPredicate other) { return value -> this.test(value) && other.test(value); } default IntPredicate negate() { return value -> !this.test(value); } default IntPredicate or(IntPredicate other) { return value -> this.test(value) || other.test(value); }"@ =~= int_predicate_and_text() + " "@ + int_predicate_negate_text() + " "@ + int_predicate_or_text()) by {
        reveal_strlit("default IntPredicate and(IntPredicate other) { return value -> this.test(value) && other.test(value); } default IntPredicate negate() { return value -> !this.test(value); } default IntPredicate or(IntPredicate other) { return value -> this.test(value) || other.test(value); }");
        reveal_strlit(" ");
        reveal_strlit("default IntPredicate and(IntPredicate other) { return value -> this.test(value) && other.test(value); }");
        reveal_strlit("default IntPredicate negate() { return value -> !this.test(value); }");
        reveal_strlit("default IntPredicate or(IntPredicate other) { return value -> this.test(value) || other.test(value); }");
    }
    spelling_of_int_predicate_and();
    spelling_of_int_predicate_negate();
    spelling_of_int_predicate_or();
    spells_both(s, b + 50, int_predicate_and_text() + " "@ + int_predicate_negate_text() + " "@, int_predicate_or_text());
    spells_both(s, b + 50, int_predicate_and_text() + " "@ + int_predicate_negate_text(), " "@);
    spells_both(s, b + 50, int_predicate_and_text() + " "@, int_predicate_negate_text());
    spells_both(s, b + 50, int_predicate_and_text(), " "@);
    lexes_int_predicate_and(s, b + 50, l, d5);
    let d6 = d5 + int_predicate_and_tokens(l);
    reads_space(s, b + 153, " "@, 0, l, d6);
    lexes_int_predicate_negate(s, b + 154, l, d6);
    let d7 = d6 + int_predicate_negate_tokens(l);
    reads_space(s, b + 222, " "@, 0, l, d7);
    lexes_int_predicate_or(s, b + 223, l, d7);
    let d8 = d7 + int_predicate_or_tokens(l);
    reads_space(s, b + 325, " }\n"@, 0, l, d8);
    reads_sign(s, b + 325, " }\n"@, 1, Tok::RBrace, l, d8);
    let d9 = d8.push(sign_tok(Tok::RBrace, l));
    reads_line(s, b + 325, " }\n"@, 2, l, d9);
    assert(d9 =~= done + int_predicate_row(l));
}

/// The interface `IntPredicate` is read as one.
pub proof fn declares_int_predicate(t: Seq<TokenV>, p: int, l: int)
    requires
        0 <= p,
        p + int_predicate_row(l).len() < t.len(),
        t.subrange(p, p + int_predicate_row(l).len()) == int_predicate_row(l),
    ensures
        declares_class(t, "IntPredicate"@, None, true, p, p + int_predicate_row(l).len()),
        t[p].kind != Tok::Eof,
{
    words_are_known();
    let name = "IntPredicate"@;
    let w = int_predicate_row(l);
    assert(int_predicate_sam_tokens(l).len() == 6);
    assert(int_predicate_and_tokens(l).len() == 26);
    assert(int_predicate_negate_tokens(l).len() == 18);
    assert(int_predicate_or_tokens(l).len() == 26);
    assert(w.len() == 81);
    let q = p + 3;
    assert forall|k: int| 0 <= k < 81 implies t[p + k] == #[trigger] w[k] by {
        assert(t.subrange(p, p + w.len())[k] == w[k]);
    }
    assert(t[p] == w[0] && t[p + 1] == w[1] && t[p + 2] == w[2]);
    let u = int_predicate_sam_tokens(l);
    assert(t[q] == w[3] && w[3] == u[0]);
    assert(t[q + 1] == w[4] && w[4] == u[1]);
    assert(t[q + 2] == w[5] && w[5] == u[2]);
    assert(t[q + 3] == w[6] && w[6] == u[3]);
    assert(t[q + 4] == w[7] && w[7] == u[4]);
    assert(t[q + 5] == w[8] && w[8] == u[5]);
    assert(t[q + 6] == w[9]);
    reads_last_parameter(t, q + 3);
    reads_parameters(t, q + 3, q + 5);
    reads_method(t, name, q, q, q + 5, q + 7);
    assert(t.subrange(p + 10, p + 36) =~= int_predicate_and_tokens(l)) by {
        assert forall|k: int| 0 <= k < 26 implies t[p + 10 + k] == #[trigger] int_predicate_and_tokens(l)[k] by {
            assert(t.subrange(p, p + w.len())[10 + k] == w[10 + k]);
        }
    }
    stands_int_predicate_and(t, name, p + 10, l);
    assert(t[p + 10] == int_predicate_and_tokens(l)[0]);
    assert(t.subrange(p + 36, p + 54) =~= int_predicate_negate_tokens(l)) by {
        assert forall|k: int| 0 <= k < 18 implies t[p + 36 + k] == #[trigger] int_predicate_negate_tokens(l)[k] by {
            assert(t.subrange(p, p + w.len())[36 + k] == w[36 + k]);
        }
    }
    stands_int_predicate_negate(t, name, p + 36, l);
    assert(t[p + 36] == int_predicate_negate_tokens(l)[0]);
    assert(t.subrange(p + 54, p + 80) =~= int_predicate_or_tokens(l)) by {
        assert forall|k: int| 0 <= k < 26 implies t[p + 54 + k] == #[trigger] int_predicate_or_tokens(l)[k] by {
            assert(t.subrange(p, p + w.len())[54 + k] == w[54 + k]);
        }
    }
    stands_int_predicate_or(t, name, p + 54, l);
    assert(t[p + 54] == int_predicate_or_tokens(l)[0]);
    assert(t[p + 80] == w[80]);
    reads_members_end(t, name, p + 80);
    reads_next_member(t, name, p + 54, p + 80, p + 81);
    reads_next_member(t, name, p + 36, p + 54, p + 81);
    reads_next_member(t, name, p + 10, p + 36, p + 81);
    reads_next_member(t, name, p + 3, p + 10, p + 81);
    reads_interface(t, p, p + 81);
}

/// The tokens of `void accept(int value)`.
pub open spec fn int_consumer_sam_tokens(l: int) -> Seq<TokenV> {
    seq![
        sign_tok(Tok::Void, l), name_tok("accept"@, l), sign_tok(Tok::LParen, l),
        name_tok("int"@, l), name_tok("value"@, l), sign_tok(Tok::RParen, l),
    ]
}

proof fn spelling_of_int_consumer_sam()
    ensures
        "void accept(int value)"@.len() == 22,
        spells("void accept(int value)"@, 0, "void"@),
        spells("void accept(int value)"@, 5, "accept"@),
        spells("void accept(int value)"@, 12, "int"@),
        spells("void accept(int value)"@, 16, "value"@),
        "void accept(int value)"@[4] == ' ' && "void accept(int value)"@[11] == '(',
        "void accept(int value)"@[12] == 'i' && "void accept(int value)"@[15] == ' ',
        "void accept(int value)"@[21] == ')',
{
    reveal_strlit("void accept(int value)");
    reveal_strlit("accept");
    reveal_strlit("int");
    reveal_strlit("value");
    reveal_strlit("void");
}

proof fn lexes_int_consumer_sam(s: Seq<char>, b: int, l: int, done: Seq<TokenV>)
    requires
        spells(s, b, "void accept(int value)"@),
    ensures
        rest(s, b, l, done) == rest(s, b + 22, l, done + int_consumer_sam_tokens(l)),
{
    words_are_known();
    spelling_of_int_consumer_sam();
    let text = "void accept(int value)"@;
    let d0 = done;
    reads_key_space(s, b, text, 0, 5, "void"@, Tok::Void, l, d0);
    let d1 = d0.push(sign_tok(Tok::Void, l));
    reads_name(s, b, text, 5, 11, "accept"@, l, d1);
    let d2 = d1.push(name_tok("accept"@, l));
    reads_sign(s, b, text, 11, Tok::LParen, l, d2);
    let d3 = d2.push(sign_tok(Tok::LParen, l));
    reads_name_space(s, b, text, 12, 16, "int"@, l, d3);
    let d4 = d3.push(name_tok("int"@, l));
    reads_name(s, b, text, 16, 21, "value"@, l, d4);
    let d5 = d4.push(name_tok("value"@, l));
    reads_sign(s, b, text, 21, Tok::RParen, l, d5);
    let d6 = d5.push(sign_tok(Tok::RParen, l));
    assert(d6 =~= done + int_consumer_sam_tokens(l));
}

/// The tokens of the interface `IntConsumer`.
pub open spec fn int_consumer_row(l: int) -> Seq<TokenV> {
    seq![name_tok("interface"@, l), name_tok("IntConsumer"@, l), sign_tok(Tok::LBrace, l)] + int_consumer_sam_tokens(l)
        + seq![sign_tok(Tok::Semi, l)] + int_consumer_and_then_tokens(l) + seq![sign_tok(Tok::RBrace, l)]
}

/// The interface `IntConsumer` is lexed as these tokens.
pub proof fn lexes_int_consumer_row(s: Seq<char>, b: int, l: int, done: Seq<TokenV>)
    requires
        spells(s, b, interface_source("IntConsumer"@, "void accept(int value)"@, "default IntConsumer andThen(IntConsumer after) { return value -> { this.accept(value); after.accept(value); }; }"@)),
    ensures
        rest(s, b, l, done) == rest(
            s,
            b + interface_source("IntConsumer"@, "void accept(int value)"@, "default IntConsumer andThen(IntConsumer after) { return value -> { this.accept(value); after.accept(value); }; }"@).len(),
            next_line(l),
            done + int_consumer_row(l),
        ),
{
    words_are_known();
    signs_are_known();
    let x1 = "interface "@ + "IntConsumer"@;
    let x2 = x1 + " { "@;
    let x3 = x2 + "void accept(int value)"@;
    let x4 = x3 + "; "@;
    let x5 = x4 + "default IntConsumer andThen(IntConsumer after) { return value -> { this.accept(value); after.accept(value); }; }"@;
    assert("void accept(int value)"@.len() == 22) by {
        reveal_strlit("void accept(int value)");
    }
    assert("default IntConsumer andThen(IntConsumer after) { return value -> { this.accept(value); after.accept(value); }; }"@.len() == 112) by {
        reveal_strlit("default IntConsumer andThen(IntConsumer after) { return value -> { this.accept(value); after.accept(value); }; }");
    }
    spells_both(s, b, x5, " }\n"@);
    spells_both(s, b, x4, "default IntConsumer andThen(IntConsumer after) { return value -> { this.accept(value); after.accept(value); }; }"@);
    spells_both(s, b, x3, "; "@);
    spells_both(s, b, x2, "void accept(int value)"@);
    spells_both(s, b, x1, " { "@);
    spells_both(s, b, "interface "@, "IntConsumer"@);
    let d0 = done;
    reads_name_space(s, b, "interface "@, 0, 10, "interface"@, l, d0);
    let d1 = d0.push(name_tok("interface"@, l));
    reads_gap(s, b + 21, " { "@, 0);
    lexes_name_space(s, b + 10, b + 22, "IntConsumer"@, l, d1);
    let d2 = d1.push(name_tok("IntConsumer"@, l));
    reads_sign(s, b + 21, " { "@, 1, Tok::LBrace, l, d2);
    let d3 = d2.push(sign_tok(Tok::LBrace, l));
    reads_space(s, b + 21, " { "@, 2, l, d3);
    lexes_int_consumer_sam(s, b + 24, l, d3);
    let d4 = d3 + int_consumer_sam_tokens(l);
    reads_sign(s, b + 46, "; "@, 0, Tok::Semi, l, d4);
    let d5 = d4.push(sign_tok(Tok::Semi, l));
    reads_space(s, b + 46, "; "@, 1, l, d5);
    spelling_of_int_consumer_and_then();
    lexes_int_consumer_and_then(s, b + 48, l, d5);
    let d6 = d5 + int_consumer_and_then_tokens(l);
    reads_space(s, b + 160, " }\n"@, 0, l, d6);
    reads_sign(s, b + 160, " }\n"@, 1, Tok::RBrace, l, d6);
    let d7 = d6.push(sign_tok(Tok::RBrace, l));
    reads_line(s, b + 160, " }\n"@, 2, l, d7);
    assert(d7 =~= done + int_consumer_row(l));
}

/// The interface `IntConsumer` is read as one.
pub proof fn declares_int_consumer(t: Seq<TokenV>, p: int, l: int)
    requires
        0 <= p,
        p + int_consumer_row(l).len() < t.len(),
        t.subrange(p, p + int_consumer_row(l).len()) == int_consumer_row(l),
    ensures
        declares_class(t, "IntConsumer"@, None, true, p, p + int_consumer_row(l).len()),
        t[p].kind != Tok::Eof,
{
    words_are_known();
    let name = "IntConsumer"@;
    let w = int_consumer_row(l);
    assert(int_consumer_sam_tokens(l).len() == 6);
    assert(int_consumer_and_then_tokens(l).len() == 29);
    assert(w.len() == 40);
    let q = p + 3;
    assert forall|k: int| 0 <= k < 40 implies t[p + k] == #[trigger] w[k] by {
        assert(t.subrange(p, p + w.len())[k] == w[k]);
    }
    assert(t[p] == w[0] && t[p + 1] == w[1] && t[p + 2] == w[2]);
    let u = int_consumer_sam_tokens(l);
    assert(t[q] == w[3] && w[3] == u[0]);
    assert(t[q + 1] == w[4] && w[4] == u[1]);
    assert(t[q + 2] == w[5] && w[5] == u[2]);
    assert(t[q + 3] == w[6] && w[6] == u[3]);
    assert(t[q + 4] == w[7] && w[7] == u[4]);
    assert(t[q + 5] == w[8] && w[8] == u[5]);
    assert(t[q + 6] == w[9]);
    reads_last_parameter(t, q + 3);
    reads_parameters(t, q + 3, q + 5);
    reads_method(t, name, q, q, q + 5, q + 7);
    assert(t.subrange(p + 10, p + 39) =~= int_consumer_and_then_tokens(l)) by {
        assert forall|k: int| 0 <= k < 29 implies t[p + 10 + k] == #[trigger] int_consumer_and_then_tokens(l)[k] by {
            assert(t.subrange(p, p + w.len())[10 + k] == w[10 + k]);
        }
    }
    stands_int_consumer_and_then(t, name, p + 10, l);
    assert(t[p + 10] == int_consumer_and_then_tokens(l)[0]);
    assert(t[p + 39] == w[39]);
    reads_members_end(t, name, p + 39);
    reads_next_member(t, name, p + 10, p + 39, p + 40);
    reads_next_member(t, name, p + 3, p + 10, p + 40);
    reads_interface(t, p, p + 40);
}

/// The tokens of `int applyAsInt(int operand)`.
pub open spec fn int_unary_operator_sam_tokens(l: int) -> Seq<TokenV> {
    seq![
        name_tok("int"@, l), name_tok("applyAsInt"@, l), sign_tok(Tok::LParen, l),
        name_tok("int"@, l), name_tok("operand"@, l), sign_tok(Tok::RParen, l),
    ]
}

proof fn spelling_of_int_unary_operator_sam()
    ensures
        "int applyAsInt(int operand)"@.len() == 27,
        spells("int applyAsInt(int operand)"@, 0, "int"@),
        spells("int applyAsInt(int operand)"@, 4, "applyAsInt"@),
        spells("int applyAsInt(int operand)"@, 15, "int"@),
        spells("int applyAsInt(int operand)"@, 19, "operand"@),
        "int applyAsInt(int operand)"@[3] == ' ' && "int applyAsInt(int operand)"@[14] == '(',
        "int applyAsInt(int operand)"@[15] == 'i' && "int applyAsInt(int operand)"@[18] == ' ',
        "int applyAsInt(int operand)"@[26] == ')',
{
    reveal_strlit("int applyAsInt(int operand)");
    reveal_strlit("applyAsInt");
    reveal_strlit("int");
    reveal_strlit("operand");
}

proof fn lexes_int_unary_operator_sam(s: Seq<char>, b: int, l: int, done: Seq<TokenV>)
    requires
        spells(s, b, "int applyAsInt(int operand)"@),
    ensures
        rest(s, b, l, done) == rest(s, b + 27, l, done + int_unary_operator_sam_tokens(l)),
{
    words_are_known();
    spelling_of_int_unary_operator_sam();
    let text = "int applyAsInt(int operand)"@;
    let d0 = done;
    reads_name_space(s, b, text, 0, 4, "int"@, l, d0);
    let d1 = d0.push(name_tok("int"@, l));
    reads_name(s, b, text, 4, 14, "applyAsInt"@, l, d1);
    let d2 = d1.push(name_tok("applyAsInt"@, l));
    reads_sign(s, b, text, 14, Tok::LParen, l, d2);
    let d3 = d2.push(sign_tok(Tok::LParen, l));
    reads_name_space(s, b, text, 15, 19, "int"@, l, d3);
    let d4 = d3.push(name_tok("int"@, l));
    reads_name(s, b, text, 19, 26, "operand"@, l, d4);
    let d5 = d4.push(name_tok("operand"@, l));
    reads_sign(s, b, text, 26, Tok::RParen, l, d5);
    let d6 = d5.push(sign_tok(Tok::RParen, l));
    assert(d6 =~= done + int_unary_operator_sam_tokens(l));
}

/// The tokens of the interface `IntUnaryOperator`.
pub open spec fn int_unary_operator_row(l: int) -> Seq<TokenV> {
    seq![name_tok("interface"@, l), name_tok("IntUnaryOperator"@, l), sign_tok(Tok::LBrace, l)] + int_unary_operator_sam_tokens(l)
        + seq![sign_tok(Tok::Semi, l)] + int_unary_operator_compose_tokens(l) + int_unary_operator_and_then_tokens(l) + int_unary_operator_identity_tokens(l) + seq![sign_tok(Tok::RBrace, l)]
}

/// The interface `IntUnaryOperator` is lexed as these tokens.
pub proof fn lexes_int_unary_operator_row(s: Seq<char>, b: int, l: int, done: Seq<TokenV>)
    requires
        spells(s, b, interface_source("IntUnaryOperator"@, "int applyAsInt(int operand)"@, "default IntUnaryOperator compose(IntUnaryOperator before) { return v -> this.applyAsInt(before.applyAsInt(v)); } default IntUnaryOperator andThen(IntUnaryOperator after) { return v -> after.applyAsInt(this.applyAsInt(v)); } static IntUnaryOperator identity() { return v -> v; }"@)),
    ensures
        rest(s, b, l, done) == rest(
            s,
            b + interface_source("IntUnaryOperator"@, "int applyAsInt(int operand)"@, "default IntUnaryOperator compose(IntUnaryOperator before) { return v -> this.applyAsInt(before.applyAsInt(v)); } default IntUnaryOperator andThen(IntUnaryOperator after) { return v -> after.applyAsInt(this.applyAsInt(v)); } static IntUnaryOperator identity() { return v -> v; }"@).len(),
            next_line(l),
            done + int_unary_operator_row(l),
        ),
{
    words_are_known();
    signs_are_known();
    let x1 = "interface "@ + "IntUnaryOperator"@;
    let x2 = x1 + " { "@;
    let x3 = x2 + "int applyAsInt(int operand)"@;
    let x4 = x3 + "; "@;
    let x5 = x4 + "default IntUnaryOperator compose(IntUnaryOperator before) { return v -> this.applyAsInt(before.applyAsInt(v)); } default IntUnaryOperator andThen(IntUnaryOperator after) { return v -> after.applyAsInt(this.applyAsInt(v)); } static IntUnaryOperator identity() { return v -> v; }"@;
    assert("int applyAsInt(int operand)"@.len() == 27) by {
        reveal_strlit("int applyAsInt(int operand)");
    }
    assert("default IntUnaryOperator compose(IntUnaryOperator before) { return v -> this.applyAsInt(before.applyAsInt(v)); } default IntUnaryOperator andThen(IntUnaryOperator after) { return v -> after.applyAsInt(this.applyAsInt(v)); } static IntUnaryOperator identity() { return v -> v; }"@.len() == 277) by {
        reveal_strlit("default IntUnaryOperator compose(IntUnaryOperator before) { return v -> this.applyAsInt(before.applyAsInt(v)); } default IntUnaryOperator andThen(IntUnaryOperator after) { return v -> after.applyAsInt(this.applyAsInt(v)); } static IntUnaryOperator identity() { return v -> v; }");
    }
    spells_both(s, b, x5, " }\n"@);
    spells_both(s, b, x4, "default IntUnaryOperator compose(IntUnaryOperator before) { return v -> this.applyAsInt(before.applyAsInt(v)); } default IntUnaryOperator andThen(IntUnaryOperator after) { return v -> after.applyAsInt(this.applyAsInt(v)); } static IntUnaryOperator identity() { return v -> v; }"@);
    spells_both(s, b, x3, "; "@);
    spells_both(s, b, x2, "int applyAsInt(int operand)"@);
    spells_both(s, b, x1, " { "@);
    spells_both(s, b, "interface "@, "IntUnaryOperator"@);
    let d0 = done;
    reads_name_space(s, b, "interface "@, 0, 10, "interface"@, l, d0);
    let d1 = d0.push(name_tok("interface"@, l));
    reads_gap(s, b + 26, " { "@, 0);
    lexes_name_space(s, b + 10, b + 27, "IntUnaryOperator"@, l, d1);
    let d2 = d1.push(name_tok("IntUnaryOperator"@, l));
    reads_sign(s, b + 26, " { "@, 1, Tok::LBrace, l, d2);
    let d3 = d2.push(sign_tok(Tok::LBrace, l));
    reads_space(s, b + 26, " { "@, 2, l, d3);
    lexes_int_unary_operator_sam(s, b + 29, l, d3);
    let d4 = d3 + int_unary_operator_sam_tokens(l);
    reads_sign(s, b + 56, "; "@, 0, Tok::Semi, l, d4);
    let d5 = d4.push(sign_tok(Tok::Semi, l));
    reads_space(s, b + 56, "; "@, 1, l, d5);
    assert("default IntUnaryOperator compose(IntUnaryOperator before) { return v -> this.applyAsInt(before.applyAsInt(v)); } default IntUnaryOperator andThen(IntUnaryOperator after) { return v -> after.applyAsInt(this.applyAsInt(v)); } static IntUnaryOperator identity() { return v -> v; }"@ =~= int_unary_operator_compose_text() + " "@ + int_unary_operator_and_then_text() + " "@ + int_unary_operator_identity_text()) by {
        reveal_strlit("default IntUnaryOperator compose(IntUnaryOperator before) { return v -> this.applyAsInt(before.applyAsInt(v)); } default IntUnaryOperator andThen(IntUnaryOperator after) { return v -> after.applyAsInt(this.applyAsInt(v)); } static IntUnaryOperator identity() { return v -> v; }");
        reveal_strlit(" ");
        reveal_strlit("default IntUnaryOperator compose(IntUnaryOperator before) { return v -> this.applyAsInt(before.applyAsInt(v)); }");
        reveal_strlit("default IntUnaryOperator andThen(IntUnaryOperator after) { return v -> after.applyAsInt(this.applyAsInt(v)); }");
        reveal_strlit("static IntUnaryOperator identity() { return v -> v; }");
    }
    spelling_of_int_unary_operator_compose();
    spelling_of_int_unary_operator_and_then();
    spelling_of_int_unary_operator_identity();
    spells_both(s, b + 58, int_unary_operator_compose_text() + " "@ + int_unary_operator_and_then_text() + " "@, int_unary_operator_identity_text());
    spells_both(s, b + 58, int_unary_operator_compose_text() + " "@ + int_unary_operator_and_then_text(), " "@);
    spells_both(s, b + 58, int_unary_operator_compose_text() + " "@, int_unary_operator_and_then_text());
    spells_both(s, b + 58, int_unary_operator_compose_text(), " "@);
    lexes_int_unary_operator_compose(s, b + 58, l, d5);
    let d6 = d5 + int_unary_operator_compose_tokens(l);
    reads_space(s, b + 170, " "@, 0, l, d6);
    lexes_int_unary_operator_and_then(s, b + 171, l, d6);
    let d7 = d6 + int_unary_operator_and_then_tokens(l);
    reads_space(s, b + 281, " "@, 0, l, d7);
    lexes_int_unary_operator_identity(s, b + 282, l, d7);
    let d8 = d7 + int_unary_operator_identity_tokens(l);
    reads_space(s, b + 335, " }\n"@, 0, l, d8);
    reads_sign(s, b + 335, " }\n"@, 1, Tok::RBrace, l, d8);
    let d9 = d8.push(sign_tok(Tok::RBrace, l));
    reads_line(s, b + 335, " }\n"@, 2, l, d9);
    assert(d9 =~= done + int_unary_operator_row(l));
}

/// The interface `IntUnaryOperator` is read as one.
pub proof fn declares_int_unary_operator(t: Seq<TokenV>, p: int, l: int)
    requires
        0 <= p,
        p + int_unary_operator_row(l).len() < t.len(),
        t.subrange(p, p + int_unary_operator_row(l).len()) == int_unary_operator_row(l),
    ensures
        declares_class(t, "IntUnaryOperator"@, None, true, p, p + int_unary_operator_row(l).len()),
        t[p].kind != Tok::Eof,
{
    words_are_known();
    let name = "IntUnaryOperator"@;
    let w = int_unary_operator_row(l);
    assert(int_unary_operator_sam_tokens(l).len() == 6);
    assert(int_unary_operator_compose_tokens(l).len() == 24);
    assert(int_unary_operator_and_then_tokens(l).len() == 24);
    assert(int_unary_operator_identity_tokens(l).len() == 12);
    assert(w.len() == 71);
    let q = p + 3;
    assert forall|k: int| 0 <= k < 71 implies t[p + k] == #[trigger] w[k] by {
        assert(t.subrange(p, p + w.len())[k] == w[k]);
    }
    assert(t[p] == w[0] && t[p + 1] == w[1] && t[p + 2] == w[2]);
    let u = int_unary_operator_sam_tokens(l);
    assert(t[q] == w[3] && w[3] == u[0]);
    assert(t[q + 1] == w[4] && w[4] == u[1]);
    assert(t[q + 2] == w[5] && w[5] == u[2]);
    assert(t[q + 3] == w[6] && w[6] == u[3]);
    assert(t[q + 4] == w[7] && w[7] == u[4]);
    assert(t[q + 5] == w[8] && w[8] == u[5]);
    assert(t[q + 6] == w[9]);
    reads_last_parameter(t, q + 3);
    reads_parameters(t, q + 3, q + 5);
    reads_method(t, name, q, q, q + 5, q + 7);
    assert(t.subrange(p + 10, p + 34) =~= int_unary_operator_compose_tokens(l)) by {
        assert forall|k: int| 0 <= k < 24 implies t[p + 10 + k] == #[trigger] int_unary_operator_compose_tokens(l)[k] by {
            assert(t.subrange(p, p + w.len())[10 + k] == w[10 + k]);
        }
    }
    stands_int_unary_operator_compose(t, name, p + 10, l);
    assert(t[p + 10] == int_unary_operator_compose_tokens(l)[0]);
    assert(t.subrange(p + 34, p + 58) =~= int_unary_operator_and_then_tokens(l)) by {
        assert forall|k: int| 0 <= k < 24 implies t[p + 34 + k] == #[trigger] int_unary_operator_and_then_tokens(l)[k] by {
            assert(t.subrange(p, p + w.len())[34 + k] == w[34 + k]);
        }
    }
    stands_int_unary_operator_and_then(t, name, p + 34, l);
    assert(t[p + 34] == int_unary_operator_and_then_tokens(l)[0]);
    assert(t.subrange(p + 58, p + 70) =~= int_unary_operator_identity_tokens(l)) by {
        assert forall|k: int| 0 <= k < 12 implies t[p + 58 + k] == #[trigger] int_unary_operator_identity_tokens(l)[k] by {
            assert(t.subrange(p, p + w.len())[58 + k] == w[58 + k]);
        }
    }
    stands_int_unary_operator_identity(t, name, p + 58, l);
    assert(t[p + 58] == int_unary_operator_identity_tokens(l)[0]);
    assert(t[p + 70] == w[70]);
    reads_members_end(t, name, p + 70);
    reads_next_member(t, name, p + 58, p + 70, p + 71);
    reads_next_member(t, name, p + 34, p + 58, p + 71);
    reads_next_member(t, name, p + 10, p + 34, p + 71);
    reads_next_member(t, name, p + 3, p + 10, p + 71);
    reads_interface(t, p, p + 71);
}

/// The tokens of `int applyAsInt(int left, int right)`.
pub open spec fn int_binary_operator_sam_tokens(l: int) -> Seq<TokenV> {
    seq![
        name_tok("int"@, l), name_tok("applyAsInt"@, l), sign_tok(Tok::LParen, l),
        name_tok("int"@, l), name_tok("left"@, l), sign_tok(Tok::Comma, l), name_tok("int"@, l),
        name_tok("right"@, l), sign_tok(Tok::RParen, l),
    ]
}

proof fn spelling_of_int_binary_operator_sam()
    ensures
        "int applyAsInt(int left, int right)"@.len() == 35,
        spells("int applyAsInt(int left, int right)"@, 0, "int"@),
        spells("int applyAsInt(int left, int right)"@, 4, "applyAsInt"@),
        spells("int applyAsInt(int left, int right)"@, 15, "int"@),
        spells("int applyAsInt(int left, int right)"@, 19, "left"@),
        spells("int applyAsInt(int left, int right)"@, 25, "int"@),
        spells("int applyAsInt(int left, int right)"@, 29, "right"@),
        "int applyAsInt(int left, int right)"@[3] == ' ',
        "int applyAsInt(int left, int right)"@[14] == '(',
        "int applyAsInt(int left, int right)"@[15] == 'i',
        "int applyAsInt(int left, int right)"@[18] == ' ',
        "int applyAsInt(int left, int right)"@[23] == ',',
        "int applyAsInt(int left, int right)"@[24] == ' ',
        "int applyAsInt(int left, int right)"@[28] == ' ',
        "int applyAsInt(int left, int right)"@[34] == ')',
{
    reveal_strlit("int applyAsInt(int left, int right)");
    reveal_strlit("applyAsInt");
    reveal_strlit("int");
    reveal_strlit("left");
    reveal_strlit("right");
}

proof fn lexes_int_binary_operator_sam(s: Seq<char>, b: int, l: int, done: Seq<TokenV>)
    requires
        spells(s, b, "int applyAsInt(int left, int right)"@),
    ensures
        rest(s, b, l, done) == rest(s, b + 35, l, done + int_binary_operator_sam_tokens(l)),
{
    words_are_known();
    spelling_of_int_binary_operator_sam();
    let text = "int applyAsInt(int left, int right)"@;
    let d0 = done;
    reads_name_space(s, b, text, 0, 4, "int"@, l, d0);
    let d1 = d0.push(name_tok("int"@, l));
    reads_name(s, b, text, 4, 14, "applyAsInt"@, l, d1);
    let d2 = d1.push(name_tok("applyAsInt"@, l));
    reads_sign(s, b, text, 14, Tok::LParen, l, d2);
    let d3 = d2.push(sign_tok(Tok::LParen, l));
    reads_name_space(s, b, text, 15, 19, "int"@, l, d3);
    let d4 = d3.push(name_tok("int"@, l));
    reads_name(s, b, text, 19, 23, "left"@, l, d4);
    let d5 = d4.push(name_tok("left"@, l));
    reads_sign(s, b, text, 23, Tok::Comma, l, d5);
    let d6 = d5.push(sign_tok(Tok::Comma, l));
    reads_space(s, b, text, 24, l, d6);
    reads_name_space(s, b, text, 25, 29, "int"@, l, d6);
    let d7 = d6.push(name_tok("int"@, l));
    reads_name(s, b, text, 29, 34, "right"@, l, d7);
    let d8 = d7.push(name_tok("right"@, l));
    reads_sign(s, b, text, 34, Tok::RParen, l, d8);
    let d9 = d8.push(sign_tok(Tok::RParen, l));
    assert(d9 =~= done + int_binary_operator_sam_tokens(l));
}

/// The tokens of the interface `IntBinaryOperator`.
pub open spec fn int_binary_operator_row(l: int) -> Seq<TokenV> {
    seq![name_tok("interface"@, l), name_tok("IntBinaryOperator"@, l), sign_tok(Tok::LBrace, l)] + int_binary_operator_sam_tokens(l)
        + seq![sign_tok(Tok::Semi, l)] + seq![sign_tok(Tok::RBrace, l)]
}

/// The interface `IntBinaryOperator` is lexed as these tokens.
pub proof fn lexes_int_binary_operator_row(s: Seq<char>, b: int, l: int, done: Seq<TokenV>)
    requires
        spells(s, b, interface_source("IntBinaryOperator"@, "int applyAsInt(int left, int right)"@, ""@)),
    ensures
        rest(s, b, l, done) == rest(
            s,
            b + interface_source("IntBinaryOperator"@, "int applyAsInt(int left, int right)"@, ""@).len(),
            next_line(l),
            done + int_binary_operator_row(l),
        ),
{
    words_are_known();
    signs_are_known();
    let x1 = "interface "@ + "IntBinaryOperator"@;
    let x2 = x1 + " { "@;
    let x3 = x2 + "int applyAsInt(int left, int right)"@;
    let x4 = x3 + "; "@;
    let x5 = x4 + ""@;
    assert("int applyAsInt(int left, int right)"@.len() == 35) by {
        reveal_strlit("int applyAsInt(int left, int right)");
    }
    assert(""@.len() == 0) by {
        reveal_strlit("");
    }
    spells_both(s, b, x5, " }\n"@);
    spells_both(s, b, x4, ""@);
    spells_both(s, b, x3, "; "@);
    spells_both(s, b, x2, "int applyAsInt(int left, int right)"@);
    spells_both(s, b, x1, " { "@);
    spells_both(s, b, "interface "@, "IntBinaryOperator"@);
    let d0 = done;
    reads_name_space(s, b, "interface "@, 0, 10, "interface"@, l, d0);
    let d1 = d0.push(name_tok("interface"@, l));
    reads_gap(s, b + 27, " { "@, 0);
    lexes_name_space(s, b + 10, b + 28, "IntBinaryOperator"@, l, d1);
    let d2 = d1.push(name_tok("IntBinaryOperator"@, l));
    reads_sign(s, b + 27, " { "@, 1, Tok::LBrace, l, d2);
    let d3 = d2.push(sign_tok(Tok::LBrace, l));
    reads_space(s, b + 27, " { "@, 2, l, d3);
    lexes_int_binary_operator_sam(s, b + 30, l, d3);
    let d4 = d3 + int_binary_operator_sam_tokens(l);
    reads_sign(s, b + 65, "; "@, 0, Tok::Semi, l, d4);
    let d5 = d4.push(sign_tok(Tok::Semi, l));
    reads_space(s, b + 65, "; "@, 1, l, d5);
    reads_space(s, b + 67, " }\n"@, 0, l, d5);
    reads_sign(s, b + 67, " }\n"@, 1, Tok::RBrace, l, d5);
    let d6 = d5.push(sign_tok(Tok::RBrace, l));
    reads_line(s, b + 67, " }\n"@, 2, l, d6);
    assert(d6 =~= done + int_binary_operator_row(l));
}

/// The interface `IntBinaryOperator` is read as one.
pub proof fn declares_int_binary_operator(t: Seq<TokenV>, p: int, l: int)
    requires
        0 <= p,
        p + int_binary_operator_row(l).len() < t.len(),
        t.subrange(p, p + int_binary_operator_row(l).len()) == int_binary_operator_row(l),
    ensures
        declares_class(t, "IntBinaryOperator"@, None, true, p, p + int_binary_operator_row(l).len()),
        t[p].kind != Tok::Eof,
{
    words_are_known();
    let name = "IntBinaryOperator"@;
    let w = int_binary_operator_row(l);
    assert(int_binary_operator_sam_tokens(l).len() == 9);
    assert(w.len() == 14);
    let q = p + 3;
    assert forall|k: int| 0 <= k < 14 implies t[p + k] == #[trigger] w[k] by {
        assert(t.subrange(p, p + w.len())[k] == w[k]);
    }
    assert(t[p] == w[0] && t[p + 1] == w[1] && t[p + 2] == w[2]);
    let u = int_binary_operator_sam_tokens(l);
    assert(t[q] == w[3] && w[3] == u[0]);
    assert(t[q + 1] == w[4] && w[4] == u[1]);
    assert(t[q + 2] == w[5] && w[5] == u[2]);
    assert(t[q + 3] == w[6] && w[6] == u[3]);
    assert(t[q + 4] == w[7] && w[7] == u[4]);
    assert(t[q + 5] == w[8] && w[8] == u[5]);
    assert(t[q + 6] == w[9] && w[9] == u[6]);
    assert(t[q + 7] == w[10] && w[10] == u[7]);
    assert(t[q + 8] == w[11] && w[11] == u[8]);
    assert(t[q + 9] == w[12]);
    reads_last_parameter(t, q + 6);
    reads_next_parameter(t, q + 3, q + 8);
    reads_parameters(t, q + 3, q + 8);
    reads_method(t, name, q, q, q + 8, q + 10);
    assert(t[p + 13] == w[13]);
    reads_members_end(t, name, p + 13);
    reads_next_member(t, name, p + 3, p + 13, p + 14);
    reads_interface(t, p, p + 14);
}

/// The tokens of `int applyAsInt(Object value)`.
pub open spec fn to_int_function_sam_tokens(l: int) -> Seq<TokenV> {
    seq![
        name_tok("int"@, l), name_tok("applyAsInt"@, l), sign_tok(Tok::LParen, l),
        name_tok("Object"@, l), name_tok("value"@, l), sign_tok(Tok::RParen, l),
    ]
}

proof fn spelling_of_to_int_function_sam()
    ensures
        "int applyAsInt(Object value)"@.len() == 28,
        spells("int applyAsInt(Object value)"@, 0, "int"@),
        spells("int applyAsInt(Object value)"@, 4, "applyAsInt"@),
        spells("int applyAsInt(Object value)"@, 15, "Object"@),
        spells("int applyAsInt(Object value)"@, 22, "value"@),
        "int applyAsInt(Object value)"@[3] == ' ' && "int applyAsInt(Object value)"@[14] == '(',
        "int applyAsInt(Object value)"@[15] == 'O',
        "int applyAsInt(Object value)"@[21] == ' ',
        "int applyAsInt(Object value)"@[27] == ')',
{
    reveal_strlit("int applyAsInt(Object value)");
    reveal_strlit("Object");
    reveal_strlit("applyAsInt");
    reveal_strlit("int");
    reveal_strlit("value");
}

proof fn lexes_to_int_function_sam(s: Seq<char>, b: int, l: int, done: Seq<TokenV>)
    requires
        spells(s, b, "int applyAsInt(Object value)"@),
    ensures
        rest(s, b, l, done) == rest(s, b + 28, l, done + to_int_function_sam_tokens(l)),
{
    words_are_known();
    spelling_of_to_int_function_sam();
    let text = "int applyAsInt(Object value)"@;
    let d0 = done;
    reads_name_space(s, b, text, 0, 4, "int"@, l, d0);
    let d1 = d0.push(name_tok("int"@, l));
    reads_name(s, b, text, 4, 14, "applyAsInt"@, l, d1);
    let d2 = d1.push(name_tok("applyAsInt"@, l));
    reads_sign(s, b, text, 14, Tok::LParen, l, d2);
    let d3 = d2.push(sign_tok(Tok::LParen, l));
    reads_name_space(s, b, text, 15, 22, "Object"@, l, d3);
    let d4 = d3.push(name_tok("Object"@, l));
    reads_name(s, b, text, 22, 27, "value"@, l, d4);
    let d5 = d4.push(name_tok("value"@, l));
    reads_sign(s, b, text, 27, Tok::RParen, l, d5);
    let d6 = d5.push(sign_tok(Tok::RParen, l));
    assert(d6 =~= done + to_int_function_sam_tokens(l));
}

/// The tokens of the interface `ToIntFunction`.
pub open spec fn to_int_function_row(l: int) -> Seq<TokenV> {
    seq![name_tok("interface"@, l), name_tok("ToIntFunction"@, l), sign_tok(Tok::LBrace, l)] + to_int_function_sam_tokens(l)
        + seq![sign_tok(Tok::Semi, l)] + seq![sign_tok(Tok::RBrace, l)]
}

/// The interface `ToIntFunction` is lexed as these tokens.
pub proof fn lexes_to_int_function_row(s: Seq<char>, b: int, l: int, done: Seq<TokenV>)
    requires
        spells(s, b, interface_source("ToIntFunction"@, "int applyAsInt(Object value)"@, ""@)),
    ensures
        rest(s, b, l, done) == rest(
            s,
            b + interface_source("ToIntFunction"@, "int applyAsInt(Object value)"@, ""@).len(),
            next_line(l),
            done + to_int_function_row(l),
        ),
{
    words_are_known();
    signs_are_known();
    let x1 = "interface "@ + "ToIntFunction"@;
    let x2 = x1 + " { "@;
    let x3 = x2 + "int applyAsInt(Object value)"@;
    let x4 = x3 + "; "@;
    let x5 = x4 + ""@;
    assert("int applyAsInt(Object value)"@.len() == 28) by {
        reveal_strlit("int applyAsInt(Object value)");
    }
    assert(""@.len() == 0) by {
        reveal_strlit("");
    }
    spells_both(s, b, x5, " }\n"@);
    spells_both(s, b, x4, ""@);
    spells_both(s, b, x3, "; "@);
    spells_both(s, b, x2, "int applyAsInt(Object value)"@);
    spells_both(s, b, x1, " { "@);
    spells_both(s, b, "interface "@, "ToIntFunction"@);
    let d0 = done;
    reads_name_space(s, b, "interface "@, 0, 10, "interface"@, l, d0);
    let d1 = d0.push(name_tok("interface"@, l));
    reads_gap(s, b + 23, " { "@, 0);
    lexes_name_space(s, b + 10, b + 24, "ToIntFunction"@, l, d1);
    let d2 = d1.push(name_tok("ToIntFunction"@, l));
    reads_sign(s, b + 23, " { "@, 1, Tok::LBrace, l, d2);
    let d3 = d2.push(sign_tok(Tok::LBrace, l));
    reads_space(s, b + 23, " { "@, 2, l, d3);
    lexes_to_int_function_sam(s, b + 26, l, d3);
    let d4 = d3 + to_int_function_sam_tokens(l);
    reads_sign(s, b + 54, "; "@, 0, Tok::Semi, l, d4);
    let d5 = d4.push(sign_tok(Tok::Semi, l));
    reads_space(s, b + 54, "; "@, 1, l, d5);
    reads_space(s, b + 56, " }\n"@, 0, l, d5);
    reads_sign(s, b + 56, " }\n"@, 1, Tok::RBrace, l, d5);
    let d6 = d5.push(sign_tok(Tok::RBrace, l));
    reads_line(s, b + 56, " }\n"@, 2, l, d6);
    assert(d6 =~= done + to_int_function_row(l));
}

/// The interface `ToIntFunction` is read as one.
pub proof fn declares_to_int_function(t: Seq<TokenV>, p: int, l: int)
    requires
        0 <= p,
        p + to_int_function_row(l).len() < t.len(),
        t.subrange(p, p + to_int_function_row(l).len()) == to_int_function_row(l),
    ensures
        declares_class(t, "ToIntFunction"@, None, true, p, p + to_int_function_row(l).len()),
        t[p].kind != Tok::Eof,
{
    words_are_known();
    let name = "ToIntFunction"@;
    let w = to_int_function_row(l);
    assert(to_int_function_sam_tokens(l).len() == 6);
    assert(w.len() == 11);
    let q = p + 3;
    assert forall|k: int| 0 <= k < 11 implies t[p + k] == #[trigger] w[k] by {
        assert(t.subrange(p, p + w.len())[k] == w[k]);
    }
    assert(t[p] == w[0] && t[p + 1] == w[1] && t[p + 2] == w[2]);
    let u = to_int_function_sam_tokens(l);
    assert(t[q] == w[3] && w[3] == u[0]);
    assert(t[q + 1] == w[4] && w[4] == u[1]);
    assert(t[q + 2] == w[5] && w[5] == u[2]);
    assert(t[q + 3] == w[6] && w[6] == u[3]);
    assert(t[q + 4] == w[7] && w[7] == u[4]);
    assert(t[q + 5] == w[8] && w[8] == u[5]);
    assert(t[q + 6] == w[9]);
    reads_last_parameter(t, q + 3);
    reads_parameters(t, q + 3, q + 5);
    reads_method(t, name, q, q, q + 5, q + 7);
    assert(t[p + 10] == w[10]);
    reads_members_end(t, name, p + 10);
    reads_next_member(t, name, p + 3, p + 10, p + 11);
    reads_interface(t, p, p + 11);
}

/// The tokens of `double applyAsDouble(Object value)`.
pub open spec fn to_double_function_sam_tokens(l: int) -> Seq<TokenV> {
    seq![
        name_tok("double"@, l), name_tok("applyAsDouble"@, l), sign_tok(Tok::LParen, l),
        name_tok("Object"@, l), name_tok("value"@, l), sign_tok(Tok::RParen, l),
    ]
}

proof fn spelling_of_to_double_function_sam()
    ensures
        "double applyAsDouble(Object value)"@.len() == 34,
        spells("double applyAsDouble(Object value)"@, 0, "double"@),
        spells("double applyAsDouble(Object value)"@, 7, "applyAsDouble"@),
        spells("double applyAsDouble(Object value)"@, 21, "Object"@),
        spells("double applyAsDouble(Object value)"@, 28, "value"@),
        "double applyAsDouble(Object value)"@[6] == ' ',
        "double applyAsDouble(Object value)"@[20] == '(',
        "double applyAsDouble(Object value)"@[21] == 'O',
        "double applyAsDouble(Object value)"@[27] == ' ',
        "double applyAsDouble(Object value)"@[33] == ')',
{
    reveal_strlit("double applyAsDouble(Object value)");
    reveal_strlit("Object");
    reveal_strlit("applyAsDouble");
    reveal_strlit("double");
    reveal_strlit("value");
}

proof fn lexes_to_double_function_sam(s: Seq<char>, b: int, l: int, done: Seq<TokenV>)
    requires
        spells(s, b, "double applyAsDouble(Object value)"@),
    ensures
        rest(s, b, l, done) == rest(s, b + 34, l, done + to_double_function_sam_tokens(l)),
{
    words_are_known();
    spelling_of_to_double_function_sam();
    let text = "double applyAsDouble(Object value)"@;
    let d0 = done;
    reads_name_space(s, b, text, 0, 7, "double"@, l, d0);
    let d1 = d0.push(name_tok("double"@, l));
    reads_name(s, b, text, 7, 20, "applyAsDouble"@, l, d1);
    let d2 = d1.push(name_tok("applyAsDouble"@, l));
    reads_sign(s, b, text, 20, Tok::LParen, l, d2);
    let d3 = d2.push(sign_tok(Tok::LParen, l));
    reads_name_space(s, b, text, 21, 28, "Object"@, l, d3);
    let d4 = d3.push(name_tok("Object"@, l));
    reads_name(s, b, text, 28, 33, "value"@, l, d4);
    let d5 = d4.push(name_tok("value"@, l));
    reads_sign(s, b, text, 33, Tok::RParen, l, d5);
    let d6 = d5.push(sign_tok(Tok::RParen, l));
    assert(d6 =~= done + to_double_function_sam_tokens(l));
}

/// The tokens of the interface `ToDoubleFunction`.
pub open spec fn to_double_function_row(l: int) -> Seq<TokenV> {
    seq![name_tok("interface"@, l), name_tok("ToDoubleFunction"@, l), sign_tok(Tok::LBrace, l)] + to_double_function_sam_tokens(l)
        + seq![sign_tok(Tok::Semi, l)] + seq![sign_tok(Tok::RBrace, l)]
}

/// The interface `ToDoubleFunction` is lexed as these tokens.
pub proof fn lexes_to_double_function_row(s: Seq<char>, b: int, l: int, done: Seq<TokenV>)
    requires
        spells(s, b, interface_source("ToDoubleFunction"@, "double applyAsDouble(Object value)"@, ""@)),
    ensures
        rest(s, b, l, done) == rest(
            s,
            b + interface_source("ToDoubleFunction"@, "double applyAsDouble(Object value)"@, ""@).len(),
            next_line(l),
            done + to_double_function_row(l),
        ),
{
    words_are_known();
    signs_are_known();
    let x1 = "interface "@ + "ToDoubleFunction"@;
    let x2 = x1 + " { "@;
    let x3 = x2 + "double applyAsDouble(Object value)"@;
    let x4 = x3 + "; "@;
    let x5 = x4 + ""@;
    assert("double applyAsDouble(Object value)"@.len() == 34) by {
        reveal_strlit("double applyAsDouble(Object value)");
    }
    assert(""@.len() == 0) by {
        reveal_strlit("");
    }
    spells_both(s, b, x5, " }\n"@);
    spells_both(s, b, x4, ""@);
    spells_both(s, b, x3, "; "@);
    spells_both(s, b, x2, "double applyAsDouble(Object value)"@);
    spells_both(s, b, x1, " { "@);
    spells_both(s, b, "interface "@, "ToDoubleFunction"@);
    let d0 = done;
    reads_name_space(s, b, "interface "@, 0, 10, "interface"@, l, d0);
    let d1 = d0.push(name_tok("interface"@, l));
    reads_gap(s, b + 26, " { "@, 0);
    lexes_name_space(s, b + 10, b + 27, "ToDoubleFunction"@, l, d1);
    let d2 = d1.push(name_tok("ToDoubleFunction"@, l));
    reads_sign(s, b + 26, " { "@, 1, Tok::LBrace, l, d2);
    let d3 = d2.push(sign_tok(Tok::LBrace, l));
    reads_space(s, b + 26, " { "@, 2, l, d3);
    lexes_to_double_function_sam(s, b + 29, l, d3);
    let d4 = d3 + to_double_function_sam_tokens(l);
    reads_sign(s, b + 63, "; "@, 0, Tok::Semi, l, d4);
    let d5 = d4.push(sign_tok(Tok::Semi, l));
    reads_space(s, b + 63, "; "@, 1, l, d5);
    reads_space(s, b + 65, " }\n"@, 0, l, d5);
    reads_sign(s, b + 65, " }\n"@, 1, Tok::RBrace, l, d5);
    let d6 = d5.push(sign_tok(Tok::RBrace, l));
    reads_line(s, b + 65, " }\n"@, 2, l, d6);
    assert(d6 =~= done + to_double_function_row(l));
}

/// The interface `ToDoubleFunction` is read as one.
pub proof fn declares_to_double_function(t: Seq<TokenV>, p: int, l: int)
    requires
        0 <= p,
        p + to_double_function_row(l).len() < t.len(),
        t.subrange(p, p + to_double_function_row(l).len()) == to_double_function_row(l),
    ensures
        declares_class(t, "ToDoubleFunction"@, None, true, p, p + to_double_function_row(l).len()),
        t[p].kind != Tok::Eof,
{
    words_are_known();
    let name = "ToDoubleFunction"@;
    let w = to_double_function_row(l);
    assert(to_double_function_sam_tokens(l).len() == 6);
    assert(w.len() == 11);
    let q = p + 3;
    assert forall|k: int| 0 <= k < 11 implies t[p + k] == #[trigger] w[k] by {
        assert(t.subrange(p, p + w.len())[k] == w[k]);
    }
    assert(t[p] == w[0] && t[p + 1] == w[1] && t[p + 2] == w[2]);
    let u = to_double_function_sam_tokens(l);
    assert(t[q] == w[3] && w[3] == u[0]);
    assert(t[q + 1] == w[4] && w[4] == u[1]);
    assert(t[q + 2] == w[5] && w[5] == u[2]);
    assert(t[q + 3] == w[6] && w[6] == u[3]);
    assert(t[q + 4] == w[7] && w[7] == u[4]);
    assert(t[q + 5] == w[8] && w[8] == u[5]);
    assert(t[q + 6] == w[9]);
    reads_last_parameter(t, q + 3);
    reads_parameters(t, q + 3, q + 5);
    reads_method(t, name, q, q, q + 5, q + 7);
    assert(t[p + 10] == w[10]);
    reads_members_end(t, name, p + 10);
    reads_next_member(t, name, p + 3, p + 10, p + 11);
    reads_interface(t, p, p + 11);
}

} // verus!
