//! How the grammar reads the shapes that the prelude is written in: where each
//! rule ends, whatever it makes of what it reads.
use vstd::prelude::*;

use crate::ast::{ExprV, MethodV, ParamV, StmtV};
use crate::injection::is_plain_type;
use crate::lexer::{Tok, TokenV};
use crate::parser::classes::{
    BodyV, HeaderV, UnitV, class_decl, class_header, class_made, extended, member, members_rest,
    nested_ahead, no_body, plain_member,
};
use crate::parser::grammar::{
    Rule, applied, args_rest_rule, binary_rest_rule, binary_rule, binding, block_rest_rule,
    block_rule, braced_or_single_rule, by_the_rule, call_args_rule, declarators_rule,
    expression_rule, if_stmt_rule, lambda_body_rule, lambda_params, named_rule, opt_init_rule,
    postfix_rest_rule, postfix_rule, primary_rule, read, return_stmt_rule, simple_statement_rule,
    statement_kind_rule, statement_rule, unary_rule, var_init_rule,
};
use crate::parser::members::{
    Slot, after_modifiers, ctor_ahead, ctor_rule, field_decls, fields_rule, main_ahead,
    method_rule,
};
use crate::parser::names::{declarator, declared_type, param, params, params_rest};
use crate::parser::probes::{after_package, decl_ahead, paren_end};
use crate::parser::tokens::{Place, moved, step};

verus! {

/// Whether a place is at a token, with nothing wrong.
pub open spec fn is_at(st: Place, i: int) -> bool {
    st.err is None && st.pos == i
}

/// Whether a rule that starts at one token ends at another.
#[verifier::opaque]
pub open spec fn reaches(t: Seq<TokenV>, r: Rule, i: int, j: int) -> bool {
    &&& 0 <= i < j < t.len()
    &&& forall|st: Place| is_at(st, i) ==> is_at((#[trigger] read(t, r, st)).1, j)
}

/// Whether the rest of something ends at a token, whatever came before it.
#[verifier::opaque]
pub open spec fn goes_on(t: Seq<TokenV>, i: int, j: int) -> bool {
    &&& 0 <= i <= j < t.len()
    &&& forall|e: ExprV, st: Place|
        is_at(st, i) ==> is_at((#[trigger] read(t, Rule::PostfixRest(e), st)).1, j)
}

/// Whether the operators behind an operand end at a token.
#[verifier::opaque]
pub open spec fn binds(t: Seq<TokenV>, min_bp: u8, i: int, j: int) -> bool {
    &&& 0 <= i <= j < t.len()
    &&& forall|e: ExprV, st: Place|
        is_at(st, i) ==> is_at((#[trigger] read(t, Rule::BinaryRest(e, min_bp), st)).1, j)
}

/// Whether the arguments from one on end at a token.
#[verifier::opaque]
pub open spec fn passes(t: Seq<TokenV>, i: int, j: int) -> bool {
    &&& 0 <= i < j < t.len()
    &&& forall|out: Seq<ExprV>, st: Place|
        is_at(st, i) ==> is_at((#[trigger] read(t, Rule::ArgsRest(out), st)).1, j)
}

/// Whether the statements from one on end at a token, with the closing brace.
#[verifier::opaque]
pub open spec fn closes(t: Seq<TokenV>, i: int, j: int) -> bool {
    &&& 0 <= i < j < t.len()
    &&& forall|out: Seq<StmtV>, st: Place|
        is_at(st, i) ==> is_at((#[trigger] read(t, Rule::BlockRest(out), st)).1, j)
}

// ── What is chained to a primary ────────────────────────────────────────────

/// Nothing is chained before a token that chains nothing.
pub proof fn reads_chain_end(t: Seq<TokenV>, i: int)
    requires
        0 <= i < t.len(),
        t[i].kind != Tok::Dot && t[i].kind != Tok::ColonColon && t[i].kind != Tok::LBracket,
    ensures
        goes_on(t, i, i),
{
    reveal(goes_on);
    assert forall|e: ExprV, st: Place| is_at(st, i) implies is_at(
        (#[trigger] read(t, Rule::PostfixRest(e), st)).1,
        i,
    ) by {
        by_the_rule(t, Rule::PostfixRest(e), st);
        reveal(applied);
        reveal(postfix_rest_rule);
    }
}

/// A method call in a chain.
pub proof fn reads_chained_call(t: Seq<TokenV>, i: int, k: int, j: int)
    requires
        0 <= i < t.len() - 3,
        t[i].kind == Tok::Dot,
        t[i + 1].kind == Tok::Ident,
        t[i + 2].kind == Tok::LParen,
        reaches(t, Rule::CallArgs, i + 2, k),
        goes_on(t, k, j),
    ensures
        goes_on(t, i, j),
{
    reveal(goes_on);
    reveal(reaches);
    assert forall|e: ExprV, st: Place| is_at(st, i) implies is_at(
        (#[trigger] read(t, Rule::PostfixRest(e), st)).1,
        j,
    ) by {
        by_the_rule(t, Rule::PostfixRest(e), st);
        reveal(applied);
        reveal(postfix_rest_rule);
    }
}

// ── Operands ────────────────────────────────────────────────────────────────

/// Whether a name is a variable wherever it stands.
pub open spec fn is_variable(name: Seq<char>) -> bool {
    name != "this"@ && name != "java"@ && name != "System"@ && name != "instanceof"@
}

/// A variable with what is chained to it.
pub proof fn reads_variable(t: Seq<TokenV>, i: int, j: int)
    requires
        0 <= i < t.len() - 1,
        t[i].kind == Tok::Ident,
        is_variable(t[i].text),
        t[i + 1].kind != Tok::LParen && t[i + 1].kind != Tok::PlusPlus && t[i + 1].kind
            != Tok::MinusMinus,
        goes_on(t, i + 1, j),
    ensures
        reaches(t, Rule::Unary, i, j),
{
    reveal(goes_on);
    reveal(reaches);
    assert forall|st: Place| is_at(st, i) implies is_at(
        (#[trigger] read(t, Rule::Unary, st)).1,
        j,
    ) by {
        by_the_rule(t, Rule::Unary, st);
        by_the_rule(t, Rule::Postfix, st);
        by_the_rule(t, Rule::Primary, st);
        by_the_rule(t, Rule::Named, st);
        reveal(applied);
        reveal(unary_rule);
        reveal(postfix_rule);
        reveal(primary_rule);
        reveal(named_rule);
    }
}

/// `this` with what is chained to it.
pub proof fn reads_this(t: Seq<TokenV>, i: int, j: int)
    requires
        0 <= i < t.len() - 1,
        t[i].kind == Tok::Ident,
        t[i].text == "this"@,
        t[i + 1].kind != Tok::LParen,
        goes_on(t, i + 1, j),
    ensures
        reaches(t, Rule::Unary, i, j),
{
    reveal(goes_on);
    reveal(reaches);
    assert forall|st: Place| is_at(st, i) implies is_at(
        (#[trigger] read(t, Rule::Unary, st)).1,
        j,
    ) by {
        by_the_rule(t, Rule::Unary, st);
        by_the_rule(t, Rule::Postfix, st);
        by_the_rule(t, Rule::Primary, st);
        by_the_rule(t, Rule::Named, st);
        reveal(applied);
        reveal(unary_rule);
        reveal(postfix_rule);
        reveal(primary_rule);
        reveal(named_rule);
    }
}

/// A call without a receiver, with what is chained to it.
pub proof fn reads_call(t: Seq<TokenV>, i: int, k: int, j: int)
    requires
        0 <= i < t.len() - 1,
        t[i].kind == Tok::Ident,
        is_variable(t[i].text),
        t[i + 1].kind == Tok::LParen,
        reaches(t, Rule::CallArgs, i + 1, k),
        goes_on(t, k, j),
    ensures
        reaches(t, Rule::Unary, i, j),
{
    reveal(goes_on);
    reveal(reaches);
    assert forall|st: Place| is_at(st, i) implies is_at(
        (#[trigger] read(t, Rule::Unary, st)).1,
        j,
    ) by {
        by_the_rule(t, Rule::Unary, st);
        by_the_rule(t, Rule::Postfix, st);
        by_the_rule(t, Rule::Primary, st);
        by_the_rule(t, Rule::Named, st);
        reveal(applied);
        reveal(unary_rule);
        reveal(postfix_rule);
        reveal(primary_rule);
        reveal(named_rule);
    }
}

/// A literal.
pub proof fn reads_literal(t: Seq<TokenV>, i: int)
    requires
        0 <= i < t.len() - 1,
        t[i].kind == Tok::Int || t[i].kind == Tok::Str,
        t[i + 1].kind != Tok::Dot && t[i + 1].kind != Tok::ColonColon && t[i + 1].kind
            != Tok::LBracket,
    ensures
        reaches(t, Rule::Unary, i, i + 1),
{
    reads_chain_end(t, i + 1);
    reveal(goes_on);
    reveal(reaches);
    assert forall|st: Place| is_at(st, i) implies is_at(
        (#[trigger] read(t, Rule::Unary, st)).1,
        i + 1,
    ) by {
        by_the_rule(t, Rule::Unary, st);
        by_the_rule(t, Rule::Postfix, st);
        by_the_rule(t, Rule::Primary, st);
        reveal(applied);
        reveal(unary_rule);
        reveal(postfix_rule);
        reveal(primary_rule);
    }
}

/// A negation.
pub proof fn reads_negation(t: Seq<TokenV>, i: int, j: int)
    requires
        0 <= i < t.len() - 1,
        t[i].kind == Tok::Not,
        reaches(t, Rule::Unary, i + 1, j),
    ensures
        reaches(t, Rule::Unary, i, j),
{
    reveal(reaches);
    assert forall|st: Place| is_at(st, i) implies is_at(
        (#[trigger] read(t, Rule::Unary, st)).1,
        j,
    ) by {
        by_the_rule(t, Rule::Unary, st);
        reveal(applied);
        reveal(unary_rule);
    }
}

// ── Arguments ───────────────────────────────────────────────────────────────

/// No arguments.
pub proof fn reads_no_arguments(t: Seq<TokenV>, i: int)
    requires
        0 <= i < t.len() - 2,
        t[i].kind == Tok::LParen,
        t[i + 1].kind == Tok::RParen,
    ensures
        reaches(t, Rule::CallArgs, i, i + 2),
{
    reveal(reaches);
    assert forall|st: Place| is_at(st, i) implies is_at(
        (#[trigger] read(t, Rule::CallArgs, st)).1,
        i + 2,
    ) by {
        by_the_rule(t, Rule::CallArgs, st);
        reveal(applied);
        reveal(call_args_rule);
    }
}

/// Arguments in brackets.
pub proof fn reads_arguments(t: Seq<TokenV>, i: int, j: int)
    requires
        0 <= i < t.len() - 1,
        t[i].kind == Tok::LParen,
        t[i + 1].kind != Tok::RParen,
        passes(t, i + 1, j),
    ensures
        reaches(t, Rule::CallArgs, i, j),
{
    reveal(reaches);
    reveal(passes);
    assert forall|st: Place| is_at(st, i) implies is_at(
        (#[trigger] read(t, Rule::CallArgs, st)).1,
        j,
    ) by {
        by_the_rule(t, Rule::CallArgs, st);
        reveal(applied);
        reveal(call_args_rule);
    }
}

/// The last argument.
pub proof fn reads_last_argument(t: Seq<TokenV>, i: int, k: int)
    requires
        reaches(t, Rule::Expression, i, k),
        k < t.len() - 1,
        t[k].kind == Tok::RParen,
    ensures
        passes(t, i, k + 1),
{
    reveal(reaches);
    reveal(passes);
    assert forall|out: Seq<ExprV>, st: Place| is_at(st, i) implies is_at(
        (#[trigger] read(t, Rule::ArgsRest(out), st)).1,
        k + 1,
    ) by {
        by_the_rule(t, Rule::ArgsRest(out), st);
        reveal(applied);
        reveal(args_rest_rule);
    }
}

/// An argument and those behind it.
pub proof fn reads_next_argument(t: Seq<TokenV>, i: int, k: int, j: int)
    requires
        reaches(t, Rule::Expression, i, k),
        k < t.len() - 1,
        t[k].kind == Tok::Comma,
        passes(t, k + 1, j),
    ensures
        passes(t, i, j),
{
    reveal(reaches);
    reveal(passes);
    assert forall|out: Seq<ExprV>, st: Place| is_at(st, i) implies is_at(
        (#[trigger] read(t, Rule::ArgsRest(out), st)).1,
        j,
    ) by {
        by_the_rule(t, Rule::ArgsRest(out), st);
        reveal(applied);
        reveal(args_rest_rule);
    }
}

// ── Operators ───────────────────────────────────────────────────────────────

/// No operator binds tightly enough.
pub proof fn reads_no_operator(t: Seq<TokenV>, min_bp: u8, i: int)
    requires
        0 <= i < t.len(),
        t[i].kind != Tok::Ident,
        match binding(t[i].kind) {
            Some((_, bp)) => bp < min_bp,
            None => true,
        },
    ensures
        binds(t, min_bp, i, i),
{
    reveal(binds);
    assert forall|e: ExprV, st: Place| is_at(st, i) implies is_at(
        (#[trigger] read(t, Rule::BinaryRest(e, min_bp), st)).1,
        i,
    ) by {
        by_the_rule(t, Rule::BinaryRest(e, min_bp), st);
        reveal(applied);
        reveal(binary_rest_rule);
    }
}

/// An operator with its right operand, and those behind it.
pub proof fn reads_operator(t: Seq<TokenV>, min_bp: u8, i: int, k: int, j: int)
    requires
        0 <= i < t.len() - 1,
        t[i].kind != Tok::Ident,
        binding(t[i].kind) matches Some((_, bp)) && bp >= min_bp && bp < 255 && reaches(
            t,
            Rule::Binary((bp + 1) as u8),
            i + 1,
            k,
        ),
        binds(t, min_bp, k, j),
    ensures
        binds(t, min_bp, i, j),
{
    reveal(binds);
    reveal(reaches);
    assert forall|e: ExprV, st: Place| is_at(st, i) implies is_at(
        (#[trigger] read(t, Rule::BinaryRest(e, min_bp), st)).1,
        j,
    ) by {
        by_the_rule(t, Rule::BinaryRest(e, min_bp), st);
        reveal(applied);
        reveal(binary_rest_rule);
    }
}

/// An operand with the operators behind it.
pub proof fn reads_operation(t: Seq<TokenV>, min_bp: u8, i: int, k: int, j: int)
    requires
        reaches(t, Rule::Unary, i, k),
        binds(t, min_bp, k, j),
    ensures
        reaches(t, Rule::Binary(min_bp), i, j),
{
    reveal(binds);
    reveal(reaches);
    assert forall|st: Place| is_at(st, i) implies is_at(
        (#[trigger] read(t, Rule::Binary(min_bp), st)).1,
        j,
    ) by {
        by_the_rule(t, Rule::Binary(min_bp), st);
        reveal(applied);
        reveal(binary_rule);
    }
}

// ── Expressions ─────────────────────────────────────────────────────────────

/// An expression without a conditional.
pub proof fn reads_simple(t: Seq<TokenV>, i: int, j: int)
    requires
        reaches(t, Rule::Binary(0), i, j),
        0 <= i < t.len() - 1,
        t[i].kind != Tok::LParen,
        !(t[i].kind == Tok::Ident && t[i + 1].kind == Tok::Arrow),
        t[j].kind != Tok::Question,
    ensures
        reaches(t, Rule::Expression, i, j),
{
    reveal(reaches);
    assert forall|st: Place| is_at(st, i) implies is_at(
        (#[trigger] read(t, Rule::Expression, st)).1,
        j,
    ) by {
        by_the_rule(t, Rule::Expression, st);
        reveal(applied);
        reveal(expression_rule);
    }
}

/// A conditional.
pub proof fn reads_conditional(t: Seq<TokenV>, i: int, k: int, m: int, j: int)
    requires
        reaches(t, Rule::Binary(0), i, k),
        0 <= i < t.len() - 1,
        t[i].kind != Tok::LParen,
        !(t[i].kind == Tok::Ident && t[i + 1].kind == Tok::Arrow),
        k < t.len() - 1,
        t[k].kind == Tok::Question,
        reaches(t, Rule::Expression, k + 1, m),
        m < t.len() - 1,
        t[m].kind == Tok::Colon,
        reaches(t, Rule::Expression, m + 1, j),
    ensures
        reaches(t, Rule::Expression, i, j),
{
    reveal(reaches);
    assert forall|st: Place| is_at(st, i) implies is_at(
        (#[trigger] read(t, Rule::Expression, st)).1,
        j,
    ) by {
        by_the_rule(t, Rule::Expression, st);
        reveal(applied);
        reveal(expression_rule);
    }
}

/// A lambda of one parameter.
pub proof fn reads_lambda(t: Seq<TokenV>, i: int, j: int)
    requires
        0 <= i < t.len() - 2,
        t[i].kind == Tok::Ident,
        t[i + 1].kind == Tok::Arrow,
        reaches(t, Rule::LambdaBody, i + 2, j),
    ensures
        reaches(t, Rule::Expression, i, j),
{
    reveal(reaches);
    assert forall|st: Place| is_at(st, i) implies is_at(
        (#[trigger] read(t, Rule::Expression, st)).1,
        j,
    ) by {
        by_the_rule(t, Rule::Expression, st);
        reveal(applied);
        reveal(expression_rule);
    }
}

/// A lambda of two parameters.
pub proof fn reads_lambda_of_two(t: Seq<TokenV>, i: int, j: int)
    requires
        0 <= i < t.len() - 6,
        t[i].kind == Tok::LParen,
        t[i + 1].kind == Tok::Ident,
        t[i + 1].text != "final"@,
        t[i + 2].kind == Tok::Comma,
        t[i + 3].kind == Tok::Ident,
        t[i + 3].text != "final"@,
        t[i + 4].kind == Tok::RParen,
        t[i + 5].kind == Tok::Arrow,
        reaches(t, Rule::LambdaBody, i + 6, j),
    ensures
        reaches(t, Rule::Expression, i, j),
{
    reveal(reaches);
    assert(paren_end(t, i + 4, 1) == i + 4);
    assert(paren_end(t, i + 3, 1) == i + 4);
    assert(paren_end(t, i + 2, 1) == i + 4);
    assert(paren_end(t, i + 1, 1) == i + 4);
    assert(paren_end(t, i, 0) == i + 4);
    assert forall|st: Place| is_at(st, i) implies is_at(
        (#[trigger] read(t, Rule::Expression, st)).1,
        j,
    ) by {
        by_the_rule(t, Rule::Expression, st);
        reveal(applied);
        reveal(expression_rule);
        let s = step(t, st);
        let one = seq![t[i + 1].text];
        let s3 = step(t, step(t, s));
        assert(lambda_params(t, s3, one).1 == step(t, s3));
        assert(Seq::<Seq<char>>::empty().push(t[i + 1].text) =~= one);
        assert(lambda_params(t, s, seq![]).1 == step(t, s3));
    }
}

/// The body of a lambda that is an expression.
pub proof fn reads_expression_body(t: Seq<TokenV>, i: int, j: int)
    requires
        reaches(t, Rule::Expression, i, j),
        t[i].kind != Tok::LBrace,
    ensures
        reaches(t, Rule::LambdaBody, i, j),
{
    reveal(reaches);
    assert forall|st: Place| is_at(st, i) implies is_at(
        (#[trigger] read(t, Rule::LambdaBody, st)).1,
        j,
    ) by {
        by_the_rule(t, Rule::LambdaBody, st);
        reveal(applied);
        reveal(lambda_body_rule);
    }
}

/// The body of a lambda that is a block.
pub proof fn reads_block_body(t: Seq<TokenV>, i: int, j: int)
    requires
        0 <= i < t.len() - 1,
        t[i].kind == Tok::LBrace,
        reaches(t, Rule::Block, i + 1, j),
    ensures
        reaches(t, Rule::LambdaBody, i, j),
{
    reveal(reaches);
    assert forall|st: Place| is_at(st, i) implies is_at(
        (#[trigger] read(t, Rule::LambdaBody, st)).1,
        j,
    ) by {
        by_the_rule(t, Rule::LambdaBody, st);
        reveal(applied);
        reveal(lambda_body_rule);
    }
}

// ── Statements ──────────────────────────────────────────────────────────────

/// The end of a block.
pub proof fn reads_block_end(t: Seq<TokenV>, i: int)
    requires
        0 <= i < t.len() - 1,
        t[i].kind == Tok::RBrace,
    ensures
        closes(t, i, i + 1),
{
    reveal(closes);
    assert forall|out: Seq<StmtV>, st: Place| is_at(st, i) implies is_at(
        (#[trigger] read(t, Rule::BlockRest(out), st)).1,
        i + 1,
    ) by {
        by_the_rule(t, Rule::BlockRest(out), st);
        reveal(applied);
        reveal(block_rest_rule);
    }
}

/// A statement and those behind it.
pub proof fn reads_next_statement(t: Seq<TokenV>, i: int, k: int, j: int)
    requires
        reaches(t, Rule::Statement, i, k),
        t[i].kind != Tok::RBrace && t[i].kind != Tok::Eof,
        closes(t, k, j),
    ensures
        closes(t, i, j),
{
    reveal(closes);
    reveal(reaches);
    assert forall|out: Seq<StmtV>, st: Place| is_at(st, i) implies is_at(
        (#[trigger] read(t, Rule::BlockRest(out), st)).1,
        j,
    ) by {
        by_the_rule(t, Rule::BlockRest(out), st);
        reveal(applied);
        reveal(block_rest_rule);
    }
}

/// The statements behind an opening brace.
pub proof fn reads_block(t: Seq<TokenV>, i: int, j: int)
    requires
        closes(t, i, j),
    ensures
        reaches(t, Rule::Block, i, j),
{
    reveal(closes);
    reveal(reaches);
    assert forall|st: Place| is_at(st, i) implies is_at(
        (#[trigger] read(t, Rule::Block, st)).1,
        j,
    ) by {
        by_the_rule(t, Rule::Block, st);
        reveal(applied);
        reveal(block_rule);
    }
}

/// Whether a word starts no statement of its own.
pub open spec fn is_plain_word(w: Seq<char>) -> bool {
    w != "try"@ && w != "yield"@ && w != "throw"@ && w != "synchronized"@ && w != "final"@
}

/// A statement that returns a value.
pub proof fn reads_return(t: Seq<TokenV>, i: int, k: int)
    requires
        0 <= i < t.len() - 1,
        t[i].kind == Tok::Return,
        t[i + 1].kind != Tok::Semi,
        reaches(t, Rule::Expression, i + 1, k),
        k < t.len() - 1,
        t[k].kind == Tok::Semi,
    ensures
        reaches(t, Rule::Statement, i, k + 1),
{
    reveal(reaches);
    assert forall|st: Place| is_at(st, i) implies is_at(
        (#[trigger] read(t, Rule::Statement, st)).1,
        k + 1,
    ) by {
        by_the_rule(t, Rule::Statement, st);
        by_the_rule(t, Rule::StatementKind, st);
        by_the_rule(t, Rule::ReturnStmt, step(t, st));
        reveal(applied);
        reveal(statement_rule);
        reveal(statement_kind_rule);
        reveal(return_stmt_rule);
    }
}

/// A call as a statement.
pub proof fn reads_call_statement(t: Seq<TokenV>, i: int, k: int)
    requires
        0 <= i < t.len() - 3,
        t[i].kind == Tok::Ident,
        is_plain_word(t[i].text),
        t[i + 1].kind == Tok::LParen || t[i + 1].kind == Tok::Dot && t[i + 2].kind == Tok::Ident
            && t[i + 3].kind == Tok::LParen,
        reaches(t, Rule::Expression, i, k),
        k < t.len() - 1,
        t[k].kind == Tok::Semi,
    ensures
        reaches(t, Rule::Statement, i, k + 1),
{
    reveal(reaches);
    assert(!decl_ahead(t, i)) by {
        if t[i + 1].kind == Tok::Dot {
            assert(after_package(t, i + 2) == i + 3);
        }
        assert(after_package(t, i) == i + 1 || after_package(t, i) == i + 3);
    }
    assert forall|st: Place| is_at(st, i) implies is_at(
        (#[trigger] read(t, Rule::Statement, st)).1,
        k + 1,
    ) by {
        by_the_rule(t, Rule::Statement, st);
        by_the_rule(t, Rule::StatementKind, st);
        by_the_rule(t, Rule::SimpleStatement(true), st);
        reveal(applied);
        reveal(statement_rule);
        reveal(statement_kind_rule);
        reveal(simple_statement_rule);
    }
}

/// An assignment to a variable.
pub proof fn reads_assignment(t: Seq<TokenV>, i: int, k: int)
    requires
        0 <= i < t.len() - 2,
        t[i].kind == Tok::Ident,
        is_plain_word(t[i].text),
        t[i + 1].kind == Tok::Assign,
        reaches(t, Rule::Expression, i + 2, k),
        k < t.len() - 1,
        t[k].kind == Tok::Semi,
    ensures
        reaches(t, Rule::Statement, i, k + 1),
{
    reveal(reaches);
    assert forall|st: Place| is_at(st, i) implies is_at(
        (#[trigger] read(t, Rule::Statement, st)).1,
        k + 1,
    ) by {
        by_the_rule(t, Rule::Statement, st);
        by_the_rule(t, Rule::StatementKind, st);
        by_the_rule(t, Rule::SimpleStatement(true), st);
        reveal(applied);
        reveal(statement_rule);
        reveal(statement_kind_rule);
        reveal(simple_statement_rule);
    }
}

/// The declaration of a variable with its value.
pub proof fn reads_declaration(t: Seq<TokenV>, i: int, k: int)
    requires
        0 <= i < t.len() - 3,
        t[i].kind == Tok::Ident,
        is_plain_word(t[i].text),
        t[i + 1].kind == Tok::Ident,
        t[i + 2].kind == Tok::Assign,
        t[i + 3].kind != Tok::LBrace,
        reaches(t, Rule::Expression, i + 3, k),
        k < t.len() - 1,
        t[k].kind == Tok::Semi,
    ensures
        reaches(t, Rule::Statement, i, k + 1),
{
    reveal(reaches);
    assert(decl_ahead(t, i));
    assert forall|st: Place| is_at(st, i) implies is_at(
        (#[trigger] read(t, Rule::Statement, st)).1,
        k + 1,
    ) by {
        by_the_rule(t, Rule::Statement, st);
        by_the_rule(t, Rule::StatementKind, st);
        by_the_rule(t, Rule::SimpleStatement(true), st);
        reveal(applied);
        reveal(statement_rule);
        reveal(statement_kind_rule);
        reveal(simple_statement_rule);
        let (base, s) = declared_type(t, st);
        assert(is_at(s, i + 1));
        by_the_rule(t, Rule::Declarators(base, seq![]), s);
        reveal(declarators_rule);
        let s0 = declarator(t, s, base).1;
        assert(is_at(s0, i + 2));
        by_the_rule(t, Rule::OptInit, s0);
        reveal(opt_init_rule);
        by_the_rule(t, Rule::VarInit, step(t, s0));
        reveal(var_init_rule);
    }
}

/// An `if` with a block and no `else`.
pub proof fn reads_if(t: Seq<TokenV>, i: int, k: int, j: int)
    requires
        0 <= i < t.len() - 2,
        t[i].kind == Tok::If,
        t[i + 1].kind == Tok::LParen,
        reaches(t, Rule::Expression, i + 2, k),
        k < t.len() - 2,
        t[k].kind == Tok::RParen,
        t[k + 1].kind == Tok::LBrace,
        reaches(t, Rule::Block, k + 2, j),
        t[j].kind != Tok::Else,
    ensures
        reaches(t, Rule::Statement, i, j),
{
    reveal(reaches);
    assert forall|st: Place| is_at(st, i) implies is_at(
        (#[trigger] read(t, Rule::Statement, st)).1,
        j,
    ) by {
        by_the_rule(t, Rule::Statement, st);
        by_the_rule(t, Rule::StatementKind, st);
        by_the_rule(t, Rule::IfStmt, st);
        reveal(applied);
        reveal(statement_rule);
        reveal(statement_kind_rule);
        reveal(if_stmt_rule);
        let s = read(t, Rule::Expression, step(t, step(t, st))).1;
        by_the_rule(t, Rule::BracedOrSingle, step(t, s));
        reveal(braced_or_single_rule);
    }
}

// ── Members ─────────────────────────────────────────────────────────────────

/// Whether a parameter list that starts at one token ends at another.
#[verifier::opaque]
pub open spec fn lists(t: Seq<TokenV>, i: int, j: int) -> bool {
    &&& 0 <= i <= j < t.len()
    &&& forall|st: Place| is_at(st, i) ==> is_at((#[trigger] params(t, st)).1, j)
}

/// Whether parameters from one on end at a token.
#[verifier::opaque]
pub open spec fn lists_on(t: Seq<TokenV>, i: int, j: int) -> bool {
    &&& 0 <= i < j < t.len()
    &&& forall|out: Seq<ParamV>, st: Place|
        is_at(st, i) ==> is_at((#[trigger] params_rest(t, st, out)).1, j)
}

/// No parameters.
pub proof fn reads_no_parameters(t: Seq<TokenV>, i: int)
    requires
        0 <= i < t.len(),
        t[i].kind == Tok::RParen,
    ensures
        lists(t, i, i),
{
    reveal(lists);
}

/// Parameters.
pub proof fn reads_parameters(t: Seq<TokenV>, i: int, j: int)
    requires
        lists_on(t, i, j),
        t[i].kind != Tok::RParen,
    ensures
        lists(t, i, j),
{
    reveal(lists);
    reveal(lists_on);
}

proof fn lemma_param(t: Seq<TokenV>, i: int, st: Place)
    requires
        0 <= i < t.len() - 2,
        t[i].kind == Tok::Ident,
        t[i + 1].kind == Tok::Ident,
        t[i + 2].kind == Tok::RParen || t[i + 2].kind == Tok::Comma,
        is_at(st, i),
    ensures
        is_at(param(t, st).1, i + 2),
{
    let (ty, s) = declared_type(t, st);
    assert(is_at(s, i + 1));
    assert(is_at(declarator(t, s, ty).1, i + 2));
}

/// The last parameter.
pub proof fn reads_last_parameter(t: Seq<TokenV>, i: int)
    requires
        0 <= i < t.len() - 2,
        t[i].kind == Tok::Ident,
        t[i + 1].kind == Tok::Ident,
        t[i + 2].kind == Tok::RParen,
    ensures
        lists_on(t, i, i + 2),
{
    reveal(lists_on);
    assert forall|out: Seq<ParamV>, st: Place| is_at(st, i) implies is_at(
        (#[trigger] params_rest(t, st, out)).1,
        i + 2,
    ) by {
        lemma_param(t, i, st);
    }
}

/// A parameter and those behind it.
pub proof fn reads_next_parameter(t: Seq<TokenV>, i: int, j: int)
    requires
        0 <= i < t.len() - 3,
        t[i].kind == Tok::Ident,
        t[i + 1].kind == Tok::Ident,
        t[i + 2].kind == Tok::Comma,
        lists_on(t, i + 3, j),
    ensures
        lists_on(t, i, j),
{
    reveal(lists_on);
    assert forall|out: Seq<ParamV>, st: Place| is_at(st, i) implies is_at(
        (#[trigger] params_rest(t, st, out)).1,
        j,
    ) by {
        lemma_param(t, i, st);
        let (p, s) = param(t, st);
        assert(is_at(step(t, s), i + 3));
        assert(is_at(params_rest(t, step(t, s), out.push(p)).1, j));
    }
}

/// Whether methods were added that all belong to one class.
pub open spec fn adds(before: Seq<MethodV>, after: Seq<MethodV>, owner: Seq<char>) -> bool {
    &&& before.len() <= after.len()
    &&& forall|k: int| 0 <= k < before.len() ==> #[trigger] after[k] == before[k]
    &&& forall|k: int| before.len() <= k < after.len() ==> (#[trigger] after[k]).owner == owner
}

/// Whether what is collected grew by methods of one class only.
pub open spec fn gains(u: UnitV, u2: UnitV, owner: Seq<char>) -> bool {
    u2.entry == u.entry && u2.classes == u.classes && adds(u.methods, u2.methods, owner)
}

/// Whether a member of a class that starts at one token ends at another.
#[verifier::opaque]
pub open spec fn stands(t: Seq<TokenV>, name: Seq<char>, i: int, j: int) -> bool {
    &&& 0 <= i < j < t.len()
    &&& forall|h: HeaderV, b: BodyV, u: UnitV, st: Place|
        is_at(st, i) && h.name == name && !h.is_record ==> {
            let r = #[trigger] member(t, st, h, b, u);
            is_at(r.1, j) && gains(u, r.0.1, name)
        }
}

/// Whether the members of a class from one on end at a token, with the closing
/// brace.
#[verifier::opaque]
pub open spec fn fills(t: Seq<TokenV>, name: Seq<char>, i: int, j: int) -> bool {
    &&& 0 <= i < j < t.len()
    &&& forall|h: HeaderV, b: BodyV, u: UnitV, st: Place|
        is_at(st, i) && h.name == name && !h.is_record ==> {
            let r = #[trigger] members_rest(t, st, h, b, u);
            is_at(r.1, j) && gains(u, r.0.1, name)
        }
}

/// The end of the members.
pub proof fn reads_members_end(t: Seq<TokenV>, name: Seq<char>, i: int)
    requires
        0 <= i < t.len() - 1,
        t[i].kind == Tok::RBrace,
    ensures
        fills(t, name, i, i + 1),
{
    reveal(fills);
}

/// A member and those behind it.
pub proof fn reads_next_member(t: Seq<TokenV>, name: Seq<char>, i: int, k: int, j: int)
    requires
        stands(t, name, i, k),
        t[i].kind != Tok::RBrace && t[i].kind != Tok::Eof,
        fills(t, name, k, j),
    ensures
        fills(t, name, i, j),
{
    reveal(fills);
    reveal(stands);
    assert forall|h: HeaderV, b: BodyV, u: UnitV, st: Place|
        is_at(st, i) && h.name == name && !h.is_record implies {
        let r = #[trigger] members_rest(t, st, h, b, u);
        is_at(r.1, j) && gains(u, r.0.1, name)
    } by {
        let ((b2, u2), s) = member(t, st, h, b, u);
        assert(is_at(s, k) && gains(u, u2, name));
        let r = members_rest(t, moved(t, st, s), h, b2, u2);
        assert(is_at(r.1, j) && gains(u2, r.0.1, name));
    }
}

/// Whether a word is a type or a name where a member starts.
pub open spec fn starts_member(w: Seq<char>) -> bool {
    &&& w != "final"@ && w != "abstract"@ && w != "private"@ && w != "protected"@
    &&& w != "synchronized"@ && w != "native"@ && w != "volatile"@ && w != "transient"@
    &&& w != "interface"@ && w != "enum"@ && w != "record"@
}

/// A method: at most one modifier, its type, its name and its parameters, and a
/// semicolon or a body.
pub proof fn reads_method(t: Seq<TokenV>, name: Seq<char>, i: int, e: int, k: int, j: int)
    requires
        0 <= i <= e <= i + 1,
        e == i + 1 ==> t[i].kind == Tok::Default || t[i].kind == Tok::Static,
        e < t.len() - 3,
        t[e].kind == Tok::Ident && starts_member(t[e].text) || t[e].kind == Tok::Void && e == i,
        t[e + 1].kind == Tok::Ident,
        t[e + 2].kind == Tok::LParen,
        lists(t, e + 3, k),
        k < t.len() - 2,
        t[k].kind == Tok::RParen,
        t[k + 1].kind == Tok::Semi && j == k + 2 || t[k + 1].kind == Tok::LBrace && reaches(
            t,
            Rule::Block,
            k + 2,
            j,
        ),
    ensures
        stands(t, name, i, j),
{
    reveal(stands);
    reveal(lists);
    reveal(reaches);
    assert(after_modifiers(t, e, Slot::Main) == e);
    assert(after_modifiers(t, e, Slot::Class) == e);
    assert(after_modifiers(t, e, Slot::Ctor) == e);
    assert(after_modifiers(t, e, Slot::Method) == e);
    assert(after_modifiers(t, i, Slot::Method) == e);
    assert forall|h: HeaderV, b: BodyV, u: UnitV, st: Place|
        is_at(st, i) && h.name == name && !h.is_record implies {
        let r = #[trigger] member(t, st, h, b, u);
        is_at(r.1, j) && gains(u, r.0.1, name)
    } by {
        assert(!main_ahead(t, i));
        assert(!nested_ahead(t, i));
        assert(!ctor_ahead(t, i, name));
        reveal(plain_member);
        reveal(method_rule);
        let at = Place { pos: e, ..st };
        assert(is_at(declared_type(t, at).1, e + 1));
    }
}

/// A constructor.
pub proof fn reads_constructor(t: Seq<TokenV>, name: Seq<char>, i: int, k: int, j: int)
    requires
        0 <= i < t.len() - 2,
        t[i].kind == Tok::Ident,
        t[i].text == name,
        starts_member(name),
        t[i + 1].kind == Tok::LParen,
        lists(t, i + 2, k),
        k < t.len() - 2,
        t[k].kind == Tok::RParen,
        t[k + 1].kind == Tok::LBrace,
        reaches(t, Rule::Block, k + 2, j),
    ensures
        stands(t, name, i, j),
{
    reveal(stands);
    reveal(lists);
    reveal(reaches);
    assert(after_modifiers(t, i, Slot::Main) == i);
    assert(after_modifiers(t, i, Slot::Class) == i);
    assert(after_modifiers(t, i, Slot::Ctor) == i);
    assert forall|h: HeaderV, b: BodyV, u: UnitV, st: Place|
        is_at(st, i) && h.name == name && !h.is_record implies {
        let r = #[trigger] member(t, st, h, b, u);
        is_at(r.1, j) && gains(u, r.0.1, name)
    } by {
        assert(!main_ahead(t, i));
        assert(!nested_ahead(t, i));
        assert(ctor_ahead(t, i, name));
        reveal(plain_member);
        reveal(ctor_rule);
    }
}

/// A field without a value.
pub proof fn reads_field(t: Seq<TokenV>, name: Seq<char>, i: int)
    requires
        0 <= i < t.len() - 3,
        t[i].kind == Tok::Ident,
        starts_member(t[i].text),
        t[i + 1].kind == Tok::Ident,
        t[i + 2].kind == Tok::Semi,
    ensures
        stands(t, name, i, i + 3),
{
    reveal(stands);
    assert(after_modifiers(t, i, Slot::Main) == i);
    assert(after_modifiers(t, i, Slot::Class) == i);
    assert(after_modifiers(t, i, Slot::Ctor) == i);
    assert(after_modifiers(t, i, Slot::Method) == i);
    assert(after_modifiers(t, i, Slot::Field) == i);
    assert forall|h: HeaderV, b: BodyV, u: UnitV, st: Place|
        is_at(st, i) && h.name == name && !h.is_record implies {
        let r = #[trigger] member(t, st, h, b, u);
        is_at(r.1, i + 3) && gains(u, r.0.1, name)
    } by {
        assert(!main_ahead(t, i));
        assert(!nested_ahead(t, i));
        assert(!ctor_ahead(t, i, name));
        reveal(plain_member);
        reveal(method_rule);
        reveal(fields_rule);
        let (base, s) = declared_type(t, st);
        assert(is_at(s, i + 1));
        let back = Place { pos: i, ..s };
        let (base2, s1) = declared_type(t, back);
        assert(is_at(s1, i + 1));
        let s2 = declarator(t, s1, base2).1;
        assert(is_at(s2, i + 2));
        by_the_rule(t, Rule::OptInit, s2);
        reveal(applied);
        reveal(opt_init_rule);
        assert(is_at(field_decls(t, s1, base2, seq![]).1, i + 2));
    }
}

// ── Classes ─────────────────────────────────────────────────────────────────

/// Whether a class that starts at one token ends at another, and is all that is
/// added but for its static methods.
#[verifier::opaque]
pub open spec fn declares_class(
    t: Seq<TokenV>,
    name: Seq<char>,
    sup: Option<Seq<char>>,
    is_interface: bool,
    i: int,
    j: int,
) -> bool {
    &&& 0 <= i < j < t.len()
    &&& forall|u: UnitV, st: Place|
        is_at(st, i) ==> {
            let r = #[trigger] class_decl(t, st, None, u);
            &&& is_at(r.1, j)
            &&& r.0.entry == u.entry
            &&& r.0.classes.len() == u.classes.len() + 1
            &&& r.0.classes.drop_last() == u.classes
            &&& is_plain_type(r.0.classes.last(), name, sup, is_interface)
            &&& adds(u.methods, r.0.methods, name)
        }
}

proof fn lemma_class(
    t: Seq<TokenV>,
    name: Seq<char>,
    sup: Option<Seq<char>>,
    is_interface: bool,
    i: int,
    k: int,
    j: int,
    st: Place,
    u: UnitV,
)
    requires
        0 <= i < k,
        fills(t, name, k, j),
        is_at(st, i),
        class_header(t, st, None).0.name == name,
        class_header(t, st, None).0.superclass == sup,
        class_header(t, st, None).0.interfaces.len() == 0,
        class_header(t, st, None).0.is_interface == is_interface,
        !class_header(t, st, None).0.is_enum,
        !class_header(t, st, None).0.is_record,
        is_at(class_header(t, st, None).1, k),
    ensures
        ({
            let r = class_decl(t, st, None, u);
            &&& is_at(r.1, j)
            &&& r.0.entry == u.entry
            &&& r.0.classes.len() == u.classes.len() + 1
            &&& r.0.classes.drop_last() == u.classes
            &&& is_plain_type(r.0.classes.last(), name, sup, is_interface)
            &&& adds(u.methods, r.0.methods, name)
        }),
{
    reveal(fills);
    reveal(class_made);
    let (h, s) = class_header(t, st, None);
    let ((b, u2), s3) = members_rest(t, moved(t, st, s), h, no_body(), u);
    assert(UnitV { classes: u.classes, ..u } == u);
    let made = class_decl(t, st, None, u).0;
    assert(made.classes.drop_last() =~= u.classes);
}

/// An interface.
pub proof fn reads_interface(t: Seq<TokenV>, i: int, j: int)
    requires
        0 <= i < t.len() - 3,
        t[i].kind == Tok::Ident,
        t[i].text == "interface"@,
        t[i + 1].kind == Tok::Ident,
        t[i + 2].kind == Tok::LBrace,
        fills(t, t[i + 1].text, i + 3, j),
    ensures
        declares_class(t, t[i + 1].text, None, true, i, j),
{
    lemma_class_words();
    reveal(declares_class);
    assert(fills(t, t[i + 1].text, i + 3, j) ==> j < t.len() && i + 3 < j) by {
        reveal(fills);
    }
    assert(after_modifiers(t, i, Slot::Class) == i);
    assert forall|u: UnitV, st: Place| is_at(st, i) implies {
        let r = #[trigger] class_decl(t, st, None, u);
        &&& is_at(r.1, j)
        &&& r.0.entry == u.entry
        &&& r.0.classes.len() == u.classes.len() + 1
        &&& r.0.classes.drop_last() == u.classes
        &&& is_plain_type(r.0.classes.last(), t[i + 1].text, None, true)
        &&& adds(u.methods, r.0.methods, t[i + 1].text)
    } by {
        reveal(class_header);
        lemma_class(t, t[i + 1].text, None, true, i, i + 3, j, st, u);
    }
}

/// A class without a superclass.
pub proof fn reads_root_class(t: Seq<TokenV>, i: int, j: int)
    requires
        0 <= i < t.len() - 3,
        t[i].kind == Tok::Class,
        t[i + 1].kind == Tok::Ident,
        t[i + 2].kind == Tok::LBrace,
        fills(t, t[i + 1].text, i + 3, j),
    ensures
        declares_class(t, t[i + 1].text, None, false, i, j),
{
    reveal(declares_class);
    assert(fills(t, t[i + 1].text, i + 3, j) ==> j < t.len() && i + 3 < j) by {
        reveal(fills);
    }
    assert(after_modifiers(t, i, Slot::Class) == i);
    assert forall|u: UnitV, st: Place| is_at(st, i) implies {
        let r = #[trigger] class_decl(t, st, None, u);
        &&& is_at(r.1, j)
        &&& r.0.entry == u.entry
        &&& r.0.classes.len() == u.classes.len() + 1
        &&& r.0.classes.drop_last() == u.classes
        &&& is_plain_type(r.0.classes.last(), t[i + 1].text, None, false)
        &&& adds(u.methods, r.0.methods, t[i + 1].text)
    } by {
        reveal(class_header);
        lemma_class(t, t[i + 1].text, None, false, i, i + 3, j, st, u);
    }
}

/// A class with a superclass.
pub proof fn reads_derived_class(t: Seq<TokenV>, i: int, j: int)
    requires
        0 <= i < t.len() - 5,
        t[i].kind == Tok::Class,
        t[i + 1].kind == Tok::Ident,
        t[i + 2].kind == Tok::Ident,
        t[i + 2].text == "extends"@,
        t[i + 3].kind == Tok::Ident,
        t[i + 4].kind == Tok::LBrace,
        fills(t, t[i + 1].text, i + 5, j),
    ensures
        declares_class(t, t[i + 1].text, Some(t[i + 3].text), false, i, j),
{
    reveal(declares_class);
    assert(fills(t, t[i + 1].text, i + 5, j) ==> j < t.len() && i + 5 < j) by {
        reveal(fills);
    }
    assert(after_modifiers(t, i, Slot::Class) == i);
    assert forall|u: UnitV, st: Place| is_at(st, i) implies {
        let r = #[trigger] class_decl(t, st, None, u);
        &&& is_at(r.1, j)
        &&& r.0.entry == u.entry
        &&& r.0.classes.len() == u.classes.len() + 1
        &&& r.0.classes.drop_last() == u.classes
        &&& is_plain_type(r.0.classes.last(), t[i + 1].text, Some(t[i + 3].text), false)
        &&& adds(u.methods, r.0.methods, t[i + 1].text)
    } by {
        reveal(class_header);
        let s = Place { pos: i + 3, ..st };
        let (ty, s0) = declared_type(t, s);
        assert(is_at(s0, i + 4));
        assert(is_at(extended(t, s, false, None, seq![]).1, i + 4));
        lemma_class(t, t[i + 1].text, Some(t[i + 3].text), false, i, i + 5, j, st, u);
    }
}

/// The words that start a class are different from those that may stand before
/// one.
proof fn lemma_class_words()
    ensures
        "interface"@ != "final"@,
        "interface"@ != "abstract"@,
        "interface"@ != "enum"@,
        "interface"@ != "record"@,
        "interface"@ != "extends"@,
        "interface"@ != "implements"@,
{
    reveal_strlit("interface");
    reveal_strlit("final");
    reveal_strlit("abstract");
    reveal_strlit("enum");
    reveal_strlit("record");
    reveal_strlit("extends");
    reveal_strlit("implements");
    assert("interface"@.len() == 9);
}

} // verus!
