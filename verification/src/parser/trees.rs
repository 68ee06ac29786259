//! What the parser reads: a tree that is written out is read back as that tree.
//!
//! An expression is written with brackets around every operand that is no
//! literal, and every token stands on one line. Lambdas and arrows are not among
//! what is written.
use vstd::prelude::*;

use crate::ast::{BinOp, ExprV, LambdaBodyV, UnOp};
use crate::injection::reading::{is_at, is_plain_word, is_variable};
use crate::lexer::{Tok, TokenV};
use crate::parser::grammar::{
    Read, Rule, applied, args_rest_rule, assigning, binary_rest_rule, binary_rule, binding,
    by_the_rule, call_args_rule, expression_rule, lambda_body_rule, lambda_params, named_rule,
    new_expr_rule, postfix_rest_rule, postfix_rule, primary_rule, read, sizes_rest_rule,
    system_out_rule, unary_rule,
};
use crate::parser::probes::{
    cast_ahead, lambda_ahead, names_primitive, operand_ahead, paren_end, qualified,
};
use crate::parser::tokens::{Place, kind_at, moved, step};

verus! {

// ── Writing expressions ─────────────────────────────────────────────────────

/// A token on a line.
pub open spec fn on(kind: Tok, l: u32) -> TokenV {
    TokenV { kind, text: seq![], value: 0, line: l }
}

/// A name on a line.
pub open spec fn word(name: Seq<char>, l: u32) -> TokenV {
    TokenV { kind: Tok::Ident, text: name, value: 0, line: l }
}

/// The sign of a binary operator.
pub open spec fn sign_for(op: BinOp) -> Tok {
    match op {
        BinOp::Add => Tok::Plus,
        BinOp::Sub => Tok::Minus,
        BinOp::Mul => Tok::Star,
        BinOp::Div => Tok::Slash,
        BinOp::Mod => Tok::Percent,
        BinOp::Eq => Tok::EqEq,
        BinOp::Ne => Tok::NotEq,
        BinOp::Lt => Tok::Lt,
        BinOp::Gt => Tok::Gt,
        BinOp::Le => Tok::Le,
        BinOp::Ge => Tok::Ge,
        BinOp::And => Tok::AndAnd,
        BinOp::Or => Tok::OrOr,
        BinOp::BitAnd => Tok::Amp,
        BinOp::BitOr => Tok::Pipe,
        BinOp::BitXor => Tok::Caret,
        BinOp::Shl => Tok::Shl,
        BinOp::Shr => Tok::Shr,
        BinOp::Ushr => Tok::Ushr,
    }
}

/// The sign of a prefix operator.
pub open spec fn prefix_for(op: UnOp) -> Tok {
    match op {
        UnOp::Neg => Tok::Minus,
        UnOp::Not => Tok::Not,
        UnOp::BitNot => Tok::Tilde,
    }
}

/// The token of a literal.
pub open spec fn literal_token(e: ExprV, l: u32) -> Option<TokenV> {
    match e {
        ExprV::Int(n) => Some(TokenV { kind: Tok::Int, text: seq![], value: n, line: l }),
        ExprV::Long(n) => Some(TokenV { kind: Tok::Long, text: seq![], value: n, line: l }),
        ExprV::Char(n) => Some(TokenV { kind: Tok::Char, text: seq![], value: n, line: l }),
        ExprV::Float(s) => Some(TokenV { kind: Tok::Float, text: s, value: 0, line: l }),
        ExprV::Float32(s) => Some(TokenV { kind: Tok::Float32, text: s, value: 0, line: l }),
        ExprV::Str(s) => Some(TokenV { kind: Tok::Str, text: s, value: 0, line: l }),
        ExprV::Bool(true) => Some(on(Tok::True, l)),
        ExprV::Bool(false) => Some(on(Tok::False, l)),
        _ => None,
    }
}

/// An expression as an operand: a literal, or in brackets.
pub open spec fn operand(e: ExprV, l: u32) -> Seq<TokenV>
    decreases e, 1int,
{
    match literal_token(e, l) {
        Some(x) => seq![x],
        None => seq![on(Tok::LParen, l)] + spelled_out(e, l) + seq![on(Tok::RParen, l)],
    }
}

/// Expressions with commas between them.
pub open spec fn separated(es: Seq<ExprV>, l: u32) -> Seq<TokenV>
    decreases es,
{
    if es.len() == 0 {
        seq![]
    } else if es.len() == 1 {
        spelled_out(es[0], l)
    } else {
        spelled_out(es[0], l) + (seq![on(Tok::Comma, l)] + separated(es.subrange(1, es.len() as int), l))
    }
}

/// An expression written out.
pub open spec fn spelled_out(e: ExprV, l: u32) -> Seq<TokenV>
    decreases e, 0int,
{
    match e {
        ExprV::Var(name) => seq![word(name, l)],
        ExprV::This => seq![word("this"@, l)],
        ExprV::Unary { op, rhs } => seq![on(prefix_for(op), l)] + operand(*rhs, l),
        ExprV::Binary { op, lhs, rhs } => operand(*lhs, l) + (seq![on(sign_for(op), l)] + operand(
            *rhs,
            l,
        )),
        ExprV::Ternary { cond, yes, no } => operand(*cond, l) + (seq![on(Tok::Question, l)] + (
        operand(*yes, l) + (seq![on(Tok::Colon, l)] + operand(*no, l)))),
        ExprV::Index { array, index } => operand(*array, l) + (seq![on(Tok::LBracket, l)] + (spelled_out(
            *index,
            l,
        ) + seq![on(Tok::RBracket, l)])),
        ExprV::Field { recv, name } => operand(*recv, l) + seq![on(Tok::Dot, l), word(name, l)],
        ExprV::MethodCall { recv, method, args, line } => operand(*recv, l) + (seq![
            on(Tok::Dot, l),
            word(method, l),
            on(Tok::LParen, l),
        ] + (separated(args, l) + seq![on(Tok::RParen, l)])),
        ExprV::Call { name, args, line } => seq![word(name, l), on(Tok::LParen, l)] + (separated(
            args,
            l,
        ) + seq![on(Tok::RParen, l)]),
        ExprV::NewObject { class, args, line } => seq![
            on(Tok::New, l),
            word(class, l),
            on(Tok::LParen, l),
        ] + (separated(args, l) + seq![on(Tok::RParen, l)]),
        ExprV::NewArray { elem_ty, sizes, extra_dims } => seq![
            on(Tok::New, l),
            word(elem_ty, l),
            on(Tok::LBracket, l),
        ] + (separated(sizes, l) + seq![on(Tok::RBracket, l)]),
        ExprV::MethodRef { recv, method, line } => operand(*recv, l) + seq![
            on(Tok::ColonColon, l),
            word(method, l),
        ],
        ExprV::Println { newline, err, arg } => match arg {
            Some(e) => print_head(newline, err, l) + (spelled_out(*e, l) + seq![
                on(Tok::RParen, l),
            ]),
            None => print_head(newline, err, l) + seq![on(Tok::RParen, l)],
        },
        ExprV::InstanceOf { expr, class } => operand(*expr, l) + seq![
            word("instanceof"@, l),
            word(class, l),
        ],
        ExprV::Cast { ty, expr, line } => seq![on(Tok::LParen, l), word(ty, l), on(Tok::RParen, l)]
            + operand(*expr, l),
        ExprV::PostIncDec { name, inc } => seq![
            word(name, l),
            on(
                if inc {
                    Tok::PlusPlus
                } else {
                    Tok::MinusMinus
                },
                l,
            ),
        ],
        ExprV::PreIncDec { name, inc } => seq![
            on(
                if inc {
                    Tok::PlusPlus
                } else {
                    Tok::MinusMinus
                },
                l,
            ),
            word(name, l),
        ],
        _ => match literal_token(e, l) {
            Some(x) => seq![x],
            None => seq![],
        },
    }
}

/// What printing starts with.
pub open spec fn print_head(newline: bool, err: bool, l: u32) -> Seq<TokenV> {
    seq![
        word("System"@, l),
        on(Tok::Dot, l),
        word(
            if err {
                "err"@
            } else {
                "out"@
            },
            l,
        ),
        on(Tok::Dot, l),
        word(
            if newline {
                "println"@
            } else {
                "print"@
            },
            l,
        ),
        on(Tok::LParen, l),
    ]
}

/// A binary operation.
pub open spec fn operation(op: BinOp, lhs: ExprV, rhs: ExprV) -> ExprV {
    ExprV::Binary { op, lhs: Box::new(lhs), rhs: Box::new(rhs) }
}

/// A conditional.
pub open spec fn conditional(cond: ExprV, yes: ExprV, no: ExprV) -> ExprV {
    ExprV::Ternary { cond: Box::new(cond), yes: Box::new(yes), no: Box::new(no) }
}

/// Whether a name can stand where an expression or a statement starts and is no
/// type that is always a cast.
pub open spec fn is_name(n: Seq<char>) -> bool {
    is_variable(n) && is_plain_word(n) && !names_primitive(n)
}

/// Whether the parts of an expression can be written out.
pub open spec fn can_write(e: ExprV, l: u32) -> bool
    decreases e, 0int,
{
    match e {
        ExprV::Var(name) => is_name(name),
        ExprV::This => true,
        ExprV::Unary { op, rhs } => can_write(*rhs, l),
        ExprV::Binary { op, lhs, rhs } => can_write(*lhs, l) && can_write(*rhs, l),
        ExprV::Ternary { cond, yes, no } => can_write(*cond, l) && can_write(*yes, l) && can_write(
            *no,
            l,
        ),
        ExprV::Index { array, index } => can_write(*array, l) && can_write(*index, l),
        ExprV::Field { recv, name } => can_write(*recv, l),
        ExprV::MethodCall { recv, method, args, line } => can_write(*recv, l) && can_write_all(
            args,
            l,
        ) && line == l,
        ExprV::Call { name, args, line } => is_name(name) && can_write_all(args, l) && line == l,
        ExprV::NewObject { class, args, line } => can_write_all(args, l) && line == l,
        ExprV::NewArray { elem_ty, sizes, extra_dims } => sizes.len() == 1 && extra_dims == 0
            && can_write_all(sizes, l),
        ExprV::MethodRef { recv, method, line } => can_write(*recv, l) && line == l,
        ExprV::Println { newline, err, arg } => match arg {
            Some(e) => can_write(*e, l),
            None => true,
        },
        ExprV::InstanceOf { expr, class } => can_write(*expr, l),
        ExprV::Cast { ty, expr, line } => can_write(*expr, l) && line == l,
        ExprV::PostIncDec { name, inc } => is_name(name),
        ExprV::PreIncDec { name, inc } => is_name(name),
        _ => literal_token(e, l) is Some,
    }
}

/// Whether all expressions can be written out.
pub open spec fn can_write_all(es: Seq<ExprV>, l: u32) -> bool
    decreases es, 1int,
{
    forall|i: int| 0 <= i < es.len() ==> can_write(#[trigger] es[i], l)
}

// ── Tokens in their places ──────────────────────────────────────────────────

/// Whether tokens stand at a place, with another one behind them.
pub open spec fn holds(t: Seq<TokenV>, i: int, w: Seq<TokenV>) -> bool {
    &&& 0 <= i
    &&& i + w.len() < t.len()
    &&& forall|k: int| 0 <= k < w.len() ==> t[i + k] == #[trigger] w[k]
}

/// Tokens one behind another stand where they do.
pub proof fn lemma_holds_both(t: Seq<TokenV>, i: int, a: Seq<TokenV>, b: Seq<TokenV>)
    requires
        holds(t, i, a + b),
    ensures
        holds(t, i, a),
        holds(t, i + a.len(), b),
{
    assert forall|k: int| 0 <= k < a.len() implies t[i + k] == #[trigger] a[k] by {
        assert((a + b)[k] == a[k]);
        assert(t[i + k] == (a + b)[k]);
    }
    assert forall|k: int| 0 <= k < b.len() implies t[i + a.len() + k] == #[trigger] b[k] by {
        assert((a + b)[a.len() + k] == b[k]);
        assert(t[i + (a.len() + k)] == (a + b)[a.len() + k]);
    }
}

/// Whether there is no arrow from a place on.
pub open spec fn no_arrows(t: Seq<TokenV>, i: int) -> bool {
    forall|k: int| i <= k < t.len() ==> (#[trigger] t[k]).kind != Tok::Arrow
}

proof fn lemma_bracket_ahead(t: Seq<TokenV>, j: int, depth: int)
    ensures
        paren_end(t, j, depth) >= j,
    decreases t.len() - j,
{
    if 0 <= j < t.len() {
        lemma_bracket_ahead(t, j + 1, depth + 1);
        lemma_bracket_ahead(t, j + 1, depth - 1);
        lemma_bracket_ahead(t, j + 1, depth);
    }
}

/// Whether a rule reads something between two places.
#[verifier::opaque]
pub open spec fn reads(t: Seq<TokenV>, r: Rule, i: int, j: int, v: Read) -> bool {
    &&& 0 <= i < j < t.len()
    &&& forall|st: Place|
        is_at(st, i) ==> is_at((#[trigger] read(t, r, st)).1, j) && read(t, r, st).0 == v
}

/// Whether what is chained to an expression makes another one of it.
#[verifier::opaque]
pub open spec fn chains(t: Seq<TokenV>, e: ExprV, i: int, j: int, v: ExprV) -> bool {
    &&& 0 <= i <= j < t.len()
    &&& forall|st: Place|
        is_at(st, i) ==> is_at((#[trigger] read(t, Rule::PostfixRest(e), st)).1, j) && read(
            t,
            Rule::PostfixRest(e),
            st,
        ).0 == Read::Expr(v)
}

/// Whether the operators behind an operand make another expression of it.
#[verifier::opaque]
pub open spec fn joins(t: Seq<TokenV>, e: ExprV, min_bp: u8, i: int, j: int, v: ExprV) -> bool {
    &&& 0 <= i <= j < t.len()
    &&& forall|st: Place|
        is_at(st, i) ==> is_at((#[trigger] read(t, Rule::BinaryRest(e, min_bp), st)).1, j) && read(
            t,
            Rule::BinaryRest(e, min_bp),
            st,
        ).0 == Read::Expr(v)
}

/// Whether the arguments from one on complete a list of them.
#[verifier::opaque]
pub open spec fn completes(t: Seq<TokenV>, out: Seq<ExprV>, i: int, j: int, v: Seq<ExprV>) -> bool {
    &&& 0 <= i < j < t.len()
    &&& forall|st: Place|
        is_at(st, i) ==> is_at((#[trigger] read(t, Rule::ArgsRest(out), st)).1, j) && read(
            t,
            Rule::ArgsRest(out),
            st,
        ).0 == Read::Exprs(v)
}

// ── Chains and operands ─────────────────────────────────────────────────────

/// Whether nothing is chained at a token.
pub open spec fn unchained(k: Tok) -> bool {
    k != Tok::Dot && k != Tok::ColonColon && k != Tok::LBracket
}

proof fn chain_ends(t: Seq<TokenV>, e: ExprV, i: int)
    requires
        0 <= i < t.len(),
        unchained(t[i].kind),
    ensures
        chains(t, e, i, i, e),
{
    reveal(chains);
    assert forall|st: Place| is_at(st, i) implies is_at(
        (#[trigger] read(t, Rule::PostfixRest(e), st)).1,
        i,
    ) && read(t, Rule::PostfixRest(e), st).0 == Read::Expr(e) by {
        by_the_rule(t, Rule::PostfixRest(e), st);
        reveal(applied);
        reveal(postfix_rest_rule);
    }
}

proof fn chain_field(t: Seq<TokenV>, e: ExprV, i: int, j: int, v: ExprV)
    requires
        0 <= i < t.len() - 2,
        t[i].kind == Tok::Dot,
        t[i + 1].kind == Tok::Ident,
        t[i + 2].kind != Tok::LParen,
        chains(t, ExprV::Field { recv: Box::new(e), name: t[i + 1].text }, i + 2, j, v),
    ensures
        chains(t, e, i, j, v),
{
    reveal(chains);
    assert forall|st: Place| is_at(st, i) implies is_at(
        (#[trigger] read(t, Rule::PostfixRest(e), st)).1,
        j,
    ) && read(t, Rule::PostfixRest(e), st).0 == Read::Expr(v) by {
        by_the_rule(t, Rule::PostfixRest(e), st);
        reveal(applied);
        reveal(postfix_rest_rule);
    }
}

proof fn chain_call(t: Seq<TokenV>, e: ExprV, i: int, k: int, args: Seq<ExprV>, j: int, v: ExprV)
    requires
        0 <= i < t.len() - 2,
        t[i].kind == Tok::Dot,
        t[i + 1].kind == Tok::Ident,
        t[i + 2].kind == Tok::LParen,
        reads(t, Rule::CallArgs, i + 2, k, Read::Exprs(args)),
        chains(
            t,
            ExprV::MethodCall { recv: Box::new(e), method: t[i + 1].text, args, line: t[i].line },
            k,
            j,
            v,
        ),
    ensures
        chains(t, e, i, j, v),
{
    reveal(chains);
    reveal(reads);
    assert forall|st: Place| is_at(st, i) implies is_at(
        (#[trigger] read(t, Rule::PostfixRest(e), st)).1,
        j,
    ) && read(t, Rule::PostfixRest(e), st).0 == Read::Expr(v) by {
        by_the_rule(t, Rule::PostfixRest(e), st);
        reveal(applied);
        reveal(postfix_rest_rule);
    }
}

proof fn chain_index(t: Seq<TokenV>, e: ExprV, i: int, k: int, index: ExprV, j: int, v: ExprV)
    requires
        0 <= i < t.len() - 2,
        t[i].kind == Tok::LBracket,
        reads(t, Rule::Expression, i + 1, k, Read::Expr(index)),
        k < t.len() - 1,
        t[k].kind == Tok::RBracket,
        chains(t, ExprV::Index { array: Box::new(e), index: Box::new(index) }, k + 1, j, v),
    ensures
        chains(t, e, i, j, v),
{
    reveal(chains);
    reveal(reads);
    assert forall|st: Place| is_at(st, i) implies is_at(
        (#[trigger] read(t, Rule::PostfixRest(e), st)).1,
        j,
    ) && read(t, Rule::PostfixRest(e), st).0 == Read::Expr(v) by {
        by_the_rule(t, Rule::PostfixRest(e), st);
        reveal(applied);
        reveal(postfix_rest_rule);
    }
}

/// A primary with what is chained to it.
proof fn unary_of_primary(t: Seq<TokenV>, i: int, k: int, e: ExprV, j: int, v: ExprV)
    requires
        reads(t, Rule::Primary, i, k, Read::Expr(e)),
        chains(t, e, k, j, v),
        0 <= i < t.len(),
        cast_ahead(t, i) is None,
        t[i].kind != Tok::Minus && t[i].kind != Tok::Plus && t[i].kind != Tok::Not && t[i].kind
            != Tok::Tilde && t[i].kind != Tok::PlusPlus && t[i].kind != Tok::MinusMinus,
    ensures
        reads(t, Rule::Unary, i, j, Read::Expr(v)),
{
    reveal(chains);
    reveal(reads);
    assert forall|st: Place| is_at(st, i) implies is_at((#[trigger] read(t, Rule::Unary, st)).1, j)
        && read(t, Rule::Unary, st).0 == Read::Expr(v) by {
        by_the_rule(t, Rule::Unary, st);
        by_the_rule(t, Rule::Postfix, st);
        reveal(applied);
        reveal(unary_rule);
        reveal(postfix_rule);
    }
}

proof fn primary_literal(t: Seq<TokenV>, i: int, e: ExprV, l: u32)
    requires
        0 <= i < t.len() - 1,
        literal_token(e, l) == Some(t[i]),
    ensures
        reads(t, Rule::Primary, i, i + 1, Read::Expr(e)),
{
    reveal(reads);
    assert forall|st: Place| is_at(st, i) implies is_at(
        (#[trigger] read(t, Rule::Primary, st)).1,
        i + 1,
    ) && read(t, Rule::Primary, st).0 == Read::Expr(e) by {
        by_the_rule(t, Rule::Primary, st);
        reveal(applied);
        reveal(primary_rule);
    }
}

proof fn primary_in_brackets(t: Seq<TokenV>, i: int, k: int, e: ExprV)
    requires
        0 <= i < t.len() - 1,
        t[i].kind == Tok::LParen,
        reads(t, Rule::Expression, i + 1, k, Read::Expr(e)),
        k < t.len() - 1,
        t[k].kind == Tok::RParen,
    ensures
        reads(t, Rule::Primary, i, k + 1, Read::Expr(e)),
{
    reveal(reads);
    assert forall|st: Place| is_at(st, i) implies is_at(
        (#[trigger] read(t, Rule::Primary, st)).1,
        k + 1,
    ) && read(t, Rule::Primary, st).0 == Read::Expr(e) by {
        by_the_rule(t, Rule::Primary, st);
        reveal(applied);
        reveal(primary_rule);
    }
}

/// What starts with a name: a variable, `this`, an update, or a call.
proof fn primary_variable(t: Seq<TokenV>, i: int)
    requires
        0 <= i < t.len() - 1,
        t[i].kind == Tok::Ident,
        is_variable(t[i].text),
        t[i + 1].kind != Tok::LParen && t[i + 1].kind != Tok::PlusPlus && t[i + 1].kind
            != Tok::MinusMinus,
    ensures
        reads(t, Rule::Primary, i, i + 1, Read::Expr(ExprV::Var(t[i].text))),
{
    reveal(reads);
    assert forall|st: Place| is_at(st, i) implies is_at(
        (#[trigger] read(t, Rule::Primary, st)).1,
        i + 1,
    ) && read(t, Rule::Primary, st).0 == Read::Expr(ExprV::Var(t[i].text)) by {
        by_the_rule(t, Rule::Primary, st);
        by_the_rule(t, Rule::Named, st);
        reveal(applied);
        reveal(primary_rule);
        reveal(named_rule);
    }
}

proof fn primary_this(t: Seq<TokenV>, i: int)
    requires
        0 <= i < t.len() - 1,
        t[i].kind == Tok::Ident,
        t[i].text == "this"@,
        t[i + 1].kind != Tok::LParen,
    ensures
        reads(t, Rule::Primary, i, i + 1, Read::Expr(ExprV::This)),
{
    reveal(reads);
    assert forall|st: Place| is_at(st, i) implies is_at(
        (#[trigger] read(t, Rule::Primary, st)).1,
        i + 1,
    ) && read(t, Rule::Primary, st).0 == Read::Expr(ExprV::This) by {
        by_the_rule(t, Rule::Primary, st);
        by_the_rule(t, Rule::Named, st);
        reveal(applied);
        reveal(primary_rule);
        reveal(named_rule);
    }
}

proof fn primary_update(t: Seq<TokenV>, i: int, inc: bool)
    requires
        0 <= i < t.len() - 2,
        t[i].kind == Tok::Ident,
        is_variable(t[i].text),
        t[i + 1].kind == if inc {
            Tok::PlusPlus
        } else {
            Tok::MinusMinus
        },
    ensures
        reads(
            t,
            Rule::Primary,
            i,
            i + 2,
            Read::Expr(ExprV::PostIncDec { name: t[i].text, inc }),
        ),
{
    reveal(reads);
    assert forall|st: Place| is_at(st, i) implies is_at(
        (#[trigger] read(t, Rule::Primary, st)).1,
        i + 2,
    ) && read(t, Rule::Primary, st).0 == Read::Expr(
        ExprV::PostIncDec { name: t[i].text, inc },
    ) by {
        by_the_rule(t, Rule::Primary, st);
        by_the_rule(t, Rule::Named, st);
        reveal(applied);
        reveal(primary_rule);
        reveal(named_rule);
    }
}

proof fn primary_call(t: Seq<TokenV>, i: int, k: int, args: Seq<ExprV>)
    requires
        0 <= i < t.len() - 2,
        t[i].kind == Tok::Ident,
        is_variable(t[i].text),
        t[i + 1].kind == Tok::LParen,
        reads(t, Rule::CallArgs, i + 1, k, Read::Exprs(args)),
    ensures
        reads(
            t,
            Rule::Primary,
            i,
            k,
            Read::Expr(ExprV::Call { name: t[i].text, args, line: t[i].line }),
        ),
{
    reveal(reads);
    assert forall|st: Place| is_at(st, i) implies is_at(
        (#[trigger] read(t, Rule::Primary, st)).1,
        k,
    ) && read(t, Rule::Primary, st).0 == Read::Expr(
        ExprV::Call { name: t[i].text, args, line: t[i].line },
    ) by {
        by_the_rule(t, Rule::Primary, st);
        by_the_rule(t, Rule::Named, st);
        reveal(applied);
        reveal(primary_rule);
        reveal(named_rule);
    }
}

proof fn primary_new(t: Seq<TokenV>, i: int, k: int, args: Seq<ExprV>)
    requires
        0 <= i < t.len() - 3,
        t[i].kind == Tok::New,
        t[i + 1].kind == Tok::Ident,
        t[i + 2].kind == Tok::LParen,
        reads(t, Rule::CallArgs, i + 2, k, Read::Exprs(args)),
    ensures
        reads(
            t,
            Rule::Primary,
            i,
            k,
            Read::Expr(ExprV::NewObject { class: t[i + 1].text, args, line: t[i].line }),
        ),
{
    reveal(reads);
    assert forall|st: Place| is_at(st, i) implies is_at(
        (#[trigger] read(t, Rule::Primary, st)).1,
        k,
    ) && read(t, Rule::Primary, st).0 == Read::Expr(
        ExprV::NewObject { class: t[i + 1].text, args, line: t[i].line },
    ) by {
        by_the_rule(t, Rule::Primary, st);
        by_the_rule(t, Rule::NewExpr, st);
        reveal(applied);
        reveal(primary_rule);
        reveal(new_expr_rule);
    }
}

proof fn chain_reference(t: Seq<TokenV>, e: ExprV, i: int, j: int, v: ExprV)
    requires
        0 <= i < t.len() - 2,
        t[i].kind == Tok::ColonColon,
        t[i + 1].kind == Tok::Ident,
        chains(
            t,
            (ExprV::MethodRef { recv: Box::new(e), method: t[i + 1].text, line: t[i].line }),
            i + 2,
            j,
            v,
        ),
    ensures
        chains(t, e, i, j, v),
{
    reveal(chains);
    assert forall|st: Place| is_at(st, i) implies is_at(
        (#[trigger] read(t, Rule::PostfixRest(e), st)).1,
        j,
    ) && read(t, Rule::PostfixRest(e), st).0 == Read::Expr(v) by {
        by_the_rule(t, Rule::PostfixRest(e), st);
        reveal(applied);
        reveal(postfix_rest_rule);
    }
}

proof fn primary_array(t: Seq<TokenV>, i: int, k: int, size: ExprV)
    requires
        0 <= i < t.len() - 4,
        t[i].kind == Tok::New,
        t[i + 1].kind == Tok::Ident,
        t[i + 2].kind == Tok::LBracket,
        t[i + 3].kind != Tok::RBracket,
        reads(t, Rule::Expression, i + 3, k, Read::Expr(size)),
        k < t.len() - 1,
        t[k].kind == Tok::RBracket,
        t[k + 1].kind != Tok::LBracket,
    ensures
        reads(
            t,
            Rule::Primary,
            i,
            k + 1,
            Read::Expr(
                (ExprV::NewArray { elem_ty: t[i + 1].text, sizes: seq![size], extra_dims: 0 }),
            ),
        ),
{
    reveal(reads);
    let v = ExprV::NewArray { elem_ty: t[i + 1].text, sizes: seq![size], extra_dims: 0 };
    assert forall|st: Place| is_at(st, i) implies is_at(
        (#[trigger] read(t, Rule::Primary, st)).1,
        k + 1,
    ) && read(t, Rule::Primary, st).0 == Read::Expr(v) by {
        by_the_rule(t, Rule::Primary, st);
        by_the_rule(t, Rule::NewExpr, st);
        reveal(applied);
        reveal(primary_rule);
        reveal(new_expr_rule);
        let s = Place { pos: i + 2, ..st };
        let s2 = read(t, Rule::Expression, step(t, s)).1;
        assert(is_at(s2, k));
        let s3 = step(t, s2);
        by_the_rule(t, Rule::SizesRest(seq![size], 0, t[i].line), s3);
        reveal(sizes_rest_rule);
    }
}

proof fn primary_print(t: Seq<TokenV>, i: int, k: int, newline: bool, err: bool, arg: Option<ExprV>, l: u32)
    requires
        0 <= i < t.len() - 7,
        holds(t, i, print_head(newline, err, l)),
        match arg {
            Some(e) => t[i + 6].kind != Tok::RParen && reads(
                t,
                Rule::Expression,
                i + 6,
                k,
                Read::Expr(e),
            ),
            None => k == i + 6,
        },
        k < t.len() - 1,
        t[k].kind == Tok::RParen,
    ensures
        reads(
            t,
            Rule::Primary,
            i,
            k + 1,
            Read::Expr(
                (ExprV::Println {
                    newline,
                    err,
                    arg: match arg {
                        Some(e) => Some(Box::new(e)),
                        None => None,
                    },
                }),
            ),
        ),
{
    reveal(reads);
    lemma_print_words();
    let w = print_head(newline, err, l);
    assert(t[i + 0] == w[0] && t[i + 1] == w[1] && t[i + 2] == w[2]);
    assert(t[i + 3] == w[3] && t[i + 4] == w[4] && t[i + 5] == w[5]);
    let v = ExprV::Println {
        newline,
        err,
        arg: match arg {
            Some(e) => Some(Box::new(e)),
            None => None,
        },
    };
    assert forall|st: Place| is_at(st, i) implies is_at(
        (#[trigger] read(t, Rule::Primary, st)).1,
        k + 1,
    ) && read(t, Rule::Primary, st).0 == Read::Expr(v) by {
        by_the_rule(t, Rule::Primary, st);
        by_the_rule(t, Rule::Named, st);
        by_the_rule(t, Rule::SystemOut, st);
        reveal(applied);
        reveal(primary_rule);
        reveal(named_rule);
        reveal(system_out_rule);
    }
}

proof fn lemma_print_words()
    ensures
        "System"@ != "this"@,
        "System"@ != "java"@,
        "out"@ != "err"@,
        "println"@ != "printf"@,
        "println"@ != "format"@,
        "println"@ != "print"@,
        "print"@ != "printf"@,
        "print"@ != "format"@,
{
    reveal_strlit("System");
    reveal_strlit("this");
    reveal_strlit("java");
    reveal_strlit("out");
    reveal_strlit("err");
    reveal_strlit("println");
    reveal_strlit("print");
    reveal_strlit("printf");
    reveal_strlit("format");
    assert("System"@.len() == 6 && "this"@.len() == 4 && "java"@.len() == 4);
    assert("out"@[0] == 'o' && "err"@[0] == 'e');
    assert("println"@.len() == 7 && "print"@.len() == 5 && "printf"@.len() == 6);
    assert("format"@.len() == 6);
}

// ── Arguments ───────────────────────────────────────────────────────────────

proof fn no_arguments(t: Seq<TokenV>, i: int)
    requires
        0 <= i < t.len() - 2,
        t[i].kind == Tok::LParen,
        t[i + 1].kind == Tok::RParen,
    ensures
        reads(t, Rule::CallArgs, i, i + 2, Read::Exprs(seq![])),
{
    reveal(reads);
    assert forall|st: Place| is_at(st, i) implies is_at(
        (#[trigger] read(t, Rule::CallArgs, st)).1,
        i + 2,
    ) && read(t, Rule::CallArgs, st).0 == Read::Exprs(seq![]) by {
        by_the_rule(t, Rule::CallArgs, st);
        reveal(applied);
        reveal(call_args_rule);
    }
}

proof fn some_arguments(t: Seq<TokenV>, i: int, j: int, v: Seq<ExprV>)
    requires
        0 <= i < t.len() - 1,
        t[i].kind == Tok::LParen,
        t[i + 1].kind != Tok::RParen,
        completes(t, seq![], i + 1, j, v),
    ensures
        reads(t, Rule::CallArgs, i, j, Read::Exprs(v)),
{
    reveal(reads);
    reveal(completes);
    assert forall|st: Place| is_at(st, i) implies is_at(
        (#[trigger] read(t, Rule::CallArgs, st)).1,
        j,
    ) && read(t, Rule::CallArgs, st).0 == Read::Exprs(v) by {
        by_the_rule(t, Rule::CallArgs, st);
        reveal(applied);
        reveal(call_args_rule);
    }
}

proof fn last_argument(t: Seq<TokenV>, out: Seq<ExprV>, i: int, k: int, e: ExprV)
    requires
        reads(t, Rule::Expression, i, k, Read::Expr(e)),
        k < t.len() - 1,
        t[k].kind == Tok::RParen,
    ensures
        completes(t, out, i, k + 1, out.push(e)),
{
    reveal(reads);
    reveal(completes);
    assert forall|st: Place| is_at(st, i) implies is_at(
        (#[trigger] read(t, Rule::ArgsRest(out), st)).1,
        k + 1,
    ) && read(t, Rule::ArgsRest(out), st).0 == Read::Exprs(out.push(e)) by {
        by_the_rule(t, Rule::ArgsRest(out), st);
        reveal(applied);
        reveal(args_rest_rule);
    }
}

proof fn next_argument(t: Seq<TokenV>, out: Seq<ExprV>, i: int, k: int, e: ExprV, j: int, v: Seq<ExprV>)
    requires
        reads(t, Rule::Expression, i, k, Read::Expr(e)),
        k < t.len() - 1,
        t[k].kind == Tok::Comma,
        completes(t, out.push(e), k + 1, j, v),
    ensures
        completes(t, out, i, j, v),
{
    reveal(reads);
    reveal(completes);
    assert forall|st: Place| is_at(st, i) implies is_at(
        (#[trigger] read(t, Rule::ArgsRest(out), st)).1,
        j,
    ) && read(t, Rule::ArgsRest(out), st).0 == Read::Exprs(v) by {
        by_the_rule(t, Rule::ArgsRest(out), st);
        reveal(applied);
        reveal(args_rest_rule);
    }
}

// ── Operators ───────────────────────────────────────────────────────────────

proof fn prefix_operator(t: Seq<TokenV>, i: int, op: UnOp, j: int, e: ExprV)
    requires
        0 <= i < t.len() - 1,
        t[i].kind == prefix_for(op),
        reads(t, Rule::Unary, i + 1, j, Read::Expr(e)),
    ensures
        reads(t, Rule::Unary, i, j, Read::Expr(ExprV::Unary { op, rhs: Box::new(e) })),
{
    reveal(reads);
    assert forall|st: Place| is_at(st, i) implies is_at((#[trigger] read(t, Rule::Unary, st)).1, j)
        && read(t, Rule::Unary, st).0 == Read::Expr(ExprV::Unary { op, rhs: Box::new(e) }) by {
        by_the_rule(t, Rule::Unary, st);
        reveal(applied);
        reveal(unary_rule);
    }
}

proof fn prefix_update(t: Seq<TokenV>, i: int, inc: bool)
    requires
        0 <= i < t.len() - 2,
        t[i].kind == if inc {
            Tok::PlusPlus
        } else {
            Tok::MinusMinus
        },
        t[i + 1].kind == Tok::Ident,
    ensures
        reads(
            t,
            Rule::Unary,
            i,
            i + 2,
            Read::Expr(ExprV::PreIncDec { name: t[i + 1].text, inc }),
        ),
{
    reveal(reads);
    assert forall|st: Place| is_at(st, i) implies is_at(
        (#[trigger] read(t, Rule::Unary, st)).1,
        i + 2,
    ) && read(t, Rule::Unary, st).0 == Read::Expr(
        ExprV::PreIncDec { name: t[i + 1].text, inc },
    ) by {
        by_the_rule(t, Rule::Unary, st);
        reveal(applied);
        reveal(unary_rule);
    }
}

proof fn cast_operator(t: Seq<TokenV>, i: int, j: int, e: ExprV)
    requires
        0 <= i < t.len() - 4,
        t[i].kind == Tok::LParen,
        t[i + 1].kind == Tok::Ident,
        t[i + 2].kind == Tok::RParen,
        operand_ahead(t, i + 3),
        reads(t, Rule::Unary, i + 3, j, Read::Expr(e)),
    ensures
        reads(
            t,
            Rule::Unary,
            i,
            j,
            Read::Expr(ExprV::Cast { ty: t[i + 1].text, expr: Box::new(e), line: t[i + 2].line }),
        ),
{
    reveal(reads);
    assert(cast_ahead(t, i) == Some((t[i + 1].text, i + 2)));
    assert forall|st: Place| is_at(st, i) implies is_at((#[trigger] read(t, Rule::Unary, st)).1, j)
        && read(t, Rule::Unary, st).0 == Read::Expr(
        ExprV::Cast { ty: t[i + 1].text, expr: Box::new(e), line: t[i + 2].line },
    ) by {
        by_the_rule(t, Rule::Unary, st);
        reveal(applied);
        reveal(unary_rule);
        assert(is_at(moved(t, st, Place { pos: i + 3, ..st }), i + 3));
    }
}

proof fn operators_end(t: Seq<TokenV>, e: ExprV, min_bp: u8, i: int)
    requires
        0 <= i < t.len(),
        t[i].kind != Tok::Ident,
        match binding(t[i].kind) {
            Some((_, bp)) => bp < min_bp,
            None => true,
        },
    ensures
        joins(t, e, min_bp, i, i, e),
{
    reveal(joins);
    assert forall|st: Place| is_at(st, i) implies is_at(
        (#[trigger] read(t, Rule::BinaryRest(e, min_bp), st)).1,
        i,
    ) && read(t, Rule::BinaryRest(e, min_bp), st).0 == Read::Expr(e) by {
        by_the_rule(t, Rule::BinaryRest(e, min_bp), st);
        reveal(applied);
        reveal(binary_rest_rule);
    }
}

proof fn operator_joins(
    t: Seq<TokenV>,
    lhs: ExprV,
    min_bp: u8,
    i: int,
    op: BinOp,
    bp: u8,
    k: int,
    rhs: ExprV,
    j: int,
    v: ExprV,
)
    requires
        0 <= i < t.len() - 1,
        t[i].kind != Tok::Ident,
        binding(t[i].kind) == Some((op, bp)),
        min_bp <= bp < 255,
        reads(t, Rule::Binary((bp + 1) as u8), i + 1, k, Read::Expr(rhs)),
        joins(t, operation(op, lhs, rhs), min_bp, k, j, v),
    ensures
        joins(t, lhs, min_bp, i, j, v),
{
    reveal(joins);
    reveal(reads);
    assert forall|st: Place| is_at(st, i) implies is_at(
        (#[trigger] read(t, Rule::BinaryRest(lhs, min_bp), st)).1,
        j,
    ) && read(t, Rule::BinaryRest(lhs, min_bp), st).0 == Read::Expr(v) by {
        by_the_rule(t, Rule::BinaryRest(lhs, min_bp), st);
        reveal(applied);
        reveal(binary_rest_rule);
    }
}

proof fn instanceof_joins(t: Seq<TokenV>, e: ExprV, i: int, j: int, v: ExprV)
    requires
        0 <= i < t.len() - 2,
        t[i].kind == Tok::Ident,
        t[i].text == "instanceof"@,
        t[i + 1].kind == Tok::Ident,
        joins(t, ExprV::InstanceOf { expr: Box::new(e), class: t[i + 1].text }, 0, i + 2, j, v),
    ensures
        joins(t, e, 0, i, j, v),
{
    reveal(joins);
    assert forall|st: Place| is_at(st, i) implies is_at(
        (#[trigger] read(t, Rule::BinaryRest(e, 0), st)).1,
        j,
    ) && read(t, Rule::BinaryRest(e, 0), st).0 == Read::Expr(v) by {
        by_the_rule(t, Rule::BinaryRest(e, 0), st);
        reveal(applied);
        reveal(binary_rest_rule);
    }
}

proof fn binary_of(t: Seq<TokenV>, min_bp: u8, i: int, k: int, e: ExprV, j: int, v: ExprV)
    requires
        reads(t, Rule::Unary, i, k, Read::Expr(e)),
        joins(t, e, min_bp, k, j, v),
    ensures
        reads(t, Rule::Binary(min_bp), i, j, Read::Expr(v)),
{
    reveal(joins);
    reveal(reads);
    assert forall|st: Place| is_at(st, i) implies is_at(
        (#[trigger] read(t, Rule::Binary(min_bp), st)).1,
        j,
    ) && read(t, Rule::Binary(min_bp), st).0 == Read::Expr(v) by {
        by_the_rule(t, Rule::Binary(min_bp), st);
        reveal(applied);
        reveal(binary_rule);
    }
}

proof fn expression_of(t: Seq<TokenV>, i: int, j: int, e: ExprV)
    requires
        reads(t, Rule::Binary(0), i, j, Read::Expr(e)),
        no_arrows(t, i),
        t[j].kind != Tok::Question,
    ensures
        reads(t, Rule::Expression, i, j, Read::Expr(e)),
{
    reveal(reads);
    lemma_bracket_ahead(t, i, 0);
    assert(!lambda_ahead(t, i));
    assert(kind_at(t, i + 1) != Tok::Arrow);
    assert forall|st: Place| is_at(st, i) implies is_at(
        (#[trigger] read(t, Rule::Expression, st)).1,
        j,
    ) && read(t, Rule::Expression, st).0 == Read::Expr(e) by {
        by_the_rule(t, Rule::Expression, st);
        reveal(applied);
        reveal(expression_rule);
    }
}

proof fn conditional_of(
    t: Seq<TokenV>,
    i: int,
    k: int,
    cond: ExprV,
    m: int,
    yes: ExprV,
    j: int,
    no: ExprV,
)
    requires
        reads(t, Rule::Binary(0), i, k, Read::Expr(cond)),
        no_arrows(t, i),
        k < t.len() - 1,
        t[k].kind == Tok::Question,
        reads(t, Rule::Expression, k + 1, m, Read::Expr(yes)),
        m < t.len() - 1,
        t[m].kind == Tok::Colon,
        reads(t, Rule::Expression, m + 1, j, Read::Expr(no)),
    ensures
        reads(
            t,
            Rule::Expression,
            i,
            j,
            Read::Expr(
                conditional(cond, yes, no),
            ),
        ),
{
    reveal(reads);
    lemma_bracket_ahead(t, i, 0);
    assert(!lambda_ahead(t, i));
    assert(kind_at(t, i + 1) != Tok::Arrow);
    assert forall|st: Place| is_at(st, i) implies is_at(
        (#[trigger] read(t, Rule::Expression, st)).1,
        j,
    ) && read(t, Rule::Expression, st).0 == Read::Expr(
        conditional(cond, yes, no),
    ) by {
        by_the_rule(t, Rule::Expression, st);
        reveal(applied);
        reveal(expression_rule);
    }
}

// ── Reading what is written ─────────────────────────────────────────────────

/// Whether a token ends an expression.
pub open spec fn ends_expression(k: Tok) -> bool {
    k == Tok::RParen || k == Tok::RBracket || k == Tok::Comma || k == Tok::Semi || k == Tok::Colon
        || k == Tok::RBrace || assigning(k) is Some
}

/// Whether a token can stand behind an operand: one that starts no operand.
pub open spec fn behind_operand(t: Seq<TokenV>, j: int) -> bool {
    !operand_ahead(t, j) && kind_at(t, j) != Tok::PlusPlus && kind_at(t, j) != Tok::MinusMinus
}

/// An expression that is read as an operand, and ends there, is an expression.
proof fn lemma_alone(t: Seq<TokenV>, i: int, j: int, e: ExprV)
    requires
        reads(t, Rule::Unary, i, j, Read::Expr(e)),
        no_arrows(t, i),
        j < t.len(),
        ends_expression(t[j].kind),
    ensures
        reads(t, Rule::Expression, i, j, Read::Expr(e)),
{
    assert(reads(t, Rule::Unary, i, j, Read::Expr(e)) ==> 0 <= i < j) by {
        reveal(reads);
    }
    operators_end(t, e, 0, j);
    binary_of(t, 0, i, j, e, j, e);
    expression_of(t, i, j, e);
}

/// Brackets around something that is written are no cast.
proof fn lemma_no_cast(t: Seq<TokenV>, i: int, e: ExprV, l: u32)
    requires
        literal_token(e, l) is None,
        can_write(e, l),
        holds(t, i, operand(e, l)),
        behind_operand(t, i + operand(e, l).len()),
    ensures
        cast_ahead(t, i) is None,
{
    let w = spelled_out(e, l);
    let all = seq![on(Tok::LParen, l)] + w + seq![on(Tok::RParen, l)];
    assert(t[i + 0] == all[0]);
    lemma_starts(e, l);
    assert(t[i + 1] == all[1] && all[1] == w[0]);
    if w[0].kind == Tok::Ident {
        if w.len() == 1 {
            assert(t[i + 2] == all[2]);
            lemma_this_is_no_type();
        } else {
            assert(t[i + 2] == all[2] && all[2] == w[1]);
            if e is Println {
                assert(t[i + 3] == all[3] && all[3] == w[2]);
                assert(t[i + 4] == all[4] && all[4] == w[3]);
                assert(t[i + 5] == all[5] && all[5] == w[4]);
                assert(t[i + 6] == all[6] && all[6] == w[5]);
                let name = t[i + 1].text;
                assert(qualified(t, i + 6, t[i + 5].text) == Some((t[i + 5].text, i + 6)));
                assert(qualified(t, i + 4, t[i + 3].text) == Some((t[i + 5].text, i + 6)));
                assert(qualified(t, i + 2, name) == Some((t[i + 5].text, i + 6)));
            }
        }
    }
}

proof fn lemma_this_is_no_type()
    ensures
        !names_primitive("this"@),
{
    reveal_strlit("this");
    reveal_strlit("int");
    reveal_strlit("long");
    reveal_strlit("short");
    reveal_strlit("byte");
    reveal_strlit("char");
    reveal_strlit("float");
    reveal_strlit("double");
    reveal_strlit("boolean");
    assert("this"@.len() == 4 && "this"@[0] == 't');
    assert("long"@[0] == 'l' && "byte"@[0] == 'b' && "char"@[0] == 'c');
    assert("int"@.len() == 3 && "short"@.len() == 5 && "float"@.len() == 5);
    assert("double"@.len() == 6 && "boolean"@.len() == 7);
}

pub proof fn lemma_print_names()
    ensures
        is_plain_word("System"@),
        "System"@ != "catch"@,
        "System"@ != "finally"@,
{
    reveal_strlit("System");
    reveal_strlit("try");
    reveal_strlit("yield");
    reveal_strlit("throw");
    reveal_strlit("synchronized");
    reveal_strlit("final");
    reveal_strlit("catch");
    reveal_strlit("finally");
    assert("catch"@.len() == 5 && "finally"@.len() == 7);
    assert("System"@.len() == 6 && "try"@.len() == 3 && "yield"@.len() == 5);
    assert("throw"@.len() == 5 && "synchronized"@.len() == 12 && "final"@.len() == 5);
}

/// What an expression that is written starts with.
pub proof fn lemma_starts(e: ExprV, l: u32)
    requires
        can_write(e, l),
    ensures
        spelled_out(e, l).len() > 0,
        operand(e, l).len() > 0,
        operand(e, l)[0].kind == Tok::LParen || literal_token(e, l) == Some(operand(e, l)[0]),
        spelled_out(e, l)[0].kind != Tok::RParen && spelled_out(e, l)[0].kind != Tok::RBrace && spelled_out(
            e,
            l,
        )[0].kind != Tok::Semi && spelled_out(e, l)[0].kind != Tok::LBrace && spelled_out(e, l)[0].kind
            != Tok::Colon && spelled_out(e, l)[0].kind != Tok::RBracket,
        spelled_out(e, l)[0].kind == Tok::Ident ==> spelled_out(e, l).len() == 1 && (is_name(
            spelled_out(e, l)[0].text,
        ) || spelled_out(e, l)[0].text == "this"@) || spelled_out(e, l).len() > 1 && (spelled_out(
            e,
            l,
        )[1].kind == Tok::LParen || spelled_out(e, l)[1].kind == Tok::PlusPlus || spelled_out(
            e,
            l,
        )[1].kind == Tok::MinusMinus) && is_name(spelled_out(e, l)[0].text) || e is Println
            && spelled_out(e, l).len() > 6 && spelled_out(e, l)[1].kind == Tok::Dot
            && spelled_out(e, l)[2].kind == Tok::Ident && spelled_out(e, l)[3].kind == Tok::Dot
            && spelled_out(e, l)[4].kind == Tok::Ident && spelled_out(e, l)[5].kind == Tok::LParen
            && is_plain_word(spelled_out(e, l)[0].text),
    decreases e,
{
    match e {
        ExprV::Unary { op, rhs } => {},
        ExprV::Binary { op, lhs, rhs } => {
            lemma_starts(*lhs, l);
            assert(spelled_out(e, l)[0] == operand(*lhs, l)[0]);
        },
        ExprV::Ternary { cond, yes, no } => {
            lemma_starts(*cond, l);
            assert(spelled_out(e, l)[0] == operand(*cond, l)[0]);
        },
        ExprV::Index { array, index } => {
            lemma_starts(*array, l);
            assert(spelled_out(e, l)[0] == operand(*array, l)[0]);
        },
        ExprV::Field { recv, name } => {
            lemma_starts(*recv, l);
            assert(spelled_out(e, l)[0] == operand(*recv, l)[0]);
        },
        ExprV::MethodCall { recv, method, args, line } => {
            lemma_starts(*recv, l);
            assert(spelled_out(e, l)[0] == operand(*recv, l)[0]);
        },
        ExprV::NewArray { elem_ty, sizes, extra_dims } => {
            assert(spelled_out(e, l)[0] == on(Tok::New, l));
        },
        ExprV::MethodRef { recv, method, line } => {
            lemma_starts(*recv, l);
            assert(spelled_out(e, l)[0] == operand(*recv, l)[0]);
        },
        ExprV::Println { newline, err, arg } => {
            assert(spelled_out(e, l)[0] == word("System"@, l));
            assert(spelled_out(e, l)[1] == on(Tok::Dot, l));
            lemma_print_names();
        },
        ExprV::InstanceOf { expr, class } => {
            lemma_starts(*expr, l);
            assert(spelled_out(e, l)[0] == operand(*expr, l)[0]);
        },
        ExprV::Call { name, args, line } => {
            assert(spelled_out(e, l)[0] == word(name, l));
            assert(spelled_out(e, l)[1] == on(Tok::LParen, l));
        },
        ExprV::NewObject { class, args, line } => {
            assert(spelled_out(e, l)[0] == on(Tok::New, l));
        },
        ExprV::Cast { ty, expr, line } => {
            assert(spelled_out(e, l)[0] == on(Tok::LParen, l));
        },
        _ => {},
    }
}

/// An operand is read as a primary.
proof fn lemma_primary(t: Seq<TokenV>, i: int, e: ExprV, l: u32)
    requires
        can_write(e, l),
        no_arrows(t, i),
        holds(t, i, operand(e, l)),
    ensures
        reads(t, Rule::Primary, i, i + operand(e, l).len(), Read::Expr(e)),
        operand(e, l).len() > 0,
    decreases e, 2int,
{
    lemma_starts(e, l);
    match literal_token(e, l) {
        Some(x) => {
            assert(operand(e, l)[0] == x);
            assert(t[i + 0] == x);
            primary_literal(t, i, e, l);
        },
        None => {
            let w = spelled_out(e, l);
            let head = seq![on(Tok::LParen, l)];
            let tail = seq![on(Tok::RParen, l)];
            lemma_holds_both(t, i, head + w, tail);
            lemma_holds_both(t, i, head, w);
            assert(t[i + 0] == head[0]);
            assert(t[i + 1 + w.len() + 0] == tail[0]);
            written_is_read(t, i + 1, e, l);
            primary_in_brackets(t, i, i + 1 + w.len(), e);
        },
    }
}

/// An operand with nothing chained to it is read as one.
proof fn lemma_operand(t: Seq<TokenV>, i: int, e: ExprV, l: u32)
    requires
        can_write(e, l),
        no_arrows(t, i),
        holds(t, i, operand(e, l)),
        behind_operand(t, i + operand(e, l).len()),
        unchained(t[i + operand(e, l).len()].kind),
    ensures
        reads(t, Rule::Unary, i, i + operand(e, l).len(), Read::Expr(e)),
    decreases e, 3int,
{
    lemma_starts(e, l);
    lemma_primary(t, i, e, l);
    let j = i + operand(e, l).len();
    chain_ends(t, e, j);
    lemma_operand_start(t, i, e, l);
    unary_of_primary(t, i, j, e, j, e);
}

/// What an operand starts with is no prefix and no cast.
proof fn lemma_operand_start(t: Seq<TokenV>, i: int, e: ExprV, l: u32)
    requires
        can_write(e, l),
        holds(t, i, operand(e, l)),
        behind_operand(t, i + operand(e, l).len()),
    ensures
        cast_ahead(t, i) is None,
        t[i].kind != Tok::Minus && t[i].kind != Tok::Plus && t[i].kind != Tok::Not && t[i].kind
            != Tok::Tilde && t[i].kind != Tok::PlusPlus && t[i].kind != Tok::MinusMinus,
{
    lemma_starts(e, l);
    assert(t[i + 0] == operand(e, l)[0]);
    if literal_token(e, l) is None {
        lemma_no_cast(t, i, e, l);
    }
}

/// Arguments are read as such.
proof fn lemma_arguments(t: Seq<TokenV>, i: int, args: Seq<ExprV>, l: u32)
    requires
        can_write_all(args, l),
        no_arrows(t, i),
        holds(t, i, seq![on(Tok::LParen, l)] + (separated(args, l) + seq![on(Tok::RParen, l)])),
    ensures
        reads(t, Rule::CallArgs, i, i + separated(args, l).len() + 2, Read::Exprs(args)),
    decreases args, 3int,
{
    let head = seq![on(Tok::LParen, l)];
    let tail = seq![on(Tok::RParen, l)];
    let w = separated(args, l);
    lemma_holds_both(t, i, head, w + tail);
    lemma_holds_both(t, i + 1, w, tail);
    assert(t[i + 0] == head[0]);
    assert(t[i + 1 + w.len() + 0] == tail[0]);
    if args.len() == 0 {
        no_arguments(t, i);
        assert(args =~= seq![]);
    } else {
        lemma_starts(args[0], l);
        assert(w[0] == spelled_out(args[0], l)[0]);
        assert(t[i + 1 + 0] == w[0]);
        lemma_more_arguments(t, i + 1, seq![], args, l);
        assert(Seq::<ExprV>::empty() + args =~= args);
        some_arguments(t, i, i + w.len() + 2, args);
    }
}

proof fn lemma_more_arguments(t: Seq<TokenV>, i: int, out: Seq<ExprV>, args: Seq<ExprV>, l: u32)
    requires
        args.len() > 0,
        can_write_all(args, l),
        no_arrows(t, i),
        holds(t, i, separated(args, l)),
        t[i + separated(args, l).len()].kind == Tok::RParen,
        i + separated(args, l).len() < t.len() - 1,
    ensures
        completes(t, out, i, i + separated(args, l).len() + 1, out + args),
    decreases args, 2int,
{
    let w = spelled_out(args[0], l);
    assert(can_write(args[0], l));
    if args.len() == 1 {
        written_is_read(t, i, args[0], l);
        last_argument(t, out, i, i + w.len(), args[0]);
        assert(out.push(args[0]) =~= out + args);
    } else {
        let rest = args.subrange(1, args.len() as int);
        let comma = seq![on(Tok::Comma, l)];
        assert(separated(args, l) == w + (comma + separated(rest, l)));
        lemma_holds_both(t, i, w, comma + separated(rest, l));
        lemma_holds_both(t, i + w.len(), comma, separated(rest, l));
        assert(t[i + w.len() + 0] == comma[0]);
        assert forall|k: int| 0 <= k < rest.len() implies can_write(#[trigger] rest[k], l) by {
            assert(can_write(args[k + 1], l));
        }
        written_is_read(t, i, args[0], l);
        let k = i + w.len();
        lemma_more_arguments(t, k + 1, out.push(args[0]), rest, l);
        assert(out.push(args[0]) + rest =~= out + args);
        next_argument(
            t,
            out,
            i,
            k,
            args[0],
            i + separated(args, l).len() + 1,
            out + args,
        );
    }
}

/// An expression that is written out is read back as it is.
#[verifier::rlimit(80)]
pub proof fn written_is_read(t: Seq<TokenV>, i: int, e: ExprV, l: u32)
    requires
        can_write(e, l),
        no_arrows(t, i),
        holds(t, i, spelled_out(e, l)),
        ends_expression(t[i + spelled_out(e, l).len()].kind),
    ensures
        reads(t, Rule::Expression, i, i + spelled_out(e, l).len(), Read::Expr(e)),
    decreases e, 1int,
{
    let w = spelled_out(e, l);
    let j = i + w.len();
    lemma_starts(e, l);
    assert(t[i + 0] == w[0]);
    match e {
        ExprV::Var(name) => {
            primary_variable(t, i);
            chain_ends(t, e, j);
            unary_of_primary(t, i, j, e, j, e);
            lemma_alone(t, i, j, e);
        },
        ExprV::This => {
            primary_this(t, i);
            chain_ends(t, e, j);
            unary_of_primary(t, i, j, e, j, e);
            lemma_alone(t, i, j, e);
        },
        ExprV::Unary { op, rhs } => {
            lemma_holds_both(t, i, seq![on(prefix_for(op), l)], operand(*rhs, l));
            lemma_operand(t, i + 1, *rhs, l);
            prefix_operator(t, i, op, j, *rhs);
            lemma_alone(t, i, j, e);
        },
        ExprV::Binary { op, lhs, rhs } => {
            lemma_binary(t, i, e, op, *lhs, *rhs, l);
        },
        ExprV::Ternary { cond, yes, no } => {
            lemma_ternary(t, i, e, *cond, *yes, *no, l);
        },
        ExprV::Index { array, index } => {
            let open = seq![on(Tok::LBracket, l)];
            let close = seq![on(Tok::RBracket, l)];
            let a = operand(*array, l);
            let b = spelled_out(*index, l);
            lemma_holds_both(t, i, a, open + (b + close));
            let k = i + a.len();
            lemma_holds_both(t, k, open, b + close);
            lemma_holds_both(t, k + 1, b, close);
            assert(t[k + 0] == open[0]);
            assert(t[k + 1 + b.len() + 0] == close[0]);
            lemma_primary(t, i, *array, l);
            lemma_operand_start(t, i, *array, l);
            written_is_read(t, k + 1, *index, l);
            chain_ends(t, e, j);
            chain_index(t, *array, k, k + 1 + b.len(), *index, j, e);
            unary_of_primary(t, i, k, *array, j, e);
            lemma_alone(t, i, j, e);
        },
        ExprV::Field { recv, name } => {
            let a = operand(*recv, l);
            let tail = seq![on(Tok::Dot, l), word(name, l)];
            lemma_holds_both(t, i, a, tail);
            let k = i + a.len();
            assert(t[k + 0] == tail[0] && t[k + 1] == tail[1]);
            lemma_primary(t, i, *recv, l);
            lemma_operand_start(t, i, *recv, l);
            chain_ends(t, e, j);
            chain_field(t, *recv, k, j, e);
            unary_of_primary(t, i, k, *recv, j, e);
            lemma_alone(t, i, j, e);
        },
        ExprV::MethodCall { recv, method, args, line } => {
            let a = operand(*recv, l);
            let dot = seq![on(Tok::Dot, l), word(method, l)];
            let open = seq![on(Tok::LParen, l)];
            let close = seq![on(Tok::RParen, l)];
            let b = separated(args, l);
            assert(seq![on(Tok::Dot, l), word(method, l), on(Tok::LParen, l)] + (b + close)
                =~= dot + (open + (b + close)));
            lemma_holds_both(t, i, a, dot + (open + (b + close)));
            let k = i + a.len();
            lemma_holds_both(t, k, dot, open + (b + close));
            assert(t[k + 0] == dot[0] && t[k + 1] == dot[1]);
            assert(t[k + 2 + 0] == (open + (b + close))[0]);
            lemma_primary(t, i, *recv, l);
            lemma_operand_start(t, i, *recv, l);
            lemma_arguments(t, k + 2, args, l);
            chain_ends(t, e, j);
            chain_call(t, *recv, k, j, args, j, e);
            unary_of_primary(t, i, k, *recv, j, e);
            lemma_alone(t, i, j, e);
        },
        ExprV::Call { name, args, line } => {
            let open = seq![on(Tok::LParen, l)];
            let close = seq![on(Tok::RParen, l)];
            let b = separated(args, l);
            assert(w =~= seq![word(name, l)] + (open + (b + close)));
            lemma_holds_both(t, i, seq![word(name, l)], open + (b + close));
            assert(t[i + 1 + 0] == (open + (b + close))[0]);
            lemma_arguments(t, i + 1, args, l);
            primary_call(t, i, j, args);
            chain_ends(t, e, j);
            unary_of_primary(t, i, j, e, j, e);
            lemma_alone(t, i, j, e);
        },
        ExprV::NewObject { class, args, line } => {
            let head = seq![on(Tok::New, l), word(class, l)];
            let open = seq![on(Tok::LParen, l)];
            let close = seq![on(Tok::RParen, l)];
            let b = separated(args, l);
            assert(w =~= head + (open + (b + close)));
            lemma_holds_both(t, i, head, open + (b + close));
            assert(t[i + 0] == head[0] && t[i + 1] == head[1]);
            assert(t[i + 2 + 0] == (open + (b + close))[0]);
            lemma_arguments(t, i + 2, args, l);
            primary_new(t, i, j, args);
            chain_ends(t, e, j);
            unary_of_primary(t, i, j, e, j, e);
            lemma_alone(t, i, j, e);
        },
        ExprV::NewArray { elem_ty, sizes, extra_dims } => {
            lemma_new_array(t, i, e, l);
        },
        ExprV::MethodRef { recv, method, line } => {
            let a = operand(*recv, l);
            let tail = seq![on(Tok::ColonColon, l), word(method, l)];
            lemma_holds_both(t, i, a, tail);
            let k = i + a.len();
            assert(t[k + 0] == tail[0] && t[k + 1] == tail[1]);
            lemma_primary(t, i, *recv, l);
            lemma_operand_start(t, i, *recv, l);
            chain_ends(t, e, j);
            chain_reference(t, *recv, k, j, e);
            unary_of_primary(t, i, k, *recv, j, e);
            lemma_alone(t, i, j, e);
        },
        ExprV::Println { newline, err, arg } => {
            lemma_print(t, i, e, l);
        },
        ExprV::InstanceOf { expr, class } => {
            let a = operand(*expr, l);
            let tail = seq![word("instanceof"@, l), word(class, l)];
            lemma_holds_both(t, i, a, tail);
            let k = i + a.len();
            assert(t[k + 0] == tail[0] && t[k + 1] == tail[1]);
            lemma_operand(t, i, *expr, l);
            operators_end(t, e, 0, j);
            instanceof_joins(t, *expr, k, j, e);
            binary_of(t, 0, i, k, *expr, j, e);
            expression_of(t, i, j, e);
        },
        ExprV::Cast { ty, expr, line } => {
            let head = seq![on(Tok::LParen, l), word(ty, l), on(Tok::RParen, l)];
            let a = operand(*expr, l);
            lemma_holds_both(t, i, head, a);
            assert(t[i + 0] == head[0] && t[i + 1] == head[1] && t[i + 2] == head[2]);
            lemma_starts(*expr, l);
            assert(t[i + 3 + 0] == a[0]);
            lemma_operand(t, i + 3, *expr, l);
            cast_operator(t, i, j, *expr);
            lemma_alone(t, i, j, e);
        },
        ExprV::PostIncDec { name, inc } => {
            assert(t[i + 1] == w[1]);
            primary_update(t, i, inc);
            chain_ends(t, e, j);
            unary_of_primary(t, i, j, e, j, e);
            lemma_alone(t, i, j, e);
        },
        ExprV::PreIncDec { name, inc } => {
            assert(t[i + 1] == w[1]);
            prefix_update(t, i, inc);
            lemma_alone(t, i, j, e);
        },
        _ => {
            primary_literal(t, i, e, l);
            chain_ends(t, e, j);
            unary_of_primary(t, i, j, e, j, e);
            lemma_alone(t, i, j, e);
        },
    }
}

proof fn lemma_new_array(t: Seq<TokenV>, i: int, e: ExprV, l: u32)
    requires
        e is NewArray,
        can_write(e, l),
        no_arrows(t, i),
        holds(t, i, spelled_out(e, l)),
        ends_expression(t[i + spelled_out(e, l).len()].kind),
    ensures
        reads(t, Rule::Expression, i, i + spelled_out(e, l).len(), Read::Expr(e)),
    decreases e, 0int,
{
    if let ExprV::NewArray { elem_ty, sizes, extra_dims } = e {
        let j = i + spelled_out(e, l).len();
        let head = seq![on(Tok::New, l), word(elem_ty, l), on(Tok::LBracket, l)];
        let close = seq![on(Tok::RBracket, l)];
        let b = spelled_out(sizes[0], l);
        assert(separated(sizes, l) == b);
        assert(can_write_all(sizes, l));
        assert(can_write(sizes[0], l));
        lemma_holds_both(t, i, head, b + close);
        lemma_holds_both(t, i + 3, b, close);
        let k = i + 3 + b.len();
        assert(t[i + 0] == head[0] && t[i + 1] == head[1] && t[i + 2] == head[2]);
        assert(t[k + 0] == close[0]);
        lemma_starts(sizes[0], l);
        assert(t[i + 3 + 0] == b[0]);
        assert(decreases_to!(e => sizes));
        assert(decreases_to!(sizes => sizes[0]));
        written_is_read(t, i + 3, sizes[0], l);
        primary_array(t, i, k, sizes[0]);
        assert(sizes =~= seq![sizes[0]]);
        chain_ends(t, e, j);
        unary_of_primary(t, i, j, e, j, e);
        lemma_alone(t, i, j, e);
    }
}

proof fn lemma_print(t: Seq<TokenV>, i: int, e: ExprV, l: u32)
    requires
        e is Println,
        can_write(e, l),
        no_arrows(t, i),
        holds(t, i, spelled_out(e, l)),
        ends_expression(t[i + spelled_out(e, l).len()].kind),
    ensures
        reads(t, Rule::Expression, i, i + spelled_out(e, l).len(), Read::Expr(e)),
    decreases e, 0int,
{
    if let ExprV::Println { newline, err, arg } = e {
        let j = i + spelled_out(e, l).len();
        let head = print_head(newline, err, l);
        let close = seq![on(Tok::RParen, l)];
        match arg {
            Some(x) => {
                let b = spelled_out(*x, l);
                lemma_holds_both(t, i, head, b + close);
                lemma_holds_both(t, i + 6, b, close);
                assert(t[i + 0] == head[0]);
                assert(t[i + 6 + b.len() + 0] == close[0]);
                lemma_starts(*x, l);
                assert(t[i + 6 + 0] == b[0]);
                written_is_read(t, i + 6, *x, l);
                primary_print(t, i, i + 6 + b.len(), newline, err, Some(*x), l);
            },
            None => {
                lemma_holds_both(t, i, head, close);
                assert(t[i + 0] == head[0]);
                assert(t[i + 6 + 0] == close[0]);
                primary_print(t, i, i + 6, newline, err, None, l);
            },
        }
        chain_ends(t, e, j);
        unary_of_primary(t, i, j, e, j, e);
        lemma_alone(t, i, j, e);
    }
}

/// How tightly a binary operator binds, from the loosest on.
pub open spec fn level_of(op: BinOp) -> int {
    match op {
        BinOp::Or => 1,
        BinOp::And => 2,
        BinOp::BitOr => 3,
        BinOp::BitXor => 4,
        BinOp::BitAnd => 5,
        BinOp::Eq => 6,
        BinOp::Ne => 6,
        BinOp::Lt => 7,
        BinOp::Gt => 7,
        BinOp::Le => 7,
        BinOp::Ge => 7,
        BinOp::Shl => 8,
        BinOp::Shr => 8,
        BinOp::Ushr => 8,
        BinOp::Add => 9,
        BinOp::Sub => 9,
        BinOp::Mul => 10,
        BinOp::Div => 10,
        BinOp::Mod => 10,
    }
}

proof fn lemma_binary(
    t: Seq<TokenV>,
    i: int,
    e: ExprV,
    op: BinOp,
    lhs: ExprV,
    rhs: ExprV,
    l: u32,
)
    requires
        e == operation(op, lhs, rhs),
        can_write(lhs, l),
        can_write(rhs, l),
        no_arrows(t, i),
        holds(t, i, operand(lhs, l) + (seq![on(sign_for(op), l)] + operand(rhs, l))),
        ends_expression(t[i + operand(lhs, l).len() + 1 + operand(rhs, l).len()].kind),
    ensures
        reads(
            t,
            Rule::Expression,
            i,
            i + operand(lhs, l).len() + 1 + operand(rhs, l).len(),
            Read::Expr(operation(op, lhs, rhs)),
        ),
    decreases e, 0int,
{
    assert(decreases_to!(e => lhs)) by {
        assert(e is Binary);
        assert(decreases_to!(e => e->lhs));
        assert(*e->lhs == lhs);
    }
    assert(decreases_to!(e => rhs)) by {
        assert(decreases_to!(e => e->Binary_rhs));
    }
    let a = operand(lhs, l);
    let b = operand(rhs, l);
    let mid = seq![on(sign_for(op), l)];
    lemma_holds_both(t, i, a, mid + b);
    let k = i + a.len();
    lemma_holds_both(t, k, mid, b);
    assert(t[k + 0] == mid[0]);
    let j = k + 1 + b.len();
    lemma_operand(t, i, lhs, l);
    lemma_operand(t, k + 1, rhs, l);
    let bp = binding(sign_for(op))->Some_0.1;
    assert(binding(sign_for(op)) == Some((op, bp)));
    operators_end(t, rhs, (bp + 1) as u8, j);
    binary_of(t, (bp + 1) as u8, k + 1, j, rhs, j, rhs);
    operators_end(t, e, 0, j);
    operator_joins(t, lhs, 0, k, op, bp, j, rhs, j, e);
    binary_of(t, 0, i, k, lhs, j, e);
    expression_of(t, i, j, e);
}

proof fn lemma_ternary(
    t: Seq<TokenV>,
    i: int,
    e: ExprV,
    cond: ExprV,
    yes: ExprV,
    no: ExprV,
    l: u32,
)
    requires
        e == conditional(cond, yes, no),
        can_write(cond, l),
        can_write(yes, l),
        can_write(no, l),
        no_arrows(t, i),
        holds(
            t,
            i,
            operand(cond, l) + (seq![on(Tok::Question, l)] + (operand(yes, l) + (seq![
                on(Tok::Colon, l),
            ] + operand(no, l)))),
        ),
        ends_expression(
            t[i + operand(cond, l).len() + 1 + operand(yes, l).len() + 1 + operand(
                no,
                l,
            ).len()].kind,
        ),
    ensures
        reads(
            t,
            Rule::Expression,
            i,
            i + operand(cond, l).len() + 1 + operand(yes, l).len() + 1 + operand(no, l).len(),
            Read::Expr(
                conditional(cond, yes, no),
            ),
        ),
    decreases e, 0int,
{
    assert(decreases_to!(e => e->cond));
    assert(decreases_to!(e => e->yes));
    assert(decreases_to!(e => e->no));
    let a = operand(cond, l);
    let b = operand(yes, l);
    let c = operand(no, l);
    let ask = seq![on(Tok::Question, l)];
    let or = seq![on(Tok::Colon, l)];
    lemma_holds_both(t, i, a, ask + (b + (or + c)));
    let k = i + a.len();
    lemma_holds_both(t, k, ask, b + (or + c));
    lemma_holds_both(t, k + 1, b, or + c);
    let m = k + 1 + b.len();
    lemma_holds_both(t, m, or, c);
    assert(t[k + 0] == ask[0]);
    assert(t[m + 0] == or[0]);
    let j = m + 1 + c.len();
    lemma_operand(t, i, cond, l);
    operators_end(t, cond, 0, k);
    binary_of(t, 0, i, k, cond, k, cond);
    lemma_operand(t, k + 1, yes, l);
    lemma_alone(t, k + 1, m, yes);
    lemma_operand(t, m + 1, no, l);
    lemma_alone(t, m + 1, j, no);
    conditional_of(t, i, k, cond, m, yes, j, no);
}

/// Three operands with two operators between them: the operator that binds tighter
/// takes its operands first, and of two that bind alike the first does.
pub proof fn tighter_operators_come_first(
    t: Seq<TokenV>,
    i: int,
    a: ExprV,
    op: BinOp,
    b: ExprV,
    next: BinOp,
    c: ExprV,
    l: u32,
)
    requires
        can_write(a, l),
        can_write(b, l),
        can_write(c, l),
        no_arrows(t, i),
        holds(
            t,
            i,
            operand(a, l) + (seq![on(sign_for(op), l)] + (operand(b, l) + (seq![
                on(sign_for(next), l),
            ] + operand(c, l)))),
        ),
        ends_expression(
            t[i + operand(a, l).len() + 1 + operand(b, l).len() + 1 + operand(c, l).len()].kind,
        ),
    ensures
        reads(
            t,
            Rule::Expression,
            i,
            i + operand(a, l).len() + 1 + operand(b, l).len() + 1 + operand(c, l).len(),
            Read::Expr(
                if level_of(op) >= level_of(next) {
                    operation(next, operation(op, a, b), c)
                } else {
                    operation(op, a, operation(next, b, c))
                },
            ),
        ),
{
    let x = operand(a, l);
    let y = operand(b, l);
    let z = operand(c, l);
    let m1 = seq![on(sign_for(op), l)];
    let m2 = seq![on(sign_for(next), l)];
    lemma_holds_both(t, i, x, m1 + (y + (m2 + z)));
    let k = i + x.len();
    lemma_holds_both(t, k, m1, y + (m2 + z));
    lemma_holds_both(t, k + 1, y, m2 + z);
    let m = k + 1 + y.len();
    lemma_holds_both(t, m, m2, z);
    assert(t[k + 0] == m1[0]);
    assert(t[m + 0] == m2[0]);
    let j = m + 1 + z.len();
    lemma_operand(t, i, a, l);
    lemma_operand(t, k + 1, b, l);
    lemma_operand(t, m + 1, c, l);
    let p = binding(sign_for(op))->Some_0.1;
    let q = binding(sign_for(next))->Some_0.1;
    assert(binding(sign_for(op)) == Some((op, p)));
    assert(binding(sign_for(next)) == Some((next, q)));
    assert(p >= q <==> level_of(op) >= level_of(next));
    let ab = operation(op, a, b);
    let bc = operation(next, b, c);
    operators_end(t, c, (q + 1) as u8, j);
    binary_of(t, (q + 1) as u8, m + 1, j, c, j, c);
    if p >= q {
        let e = operation(next, ab, c);
        operators_end(t, b, (p + 1) as u8, m);
        binary_of(t, (p + 1) as u8, k + 1, m, b, m, b);
        operators_end(t, e, 0, j);
        operator_joins(t, ab, 0, m, next, q, j, c, j, e);
        operator_joins(t, a, 0, k, op, p, m, b, j, e);
        binary_of(t, 0, i, k, a, j, e);
        expression_of(t, i, j, e);
    } else {
        let e = operation(op, a, bc);
        operators_end(t, bc, (p + 1) as u8, j);
        operator_joins(t, b, (p + 1) as u8, m, next, q, j, c, j, bc);
        binary_of(t, (p + 1) as u8, k + 1, m, b, j, bc);
        operators_end(t, e, 0, j);
        operator_joins(t, a, 0, k, op, p, j, bc, j, e);
        binary_of(t, 0, i, k, a, j, e);
        expression_of(t, i, j, e);
    }
}

/// An operand in front of a colon is read as a label.
pub proof fn label_is_read(t: Seq<TokenV>, i: int, e: ExprV, l: u32)
    requires
        can_write(e, l),
        no_arrows(t, i),
        holds(t, i, operand(e, l)),
        t[i + operand(e, l).len()].kind == Tok::Colon,
    ensures
        reads(t, Rule::Binary(0), i, i + operand(e, l).len(), Read::Expr(e)),
{
    let j = i + operand(e, l).len();
    lemma_operand(t, i, e, l);
    operators_end(t, e, 0, j);
    binary_of(t, 0, i, j, e, j, e);
}

// ── Lambdas ─────────────────────────────────────────────────────────────────

proof fn body_of_expression(t: Seq<TokenV>, i: int, j: int, e: ExprV)
    requires
        reads(t, Rule::Expression, i, j, Read::Expr(e)),
        t[i].kind != Tok::LBrace,
    ensures
        reads(t, Rule::LambdaBody, i, j, Read::Lambda(LambdaBodyV::Expr(Box::new(e)))),
{
    reveal(reads);
    assert forall|st: Place| is_at(st, i) implies is_at(
        (#[trigger] read(t, Rule::LambdaBody, st)).1,
        j,
    ) && read(t, Rule::LambdaBody, st).0 == Read::Lambda(LambdaBodyV::Expr(Box::new(e))) by {
        by_the_rule(t, Rule::LambdaBody, st);
        reveal(applied);
        reveal(lambda_body_rule);
    }
}

/// A lambda.
pub open spec fn lambda(params: Seq<Seq<char>>, body: ExprV, line: u32) -> ExprV {
    ExprV::Lambda { params, body: LambdaBodyV::Expr(Box::new(body)), line }
}

/// A name, an arrow and an expression are a lambda with that parameter and that
/// body; two names in brackets are two parameters, in their order.
pub proof fn lambdas_are_read(t: Seq<TokenV>, i: int, a: Seq<char>, b: Seq<char>, e: ExprV, l: u32)
    requires
        can_write(e, l),
        a != "final"@,
        b != "final"@,
    ensures
        holds(t, i, seq![word(a, l), on(Tok::Arrow, l)] + spelled_out(e, l)) && no_arrows(t, i + 2)
            && ends_expression(t[i + 2 + spelled_out(e, l).len()].kind) ==> reads(
            t,
            Rule::Expression,
            i,
            i + 2 + spelled_out(e, l).len(),
            Read::Expr(lambda(seq![a], e, l)),
        ),
        holds(
            t,
            i,
            seq![
                on(Tok::LParen, l),
                word(a, l),
                on(Tok::Comma, l),
                word(b, l),
                on(Tok::RParen, l),
                on(Tok::Arrow, l),
            ] + spelled_out(e, l),
        ) && no_arrows(t, i + 6) && ends_expression(t[i + 6 + spelled_out(e, l).len()].kind)
            ==> reads(
            t,
            Rule::Expression,
            i,
            i + 6 + spelled_out(e, l).len(),
            Read::Expr(lambda(seq![a, b], e, l)),
        ),
{
    lemma_starts(e, l);
    let w = spelled_out(e, l);
    let one = seq![word(a, l), on(Tok::Arrow, l)];
    if holds(t, i, one + w) && no_arrows(t, i + 2) && ends_expression(t[i + 2 + w.len()].kind) {
        lemma_holds_both(t, i, one, w);
        assert(t[i + 0] == one[0] && t[i + 1] == one[1]);
        assert(t[i + 2 + 0] == w[0]);
        written_is_read(t, i + 2, e, l);
        body_of_expression(t, i + 2, i + 2 + w.len(), e);
        lambda_of_one(t, i, i + 2 + w.len(), e);
    }
    let two = seq![
        on(Tok::LParen, l),
        word(a, l),
        on(Tok::Comma, l),
        word(b, l),
        on(Tok::RParen, l),
        on(Tok::Arrow, l),
    ];
    if holds(t, i, two + w) && no_arrows(t, i + 6) && ends_expression(t[i + 6 + w.len()].kind) {
        lemma_holds_both(t, i, two, w);
        assert(t[i + 0] == two[0] && t[i + 1] == two[1] && t[i + 2] == two[2]);
        assert(t[i + 3] == two[3] && t[i + 4] == two[4] && t[i + 5] == two[5]);
        assert(t[i + 6 + 0] == w[0]);
        written_is_read(t, i + 6, e, l);
        body_of_expression(t, i + 6, i + 6 + w.len(), e);
        lambda_of_two(t, i, i + 6 + w.len(), e);
    }
}

proof fn lambda_of_one(t: Seq<TokenV>, i: int, j: int, e: ExprV)
    requires
        0 <= i < t.len() - 2,
        t[i].kind == Tok::Ident,
        t[i + 1].kind == Tok::Arrow,
        reads(t, Rule::LambdaBody, i + 2, j, Read::Lambda(LambdaBodyV::Expr(Box::new(e)))),
    ensures
        reads(t, Rule::Expression, i, j, Read::Expr(lambda(seq![t[i].text], e, t[i].line))),
{
    reveal(reads);
    assert forall|st: Place| is_at(st, i) implies is_at(
        (#[trigger] read(t, Rule::Expression, st)).1,
        j,
    ) && read(t, Rule::Expression, st).0 == Read::Expr(lambda(seq![t[i].text], e, t[i].line)) by {
        by_the_rule(t, Rule::Expression, st);
        reveal(applied);
        reveal(expression_rule);
    }
}

proof fn lambda_of_two(t: Seq<TokenV>, i: int, j: int, e: ExprV)
    requires
        0 <= i < t.len() - 6,
        t[i].kind == Tok::LParen,
        t[i + 1].kind == Tok::Ident,
        t[i + 1].text != "final"@,
        t[i + 2].kind == Tok::Comma,
        t[i + 3].kind == Tok::Ident,
        t[i + 3].text != "final"@,
        t[i + 4].kind == Tok::RParen,
        t[i + 5].kind == Tok::Arrow,
        reads(t, Rule::LambdaBody, i + 6, j, Read::Lambda(LambdaBodyV::Expr(Box::new(e)))),
    ensures
        reads(
            t,
            Rule::Expression,
            i,
            j,
            Read::Expr(lambda(seq![t[i + 1].text, t[i + 3].text], e, t[i].line)),
        ),
{
    reveal(reads);
    assert(paren_end(t, i + 4, 1) == i + 4);
    assert(paren_end(t, i + 3, 1) == i + 4);
    assert(paren_end(t, i + 2, 1) == i + 4);
    assert(paren_end(t, i + 1, 1) == i + 4);
    assert(lambda_ahead(t, i));
    let names = seq![t[i + 1].text, t[i + 3].text];
    assert forall|st: Place| is_at(st, i) implies is_at(
        (#[trigger] read(t, Rule::Expression, st)).1,
        j,
    ) && read(t, Rule::Expression, st).0 == Read::Expr(lambda(names, e, t[i].line)) by {
        by_the_rule(t, Rule::Expression, st);
        reveal(applied);
        reveal(expression_rule);
        let s = Place { pos: i + 1, ..st };
        let s2 = Place { pos: i + 3, ..st };
        let one = Seq::<Seq<char>>::empty().push(t[i + 1].text);
        assert(lambda_params(t, s2, one) == (one.push(t[i + 3].text), Place { pos: i + 4, ..st }));
        assert(lambda_params(t, s, seq![]) == lambda_params(t, s2, one));
        assert(one.push(t[i + 3].text) =~= names);
    }
}

} // verus!
