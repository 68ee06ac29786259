//! What the parser reads of statements: one that is written out is read back as
//! that statement, with its parts in their places.
use vstd::prelude::*;

use crate::ast::{AssignOp, CatchArmV, ExprV, StmtKindV, StmtV, SwitchGroupV};
use crate::injection::reading::{is_at, is_plain_word};
use crate::lexer::{Tok, TokenV};
use crate::parser::grammar::{
    Read, Rule, applied, block_rest_rule, block_rule, braced_or_single_rule, by_the_rule,
    catch_types, catches_rest_rule, clause_rest_rule, declarators_rule, do_stmt_rule,
    exception_seen, for_clause_rule, for_cond_rule, for_stmt_rule, foreach_header,
    group_body_rule, group_labels_rule, groups_rest_rule, if_stmt_rule, no_stmt, opt_finally_rule,
    opt_init_rule, opt_resources_rule, read, return_stmt_rule, simple_statement_rule,
    statement_kind_rule, statement_rule, try_stmt_rule, var_init_rule, while_stmt_rule,
};
use crate::parser::names::{declarator, declared_type};
use crate::parser::probes::{after_package, decl_ahead};
use crate::parser::tokens::{Place, kind_at, step, text_of_token, word_at};
use crate::parser::trees::{
    can_write, holds, label_is_read, lemma_holds_both, lemma_print_names, lemma_starts, no_arrows,
    on, operand, print_head, reads, spelled_out, word, written_is_read,
};

verus! {

// ── Writing statements ──────────────────────────────────────────────────────

/// The sign of an assignment.
pub open spec fn assignment_sign(op: AssignOp) -> Tok {
    match op {
        AssignOp::Assign => Tok::Assign,
        AssignOp::Add => Tok::PlusAssign,
        AssignOp::Sub => Tok::MinusAssign,
        AssignOp::Mul => Tok::StarAssign,
        AssignOp::Div => Tok::SlashAssign,
        AssignOp::Mod => Tok::PercentAssign,
        AssignOp::BitAnd => Tok::AmpAssign,
        AssignOp::BitOr => Tok::PipeAssign,
        AssignOp::BitXor => Tok::CaretAssign,
        AssignOp::Shl => Tok::ShlAssign,
        AssignOp::Shr => Tok::ShrAssign,
        AssignOp::Ushr => Tok::UshrAssign,
    }
}

/// A declaration, an assignment or an expression, without a semicolon.
pub open spec fn simple_out(k: StmtKindV, l: u32) -> Seq<TokenV> {
    match k {
        StmtKindV::Local { ty, name, init } => match init {
            Some(e) => seq![word(ty, l), word(name, l), on(Tok::Assign, l)] + spelled_out(e, l),
            None => seq![word(ty, l), word(name, l)],
        },
        StmtKindV::Assign { name, op, value } => seq![
            word(name, l),
            on(assignment_sign(op), l),
        ] + spelled_out(value, l),
        StmtKindV::IndexAssign { array, index, op, value } => spelled_out(
            element(array, index),
            l,
        ) + (seq![on(assignment_sign(op), l)] + spelled_out(value, l)),
        StmtKindV::FieldAssign { recv, name, op, value } => spelled_out(field_access(recv, name), l)
            + (seq![on(assignment_sign(op), l)] + spelled_out(value, l)),
        StmtKindV::Expr(e) => spelled_out(e, l),
        _ => seq![],
    }
}

/// An element of an array.
pub open spec fn element(array: ExprV, index: ExprV) -> ExprV {
    ExprV::Index { array: Box::new(array), index: Box::new(index) }
}

/// A field of an object.
pub open spec fn field_access(recv: ExprV, name: Seq<char>) -> ExprV {
    ExprV::Field { recv: Box::new(recv), name }
}

/// Whether a name can start a statement, and is none that continues one.
pub open spec fn starts_statement(n: Seq<char>) -> bool {
    is_plain_word(n) && n != "catch"@ && n != "finally"@
}

/// Whether a declaration, an assignment or an expression can be written out.
pub open spec fn can_write_simple(k: StmtKindV, l: u32) -> bool {
    match k {
        StmtKindV::Local { ty, name, init } => starts_statement(ty) && match init {
            Some(e) => can_write(e, l),
            None => true,
        },
        StmtKindV::Assign { name, op, value } => starts_statement(name) && can_write(value, l),
        StmtKindV::IndexAssign { array, index, op, value } => can_write(array, l) && can_write(
            index,
            l,
        ) && can_write(value, l),
        StmtKindV::FieldAssign { recv, name, op, value } => can_write(recv, l) && can_write(
            value,
            l,
        ),
        StmtKindV::Expr(e) => can_write(e, l) && match e {
            ExprV::Call { name, .. } => starts_statement(name),
            ExprV::MethodCall { .. } => true,
            ExprV::PostIncDec { name, .. } => starts_statement(name),
            ExprV::Println { .. } => true,
            _ => false,
        },
        _ => false,
    }
}

/// A block in braces.
pub open spec fn block_out(b: Seq<StmtV>, l: u32) -> Seq<TokenV>
    decreases b, 1int,
{
    seq![on(Tok::LBrace, l)] + (statements_out(b, l) + seq![on(Tok::RBrace, l)])
}

/// Statements one behind another.
pub open spec fn statements_out(b: Seq<StmtV>, l: u32) -> Seq<TokenV>
    decreases b, 0int,
{
    if b.len() == 0 {
        seq![]
    } else {
        statement_out(b[0], l) + statements_out(b.subrange(1, b.len() as int), l)
    }
}

/// An optional label.
pub open spec fn label_out(label: Option<Seq<char>>, l: u32) -> Seq<TokenV> {
    match label {
        Some(name) => seq![word(name, l)],
        None => seq![],
    }
}

/// A statement written out. Every body is a block.
pub open spec fn statement_out(s: StmtV, l: u32) -> Seq<TokenV>
    decreases s,
{
    match s.kind {
        StmtKindV::If { cond, body, els } => seq![on(Tok::If, l), on(Tok::LParen, l)] + (spelled_out(
            cond,
            l,
        ) + (seq![on(Tok::RParen, l)] + (block_out(body, l) + if els.len() > 0 {
            seq![on(Tok::Else, l)] + block_out(els, l)
        } else {
            seq![]
        }))),
        StmtKindV::While { cond, body } => seq![on(Tok::While, l), on(Tok::LParen, l)] + (spelled_out(
            cond,
            l,
        ) + (seq![on(Tok::RParen, l)] + block_out(body, l))),
        StmtKindV::DoWhile { body, cond } => seq![on(Tok::Do, l)] + (block_out(body, l) + (seq![
            on(Tok::While, l),
            on(Tok::LParen, l),
        ] + (spelled_out(cond, l) + seq![on(Tok::RParen, l), on(Tok::Semi, l)]))),
        StmtKindV::ForEach { ty, name, iter, body } => seq![
            on(Tok::For, l),
            on(Tok::LParen, l),
            word(ty, l),
            word(name, l),
            on(Tok::Colon, l),
        ] + (spelled_out(iter, l) + (seq![on(Tok::RParen, l)] + block_out(body, l))),
        StmtKindV::For { init, cond, update, body } => seq![on(Tok::For, l), on(Tok::LParen, l)] + (
        simple_out(init[0].kind, l) + (seq![on(Tok::Semi, l)] + (spelled_out(cond->0, l) + (seq![
            on(Tok::Semi, l),
        ] + (simple_out(update[0].kind, l) + (seq![on(Tok::RParen, l)] + block_out(body, l))))))),
        StmtKindV::Return(Some(e)) => seq![on(Tok::Return, l)] + (spelled_out(e, l) + seq![
            on(Tok::Semi, l),
        ]),
        StmtKindV::Return(None) => seq![on(Tok::Return, l), on(Tok::Semi, l)],
        StmtKindV::Break(label) => seq![on(Tok::Break, l)] + (label_out(label, l) + seq![
            on(Tok::Semi, l),
        ]),
        StmtKindV::Continue(label) => seq![on(Tok::Continue, l)] + (label_out(label, l) + seq![
            on(Tok::Semi, l),
        ]),
        StmtKindV::Throw(e) => seq![word("throw"@, l)] + (spelled_out(e, l) + seq![on(Tok::Semi, l)]),
        StmtKindV::Labeled { label, body } => seq![word(label, l), on(Tok::Colon, l)]
            + statement_out(*body, l),
        StmtKindV::Try { body, catches, finally_body } => seq![word("try"@, l)] + (block_out(body, l)
            + (catches_out(catches, l) + finally_out(finally_body, l))),
        _ => simple_out(s.kind, l) + seq![on(Tok::Semi, l)],
    }
}

/// Handlers one behind another, each of one type.
pub open spec fn catches_out(cs: Seq<CatchArmV>, l: u32) -> Seq<TokenV>
    decreases cs,
{
    if cs.len() == 0 {
        seq![]
    } else {
        seq![
            word("catch"@, l),
            on(Tok::LParen, l),
            word(cs[0].types[0], l),
            word(cs[0].name, l),
            on(Tok::RParen, l),
        ] + (block_out(cs[0].body, l) + catches_out(cs.subrange(1, cs.len() as int), l))
    }
}

/// A last block, where there is one.
pub open spec fn finally_out(b: Seq<StmtV>, l: u32) -> Seq<TokenV>
    decreases b, 2int,
{
    if b.len() > 0 {
        seq![word("finally"@, l)] + block_out(b, l)
    } else {
        seq![]
    }
}

/// Whether a statement can be written out.
pub open spec fn can_write_statement(s: StmtV, l: u32) -> bool
    decreases s,
{
    s.line == l && match s.kind {
        StmtKindV::If { cond, body, els } => can_write(cond, l) && can_write_block(body, l)
            && can_write_block(els, l),
        StmtKindV::While { cond, body } => can_write(cond, l) && can_write_block(body, l),
        StmtKindV::DoWhile { body, cond } => can_write(cond, l) && can_write_block(body, l),
        StmtKindV::ForEach { ty, name, iter, body } => is_plain_word(ty) && can_write(iter, l)
            && can_write_block(body, l),
        StmtKindV::For { init, cond, update, body } => init.len() == 1 && update.len() == 1 && cond
            is Some && init[0].line == l && update[0].line == l && can_write_simple(init[0].kind, l)
            && can_write_simple(update[0].kind, l) && can_write(cond->0, l) && can_write_block(
            body,
            l,
        ),
        StmtKindV::Return(Some(e)) => can_write(e, l),
        StmtKindV::Return(None) => true,
        StmtKindV::Break(_) => true,
        StmtKindV::Continue(_) => true,
        StmtKindV::Throw(e) => can_write(e, l),
        StmtKindV::Labeled { label, body } => starts_statement(label) && can_write_statement(*body, l),
        StmtKindV::Try { body, catches, finally_body } => can_write_block(body, l)
            && can_write_catches(catches, l) && can_write_block(finally_body, l) && (catches.len()
            > 0 || finally_body.len() > 0),
        _ => can_write_simple(s.kind, l),
    }
}

/// Whether all statements of a block can be written out.
pub open spec fn can_write_block(b: Seq<StmtV>, l: u32) -> bool
    decreases b, 1int,
{
    forall|i: int| 0 <= i < b.len() ==> can_write_statement(#[trigger] b[i], l)
}

/// Whether all handlers can be written out.
pub open spec fn can_write_catches(cs: Seq<CatchArmV>, l: u32) -> bool
    decreases cs, 1int,
{
    forall|i: int| 0 <= i < cs.len() ==> can_write_catch(#[trigger] cs[i], l)
}

/// Whether a handler can be written out.
pub open spec fn can_write_catch(c: CatchArmV, l: u32) -> bool
    decreases c, 1int,
{
    c.types.len() == 1 && c.types[0] != "final"@ && can_write_block(c.body, l)
}

// ── Simple statements ───────────────────────────────────────────────────────

/// Whether the statements from one on fill a block up.
#[verifier::opaque]
pub open spec fn fills_up(t: Seq<TokenV>, out: Seq<StmtV>, i: int, j: int, v: Seq<StmtV>) -> bool {
    &&& 0 <= i < j < t.len()
    &&& forall|st: Place|
        is_at(st, i) ==> is_at((#[trigger] read(t, Rule::BlockRest(out), st)).1, j) && read(
            t,
            Rule::BlockRest(out),
            st,
        ).0 == Read::Stmts(v)
}

/// Whether the handlers from one on complete a list of them.
#[verifier::opaque]
pub open spec fn catches_up(
    t: Seq<TokenV>,
    out: Seq<CatchArmV>,
    i: int,
    j: int,
    v: Seq<CatchArmV>,
) -> bool {
    &&& 0 <= i <= j < t.len()
    &&& forall|st: Place|
        is_at(st, i) ==> is_at((#[trigger] read(t, Rule::CatchesRest(out), st)).1, j) && read(
            t,
            Rule::CatchesRest(out),
            st,
        ).0 == Read::Catches(v)
}

/// Where a simple statement ends: at its semicolon, or behind it.
pub open spec fn behind(j: int, semi: bool) -> int {
    if semi {
        j + 1
    } else {
        j
    }
}

#[verifier::rlimit(60)]
proof fn simple_local(
    t: Seq<TokenV>,
    i: int,
    k: int,
    init: Option<ExprV>,
    semi: bool,
)
    requires
        0 <= i < t.len() - 3,
        t[i].kind == Tok::Ident,
        is_plain_word(t[i].text),
        t[i + 1].kind == Tok::Ident,
        match init {
            Some(e) => t[i + 2].kind == Tok::Assign && t[i + 3].kind != Tok::LBrace && reads(
                t,
                Rule::Expression,
                i + 3,
                k,
                Read::Expr(e),
            ),
            None => k == i + 2,
        },
        k < t.len() - 1,
        t[k].kind == Tok::Semi || !semi && t[k].kind == Tok::RParen,
    ensures
        reads(
            t,
            Rule::SimpleStatement(semi),
            i,
            behind(k, semi),
            Read::Kind((StmtKindV::Local { ty: t[i].text, name: t[i + 1].text, init })),
        ),
{
    reveal(reads);
    assert(decl_ahead(t, i));
    let kind = StmtKindV::Local { ty: t[i].text, name: t[i + 1].text, init };
    assert forall|st: Place| is_at(st, i) implies is_at(
        (#[trigger] read(t, Rule::SimpleStatement(semi), st)).1,
        behind(k, semi),
    ) && read(t, Rule::SimpleStatement(semi), st).0 == Read::Kind(kind) by {
        by_the_rule(t, Rule::SimpleStatement(semi), st);
        reveal(applied);
        reveal(simple_statement_rule);
        let (base, s) = declared_type(t, st);
        assert(is_at(s, i + 1) && base == t[i].text);
        by_the_rule(t, Rule::Declarators(base, seq![]), s);
        reveal(declarators_rule);
        let s0 = declarator(t, s, base).1;
        assert(is_at(s0, i + 2) && declarator(t, s, base).0 == (t[i + 1].text, base));
        by_the_rule(t, Rule::OptInit, s0);
        reveal(opt_init_rule);
        by_the_rule(t, Rule::VarInit, step(t, s0));
        reveal(var_init_rule);
    }
}

proof fn simple_assignment(t: Seq<TokenV>, i: int, op: AssignOp, k: int, e: ExprV, semi: bool)
    requires
        0 <= i < t.len() - 2,
        t[i].kind == Tok::Ident,
        is_plain_word(t[i].text),
        t[i + 1].kind == assignment_sign(op),
        reads(t, Rule::Expression, i + 2, k, Read::Expr(e)),
        k < t.len() - 1,
        t[k].kind == Tok::Semi || !semi && t[k].kind == Tok::RParen,
    ensures
        reads(
            t,
            Rule::SimpleStatement(semi),
            i,
            behind(k, semi),
            Read::Kind((StmtKindV::Assign { name: t[i].text, op, value: e })),
        ),
{
    reveal(reads);
    assert(!decl_ahead(t, i));
    assert forall|st: Place| is_at(st, i) implies is_at(
        (#[trigger] read(t, Rule::SimpleStatement(semi), st)).1,
        behind(k, semi),
    ) && read(t, Rule::SimpleStatement(semi), st).0 == Read::Kind(
        StmtKindV::Assign { name: t[i].text, op, value: e },
    ) by {
        by_the_rule(t, Rule::SimpleStatement(semi), st);
        reveal(applied);
        reveal(simple_statement_rule);
    }
}

proof fn simple_update(t: Seq<TokenV>, i: int, inc: bool, semi: bool)
    requires
        0 <= i < t.len() - 3,
        t[i].kind == Tok::Ident,
        is_plain_word(t[i].text),
        t[i + 1].kind == if inc {
            Tok::PlusPlus
        } else {
            Tok::MinusMinus
        },
        t[i + 2].kind == Tok::Semi || !semi && t[i + 2].kind == Tok::RParen,
    ensures
        reads(
            t,
            Rule::SimpleStatement(semi),
            i,
            behind(i + 2, semi),
            Read::Kind(StmtKindV::Expr((ExprV::PostIncDec { name: t[i].text, inc }))),
        ),
{
    reveal(reads);
    assert(!decl_ahead(t, i));
    assert forall|st: Place| is_at(st, i) implies is_at(
        (#[trigger] read(t, Rule::SimpleStatement(semi), st)).1,
        behind(i + 2, semi),
    ) && read(t, Rule::SimpleStatement(semi), st).0 == Read::Kind(
        StmtKindV::Expr(ExprV::PostIncDec { name: t[i].text, inc }),
    ) by {
        by_the_rule(t, Rule::SimpleStatement(semi), st);
        reveal(applied);
        reveal(simple_statement_rule);
    }
}

/// What starts no declaration and no assignment to a name.
pub open spec fn starts_expression(t: Seq<TokenV>, i: int) -> bool {
    kind_at(t, i) != Tok::Ident || is_plain_word(text_of_token(t, i)) && (kind_at(t, i + 1)
        == Tok::LParen || kind_at(t, i + 1) == Tok::Dot && kind_at(t, i + 2) == Tok::Ident
        && kind_at(t, i + 3) == Tok::Dot && kind_at(t, i + 4) == Tok::Ident && kind_at(t, i + 5)
        == Tok::LParen)
}

proof fn simple_expression(t: Seq<TokenV>, i: int, k: int, e: ExprV, semi: bool)
    requires
        0 <= i < t.len() - 1,
        starts_expression(t, i),
        reads(t, Rule::Expression, i, k, Read::Expr(e)),
        k < t.len() - 1,
        t[k].kind == Tok::Semi || !semi && t[k].kind == Tok::RParen,
    ensures
        reads(t, Rule::SimpleStatement(semi), i, behind(k, semi), Read::Kind(StmtKindV::Expr(e))),
{
    reveal(reads);
    assert(!decl_ahead(t, i)) by {
        if kind_at(t, i) == Tok::Ident && kind_at(t, i + 1) == Tok::Dot {
            assert(after_package(t, i + 4) == i + 5);
            assert(after_package(t, i + 2) == i + 3 || after_package(t, i + 2) == i + 5);
            assert(after_package(t, i) == i + 1 || after_package(t, i) == i + 3 || after_package(
                t,
                i,
            ) == i + 5);
        }
    }
    assert forall|st: Place| is_at(st, i) implies is_at(
        (#[trigger] read(t, Rule::SimpleStatement(semi), st)).1,
        behind(k, semi),
    ) && read(t, Rule::SimpleStatement(semi), st).0 == Read::Kind(StmtKindV::Expr(e)) by {
        by_the_rule(t, Rule::SimpleStatement(semi), st);
        reveal(applied);
        reveal(simple_statement_rule);
    }
}

/// The assignment to an element or a field.
pub open spec fn assignment_to(lhs: ExprV, op: AssignOp, value: ExprV) -> StmtKindV {
    match lhs {
        ExprV::Index { array, index } => StmtKindV::IndexAssign {
            array: *array,
            index: *index,
            op,
            value,
        },
        ExprV::Field { recv, name } => StmtKindV::FieldAssign { recv: *recv, name, op, value },
        _ => no_stmt(),
    }
}

proof fn simple_target(
    t: Seq<TokenV>,
    i: int,
    m: int,
    lhs: ExprV,
    op: AssignOp,
    k: int,
    e: ExprV,
    semi: bool,
)
    requires
        0 <= i < t.len() - 1,
        t[i].kind != Tok::Ident,
        reads(t, Rule::Expression, i, m, Read::Expr(lhs)),
        lhs is Index || lhs is Field,
        m < t.len() - 1,
        t[m].kind == assignment_sign(op),
        reads(t, Rule::Expression, m + 1, k, Read::Expr(e)),
        k < t.len() - 1,
        t[k].kind == Tok::Semi || !semi && t[k].kind == Tok::RParen,
    ensures
        reads(
            t,
            Rule::SimpleStatement(semi),
            i,
            behind(k, semi),
            Read::Kind(assignment_to(lhs, op, e)),
        ),
{
    reveal(reads);
    assert(!decl_ahead(t, i));
    assert forall|st: Place| is_at(st, i) implies is_at(
        (#[trigger] read(t, Rule::SimpleStatement(semi), st)).1,
        behind(k, semi),
    ) && read(t, Rule::SimpleStatement(semi), st).0 == Read::Kind(assignment_to(lhs, op, e)) by {
        by_the_rule(t, Rule::SimpleStatement(semi), st);
        reveal(applied);
        reveal(simple_statement_rule);
    }
}

/// A declaration, an assignment or an expression that is written out is read back
/// as it is.
pub proof fn simple_is_read(t: Seq<TokenV>, i: int, k: StmtKindV, l: u32, semi: bool)
    requires
        can_write_simple(k, l),
        no_arrows(t, i),
        holds(t, i, simple_out(k, l)),
        i + simple_out(k, l).len() < t.len() - 1,
        t[i + simple_out(k, l).len()].kind == Tok::Semi || !semi && t[i + simple_out(
            k,
            l,
        ).len()].kind == Tok::RParen,
    ensures
        reads(
            t,
            Rule::SimpleStatement(semi),
            i,
            behind(i + simple_out(k, l).len(), semi),
            Read::Kind(k),
        ),
{
    let w = simple_out(k, l);
    let j = i + w.len();
    match k {
        StmtKindV::Local { ty, name, init } => {
            match init {
                Some(e) => {
                    let head = seq![word(ty, l), word(name, l), on(Tok::Assign, l)];
                    lemma_holds_both(t, i, head, spelled_out(e, l));
                    assert(t[i + 0] == head[0] && t[i + 1] == head[1] && t[i + 2] == head[2]);
                    lemma_starts(e, l);
                    assert(t[i + 3 + 0] == spelled_out(e, l)[0]);
                    written_is_read(t, i + 3, e, l);
                },
                None => {
                    assert(t[i + 0] == w[0] && t[i + 1] == w[1]);
                },
            }
            simple_local(t, i, j, init, semi);
        },
        StmtKindV::Assign { name, op, value } => {
            let head = seq![word(name, l), on(assignment_sign(op), l)];
            lemma_holds_both(t, i, head, spelled_out(value, l));
            assert(t[i + 0] == head[0] && t[i + 1] == head[1]);
            written_is_read(t, i + 2, value, l);
            simple_assignment(t, i, op, j, value, semi);
        },
        StmtKindV::IndexAssign { array, index, op, value } => {
            let lhs = element(array, index);
            let a = spelled_out(lhs, l);
            let mid = seq![on(assignment_sign(op), l)];
            lemma_holds_both(t, i, a, mid + spelled_out(value, l));
            let m = i + a.len();
            lemma_holds_both(t, m, mid, spelled_out(value, l));
            assert(t[m + 0] == mid[0]);
            lemma_starts(lhs, l);
            lemma_starts(array, l);
            assert(t[i + 0] == a[0] && a[0] == operand(array, l)[0]);
            written_is_read(t, i, lhs, l);
            written_is_read(t, m + 1, value, l);
            simple_target(t, i, m, lhs, op, j, value, semi);
        },
        StmtKindV::FieldAssign { recv, name, op, value } => {
            let lhs = field_access(recv, name);
            let a = spelled_out(lhs, l);
            let mid = seq![on(assignment_sign(op), l)];
            lemma_holds_both(t, i, a, mid + spelled_out(value, l));
            let m = i + a.len();
            lemma_holds_both(t, m, mid, spelled_out(value, l));
            assert(t[m + 0] == mid[0]);
            lemma_starts(lhs, l);
            lemma_starts(recv, l);
            assert(t[i + 0] == a[0] && a[0] == operand(recv, l)[0]);
            written_is_read(t, i, lhs, l);
            written_is_read(t, m + 1, value, l);
            simple_target(t, i, m, lhs, op, j, value, semi);
        },
        StmtKindV::Expr(e) => {
            lemma_starts(e, l);
            assert(t[i + 0] == w[0]);
            match e {
                ExprV::PostIncDec { name, inc } => {
                    assert(t[i + 1] == w[1]);
                    simple_update(t, i, inc, semi);
                },
                ExprV::Call { name, args, line } => {
                    assert(w[1] == on(Tok::LParen, l));
                    assert(t[i + 1] == w[1]);
                    written_is_read(t, i, e, l);
                    simple_expression(t, i, j, e, semi);
                },
                ExprV::MethodCall { recv, method, args, line } => {
                    lemma_starts(*recv, l);
                    assert(w[0] == operand(*recv, l)[0]);
                    written_is_read(t, i, e, l);
                    simple_expression(t, i, j, e, semi);
                },
                ExprV::Println { newline, err, arg } => {
                    lemma_print_names();
                    assert(w[0] == print_head(newline, err, l)[0]);
                    assert(t[i + 1] == w[1] && t[i + 2] == w[2] && t[i + 3] == w[3]);
                    assert(t[i + 4] == w[4] && t[i + 5] == w[5]);
                    written_is_read(t, i, e, l);
                    simple_expression(t, i, j, e, semi);
                },
                _ => {},
            }
        },
        _ => {},
    }
}

// ── Blocks ──────────────────────────────────────────────────────────────────

proof fn block_ends(t: Seq<TokenV>, out: Seq<StmtV>, i: int)
    requires
        0 <= i < t.len() - 1,
        t[i].kind == Tok::RBrace,
    ensures
        fills_up(t, out, i, i + 1, out),
{
    reveal(fills_up);
    assert forall|st: Place| is_at(st, i) implies is_at(
        (#[trigger] read(t, Rule::BlockRest(out), st)).1,
        i + 1,
    ) && read(t, Rule::BlockRest(out), st).0 == Read::Stmts(out) by {
        by_the_rule(t, Rule::BlockRest(out), st);
        reveal(applied);
        reveal(block_rest_rule);
    }
}

proof fn block_goes_on(t: Seq<TokenV>, out: Seq<StmtV>, i: int, k: int, s: StmtV, j: int, v: Seq<StmtV>)
    requires
        reads(t, Rule::Statement, i, k, Read::Stmt(s)),
        t[i].kind != Tok::RBrace && t[i].kind != Tok::Eof,
        fills_up(t, out.push(s), k, j, v),
    ensures
        fills_up(t, out, i, j, v),
{
    reveal(fills_up);
    reveal(reads);
    assert forall|st: Place| is_at(st, i) implies is_at(
        (#[trigger] read(t, Rule::BlockRest(out), st)).1,
        j,
    ) && read(t, Rule::BlockRest(out), st).0 == Read::Stmts(v) by {
        by_the_rule(t, Rule::BlockRest(out), st);
        reveal(applied);
        reveal(block_rest_rule);
    }
}

proof fn block_of(t: Seq<TokenV>, i: int, j: int, v: Seq<StmtV>)
    requires
        fills_up(t, seq![], i, j, v),
    ensures
        reads(t, Rule::Block, i, j, Read::Stmts(v)),
{
    reveal(fills_up);
    reveal(reads);
    assert forall|st: Place| is_at(st, i) implies is_at((#[trigger] read(t, Rule::Block, st)).1, j)
        && read(t, Rule::Block, st).0 == Read::Stmts(v) by {
        by_the_rule(t, Rule::Block, st);
        reveal(applied);
        reveal(block_rule);
    }
}

proof fn braced_of(t: Seq<TokenV>, i: int, j: int, v: Seq<StmtV>)
    requires
        0 <= i < t.len() - 1,
        t[i].kind == Tok::LBrace,
        reads(t, Rule::Block, i + 1, j, Read::Stmts(v)),
    ensures
        reads(t, Rule::BracedOrSingle, i, j, Read::Stmts(v)),
{
    reveal(reads);
    assert forall|st: Place| is_at(st, i) implies is_at(
        (#[trigger] read(t, Rule::BracedOrSingle, st)).1,
        j,
    ) && read(t, Rule::BracedOrSingle, st).0 == Read::Stmts(v) by {
        by_the_rule(t, Rule::BracedOrSingle, st);
        reveal(applied);
        reveal(braced_or_single_rule);
    }
}

/// A statement without braces is a branch or a body of its own.
proof fn single_of(t: Seq<TokenV>, i: int, j: int, s: StmtV)
    requires
        reads(t, Rule::Statement, i, j, Read::Stmt(s)),
        t[i].kind != Tok::LBrace,
    ensures
        reads(t, Rule::BracedOrSingle, i, j, Read::Stmts(seq![s])),
{
    reveal(reads);
    assert forall|st: Place| is_at(st, i) implies is_at(
        (#[trigger] read(t, Rule::BracedOrSingle, st)).1,
        j,
    ) && read(t, Rule::BracedOrSingle, st).0 == Read::Stmts(seq![s]) by {
        by_the_rule(t, Rule::BracedOrSingle, st);
        reveal(applied);
        reveal(braced_or_single_rule);
    }
}

// ── Kinds of statements ─────────────────────────────────────────────────────

/// What is read as a kind of statement is one on its line.
proof fn statement_of(t: Seq<TokenV>, i: int, j: int, s: StmtV)
    requires
        reads(t, Rule::StatementKind, i, j, Read::Kind(s.kind)),
        t[i].line == s.line,
    ensures
        reads(t, Rule::Statement, i, j, Read::Stmt(s)),
{
    reveal(reads);
    assert forall|st: Place| is_at(st, i) implies is_at(
        (#[trigger] read(t, Rule::Statement, st)).1,
        j,
    ) && read(t, Rule::Statement, st).0 == Read::Stmt(s) by {
        by_the_rule(t, Rule::Statement, st);
        reveal(applied);
        reveal(statement_rule);
    }
}

/// `if (C) A else B` is read with what stands behind the bracket as its first
/// branch, and with what stands behind `else` as the other.
proof fn kind_if(
    t: Seq<TokenV>,
    i: int,
    k: int,
    cond: ExprV,
    m: int,
    body: Seq<StmtV>,
    j: int,
    els: Option<Seq<StmtV>>,
)
    requires
        0 <= i < t.len() - 2,
        t[i].kind == Tok::If,
        t[i + 1].kind == Tok::LParen,
        reads(t, Rule::Expression, i + 2, k, Read::Expr(cond)),
        k < t.len() - 2,
        t[k].kind == Tok::RParen,
        reads(t, Rule::BracedOrSingle, k + 1, m, Read::Stmts(body)),
        m < t.len(),
        match els {
            Some(b) => t[m].kind == Tok::Else && m < t.len() - 1 && reads(
                t,
                Rule::BracedOrSingle,
                m + 1,
                j,
                Read::Stmts(b),
            ),
            None => t[m].kind != Tok::Else && j == m,
        },
    ensures
        reads(
            t,
            Rule::StatementKind,
            i,
            j,
            Read::Kind(
                (StmtKindV::If {
                    cond,
                    body,
                    els: match els {
                        Some(b) => b,
                        None => seq![],
                    },
                }),
            ),
        ),
{
    reveal(reads);
    let v = StmtKindV::If {
        cond,
        body,
        els: match els {
            Some(b) => b,
            None => seq![],
        },
    };
    assert forall|st: Place| is_at(st, i) implies is_at(
        (#[trigger] read(t, Rule::StatementKind, st)).1,
        j,
    ) && read(t, Rule::StatementKind, st).0 == Read::Kind(v) by {
        by_the_rule(t, Rule::StatementKind, st);
        by_the_rule(t, Rule::IfStmt, st);
        reveal(applied);
        reveal(statement_kind_rule);
        reveal(if_stmt_rule);
    }
}

proof fn kind_while(t: Seq<TokenV>, i: int, k: int, cond: ExprV, j: int, body: Seq<StmtV>)
    requires
        0 <= i < t.len() - 2,
        t[i].kind == Tok::While,
        t[i + 1].kind == Tok::LParen,
        reads(t, Rule::Expression, i + 2, k, Read::Expr(cond)),
        k < t.len() - 2,
        t[k].kind == Tok::RParen,
        reads(t, Rule::BracedOrSingle, k + 1, j, Read::Stmts(body)),
    ensures
        reads(t, Rule::StatementKind, i, j, Read::Kind((StmtKindV::While { cond, body }))),
{
    reveal(reads);
    assert forall|st: Place| is_at(st, i) implies is_at(
        (#[trigger] read(t, Rule::StatementKind, st)).1,
        j,
    ) && read(t, Rule::StatementKind, st).0 == Read::Kind(StmtKindV::While { cond, body }) by {
        by_the_rule(t, Rule::StatementKind, st);
        by_the_rule(t, Rule::WhileStmt, st);
        reveal(applied);
        reveal(statement_kind_rule);
        reveal(while_stmt_rule);
    }
}

proof fn kind_do(t: Seq<TokenV>, i: int, m: int, body: Seq<StmtV>, k: int, cond: ExprV)
    requires
        0 <= i < t.len() - 2,
        t[i].kind == Tok::Do,
        reads(t, Rule::BracedOrSingle, i + 1, m, Read::Stmts(body)),
        m < t.len() - 2,
        t[m].kind == Tok::While,
        t[m + 1].kind == Tok::LParen,
        reads(t, Rule::Expression, m + 2, k, Read::Expr(cond)),
        k < t.len() - 2,
        t[k].kind == Tok::RParen,
        t[k + 1].kind == Tok::Semi,
    ensures
        reads(t, Rule::StatementKind, i, k + 2, Read::Kind((StmtKindV::DoWhile { body, cond }))),
{
    reveal(reads);
    assert forall|st: Place| is_at(st, i) implies is_at(
        (#[trigger] read(t, Rule::StatementKind, st)).1,
        k + 2,
    ) && read(t, Rule::StatementKind, st).0 == Read::Kind(StmtKindV::DoWhile { body, cond }) by {
        by_the_rule(t, Rule::StatementKind, st);
        by_the_rule(t, Rule::DoStmt, st);
        reveal(applied);
        reveal(statement_kind_rule);
        reveal(do_stmt_rule);
    }
}

#[verifier::rlimit(60)]
proof fn kind_foreach(t: Seq<TokenV>, i: int, k: int, iter: ExprV, j: int, body: Seq<StmtV>)
    requires
        0 <= i < t.len() - 5,
        t[i].kind == Tok::For,
        t[i + 1].kind == Tok::LParen,
        t[i + 2].kind == Tok::Ident,
        t[i + 2].text != "final"@,
        t[i + 3].kind == Tok::Ident,
        t[i + 4].kind == Tok::Colon,
        reads(t, Rule::Expression, i + 5, k, Read::Expr(iter)),
        k < t.len() - 2,
        t[k].kind == Tok::RParen,
        reads(t, Rule::BracedOrSingle, k + 1, j, Read::Stmts(body)),
    ensures
        reads(
            t,
            Rule::StatementKind,
            i,
            j,
            Read::Kind(
                (StmtKindV::ForEach { ty: t[i + 2].text, name: t[i + 3].text, iter, body }),
            ),
        ),
{
    reveal(reads);
    assert(decl_ahead(t, i + 2));
    assert forall|st: Place| is_at(st, i) implies is_at(
        (#[trigger] read(t, Rule::StatementKind, st)).1,
        j,
    ) && read(t, Rule::StatementKind, st).0 == Read::Kind(
        StmtKindV::ForEach { ty: t[i + 2].text, name: t[i + 3].text, iter, body },
    ) by {
        by_the_rule(t, Rule::StatementKind, st);
        by_the_rule(t, Rule::ForStmt, st);
        reveal(applied);
        reveal(statement_kind_rule);
        reveal(for_stmt_rule);
        let s = Place { pos: i + 2, ..st };
        assert(is_at(declared_type(t, s).1, i + 3) && declared_type(t, s).0 == t[i + 2].text);
    }
}

#[verifier::rlimit(60)]
proof fn kind_for(
    t: Seq<TokenV>,
    i: int,
    a: int,
    init: StmtKindV,
    k: int,
    cond: ExprV,
    b: int,
    update: StmtKindV,
    j: int,
    body: Seq<StmtV>,
)
    requires
        0 <= i < t.len() - 3,
        t[i].kind == Tok::For,
        t[i + 1].kind == Tok::LParen,
        t[i + 2].kind != Tok::Semi,
        decl_ahead(t, i + 2) ==> t[i + 2].kind == Tok::Ident && t[i + 2].text != "final"@ && t[i
            + 3].kind == Tok::Ident && i + 4 < t.len() && t[i + 4].kind != Tok::Colon,
        reads(t, Rule::SimpleStatement(false), i + 2, a, Read::Kind(init)),
        a < t.len() - 1,
        t[a].kind == Tok::Semi,
        t[a + 1].kind != Tok::Semi,
        reads(t, Rule::Expression, a + 1, k, Read::Expr(cond)),
        k < t.len() - 1,
        t[k].kind == Tok::Semi,
        t[k + 1].kind != Tok::RParen,
        reads(t, Rule::SimpleStatement(false), k + 1, b, Read::Kind(update)),
        b < t.len() - 2,
        t[b].kind == Tok::RParen,
        reads(t, Rule::BracedOrSingle, b + 1, j, Read::Stmts(body)),
    ensures
        reads(
            t,
            Rule::StatementKind,
            i,
            j,
            Read::Kind(
                for_of(
                    (StmtV { line: t[i + 2].line, kind: init }),
                    cond,
                    (StmtV { line: t[k + 1].line, kind: update }),
                    body,
                ),
            ),
        ),
{
    reveal(reads);
    let first = StmtV { line: t[i + 2].line, kind: init };
    let last = StmtV { line: t[k + 1].line, kind: update };
    let v = for_of(first, cond, last, body);
    assert forall|st: Place| is_at(st, i) implies is_at(
        (#[trigger] read(t, Rule::StatementKind, st)).1,
        j,
    ) && read(t, Rule::StatementKind, st).0 == Read::Kind(v) by {
        by_the_rule(t, Rule::StatementKind, st);
        by_the_rule(t, Rule::ForStmt, st);
        reveal(applied);
        reveal(statement_kind_rule);
        reveal(for_stmt_rule);
        let s = Place { pos: i + 2, ..st };
        let (header, s0) = foreach_header(t, s);
        assert(header is None && is_at(s0, i + 2)) by {
            if decl_ahead(t, i + 2) {
                assert(is_at(declared_type(t, s).1, i + 3));
            }
        }
        by_the_rule(t, Rule::ForClause(Tok::Semi), s0);
        reveal(for_clause_rule);
        by_the_rule(t, Rule::ClauseRest(seq![]), s0);
        reveal(clause_rest_rule);
        let s1 = read(t, Rule::ForClause(Tok::Semi), s0).1;
        assert(is_at(s1, a));
        let s2 = step(t, s1);
        by_the_rule(t, Rule::ForCond, s2);
        reveal(for_cond_rule);
        let s3 = read(t, Rule::ForCond, s2).1;
        assert(is_at(s3, k));
        let s4 = step(t, s3);
        by_the_rule(t, Rule::ForClause(Tok::RParen), s4);
        by_the_rule(t, Rule::ClauseRest(seq![]), s4);
        let s5 = read(t, Rule::ForClause(Tok::RParen), s4).1;
        assert(is_at(s5, b));
        assert(Seq::<StmtV>::empty().push(first) =~= seq![first]);
        assert(Seq::<StmtV>::empty().push(last) =~= seq![last]);
    }
}

/// A `for` with one statement in each clause.
pub open spec fn for_of(init: StmtV, cond: ExprV, update: StmtV, body: Seq<StmtV>) -> StmtKindV {
    StmtKindV::For { init: seq![init], cond: Some(cond), update: seq![update], body }
}

proof fn kind_return(t: Seq<TokenV>, i: int, k: int, e: Option<ExprV>)
    requires
        0 <= i < t.len() - 2,
        t[i].kind == Tok::Return,
        match e {
            Some(x) => t[i + 1].kind != Tok::Semi && reads(
                t,
                Rule::Expression,
                i + 1,
                k,
                Read::Expr(x),
            ),
            None => k == i + 1,
        },
        k < t.len() - 1,
        t[k].kind == Tok::Semi,
    ensures
        reads(t, Rule::StatementKind, i, k + 1, Read::Kind(StmtKindV::Return(e))),
{
    reveal(reads);
    assert forall|st: Place| is_at(st, i) implies is_at(
        (#[trigger] read(t, Rule::StatementKind, st)).1,
        k + 1,
    ) && read(t, Rule::StatementKind, st).0 == Read::Kind(StmtKindV::Return(e)) by {
        by_the_rule(t, Rule::StatementKind, st);
        by_the_rule(t, Rule::ReturnStmt, step(t, st));
        reveal(applied);
        reveal(statement_kind_rule);
        reveal(return_stmt_rule);
    }
}

proof fn kind_jump(t: Seq<TokenV>, i: int, label: Option<Seq<char>>, leaves: bool)
    requires
        0 <= i < t.len() - 3 || label is None && 0 <= i < t.len() - 2,
        t[i].kind == if leaves {
            Tok::Break
        } else {
            Tok::Continue
        },
        match label {
            Some(name) => t[i + 1].kind == Tok::Ident && t[i + 1].text == name && t[i + 2].kind
                == Tok::Semi,
            None => t[i + 1].kind == Tok::Semi,
        },
    ensures
        reads(
            t,
            Rule::StatementKind,
            i,
            if label is Some {
                i + 3
            } else {
                i + 2
            },
            Read::Kind(
                if leaves {
                    StmtKindV::Break(label)
                } else {
                    StmtKindV::Continue(label)
                },
            ),
        ),
{
    reveal(reads);
    let j = if label is Some {
        i + 3
    } else {
        i + 2
    };
    let v = if leaves {
        StmtKindV::Break(label)
    } else {
        StmtKindV::Continue(label)
    };
    assert forall|st: Place| is_at(st, i) implies is_at(
        (#[trigger] read(t, Rule::StatementKind, st)).1,
        j,
    ) && read(t, Rule::StatementKind, st).0 == Read::Kind(v) by {
        by_the_rule(t, Rule::StatementKind, st);
        reveal(applied);
        reveal(statement_kind_rule);
    }
}

proof fn kind_throw(t: Seq<TokenV>, i: int, k: int, e: ExprV)
    requires
        0 <= i < t.len() - 2,
        t[i].kind == Tok::Ident,
        t[i].text == "throw"@,
        t[i + 1].kind != Tok::Colon,
        reads(t, Rule::Expression, i + 1, k, Read::Expr(e)),
        k < t.len() - 1,
        t[k].kind == Tok::Semi,
    ensures
        reads(t, Rule::StatementKind, i, k + 1, Read::Kind(StmtKindV::Throw(e))),
{
    reveal(reads);
    lemma_statement_words();
    assert forall|st: Place| is_at(st, i) implies is_at(
        (#[trigger] read(t, Rule::StatementKind, st)).1,
        k + 1,
    ) && read(t, Rule::StatementKind, st).0 == Read::Kind(StmtKindV::Throw(e)) by {
        by_the_rule(t, Rule::StatementKind, st);
        reveal(applied);
        reveal(statement_kind_rule);
        let s = exception_seen(step(t, st));
        assert(is_at(s, i + 1));
    }
}

proof fn lemma_statement_words()
    ensures
        "throw"@ != "try"@,
        "throw"@ != "yield"@,
        "catch"@ != "finally"@,
        "throw"@ != "catch"@,
        "throw"@ != "finally"@,
        "try"@ != "catch"@,
        "try"@ != "finally"@,
{
    reveal_strlit("throw");
    reveal_strlit("try");
    reveal_strlit("yield");
    reveal_strlit("catch");
    reveal_strlit("finally");
    assert("throw"@.len() == 5 && "throw"@[0] == 't');
    assert("try"@.len() == 3);
    assert("yield"@[0] == 'y');
    assert("catch"@.len() == 5 && "catch"@[0] == 'c' && "finally"@.len() == 7);
}

proof fn kind_labeled(t: Seq<TokenV>, i: int, j: int, s: StmtV)
    requires
        0 <= i < t.len() - 2,
        t[i].kind == Tok::Ident,
        t[i + 1].kind == Tok::Colon,
        reads(t, Rule::Statement, i + 2, j, Read::Stmt(s)),
    ensures
        reads(
            t,
            Rule::StatementKind,
            i,
            j,
            Read::Kind((StmtKindV::Labeled { label: t[i].text, body: Box::new(s) })),
        ),
{
    reveal(reads);
    assert forall|st: Place| is_at(st, i) implies is_at(
        (#[trigger] read(t, Rule::StatementKind, st)).1,
        j,
    ) && read(t, Rule::StatementKind, st).0 == Read::Kind(
        StmtKindV::Labeled { label: t[i].text, body: Box::new(s) },
    ) by {
        by_the_rule(t, Rule::StatementKind, st);
        reveal(applied);
        reveal(statement_kind_rule);
    }
}

proof fn kind_simple(t: Seq<TokenV>, i: int, j: int, k: StmtKindV)
    requires
        0 <= i < t.len() - 1,
        reads(t, Rule::SimpleStatement(true), i, j, Read::Kind(k)),
        t[i].kind == Tok::Ident ==> is_plain_word(t[i].text) && t[i + 1].kind != Tok::Colon,
        t[i].kind == Tok::Ident || t[i].kind == Tok::LParen || t[i].kind == Tok::Int || t[i].kind
            == Tok::Long || t[i].kind == Tok::Char || t[i].kind == Tok::Float || t[i].kind
            == Tok::Float32 || t[i].kind == Tok::Str || t[i].kind == Tok::True || t[i].kind
            == Tok::False,
    ensures
        reads(t, Rule::StatementKind, i, j, Read::Kind(k)),
{
    reveal(reads);
    assert forall|st: Place| is_at(st, i) implies is_at(
        (#[trigger] read(t, Rule::StatementKind, st)).1,
        j,
    ) && read(t, Rule::StatementKind, st).0 == Read::Kind(k) by {
        by_the_rule(t, Rule::StatementKind, st);
        reveal(applied);
        reveal(statement_kind_rule);
    }
}

proof fn catches_end(t: Seq<TokenV>, out: Seq<CatchArmV>, i: int)
    requires
        0 <= i < t.len(),
        !word_at(t, i, "catch"@),
    ensures
        catches_up(t, out, i, i, out),
{
    reveal(catches_up);
    assert forall|st: Place| is_at(st, i) implies is_at(
        (#[trigger] read(t, Rule::CatchesRest(out), st)).1,
        i,
    ) && read(t, Rule::CatchesRest(out), st).0 == Read::Catches(out) by {
        by_the_rule(t, Rule::CatchesRest(out), st);
        reveal(applied);
        reveal(catches_rest_rule);
    }
}

/// A handler.
pub open spec fn handler(ty: Seq<char>, name: Seq<char>, body: Seq<StmtV>) -> CatchArmV {
    CatchArmV { types: seq![ty], name, body }
}

#[verifier::rlimit(60)]
proof fn catches_go_on(
    t: Seq<TokenV>,
    out: Seq<CatchArmV>,
    i: int,
    k: int,
    body: Seq<StmtV>,
    j: int,
    v: Seq<CatchArmV>,
)
    requires
        0 <= i < t.len() - 6,
        word_at(t, i, "catch"@),
        t[i + 1].kind == Tok::LParen,
        t[i + 2].kind == Tok::Ident,
        t[i + 2].text != "final"@,
        t[i + 3].kind == Tok::Ident,
        t[i + 4].kind == Tok::RParen,
        t[i + 5].kind == Tok::LBrace,
        reads(t, Rule::Block, i + 6, k, Read::Stmts(body)),
        catches_up(t, out.push(handler(t[i + 2].text, t[i + 3].text, body)), k, j, v),
    ensures
        catches_up(t, out, i, j, v),
{
    reveal(catches_up);
    reveal(reads);
    let c = handler(t[i + 2].text, t[i + 3].text, body);
    assert forall|st: Place| is_at(st, i) implies is_at(
        (#[trigger] read(t, Rule::CatchesRest(out), st)).1,
        j,
    ) && read(t, Rule::CatchesRest(out), st).0 == Read::Catches(v) by {
        by_the_rule(t, Rule::CatchesRest(out), st);
        reveal(applied);
        reveal(catches_rest_rule);
        let s = Place { pos: i + 2, ..st };
        assert(is_at(declared_type(t, s).1, i + 3) && declared_type(t, s).0 == t[i + 2].text);
        let (types, s1) = catch_types(t, s, seq![]);
        assert(types =~= seq![t[i + 2].text] && is_at(s1, i + 3));
    }
}

#[verifier::rlimit(60)]
proof fn kind_try(
    t: Seq<TokenV>,
    i: int,
    k: int,
    body: Seq<StmtV>,
    m: int,
    catches: Seq<CatchArmV>,
    j: int,
    last: Option<Seq<StmtV>>,
)
    requires
        0 <= i < t.len() - 2,
        word_at(t, i, "try"@),
        t[i + 1].kind == Tok::LBrace,
        reads(t, Rule::Block, i + 2, k, Read::Stmts(body)),
        catches_up(t, seq![], k, m, catches),
        match last {
            Some(b) => m < t.len() - 2 && word_at(t, m, "finally"@) && t[m + 1].kind == Tok::LBrace
                && reads(t, Rule::Block, m + 2, j, Read::Stmts(b)) && b.len() > 0,
            None => j == m && !word_at(t, m, "finally"@) && catches.len() > 0,
        },
        k < m || last is Some,
    ensures
        reads(
            t,
            Rule::StatementKind,
            i,
            j,
            Read::Kind(
                (StmtKindV::Try {
                    body,
                    catches,
                    finally_body: match last {
                        Some(b) => b,
                        None => seq![],
                    },
                }),
            ),
        ),
{
    reveal(reads);
    reveal(catches_up);
    let v = StmtKindV::Try {
        body,
        catches,
        finally_body: match last {
            Some(b) => b,
            None => seq![],
        },
    };
    assert forall|st: Place| is_at(st, i) implies is_at(
        (#[trigger] read(t, Rule::StatementKind, st)).1,
        j,
    ) && read(t, Rule::StatementKind, st).0 == Read::Kind(v) by {
        by_the_rule(t, Rule::StatementKind, st);
        by_the_rule(t, Rule::TryStmt, st);
        reveal(applied);
        reveal(statement_kind_rule);
        reveal(try_stmt_rule);
        let s = step(t, exception_seen(st));
        by_the_rule(t, Rule::OptResources, s);
        reveal(opt_resources_rule);
        let s1 = read(t, Rule::OptResources, s).1;
        assert(is_at(s1, i + 1));
        let s2 = read(t, Rule::Block, step(t, s1)).1;
        assert(is_at(s2, k));
        let s3 = read(t, Rule::CatchesRest(seq![]), s2).1;
        assert(is_at(s3, m));
        by_the_rule(t, Rule::OptFinally, s3);
        reveal(opt_finally_rule);
    }
}

// ── Reading what is written ─────────────────────────────────────────────────

/// What a statement that is written starts with.
proof fn lemma_statement_starts(s: StmtV, l: u32)
    requires
        can_write_statement(s, l),
    ensures
        statement_out(s, l).len() > 0,
        statement_out(s, l)[0].kind != Tok::RBrace && statement_out(s, l)[0].kind != Tok::Eof
            && statement_out(s, l)[0].kind != Tok::Else,
        statement_out(s, l)[0].line == l,
        statement_out(s, l)[0].kind == Tok::Ident && !(s.kind is Try) && !(s.kind is Throw)
            ==> is_plain_word(statement_out(s, l)[0].text),
        statement_out(s, l)[0].kind == Tok::Ident ==> statement_out(s, l)[0].text != "catch"@
            && statement_out(s, l)[0].text != "finally"@,
{
    lemma_statement_words();
    match s.kind {
        StmtKindV::Local { ty, name, init } => {
            assert(statement_out(s, l)[0] == word(ty, l));
        },
        StmtKindV::Assign { name, op, value } => {
            assert(statement_out(s, l)[0] == word(name, l));
        },
        StmtKindV::IndexAssign { array, index, op, value } => {
            lemma_starts(array, l);
            assert(statement_out(s, l)[0] == operand(array, l)[0]);
        },
        StmtKindV::FieldAssign { recv, name, op, value } => {
            lemma_starts(recv, l);
            assert(statement_out(s, l)[0] == operand(recv, l)[0]);
        },
        StmtKindV::Expr(e) => {
            lemma_starts(e, l);
            assert(statement_out(s, l)[0] == spelled_out(e, l)[0]);
            if let ExprV::MethodCall { recv, method, args, line } = e {
                lemma_starts(*recv, l);
                assert(spelled_out(e, l)[0] == operand(*recv, l)[0]);
            }
            if let ExprV::Println { newline, err, arg } = e {
                lemma_print_names();
                assert(spelled_out(e, l)[0] == print_head(newline, err, l)[0]);
            }
        },
        StmtKindV::Return(e) => {
            assert(statement_out(s, l)[0] == on(Tok::Return, l));
        },
        _ => {},
    }
}

/// A block that is written out is read back as it is.
pub proof fn block_is_read(t: Seq<TokenV>, i: int, b: Seq<StmtV>, l: u32)
    requires
        can_write_block(b, l),
        no_arrows(t, i),
        holds(t, i, block_out(b, l)),
    ensures
        reads(t, Rule::Block, i + 1, i + block_out(b, l).len(), Read::Stmts(b)),
        reads(t, Rule::BracedOrSingle, i, i + block_out(b, l).len(), Read::Stmts(b)),
        t[i].kind == Tok::LBrace,
    decreases b, 1int,
{
    let head = seq![on(Tok::LBrace, l)];
    let tail = seq![on(Tok::RBrace, l)];
    let w = statements_out(b, l);
    lemma_holds_both(t, i, head, w + tail);
    lemma_holds_both(t, i + 1, w, tail);
    assert(t[i + 0] == head[0]);
    assert(t[i + 1 + w.len() + 0] == tail[0]);
    lemma_statements(t, i + 1, seq![], b, l);
    assert(Seq::<StmtV>::empty() + b =~= b);
    let j = i + 2 + w.len();
    block_of(t, i + 1, j, b);
    braced_of(t, i, j, b);
}

proof fn lemma_statements(t: Seq<TokenV>, i: int, out: Seq<StmtV>, b: Seq<StmtV>, l: u32)
    requires
        can_write_block(b, l),
        no_arrows(t, i),
        holds(t, i, statements_out(b, l)),
        i + statements_out(b, l).len() < t.len() - 1,
        t[i + statements_out(b, l).len()] == on(Tok::RBrace, l),
    ensures
        fills_up(t, out, i, i + statements_out(b, l).len() + 1, out + b),
    decreases b, 0int,
{
    if b.len() == 0 {
        block_ends(t, out, i);
        assert(out + b =~= out);
    } else {
        let rest = b.subrange(1, b.len() as int);
        let w = statement_out(b[0], l);
        lemma_holds_both(t, i, w, statements_out(rest, l));
        let k = i + w.len();
        assert(can_write_statement(b[0], l));
        assert forall|n: int| 0 <= n < rest.len() implies can_write_statement(#[trigger] rest[n], l) by {
            assert(can_write_statement(b[n + 1], l));
        }
        lemma_statement_starts(b[0], l);
        assert(t[i + 0] == w[0]);
        assert(behind_statement(t, k)) by {
            if rest.len() > 0 {
                assert(can_write_statement(rest[0], l));
                lemma_statement_starts(rest[0], l);
                assert(statements_out(rest, l)[0] == statement_out(rest[0], l)[0]);
                assert(t[k + 0] == statements_out(rest, l)[0]);
            }
        }
        statement_is_read(t, i, b[0], l);
        lemma_statements(t, k, out.push(b[0]), rest, l);
        assert(out.push(b[0]) + rest =~= out + b);
        block_goes_on(t, out, i, k, b[0], k + statements_out(rest, l).len() + 1, out + b);
    }
}

/// Whether a token can stand behind a statement: it goes on with none.
pub open spec fn behind_statement(t: Seq<TokenV>, j: int) -> bool {
    kind_at(t, j) != Tok::Else && !word_at(t, j, "catch"@) && !word_at(t, j, "finally"@)
}

/// A statement that is written out is read back as it is: its condition, its
/// branches and bodies, its names and values each in their places.
#[verifier::rlimit(80)]
pub proof fn statement_is_read(t: Seq<TokenV>, i: int, s: StmtV, l: u32)
    requires
        can_write_statement(s, l),
        no_arrows(t, i),
        holds(t, i, statement_out(s, l)),
        behind_statement(t, i + statement_out(s, l).len()),
    ensures
        reads(t, Rule::Statement, i, i + statement_out(s, l).len(), Read::Stmt(s)),
    decreases s, 1int,
{
    let w = statement_out(s, l);
    let j = i + w.len();
    lemma_statement_starts(s, l);
    assert(t[i + 0] == w[0]);
    match s.kind {
        StmtKindV::If { cond, body, els } => {
            let head = seq![on(Tok::If, l), on(Tok::LParen, l)];
            let c = spelled_out(cond, l);
            let close = seq![on(Tok::RParen, l)];
            let b = block_out(body, l);
            let other = seq![on(Tok::Else, l)];
            let rest = if els.len() > 0 {
                other + block_out(els, l)
            } else {
                seq![]
            };
            lemma_holds_both(t, i, head, c + (close + (b + rest)));
            lemma_holds_both(t, i + 2, c, close + (b + rest));
            let k = i + 2 + c.len();
            lemma_holds_both(t, k, close, b + rest);
            lemma_holds_both(t, k + 1, b, rest);
            let m = k + 1 + b.len();
            assert(t[i + 0] == head[0] && t[i + 1] == head[1]);
            assert(t[k + 0] == close[0]);
            written_is_read(t, i + 2, cond, l);
            block_is_read(t, k + 1, body, l);
            if els.len() > 0 {
                lemma_holds_both(t, m, other, block_out(els, l));
                assert(t[m + 0] == other[0]);
                block_is_read(t, m + 1, els, l);
                kind_if(t, i, k, cond, m, body, j, Some(els));
            } else {
                assert(els =~= seq![]);
                kind_if(t, i, k, cond, m, body, j, None);
            }
            statement_of(t, i, j, s);
        },
        StmtKindV::While { cond, body } => {
            let head = seq![on(Tok::While, l), on(Tok::LParen, l)];
            let c = spelled_out(cond, l);
            let close = seq![on(Tok::RParen, l)];
            let b = block_out(body, l);
            lemma_holds_both(t, i, head, c + (close + b));
            lemma_holds_both(t, i + 2, c, close + b);
            let k = i + 2 + c.len();
            lemma_holds_both(t, k, close, b);
            assert(t[i + 0] == head[0] && t[i + 1] == head[1]);
            assert(t[k + 0] == close[0]);
            written_is_read(t, i + 2, cond, l);
            block_is_read(t, k + 1, body, l);
            kind_while(t, i, k, cond, j, body);
            statement_of(t, i, j, s);
        },
        StmtKindV::DoWhile { body, cond } => {
            let head = seq![on(Tok::Do, l)];
            let b = block_out(body, l);
            let mid = seq![on(Tok::While, l), on(Tok::LParen, l)];
            let c = spelled_out(cond, l);
            let close = seq![on(Tok::RParen, l), on(Tok::Semi, l)];
            lemma_holds_both(t, i, head, b + (mid + (c + close)));
            lemma_holds_both(t, i + 1, b, mid + (c + close));
            let m = i + 1 + b.len();
            lemma_holds_both(t, m, mid, c + close);
            lemma_holds_both(t, m + 2, c, close);
            let k = m + 2 + c.len();
            assert(t[m + 0] == mid[0] && t[m + 1] == mid[1]);
            assert(t[k + 0] == close[0] && t[k + 1] == close[1]);
            block_is_read(t, i + 1, body, l);
            written_is_read(t, m + 2, cond, l);
            kind_do(t, i, m, body, k, cond);
            statement_of(t, i, j, s);
        },
        StmtKindV::ForEach { ty, name, iter, body } => {
            let head = seq![
                on(Tok::For, l),
                on(Tok::LParen, l),
                word(ty, l),
                word(name, l),
                on(Tok::Colon, l),
            ];
            let c = spelled_out(iter, l);
            let close = seq![on(Tok::RParen, l)];
            let b = block_out(body, l);
            lemma_holds_both(t, i, head, c + (close + b));
            lemma_holds_both(t, i + 5, c, close + b);
            let k = i + 5 + c.len();
            lemma_holds_both(t, k, close, b);
            assert(t[i + 0] == head[0] && t[i + 1] == head[1] && t[i + 2] == head[2]);
            assert(t[i + 3] == head[3] && t[i + 4] == head[4]);
            assert(t[k + 0] == close[0]);
            written_is_read(t, i + 5, iter, l);
            block_is_read(t, k + 1, body, l);
            kind_foreach(t, i, k, iter, j, body);
            statement_of(t, i, j, s);
        },
        StmtKindV::For { init, cond, update, body } => {
            lemma_for(t, i, s, init, cond->0, update, body, l);
        },
        StmtKindV::Return(e) => {
            let head = seq![on(Tok::Return, l)];
            let tail = seq![on(Tok::Semi, l)];
            match e {
                Some(x) => {
                    let c = spelled_out(x, l);
                    lemma_holds_both(t, i, head, c + tail);
                    lemma_holds_both(t, i + 1, c, tail);
                    lemma_starts(x, l);
                    assert(t[i + 1 + 0] == c[0]);
                    assert(t[i + 1 + c.len() + 0] == tail[0]);
                    written_is_read(t, i + 1, x, l);
                    kind_return(t, i, i + 1 + c.len(), e);
                },
                None => {
                    assert(t[i + 1] == w[1]);
                    kind_return(t, i, i + 1, e);
                },
            }
            statement_of(t, i, j, s);
        },
        StmtKindV::Break(label) => {
            lemma_jump(t, i, s, label, true, l);
        },
        StmtKindV::Continue(label) => {
            lemma_jump(t, i, s, label, false, l);
        },
        StmtKindV::Throw(e) => {
            let head = seq![word("throw"@, l)];
            let tail = seq![on(Tok::Semi, l)];
            let c = spelled_out(e, l);
            lemma_holds_both(t, i, head, c + tail);
            lemma_holds_both(t, i + 1, c, tail);
            lemma_starts(e, l);
            assert(t[i + 0] == head[0]);
            assert(t[i + 1 + 0] == c[0]);
            assert(t[i + 1 + c.len() + 0] == tail[0]);
            written_is_read(t, i + 1, e, l);
            kind_throw(t, i, i + 1 + c.len(), e);
            statement_of(t, i, j, s);
        },
        StmtKindV::Labeled { label, body } => {
            let head = seq![word(label, l), on(Tok::Colon, l)];
            lemma_holds_both(t, i, head, statement_out(*body, l));
            assert(t[i + 0] == head[0] && t[i + 1] == head[1]);
            statement_is_read(t, i + 2, *body, l);
            kind_labeled(t, i, j, *body);
            statement_of(t, i, j, s);
        },
        StmtKindV::Try { body, catches, finally_body } => {
            let head = seq![word("try"@, l)];
            let b = block_out(body, l);
            let c = catches_out(catches, l);
            let f = finally_out(finally_body, l);
            lemma_holds_both(t, i, head, b + (c + f));
            lemma_holds_both(t, i + 1, b, c + f);
            let k = i + 1 + b.len();
            lemma_holds_both(t, k, c, f);
            let m = k + c.len();
            assert(t[i + 0] == head[0]);
            block_is_read(t, i + 1, body, l);
            lemma_statement_words();
            if finally_body.len() > 0 {
                let mark = seq![word("finally"@, l)];
                lemma_holds_both(t, m, mark, block_out(finally_body, l));
                assert(t[m + 0] == mark[0]);
                block_is_read(t, m + 1, finally_body, l);
            } else {
                assert(finally_body =~= seq![]);
                assert(f =~= seq![]);
            }
            assert(!word_at(t, m, "catch"@));
            lemma_catches(t, k, seq![], catches, l);
            assert(Seq::<CatchArmV>::empty() + catches =~= catches);
            if finally_body.len() > 0 {
                kind_try(t, i, k, body, m, catches, j, Some(finally_body));
            } else {
                assert(c.len() > 0) by {
                    assert(catches.len() > 0);
                }
                kind_try(t, i, k, body, m, catches, j, None);
            }
            statement_of(t, i, j, s);
        },
        _ => {
            let c = simple_out(s.kind, l);
            let tail = seq![on(Tok::Semi, l)];
            lemma_holds_both(t, i, c, tail);
            assert(t[i + c.len() + 0] == tail[0]);
            simple_is_read(t, i, s.kind, l, true);
            lemma_simple_starts(s.kind, l);
            assert(t[i + 0] == c[0]);
            if c[0].kind == Tok::Ident {
                assert(t[i + 1] == c[1]);
            }
            kind_simple(t, i, j, s.kind);
            statement_of(t, i, j, s);
        },
    }
}

proof fn lemma_simple_starts(k: StmtKindV, l: u32)
    requires
        can_write_simple(k, l),
    ensures
        simple_out(k, l).len() > 0,
        ({
            let x = simple_out(k, l)[0].kind;
            x == Tok::Ident || x == Tok::LParen || x == Tok::Int || x == Tok::Long || x == Tok::Char
                || x == Tok::Float || x == Tok::Float32 || x == Tok::Str || x == Tok::True || x
                == Tok::False
        }),
        simple_out(k, l)[0].line == l,
        simple_out(k, l)[0].kind == Tok::Ident ==> is_plain_word(simple_out(k, l)[0].text)
            && simple_out(k, l).len() > 1 && simple_out(k, l)[1].kind != Tok::Colon,
        k is Local ==> simple_out(k, l)[1].kind == Tok::Ident && (simple_out(k, l).len() > 2
            ==> simple_out(k, l)[2].kind == Tok::Assign),
        simple_out(k, l)[0].kind == Tok::Ident && !(k is Local) ==> simple_out(k, l)[1].kind
            != Tok::Ident && simple_out(k, l)[1].kind != Tok::Lt && simple_out(k, l)[1].kind
            != Tok::LBracket,
        simple_out(k, l)[0].kind == Tok::Ident && simple_out(k, l)[1].kind == Tok::Dot
            ==> simple_out(k, l).len() > 6 && simple_out(k, l)[2].kind == Tok::Ident && simple_out(
            k,
            l,
        )[3].kind == Tok::Dot && simple_out(k, l)[4].kind == Tok::Ident && simple_out(k, l)[5].kind
            == Tok::LParen,
{
    match k {
        StmtKindV::Local { ty, name, init } => {},
        StmtKindV::Assign { name, op, value } => {},
        StmtKindV::IndexAssign { array, index, op, value } => {
            lemma_starts(array, l);
            assert(simple_out(k, l)[0] == operand(array, l)[0]);
        },
        StmtKindV::FieldAssign { recv, name, op, value } => {
            lemma_starts(recv, l);
            assert(simple_out(k, l)[0] == operand(recv, l)[0]);
        },
        StmtKindV::Expr(e) => {
            match e {
                ExprV::MethodCall { recv, method, args, line } => {
                    lemma_starts(*recv, l);
                    assert(simple_out(k, l)[0] == operand(*recv, l)[0]);
                },
                ExprV::Call { name, args, line } => {
                    assert(simple_out(k, l)[0] == word(name, l));
                    assert(simple_out(k, l)[1] == on(Tok::LParen, l));
                },
                ExprV::Println { newline, err, arg } => {
                    lemma_print_names();
                    let head = print_head(newline, err, l);
                    assert(simple_out(k, l)[0] == head[0] && simple_out(k, l)[1] == head[1]);
                    assert(simple_out(k, l)[2] == head[2] && simple_out(k, l)[3] == head[3]);
                    assert(simple_out(k, l)[4] == head[4] && simple_out(k, l)[5] == head[5]);
                },
                _ => {},
            }
        },
        _ => {},
    }
}

proof fn lemma_jump(t: Seq<TokenV>, i: int, s: StmtV, label: Option<Seq<char>>, leaves: bool, l: u32)
    requires
        s.line == l,
        s.kind == if leaves {
            StmtKindV::Break(label)
        } else {
            StmtKindV::Continue(label)
        },
        holds(t, i, statement_out(s, l)),
    ensures
        reads(t, Rule::Statement, i, i + statement_out(s, l).len(), Read::Stmt(s)),
{
    let w = statement_out(s, l);
    assert(t[i + 0] == w[0]);
    assert(t[i + 1] == w[1]);
    if label is Some {
        assert(t[i + 2] == w[2]);
    }
    kind_jump(t, i, label, leaves);
    statement_of(t, i, i + w.len(), s);
}

#[verifier::rlimit(60)]
proof fn lemma_for(
    t: Seq<TokenV>,
    i: int,
    s: StmtV,
    init: Seq<StmtV>,
    cond: ExprV,
    update: Seq<StmtV>,
    body: Seq<StmtV>,
    l: u32,
)
    requires
        can_write_statement(s, l),
        s.kind == (StmtKindV::For { init, cond: Some(cond), update, body }),
        no_arrows(t, i),
        holds(t, i, statement_out(s, l)),
    ensures
        reads(t, Rule::Statement, i, i + statement_out(s, l).len(), Read::Stmt(s)),
    decreases s, 0int,
{
    let head = seq![on(Tok::For, l), on(Tok::LParen, l)];
    let x = simple_out(init[0].kind, l);
    let semi = seq![on(Tok::Semi, l)];
    let c = spelled_out(cond, l);
    let y = simple_out(update[0].kind, l);
    let close = seq![on(Tok::RParen, l)];
    let b = block_out(body, l);
    lemma_holds_both(t, i, head, x + (semi + (c + (semi + (y + (close + b))))));
    lemma_holds_both(t, i + 2, x, semi + (c + (semi + (y + (close + b)))));
    let a = i + 2 + x.len();
    lemma_holds_both(t, a, semi, c + (semi + (y + (close + b))));
    lemma_holds_both(t, a + 1, c, semi + (y + (close + b)));
    let k = a + 1 + c.len();
    lemma_holds_both(t, k, semi, y + (close + b));
    lemma_holds_both(t, k + 1, y, close + b);
    let m = k + 1 + y.len();
    lemma_holds_both(t, m, close, b);
    let j = m + 1 + b.len();
    assert(t[i + 0] == head[0] && t[i + 1] == head[1]);
    assert(t[a + 0] == semi[0]);
    assert(t[k + 0] == semi[0]);
    assert(t[m + 0] == close[0]);
    lemma_simple_starts(init[0].kind, l);
    lemma_simple_starts(update[0].kind, l);
    lemma_starts(cond, l);
    assert(t[i + 2 + 0] == x[0]);
    assert(t[k + 1 + 0] == y[0]);
    assert(t[a + 1 + 0] == c[0]);
    simple_is_read(t, i + 2, init[0].kind, l, false);
    written_is_read(t, a + 1, cond, l);
    simple_is_read(t, k + 1, update[0].kind, l, false);
    assert(decreases_to!(s => s.kind));
    assert(decreases_to!(s => s.kind->For_body));
    block_is_read(t, m + 1, body, l);
    assert(decl_ahead(t, i + 2) ==> t[i + 2].kind == Tok::Ident && t[i + 2].text != "final"@ && t[i
        + 3].kind == Tok::Ident && t[i + 4].kind != Tok::Colon) by {
        if x[0].kind == Tok::Ident {
            assert(t[i + 2 + 1] == x[1]);
            if init[0].kind is Local {
                if x.len() > 2 {
                    assert(t[i + 2 + 2] == x[2]);
                }
            } else {
                if x[1].kind == Tok::Dot {
                    assert(t[i + 2 + 2] == x[2] && t[i + 2 + 3] == x[3]);
                    assert(t[i + 2 + 4] == x[4] && t[i + 2 + 5] == x[5]);
                    let p = i + 2;
                    assert(after_package(t, p + 4) == p + 5);
                    assert(after_package(t, p + 2) == p + 3 || after_package(t, p + 2) == p + 5);
                    assert(after_package(t, p) == p + 1 || after_package(t, p) == p + 3
                        || after_package(t, p) == p + 5);
                }
                assert(!decl_ahead(t, i + 2));
            }
        }
    }
    kind_for(t, i, a, init[0].kind, k, cond, m, update[0].kind, j, body);
    assert(init =~= seq![init[0]]);
    assert(update =~= seq![update[0]]);
    statement_of(t, i, j, s);
}

proof fn lemma_catches(t: Seq<TokenV>, i: int, out: Seq<CatchArmV>, cs: Seq<CatchArmV>, l: u32)
    requires
        can_write_catches(cs, l),
        no_arrows(t, i),
        holds(t, i, catches_out(cs, l)),
        !word_at(t, i + catches_out(cs, l).len(), "catch"@),
    ensures
        catches_up(t, out, i, i + catches_out(cs, l).len(), out + cs),
    decreases cs, 0int,
{
    if cs.len() == 0 {
        catches_end(t, out, i);
        assert(out + cs =~= out);
    } else {
        let rest = cs.subrange(1, cs.len() as int);
        let c = cs[0];
        assert(can_write_catch(c, l));
        assert forall|n: int| 0 <= n < rest.len() implies can_write_catch(#[trigger] rest[n], l) by {
            assert(can_write_catch(cs[n + 1], l));
        }
        let head = seq![
            word("catch"@, l),
            on(Tok::LParen, l),
            word(c.types[0], l),
            word(c.name, l),
            on(Tok::RParen, l),
        ];
        let b = block_out(c.body, l);
        lemma_holds_both(t, i, head, b + catches_out(rest, l));
        lemma_holds_both(t, i + 5, b, catches_out(rest, l));
        let k = i + 5 + b.len();
        assert(t[i + 0] == head[0] && t[i + 1] == head[1] && t[i + 2] == head[2]);
        assert(t[i + 3] == head[3] && t[i + 4] == head[4]);
        assert(decreases_to!(cs => cs[0]));
        block_is_read(t, i + 5, c.body, l);
        lemma_catches(t, k, out.push(c), rest, l);
        assert(out.push(c) + rest =~= out + cs);
        assert(c.types =~= seq![c.types[0]]);
        assert(handler(c.types[0], c.name, c.body) == c);
        catches_go_on(
            t,
            out,
            i,
            k,
            c.body,
            k + catches_out(rest, l).len(),
            out + cs,
        );
    }
}

/// `if (C) A; else B;` without braces has A as its first branch and B as the
/// other.
pub proof fn branches_without_braces(
    t: Seq<TokenV>,
    i: int,
    cond: ExprV,
    a: StmtKindV,
    b: StmtKindV,
    l: u32,
)
    requires
        can_write(cond, l),
        can_write_simple(a, l),
        can_write_simple(b, l),
        no_arrows(t, i),
        holds(
            t,
            i,
            seq![on(Tok::If, l), on(Tok::LParen, l)] + (spelled_out(cond, l) + (seq![
                on(Tok::RParen, l),
            ] + (simple_out(a, l) + (seq![on(Tok::Semi, l), on(Tok::Else, l)] + (simple_out(b, l)
                + seq![on(Tok::Semi, l)]))))),
        ),
    ensures
        reads(
            t,
            Rule::StatementKind,
            i,
            i + 6 + spelled_out(cond, l).len() + simple_out(a, l).len() + simple_out(b, l).len(),
            Read::Kind(
                (StmtKindV::If {
                    cond,
                    body: seq![StmtV { line: l, kind: a }],
                    els: seq![StmtV { line: l, kind: b }],
                }),
            ),
        ),
{
    let head = seq![on(Tok::If, l), on(Tok::LParen, l)];
    let c = spelled_out(cond, l);
    let close = seq![on(Tok::RParen, l)];
    let x = simple_out(a, l);
    let mid = seq![on(Tok::Semi, l), on(Tok::Else, l)];
    let y = simple_out(b, l);
    let end = seq![on(Tok::Semi, l)];
    lemma_holds_both(t, i, head, c + (close + (x + (mid + (y + end)))));
    lemma_holds_both(t, i + 2, c, close + (x + (mid + (y + end))));
    let k = i + 2 + c.len();
    lemma_holds_both(t, k, close, x + (mid + (y + end)));
    lemma_holds_both(t, k + 1, x, mid + (y + end));
    let m = k + 1 + x.len();
    lemma_holds_both(t, m, mid, y + end);
    lemma_holds_both(t, m + 2, y, end);
    let n = m + 2 + y.len();
    assert(t[i + 0] == head[0] && t[i + 1] == head[1]);
    assert(t[k + 0] == close[0]);
    assert(t[m + 0] == mid[0] && t[m + 1] == mid[1]);
    assert(t[n + 0] == end[0]);
    written_is_read(t, i + 2, cond, l);
    lemma_branch(t, k + 1, a, l);
    lemma_branch(t, m + 2, b, l);
    let first = seq![StmtV { line: l, kind: a }];
    let other = seq![StmtV { line: l, kind: b }];
    kind_if(t, i, k, cond, m + 1, first, n + 1, Some(other));
}

proof fn lemma_branch(t: Seq<TokenV>, i: int, k: StmtKindV, l: u32)
    requires
        can_write_simple(k, l),
        no_arrows(t, i),
        holds(t, i, simple_out(k, l)),
        i + simple_out(k, l).len() < t.len() - 1,
        t[i + simple_out(k, l).len()].kind == Tok::Semi,
    ensures
        reads(
            t,
            Rule::BracedOrSingle,
            i,
            i + simple_out(k, l).len() + 1,
            Read::Stmts(seq![(StmtV { line: l, kind: k })]),
        ),
{
    let c = simple_out(k, l);
    let j = i + c.len() + 1;
    let s = StmtV { line: l, kind: k };
    simple_is_read(t, i, k, l, true);
    lemma_simple_starts(k, l);
    assert(t[i + 0] == c[0]);
    if c[0].kind == Tok::Ident {
        assert(t[i + 1] == c[1]);
    }
    kind_simple(t, i, j, k);
    statement_of(t, i, j, s);
    single_of(t, i, j, s);
}

// ── Switches ────────────────────────────────────────────────────────────────

/// Labels written out.
pub open spec fn labels_out(labels: Seq<ExprV>, l: u32) -> Seq<TokenV>
    decreases labels.len(),
{
    if labels.len() == 0 {
        seq![]
    } else {
        seq![on(Tok::Case, l)] + (operand(labels[0], l) + (seq![on(Tok::Colon, l)] + labels_out(
            labels.subrange(1, labels.len() as int),
            l,
        )))
    }
}

/// A group of a `switch` written out: its labels, `default` where it is that, and
/// its statements.
pub open spec fn group_out(g: SwitchGroupV, l: u32) -> Seq<TokenV> {
    labels_out(g.labels, l) + (if g.is_default {
        seq![on(Tok::Default, l), on(Tok::Colon, l)]
    } else {
        seq![]
    } + statements_out(g.body, l))
}

/// Groups one behind another.
pub open spec fn groups_out(gs: Seq<SwitchGroupV>, l: u32) -> Seq<TokenV>
    decreases gs.len(),
{
    if gs.len() == 0 {
        seq![]
    } else {
        group_out(gs[0], l) + groups_out(gs.subrange(1, gs.len() as int), l)
    }
}

/// Whether a group can be written out.
pub open spec fn can_write_group(g: SwitchGroupV, l: u32) -> bool {
    &&& g.labels.len() > 0 || g.is_default
    &&& g.body.len() > 0 && can_write_block(g.body, l)
    &&& forall|k: int| 0 <= k < g.labels.len() ==> can_write(#[trigger] g.labels[k], l)
}

/// Whether a token ends the statements of a group.
pub open spec fn ends_group(k: Tok) -> bool {
    k == Tok::Case || k == Tok::Default || k == Tok::RBrace
}

proof fn lemma_labels(
    t: Seq<TokenV>,
    i: int,
    st: Place,
    done: Seq<ExprV>,
    labels: Seq<ExprV>,
    is_default: bool,
    l: u32,
)
    requires
        forall|k: int| 0 <= k < labels.len() ==> can_write(#[trigger] labels[k], l),
        no_arrows(t, i),
        holds(
            t,
            i,
            labels_out(labels, l) + if is_default {
                seq![on(Tok::Default, l), on(Tok::Colon, l)]
            } else {
                seq![]
            },
        ),
        ({
            let j = i + labels_out(labels, l).len() + (if is_default {
                2int
            } else {
                0
            });
            t[j].kind != Tok::Case && t[j].kind != Tok::Default
        }),
        is_at(st, i),
    ensures
        read(t, Rule::GroupLabels(done, false), st).0 == Read::Labels((done + labels, is_default)),
        is_at(
            read(t, Rule::GroupLabels(done, false), st).1,
            i + labels_out(labels, l).len() + (if is_default {
                2int
            } else {
                0
            }),
        ),
    decreases labels.len(),
{
    let mark = if is_default {
        seq![on(Tok::Default, l), on(Tok::Colon, l)]
    } else {
        seq![]
    };
    by_the_rule(t, Rule::GroupLabels(done, false), st);
    reveal(applied);
    reveal(group_labels_rule);
    if labels.len() == 0 {
        assert(labels_out(labels, l) + mark =~= mark);
        assert(done + labels =~= done);
        if is_default {
            assert(t[i + 0] == mark[0] && t[i + 1] == mark[1]);
            let s = step(t, step(t, st));
            assert(is_at(s, i + 2));
            by_the_rule(t, Rule::GroupLabels(done, true), s);
        }
    } else {
        let rest = labels.subrange(1, labels.len() as int);
        let head = seq![on(Tok::Case, l)];
        let x = operand(labels[0], l);
        let colon = seq![on(Tok::Colon, l)];
        let tail = labels_out(rest, l) + mark;
        assert(labels_out(labels, l) + mark =~= head + (x + (colon + tail)));
        lemma_holds_both(t, i, head, x + (colon + tail));
        lemma_holds_both(t, i + 1, x, colon + tail);
        let k = i + 1 + x.len();
        lemma_holds_both(t, k, colon, tail);
        assert(t[i + 0] == head[0]);
        assert(t[k + 0] == colon[0]);
        assert(can_write(labels[0], l));
        label_is_read(t, i + 1, labels[0], l);
        reveal(reads);
        let s = read(t, Rule::Binary(0), step(t, st)).1;
        assert(is_at(s, k));
        assert forall|n: int| 0 <= n < rest.len() implies can_write(#[trigger] rest[n], l) by {
            assert(can_write(labels[n + 1], l));
        }
        lemma_labels(t, k + 1, step(t, s), done.push(labels[0]), rest, is_default, l);
        assert(done.push(labels[0]) + rest =~= done + labels);
    }
}

proof fn lemma_group_body(t: Seq<TokenV>, i: int, st: Place, out: Seq<StmtV>, b: Seq<StmtV>, l: u32)
    requires
        can_write_block(b, l),
        no_arrows(t, i),
        holds(t, i, statements_out(b, l)),
        ends_group(t[i + statements_out(b, l).len()].kind),
        is_at(st, i),
    ensures
        read(t, Rule::GroupBody(out), st).0 == Read::Stmts(out + b),
        is_at(read(t, Rule::GroupBody(out), st).1, i + statements_out(b, l).len()),
    decreases b.len(),
{
    by_the_rule(t, Rule::GroupBody(out), st);
    reveal(applied);
    reveal(group_body_rule);
    if b.len() == 0 {
        assert(out + b =~= out);
    } else {
        let rest = b.subrange(1, b.len() as int);
        let w = statement_out(b[0], l);
        lemma_holds_both(t, i, w, statements_out(rest, l));
        let k = i + w.len();
        assert(can_write_statement(b[0], l));
        assert forall|n: int| 0 <= n < rest.len() implies can_write_statement(#[trigger] rest[n], l) by {
            assert(can_write_statement(b[n + 1], l));
        }
        lemma_statement_starts(b[0], l);
        lemma_no_label(b[0], l);
        assert(t[i + 0] == w[0]);
        assert(behind_statement(t, k)) by {
            if rest.len() > 0 {
                assert(can_write_statement(rest[0], l));
                lemma_statement_starts(rest[0], l);
                assert(statements_out(rest, l)[0] == statement_out(rest[0], l)[0]);
                assert(t[k + 0] == statements_out(rest, l)[0]);
            }
        }
        statement_is_read(t, i, b[0], l);
        reveal(reads);
        let s = read(t, Rule::Statement, st).1;
        assert(is_at(s, k));
        lemma_group_body(t, k, s, out.push(b[0]), rest, l);
        assert(out.push(b[0]) + rest =~= out + b);
    }
}

proof fn lemma_no_label(s: StmtV, l: u32)
    requires
        can_write_statement(s, l),
    ensures
        statement_out(s, l)[0].kind != Tok::Case && statement_out(s, l)[0].kind != Tok::Default,
{
    match s.kind {
        StmtKindV::Local { ty, name, init } => {
            assert(statement_out(s, l)[0] == word(ty, l));
        },
        StmtKindV::Assign { name, op, value } => {
            assert(statement_out(s, l)[0] == word(name, l));
        },
        StmtKindV::IndexAssign { .. } | StmtKindV::FieldAssign { .. } | StmtKindV::Expr(_) => {
            lemma_simple_starts(s.kind, l);
            assert(statement_out(s, l)[0] == simple_out(s.kind, l)[0]);
        },
        StmtKindV::Return(e) => {
            assert(statement_out(s, l)[0] == on(Tok::Return, l));
        },
        _ => {},
    }
}

/// The groups of a `switch` that are written out are read back as they are: their
/// labels, which of them is the default, and their statements, in their order.
#[verifier::rlimit(80)]
pub proof fn groups_are_read(t: Seq<TokenV>, i: int, st: Place, out: Seq<SwitchGroupV>, gs: Seq<SwitchGroupV>, l: u32)
    requires
        forall|k: int| 0 <= k < gs.len() ==> can_write_group(#[trigger] gs[k], l),
        no_arrows(t, i),
        holds(t, i, groups_out(gs, l)),
        i + groups_out(gs, l).len() < t.len() - 1,
        t[i + groups_out(gs, l).len()].kind == Tok::RBrace,
        is_at(st, i),
    ensures
        read(t, Rule::GroupsRest(out), st).0 == Read::Groups(out + gs),
        is_at(read(t, Rule::GroupsRest(out), st).1, i + groups_out(gs, l).len() + 1),
    decreases gs.len(),
{
    by_the_rule(t, Rule::GroupsRest(out), st);
    reveal(applied);
    reveal(groups_rest_rule);
    if gs.len() == 0 {
        assert(out + gs =~= out);
    } else {
        let rest = gs.subrange(1, gs.len() as int);
        let g = gs[0];
        assert(can_write_group(g, l));
        let a = labels_out(g.labels, l);
        let mark = if g.is_default {
            seq![on(Tok::Default, l), on(Tok::Colon, l)]
        } else {
            seq![]
        };
        let b = statements_out(g.body, l);
        let more = groups_out(rest, l);
        assert(groups_out(gs, l) =~= (a + mark) + (b + more));
        lemma_holds_both(t, i, a + mark, b + more);
        let m = i + (a + mark).len();
        lemma_holds_both(t, m, b, more);
        let k = m + b.len();
        assert(can_write_statement(g.body[0], l));
        lemma_statement_starts(g.body[0], l);
        lemma_no_label(g.body[0], l);
        assert(b[0] == statement_out(g.body[0], l)[0]);
        assert(t[m + 0] == b[0]);
        assert(t[i].kind == Tok::Case || t[i].kind == Tok::Default) by {
            assert(t[i + 0] == (a + mark)[0]);
            if g.labels.len() > 0 {
                assert(a[0] == on(Tok::Case, l));
            }
        }
        lemma_labels(t, i, st, seq![], g.labels, g.is_default, l);
        assert(Seq::<ExprV>::empty() + g.labels =~= g.labels);
        let s = read(t, Rule::GroupLabels(seq![], false), st).1;
        assert(is_at(s, m));
        assert(ends_group(t[k].kind)) by {
            if rest.len() > 0 {
                assert(can_write_group(gs[1], l));
                assert(rest[0] == gs[1]);
                let h = rest[0];
                let x = labels_out(h.labels, l);
                let y = if h.is_default {
                    seq![on(Tok::Default, l), on(Tok::Colon, l)]
                } else {
                    seq![]
                };
                if h.labels.len() > 0 {
                    assert(x[0] == on(Tok::Case, l));
                    assert(more[0] == x[0]);
                } else {
                    assert(more[0] == y[0]);
                }
                assert(t[k + 0] == more[0]);
            }
        }
        lemma_group_body(t, m, s, seq![], g.body, l);
        assert(Seq::<StmtV>::empty() + g.body =~= g.body);
        let s2 = read(t, Rule::GroupBody(seq![]), s).1;
        assert(is_at(s2, k));
        assert forall|n: int| 0 <= n < rest.len() implies can_write_group(#[trigger] rest[n], l) by {
            assert(can_write_group(gs[n + 1], l));
        }
        groups_are_read(t, k, s2, out.push(g), rest, l);
        assert(out.push(g) + rest =~= out + gs);
    }
}

} // verus!
