//! What every rule of the grammar keeps.
use vstd::prelude::*;

use crate::ast::{CatchArmV, ExprV, StmtV, SwitchArmV, SwitchGroupV};
use crate::lexer::{Tok, TokenV};
use crate::parser::grammar::{
    ResourceV, Rule, Sub, applied, args_rest_rule, arm_body_rule, arms_rest_rule,
    array_elems_rule, binary_rest_rule, binary_rule, block_rest_rule, block_rule,
    braced_or_single_rule, by_the_rule, call_args_rule, catch_types, catches_rest_rule,
    clause_rest_rule, declarators_rule, do_stmt_rule, expression_rule, for_clause_rule,
    for_cond_rule, for_stmt_rule, group_body_rule, group_labels_rule, groups_rest_rule,
    if_stmt_rule, labels_rest_rule, lambda_body_rule, lambda_params, lambda_type_ahead, level,
    named_rule, new_expr_rule, opt_finally_rule, opt_init_rule, opt_resources_rule, parts,
    postfix_rest_rule, postfix_rule, primary_rule, read, resource_rule, resources_rest_rule,
    return_stmt_rule, simple_statement_rule, sizes_rest_rule, statement_kind_rule, statement_rule,
    switch_expr_rule, switch_stmt_rule, synchronized_stmt_rule, system_out_rule, try_stmt_rule,
    unary_rule, usable, var_init_rule, while_stmt_rule,
};
use crate::parser::names::{
    bracket_pairs, brackets, declarator, declared_type, simple_rest, simple_type,
    skipped_generics, starts_lower,
};
use crate::parser::tokens::{Place, eat, eat_word, ident, kind_at, left, moved, step, text_of_token};
use crate::prelude::functional;

verus! {

/// Whether a place is one that a rule may leave behind: an error stays one, and
/// without one the place is the same or later, inside as many arms, and nothing
/// that was seen is forgotten.
pub open spec fn carried(t: Seq<TokenV>, st: Place, s: Place) -> bool {
    &&& st.err is Some ==> s.err is Some
    &&& s.err is None ==> {
        &&& st.pos <= s.pos
        &&& st.pos < t.len() ==> s.pos < t.len()
        &&& s.depth == st.depth
        &&& st.exc ==> s.exc
        &&& st.fun ==> s.fun
    }
}

/// Whether a rule reads a token at least.
pub open spec fn reads_some(r: Rule) -> bool {
    match r {
        Rule::BinaryRest(..) => false,
        Rule::PostfixRest(..) => false,
        Rule::SizesRest(..) => false,
        Rule::GroupBody(..) => false,
        Rule::OptInit => false,
        Rule::ForCond => false,
        Rule::ForClause(..) => false,
        Rule::OptFinally => false,
        Rule::CatchesRest(..) => false,
        Rule::OptResources => false,
        Rule::GroupLabels(..) => false,
        _ => true,
    }
}

/// Whether what a rule leaves behind is in order.
pub open spec fn in_step(t: Seq<TokenV>, r: Rule, st: Place, s: Place) -> bool {
    carried(t, st, s) && (reads_some(r) && s.err is None ==> st.pos < s.pos)
}

/// Whether all parts are read in order.
pub open spec fn steady(t: Seq<TokenV>, g: Sub) -> bool {
    forall|r: Rule, st: Place|
        #![trigger (g.read)(r, st)]
        in_step(t, r, st, (g.read)(r, st).1)
}

// ── Names ───────────────────────────────────────────────────────────────────

proof fn simple_rest_carries(t: Seq<TokenV>, name: Seq<char>, st: Place)
    ensures
        carried(t, st, simple_rest(t, name, st).1),
    decreases left(t, st),
{
    if left(t, st) > 0 && starts_lower(name) && kind_at(t, st.pos) == Tok::Dot && kind_at(
        t,
        st.pos + 1,
    ) == Tok::Ident {
        simple_rest_carries(t, text_of_token(t, st.pos + 1), step(t, step(t, st)));
    }
}

proof fn brackets_carry(t: Seq<TokenV>, ty: Seq<char>, st: Place)
    ensures
        carried(t, st, brackets(t, ty, st).1),
    decreases left(t, st),
{
    if left(t, st) > 0 && kind_at(t, st.pos) == Tok::LBracket {
        brackets_carry(t, ty + "[]"@, eat(t, step(t, st), Tok::RBracket));
    }
}

proof fn bracket_pairs_carry(t: Seq<TokenV>, ty: Seq<char>, st: Place)
    ensures
        carried(t, st, bracket_pairs(t, ty, st).1),
    decreases left(t, st),
{
    if left(t, st) > 0 && kind_at(t, st.pos) == Tok::LBracket && kind_at(t, st.pos + 1)
        == Tok::RBracket {
        bracket_pairs_carry(t, ty + "[]"@, step(t, step(t, st)));
    }
}

/// A name and what belongs to it keep the flags and the depth; where they end
/// depends on how type arguments are closed.
proof fn type_keeps_flags(t: Seq<TokenV>, st: Place)
    ensures
        ({
            let s = declared_type(t, st).1;
            &&& st.err is Some ==> s.err is Some
            &&& s.err is None ==> s.depth == st.depth && (st.exc ==> s.exc) && (st.fun ==> s.fun)
        }),
{
    let (name, s) = simple_type(t, st);
    simple_type_carries(t, st);
    if s.err is None {
        brackets_carry(
            t,
            name,
            skipped_generics(t, Place { fun: s.fun || functional(name), ..s }),
        );
    }
}

proof fn simple_type_carries(t: Seq<TokenV>, st: Place)
    ensures
        carried(t, st, simple_type(t, st).1),
{
    simple_rest_carries(t, ident(t, st).0, ident(t, st).1);
}

proof fn declarator_carries(t: Seq<TokenV>, st: Place, base: Seq<char>)
    ensures
        carried(t, st, declarator(t, st, base).1),
{
    bracket_pairs_carry(t, base, ident(t, st).1);
}

proof fn lambda_params_carry(t: Seq<TokenV>, st: Place, out: Seq<Seq<char>>)
    ensures
        carried(t, st, lambda_params(t, st, out).1),
    decreases left(t, st),
{
    if left(t, st) > 0 && kind_at(t, st.pos) != Tok::RParen {
        let s1 = eat_word(t, st, "final"@);
        type_keeps_flags(t, s1);
        let s2 = if lambda_type_ahead(t, s1.pos) {
            declared_type(t, s1).1
        } else {
            s1
        };
        let (name, s3) = ident(t, s2);
        let s = moved(t, st, s3);
        if s.err is None && kind_at(t, s.pos) == Tok::Comma {
            lambda_params_carry(t, step(t, s), out.push(name));
        }
    }
}

proof fn catch_types_carry(t: Seq<TokenV>, st: Place, out: Seq<Seq<char>>)
    ensures
        carried(t, st, catch_types(t, st, out).1),
    decreases left(t, st),
{
    if left(t, st) > 0 {
        type_keeps_flags(t, st);
        let (ty, s0) = declared_type(t, st);
        let s = moved(t, st, s0);
        if s.err is None && kind_at(t, s.pos) == Tok::Pipe {
            catch_types_carry(t, step(t, s), out.push(ty));
        }
    }
}

// ── Rules ───────────────────────────────────────────────────────────────────

proof fn expression_steps(t: Seq<TokenV>, g: Sub, st: Place)
    requires
        steady(t, g),
    ensures
        in_step(
            t,
            Rule::Expression,
            st,
            expression_rule(t, g, st).1,
        ),
{
    reveal(expression_rule);
    lambda_params_carry(t, step(t, st), seq![]);
}

proof fn lambda_body_steps(t: Seq<TokenV>, g: Sub, st: Place)
    requires
        steady(t, g),
    ensures
        in_step(
            t,
            Rule::LambdaBody,
            st,
            lambda_body_rule(t, g, st).1,
        ),
{
    reveal(lambda_body_rule);
}

proof fn binary_steps(t: Seq<TokenV>, g: Sub, st: Place, min_bp: u8)
    requires
        steady(t, g),
    ensures
        in_step(
            t,
            Rule::Binary(min_bp),
            st,
            binary_rule(t, g, st, min_bp).1,
        ),
{
    reveal(binary_rule);
}

proof fn binary_rest_steps(t: Seq<TokenV>, g: Sub, st: Place, lhs: ExprV, min_bp: u8)
    requires
        steady(t, g),
    ensures
        in_step(
            t,
            Rule::BinaryRest(lhs, min_bp),
            st,
            binary_rest_rule(t, g, st, lhs, min_bp).1,
        ),
{
    reveal(binary_rest_rule);
}

proof fn unary_steps(t: Seq<TokenV>, g: Sub, st: Place)
    requires
        steady(t, g),
    ensures
        in_step(
            t,
            Rule::Unary,
            st,
            unary_rule(t, g, st).1,
        ),
{
    reveal(unary_rule);
}

proof fn postfix_steps(t: Seq<TokenV>, g: Sub, st: Place)
    requires
        steady(t, g),
    ensures
        in_step(
            t,
            Rule::Postfix,
            st,
            postfix_rule(t, g, st).1,
        ),
{
    reveal(postfix_rule);
}

proof fn postfix_rest_steps(t: Seq<TokenV>, g: Sub, st: Place, e: ExprV)
    requires
        steady(t, g),
    ensures
        in_step(
            t,
            Rule::PostfixRest(e),
            st,
            postfix_rest_rule(t, g, st, e).1,
        ),
{
    reveal(postfix_rest_rule);
}

proof fn primary_steps(t: Seq<TokenV>, g: Sub, st: Place)
    requires
        steady(t, g),
    ensures
        in_step(
            t,
            Rule::Primary,
            st,
            primary_rule(t, g, st).1,
        ),
{
    reveal(primary_rule);
}

proof fn named_steps(t: Seq<TokenV>, g: Sub, st: Place)
    requires
        steady(t, g),
    ensures
        in_step(
            t,
            Rule::Named,
            st,
            named_rule(t, g, st).1,
        ),
{
    reveal(named_rule);
}

proof fn new_expr_steps(t: Seq<TokenV>, g: Sub, st: Place)
    requires
        steady(t, g),
    ensures
        in_step(
            t,
            Rule::NewExpr,
            st,
            new_expr_rule(t, g, st).1,
        ),
{
    reveal(new_expr_rule);
    let (ty, s0) = simple_type(t, eat(t, st, Tok::New));
    simple_type_carries(t, eat(t, st, Tok::New));
    let s = moved(t, st, skipped_generics(t, s0));
    brackets_carry(t, ty, step(t, step(t, s)));
}

proof fn sizes_rest_steps(t: Seq<TokenV>, g: Sub, st: Place, sizes: Seq<ExprV>, extra: u64, line: u32)
    requires
        steady(t, g),
    ensures
        in_step(
            t,
            Rule::SizesRest(sizes, extra, line),
            st,
            sizes_rest_rule(t, g, st, sizes, extra, line).1,
        ),
{
    reveal(sizes_rest_rule);
}

proof fn array_elems_steps(t: Seq<TokenV>, g: Sub, st: Place, out: Seq<ExprV>)
    requires
        steady(t, g),
    ensures
        in_step(
            t,
            Rule::ArrayElems(out),
            st,
            array_elems_rule(t, g, st, out).1,
        ),
{
    reveal(array_elems_rule);
}

proof fn call_args_steps(t: Seq<TokenV>, g: Sub, st: Place)
    requires
        steady(t, g),
    ensures
        in_step(
            t,
            Rule::CallArgs,
            st,
            call_args_rule(t, g, st).1,
        ),
{
    reveal(call_args_rule);
}

proof fn args_rest_steps(t: Seq<TokenV>, g: Sub, st: Place, out: Seq<ExprV>)
    requires
        steady(t, g),
    ensures
        in_step(
            t,
            Rule::ArgsRest(out),
            st,
            args_rest_rule(t, g, st, out).1,
        ),
{
    reveal(args_rest_rule);
}

proof fn system_out_steps(t: Seq<TokenV>, g: Sub, st: Place)
    requires
        steady(t, g),
    ensures
        in_step(
            t,
            Rule::SystemOut,
            st,
            system_out_rule(t, g, st).1,
        ),
{
    reveal(system_out_rule);
}

proof fn switch_expr_steps(t: Seq<TokenV>, g: Sub, st: Place)
    requires
        steady(t, g),
    ensures
        in_step(
            t,
            Rule::SwitchExpr,
            st,
            switch_expr_rule(t, g, st).1,
        ),
{
    reveal(switch_expr_rule);
}

proof fn arms_rest_steps(t: Seq<TokenV>, g: Sub, st: Place, out: Seq<SwitchArmV>, waiting: Seq<ExprV>)
    requires
        steady(t, g),
    ensures
        in_step(
            t,
            Rule::ArmsRest(out, waiting),
            st,
            arms_rest_rule(t, g, st, out, waiting).1,
        ),
{
    reveal(arms_rest_rule);
}

proof fn labels_rest_steps(t: Seq<TokenV>, g: Sub, st: Place, out: Seq<ExprV>)
    requires
        steady(t, g),
    ensures
        in_step(
            t,
            Rule::LabelsRest(out),
            st,
            labels_rest_rule(t, g, st, out).1,
        ),
{
    reveal(labels_rest_rule);
}

proof fn arm_body_steps(t: Seq<TokenV>, g: Sub, st: Place)
    requires
        steady(t, g),
    ensures
        in_step(
            t,
            Rule::ArmBody,
            st,
            arm_body_rule(t, g, st).1,
        ),
{
    reveal(arm_body_rule);
}

proof fn group_body_steps(t: Seq<TokenV>, g: Sub, st: Place, out: Seq<StmtV>)
    requires
        steady(t, g),
    ensures
        in_step(
            t,
            Rule::GroupBody(out),
            st,
            group_body_rule(t, g, st, out).1,
        ),
{
    reveal(group_body_rule);
}

proof fn block_steps(t: Seq<TokenV>, g: Sub, st: Place)
    requires
        steady(t, g),
    ensures
        in_step(
            t,
            Rule::Block,
            st,
            block_rule(t, g, st).1,
        ),
{
    reveal(block_rule);
}

proof fn block_rest_steps(t: Seq<TokenV>, g: Sub, st: Place, out: Seq<StmtV>)
    requires
        steady(t, g),
    ensures
        in_step(
            t,
            Rule::BlockRest(out),
            st,
            block_rest_rule(t, g, st, out).1,
        ),
{
    reveal(block_rest_rule);
}

proof fn braced_or_single_steps(t: Seq<TokenV>, g: Sub, st: Place)
    requires
        steady(t, g),
    ensures
        in_step(
            t,
            Rule::BracedOrSingle,
            st,
            braced_or_single_rule(t, g, st).1,
        ),
{
    reveal(braced_or_single_rule);
}

proof fn statement_steps(t: Seq<TokenV>, g: Sub, st: Place)
    requires
        steady(t, g),
    ensures
        in_step(
            t,
            Rule::Statement,
            st,
            statement_rule(t, g, st).1,
        ),
{
    reveal(statement_rule);
}

proof fn statement_kind_steps(t: Seq<TokenV>, g: Sub, st: Place)
    requires
        steady(t, g),
    ensures
        in_step(
            t,
            Rule::StatementKind,
            st,
            statement_kind_rule(t, g, st).1,
        ),
{
    reveal(statement_kind_rule);
}

proof fn return_stmt_steps(t: Seq<TokenV>, g: Sub, st: Place)
    requires
        steady(t, g),
    ensures
        in_step(
            t,
            Rule::ReturnStmt,
            st,
            return_stmt_rule(t, g, st).1,
        ),
{
    reveal(return_stmt_rule);
}

proof fn simple_statement_steps(t: Seq<TokenV>, g: Sub, st: Place, semi: bool)
    requires
        steady(t, g),
    ensures
        in_step(
            t,
            Rule::SimpleStatement(semi),
            st,
            simple_statement_rule(t, g, st, semi).1,
        ),
{
    reveal(simple_statement_rule);
    type_keeps_flags(t, eat_word(t, st, "final"@));
}

proof fn declarators_steps(t: Seq<TokenV>, g: Sub, st: Place, base: Seq<char>, out: Seq<StmtV>)
    requires
        steady(t, g),
    ensures
        in_step(
            t,
            Rule::Declarators(base, out),
            st,
            declarators_rule(t, g, st, base, out).1,
        ),
{
    reveal(declarators_rule);
    declarator_carries(t, st, base);
}

proof fn opt_init_steps(t: Seq<TokenV>, g: Sub, st: Place)
    requires
        steady(t, g),
    ensures
        in_step(
            t,
            Rule::OptInit,
            st,
            opt_init_rule(t, g, st).1,
        ),
{
    reveal(opt_init_rule);
}

proof fn var_init_steps(t: Seq<TokenV>, g: Sub, st: Place)
    requires
        steady(t, g),
    ensures
        in_step(
            t,
            Rule::VarInit,
            st,
            var_init_rule(t, g, st).1,
        ),
{
    reveal(var_init_rule);
}

proof fn if_stmt_steps(t: Seq<TokenV>, g: Sub, st: Place)
    requires
        steady(t, g),
    ensures
        in_step(
            t,
            Rule::IfStmt,
            st,
            if_stmt_rule(t, g, st).1,
        ),
{
    reveal(if_stmt_rule);
}

proof fn while_stmt_steps(t: Seq<TokenV>, g: Sub, st: Place)
    requires
        steady(t, g),
    ensures
        in_step(
            t,
            Rule::WhileStmt,
            st,
            while_stmt_rule(t, g, st).1,
        ),
{
    reveal(while_stmt_rule);
}

proof fn do_stmt_steps(t: Seq<TokenV>, g: Sub, st: Place)
    requires
        steady(t, g),
    ensures
        in_step(
            t,
            Rule::DoStmt,
            st,
            do_stmt_rule(t, g, st).1,
        ),
{
    reveal(do_stmt_rule);
}

proof fn for_stmt_steps(t: Seq<TokenV>, g: Sub, st: Place)
    requires
        steady(t, g),
    ensures
        in_step(
            t,
            Rule::ForStmt,
            st,
            for_stmt_rule(t, g, st).1,
        ),
{
    reveal(for_stmt_rule);
    type_keeps_flags(t, eat_word(t, eat(t, eat(t, st, Tok::For), Tok::LParen), "final"@));
}

proof fn for_cond_steps(t: Seq<TokenV>, g: Sub, st: Place)
    requires
        steady(t, g),
    ensures
        in_step(
            t,
            Rule::ForCond,
            st,
            for_cond_rule(t, g, st).1,
        ),
{
    reveal(for_cond_rule);
}

proof fn for_clause_steps(t: Seq<TokenV>, g: Sub, st: Place, end: Tok)
    requires
        steady(t, g),
    ensures
        in_step(
            t,
            Rule::ForClause(end),
            st,
            for_clause_rule(t, g, st, end).1,
        ),
{
    reveal(for_clause_rule);
}

proof fn clause_rest_steps(t: Seq<TokenV>, g: Sub, st: Place, out: Seq<StmtV>)
    requires
        steady(t, g),
    ensures
        in_step(
            t,
            Rule::ClauseRest(out),
            st,
            clause_rest_rule(t, g, st, out).1,
        ),
{
    reveal(clause_rest_rule);
}

proof fn synchronized_stmt_steps(t: Seq<TokenV>, g: Sub, st: Place)
    requires
        steady(t, g),
    ensures
        in_step(
            t,
            Rule::SynchronizedStmt,
            st,
            synchronized_stmt_rule(t, g, st).1,
        ),
{
    reveal(synchronized_stmt_rule);
}

proof fn try_stmt_steps(t: Seq<TokenV>, g: Sub, st: Place)
    requires
        steady(t, g),
    ensures
        in_step(
            t,
            Rule::TryStmt,
            st,
            try_stmt_rule(t, g, st).1,
        ),
{
    reveal(try_stmt_rule);
}

proof fn opt_finally_steps(t: Seq<TokenV>, g: Sub, st: Place)
    requires
        steady(t, g),
    ensures
        in_step(
            t,
            Rule::OptFinally,
            st,
            opt_finally_rule(t, g, st).1,
        ),
{
    reveal(opt_finally_rule);
}

proof fn catches_rest_steps(t: Seq<TokenV>, g: Sub, st: Place, out: Seq<CatchArmV>)
    requires
        steady(t, g),
    ensures
        in_step(
            t,
            Rule::CatchesRest(out),
            st,
            catches_rest_rule(t, g, st, out).1,
        ),
{
    reveal(catches_rest_rule);
    catch_types_carry(t, eat_word(t, eat(t, step(t, st), Tok::LParen), "final"@), seq![]);
}

proof fn opt_resources_steps(t: Seq<TokenV>, g: Sub, st: Place)
    requires
        steady(t, g),
    ensures
        in_step(
            t,
            Rule::OptResources,
            st,
            opt_resources_rule(t, g, st).1,
        ),
{
    reveal(opt_resources_rule);
}

proof fn resources_rest_steps(t: Seq<TokenV>, g: Sub, st: Place, out: Seq<ResourceV>)
    requires
        steady(t, g),
    ensures
        in_step(
            t,
            Rule::ResourcesRest(out),
            st,
            resources_rest_rule(t, g, st, out).1,
        ),
{
    reveal(resources_rest_rule);
}

proof fn resource_steps(t: Seq<TokenV>, g: Sub, st: Place)
    requires
        steady(t, g),
    ensures
        in_step(
            t,
            Rule::Resource,
            st,
            resource_rule(t, g, st).1,
        ),
{
    reveal(resource_rule);
    type_keeps_flags(t, st);
}

proof fn switch_stmt_steps(t: Seq<TokenV>, g: Sub, st: Place)
    requires
        steady(t, g),
    ensures
        in_step(
            t,
            Rule::SwitchStmt,
            st,
            switch_stmt_rule(t, g, st).1,
        ),
{
    reveal(switch_stmt_rule);
}

proof fn groups_rest_steps(t: Seq<TokenV>, g: Sub, st: Place, out: Seq<SwitchGroupV>)
    requires
        steady(t, g),
    ensures
        in_step(
            t,
            Rule::GroupsRest(out),
            st,
            groups_rest_rule(t, g, st, out).1,
        ),
{
    reveal(groups_rest_rule);
}

proof fn group_labels_steps(t: Seq<TokenV>, g: Sub, st: Place, labels: Seq<ExprV>, is_default: bool)
    requires
        steady(t, g),
    ensures
        in_step(
            t,
            Rule::GroupLabels(labels, is_default),
            st,
            group_labels_rule(t, g, st, labels, is_default).1,
        ),
{
    reveal(group_labels_rule);
}

/// Every rule moves on: it reads forward and not past the end, it leaves as many
/// arms around it as it found, and what was seen of exceptions and functional
/// interfaces stays seen.
pub proof fn every_rule_moves_on(t: Seq<TokenV>, r: Rule, st: Place)
    ensures
        in_step(t, r, st, read(t, r, st).1),
    decreases left(t, st), level(r),
{
    let g = parts(t, r, st);
    by_the_rule(t, r, st);
    reveal(applied);
    assert(steady(t, g)) by {
        assert forall|r2: Rule, st2: Place|
            #![trigger (g.read)(r2, st2)]
            in_step(t, r2, st2, (g.read)(r2, st2).1) by {
            if usable(t, r2, st2, r, st) {
                every_rule_moves_on(t, r2, st2);
            }
        }
    }
    match r {
        Rule::Expression => {
            expression_steps(t, g, st);
        },
        Rule::LambdaBody => {
            lambda_body_steps(t, g, st);
        },
        Rule::Binary(min_bp) => {
            binary_steps(t, g, st, min_bp);
        },
        Rule::BinaryRest(lhs, min_bp) => {
            binary_rest_steps(t, g, st, lhs, min_bp);
        },
        Rule::Unary => {
            unary_steps(t, g, st);
        },
        Rule::Postfix => {
            postfix_steps(t, g, st);
        },
        Rule::PostfixRest(e) => {
            postfix_rest_steps(t, g, st, e);
        },
        Rule::Primary => {
            primary_steps(t, g, st);
        },
        Rule::Named => {
            named_steps(t, g, st);
        },
        Rule::NewExpr => {
            new_expr_steps(t, g, st);
        },
        Rule::SizesRest(sizes, extra, line) => {
            sizes_rest_steps(t, g, st, sizes, extra, line);
        },
        Rule::ArrayElems(out) => {
            array_elems_steps(t, g, st, out);
        },
        Rule::CallArgs => {
            call_args_steps(t, g, st);
        },
        Rule::ArgsRest(out) => {
            args_rest_steps(t, g, st, out);
        },
        Rule::SystemOut => {
            system_out_steps(t, g, st);
        },
        Rule::SwitchExpr => {
            switch_expr_steps(t, g, st);
        },
        Rule::ArmsRest(out, waiting) => {
            arms_rest_steps(t, g, st, out, waiting);
        },
        Rule::LabelsRest(out) => {
            labels_rest_steps(t, g, st, out);
        },
        Rule::ArmBody => {
            arm_body_steps(t, g, st);
        },
        Rule::GroupBody(out) => {
            group_body_steps(t, g, st, out);
        },
        Rule::Block => {
            block_steps(t, g, st);
        },
        Rule::BlockRest(out) => {
            block_rest_steps(t, g, st, out);
        },
        Rule::BracedOrSingle => {
            braced_or_single_steps(t, g, st);
        },
        Rule::Statement => {
            statement_steps(t, g, st);
        },
        Rule::StatementKind => {
            statement_kind_steps(t, g, st);
        },
        Rule::ReturnStmt => {
            return_stmt_steps(t, g, st);
        },
        Rule::SimpleStatement(semi) => {
            simple_statement_steps(t, g, st, semi);
        },
        Rule::Declarators(base, out) => {
            declarators_steps(t, g, st, base, out);
        },
        Rule::OptInit => {
            opt_init_steps(t, g, st);
        },
        Rule::VarInit => {
            var_init_steps(t, g, st);
        },
        Rule::IfStmt => {
            if_stmt_steps(t, g, st);
        },
        Rule::WhileStmt => {
            while_stmt_steps(t, g, st);
        },
        Rule::DoStmt => {
            do_stmt_steps(t, g, st);
        },
        Rule::ForStmt => {
            for_stmt_steps(t, g, st);
        },
        Rule::ForCond => {
            for_cond_steps(t, g, st);
        },
        Rule::ForClause(end) => {
            for_clause_steps(t, g, st, end);
        },
        Rule::ClauseRest(out) => {
            clause_rest_steps(t, g, st, out);
        },
        Rule::SynchronizedStmt => {
            synchronized_stmt_steps(t, g, st);
        },
        Rule::TryStmt => {
            try_stmt_steps(t, g, st);
        },
        Rule::OptFinally => {
            opt_finally_steps(t, g, st);
        },
        Rule::CatchesRest(out) => {
            catches_rest_steps(t, g, st, out);
        },
        Rule::OptResources => {
            opt_resources_steps(t, g, st);
        },
        Rule::ResourcesRest(out) => {
            resources_rest_steps(t, g, st, out);
        },
        Rule::Resource => {
            resource_steps(t, g, st);
        },
        Rule::SwitchStmt => {
            switch_stmt_steps(t, g, st);
        },
        Rule::GroupsRest(out) => {
            groups_rest_steps(t, g, st, out);
        },
        Rule::GroupLabels(labels, is_default) => {
            group_labels_steps(t, g, st, labels, is_default);
        },
    }
}

} // verus!
