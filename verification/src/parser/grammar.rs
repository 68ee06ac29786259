//! The grammar of statements and expressions.
//!
//! Each rule takes the tokens and a place, and gives what was read and the place
//! after it. A rule that follows another inside a longer one starts where that
//! one ended.
//!
//! A rule does not call the rules of its parts: it is given how they read, as a
//! [`Sub`]. The one recursive function is [`read`], which applies a rule with the
//! parts that may stand at or behind its place. What a rule reads is then stated
//! by the rule alone, see [`by_the_rule`].
use vstd::prelude::*;

use crate::ast::{
    AssignOp, BinOp, CatchArmV, ExprV, LambdaBodyV, StmtKindV, StmtV, SwitchArmBodyV, SwitchArmV,
    SwitchGroupV, UnOp,
};
use crate::lexer::{Tok, TokenV};
use crate::parser::names::{brackets, declarator, declared_type, simple_type, skipped_generics};
use crate::parser::probes::{arrow_switch_ahead, cast_ahead, decl_ahead, lambda_ahead};
use crate::parser::tokens::{
    Place, eat, eat_if, eat_word, failed, halted, ident, kind_at, left, line_at, moved, shown,
    step, text_of_token, word_at,
};
use crate::prelude::throwable;
use crate::text::dec;

verus! {

/// The binding power of the relational operators, `instanceof` among them.
pub const RELATIONAL: u8 = 7;

/// The operator a token is in an assignment.
pub open spec fn assigning(k: Tok) -> Option<AssignOp> {
    match k {
        Tok::Assign => Some(AssignOp::Assign),
        Tok::PlusAssign => Some(AssignOp::Add),
        Tok::MinusAssign => Some(AssignOp::Sub),
        Tok::StarAssign => Some(AssignOp::Mul),
        Tok::SlashAssign => Some(AssignOp::Div),
        Tok::PercentAssign => Some(AssignOp::Mod),
        Tok::AmpAssign => Some(AssignOp::BitAnd),
        Tok::PipeAssign => Some(AssignOp::BitOr),
        Tok::CaretAssign => Some(AssignOp::BitXor),
        Tok::ShlAssign => Some(AssignOp::Shl),
        Tok::ShrAssign => Some(AssignOp::Shr),
        Tok::UshrAssign => Some(AssignOp::Ushr),
        _ => None,
    }
}

/// The binary operator a token is, and how tightly it binds.
pub open spec fn binding(k: Tok) -> Option<(BinOp, u8)> {
    match k {
        Tok::OrOr => Some((BinOp::Or, 1)),
        Tok::AndAnd => Some((BinOp::And, 2)),
        Tok::Pipe => Some((BinOp::BitOr, 3)),
        Tok::Caret => Some((BinOp::BitXor, 4)),
        Tok::Amp => Some((BinOp::BitAnd, 5)),
        Tok::EqEq => Some((BinOp::Eq, 6)),
        Tok::NotEq => Some((BinOp::Ne, 6)),
        Tok::Lt => Some((BinOp::Lt, RELATIONAL)),
        Tok::Gt => Some((BinOp::Gt, RELATIONAL)),
        Tok::Le => Some((BinOp::Le, RELATIONAL)),
        Tok::Ge => Some((BinOp::Ge, RELATIONAL)),
        Tok::Shl => Some((BinOp::Shl, 8)),
        Tok::Shr => Some((BinOp::Shr, 8)),
        Tok::Ushr => Some((BinOp::Ushr, 8)),
        Tok::Plus => Some((BinOp::Add, 9)),
        Tok::Minus => Some((BinOp::Sub, 9)),
        Tok::Star => Some((BinOp::Mul, 10)),
        Tok::Slash => Some((BinOp::Div, 10)),
        Tok::Percent => Some((BinOp::Mod, 10)),
        _ => None,
    }
}

/// A place where something of functional interfaces was seen.
pub open spec fn functional_seen(st: Place) -> Place {
    Place { fun: true, ..st }
}

/// A place where something of exceptions was seen.
pub open spec fn exception_seen(st: Place) -> Place {
    Place { exc: true, ..st }
}

/// A place inside one arm more.
pub open spec fn deeper(st: Place) -> Place {
    Place { depth: st.depth + 1, ..st }
}

/// A place outside one arm.
pub open spec fn shallower(st: Place) -> Place {
    Place { depth: st.depth - 1, ..st }
}

/// The place after the semicolon of a statement that has one.
pub open spec fn closed(t: Seq<TokenV>, st: Place, semi: bool) -> Place {
    if semi {
        eat(t, st, Tok::Semi)
    } else {
        st
    }
}

/// A message that names a line.
pub open spec fn on_line(msg: Seq<char>, t: Seq<TokenV>, j: int) -> Seq<char> {
    msg + dec(line_at(t, j) as int)
}

/// A message that names a line in brackets.
pub open spec fn at_line(msg: Seq<char>, line: u32) -> Seq<char> {
    msg + " (line "@ + dec(line as int) + ")"@
}

// ── Rules and their parts ───────────────────────────────────────────────────

/// A rule of the grammar, with what it is given besides the place.
pub enum Rule {
    Expression,
    LambdaBody,
    Binary(u8),
    BinaryRest(ExprV, u8),
    Unary,
    Postfix,
    PostfixRest(ExprV),
    Primary,
    Named,
    NewExpr,
    SizesRest(Seq<ExprV>, u64, u32),
    ArrayElems(Seq<ExprV>),
    CallArgs,
    ArgsRest(Seq<ExprV>),
    SystemOut,
    SwitchExpr,
    ArmsRest(Seq<SwitchArmV>, Seq<ExprV>),
    LabelsRest(Seq<ExprV>),
    ArmBody,
    GroupBody(Seq<StmtV>),
    Block,
    BlockRest(Seq<StmtV>),
    BracedOrSingle,
    Statement,
    StatementKind,
    ReturnStmt,
    SimpleStatement(bool),
    Declarators(Seq<char>, Seq<StmtV>),
    OptInit,
    VarInit,
    IfStmt,
    WhileStmt,
    DoStmt,
    ForStmt,
    ForCond,
    ForClause(Tok),
    ClauseRest(Seq<StmtV>),
    SynchronizedStmt,
    TryStmt,
    OptFinally,
    CatchesRest(Seq<CatchArmV>),
    OptResources,
    ResourcesRest(Seq<ResourceV>),
    Resource,
    SwitchStmt,
    GroupsRest(Seq<SwitchGroupV>),
    GroupLabels(Seq<ExprV>, bool),
}

/// What a rule reads.
pub enum Read {
    Nothing,
    Expr(ExprV),
    Lambda(LambdaBodyV),
    Sizes((Seq<ExprV>, u64)),
    Exprs(Seq<ExprV>),
    Arms(Seq<SwitchArmV>),
    ArmBody(SwitchArmBodyV),
    Stmts(Seq<StmtV>),
    Stmt(StmtV),
    Kind(StmtKindV),
    OptExpr(Option<ExprV>),
    Catches(Seq<CatchArmV>),
    Resources(Seq<ResourceV>),
    Resource(ResourceV),
    Groups(Seq<SwitchGroupV>),
    Labels((Seq<ExprV>, bool)),
}

/// How a rule reads its parts.
pub struct Sub {
    pub read: spec_fn(Rule, Place) -> (Read, Place),
}

impl Sub {
    pub open spec fn expression(self, st: Place) -> (ExprV, Place) {
        let (r, s) = (self.read)(Rule::Expression, st);
        (r->Expr_0, s)
    }

    pub open spec fn lambda_body(self, st: Place) -> (LambdaBodyV, Place) {
        let (r, s) = (self.read)(Rule::LambdaBody, st);
        (r->Lambda_0, s)
    }

    pub open spec fn binary(self, st: Place, min_bp: u8) -> (ExprV, Place) {
        let (r, s) = (self.read)(Rule::Binary(min_bp), st);
        (r->Expr_0, s)
    }

    pub open spec fn binary_rest(self, st: Place, lhs: ExprV, min_bp: u8) -> (ExprV, Place) {
        let (r, s) = (self.read)(Rule::BinaryRest(lhs, min_bp), st);
        (r->Expr_0, s)
    }

    pub open spec fn unary(self, st: Place) -> (ExprV, Place) {
        let (r, s) = (self.read)(Rule::Unary, st);
        (r->Expr_0, s)
    }

    pub open spec fn postfix(self, st: Place) -> (ExprV, Place) {
        let (r, s) = (self.read)(Rule::Postfix, st);
        (r->Expr_0, s)
    }

    pub open spec fn postfix_rest(self, st: Place, e: ExprV) -> (ExprV, Place) {
        let (r, s) = (self.read)(Rule::PostfixRest(e), st);
        (r->Expr_0, s)
    }

    pub open spec fn primary(self, st: Place) -> (ExprV, Place) {
        let (r, s) = (self.read)(Rule::Primary, st);
        (r->Expr_0, s)
    }

    pub open spec fn named(self, st: Place) -> (ExprV, Place) {
        let (r, s) = (self.read)(Rule::Named, st);
        (r->Expr_0, s)
    }

    pub open spec fn new_expr(self, st: Place) -> (ExprV, Place) {
        let (r, s) = (self.read)(Rule::NewExpr, st);
        (r->Expr_0, s)
    }

    pub open spec fn sizes_rest(
        self,
        st: Place,
        sizes: Seq<ExprV>,
        extra: u64,
        line: u32,
    ) -> ((Seq<ExprV>, u64), Place) {
        let (r, s) = (self.read)(Rule::SizesRest(sizes, extra, line), st);
        (r->Sizes_0, s)
    }

    pub open spec fn array_elems(self, st: Place, out: Seq<ExprV>) -> (Seq<ExprV>, Place) {
        let (r, s) = (self.read)(Rule::ArrayElems(out), st);
        (r->Exprs_0, s)
    }

    pub open spec fn call_args(self, st: Place) -> (Seq<ExprV>, Place) {
        let (r, s) = (self.read)(Rule::CallArgs, st);
        (r->Exprs_0, s)
    }

    pub open spec fn args_rest(self, st: Place, out: Seq<ExprV>) -> (Seq<ExprV>, Place) {
        let (r, s) = (self.read)(Rule::ArgsRest(out), st);
        (r->Exprs_0, s)
    }

    pub open spec fn system_out(self, st: Place) -> (ExprV, Place) {
        let (r, s) = (self.read)(Rule::SystemOut, st);
        (r->Expr_0, s)
    }

    pub open spec fn switch_expr(self, st: Place) -> (ExprV, Place) {
        let (r, s) = (self.read)(Rule::SwitchExpr, st);
        (r->Expr_0, s)
    }

    pub open spec fn arms_rest(
        self,
        st: Place,
        out: Seq<SwitchArmV>,
        waiting: Seq<ExprV>,
    ) -> (Seq<SwitchArmV>, Place) {
        let (r, s) = (self.read)(Rule::ArmsRest(out, waiting), st);
        (r->Arms_0, s)
    }

    pub open spec fn labels_rest(self, st: Place, out: Seq<ExprV>) -> (Seq<ExprV>, Place) {
        let (r, s) = (self.read)(Rule::LabelsRest(out), st);
        (r->Exprs_0, s)
    }

    pub open spec fn arm_body(self, st: Place) -> (SwitchArmBodyV, Place) {
        let (r, s) = (self.read)(Rule::ArmBody, st);
        (r->ArmBody_0, s)
    }

    pub open spec fn group_body(self, st: Place, out: Seq<StmtV>) -> (Seq<StmtV>, Place) {
        let (r, s) = (self.read)(Rule::GroupBody(out), st);
        (r->Stmts_0, s)
    }

    pub open spec fn block(self, st: Place) -> (Seq<StmtV>, Place) {
        let (r, s) = (self.read)(Rule::Block, st);
        (r->Stmts_0, s)
    }

    pub open spec fn block_rest(self, st: Place, out: Seq<StmtV>) -> (Seq<StmtV>, Place) {
        let (r, s) = (self.read)(Rule::BlockRest(out), st);
        (r->Stmts_0, s)
    }

    pub open spec fn braced_or_single(self, st: Place) -> (Seq<StmtV>, Place) {
        let (r, s) = (self.read)(Rule::BracedOrSingle, st);
        (r->Stmts_0, s)
    }

    pub open spec fn statement(self, st: Place) -> (StmtV, Place) {
        let (r, s) = (self.read)(Rule::Statement, st);
        (r->Stmt_0, s)
    }

    pub open spec fn statement_kind(self, st: Place) -> (StmtKindV, Place) {
        let (r, s) = (self.read)(Rule::StatementKind, st);
        (r->Kind_0, s)
    }

    pub open spec fn return_stmt(self, st: Place) -> (StmtKindV, Place) {
        let (r, s) = (self.read)(Rule::ReturnStmt, st);
        (r->Kind_0, s)
    }

    pub open spec fn simple_statement(self, st: Place, semi: bool) -> (StmtKindV, Place) {
        let (r, s) = (self.read)(Rule::SimpleStatement(semi), st);
        (r->Kind_0, s)
    }

    pub open spec fn declarators(
        self,
        st: Place,
        base: Seq<char>,
        out: Seq<StmtV>,
    ) -> (Seq<StmtV>, Place) {
        let (r, s) = (self.read)(Rule::Declarators(base, out), st);
        (r->Stmts_0, s)
    }

    pub open spec fn opt_init(self, st: Place) -> (Option<ExprV>, Place) {
        let (r, s) = (self.read)(Rule::OptInit, st);
        (r->OptExpr_0, s)
    }

    pub open spec fn var_init(self, st: Place) -> (ExprV, Place) {
        let (r, s) = (self.read)(Rule::VarInit, st);
        (r->Expr_0, s)
    }

    pub open spec fn if_stmt(self, st: Place) -> (StmtKindV, Place) {
        let (r, s) = (self.read)(Rule::IfStmt, st);
        (r->Kind_0, s)
    }

    pub open spec fn while_stmt(self, st: Place) -> (StmtKindV, Place) {
        let (r, s) = (self.read)(Rule::WhileStmt, st);
        (r->Kind_0, s)
    }

    pub open spec fn do_stmt(self, st: Place) -> (StmtKindV, Place) {
        let (r, s) = (self.read)(Rule::DoStmt, st);
        (r->Kind_0, s)
    }

    pub open spec fn for_stmt(self, st: Place) -> (StmtKindV, Place) {
        let (r, s) = (self.read)(Rule::ForStmt, st);
        (r->Kind_0, s)
    }

    pub open spec fn for_cond(self, st: Place) -> (Option<ExprV>, Place) {
        let (r, s) = (self.read)(Rule::ForCond, st);
        (r->OptExpr_0, s)
    }

    pub open spec fn for_clause(self, st: Place, end: Tok) -> (Seq<StmtV>, Place) {
        let (r, s) = (self.read)(Rule::ForClause(end), st);
        (r->Stmts_0, s)
    }

    pub open spec fn clause_rest(self, st: Place, out: Seq<StmtV>) -> (Seq<StmtV>, Place) {
        let (r, s) = (self.read)(Rule::ClauseRest(out), st);
        (r->Stmts_0, s)
    }

    pub open spec fn synchronized_stmt(self, st: Place) -> (StmtKindV, Place) {
        let (r, s) = (self.read)(Rule::SynchronizedStmt, st);
        (r->Kind_0, s)
    }

    pub open spec fn try_stmt(self, st: Place) -> (StmtKindV, Place) {
        let (r, s) = (self.read)(Rule::TryStmt, st);
        (r->Kind_0, s)
    }

    pub open spec fn opt_finally(self, st: Place) -> (Seq<StmtV>, Place) {
        let (r, s) = (self.read)(Rule::OptFinally, st);
        (r->Stmts_0, s)
    }

    pub open spec fn catches_rest(self, st: Place, out: Seq<CatchArmV>) -> (Seq<CatchArmV>, Place) {
        let (r, s) = (self.read)(Rule::CatchesRest(out), st);
        (r->Catches_0, s)
    }

    pub open spec fn opt_resources(self, st: Place) -> (Seq<ResourceV>, Place) {
        let (r, s) = (self.read)(Rule::OptResources, st);
        (r->Resources_0, s)
    }

    pub open spec fn resources_rest(
        self,
        st: Place,
        out: Seq<ResourceV>,
    ) -> (Seq<ResourceV>, Place) {
        let (r, s) = (self.read)(Rule::ResourcesRest(out), st);
        (r->Resources_0, s)
    }

    pub open spec fn resource(self, st: Place) -> (ResourceV, Place) {
        let (r, s) = (self.read)(Rule::Resource, st);
        (r->Resource_0, s)
    }

    pub open spec fn switch_stmt(self, st: Place) -> (StmtKindV, Place) {
        let (r, s) = (self.read)(Rule::SwitchStmt, st);
        (r->Kind_0, s)
    }

    pub open spec fn groups_rest(
        self,
        st: Place,
        out: Seq<SwitchGroupV>,
    ) -> (Seq<SwitchGroupV>, Place) {
        let (r, s) = (self.read)(Rule::GroupsRest(out), st);
        (r->Groups_0, s)
    }

    pub open spec fn group_labels(
        self,
        st: Place,
        labels: Seq<ExprV>,
        is_default: bool,
    ) -> ((Seq<ExprV>, bool), Place) {
        let (r, s) = (self.read)(Rule::GroupLabels(labels, is_default), st);
        (r->Labels_0, s)
    }

}

// ── Expressions ─────────────────────────────────────────────────────────────

/// An expression: a lambda, or operators and an optional conditional, which
/// binds loosest and to the right.
#[verifier::opaque]
pub open spec fn expression_rule(t: Seq<TokenV>, g: Sub, st: Place) -> (ExprV, Place) {
    let line = line_at(t, st.pos);
    if left(t, st) == 0 {
        (ExprV::This, halted(st))
    } else if kind_at(t, st.pos) == Tok::Ident && kind_at(t, st.pos + 1) == Tok::Arrow {
        let (body, s) = g.lambda_body(step(t, step(t, st)));
        (
            ExprV::Lambda { params: seq![text_of_token(t, st.pos)], body, line },
            functional_seen(s),
        )
    } else if lambda_ahead(t, st.pos) {
        let (params, s) = lambda_params(t, step(t, st), seq![]);
        let (body, s2) = g.lambda_body(eat(t, eat(t, moved(t, st, s), Tok::RParen), Tok::Arrow));
        (ExprV::Lambda { params, body, line }, functional_seen(s2))
    } else {
        let (cond, s0) = g.binary(st, 0);
        let s = moved(t, st, s0);
        if s.err is None && kind_at(t, s.pos) == Tok::Question {
            let (yes, s1) = g.expression(step(t, s));
            let (no, s2) = g.expression(eat(t, moved(t, st, s1), Tok::Colon));
            (ExprV::Ternary { cond: Box::new(cond), yes: Box::new(yes), no: Box::new(no) }, s2)
        } else {
            (cond, s)
        }
    }
}

/// The names of a lambda's parameters up to the closing bracket. Types are
/// dropped.
pub open spec fn lambda_params(t: Seq<TokenV>, st: Place, out: Seq<Seq<char>>) -> (
    Seq<Seq<char>>,
    Place,
)
    decreases left(t, st),
{
    if left(t, st) == 0 {
        (out, halted(st))
    } else if kind_at(t, st.pos) == Tok::RParen {
        (out, st)
    } else {
        let s1 = eat_word(t, st, "final"@);
        let s2 = if lambda_type_ahead(t, s1.pos) {
            declared_type(t, s1).1
        } else {
            s1
        };
        let (name, s3) = ident(t, s2);
        let s = moved(t, st, s3);
        if s.err is None && kind_at(t, s.pos) == Tok::Comma {
            lambda_params(t, step(t, s), out.push(name))
        } else {
            (out.push(name), s)
        }
    }
}

/// Whether a lambda's parameter is written with its type.
pub open spec fn lambda_type_ahead(t: Seq<TokenV>, j: int) -> bool {
    &&& kind_at(t, j) == Tok::Ident || kind_at(t, j) == Tok::Void
    &&& kind_at(t, j + 1) == Tok::Ident || kind_at(t, j + 1) == Tok::Lt || kind_at(t, j + 1)
        == Tok::LBracket
}

/// The body of a lambda: a block, or one expression.
#[verifier::opaque]
pub open spec fn lambda_body_rule(t: Seq<TokenV>, g: Sub, st: Place) -> (LambdaBodyV, Place) {
    if left(t, st) == 0 {
        (LambdaBodyV::Block(seq![]), halted(st))
    } else if kind_at(t, st.pos) == Tok::LBrace {
        let (body, s) = g.block(step(t, st));
        (LambdaBodyV::Block(body), s)
    } else {
        let (e, s) = g.expression(st);
        (LambdaBodyV::Expr(Box::new(e)), s)
    }
}

/// Operands joined by the operators that bind at least this tightly.
#[verifier::opaque]
pub open spec fn binary_rule(t: Seq<TokenV>, g: Sub, st: Place, min_bp: u8) -> (ExprV, Place) {
    if left(t, st) == 0 {
        (ExprV::This, halted(st))
    } else {
        let (lhs, s) = g.unary(st);
        g.binary_rest(moved(t, st, s), lhs, min_bp)
    }
}

/// The operators after a left operand, which associate to the left.
#[verifier::opaque]
pub open spec fn binary_rest_rule(
    t: Seq<TokenV>,
    g: Sub,
    st: Place,
    lhs: ExprV,
    min_bp: u8,
) -> (ExprV, Place) {
    if left(t, st) == 0 {
        (lhs, halted(st))
    } else if word_at(t, st.pos, "instanceof"@) && RELATIONAL >= min_bp {
        let (class, s) = ident(t, step(t, st));
        g.binary_rest(s, ExprV::InstanceOf { expr: Box::new(lhs), class }, min_bp)
    } else {
        match binding(kind_at(t, st.pos)) {
            Some((op, bp)) => if bp >= min_bp {
                let (rhs, s) = g.binary(step(t, st), (bp + 1) as u8);
                g.binary_rest(moved(t, st, s),
                    ExprV::Binary { op, lhs: Box::new(lhs), rhs: Box::new(rhs) },
                    min_bp,
                )
            } else {
                (lhs, st)
            },
            None => (lhs, st),
        }
    }
}

/// A prefix operator applied to what the rest reads.
pub open spec fn prefixed(op: UnOp, read: (ExprV, Place)) -> (ExprV, Place) {
    (ExprV::Unary { op, rhs: Box::new(read.0) }, read.1)
}

/// A cast, a prefix operator, or an operand.
#[verifier::opaque]
pub open spec fn unary_rule(t: Seq<TokenV>, g: Sub, st: Place) -> (ExprV, Place) {
    if left(t, st) == 0 {
        (ExprV::This, halted(st))
    } else {
        match cast_ahead(t, st.pos) {
            Some((ty, end)) => {
                let (e, s) = g.unary(moved(t, st, Place { pos: end + 1, ..st }));
                (ExprV::Cast { ty, expr: Box::new(e), line: line_at(t, end) }, s)
            },
            None => match kind_at(t, st.pos) {
                Tok::Minus => prefixed(UnOp::Neg, g.unary(step(t, st))),
                Tok::Plus => g.unary(step(t, st)),
                Tok::Not => prefixed(UnOp::Not, g.unary(step(t, st))),
                Tok::Tilde => prefixed(UnOp::BitNot, g.unary(step(t, st))),
                Tok::PlusPlus => {
                    let (name, s) = ident(t, step(t, st));
                    (ExprV::PreIncDec { name, inc: true }, s)
                },
                Tok::MinusMinus => {
                    let (name, s) = ident(t, step(t, st));
                    (ExprV::PreIncDec { name, inc: false }, s)
                },
                _ => g.postfix(st),
            },
        }
    }
}

/// A primary and what is chained to it.
#[verifier::opaque]
pub open spec fn postfix_rule(t: Seq<TokenV>, g: Sub, st: Place) -> (ExprV, Place) {
    if left(t, st) == 0 {
        (ExprV::This, halted(st))
    } else {
        let (e, s) = g.primary(st);
        g.postfix_rest(moved(t, st, s), e)
    }
}

/// Members, method references and indices after an expression.
#[verifier::opaque]
pub open spec fn postfix_rest_rule(t: Seq<TokenV>, g: Sub, st: Place, e: ExprV) -> (ExprV, Place) {
    let line = line_at(t, st.pos);
    if left(t, st) == 0 {
        (e, halted(st))
    } else if kind_at(t, st.pos) == Tok::Dot {
        let (member, s) = ident(t, step(t, st));
        if s.err is None && kind_at(t, s.pos) == Tok::LParen {
            let (args, s2) = g.call_args(s);
            g.postfix_rest(moved(t, st, s2),
                ExprV::MethodCall { recv: Box::new(e), method: member, args, line },
            )
        } else {
            g.postfix_rest(s, ExprV::Field { recv: Box::new(e), name: member })
        }
    } else if kind_at(t, st.pos) == Tok::ColonColon {
        let (method, s) = reference(t, step(t, st));
        g.postfix_rest(functional_seen(s), ExprV::MethodRef { recv: Box::new(e), method, line })
    } else if kind_at(t, st.pos) == Tok::LBracket {
        let (index, s) = g.expression(step(t, st));
        g.postfix_rest(eat(t, moved(t, st, s), Tok::RBracket),
            ExprV::Index { array: Box::new(e), index: Box::new(index) },
        )
    } else {
        (e, st)
    }
}

/// The method a reference names; `new` names the constructor.
pub open spec fn reference(t: Seq<TokenV>, st: Place) -> (Seq<char>, Place) {
    if st.err is None && kind_at(t, st.pos) == Tok::New {
        ("new"@, step(t, st))
    } else {
        ident(t, st)
    }
}

/// A literal, a bracketed expression, an object or array, a `switch`, or what
/// starts with a name.
#[verifier::opaque]
pub open spec fn primary_rule(t: Seq<TokenV>, g: Sub, st: Place) -> (ExprV, Place) {
    if left(t, st) == 0 {
        (ExprV::This, halted(st))
    } else {
        let tok = t[st.pos];
        let s = step(t, st);
        match tok.kind {
            Tok::Int => (ExprV::Int(tok.value), s),
            Tok::Long => (ExprV::Long(tok.value), s),
            Tok::Float => (ExprV::Float(tok.text), s),
            Tok::Float32 => (ExprV::Float32(tok.text), s),
            Tok::Str => (ExprV::Str(tok.text), s),
            Tok::Char => (ExprV::Char(tok.value), s),
            Tok::True => (ExprV::Bool(true), s),
            Tok::False => (ExprV::Bool(false), s),
            Tok::LParen => {
                let (e, s2) = g.expression(s);
                (e, eat(t, s2, Tok::RParen))
            },
            Tok::New => g.new_expr(st),
            Tok::Switch => g.switch_expr(st),
            Tok::Ident => g.named(st),
            _ => (
                ExprV::This,
                failed(
                    st,
                    on_line(
                        "javars: unexpected token "@ + shown(tok) + " in expression on line "@,
                        t,
                        st.pos,
                    ),
                ),
            ),
        }
    }
}

/// What starts with a name: `this`, a call, an update, a stream of `System`, or
/// a variable.
#[verifier::opaque]
pub open spec fn named_rule(t: Seq<TokenV>, g: Sub, st: Place) -> (ExprV, Place) {
    let name = text_of_token(t, st.pos);
    let line = line_at(t, st.pos);
    let s = step(t, st);
    if left(t, st) == 0 {
        (ExprV::This, halted(st))
    } else if name == "this"@ {
        if s.err is None && kind_at(t, s.pos) == Tok::LParen {
            let (args, s2) = g.call_args(s);
            (ExprV::Call { name, args, line }, s2)
        } else {
            (ExprV::This, s)
        }
    } else if name == "java"@ && word_at(t, st.pos + 2, "lang"@) && word_at(
        t,
        st.pos + 4,
        "System"@,
    ) {
        g.system_out(eat(t, step(t, eat(t, s, Tok::Dot)), Tok::Dot))
    } else if name == "System"@ {
        if kind_at(t, st.pos + 3) == Tok::ColonColon {
            let (stream, s2) = ident(t, eat(t, s, Tok::Dot));
            (ExprV::Field { recv: Box::new(ExprV::Var(name)), name: stream }, s2)
        } else {
            g.system_out(st)
        }
    } else if s.err is None && kind_at(t, s.pos) == Tok::PlusPlus {
        (ExprV::PostIncDec { name, inc: true }, step(t, s))
    } else if s.err is None && kind_at(t, s.pos) == Tok::MinusMinus {
        (ExprV::PostIncDec { name, inc: false }, step(t, s))
    } else if s.err is None && kind_at(t, s.pos) == Tok::LParen {
        let (args, s2) = g.call_args(s);
        (ExprV::Call { name, args, line }, s2)
    } else {
        (ExprV::Var(name), s)
    }
}

/// An object with its arguments, an array with its sizes, or one with its
/// elements.
#[verifier::opaque]
pub open spec fn new_expr_rule(t: Seq<TokenV>, g: Sub, st: Place) -> (ExprV, Place) {
    let line = line_at(t, st.pos);
    if left(t, st) == 0 {
        (ExprV::This, halted(st))
    } else {
        let (ty, s0) = simple_type(t, eat(t, st, Tok::New));
        let s = moved(t, st, skipped_generics(t, s0));
        if s.err is Some {
            (ExprV::This, s)
        } else if kind_at(t, s.pos) != Tok::LBracket {
            let (args, s2) = g.call_args(Place { exc: s.exc || throwable(ty), ..s });
            (ExprV::NewObject { class: ty, args, line }, s2)
        } else if kind_at(t, s.pos + 1) == Tok::RBracket {
            let (elem_ty, s2) = brackets(t, ty, step(t, step(t, s)));
            let (elems, s3) = g.array_elems(eat(t, moved(t, st, s2), Tok::LBrace), seq![]);
            (ExprV::ArrayLit { elems, elem_ty: Some(elem_ty) }, s3)
        } else {
            let (size, s2) = g.expression(step(t, s));
            let ((sizes, extra), s3) = g.sizes_rest(eat(t, moved(t, st, s2), Tok::RBracket),
                seq![size],
                0,
                line,
            );
            (ExprV::NewArray { elem_ty: ty, sizes, extra_dims: extra }, s3)
        }
    }
}

/// The dimensions after the first: those with a size come before those without.
#[verifier::opaque]
pub open spec fn sizes_rest_rule(
    t: Seq<TokenV>,
    g: Sub,
    st: Place,
    sizes: Seq<ExprV>,
    extra: u64,
    line: u32,
) -> ((Seq<ExprV>, u64), Place) {
    if left(t, st) == 0 {
        ((sizes, extra), halted(st))
    } else if kind_at(t, st.pos) != Tok::LBracket {
        ((sizes, extra), st)
    } else if kind_at(t, st.pos + 1) == Tok::RBracket {
        g.sizes_rest(step(t, step(t, st)), sizes, (extra + 1) as u64, line)
    } else if extra > 0 {
        (
            (sizes, extra),
            failed(
                st,
                at_line("javars: a sized array dimension cannot follow an empty one"@, line),
            ),
        )
    } else {
        let (size, s) = g.expression(step(t, st));
        g.sizes_rest(eat(t, moved(t, st, s), Tok::RBracket), sizes.push(size), extra, line)
    }
}

/// The elements of an array up to the closing brace; a comma may end them.
#[verifier::opaque]
pub open spec fn array_elems_rule(
    t: Seq<TokenV>,
    g: Sub,
    st: Place,
    out: Seq<ExprV>,
) -> (Seq<ExprV>, Place) {
    if left(t, st) == 0 {
        (out, halted(st))
    } else if kind_at(t, st.pos) == Tok::RBrace || kind_at(t, st.pos) == Tok::Eof {
        (out, eat(t, st, Tok::RBrace))
    } else {
        let (elem, s0) = if kind_at(t, st.pos) == Tok::LBrace {
            let (elems, s1) = g.array_elems(step(t, st), seq![]);
            (ExprV::ArrayLit { elems, elem_ty: None }, s1)
        } else {
            g.expression(st)
        };
        let s = moved(t, st, s0);
        if s.err is None && kind_at(t, s.pos) == Tok::Comma {
            g.array_elems(step(t, s), out.push(elem))
        } else {
            (out.push(elem), eat(t, s, Tok::RBrace))
        }
    }
}

/// Arguments in brackets.
#[verifier::opaque]
pub open spec fn call_args_rule(t: Seq<TokenV>, g: Sub, st: Place) -> (Seq<ExprV>, Place) {
    let s = eat(t, st, Tok::LParen);
    if left(t, st) == 0 {
        (seq![], halted(st))
    } else if s.err is None && kind_at(t, s.pos) == Tok::RParen {
        (seq![], step(t, s))
    } else {
        g.args_rest(s, seq![])
    }
}

/// The arguments from one on, up to the closing bracket.
#[verifier::opaque]
pub open spec fn args_rest_rule(
    t: Seq<TokenV>,
    g: Sub,
    st: Place,
    out: Seq<ExprV>,
) -> (Seq<ExprV>, Place) {
    if left(t, st) == 0 {
        (out, halted(st))
    } else {
        let (e, s0) = g.expression(st);
        let s = moved(t, st, s0);
        if s.err is None && kind_at(t, s.pos) == Tok::Comma {
            g.args_rest(step(t, s), out.push(e))
        } else {
            (out.push(e), eat(t, s, Tok::RParen))
        }
    }
}

/// Printing to a stream of `System`.
#[verifier::opaque]
pub open spec fn system_out_rule(t: Seq<TokenV>, g: Sub, st: Place) -> (ExprV, Place) {
    let (stream, s) = ident(t, eat(t, ident(t, st).1, Tok::Dot));
    let s2 = eat(t, s, Tok::Dot);
    let line = line_at(t, s2.pos);
    let (method, s3) = ident(t, s2);
    let err = stream == "err"@;
    if left(t, st) == 0 {
        (ExprV::This, halted(st))
    } else if s.err is Some {
        (ExprV::This, s)
    } else if stream != "out"@ && stream != "err"@ {
        (
            ExprV::This,
            failed(
                s,
                at_line(
                    "javars: only `System.out`/`System.err` are supported, not `System."@ + stream
                        + "`"@,
                    line_at(t, s.pos),
                ),
            ),
        )
    } else if s3.err is Some {
        (ExprV::This, s3)
    } else if method == "printf"@ || method == "format"@ {
        let (args, s4) = g.call_args(s3);
        (
            ExprV::Println {
                newline: false,
                err,
                arg: Some(
                    Box::new(
                        ExprV::MethodCall {
                            recv: Box::new(ExprV::Var("String"@)),
                            method: "format"@,
                            args,
                            line,
                        },
                    ),
                ),
            },
            s4,
        )
    } else if method != "println"@ && method != "print"@ {
        (
            ExprV::This,
            failed(
                s3,
                at_line(
                    "javars: only `System."@ + stream
                        + ".println`/`print`/`printf` are supported, not `"@ + method + "`"@,
                    line_at(t, s3.pos),
                ),
            ),
        )
    } else {
        let newline = method == "println"@;
        let s4 = eat(t, s3, Tok::LParen);
        if s4.err is None && kind_at(t, s4.pos) == Tok::RParen {
            (ExprV::Println { newline, err, arg: None }, step(t, s4))
        } else {
            let (e, s5) = g.expression(s4);
            (ExprV::Println { newline, err, arg: Some(Box::new(e)) }, eat(t, s5, Tok::RParen))
        }
    }
}

// ── Switch expressions ──────────────────────────────────────────────────────

/// A `switch` that has a value.
#[verifier::opaque]
pub open spec fn switch_expr_rule(t: Seq<TokenV>, g: Sub, st: Place) -> (ExprV, Place) {
    if left(t, st) == 0 {
        (ExprV::This, halted(st))
    } else {
        let (disc, s) = g.expression(eat(t, eat(t, st, Tok::Switch), Tok::LParen));
        let (arms, s2) = g.arms_rest(eat(t, eat(t, moved(t, st, s), Tok::RParen), Tok::LBrace),
            seq![],
            seq![],
        );
        (ExprV::SwitchExpr { disc: Box::new(disc), arms, line: line_at(t, st.pos) }, s2)
    }
}

/// The arms up to the closing brace. A label with a colon and no statements
/// waits for the next arm that has some.
#[verifier::opaque]
pub open spec fn arms_rest_rule(
    t: Seq<TokenV>,
    g: Sub,
    st: Place,
    out: Seq<SwitchArmV>,
    waiting: Seq<ExprV>,
) -> (Seq<SwitchArmV>, Place) {
    if left(t, st) == 0 {
        (out, halted(st))
    } else if kind_at(t, st.pos) == Tok::RBrace || kind_at(t, st.pos) == Tok::Eof {
        (out, eat(t, st, Tok::RBrace))
    } else {
        let is_default = kind_at(t, st.pos) == Tok::Default;
        let (labels, s0) = if is_default {
            (seq![], step(t, st))
        } else {
            g.labels_rest(eat(t, st, Tok::Case), seq![])
        };
        let s = moved(t, st, s0);
        if s.err is None && kind_at(t, s.pos) == Tok::Colon {
            let (stmts, s2) = g.group_body(deeper(step(t, s)), seq![]);
            let s3 = shallower(moved(t, st, s2));
            if stmts.len() == 0 && !is_default {
                g.arms_rest(s3, out, waiting + labels)
            } else {
                g.arms_rest(s3,
                    out.push(
                        SwitchArmV {
                            labels: waiting + labels,
                            is_default,
                            body: SwitchArmBodyV::Block(stmts),
                        },
                    ),
                    seq![],
                )
            }
        } else {
            let (body, s2) = g.arm_body(deeper(eat(t, s, Tok::Arrow)));
            g.arms_rest(shallower(moved(t, st, s2)),
                out.push(SwitchArmV { labels, is_default, body }),
                waiting,
            )
        }
    }
}

/// The labels of an arm from one on. They are below the conditional, so that a
/// colon ends them.
#[verifier::opaque]
pub open spec fn labels_rest_rule(
    t: Seq<TokenV>,
    g: Sub,
    st: Place,
    out: Seq<ExprV>,
) -> (Seq<ExprV>, Place) {
    if left(t, st) == 0 {
        (out, halted(st))
    } else {
        let (e, s0) = g.binary(st, 0);
        let s = moved(t, st, s0);
        if s.err is None && kind_at(t, s.pos) == Tok::Comma {
            g.labels_rest(step(t, s), out.push(e))
        } else {
            (out.push(e), s)
        }
    }
}

/// What stands behind an arrow.
#[verifier::opaque]
pub open spec fn arm_body_rule(t: Seq<TokenV>, g: Sub, st: Place) -> (SwitchArmBodyV, Place) {
    if left(t, st) == 0 {
        (SwitchArmBodyV::Block(seq![]), halted(st))
    } else if kind_at(t, st.pos) == Tok::LBrace {
        let (body, s) = g.block(step(t, st));
        (SwitchArmBodyV::Block(body), s)
    } else if word_at(t, st.pos, "throw"@) {
        let (x, s) = g.statement(st);
        (SwitchArmBodyV::Block(seq![x]), s)
    } else {
        let (e, s) = g.expression(st);
        (SwitchArmBodyV::Expr(Box::new(e)), eat(t, s, Tok::Semi))
    }
}

/// The statements up to the next label or the closing brace.
#[verifier::opaque]
pub open spec fn group_body_rule(
    t: Seq<TokenV>,
    g: Sub,
    st: Place,
    out: Seq<StmtV>,
) -> (Seq<StmtV>, Place) {
    let k = kind_at(t, st.pos);
    if left(t, st) == 0 {
        (out, halted(st))
    } else if k == Tok::Case || k == Tok::Default || k == Tok::RBrace || k == Tok::Eof {
        (out, st)
    } else {
        let (x, s) = g.statement(st);
        g.group_body(moved(t, st, s), out.push(x))
    }
}

// ── Statements ──────────────────────────────────────────────────────────────

/// The statements of a block behind its opening brace, with the closing one.
#[verifier::opaque]
pub open spec fn block_rule(t: Seq<TokenV>, g: Sub, st: Place) -> (Seq<StmtV>, Place) {
    if left(t, st) == 0 {
        (seq![], halted(st))
    } else {
        g.block_rest(st, seq![])
    }
}

/// The statements up to the closing brace, with it.
#[verifier::opaque]
pub open spec fn block_rest_rule(
    t: Seq<TokenV>,
    g: Sub,
    st: Place,
    out: Seq<StmtV>,
) -> (Seq<StmtV>, Place) {
    if left(t, st) == 0 {
        (out, halted(st))
    } else if kind_at(t, st.pos) == Tok::RBrace || kind_at(t, st.pos) == Tok::Eof {
        (out, eat(t, st, Tok::RBrace))
    } else {
        let (x, s) = g.statement(st);
        g.block_rest(moved(t, st, s), out.push(x))
    }
}

/// A block, or a single statement.
#[verifier::opaque]
pub open spec fn braced_or_single_rule(t: Seq<TokenV>, g: Sub, st: Place) -> (Seq<StmtV>, Place) {
    if left(t, st) == 0 {
        (seq![], halted(st))
    } else if kind_at(t, st.pos) == Tok::LBrace {
        g.block(step(t, st))
    } else {
        let (x, s) = g.statement(st);
        (seq![x], s)
    }
}

/// A statement, with the line it starts on.
#[verifier::opaque]
pub open spec fn statement_rule(t: Seq<TokenV>, g: Sub, st: Place) -> (StmtV, Place) {
    if left(t, st) == 0 {
        (StmtV { line: 0, kind: no_stmt() }, halted(st))
    } else {
        let (kind, s) = g.statement_kind(st);
        (StmtV { line: line_at(t, st.pos), kind }, s)
    }
}

/// The statement that stands for none.
pub open spec fn no_stmt() -> StmtKindV {
    StmtKindV::Locals(seq![])
}

/// A statement: by its label or word, or else a declaration, an assignment or
/// an expression.
#[verifier::opaque]
pub open spec fn statement_kind_rule(t: Seq<TokenV>, g: Sub, st: Place) -> (StmtKindV, Place) {
    let s = step(t, st);
    if left(t, st) == 0 {
        (no_stmt(), halted(st))
    } else if kind_at(t, st.pos) == Tok::Ident && kind_at(t, st.pos + 1) == Tok::Colon {
        let (body, s2) = g.statement(step(t, s));
        (StmtKindV::Labeled { label: text_of_token(t, st.pos), body: Box::new(body) }, s2)
    } else if word_at(t, st.pos, "try"@) {
        g.try_stmt(st)
    } else if word_at(t, st.pos, "yield"@) && st.depth > 0 {
        let (e, s2) = g.expression(s);
        (StmtKindV::Yield(e), eat(t, s2, Tok::Semi))
    } else if word_at(t, st.pos, "throw"@) {
        let (e, s2) = g.expression(exception_seen(s));
        (StmtKindV::Throw(e), eat(t, s2, Tok::Semi))
    } else if word_at(t, st.pos, "synchronized"@) && kind_at(t, st.pos + 1) == Tok::LParen {
        g.synchronized_stmt(st)
    } else {
        match kind_at(t, st.pos) {
            Tok::If => g.if_stmt(st),
            Tok::While => g.while_stmt(st),
            Tok::Do => g.do_stmt(st),
            Tok::For => g.for_stmt(st),
            Tok::Switch => g.switch_stmt(st),
            Tok::Return => g.return_stmt(s),
            Tok::Break => {
                let (label, s2) = optional_label(t, s);
                (StmtKindV::Break(label), eat(t, s2, Tok::Semi))
            },
            Tok::Continue => {
                let (label, s2) = optional_label(t, s);
                (StmtKindV::Continue(label), eat(t, s2, Tok::Semi))
            },
            Tok::LBrace => {
                let (body, s2) = g.block(s);
                (StmtKindV::If { cond: ExprV::Bool(true), body, els: seq![] }, s2)
            },
            _ => g.simple_statement(st, true),
        }
    }
}

/// What is returned, behind the word.
#[verifier::opaque]
pub open spec fn return_stmt_rule(t: Seq<TokenV>, g: Sub, st: Place) -> (StmtKindV, Place) {
    if left(t, st) == 0 {
        (no_stmt(), halted(st))
    } else if kind_at(t, st.pos) == Tok::Semi {
        (StmtKindV::Return(None), step(t, st))
    } else {
        let (e, s) = g.expression(st);
        (StmtKindV::Return(Some(e)), eat(t, s, Tok::Semi))
    }
}

/// The label a jump names, if it names one.
pub open spec fn optional_label(t: Seq<TokenV>, st: Place) -> (Option<Seq<char>>, Place) {
    if st.err is None && kind_at(t, st.pos) == Tok::Ident {
        (Some(text_of_token(t, st.pos)), step(t, st))
    } else {
        (None, st)
    }
}

/// A declaration, an assignment, an update or an expression. The clauses of a
/// `for` have no semicolon.
#[verifier::opaque]
pub open spec fn simple_statement_rule(
    t: Seq<TokenV>,
    g: Sub,
    st: Place,
    semi: bool,
) -> (StmtKindV, Place) {
    let name = text_of_token(t, st.pos);
    let after = step(t, step(t, st));
    if left(t, st) == 0 {
        (no_stmt(), halted(st))
    } else if decl_ahead(t, st.pos) {
        let (base, s) = declared_type(t, eat_word(t, st, "final"@));
        let (decls, s2) = g.declarators(moved(t, st, s), base, seq![]);
        declared(t, s2, base, decls, semi)
    } else if kind_at(t, st.pos) == Tok::Ident && assigning(kind_at(t, st.pos + 1)) is Some {
        let (value, s) = g.expression(after);
        (
            StmtKindV::Assign { name, op: assigning(kind_at(t, st.pos + 1))->0, value },
            closed(t, s, semi),
        )
    } else if kind_at(t, st.pos) == Tok::Ident && kind_at(t, st.pos + 1) == Tok::PlusPlus {
        (StmtKindV::Expr(ExprV::PostIncDec { name, inc: true }), closed(t, after, semi))
    } else if kind_at(t, st.pos) == Tok::Ident && kind_at(t, st.pos + 1) == Tok::MinusMinus {
        (StmtKindV::Expr(ExprV::PostIncDec { name, inc: false }), closed(t, after, semi))
    } else {
        let (lhs, s0) = g.expression(st);
        let s = moved(t, st, s0);
        if s.err is Some {
            (no_stmt(), s)
        } else if assigning(kind_at(t, s.pos)) is Some {
            let (value, s2) = g.expression(step(t, s));
            assigned(t, closed(t, s2, semi), lhs, assigning(kind_at(t, s.pos))->0, value)
        } else if kind_at(t, s.pos) == Tok::PlusPlus {
            assigned(t, closed(t, step(t, s), semi), lhs, AssignOp::Add, ExprV::Int(1))
        } else if kind_at(t, s.pos) == Tok::MinusMinus {
            assigned(t, closed(t, step(t, s), semi), lhs, AssignOp::Sub, ExprV::Int(1))
        } else {
            (StmtKindV::Expr(lhs), closed(t, s, semi))
        }
    }
}

/// The statement of declarators: one stands alone, and `var` allows no more.
pub open spec fn declared(
    t: Seq<TokenV>,
    st: Place,
    base: Seq<char>,
    decls: Seq<StmtV>,
    semi: bool,
) -> (StmtKindV, Place) {
    if st.err is Some {
        (no_stmt(), st)
    } else if base == "var"@ && decls.len() > 1 {
        (
            no_stmt(),
            failed(
                st,
                on_line(
                    "javars: 'var' is not allowed in a compound declaration on line "@,
                    t,
                    st.pos,
                ),
            ),
        )
    } else if decls.len() == 1 {
        (decls[0].kind, closed(t, st, semi))
    } else {
        (StmtKindV::Locals(decls), closed(t, st, semi))
    }
}

/// The name of what an expression is, for a message.
#[verifier::opaque]
pub open spec fn form_name(e: ExprV) -> Seq<char> {
    match e {
        ExprV::Int(_) => "Int"@,
        ExprV::Long(_) => "Long"@,
        ExprV::Float(_) => "Float"@,
        ExprV::Float32(_) => "Float32"@,
        ExprV::Str(_) => "Str"@,
        ExprV::Char(_) => "Char"@,
        ExprV::Bool(_) => "Bool"@,
        ExprV::Var(_) => "Var"@,
        ExprV::This => "This"@,
        ExprV::Unary { .. } => "Unary"@,
        ExprV::Binary { .. } => "Binary"@,
        ExprV::Ternary { .. } => "Ternary"@,
        ExprV::Index { .. } => "Index"@,
        ExprV::Field { .. } => "Field"@,
        ExprV::MethodCall { .. } => "MethodCall"@,
        ExprV::Call { .. } => "Call"@,
        ExprV::NewObject { .. } => "NewObject"@,
        ExprV::NewArray { .. } => "NewArray"@,
        ExprV::ArrayLit { .. } => "ArrayLit"@,
        ExprV::InstanceOf { .. } => "InstanceOf"@,
        ExprV::Cast { .. } => "Cast"@,
        ExprV::Lambda { .. } => "Lambda"@,
        ExprV::MethodRef { .. } => "MethodRef"@,
        ExprV::SwitchExpr { .. } => "SwitchExpr"@,
        ExprV::Println { .. } => "Println"@,
        ExprV::PostIncDec { .. } => "PostIncDec"@,
        ExprV::PreIncDec { .. } => "PreIncDec"@,
    }
}

/// The assignment to an expression: a variable, an element or a field.
pub open spec fn assigned(t: Seq<TokenV>, st: Place, lhs: ExprV, op: AssignOp, value: ExprV) -> (
    StmtKindV,
    Place,
) {
    if st.err is Some {
        (no_stmt(), st)
    } else {
        match lhs {
            ExprV::Var(name) => (StmtKindV::Assign { name, op, value }, st),
            ExprV::Index { array, index } => (
                StmtKindV::IndexAssign { array: *array, index: *index, op, value },
                st,
            ),
            ExprV::Field { recv, name } => (
                StmtKindV::FieldAssign { recv: *recv, name, op, value },
                st,
            ),
            _ => (
                no_stmt(),
                failed(
                    st,
                    on_line(
                        "javars: `"@ + form_name(lhs) + "` is not an assignable target on line "@,
                        t,
                        st.pos,
                    ),
                ),
            ),
        }
    }
}

/// The declarators from one on, each with its line.
#[verifier::opaque]
pub open spec fn declarators_rule(
    t: Seq<TokenV>,
    g: Sub,
    st: Place,
    base: Seq<char>,
    out: Seq<StmtV>,
) -> (Seq<StmtV>, Place) {
    if left(t, st) == 0 {
        (out, halted(st))
    } else {
        let ((name, ty), s0) = declarator(t, st, base);
        let (init, s1) = g.opt_init(moved(t, st, s0));
        let s = moved(t, st, s1);
        let next = out.push(
            StmtV { line: line_at(t, st.pos), kind: StmtKindV::Local { ty, name, init } },
        );
        if s.err is None && kind_at(t, s.pos) == Tok::Comma {
            g.declarators(step(t, s), base, next)
        } else {
            (next, s)
        }
    }
}

/// The initial value of a declarator, if it has one.
#[verifier::opaque]
pub open spec fn opt_init_rule(t: Seq<TokenV>, g: Sub, st: Place) -> (Option<ExprV>, Place) {
    if left(t, st) == 0 {
        (None, halted(st))
    } else if kind_at(t, st.pos) == Tok::Assign {
        let (e, s) = g.var_init(step(t, st));
        (Some(e), s)
    } else {
        (None, st)
    }
}

/// An initial value: the elements of an array, or an expression.
#[verifier::opaque]
pub open spec fn var_init_rule(t: Seq<TokenV>, g: Sub, st: Place) -> (ExprV, Place) {
    if left(t, st) == 0 {
        (ExprV::This, halted(st))
    } else if kind_at(t, st.pos) == Tok::LBrace {
        let (elems, s) = g.array_elems(step(t, st), seq![]);
        (ExprV::ArrayLit { elems, elem_ty: None }, s)
    } else {
        g.expression(st)
    }
}

/// An `if`, with what follows `else`.
#[verifier::opaque]
pub open spec fn if_stmt_rule(t: Seq<TokenV>, g: Sub, st: Place) -> (StmtKindV, Place) {
    if left(t, st) == 0 {
        (no_stmt(), halted(st))
    } else {
        let (cond, s) = g.expression(eat(t, eat(t, st, Tok::If), Tok::LParen));
        let (body, s2) = g.braced_or_single(eat(t, moved(t, st, s), Tok::RParen));
        let s3 = moved(t, st, s2);
        let (els, s4) = if s3.err is None && kind_at(t, s3.pos) == Tok::Else {
            g.braced_or_single(step(t, s3))
        } else {
            (seq![], s3)
        };
        (StmtKindV::If { cond, body, els }, s4)
    }
}

/// A `while`.
#[verifier::opaque]
pub open spec fn while_stmt_rule(t: Seq<TokenV>, g: Sub, st: Place) -> (StmtKindV, Place) {
    if left(t, st) == 0 {
        (no_stmt(), halted(st))
    } else {
        let (cond, s) = g.expression(eat(t, eat(t, st, Tok::While), Tok::LParen));
        let (body, s2) = g.braced_or_single(eat(t, moved(t, st, s), Tok::RParen));
        (StmtKindV::While { cond, body }, s2)
    }
}

/// A `do`, with its condition at the end.
#[verifier::opaque]
pub open spec fn do_stmt_rule(t: Seq<TokenV>, g: Sub, st: Place) -> (StmtKindV, Place) {
    if left(t, st) == 0 {
        (no_stmt(), halted(st))
    } else {
        let (body, s) = g.braced_or_single(eat(t, st, Tok::Do));
        let (cond, s2) = g.expression(eat(t, eat(t, moved(t, st, s), Tok::While), Tok::LParen),
        );
        (StmtKindV::DoWhile { body, cond }, eat(t, eat(t, s2, Tok::RParen), Tok::Semi))
    }
}

/// The type and name before the colon of a `for` over elements. Without the
/// colon the place goes back to where it was.
pub open spec fn foreach_header(t: Seq<TokenV>, st: Place) -> (
    Option<(Seq<char>, Seq<char>)>,
    Place,
) {
    if st.err is Some || !decl_ahead(t, st.pos) {
        (None, st)
    } else {
        let (ty, s) = declared_type(t, eat_word(t, st, "final"@));
        let (name, s2) = ident(t, s);
        if s2.err is Some {
            (None, s2)
        } else if kind_at(t, s2.pos) == Tok::Colon {
            (Some((ty, name)), step(t, s2))
        } else {
            (None, Place { pos: st.pos, ..s2 })
        }
    }
}

/// A `for`, over elements or with its three clauses.
#[verifier::opaque]
pub open spec fn for_stmt_rule(t: Seq<TokenV>, g: Sub, st: Place) -> (StmtKindV, Place) {
    if left(t, st) == 0 {
        (no_stmt(), halted(st))
    } else {
        let (header, s0) = foreach_header(t, eat(t, eat(t, st, Tok::For), Tok::LParen));
        let s = moved(t, st, s0);
        match header {
            Some((ty, name)) => {
                let (iter, s2) = g.expression(s);
                let (body, s3) = g.braced_or_single(eat(t, moved(t, st, s2), Tok::RParen));
                (StmtKindV::ForEach { ty, name, iter, body }, s3)
            },
            None => {
                let (init, s2) = g.for_clause(s, Tok::Semi);
                let (cond, s3) = g.for_cond(eat(t, moved(t, st, s2), Tok::Semi));
                let (update, s4) = g.for_clause(eat(t, moved(t, st, s3), Tok::Semi),
                    Tok::RParen,
                );
                let (body, s5) = g.braced_or_single(eat(t, moved(t, st, s4), Tok::RParen));
                (StmtKindV::For { init, cond, update, body }, s5)
            },
        }
    }
}

/// The condition of a `for`, if it has one.
#[verifier::opaque]
pub open spec fn for_cond_rule(t: Seq<TokenV>, g: Sub, st: Place) -> (Option<ExprV>, Place) {
    if left(t, st) == 0 {
        (None, halted(st))
    } else if kind_at(t, st.pos) == Tok::Semi {
        (None, st)
    } else {
        let (e, s) = g.expression(st);
        (Some(e), s)
    }
}

/// The statements of a clause up to its end.
#[verifier::opaque]
pub open spec fn for_clause_rule(
    t: Seq<TokenV>,
    g: Sub,
    st: Place,
    end: Tok,
) -> (Seq<StmtV>, Place) {
    if left(t, st) == 0 {
        (seq![], halted(st))
    } else if kind_at(t, st.pos) == end {
        (seq![], st)
    } else {
        g.clause_rest(st, seq![])
    }
}

/// The statements of a clause from one on.
#[verifier::opaque]
pub open spec fn clause_rest_rule(
    t: Seq<TokenV>,
    g: Sub,
    st: Place,
    out: Seq<StmtV>,
) -> (Seq<StmtV>, Place) {
    if left(t, st) == 0 {
        (out, halted(st))
    } else {
        let (kind, s0) = g.simple_statement(st, false);
        let s = moved(t, st, s0);
        let next = out.push(StmtV { line: line_at(t, st.pos), kind });
        if s.err is None && kind_at(t, s.pos) == Tok::Comma {
            g.clause_rest(step(t, s), next)
        } else {
            (next, s)
        }
    }
}

/// A `synchronized` block: its body where the monitor is not null, else the
/// exception.
#[verifier::opaque]
pub open spec fn synchronized_stmt_rule(t: Seq<TokenV>, g: Sub, st: Place) -> (StmtKindV, Place) {
    if left(t, st) == 0 {
        (no_stmt(), halted(st))
    } else {
        let (monitor, s) = g.expression(eat(t, step(t, exception_seen(st)), Tok::LParen));
        let (body, s2) = g.block(eat(t, eat(t, moved(t, st, s), Tok::RParen), Tok::LBrace));
        (
            StmtKindV::If {
                cond: not_null(monitor),
                body,
                els: seq![null_monitor(line_at(t, st.pos))],
            },
            s2,
        )
    }
}

/// The comparison of an expression with null.
pub open spec fn not_null(e: ExprV) -> ExprV {
    ExprV::Binary { op: BinOp::Ne, lhs: Box::new(e), rhs: Box::new(ExprV::Var("null"@)) }
}

/// The statement that throws for a null monitor.
pub open spec fn null_monitor(line: u32) -> StmtV {
    StmtV {
        line,
        kind: StmtKindV::Throw(
            ExprV::NewObject {
                class: "NullPointerException"@,
                args: seq![
                    ExprV::Str("Cannot enter synchronized block because the monitor is null"@),
                ],
                line,
            },
        ),
    }
}

// ── Try ─────────────────────────────────────────────────────────────────────

/// A resource of a `try`: declared there with its type and value, or a name
/// that already holds one.
pub struct ResourceV {
    pub decl: Option<(Seq<char>, ExprV)>,
    pub name: Seq<char>,
    pub line: u32,
}

/// A `try` with its resources, handlers and last block, one of which it has to
/// have.
#[verifier::opaque]
pub open spec fn try_stmt_rule(t: Seq<TokenV>, g: Sub, st: Place) -> (StmtKindV, Place) {
    if left(t, st) == 0 {
        (no_stmt(), halted(st))
    } else {
        let (resources, s) = g.opt_resources(step(t, exception_seen(st)));
        let (body, s2) = g.block(eat(t, moved(t, st, s), Tok::LBrace));
        let (catches, s3) = g.catches_rest(moved(t, st, s2), seq![]);
        let (last, s4) = g.opt_finally(moved(t, st, s3));
        if s4.err is Some {
            (no_stmt(), s4)
        } else if resources.len() > 0 {
            (with_resources(resources, body, catches, last), s4)
        } else if catches.len() == 0 && last.len() == 0 {
            (
                no_stmt(),
                failed(
                    s4,
                    at_line("javars: `try` needs a `catch` or a `finally`"@, line_at(t, s4.pos)),
                ),
            )
        } else {
            (StmtKindV::Try { body, catches, finally_body: last }, s4)
        }
    }
}

/// The last block of a `try`, if it has one.
#[verifier::opaque]
pub open spec fn opt_finally_rule(t: Seq<TokenV>, g: Sub, st: Place) -> (Seq<StmtV>, Place) {
    if left(t, st) == 0 {
        (seq![], halted(st))
    } else if word_at(t, st.pos, "finally"@) {
        g.block(eat(t, step(t, st), Tok::LBrace))
    } else {
        (seq![], st)
    }
}

/// The types of a handler.
pub open spec fn catch_types(t: Seq<TokenV>, st: Place, out: Seq<Seq<char>>) -> (
    Seq<Seq<char>>,
    Place,
)
    decreases left(t, st),
{
    if left(t, st) == 0 {
        (out, halted(st))
    } else {
        let (ty, s0) = declared_type(t, st);
        let s = moved(t, st, s0);
        if s.err is None && kind_at(t, s.pos) == Tok::Pipe {
            catch_types(t, step(t, s), out.push(ty))
        } else {
            (out.push(ty), s)
        }
    }
}

/// The handlers from a place on.
#[verifier::opaque]
pub open spec fn catches_rest_rule(
    t: Seq<TokenV>,
    g: Sub,
    st: Place,
    out: Seq<CatchArmV>,
) -> (Seq<CatchArmV>, Place) {
    if left(t, st) == 0 {
        (out, halted(st))
    } else if !word_at(t, st.pos, "catch"@) {
        (out, st)
    } else {
        let (types, s) = catch_types(
            t,
            eat_word(t, eat(t, step(t, st), Tok::LParen), "final"@),
            seq![],
        );
        let (name, s2) = ident(t, s);
        let (body, s3) = g.block(moved(t, st, eat(t, eat(t, s2, Tok::RParen), Tok::LBrace)),
        );
        g.catches_rest(moved(t, st, s3), out.push(CatchArmV { types, name, body }))
    }
}

/// The resources of a `try`, if it has brackets; at least one has to stand in
/// them.
#[verifier::opaque]
pub open spec fn opt_resources_rule(t: Seq<TokenV>, g: Sub, st: Place) -> (Seq<ResourceV>, Place) {
    if left(t, st) == 0 {
        (seq![], halted(st))
    } else if kind_at(t, st.pos) != Tok::LParen {
        (seq![], st)
    } else {
        let (out, s) = g.resources_rest(step(t, st), seq![]);
        if s.err is None && out.len() == 0 {
            (
                seq![],
                failed(
                    s,
                    at_line(
                        "javars: try-with-resources needs at least one resource"@,
                        line_at(t, s.pos),
                    ),
                ),
            )
        } else {
            (out, s)
        }
    }
}

/// The resources up to the closing bracket, with it.
#[verifier::opaque]
pub open spec fn resources_rest_rule(
    t: Seq<TokenV>,
    g: Sub,
    st: Place,
    out: Seq<ResourceV>,
) -> (Seq<ResourceV>, Place) {
    if left(t, st) == 0 {
        (out, halted(st))
    } else if kind_at(t, st.pos) == Tok::RParen {
        (out, step(t, st))
    } else {
        let (r, s) = g.resource(eat_word(t, st, "final"@));
        g.resources_rest(eat_if(t, moved(t, st, s), Tok::Semi), out.push(r))
    }
}

/// Whether a bare name is a resource.
pub open spec fn bare_resource(t: Seq<TokenV>, j: int) -> bool {
    kind_at(t, j) == Tok::Ident && (kind_at(t, j + 1) == Tok::RParen || kind_at(t, j + 1)
        == Tok::Semi)
}

/// One resource.
#[verifier::opaque]
pub open spec fn resource_rule(t: Seq<TokenV>, g: Sub, st: Place) -> (ResourceV, Place) {
    let line = line_at(t, st.pos);
    if left(t, st) == 0 {
        (ResourceV { decl: None, name: seq![], line }, halted(st))
    } else if bare_resource(t, st.pos) {
        (ResourceV { decl: None, name: text_of_token(t, st.pos), line }, step(t, st))
    } else {
        let (ty, s) = declared_type(t, st);
        let (name, s2) = ident(t, s);
        let (init, s3) = g.expression(moved(t, st, eat(t, s2, Tok::Assign)));
        (ResourceV { decl: Some((ty, init)), name, line }, s3)
    }
}

/// The statement that closes a resource that is not null.
pub open spec fn closing(r: ResourceV) -> StmtV {
    StmtV {
        line: r.line,
        kind: StmtKindV::If {
            cond: not_null(ExprV::Var(r.name)),
            body: seq![
                StmtV {
                    line: r.line,
                    kind: StmtKindV::Expr(
                        ExprV::MethodCall {
                            recv: Box::new(ExprV::Var(r.name)),
                            method: "close"@,
                            args: seq![],
                            line: r.line,
                        },
                    ),
                },
            ],
            els: seq![],
        },
    }
}

/// Statements under a resource: its declaration, and the statements with the
/// closing after them.
pub open spec fn guarded(r: ResourceV, inner: Seq<StmtV>) -> Seq<StmtV> {
    let guard = StmtV {
        line: r.line,
        kind: StmtKindV::Try { body: inner, catches: seq![], finally_body: seq![closing(r)] },
    };
    match r.decl {
        Some((ty, init)) => seq![
            StmtV {
                line: r.line,
                kind: StmtKindV::Local { ty, name: r.name, init: Some(init) },
            },
            guard,
        ],
        None => seq![guard],
    }
}

/// Statements under resources. The last one declared is the innermost, so it is
/// closed first.
pub open spec fn under(resources: Seq<ResourceV>, inner: Seq<StmtV>) -> Seq<StmtV>
    decreases resources.len(),
{
    if resources.len() == 0 {
        inner
    } else {
        under(resources.drop_last(), guarded(resources.last(), inner))
    }
}

/// Resources close in the reverse of the order they are declared in: one declared
/// last stands around the statements and inside all others.
pub proof fn last_resource_is_innermost(
    resources: Seq<ResourceV>,
    r: ResourceV,
    inner: Seq<StmtV>,
)
    ensures
        under(resources.push(r), inner) == under(resources, guarded(r, inner)),
{
    assert(resources.push(r).drop_last() =~= resources);
}

/// A `try` with resources, which are closed before its handlers run.
pub open spec fn with_resources(
    resources: Seq<ResourceV>,
    body: Seq<StmtV>,
    catches: Seq<CatchArmV>,
    last: Seq<StmtV>,
) -> StmtKindV {
    let inner = under(resources, body);
    if catches.len() == 0 && last.len() == 0 {
        StmtKindV::If { cond: ExprV::Bool(true), body: inner, els: seq![] }
    } else {
        StmtKindV::Try { body: inner, catches, finally_body: last }
    }
}

// ── Switch statements ───────────────────────────────────────────────────────

/// A `switch` that is a statement. With arrows it is the expression, its value
/// dropped.
#[verifier::opaque]
pub open spec fn switch_stmt_rule(t: Seq<TokenV>, g: Sub, st: Place) -> (StmtKindV, Place) {
    if left(t, st) == 0 {
        (no_stmt(), halted(st))
    } else if arrow_switch_ahead(t, st.pos) {
        let (e, s) = g.switch_expr(st);
        (StmtKindV::Expr(e), s)
    } else {
        let (disc, s) = g.expression(eat(t, eat(t, st, Tok::Switch), Tok::LParen));
        let (groups, s2) = g.groups_rest(eat(t, eat(t, moved(t, st, s), Tok::RParen), Tok::LBrace),
            seq![],
        );
        (StmtKindV::Switch { disc, groups }, s2)
    }
}

/// The groups up to the closing brace, with it.
#[verifier::opaque]
pub open spec fn groups_rest_rule(
    t: Seq<TokenV>,
    g: Sub,
    st: Place,
    out: Seq<SwitchGroupV>,
) -> (Seq<SwitchGroupV>, Place) {
    if left(t, st) == 0 {
        (out, halted(st))
    } else if kind_at(t, st.pos) == Tok::RBrace || kind_at(t, st.pos) == Tok::Eof {
        (out, eat(t, st, Tok::RBrace))
    } else {
        let ((labels, is_default), s) = g.group_labels(st, seq![], false);
        if s.err is None && labels.len() == 0 && !is_default {
            (
                out,
                failed(
                    s,
                    at_line(
                        "javars: expected `case` or `default` in switch body"@,
                        line_at(t, s.pos),
                    ),
                ),
            )
        } else {
            let (body, s2) = g.group_body(moved(t, st, s), seq![]);
            g.groups_rest(moved(t, st, s2),
                out.push(SwitchGroupV { labels, is_default, body }),
            )
        }
    }
}

/// The labels before a group's statements.
#[verifier::opaque]
pub open spec fn group_labels_rule(
    t: Seq<TokenV>,
    g: Sub,
    st: Place,
    labels: Seq<ExprV>,
    is_default: bool,
) -> ((Seq<ExprV>, bool), Place) {
    if left(t, st) == 0 {
        ((labels, is_default), halted(st))
    } else if kind_at(t, st.pos) == Tok::Case {
        let (e, s) = g.binary(step(t, st), 0);
        g.group_labels(eat(t, moved(t, st, s), Tok::Colon), labels.push(e), is_default)
    } else if kind_at(t, st.pos) == Tok::Default {
        g.group_labels(eat(t, step(t, st), Tok::Colon), labels, true)
    } else {
        ((labels, is_default), st)
    }
}

// ── Reading by the rules ────────────────────────────────────────────────────

/// How high a rule stands among those that start at one place.
pub open spec fn level(r: Rule) -> int {
    match r {
        Rule::Expression => 20,
        Rule::LambdaBody => 50,
        Rule::Binary(..) => 18,
        Rule::BinaryRest(..) => 0,
        Rule::Unary => 17,
        Rule::Postfix => 16,
        Rule::PostfixRest(..) => 0,
        Rule::Primary => 15,
        Rule::Named => 14,
        Rule::NewExpr => 14,
        Rule::SizesRest(..) => 0,
        Rule::ArrayElems(..) => 21,
        Rule::CallArgs => 13,
        Rule::ArgsRest(..) => 21,
        Rule::SystemOut => 12,
        Rule::SwitchExpr => 14,
        Rule::ArmsRest(..) => 30,
        Rule::LabelsRest(..) => 21,
        Rule::ArmBody => 50,
        Rule::GroupBody(..) => 42,
        Rule::Block => 43,
        Rule::BlockRest(..) => 42,
        Rule::BracedOrSingle => 43,
        Rule::Statement => 41,
        Rule::StatementKind => 40,
        Rule::ReturnStmt => 38,
        Rule::SimpleStatement(..) => 37,
        Rule::Declarators(..) => 30,
        Rule::OptInit => 23,
        Rule::VarInit => 22,
        Rule::IfStmt => 38,
        Rule::WhileStmt => 38,
        Rule::DoStmt => 38,
        Rule::ForStmt => 38,
        Rule::ForCond => 21,
        Rule::ForClause(..) => 39,
        Rule::ClauseRest(..) => 38,
        Rule::SynchronizedStmt => 38,
        Rule::TryStmt => 38,
        Rule::OptFinally => 44,
        Rule::CatchesRest(..) => 44,
        Rule::OptResources => 31,
        Rule::ResourcesRest(..) => 30,
        Rule::Resource => 29,
        Rule::SwitchStmt => 38,
        Rule::GroupsRest(..) => 44,
        Rule::GroupLabels(..) => 21,
    }
}

/// One rule applied, its parts read as `g` says.
#[verifier::opaque]
pub open spec fn applied(t: Seq<TokenV>, g: Sub, r: Rule, st: Place) -> (Read, Place) {
    match r {
        Rule::Expression => {
            let (x, s) = expression_rule(t, g, st);
            (Read::Expr(x), s)
        },
        Rule::LambdaBody => {
            let (x, s) = lambda_body_rule(t, g, st);
            (Read::Lambda(x), s)
        },
        Rule::Binary(min_bp) => {
            let (x, s) = binary_rule(t, g, st, min_bp);
            (Read::Expr(x), s)
        },
        Rule::BinaryRest(lhs, min_bp) => {
            let (x, s) = binary_rest_rule(t, g, st, lhs, min_bp);
            (Read::Expr(x), s)
        },
        Rule::Unary => {
            let (x, s) = unary_rule(t, g, st);
            (Read::Expr(x), s)
        },
        Rule::Postfix => {
            let (x, s) = postfix_rule(t, g, st);
            (Read::Expr(x), s)
        },
        Rule::PostfixRest(e) => {
            let (x, s) = postfix_rest_rule(t, g, st, e);
            (Read::Expr(x), s)
        },
        Rule::Primary => {
            let (x, s) = primary_rule(t, g, st);
            (Read::Expr(x), s)
        },
        Rule::Named => {
            let (x, s) = named_rule(t, g, st);
            (Read::Expr(x), s)
        },
        Rule::NewExpr => {
            let (x, s) = new_expr_rule(t, g, st);
            (Read::Expr(x), s)
        },
        Rule::SizesRest(sizes, extra, line) => {
            let (x, s) = sizes_rest_rule(t, g, st, sizes, extra, line);
            (Read::Sizes(x), s)
        },
        Rule::ArrayElems(out) => {
            let (x, s) = array_elems_rule(t, g, st, out);
            (Read::Exprs(x), s)
        },
        Rule::CallArgs => {
            let (x, s) = call_args_rule(t, g, st);
            (Read::Exprs(x), s)
        },
        Rule::ArgsRest(out) => {
            let (x, s) = args_rest_rule(t, g, st, out);
            (Read::Exprs(x), s)
        },
        Rule::SystemOut => {
            let (x, s) = system_out_rule(t, g, st);
            (Read::Expr(x), s)
        },
        Rule::SwitchExpr => {
            let (x, s) = switch_expr_rule(t, g, st);
            (Read::Expr(x), s)
        },
        Rule::ArmsRest(out, waiting) => {
            let (x, s) = arms_rest_rule(t, g, st, out, waiting);
            (Read::Arms(x), s)
        },
        Rule::LabelsRest(out) => {
            let (x, s) = labels_rest_rule(t, g, st, out);
            (Read::Exprs(x), s)
        },
        Rule::ArmBody => {
            let (x, s) = arm_body_rule(t, g, st);
            (Read::ArmBody(x), s)
        },
        Rule::GroupBody(out) => {
            let (x, s) = group_body_rule(t, g, st, out);
            (Read::Stmts(x), s)
        },
        Rule::Block => {
            let (x, s) = block_rule(t, g, st);
            (Read::Stmts(x), s)
        },
        Rule::BlockRest(out) => {
            let (x, s) = block_rest_rule(t, g, st, out);
            (Read::Stmts(x), s)
        },
        Rule::BracedOrSingle => {
            let (x, s) = braced_or_single_rule(t, g, st);
            (Read::Stmts(x), s)
        },
        Rule::Statement => {
            let (x, s) = statement_rule(t, g, st);
            (Read::Stmt(x), s)
        },
        Rule::StatementKind => {
            let (x, s) = statement_kind_rule(t, g, st);
            (Read::Kind(x), s)
        },
        Rule::ReturnStmt => {
            let (x, s) = return_stmt_rule(t, g, st);
            (Read::Kind(x), s)
        },
        Rule::SimpleStatement(semi) => {
            let (x, s) = simple_statement_rule(t, g, st, semi);
            (Read::Kind(x), s)
        },
        Rule::Declarators(base, out) => {
            let (x, s) = declarators_rule(t, g, st, base, out);
            (Read::Stmts(x), s)
        },
        Rule::OptInit => {
            let (x, s) = opt_init_rule(t, g, st);
            (Read::OptExpr(x), s)
        },
        Rule::VarInit => {
            let (x, s) = var_init_rule(t, g, st);
            (Read::Expr(x), s)
        },
        Rule::IfStmt => {
            let (x, s) = if_stmt_rule(t, g, st);
            (Read::Kind(x), s)
        },
        Rule::WhileStmt => {
            let (x, s) = while_stmt_rule(t, g, st);
            (Read::Kind(x), s)
        },
        Rule::DoStmt => {
            let (x, s) = do_stmt_rule(t, g, st);
            (Read::Kind(x), s)
        },
        Rule::ForStmt => {
            let (x, s) = for_stmt_rule(t, g, st);
            (Read::Kind(x), s)
        },
        Rule::ForCond => {
            let (x, s) = for_cond_rule(t, g, st);
            (Read::OptExpr(x), s)
        },
        Rule::ForClause(end) => {
            let (x, s) = for_clause_rule(t, g, st, end);
            (Read::Stmts(x), s)
        },
        Rule::ClauseRest(out) => {
            let (x, s) = clause_rest_rule(t, g, st, out);
            (Read::Stmts(x), s)
        },
        Rule::SynchronizedStmt => {
            let (x, s) = synchronized_stmt_rule(t, g, st);
            (Read::Kind(x), s)
        },
        Rule::TryStmt => {
            let (x, s) = try_stmt_rule(t, g, st);
            (Read::Kind(x), s)
        },
        Rule::OptFinally => {
            let (x, s) = opt_finally_rule(t, g, st);
            (Read::Stmts(x), s)
        },
        Rule::CatchesRest(out) => {
            let (x, s) = catches_rest_rule(t, g, st, out);
            (Read::Catches(x), s)
        },
        Rule::OptResources => {
            let (x, s) = opt_resources_rule(t, g, st);
            (Read::Resources(x), s)
        },
        Rule::ResourcesRest(out) => {
            let (x, s) = resources_rest_rule(t, g, st, out);
            (Read::Resources(x), s)
        },
        Rule::Resource => {
            let (x, s) = resource_rule(t, g, st);
            (Read::Resource(x), s)
        },
        Rule::SwitchStmt => {
            let (x, s) = switch_stmt_rule(t, g, st);
            (Read::Kind(x), s)
        },
        Rule::GroupsRest(out) => {
            let (x, s) = groups_rest_rule(t, g, st, out);
            (Read::Groups(x), s)
        },
        Rule::GroupLabels(labels, is_default) => {
            let (x, s) = group_labels_rule(t, g, st, labels, is_default);
            (Read::Labels(x), s)
        },
    }
}

/// Whether a rule at a place is one that another may use: there is less left to
/// read, or as much and the rule stands lower.
pub open spec fn usable(t: Seq<TokenV>, r2: Rule, st2: Place, r: Rule, st: Place) -> bool {
    ||| left(t, st2) < left(t, st)
    ||| left(t, st2) == left(t, st) && level(r2) < level(r)
}

/// What a rule reads at a place, and the place after it.
#[verifier::opaque]
pub open spec fn read(t: Seq<TokenV>, r: Rule, st: Place) -> (Read, Place)
    decreases left(t, st), level(r), 1int,
{
    applied(t, parts(t, r, st), r, st)
}

/// The rules that one at a place may use.
#[verifier::opaque]
pub open spec fn parts(t: Seq<TokenV>, r: Rule, st: Place) -> Sub
    decreases left(t, st), level(r), 0int,
{
    Sub {
        read: |r2: Rule, st2: Place|
            if usable(t, r2, st2, r, st) {
                read(t, r2, st2)
            } else {
                (Read::Nothing, halted(st2))
            },
    }
}

/// A rule reads what it says, with its parts read by the rules.
pub proof fn by_the_rule(t: Seq<TokenV>, r: Rule, st: Place)
    ensures
        read(t, r, st) == applied(t, parts(t, r, st), r, st),
        forall|r2: Rule, st2: Place|
            #![trigger (parts(t, r, st).read)(r2, st2)]
            (parts(t, r, st).read)(r2, st2) == if usable(t, r2, st2, r, st) {
                read(t, r2, st2)
            } else {
                (Read::Nothing, halted(st2))
            },
{
    reveal(read);
    reveal(parts);
}

/// Every rule leaves a failed place as it is: the first error is the one that is
/// reported.
pub broadcast proof fn first_error_stays(t: Seq<TokenV>, r: Rule, st: Place)
    requires
        st.err is Some,
    ensures
        (#[trigger] read(t, r, st)).1 == st,
{
    by_the_rule(t, r, st);
    reveal(applied);
    reveal(expression_rule);
    reveal(lambda_body_rule);
    reveal(binary_rule);
    reveal(binary_rest_rule);
    reveal(unary_rule);
    reveal(postfix_rule);
    reveal(postfix_rest_rule);
    reveal(primary_rule);
    reveal(named_rule);
    reveal(new_expr_rule);
    reveal(sizes_rest_rule);
    reveal(array_elems_rule);
    reveal(call_args_rule);
    reveal(args_rest_rule);
    reveal(system_out_rule);
    reveal(switch_expr_rule);
    reveal(arms_rest_rule);
    reveal(labels_rest_rule);
    reveal(arm_body_rule);
    reveal(group_body_rule);
    reveal(block_rule);
    reveal(block_rest_rule);
    reveal(braced_or_single_rule);
    reveal(statement_rule);
    reveal(statement_kind_rule);
    reveal(return_stmt_rule);
    reveal(simple_statement_rule);
    reveal(declarators_rule);
    reveal(opt_init_rule);
    reveal(var_init_rule);
    reveal(if_stmt_rule);
    reveal(while_stmt_rule);
    reveal(do_stmt_rule);
    reveal(for_stmt_rule);
    reveal(for_cond_rule);
    reveal(for_clause_rule);
    reveal(clause_rest_rule);
    reveal(synchronized_stmt_rule);
    reveal(try_stmt_rule);
    reveal(opt_finally_rule);
    reveal(catches_rest_rule);
    reveal(opt_resources_rule);
    reveal(resources_rest_rule);
    reveal(resource_rule);
    reveal(switch_stmt_rule);
    reveal(groups_rest_rule);
    reveal(group_labels_rule);
}

/// The grammar's rules.
pub open spec fn rules(t: Seq<TokenV>) -> Sub {
    Sub { read: |r: Rule, st: Place| read(t, r, st) }
}

pub open spec fn expression(t: Seq<TokenV>, st: Place) -> (ExprV, Place) {
    rules(t).expression(st)
}

pub open spec fn lambda_body(t: Seq<TokenV>, st: Place) -> (LambdaBodyV, Place) {
    rules(t).lambda_body(st)
}

pub open spec fn binary(t: Seq<TokenV>, st: Place, min_bp: u8) -> (ExprV, Place) {
    rules(t).binary(st, min_bp)
}

pub open spec fn binary_rest(t: Seq<TokenV>, st: Place, lhs: ExprV, min_bp: u8) -> (ExprV, Place) {
    rules(t).binary_rest(st, lhs, min_bp)
}

pub open spec fn unary(t: Seq<TokenV>, st: Place) -> (ExprV, Place) {
    rules(t).unary(st)
}

pub open spec fn postfix(t: Seq<TokenV>, st: Place) -> (ExprV, Place) {
    rules(t).postfix(st)
}

pub open spec fn postfix_rest(t: Seq<TokenV>, st: Place, e: ExprV) -> (ExprV, Place) {
    rules(t).postfix_rest(st, e)
}

pub open spec fn primary(t: Seq<TokenV>, st: Place) -> (ExprV, Place) {
    rules(t).primary(st)
}

pub open spec fn named(t: Seq<TokenV>, st: Place) -> (ExprV, Place) {
    rules(t).named(st)
}

pub open spec fn new_expr(t: Seq<TokenV>, st: Place) -> (ExprV, Place) {
    rules(t).new_expr(st)
}

pub open spec fn sizes_rest(
    t: Seq<TokenV>,
    st: Place,
    sizes: Seq<ExprV>,
    extra: u64,
    line: u32,
) -> ((Seq<ExprV>, u64), Place) {
    rules(t).sizes_rest(st, sizes, extra, line)
}

pub open spec fn array_elems(t: Seq<TokenV>, st: Place, out: Seq<ExprV>) -> (Seq<ExprV>, Place) {
    rules(t).array_elems(st, out)
}

pub open spec fn call_args(t: Seq<TokenV>, st: Place) -> (Seq<ExprV>, Place) {
    rules(t).call_args(st)
}

pub open spec fn args_rest(t: Seq<TokenV>, st: Place, out: Seq<ExprV>) -> (Seq<ExprV>, Place) {
    rules(t).args_rest(st, out)
}

pub open spec fn system_out(t: Seq<TokenV>, st: Place) -> (ExprV, Place) {
    rules(t).system_out(st)
}

pub open spec fn switch_expr(t: Seq<TokenV>, st: Place) -> (ExprV, Place) {
    rules(t).switch_expr(st)
}

pub open spec fn arms_rest(
    t: Seq<TokenV>,
    st: Place,
    out: Seq<SwitchArmV>,
    waiting: Seq<ExprV>,
) -> (Seq<SwitchArmV>, Place) {
    rules(t).arms_rest(st, out, waiting)
}

pub open spec fn labels_rest(t: Seq<TokenV>, st: Place, out: Seq<ExprV>) -> (Seq<ExprV>, Place) {
    rules(t).labels_rest(st, out)
}

pub open spec fn arm_body(t: Seq<TokenV>, st: Place) -> (SwitchArmBodyV, Place) {
    rules(t).arm_body(st)
}

pub open spec fn group_body(t: Seq<TokenV>, st: Place, out: Seq<StmtV>) -> (Seq<StmtV>, Place) {
    rules(t).group_body(st, out)
}

pub open spec fn block(t: Seq<TokenV>, st: Place) -> (Seq<StmtV>, Place) {
    rules(t).block(st)
}

pub open spec fn block_rest(t: Seq<TokenV>, st: Place, out: Seq<StmtV>) -> (Seq<StmtV>, Place) {
    rules(t).block_rest(st, out)
}

pub open spec fn braced_or_single(t: Seq<TokenV>, st: Place) -> (Seq<StmtV>, Place) {
    rules(t).braced_or_single(st)
}

pub open spec fn statement(t: Seq<TokenV>, st: Place) -> (StmtV, Place) {
    rules(t).statement(st)
}

pub open spec fn statement_kind(t: Seq<TokenV>, st: Place) -> (StmtKindV, Place) {
    rules(t).statement_kind(st)
}

pub open spec fn return_stmt(t: Seq<TokenV>, st: Place) -> (StmtKindV, Place) {
    rules(t).return_stmt(st)
}

pub open spec fn simple_statement(t: Seq<TokenV>, st: Place, semi: bool) -> (StmtKindV, Place) {
    rules(t).simple_statement(st, semi)
}

pub open spec fn declarators(
    t: Seq<TokenV>,
    st: Place,
    base: Seq<char>,
    out: Seq<StmtV>,
) -> (Seq<StmtV>, Place) {
    rules(t).declarators(st, base, out)
}

pub open spec fn opt_init(t: Seq<TokenV>, st: Place) -> (Option<ExprV>, Place) {
    rules(t).opt_init(st)
}

pub open spec fn var_init(t: Seq<TokenV>, st: Place) -> (ExprV, Place) {
    rules(t).var_init(st)
}

pub open spec fn if_stmt(t: Seq<TokenV>, st: Place) -> (StmtKindV, Place) {
    rules(t).if_stmt(st)
}

pub open spec fn while_stmt(t: Seq<TokenV>, st: Place) -> (StmtKindV, Place) {
    rules(t).while_stmt(st)
}

pub open spec fn do_stmt(t: Seq<TokenV>, st: Place) -> (StmtKindV, Place) {
    rules(t).do_stmt(st)
}

pub open spec fn for_stmt(t: Seq<TokenV>, st: Place) -> (StmtKindV, Place) {
    rules(t).for_stmt(st)
}

pub open spec fn for_cond(t: Seq<TokenV>, st: Place) -> (Option<ExprV>, Place) {
    rules(t).for_cond(st)
}

pub open spec fn for_clause(t: Seq<TokenV>, st: Place, end: Tok) -> (Seq<StmtV>, Place) {
    rules(t).for_clause(st, end)
}

pub open spec fn clause_rest(t: Seq<TokenV>, st: Place, out: Seq<StmtV>) -> (Seq<StmtV>, Place) {
    rules(t).clause_rest(st, out)
}

pub open spec fn synchronized_stmt(t: Seq<TokenV>, st: Place) -> (StmtKindV, Place) {
    rules(t).synchronized_stmt(st)
}

pub open spec fn try_stmt(t: Seq<TokenV>, st: Place) -> (StmtKindV, Place) {
    rules(t).try_stmt(st)
}

pub open spec fn opt_finally(t: Seq<TokenV>, st: Place) -> (Seq<StmtV>, Place) {
    rules(t).opt_finally(st)
}

pub open spec fn catches_rest(
    t: Seq<TokenV>,
    st: Place,
    out: Seq<CatchArmV>,
) -> (Seq<CatchArmV>, Place) {
    rules(t).catches_rest(st, out)
}

pub open spec fn opt_resources(t: Seq<TokenV>, st: Place) -> (Seq<ResourceV>, Place) {
    rules(t).opt_resources(st)
}

pub open spec fn resources_rest(
    t: Seq<TokenV>,
    st: Place,
    out: Seq<ResourceV>,
) -> (Seq<ResourceV>, Place) {
    rules(t).resources_rest(st, out)
}

pub open spec fn resource(t: Seq<TokenV>, st: Place) -> (ResourceV, Place) {
    rules(t).resource(st)
}

pub open spec fn switch_stmt(t: Seq<TokenV>, st: Place) -> (StmtKindV, Place) {
    rules(t).switch_stmt(st)
}

pub open spec fn groups_rest(
    t: Seq<TokenV>,
    st: Place,
    out: Seq<SwitchGroupV>,
) -> (Seq<SwitchGroupV>, Place) {
    rules(t).groups_rest(st, out)
}

pub open spec fn group_labels(
    t: Seq<TokenV>,
    st: Place,
    labels: Seq<ExprV>,
    is_default: bool,
) -> ((Seq<ExprV>, bool), Place) {
    rules(t).group_labels(st, labels, is_default)
}

} // verus!
