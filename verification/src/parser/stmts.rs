//! Reading statements.
use vstd::prelude::*;

use crate::ast::{
    AssignOp, BinOp, CatchArm, CatchArmV, Expr, ExprV, Stmt, StmtKind, StmtKindV, StmtV,
    SwitchGroup, SwitchGroupV, catch_views, expr_views, group_views, opt_expr_view, stmt_views,
};
use crate::lexer::Tok;
use crate::parser::exprs::{assign_op, push_expr, push_word, with_line};
use crate::parser::grammar::{
    ResourceV, Rule, applied, assigned, at_line, block, block_rest, block_rest_rule, block_rule,
    braced_or_single, braced_or_single_rule, by_the_rule, catch_types, catches_rest,
    catches_rest_rule, clause_rest, clause_rest_rule, closed, closing, declarators,
    declarators_rule, declared, do_stmt, do_stmt_rule, for_clause, for_clause_rule, for_cond,
    for_cond_rule, for_stmt, for_stmt_rule, foreach_header, form_name, group_body,
    group_body_rule, group_labels, group_labels_rule, groups_rest, groups_rest_rule, guarded,
    if_stmt, if_stmt_rule, not_null, null_monitor, opt_finally, opt_finally_rule, opt_init,
    opt_init_rule, opt_resources, opt_resources_rule, optional_label, resource, resource_rule,
    resources_rest, resources_rest_rule, return_stmt, return_stmt_rule, simple_statement,
    simple_statement_rule, statement, statement_kind, statement_kind_rule, statement_rule,
    switch_stmt, switch_stmt_rule, synchronized_stmt, synchronized_stmt_rule, try_stmt,
    try_stmt_rule, under, var_init, var_init_rule, while_stmt, while_stmt_rule, with_resources,
};
use crate::parser::tokens::{Parser, failed, kind_at, line_at};
use crate::prelude::opt_view;
use crate::text::{int_text, own, same, views};

verus! {

broadcast use crate::parser::grammar::first_error_stays;

/// A resource of a `try`.
pub struct Resource {
    pub decl: Option<(String, Expr)>,
    pub name: String,
    pub line: u32,
}

impl View for Resource {
    type V = ResourceV;

    open spec fn view(&self) -> ResourceV {
        ResourceV {
            decl: match self.decl {
                Some((ty, init)) => Some((ty@, init@)),
                None => None,
            },
            name: self.name@,
            line: self.line,
        }
    }
}

/// The views of resources.
pub open spec fn resource_views(s: Seq<Resource>) -> Seq<ResourceV> {
    s.map_values(|r: Resource| r@)
}

/// The type and name of a `for` over elements, where they were found.
pub open spec fn header_found(x: Option<(String, String)>) -> Option<(Seq<char>, Seq<char>)> {
    match x {
        Some((ty, name)) => Some((ty@, name@)),
        None => None,
    }
}

/// One more statement in a list.
pub(crate) fn push_stmt(v: &mut Vec<Stmt>, s: Stmt)
    ensures
        stmt_views(final(v)@) == stmt_views(old(v)@).push(s@),
        final(v).len() == old(v).len() + 1,
{
    let ghost was = v@;
    v.push(s);
    assert(stmt_views(v@) =~= stmt_views(was).push(s@));
}

/// A list of no statements.
pub(crate) fn no_stmts() -> (r: Vec<Stmt>)
    ensures
        stmt_views(r@) == Seq::<StmtV>::empty(),
        r.len() == 0,
{
    let r: Vec<Stmt> = Vec::new();
    assert(stmt_views(r@) =~= Seq::<StmtV>::empty());
    r
}

/// A list of one statement.
pub(crate) fn one_stmt(s: Stmt) -> (r: Vec<Stmt>)
    ensures
        stmt_views(r@) == seq![s@],
{
    let mut r: Vec<Stmt> = Vec::new();
    r.push(s);
    assert(stmt_views(r@) =~= seq![s@]);
    r
}

/// The name of what an expression is, for a message.
fn name_of_form(e: &Expr) -> (r: &'static str)
    ensures
        r@ == form_name(e@),
{
    proof {
        reveal(form_name);
    }
    match e {
        Expr::Int(_) => "Int",
        Expr::Long(_) => "Long",
        Expr::Float(_) => "Float",
        Expr::Float32(_) => "Float32",
        Expr::Str(_) => "Str",
        Expr::Char(_) => "Char",
        Expr::Bool(_) => "Bool",
        Expr::Var(_) => "Var",
        Expr::This => "This",
        Expr::Unary { .. } => "Unary",
        Expr::Binary { .. } => "Binary",
        Expr::Ternary { .. } => "Ternary",
        Expr::Index { .. } => "Index",
        Expr::Field { .. } => "Field",
        Expr::MethodCall { .. } => "MethodCall",
        Expr::Call { .. } => "Call",
        Expr::NewObject { .. } => "NewObject",
        Expr::NewArray { .. } => "NewArray",
        Expr::ArrayLit { .. } => "ArrayLit",
        Expr::InstanceOf { .. } => "InstanceOf",
        Expr::Cast { .. } => "Cast",
        Expr::Lambda { .. } => "Lambda",
        Expr::MethodRef { .. } => "MethodRef",
        Expr::SwitchExpr { .. } => "SwitchExpr",
        Expr::Println { .. } => "Println",
        Expr::PostIncDec { .. } => "PostIncDec",
        Expr::PreIncDec { .. } => "PreIncDec",
    }
}

/// The comparison of an expression with null.
fn is_not_null(e: Expr) -> (r: Expr)
    ensures
        r@ == not_null(e@),
{
    let null: Expr = Expr::Var(own("null"));
    let r: Expr = Expr::Binary { op: BinOp::Ne, lhs: Box::new(e), rhs: Box::new(null) };
    assert(null@ == ExprV::Var("null"@));
    r
}

/// The statement that throws for a null monitor.
fn throw_null_monitor(line: u32) -> (r: Stmt)
    ensures
        r@ == null_monitor(line),
{
    let text: Expr = Expr::Str(
        own("Cannot enter synchronized block because the monitor is null"),
    );
    let mut args: Vec<Expr> = Vec::new();
    args.push(text);
    assert(text@ == ExprV::Str("Cannot enter synchronized block because the monitor is null"@));
    assert(expr_views(args@) =~= seq![text@]);
    let e: Expr = Expr::NewObject { class: own("NullPointerException"), args, line };
    let ghost made = e@;
    assert(made == ExprV::NewObject {
        class: "NullPointerException"@,
        args: seq![text@],
        line,
    });
    Stmt::new(line, StmtKind::Throw(e))
}

/// The statement that closes a resource that is not null.
fn closing_stmt(name: &str, line: u32) -> (r: Stmt)
    ensures
        r@ == closing((ResourceV { decl: None, name: name@, line })),
{
    let args: Vec<Expr> = Vec::new();
    assert(expr_views(args@) =~= seq![]);
    let recv: Expr = Expr::Var(own(name));
    assert(recv@ == ExprV::Var(name@));
    let call: Expr = Expr::MethodCall { recv: Box::new(recv), method: own("close"), args, line };
    let ghost called = call@;
    assert(called == ExprV::MethodCall {
        recv: Box::new(ExprV::Var(name@)),
        method: "close"@,
        args: seq![],
        line,
    });
    let inner: Stmt = Stmt::new(line, StmtKind::Expr(call));
    assert(inner@ == StmtV { line, kind: StmtKindV::Expr(called) });
    let body: Vec<Stmt> = one_stmt(inner);
    let var: Expr = Expr::Var(own(name));
    assert(var@ == ExprV::Var(name@));
    let cond: Expr = is_not_null(var);
    let kind: StmtKind = StmtKind::If { cond, body, els: no_stmts() };
    Stmt::new(line, kind)
}

/// Statements under a resource.
fn guard(r: Resource, inner: Vec<Stmt>) -> (out: Vec<Stmt>)
    ensures
        stmt_views(out@) == guarded(r@, stmt_views(inner@)),
{
    let catches: Vec<CatchArm> = Vec::new();
    assert(catch_views(catches@) =~= seq![]);
    let close: Stmt = closing_stmt(r.name.as_str(), r.line);
    let last: Vec<Stmt> = one_stmt(close);
    let ghost within = stmt_views(inner@);
    let kind: StmtKind = StmtKind::Try { body: inner, catches, finally_body: last };
    assert(kind@ == StmtKindV::Try {
        body: within,
        catches: seq![],
        finally_body: seq![closing(r@)],
    });
    let tried: Stmt = Stmt::new(r.line, kind);
    let mut out: Vec<Stmt> = no_stmts();
    if let Some(decl) = r.decl {
        let local: StmtKind = StmtKind::Local { ty: decl.0, name: r.name, init: Some(decl.1) };
        push_stmt(&mut out, Stmt::new(r.line, local));
        push_stmt(&mut out, tried);
    } else {
        push_stmt(&mut out, tried);
    }
    assert(stmt_views(out@) =~= guarded(r@, within));
    out
}

/// A `try` with resources.
fn with_closing(
    resources: Vec<Resource>,
    body: Vec<Stmt>,
    catches: Vec<CatchArm>,
    last: Vec<Stmt>,
) -> (r: StmtKind)
    ensures
        r@ == with_resources(
            resource_views(resources@),
            stmt_views(body@),
            catch_views(catches@),
            stmt_views(last@),
        ),
{
    let mut rest: Vec<Resource> = resources;
    let mut inner: Vec<Stmt> = body;
    while rest.len() > 0
        invariant
            under(resource_views(resources@), stmt_views(body@)) == under(
                resource_views(rest@),
                stmt_views(inner@),
            ),
        decreases rest.len(),
    {
        let ghost were = resource_views(rest@);
        let ghost rest_was = rest@;
        if let Some(r) = rest.pop() {
            assert(were.last() == r@);
            assert(resource_views(rest@) =~= were.drop_last());
            inner = guard(r, inner);
        }
    }
    assert(catch_views(catches@).len() == catches.len());
    assert(stmt_views(last@).len() == last.len());
    if catches.len() == 0 && last.len() == 0 {
        return StmtKind::If { cond: Expr::Bool(true), body: inner, els: no_stmts() };
    }
    StmtKind::Try { body: inner, catches, finally_body: last }
}

impl Parser {
    /// The statements of a block behind its opening brace, with the closing one.
    pub fn block(&mut self) -> (r: Result<Vec<Stmt>, String>)
        requires
            old(self).wf(),
        ensures
            match r {
                Ok(x) => (stmt_views(x@), final(self).here()) == block(
                    old(self).t(),
                    old(self).here(),
                ) && final(self).beyond(*old(self)),
                Err(m) => block(old(self).t(), old(self).here()).1.err == Some(m@),
            },
            final(self).t() == old(self).t(),
        decreases old(self).toks.len() - old(self).pos, 43int,
    {
        proof {
            by_the_rule(self.t(), Rule::Block, self.here());
            reveal(applied);
            reveal(block_rule);
        }
        let mut out: Vec<Stmt> = no_stmts();
        while !self.is(Tok::RBrace) && !self.is(Tok::Eof)
            invariant
                self.onward(*old(self)),
                block_rest(self.t(), self.here(), stmt_views(out@)) == block(
                    old(self).t(),
                    old(self).here(),
                ),
            decreases self.toks.len() - self.pos,
        {
            proof {
                by_the_rule(self.t(), Rule::BlockRest(stmt_views(out@)), self.here());
                reveal(applied);
                reveal(block_rest_rule);
            }
            let stmt: Stmt = match self.statement() {
                Ok(v) => v,
                Err(m) => {
                    return Err(m);
                },
            };
            push_stmt(&mut out, stmt);
        }
        proof {
            by_the_rule(self.t(), Rule::BlockRest(stmt_views(out@)), self.here());
            reveal(applied);
            reveal(block_rest_rule);
        }
        if let Err(m) = self.eat(Tok::RBrace) {
            return Err(m);
        }
        Ok(out)
    }

    /// The statements up to the next label or the closing brace.
    pub fn group_body(&mut self) -> (r: Result<Vec<Stmt>, String>)
        requires
            old(self).wf(),
        ensures
            match r {
                Ok(x) => (stmt_views(x@), final(self).here()) == group_body(
                    old(self).t(),
                    old(self).here(),
                    seq![],
                ) && final(self).onward(*old(self)),
                Err(m) => group_body(old(self).t(), old(self).here(), seq![]).1.err == Some(m@),
            },
            final(self).t() == old(self).t(),
        decreases old(self).toks.len() - old(self).pos, 42int,
    {
        proof {
            by_the_rule(self.t(), Rule::GroupBody(seq![]), self.here());
            reveal(applied);
            reveal(group_body_rule);
        }
        let mut out: Vec<Stmt> = no_stmts();
        while !self.is(Tok::Case) && !self.is(Tok::Default) && !self.is(Tok::RBrace) && !self.is(
            Tok::Eof,
        )
            invariant
                self.onward(*old(self)),
                group_body(self.t(), self.here(), stmt_views(out@)) == group_body(
                    old(self).t(),
                    old(self).here(),
                    seq![],
                ),
            decreases self.toks.len() - self.pos,
        {
            proof {
                by_the_rule(self.t(), Rule::GroupBody(stmt_views(out@)), self.here());
                reveal(applied);
                reveal(group_body_rule);
            }
            let stmt: Stmt = match self.statement() {
                Ok(v) => v,
                Err(m) => {
                    return Err(m);
                },
            };
            push_stmt(&mut out, stmt);
        }
        proof {
            by_the_rule(self.t(), Rule::GroupBody(stmt_views(out@)), self.here());
            reveal(applied);
            reveal(group_body_rule);
        }
        Ok(out)
    }

    /// A block, or a single statement.
    fn braced_or_single(&mut self) -> (r: Result<Vec<Stmt>, String>)
        requires
            old(self).wf(),
        ensures
            match r {
                Ok(x) => (stmt_views(x@), final(self).here()) == braced_or_single(
                    old(self).t(),
                    old(self).here(),
                ) && final(self).beyond(*old(self)),
                Err(m) => braced_or_single(old(self).t(), old(self).here()).1.err == Some(m@),
            },
            final(self).t() == old(self).t(),
        decreases old(self).toks.len() - old(self).pos, 43int,
    {
        proof {
            by_the_rule(self.t(), Rule::BracedOrSingle, self.here());
            reveal(applied);
            reveal(braced_or_single_rule);
        }
        if self.is(Tok::LBrace) {
            self.advance();
            return self.block();
        }
        let stmt: Stmt = match self.statement() {
            Ok(v) => v,
            Err(m) => {
                return Err(m);
            },
        };
        Ok(one_stmt(stmt))
    }

    /// A statement, with the line it starts on.
    pub fn statement(&mut self) -> (r: Result<Stmt, String>)
        requires
            old(self).wf(),
        ensures
            match r {
                Ok(x) => (x@, final(self).here()) == statement(
                    old(self).t(),
                    old(self).here(),
                ) && final(self).beyond(*old(self)),
                Err(m) => statement(old(self).t(), old(self).here()).1.err == Some(m@),
            },
            final(self).t() == old(self).t(),
        decreases old(self).toks.len() - old(self).pos, 41int,
    {
        proof {
            by_the_rule(self.t(), Rule::Statement, self.here());
            reveal(applied);
            reveal(statement_rule);
        }
        let line: u32 = self.line();
        let kind: StmtKind = match self.statement_kind() {
            Ok(v) => v,
            Err(m) => {
                return Err(m);
            },
        };
        Ok(Stmt::new(line, kind))
    }

    /// A statement by its label or word, or a simple one.
    fn statement_kind(&mut self) -> (r: Result<StmtKind, String>)
        requires
            old(self).wf(),
        ensures
            match r {
                Ok(x) => (x@, final(self).here()) == statement_kind(
                    old(self).t(),
                    old(self).here(),
                ) && final(self).beyond(*old(self)),
                Err(m) => statement_kind(old(self).t(), old(self).here()).1.err == Some(m@),
            },
            final(self).t() == old(self).t(),
        decreases old(self).toks.len() - old(self).pos, 40int,
    {
        proof {
            by_the_rule(self.t(), Rule::StatementKind, self.here());
            reveal(applied);
            reveal(statement_kind_rule);
        }
        if self.is(Tok::Ident) && self.ahead(1) == Tok::Colon {
            let label: String = self.text();
            self.advance();
            self.advance();
            let body: Stmt = match self.statement() {
                Ok(v) => v,
                Err(m) => {
                    return Err(m);
                },
            };
            return Ok(StmtKind::Labeled { label, body: Box::new(body) });
        }
        if self.at_word("try") {
            return self.try_stmt();
        }
        if self.at_word("yield") && self.switch_expr_depth > 0 {
            self.advance();
            let e: Expr = match self.expression() {
                Ok(v) => v,
                Err(m) => {
                    return Err(m);
                },
            };
            if let Err(m) = self.eat(Tok::Semi) {
                return Err(m);
            }
            return Ok(StmtKind::Yield(e));
        }
        if self.at_word("throw") {
            self.uses_exceptions = true;
            self.advance();
            let e: Expr = match self.expression() {
                Ok(v) => v,
                Err(m) => {
                    return Err(m);
                },
            };
            if let Err(m) = self.eat(Tok::Semi) {
                return Err(m);
            }
            return Ok(StmtKind::Throw(e));
        }
        if self.at_word("synchronized") && self.ahead(1) == Tok::LParen {
            return self.synchronized_stmt();
        }
        match self.peek() {
            Tok::If => self.if_stmt(),
            Tok::While => self.while_stmt(),
            Tok::Do => self.do_stmt(),
            Tok::For => self.for_stmt(),
            Tok::Switch => self.switch_stmt(),
            Tok::Return => {
                self.advance();
                self.return_stmt()
            },
            Tok::Break => {
                self.advance();
                let label: Option<String> = self.optional_label();
                if let Err(m) = self.eat(Tok::Semi) {
                    return Err(m);
                }
                Ok(StmtKind::Break(label))
            },
            Tok::Continue => {
                self.advance();
                let label: Option<String> = self.optional_label();
                if let Err(m) = self.eat(Tok::Semi) {
                    return Err(m);
                }
                Ok(StmtKind::Continue(label))
            },
            Tok::LBrace => {
                self.advance();
                let body: Vec<Stmt> = match self.block() {
                    Ok(v) => v,
                    Err(m) => {
                        return Err(m);
                    },
                };
                Ok(StmtKind::If { cond: Expr::Bool(true), body, els: no_stmts() })
            },
            _ => self.simple_statement(true),
        }
    }

    /// What is returned, behind the word.
    fn return_stmt(&mut self) -> (r: Result<StmtKind, String>)
        requires
            old(self).wf(),
        ensures
            match r {
                Ok(x) => (x@, final(self).here()) == return_stmt(
                    old(self).t(),
                    old(self).here(),
                ) && final(self).beyond(*old(self)),
                Err(m) => return_stmt(old(self).t(), old(self).here()).1.err == Some(m@),
            },
            final(self).t() == old(self).t(),
        decreases old(self).toks.len() - old(self).pos, 38int,
    {
        proof {
            by_the_rule(self.t(), Rule::ReturnStmt, self.here());
            reveal(applied);
            reveal(return_stmt_rule);
        }
        if self.is(Tok::Semi) {
            self.advance();
            return Ok(StmtKind::Return(None));
        }
        let e: Expr = match self.expression() {
            Ok(v) => v,
            Err(m) => {
                return Err(m);
            },
        };
        if let Err(m) = self.eat(Tok::Semi) {
            return Err(m);
        }
        Ok(StmtKind::Return(Some(e)))
    }

    /// The label a jump names, if it names one.
    fn optional_label(&mut self) -> (r: Option<String>)
        requires
            old(self).wf(),
        ensures
            (opt_view(r), final(self).here()) == optional_label(old(self).t(), old(self).here()),
            final(self).onward(*old(self)),
    {
        if self.is(Tok::Ident) {
            let label: String = self.text();
            self.advance();
            Some(label)
        } else {
            None
        }
    }

    /// Go past the semicolon of a statement that has one.
    fn close(&mut self, semi: bool) -> (r: Result<(), String>)
        requires
            old(self).wf(),
        ensures
            match r {
                Ok(_) => final(self).here() == closed(
                    old(self).t(),
                    old(self).here(),
                    semi,
                ) && final(self).onward(*old(self)),
                Err(m) => closed(old(self).t(), old(self).here(), semi).err == Some(m@),
            },
            final(self).t() == old(self).t(),
    {
        if semi {
            if let Err(m) = self.eat(Tok::Semi) {
                return Err(m);
            }
        }
        Ok(())
    }

    /// A declaration, an assignment, an update or an expression.
    fn simple_statement(&mut self, semi: bool) -> (r: Result<StmtKind, String>)
        requires
            old(self).wf(),
        ensures
            match r {
                Ok(x) => (x@, final(self).here()) == simple_statement(
                    old(self).t(),
                    old(self).here(),
                    semi,
                ) && final(self).beyond(*old(self)),
                Err(m) => simple_statement(old(self).t(), old(self).here(), semi).1.err == Some(m@),
            },
            final(self).t() == old(self).t(),
        decreases old(self).toks.len() - old(self).pos, 37int,
    {
        proof {
            by_the_rule(self.t(), Rule::SimpleStatement(semi), self.here());
            reveal(applied);
            reveal(simple_statement_rule);
        }
        if self.looks_like_decl() {
            self.eat_word("final");
            let base: String = match self.declared_type() {
                Ok(v) => v,
                Err(m) => {
                    return Err(m);
                },
            };
            let decls: Vec<Stmt> = match self.declarators(base.as_str()) {
                Ok(v) => v,
                Err(m) => {
                    return Err(m);
                },
            };
            return self.declared(base.as_str(), decls, semi);
        }
        if self.is(Tok::Ident) {
            let next: Tok = self.ahead(1);
            if let Some(op) = assign_op(next) {
                let name: String = self.text();
                self.advance();
                self.advance();
                let value: Expr = match self.expression() {
                    Ok(v) => v,
                    Err(m) => {
                        return Err(m);
                    },
                };
                if let Err(m) = self.close(semi) {
                    return Err(m);
                }
                return Ok(StmtKind::Assign { name, op, value });
            }
            if next == Tok::PlusPlus || next == Tok::MinusMinus {
                let name: String = self.text();
                let inc: bool = next == Tok::PlusPlus;
                self.advance();
                self.advance();
                if let Err(m) = self.close(semi) {
                    return Err(m);
                }
                let e: Expr = Expr::PostIncDec { name, inc };
                assert(e@ == ExprV::PostIncDec { name: name@, inc });
                return Ok(StmtKind::Expr(e));
            }
        }
        let lhs: Expr = match self.expression() {
            Ok(v) => v,
            Err(m) => {
                return Err(m);
            },
        };
        if let Some(op) = assign_op(self.peek()) {
            self.advance();
            let value: Expr = match self.expression() {
                Ok(v) => v,
                Err(m) => {
                    return Err(m);
                },
            };
            if let Err(m) = self.close(semi) {
                return Err(m);
            }
            return self.make_assign(lhs, op, value);
        }
        if self.is(Tok::PlusPlus) {
            self.advance();
            if let Err(m) = self.close(semi) {
                return Err(m);
            }
            return self.make_assign(lhs, AssignOp::Add, Expr::Int(1));
        }
        if self.is(Tok::MinusMinus) {
            self.advance();
            if let Err(m) = self.close(semi) {
                return Err(m);
            }
            return self.make_assign(lhs, AssignOp::Sub, Expr::Int(1));
        }
        if let Err(m) = self.close(semi) {
            return Err(m);
        }
        Ok(StmtKind::Expr(lhs))
    }

    /// The statement of declarators.
    fn declared(&mut self, base: &str, decls: Vec<Stmt>, semi: bool) -> (r: Result<
        StmtKind,
        String,
    >)
        requires
            old(self).wf(),
        ensures
            match r {
                Ok(x) => (x@, final(self).here()) == declared(
                    old(self).t(),
                    old(self).here(),
                    base@,
                    stmt_views(decls@),
                    semi,
                ) && final(self).onward(*old(self)),
                Err(m) => declared(
                    old(self).t(),
                    old(self).here(),
                    base@,
                    stmt_views(decls@),
                    semi,
                ).1.err == Some(m@),
            },
            final(self).t() == old(self).t(),
    {
        let mut decls: Vec<Stmt> = decls;
        let ghost all = stmt_views(decls@);
        assert(all.len() == decls.len());
        if same(base, "var") && decls.len() > 1 {
            let mut m: String = own(
                "javars: 'var' is not allowed in a compound declaration on line ",
            );
            m.append(int_text(self.line() as i64).as_str());
            return Err(m);
        }
        if let Err(m) = self.close(semi) {
            return Err(m);
        }
        if decls.len() == 1 {
            assert(all[0] == decls@[0]@);
            if let Some(only) = decls.pop() {
                return Ok(only.kind);
            }
        }
        Ok(StmtKind::Locals(decls))
    }

    /// The assignment to an expression.
    fn make_assign(&mut self, lhs: Expr, op: AssignOp, value: Expr) -> (r: Result<
        StmtKind,
        String,
    >)
        requires
            old(self).wf(),
        ensures
            match r {
                Ok(x) => (x@, final(self).here()) == assigned(
                    old(self).t(),
                    old(self).here(),
                    lhs@,
                    op,
                    value@,
                ) && final(self).onward(*old(self)),
                Err(m) => assigned(
                    old(self).t(),
                    old(self).here(),
                    lhs@,
                    op,
                    value@,
                ).1.err == Some(m@),
            },
            final(self).t() == old(self).t(),
    {
        match lhs {
            Expr::Var(name) => Ok(StmtKind::Assign { name, op, value }),
            Expr::Index { array, index } => Ok(
                StmtKind::IndexAssign { array: *array, index: *index, op, value },
            ),
            Expr::Field { recv, name } => Ok(
                StmtKind::FieldAssign { recv: *recv, name, op, value },
            ),
            other => {
                let mut m: String = own("javars: `");
                m.append(name_of_form(&other));
                m.append("` is not an assignable target on line ");
                m.append(int_text(self.line() as i64).as_str());
                Err(m)
            },
        }
    }

    /// The declarators of a declaration.
    fn declarators(&mut self, base: &str) -> (r: Result<Vec<Stmt>, String>)
        requires
            old(self).wf(),
        ensures
            match r {
                Ok(x) => (stmt_views(x@), final(self).here()) == declarators(
                    old(self).t(),
                    old(self).here(),
                    base@,
                    seq![],
                ) && final(self).beyond(*old(self)),
                Err(m) => declarators(
                    old(self).t(),
                    old(self).here(),
                    base@,
                    seq![],
                ).1.err == Some(m@),
            },
            final(self).t() == old(self).t(),
        decreases old(self).toks.len() - old(self).pos, 30int,
    {
        proof {
            by_the_rule(self.t(), Rule::Declarators(base@, seq![]), self.here());
            reveal(applied);
            reveal(declarators_rule);
        }
        let mut out: Vec<Stmt> = no_stmts();
        loop
            invariant
                self.onward(*old(self)),
                declarators(self.t(), self.here(), base@, stmt_views(out@)) == declarators(
                    old(self).t(),
                    old(self).here(),
                    base@,
                    seq![],
                ),
            decreases self.toks.len() - self.pos,
        {
            proof {
                by_the_rule(self.t(), Rule::Declarators(base@, stmt_views(out@)), self.here());
                reveal(applied);
                reveal(declarators_rule);
            }
            let line: u32 = self.line();
            let named: (String, String) = match self.declarator(base) {
                Ok(v) => v,
                Err(m) => {
                    return Err(m);
                },
            };
            let init: Option<Expr> = match self.opt_init() {
                Ok(v) => v,
                Err(m) => {
                    return Err(m);
                },
            };
            let ghost init_view = opt_expr_view(init);
            let kind: StmtKind = StmtKind::Local { ty: named.1, name: named.0, init };
            assert(kind@ == StmtKindV::Local {
                ty: named.1@,
                name: named.0@,
                init: init_view,
            });
            push_stmt(&mut out, Stmt::new(line, kind));
            if !self.is(Tok::Comma) {
                return Ok(out);
            }
            self.advance();
        }
    }

    /// The initial value of a declarator, if it has one.
    pub fn opt_init(&mut self) -> (r: Result<Option<Expr>, String>)
        requires
            old(self).wf(),
        ensures
            match r {
                Ok(x) => (opt_expr_view(x), final(self).here()) == opt_init(
                    old(self).t(),
                    old(self).here(),
                ) && final(self).onward(*old(self)),
                Err(m) => opt_init(old(self).t(), old(self).here()).1.err == Some(m@),
            },
            final(self).t() == old(self).t(),
        decreases old(self).toks.len() - old(self).pos, 23int,
    {
        proof {
            by_the_rule(self.t(), Rule::OptInit, self.here());
            reveal(applied);
            reveal(opt_init_rule);
        }
        if self.is(Tok::Assign) {
            self.advance();
            let e: Expr = match self.var_init() {
                Ok(v) => v,
                Err(m) => {
                    return Err(m);
                },
            };
            return Ok(Some(e));
        }
        Ok(None)
    }

    /// An initial value.
    pub fn var_init(&mut self) -> (r: Result<Expr, String>)
        requires
            old(self).wf(),
        ensures
            match r {
                Ok(x) => (x@, final(self).here()) == var_init(
                    old(self).t(),
                    old(self).here(),
                ) && final(self).beyond(*old(self)),
                Err(m) => var_init(old(self).t(), old(self).here()).1.err == Some(m@),
            },
            final(self).t() == old(self).t(),
        decreases old(self).toks.len() - old(self).pos, 22int,
    {
        proof {
            by_the_rule(self.t(), Rule::VarInit, self.here());
            reveal(applied);
            reveal(var_init_rule);
        }
        if self.is(Tok::LBrace) {
            self.advance();
            let elems: Vec<Expr> = match self.array_lit_elems() {
                Ok(v) => v,
                Err(m) => {
                    return Err(m);
                },
            };
            return Ok(Expr::ArrayLit { elems, elem_ty: None });
        }
        self.expression()
    }

    /// An `if`.
    fn if_stmt(&mut self) -> (r: Result<StmtKind, String>)
        requires
            old(self).wf(),
        ensures
            match r {
                Ok(x) => (x@, final(self).here()) == if_stmt(
                    old(self).t(),
                    old(self).here(),
                ) && final(self).beyond(*old(self)),
                Err(m) => if_stmt(old(self).t(), old(self).here()).1.err == Some(m@),
            },
            final(self).t() == old(self).t(),
        decreases old(self).toks.len() - old(self).pos, 38int,
    {
        proof {
            by_the_rule(self.t(), Rule::IfStmt, self.here());
            reveal(applied);
            reveal(if_stmt_rule);
        }
        if let Err(m) = self.eat(Tok::If) {
            return Err(m);
        }
        if let Err(m) = self.eat(Tok::LParen) {
            return Err(m);
        }
        let cond: Expr = match self.expression() {
            Ok(v) => v,
            Err(m) => {
                return Err(m);
            },
        };
        if let Err(m) = self.eat(Tok::RParen) {
            return Err(m);
        }
        let body: Vec<Stmt> = match self.braced_or_single() {
            Ok(v) => v,
            Err(m) => {
                return Err(m);
            },
        };
        if self.is(Tok::Else) {
            self.advance();
            let els: Vec<Stmt> = match self.braced_or_single() {
                Ok(v) => v,
                Err(m) => {
                    return Err(m);
                },
            };
            return Ok(StmtKind::If { cond, body, els });
        }
        Ok(StmtKind::If { cond, body, els: no_stmts() })
    }

    /// A `while`.
    fn while_stmt(&mut self) -> (r: Result<StmtKind, String>)
        requires
            old(self).wf(),
        ensures
            match r {
                Ok(x) => (x@, final(self).here()) == while_stmt(
                    old(self).t(),
                    old(self).here(),
                ) && final(self).beyond(*old(self)),
                Err(m) => while_stmt(old(self).t(), old(self).here()).1.err == Some(m@),
            },
            final(self).t() == old(self).t(),
        decreases old(self).toks.len() - old(self).pos, 38int,
    {
        proof {
            by_the_rule(self.t(), Rule::WhileStmt, self.here());
            reveal(applied);
            reveal(while_stmt_rule);
        }
        if let Err(m) = self.eat(Tok::While) {
            return Err(m);
        }
        if let Err(m) = self.eat(Tok::LParen) {
            return Err(m);
        }
        let cond: Expr = match self.expression() {
            Ok(v) => v,
            Err(m) => {
                return Err(m);
            },
        };
        if let Err(m) = self.eat(Tok::RParen) {
            return Err(m);
        }
        let body: Vec<Stmt> = match self.braced_or_single() {
            Ok(v) => v,
            Err(m) => {
                return Err(m);
            },
        };
        Ok(StmtKind::While { cond, body })
    }

    /// A `do`.
    fn do_stmt(&mut self) -> (r: Result<StmtKind, String>)
        requires
            old(self).wf(),
        ensures
            match r {
                Ok(x) => (x@, final(self).here()) == do_stmt(
                    old(self).t(),
                    old(self).here(),
                ) && final(self).beyond(*old(self)),
                Err(m) => do_stmt(old(self).t(), old(self).here()).1.err == Some(m@),
            },
            final(self).t() == old(self).t(),
        decreases old(self).toks.len() - old(self).pos, 38int,
    {
        proof {
            by_the_rule(self.t(), Rule::DoStmt, self.here());
            reveal(applied);
            reveal(do_stmt_rule);
        }
        if let Err(m) = self.eat(Tok::Do) {
            return Err(m);
        }
        let body: Vec<Stmt> = match self.braced_or_single() {
            Ok(v) => v,
            Err(m) => {
                return Err(m);
            },
        };
        if let Err(m) = self.eat(Tok::While) {
            return Err(m);
        }
        if let Err(m) = self.eat(Tok::LParen) {
            return Err(m);
        }
        let cond: Expr = match self.expression() {
            Ok(v) => v,
            Err(m) => {
                return Err(m);
            },
        };
        if let Err(m) = self.eat(Tok::RParen) {
            return Err(m);
        }
        if let Err(m) = self.eat(Tok::Semi) {
            return Err(m);
        }
        Ok(StmtKind::DoWhile { body, cond })
    }

    /// The type and name before the colon of a `for` over elements.
    fn try_foreach_header(&mut self) -> (r: Result<Option<(String, String)>, String>)
        requires
            old(self).wf(),
        ensures
            match r {
                Ok(x) => (header_found(x), final(self).here()) == foreach_header(
                    old(self).t(),
                    old(self).here(),
                ) && final(self).onward(*old(self)),
                Err(m) => foreach_header(old(self).t(), old(self).here()).1.err == Some(m@),
            },
            final(self).t() == old(self).t(),
    {
        if !self.looks_like_decl() {
            return Ok(None);
        }
        let save: usize = self.pos;
        self.eat_word("final");
        let ty: String = match self.declared_type() {
            Ok(v) => v,
            Err(m) => {
                return Err(m);
            },
        };
        let name: String = match self.ident() {
            Ok(v) => v,
            Err(m) => {
                return Err(m);
            },
        };
        if self.is(Tok::Colon) {
            self.advance();
            return Ok(Some((ty, name)));
        }
        self.pos = save;
        Ok(None)
    }

    /// A `for`.
    fn for_stmt(&mut self) -> (r: Result<StmtKind, String>)
        requires
            old(self).wf(),
        ensures
            match r {
                Ok(x) => (x@, final(self).here()) == for_stmt(
                    old(self).t(),
                    old(self).here(),
                ) && final(self).beyond(*old(self)),
                Err(m) => for_stmt(old(self).t(), old(self).here()).1.err == Some(m@),
            },
            final(self).t() == old(self).t(),
        decreases old(self).toks.len() - old(self).pos, 38int,
    {
        proof {
            by_the_rule(self.t(), Rule::ForStmt, self.here());
            reveal(applied);
            reveal(for_stmt_rule);
        }
        if let Err(m) = self.eat(Tok::For) {
            return Err(m);
        }
        if let Err(m) = self.eat(Tok::LParen) {
            return Err(m);
        }
        let header: Option<(String, String)> = match self.try_foreach_header() {
            Ok(v) => v,
            Err(m) => {
                return Err(m);
            },
        };
        if let Some((ty, name)) = header {
            let iter: Expr = match self.expression() {
                Ok(v) => v,
                Err(m) => {
                    return Err(m);
                },
            };
            if let Err(m) = self.eat(Tok::RParen) {
                return Err(m);
            }
            let body: Vec<Stmt> = match self.braced_or_single() {
                Ok(v) => v,
                Err(m) => {
                    return Err(m);
                },
            };
            return Ok(StmtKind::ForEach { ty, name, iter, body });
        }
        let init: Vec<Stmt> = match self.for_clause(Tok::Semi) {
            Ok(v) => v,
            Err(m) => {
                return Err(m);
            },
        };
        if let Err(m) = self.eat(Tok::Semi) {
            return Err(m);
        }
        let cond: Option<Expr> = match self.for_cond() {
            Ok(v) => v,
            Err(m) => {
                return Err(m);
            },
        };
        if let Err(m) = self.eat(Tok::Semi) {
            return Err(m);
        }
        let update: Vec<Stmt> = match self.for_clause(Tok::RParen) {
            Ok(v) => v,
            Err(m) => {
                return Err(m);
            },
        };
        if let Err(m) = self.eat(Tok::RParen) {
            return Err(m);
        }
        let body: Vec<Stmt> = match self.braced_or_single() {
            Ok(v) => v,
            Err(m) => {
                return Err(m);
            },
        };
        Ok(StmtKind::For { init, cond, update, body })
    }

    /// The condition of a `for`, if it has one.
    fn for_cond(&mut self) -> (r: Result<Option<Expr>, String>)
        requires
            old(self).wf(),
        ensures
            match r {
                Ok(x) => (opt_expr_view(x), final(self).here()) == for_cond(
                    old(self).t(),
                    old(self).here(),
                ) && final(self).onward(*old(self)),
                Err(m) => for_cond(old(self).t(), old(self).here()).1.err == Some(m@),
            },
            final(self).t() == old(self).t(),
        decreases old(self).toks.len() - old(self).pos, 21int,
    {
        proof {
            by_the_rule(self.t(), Rule::ForCond, self.here());
            reveal(applied);
            reveal(for_cond_rule);
        }
        if self.is(Tok::Semi) {
            return Ok(None);
        }
        let e: Expr = match self.expression() {
            Ok(v) => v,
            Err(m) => {
                return Err(m);
            },
        };
        Ok(Some(e))
    }

    /// The statements of a clause of a `for`.
    fn for_clause(&mut self, end: Tok) -> (r: Result<Vec<Stmt>, String>)
        requires
            old(self).wf(),
        ensures
            match r {
                Ok(x) => (stmt_views(x@), final(self).here()) == for_clause(
                    old(self).t(),
                    old(self).here(),
                    end,
                ) && final(self).onward(*old(self)),
                Err(m) => for_clause(old(self).t(), old(self).here(), end).1.err == Some(m@),
            },
            final(self).t() == old(self).t(),
        decreases old(self).toks.len() - old(self).pos, 39int,
    {
        proof {
            by_the_rule(self.t(), Rule::ForClause(end), self.here());
            reveal(applied);
            reveal(for_clause_rule);
        }
        let mut out: Vec<Stmt> = no_stmts();
        if self.is(end) {
            return Ok(out);
        }
        loop
            invariant
                self.onward(*old(self)),
                clause_rest(self.t(), self.here(), stmt_views(out@)) == for_clause(
                    old(self).t(),
                    old(self).here(),
                    end,
                ),
            decreases self.toks.len() - self.pos,
        {
            proof {
                by_the_rule(self.t(), Rule::ClauseRest(stmt_views(out@)), self.here());
                reveal(applied);
                reveal(clause_rest_rule);
            }
            let line: u32 = self.line();
            let kind: StmtKind = match self.simple_statement(false) {
                Ok(v) => v,
                Err(m) => {
                    return Err(m);
                },
            };
            push_stmt(&mut out, Stmt::new(line, kind));
            if !self.is(Tok::Comma) {
                return Ok(out);
            }
            self.advance();
        }
    }

    /// A `synchronized` block.
    fn synchronized_stmt(&mut self) -> (r: Result<StmtKind, String>)
        requires
            old(self).wf(),
            kind_at(old(self).t(), old(self).pos as int) != Tok::Eof,
        ensures
            match r {
                Ok(x) => (x@, final(self).here()) == synchronized_stmt(
                    old(self).t(),
                    old(self).here(),
                ) && final(self).beyond(*old(self)),
                Err(m) => synchronized_stmt(old(self).t(), old(self).here()).1.err == Some(m@),
            },
            final(self).t() == old(self).t(),
        decreases old(self).toks.len() - old(self).pos, 38int,
    {
        proof {
            by_the_rule(self.t(), Rule::SynchronizedStmt, self.here());
            reveal(applied);
            reveal(synchronized_stmt_rule);
        }
        self.uses_exceptions = true;
        let line: u32 = self.line();
        self.advance();
        if let Err(m) = self.eat(Tok::LParen) {
            return Err(m);
        }
        let monitor: Expr = match self.expression() {
            Ok(v) => v,
            Err(m) => {
                return Err(m);
            },
        };
        if let Err(m) = self.eat(Tok::RParen) {
            return Err(m);
        }
        if let Err(m) = self.eat(Tok::LBrace) {
            return Err(m);
        }
        let body: Vec<Stmt> = match self.block() {
            Ok(v) => v,
            Err(m) => {
                return Err(m);
            },
        };
        let cond: Expr = is_not_null(monitor);
        let els: Vec<Stmt> = one_stmt(throw_null_monitor(line));
        Ok(StmtKind::If { cond, body, els })
    }

    /// A `try`.
    fn try_stmt(&mut self) -> (r: Result<StmtKind, String>)
        requires
            old(self).wf(),
            kind_at(old(self).t(), old(self).pos as int) != Tok::Eof,
        ensures
            match r {
                Ok(x) => (x@, final(self).here()) == try_stmt(
                    old(self).t(),
                    old(self).here(),
                ) && final(self).beyond(*old(self)),
                Err(m) => try_stmt(old(self).t(), old(self).here()).1.err == Some(m@),
            },
            final(self).t() == old(self).t(),
        decreases old(self).toks.len() - old(self).pos, 38int,
    {
        proof {
            by_the_rule(self.t(), Rule::TryStmt, self.here());
            reveal(applied);
            reveal(try_stmt_rule);
        }
        self.uses_exceptions = true;
        self.advance();
        let resources: Vec<Resource> = match self.resource_spec() {
            Ok(v) => v,
            Err(m) => {
                return Err(m);
            },
        };
        if let Err(m) = self.eat(Tok::LBrace) {
            return Err(m);
        }
        let body: Vec<Stmt> = match self.block() {
            Ok(v) => v,
            Err(m) => {
                return Err(m);
            },
        };
        let catches: Vec<CatchArm> = match self.catches() {
            Ok(v) => v,
            Err(m) => {
                return Err(m);
            },
        };
        let last: Vec<Stmt> = match self.opt_finally() {
            Ok(v) => v,
            Err(m) => {
                return Err(m);
            },
        };
        assert(resource_views(resources@).len() == resources.len());
        assert(catch_views(catches@).len() == catches.len());
        assert(stmt_views(last@).len() == last.len());
        if resources.len() > 0 {
            return Ok(with_closing(resources, body, catches, last));
        }
        if catches.len() == 0 && last.len() == 0 {
            return Err(
                with_line(own("javars: `try` needs a `catch` or a `finally`"), self.line()),
            );
        }
        Ok(StmtKind::Try { body, catches, finally_body: last })
    }

    /// The last block of a `try`, if it has one.
    fn opt_finally(&mut self) -> (r: Result<Vec<Stmt>, String>)
        requires
            old(self).wf(),
        ensures
            match r {
                Ok(x) => (stmt_views(x@), final(self).here()) == opt_finally(
                    old(self).t(),
                    old(self).here(),
                ) && final(self).onward(*old(self)),
                Err(m) => opt_finally(old(self).t(), old(self).here()).1.err == Some(m@),
            },
            final(self).t() == old(self).t(),
        decreases old(self).toks.len() - old(self).pos, 44int,
    {
        proof {
            by_the_rule(self.t(), Rule::OptFinally, self.here());
            reveal(applied);
            reveal(opt_finally_rule);
        }
        if self.at_word("finally") {
            self.advance();
            if let Err(m) = self.eat(Tok::LBrace) {
                return Err(m);
            }
            return self.block();
        }
        Ok(no_stmts())
    }

    /// The types of a handler.
    fn catch_types(&mut self) -> (r: Result<Vec<String>, String>)
        requires
            old(self).wf(),
        ensures
            match r {
                Ok(x) => (views(x@), final(self).here()) == catch_types(
                    old(self).t(),
                    old(self).here(),
                    seq![],
                ) && final(self).beyond(*old(self)),
                Err(m) => catch_types(old(self).t(), old(self).here(), seq![]).1.err == Some(m@),
            },
            final(self).t() == old(self).t(),
    {
        let mut out: Vec<String> = Vec::new();
        assert(views(out@) =~= seq![]);
        loop
            invariant
                self.onward(*old(self)),
                catch_types(self.t(), self.here(), views(out@)) == catch_types(
                    old(self).t(),
                    old(self).here(),
                    seq![],
                ),
            decreases self.toks.len() - self.pos,
        {
            let ty: String = match self.declared_type() {
                Ok(v) => v,
                Err(m) => {
                    return Err(m);
                },
            };
            push_word(&mut out, ty);
            if !self.is(Tok::Pipe) {
                return Ok(out);
            }
            self.advance();
        }
    }

    /// The handlers of a `try`.
    fn catches(&mut self) -> (r: Result<Vec<CatchArm>, String>)
        requires
            old(self).wf(),
        ensures
            match r {
                Ok(x) => (catch_views(x@), final(self).here()) == catches_rest(
                    old(self).t(),
                    old(self).here(),
                    seq![],
                ) && final(self).onward(*old(self)),
                Err(m) => catches_rest(old(self).t(), old(self).here(), seq![]).1.err == Some(m@),
            },
            final(self).t() == old(self).t(),
        decreases old(self).toks.len() - old(self).pos, 44int,
    {
        proof {
            by_the_rule(self.t(), Rule::CatchesRest(seq![]), self.here());
            reveal(applied);
            reveal(catches_rest_rule);
        }
        let mut out: Vec<CatchArm> = Vec::new();
        assert(catch_views(out@) =~= seq![]);
        while self.at_word("catch")
            invariant
                self.onward(*old(self)),
                catches_rest(self.t(), self.here(), catch_views(out@)) == catches_rest(
                    old(self).t(),
                    old(self).here(),
                    seq![],
                ),
            decreases self.toks.len() - self.pos,
        {
            proof {
                by_the_rule(self.t(), Rule::CatchesRest(catch_views(out@)), self.here());
                reveal(applied);
                reveal(catches_rest_rule);
            }
            let ghost were = catch_views(out@);
            self.advance();
            if let Err(m) = self.eat(Tok::LParen) {
                return Err(m);
            }
            self.eat_word("final");
            let types: Vec<String> = match self.catch_types() {
                Ok(v) => v,
                Err(m) => {
                    return Err(m);
                },
            };
            let name: String = match self.ident() {
                Ok(v) => v,
                Err(m) => {
                    return Err(m);
                },
            };
            if let Err(m) = self.eat(Tok::RParen) {
                return Err(m);
            }
            if let Err(m) = self.eat(Tok::LBrace) {
                return Err(m);
            }
            let body: Vec<Stmt> = match self.block() {
                Ok(v) => v,
                Err(m) => {
                    return Err(m);
                },
            };
            out.push(CatchArm { types, name, body });
            assert(catch_views(out@) =~= were.push(
                CatchArmV { types: views(types@), name: name@, body: stmt_views(body@) },
            ));
        }
        proof {
            by_the_rule(self.t(), Rule::CatchesRest(catch_views(out@)), self.here());
            reveal(applied);
            reveal(catches_rest_rule);
        }
        Ok(out)
    }

    /// The resources of a `try`, if it has brackets.
    fn resource_spec(&mut self) -> (r: Result<Vec<Resource>, String>)
        requires
            old(self).wf(),
        ensures
            match r {
                Ok(x) => (resource_views(x@), final(self).here()) == opt_resources(
                    old(self).t(),
                    old(self).here(),
                ) && final(self).onward(*old(self)),
                Err(m) => opt_resources(old(self).t(), old(self).here()).1.err == Some(m@),
            },
            final(self).t() == old(self).t(),
        decreases old(self).toks.len() - old(self).pos, 31int,
    {
        proof {
            by_the_rule(self.t(), Rule::OptResources, self.here());
            reveal(applied);
            reveal(opt_resources_rule);
        }
        let mut out: Vec<Resource> = Vec::new();
        assert(resource_views(out@) =~= seq![]);
        if !self.is(Tok::LParen) {
            return Ok(out);
        }
        self.advance();
        let ghost from = *self;
        while !self.is(Tok::RParen)
            invariant
                self.onward(*old(self)),
                old(self).pos < self.pos,
                opt_resources(old(self).t(), old(self).here()) == ({
                    let (out, s) = resources_rest(from.t(), from.here(), seq![]);
                    if s.err is None && out.len() == 0 {
                        (
                            seq![],
                            failed(
                                s,
                                at_line(
                                    "javars: try-with-resources needs at least one resource"@,
                                    line_at(from.t(), s.pos),
                                ),
                            ),
                        )
                    } else {
                        (out, s)
                    }
                }),
                from.t() == self.t(),
                resources_rest(self.t(), self.here(), resource_views(out@)) == resources_rest(
                    from.t(),
                    from.here(),
                    seq![],
                ),
            decreases self.toks.len() - self.pos,
        {
            proof {
                by_the_rule(self.t(), Rule::ResourcesRest(resource_views(out@)), self.here());
                reveal(applied);
                reveal(resources_rest_rule);
            }
            let ghost were = resource_views(out@);
            self.eat_word("final");
            let r: Resource = match self.resource() {
                Ok(v) => v,
                Err(m) => {
                    return Err(m);
                },
            };
            out.push(r);
            assert(resource_views(out@) =~= were.push(r@));
            self.eat_if(Tok::Semi);
        }
        proof {
            by_the_rule(self.t(), Rule::ResourcesRest(resource_views(out@)), self.here());
            reveal(applied);
            reveal(resources_rest_rule);
        }
        self.advance();
        assert(resource_views(out@).len() == out.len());
        if out.len() == 0 {
            return Err(
                with_line(
                    own("javars: try-with-resources needs at least one resource"),
                    self.line(),
                ),
            );
        }
        Ok(out)
    }

    /// One resource.
    fn resource(&mut self) -> (r: Result<Resource, String>)
        requires
            old(self).wf(),
        ensures
            match r {
                Ok(x) => (x@, final(self).here()) == resource(
                    old(self).t(),
                    old(self).here(),
                ) && final(self).beyond(*old(self)),
                Err(m) => resource(old(self).t(), old(self).here()).1.err == Some(m@),
            },
            final(self).t() == old(self).t(),
        decreases old(self).toks.len() - old(self).pos, 29int,
    {
        proof {
            by_the_rule(self.t(), Rule::Resource, self.here());
            reveal(applied);
            reveal(resource_rule);
        }
        let line: u32 = self.line();
        if self.is(Tok::Ident) && (self.ahead(1) == Tok::RParen || self.ahead(1) == Tok::Semi) {
            let name: String = self.text();
            self.advance();
            return Ok(Resource { decl: None, name, line });
        }
        let ty: String = match self.declared_type() {
            Ok(v) => v,
            Err(m) => {
                return Err(m);
            },
        };
        let name: String = match self.ident() {
            Ok(v) => v,
            Err(m) => {
                return Err(m);
            },
        };
        if let Err(m) = self.eat(Tok::Assign) {
            return Err(m);
        }
        let init: Expr = match self.expression() {
            Ok(v) => v,
            Err(m) => {
                return Err(m);
            },
        };
        Ok(Resource { decl: Some((ty, init)), name, line })
    }

    /// A `switch` that is a statement.
    fn switch_stmt(&mut self) -> (r: Result<StmtKind, String>)
        requires
            old(self).wf(),
        ensures
            match r {
                Ok(x) => (x@, final(self).here()) == switch_stmt(
                    old(self).t(),
                    old(self).here(),
                ) && final(self).beyond(*old(self)),
                Err(m) => switch_stmt(old(self).t(), old(self).here()).1.err == Some(m@),
            },
            final(self).t() == old(self).t(),
        decreases old(self).toks.len() - old(self).pos, 38int,
    {
        proof {
            by_the_rule(self.t(), Rule::SwitchStmt, self.here());
            reveal(applied);
            reveal(switch_stmt_rule);
        }
        if self.at_arrow_switch() {
            let e: Expr = match self.switch_expr() {
                Ok(v) => v,
                Err(m) => {
                    return Err(m);
                },
            };
            return Ok(StmtKind::Expr(e));
        }
        if let Err(m) = self.eat(Tok::Switch) {
            return Err(m);
        }
        if let Err(m) = self.eat(Tok::LParen) {
            return Err(m);
        }
        let disc: Expr = match self.expression() {
            Ok(v) => v,
            Err(m) => {
                return Err(m);
            },
        };
        if let Err(m) = self.eat(Tok::RParen) {
            return Err(m);
        }
        if let Err(m) = self.eat(Tok::LBrace) {
            return Err(m);
        }
        let groups: Vec<SwitchGroup> = match self.groups() {
            Ok(v) => v,
            Err(m) => {
                return Err(m);
            },
        };
        Ok(StmtKind::Switch { disc, groups })
    }

    /// The groups of a `switch` up to the closing brace.
    fn groups(&mut self) -> (r: Result<Vec<SwitchGroup>, String>)
        requires
            old(self).wf(),
        ensures
            match r {
                Ok(x) => (group_views(x@), final(self).here()) == groups_rest(
                    old(self).t(),
                    old(self).here(),
                    seq![],
                ) && final(self).beyond(*old(self)),
                Err(m) => groups_rest(old(self).t(), old(self).here(), seq![]).1.err == Some(m@),
            },
            final(self).t() == old(self).t(),
        decreases old(self).toks.len() - old(self).pos, 44int,
    {
        proof {
            by_the_rule(self.t(), Rule::GroupsRest(seq![]), self.here());
            reveal(applied);
            reveal(groups_rest_rule);
        }
        let mut out: Vec<SwitchGroup> = Vec::new();
        assert(group_views(out@) =~= seq![]);
        while !self.is(Tok::RBrace) && !self.is(Tok::Eof)
            invariant
                self.onward(*old(self)),
                groups_rest(self.t(), self.here(), group_views(out@)) == groups_rest(
                    old(self).t(),
                    old(self).here(),
                    seq![],
                ),
            decreases self.toks.len() - self.pos,
        {
            proof {
                by_the_rule(self.t(), Rule::GroupsRest(group_views(out@)), self.here());
                reveal(applied);
                reveal(groups_rest_rule);
            }
            let ghost were = group_views(out@);
            let head: (Vec<Expr>, bool) = match self.group_labels() {
                Ok(v) => v,
                Err(m) => {
                    return Err(m);
                },
            };
            let (labels, is_default) = head;
            assert(expr_views(labels@).len() == labels.len());
            if labels.len() == 0 && !is_default {
                return Err(
                    with_line(
                        own("javars: expected `case` or `default` in switch body"),
                        self.line(),
                    ),
                );
            }
            let body: Vec<Stmt> = match self.group_body() {
                Ok(v) => v,
                Err(m) => {
                    return Err(m);
                },
            };
            out.push(SwitchGroup { labels, is_default, body });
            assert(group_views(out@) =~= were.push(
                SwitchGroupV {
                    labels: expr_views(labels@),
                    is_default,
                    body: stmt_views(body@),
                },
            ));
        }
        proof {
            by_the_rule(self.t(), Rule::GroupsRest(group_views(out@)), self.here());
            reveal(applied);
            reveal(groups_rest_rule);
        }
        if let Err(m) = self.eat(Tok::RBrace) {
            return Err(m);
        }
        Ok(out)
    }

    /// The labels before a group's statements.
    fn group_labels(&mut self) -> (r: Result<(Vec<Expr>, bool), String>)
        requires
            old(self).wf(),
        ensures
            match r {
                Ok(x) => ((expr_views(x.0@), x.1), final(self).here()) == group_labels(
                    old(self).t(),
                    old(self).here(),
                    seq![],
                    false,
                ) && final(self).onward(*old(self)) && (x.0.len() > 0 || x.1 ==> old(self).pos
                    < final(self).pos),
                Err(m) => group_labels(old(self).t(), old(self).here(), seq![], false).1.err
                    == Some(m@),
            },
            final(self).t() == old(self).t(),
        decreases old(self).toks.len() - old(self).pos, 21int,
    {
        let mut labels: Vec<Expr> = Vec::new();
        assert(expr_views(labels@) =~= seq![]);
        let mut is_default: bool = false;
        loop
            invariant
                self.onward(*old(self)),
                labels.len() > 0 || is_default ==> old(self).pos < self.pos,
                group_labels(self.t(), self.here(), expr_views(labels@), is_default)
                    == group_labels(old(self).t(), old(self).here(), seq![], false),
            decreases self.toks.len() - self.pos,
        {
            proof {
                by_the_rule(self.t(), Rule::GroupLabels(expr_views(labels@), is_default), self.here());
                reveal(applied);
                reveal(group_labels_rule);
            }
            if self.is(Tok::Case) {
                self.advance();
                let e: Expr = match self.binary(0) {
                    Ok(v) => v,
                    Err(m) => {
                        return Err(m);
                    },
                };
                if let Err(m) = self.eat(Tok::Colon) {
                    return Err(m);
                }
                push_expr(&mut labels, e);
            } else if self.is(Tok::Default) {
                self.advance();
                if let Err(m) = self.eat(Tok::Colon) {
                    return Err(m);
                }
                is_default = true;
            } else {
                return Ok((labels, is_default));
            }
        }
    }
}

} // verus!
