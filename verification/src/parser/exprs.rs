//! Reading expressions.
use vstd::prelude::*;

use crate::ast::{
    AssignOp, BinOp, Expr, ExprV, LambdaBody, Stmt, SwitchArm, SwitchArmBody, SwitchArmBodyV,
    SwitchArmV, UnOp, arm_body_view, arm_views, expr_views, opt_box_view, stmt_views,
};
use crate::lexer::Tok;
use crate::parser::grammar::{
    RELATIONAL, Rule, applied, args_rest, args_rest_rule, arm_body, arm_body_rule, arms_rest,
    arms_rest_rule, array_elems, array_elems_rule, assigning, at_line, binary, binary_rest,
    binary_rest_rule, binary_rule, binding, by_the_rule, call_args, call_args_rule, expression,
    expression_rule, labels_rest, labels_rest_rule, lambda_body, lambda_body_rule, lambda_params,
    named, named_rule, new_expr, new_expr_rule, postfix, postfix_rest, postfix_rest_rule,
    postfix_rule, primary, primary_rule, sizes_rest, sizes_rest_rule, switch_expr,
    switch_expr_rule, system_out, system_out_rule, unary, unary_rule,
};
use crate::parser::stmts::push_stmt;
use crate::parser::tokens::{Parser, kind_at};
use crate::prelude::is_throwable;
use crate::text::{int_text, own, same, views};

verus! {

broadcast use crate::parser::grammar::first_error_stays;

/// The operator a token is in an assignment.
pub fn assign_op(k: Tok) -> (r: Option<AssignOp>)
    ensures
        r == assigning(k),
{
    match k {
        Tok::Assign => Some(AssignOp::Assign),
        Tok::PlusAssign => Some(AssignOp::Add),
        Tok::MinusAssign => Some(AssignOp::Sub),
        Tok::StarAssign => Some(AssignOp::Mul),
        Tok::SlashAssign => Some(AssignOp::Div),
        Tok::PercentAssign => Some(AssignOp::Mod),
        Tok::AmpAssign => Some(AssignOp::BitAnd),
        Tok::PipeAssign => Some(AssignOp::BitOr),
        Tok::CaretAssign => Some(AssignOp::BitXor),
        Tok::ShlAssign => Some(AssignOp::Shl),
        Tok::ShrAssign => Some(AssignOp::Shr),
        Tok::UshrAssign => Some(AssignOp::Ushr),
        _ => None,
    }
}

/// The binary operator a token is, and how tightly it binds.
pub fn binop(k: Tok) -> (r: Option<(BinOp, u8)>)
    ensures
        r == binding(k),
        match r {
            Some((_, bp)) => bp <= 10,
            None => true,
        },
{
    match k {
        Tok::OrOr => Some((BinOp::Or, 1)),
        Tok::AndAnd => Some((BinOp::And, 2)),
        Tok::Pipe => Some((BinOp::BitOr, 3)),
        Tok::Caret => Some((BinOp::BitXor, 4)),
        Tok::Amp => Some((BinOp::BitAnd, 5)),
        Tok::EqEq => Some((BinOp::Eq, 6)),
        Tok::NotEq => Some((BinOp::Ne, 6)),
        Tok::Lt => Some((BinOp::Lt, RELATIONAL)),
        Tok::Gt => Some((BinOp::Gt, RELATIONAL)),
        Tok::Le => Some((BinOp::Le, RELATIONAL)),
        Tok::Ge => Some((BinOp::Ge, RELATIONAL)),
        Tok::Shl => Some((BinOp::Shl, 8)),
        Tok::Shr => Some((BinOp::Shr, 8)),
        Tok::Ushr => Some((BinOp::Ushr, 8)),
        Tok::Plus => Some((BinOp::Add, 9)),
        Tok::Minus => Some((BinOp::Sub, 9)),
        Tok::Star => Some((BinOp::Mul, 10)),
        Tok::Slash => Some((BinOp::Div, 10)),
        Tok::Percent => Some((BinOp::Mod, 10)),
        _ => None,
    }
}

/// A message that names a line in brackets.
pub(crate) fn with_line(msg: String, line: u32) -> (r: String)
    ensures
        r@ == at_line(msg@, line),
{
    let mut m: String = msg;
    m.append(" (line ");
    m.append(int_text(line as i64).as_str());
    m.append(")");
    m
}

/// One more expression in a list.
pub(crate) fn push_expr(v: &mut Vec<Expr>, e: Expr)
    ensures
        expr_views(final(v)@) == expr_views(old(v)@).push(e@),
        final(v).len() == old(v).len() + 1,
{
    let ghost was = v@;
    v.push(e);
    assert(expr_views(v@) =~= expr_views(was).push(e@));
}

/// One more text in a list.
pub(crate) fn push_word(v: &mut Vec<String>, s: String)
    ensures
        views(final(v)@) == views(old(v)@).push(s@),
{
    let ghost was = v@;
    v.push(s);
    assert(views(v@) =~= views(was).push(s@));
}

impl Parser {
    /// An expression.
    pub fn expression(&mut self) -> (r: Result<Expr, String>)
        requires
            old(self).wf(),
        ensures
            match r {
                Ok(x) => (x@, final(self).here()) == expression(
                    old(self).t(),
                    old(self).here(),
                ) && final(self).beyond(*old(self)),
                Err(m) => expression(old(self).t(), old(self).here()).1.err == Some(m@),
            },
            final(self).t() == old(self).t(),
        decreases old(self).toks.len() - old(self).pos, 20int,
    {
        proof {
            by_the_rule(self.t(), Rule::Expression, self.here());
            reveal(applied);
            reveal(expression_rule);
        }
        let line: u32 = self.line();
        if self.is(Tok::Ident) && self.ahead(1) == Tok::Arrow {
            let name: String = self.text();
            let mut params: Vec<String> = Vec::new();
            params.push(name);
            assert(views(params@) =~= seq![name@]);
            self.advance();
            self.advance();
            let body: LambdaBody = match self.lambda_body() {
                Ok(v) => v,
                Err(m) => {
                    return Err(m);
                },
            };
            self.uses_functional = true;
            return Ok(Expr::Lambda { params, body, line });
        }
        if self.at_lambda() {
            self.advance();
            let params: Vec<String> = match self.lambda_params() {
                Ok(v) => v,
                Err(m) => {
                    return Err(m);
                },
            };
            if let Err(m) = self.eat(Tok::RParen) {
                return Err(m);
            }
            if let Err(m) = self.eat(Tok::Arrow) {
                return Err(m);
            }
            let body: LambdaBody = match self.lambda_body() {
                Ok(v) => v,
                Err(m) => {
                    return Err(m);
                },
            };
            self.uses_functional = true;
            return Ok(Expr::Lambda { params, body, line });
        }
        let cond: Expr = match self.binary(0) {
            Ok(v) => v,
            Err(m) => {
                return Err(m);
            },
        };
        if self.is(Tok::Question) {
            self.advance();
            let yes: Expr = match self.expression() {
                Ok(v) => v,
                Err(m) => {
                    return Err(m);
                },
            };
            if let Err(m) = self.eat(Tok::Colon) {
                return Err(m);
            }
            let no: Expr = match self.expression() {
                Ok(v) => v,
                Err(m) => {
                    return Err(m);
                },
            };
            return Ok(
                Expr::Ternary { cond: Box::new(cond), yes: Box::new(yes), no: Box::new(no) },
            );
        }
        Ok(cond)
    }

    /// The names of a lambda's parameters.
    fn lambda_params(&mut self) -> (r: Result<Vec<String>, String>)
        requires
            old(self).wf(),
        ensures
            match r {
                Ok(x) => (views(x@), final(self).here()) == lambda_params(
                    old(self).t(),
                    old(self).here(),
                    seq![],
                ) && final(self).onward(*old(self)),
                Err(m) => lambda_params(old(self).t(), old(self).here(), seq![]).1.err == Some(m@),
            },
            final(self).t() == old(self).t(),
    {
        let mut out: Vec<String> = Vec::new();
        assert(views(out@) =~= seq![]);
        while !self.is(Tok::RParen)
            invariant
                self.onward(*old(self)),
                lambda_params(self.t(), self.here(), views(out@)) == lambda_params(
                    old(self).t(),
                    old(self).here(),
                    seq![],
                ),
            decreases self.toks.len() - self.pos,
        {
            self.eat_word("final");
            let first: Tok = self.peek();
            let second: Tok = self.ahead(1);
            if (first == Tok::Ident || first == Tok::Void) && (second == Tok::Ident || second
                == Tok::Lt || second == Tok::LBracket) {
                let ty: String = match self.declared_type() {
                    Ok(v) => v,
                    Err(m) => {
                        return Err(m);
                    },
                };
            }
            let name: String = match self.ident() {
                Ok(v) => v,
                Err(m) => {
                    return Err(m);
                },
            };
            push_word(&mut out, name);
            if !self.is(Tok::Comma) {
                return Ok(out);
            }
            self.advance();
        }
        Ok(out)
    }

    /// The body of a lambda.
    fn lambda_body(&mut self) -> (r: Result<LambdaBody, String>)
        requires
            old(self).wf(),
        ensures
            match r {
                Ok(x) => (x@, final(self).here()) == lambda_body(
                    old(self).t(),
                    old(self).here(),
                ) && final(self).beyond(*old(self)),
                Err(m) => lambda_body(old(self).t(), old(self).here()).1.err == Some(m@),
            },
            final(self).t() == old(self).t(),
        decreases old(self).toks.len() - old(self).pos, 50int,
    {
        proof {
            by_the_rule(self.t(), Rule::LambdaBody, self.here());
            reveal(applied);
            reveal(lambda_body_rule);
        }
        if self.is(Tok::LBrace) {
            self.advance();
            let body: Vec<Stmt> = match self.block() {
                Ok(v) => v,
                Err(m) => {
                    return Err(m);
                },
            };
            return Ok(LambdaBody::Block(body));
        }
        let e: Expr = match self.expression() {
            Ok(v) => v,
            Err(m) => {
                return Err(m);
            },
        };
        Ok(LambdaBody::Expr(Box::new(e)))
    }

    /// Operands joined by the operators that bind at least this tightly.
    pub fn binary(&mut self, min_bp: u8) -> (r: Result<Expr, String>)
        requires
            old(self).wf(),
        ensures
            match r {
                Ok(x) => (x@, final(self).here()) == binary(
                    old(self).t(),
                    old(self).here(),
                    min_bp,
                ) && final(self).beyond(*old(self)),
                Err(m) => binary(old(self).t(), old(self).here(), min_bp).1.err == Some(m@),
            },
            final(self).t() == old(self).t(),
        decreases old(self).toks.len() - old(self).pos, 18int,
    {
        proof {
            by_the_rule(self.t(), Rule::Binary(min_bp), self.here());
            reveal(applied);
            reveal(binary_rule);
        }
        let mut lhs: Expr = match self.unary() {
            Ok(v) => v,
            Err(m) => {
                return Err(m);
            },
        };
        loop
            invariant
                self.beyond(*old(self)),
                binary_rest(self.t(), self.here(), lhs@, min_bp) == binary(
                    old(self).t(),
                    old(self).here(),
                    min_bp,
                ),
            decreases self.toks.len() - self.pos,
        {
            proof {
                by_the_rule(self.t(), Rule::BinaryRest(lhs@, min_bp), self.here());
                reveal(applied);
                reveal(binary_rest_rule);
            }
            if self.at_word("instanceof") && RELATIONAL >= min_bp {
                self.advance();
                let class: String = match self.ident() {
                    Ok(v) => v,
                    Err(m) => {
                        return Err(m);
                    },
                };
                lhs = Expr::InstanceOf { expr: Box::new(lhs), class };
            } else {
                match binop(self.peek()) {
                    Some((op, bp)) => {
                        if bp < min_bp {
                            return Ok(lhs);
                        }
                        self.advance();
                        let rhs: Expr = match self.binary(bp + 1) {
                            Ok(v) => v,
                            Err(m) => {
                                return Err(m);
                            },
                        };
                        lhs = Expr::Binary { op, lhs: Box::new(lhs), rhs: Box::new(rhs) };
                    },
                    None => {
                        return Ok(lhs);
                    },
                }
            }
        }
    }

    /// A cast, a prefix operator, or an operand.
    fn unary(&mut self) -> (r: Result<Expr, String>)
        requires
            old(self).wf(),
        ensures
            match r {
                Ok(x) => (x@, final(self).here()) == unary(
                    old(self).t(),
                    old(self).here(),
                ) && final(self).beyond(*old(self)),
                Err(m) => unary(old(self).t(), old(self).here()).1.err == Some(m@),
            },
            final(self).t() == old(self).t(),
        decreases old(self).toks.len() - old(self).pos, 17int,
    {
        proof {
            by_the_rule(self.t(), Rule::Unary, self.here());
            reveal(applied);
            reveal(unary_rule);
        }
        if let Some(cast) = self.cast_here() {
            let line: u32 = self.line_of(cast.1);
            self.pos = cast.1 + 1;
            let e: Expr = match self.unary() {
                Ok(v) => v,
                Err(m) => {
                    return Err(m);
                },
            };
            return Ok(Expr::Cast { ty: cast.0, expr: Box::new(e), line });
        }
        match self.peek() {
            Tok::Minus => {
                self.advance();
                let e: Expr = match self.unary() {
                    Ok(v) => v,
                    Err(m) => {
                        return Err(m);
                    },
                };
                Ok(Expr::Unary { op: UnOp::Neg, rhs: Box::new(e) })
            },
            Tok::Plus => {
                self.advance();
                self.unary()
            },
            Tok::Not => {
                self.advance();
                let e: Expr = match self.unary() {
                    Ok(v) => v,
                    Err(m) => {
                        return Err(m);
                    },
                };
                Ok(Expr::Unary { op: UnOp::Not, rhs: Box::new(e) })
            },
            Tok::Tilde => {
                self.advance();
                let e: Expr = match self.unary() {
                    Ok(v) => v,
                    Err(m) => {
                        return Err(m);
                    },
                };
                Ok(Expr::Unary { op: UnOp::BitNot, rhs: Box::new(e) })
            },
            Tok::PlusPlus => {
                self.advance();
                let name: String = match self.ident() {
                    Ok(v) => v,
                    Err(m) => {
                        return Err(m);
                    },
                };
                Ok(Expr::PreIncDec { name, inc: true })
            },
            Tok::MinusMinus => {
                self.advance();
                let name: String = match self.ident() {
                    Ok(v) => v,
                    Err(m) => {
                        return Err(m);
                    },
                };
                Ok(Expr::PreIncDec { name, inc: false })
            },
            _ => self.postfix(),
        }
    }

    /// A primary and what is chained to it.
    fn postfix(&mut self) -> (r: Result<Expr, String>)
        requires
            old(self).wf(),
        ensures
            match r {
                Ok(x) => (x@, final(self).here()) == postfix(
                    old(self).t(),
                    old(self).here(),
                ) && final(self).beyond(*old(self)),
                Err(m) => postfix(old(self).t(), old(self).here()).1.err == Some(m@),
            },
            final(self).t() == old(self).t(),
        decreases old(self).toks.len() - old(self).pos, 16int,
    {
        proof {
            by_the_rule(self.t(), Rule::Postfix, self.here());
            reveal(applied);
            reveal(postfix_rule);
        }
        let mut e: Expr = match self.primary() {
            Ok(v) => v,
            Err(m) => {
                return Err(m);
            },
        };
        loop
            invariant
                self.beyond(*old(self)),
                postfix_rest(self.t(), self.here(), e@) == postfix(
                    old(self).t(),
                    old(self).here(),
                ),
            decreases self.toks.len() - self.pos,
        {
            proof {
                by_the_rule(self.t(), Rule::PostfixRest(e@), self.here());
                reveal(applied);
                reveal(postfix_rest_rule);
            }
            let line: u32 = self.line();
            if self.is(Tok::Dot) {
                self.advance();
                let member: String = match self.ident() {
                    Ok(v) => v,
                    Err(m) => {
                        return Err(m);
                    },
                };
                if self.is(Tok::LParen) {
                    let args: Vec<Expr> = match self.call_args() {
                        Ok(v) => v,
                        Err(m) => {
                            return Err(m);
                        },
                    };
                    e = Expr::MethodCall { recv: Box::new(e), method: member, args, line };
                } else {
                    e = Expr::Field { recv: Box::new(e), name: member };
                }
            } else if self.is(Tok::ColonColon) {
                self.advance();
                let method: String = if self.is(Tok::New) {
                    self.advance();
                    own("new")
                } else {
                    match self.ident() {
                        Ok(v) => v,
                        Err(m) => {
                            return Err(m);
                        },
                    }
                };
                self.uses_functional = true;
                e = Expr::MethodRef { recv: Box::new(e), method, line };
            } else if self.is(Tok::LBracket) {
                self.advance();
                let index: Expr = match self.expression() {
                    Ok(v) => v,
                    Err(m) => {
                        return Err(m);
                    },
                };
                if let Err(m) = self.eat(Tok::RBracket) {
                    return Err(m);
                }
                e = Expr::Index { array: Box::new(e), index: Box::new(index) };
            } else {
                return Ok(e);
            }
        }
    }

    /// A literal, a bracketed expression, an object or array, a `switch`, or what
    /// starts with a name.
    fn primary(&mut self) -> (r: Result<Expr, String>)
        requires
            old(self).wf(),
        ensures
            match r {
                Ok(x) => (x@, final(self).here()) == primary(
                    old(self).t(),
                    old(self).here(),
                ) && final(self).beyond(*old(self)),
                Err(m) => primary(old(self).t(), old(self).here()).1.err == Some(m@),
            },
            final(self).t() == old(self).t(),
        decreases old(self).toks.len() - old(self).pos, 15int,
    {
        proof {
            by_the_rule(self.t(), Rule::Primary, self.here());
            reveal(applied);
            reveal(primary_rule);
        }
        let value: i64 = self.value();
        match self.peek() {
            Tok::Int => {
                self.advance();
                Ok(Expr::Int(value))
            },
            Tok::Long => {
                self.advance();
                Ok(Expr::Long(value))
            },
            Tok::Float => {
                let text: String = self.text();
                self.advance();
                Ok(Expr::Float(text))
            },
            Tok::Float32 => {
                let text: String = self.text();
                self.advance();
                Ok(Expr::Float32(text))
            },
            Tok::Str => {
                let text: String = self.text();
                self.advance();
                Ok(Expr::Str(text))
            },
            Tok::Char => {
                self.advance();
                Ok(Expr::Char(value))
            },
            Tok::True => {
                self.advance();
                Ok(Expr::Bool(true))
            },
            Tok::False => {
                self.advance();
                Ok(Expr::Bool(false))
            },
            Tok::LParen => {
                self.advance();
                let e: Expr = match self.expression() {
                    Ok(v) => v,
                    Err(m) => {
                        return Err(m);
                    },
                };
                if let Err(m) = self.eat(Tok::RParen) {
                    return Err(m);
                }
                Ok(e)
            },
            Tok::New => self.new_expr(),
            Tok::Switch => self.switch_expr(),
            Tok::Ident => self.named(),
            _ => {
                let mut m: String = own("javars: unexpected token ");
                m.append(self.shown_here().as_str());
                m.append(" in expression on line ");
                m.append(int_text(self.line() as i64).as_str());
                Err(m)
            },
        }
    }

    /// What starts with a name.
    fn named(&mut self) -> (r: Result<Expr, String>)
        requires
            old(self).wf(),
            kind_at(old(self).t(), old(self).pos as int) == Tok::Ident,
        ensures
            match r {
                Ok(x) => (x@, final(self).here()) == named(
                    old(self).t(),
                    old(self).here(),
                ) && final(self).beyond(*old(self)),
                Err(m) => named(old(self).t(), old(self).here()).1.err == Some(m@),
            },
            final(self).t() == old(self).t(),
        decreases old(self).toks.len() - old(self).pos, 14int,
    {
        proof {
            by_the_rule(self.t(), Rule::Named, self.here());
            reveal(applied);
            reveal(named_rule);
        }
        let line: u32 = self.line();
        let name: String = self.text();
        if same(name.as_str(), "this") {
            self.advance();
            if self.is(Tok::LParen) {
                let args: Vec<Expr> = match self.call_args() {
                    Ok(v) => v,
                    Err(m) => {
                        return Err(m);
                    },
                };
                return Ok(Expr::Call { name, args, line });
            }
            return Ok(Expr::This);
        }
        if same(name.as_str(), "java") && self.word_ahead(2, "lang") && self.word_ahead(
            4,
            "System",
        ) {
            self.advance();
            if let Err(m) = self.eat(Tok::Dot) {
                return Err(m);
            }
            self.advance();
            if let Err(m) = self.eat(Tok::Dot) {
                return Err(m);
            }
            return self.system_out();
        }
        if same(name.as_str(), "System") {
            if self.ahead(3) == Tok::ColonColon {
                self.advance();
                if let Err(m) = self.eat(Tok::Dot) {
                    return Err(m);
                }
                let stream: String = match self.ident() {
                    Ok(v) => v,
                    Err(m) => {
                        return Err(m);
                    },
                };
                let recv: Expr = Expr::Var(name);
                assert(recv@ == ExprV::Var(name@));
                return Ok(Expr::Field { recv: Box::new(recv), name: stream });
            }
            return self.system_out();
        }
        self.advance();
        if self.is(Tok::PlusPlus) {
            self.advance();
            return Ok(Expr::PostIncDec { name, inc: true });
        }
        if self.is(Tok::MinusMinus) {
            self.advance();
            return Ok(Expr::PostIncDec { name, inc: false });
        }
        if self.is(Tok::LParen) {
            let args: Vec<Expr> = match self.call_args() {
                Ok(v) => v,
                Err(m) => {
                    return Err(m);
                },
            };
            return Ok(Expr::Call { name, args, line });
        }
        Ok(Expr::Var(name))
    }

    /// An object or an array.
    fn new_expr(&mut self) -> (r: Result<Expr, String>)
        requires
            old(self).wf(),
        ensures
            match r {
                Ok(x) => (x@, final(self).here()) == new_expr(
                    old(self).t(),
                    old(self).here(),
                ) && final(self).beyond(*old(self)),
                Err(m) => new_expr(old(self).t(), old(self).here()).1.err == Some(m@),
            },
            final(self).t() == old(self).t(),
        decreases old(self).toks.len() - old(self).pos, 14int,
    {
        proof {
            by_the_rule(self.t(), Rule::NewExpr, self.here());
            reveal(applied);
            reveal(new_expr_rule);
        }
        let line: u32 = self.line();
        if let Err(m) = self.eat(Tok::New) {
            return Err(m);
        }
        let ty: String = match self.simple_type_name() {
            Ok(v) => v,
            Err(m) => {
                return Err(m);
            },
        };
        self.skip_generics();
        if !self.is(Tok::LBracket) {
            if is_throwable(ty.as_str()) {
                self.uses_exceptions = true;
            }
            let args: Vec<Expr> = match self.call_args() {
                Ok(v) => v,
                Err(m) => {
                    return Err(m);
                },
            };
            return Ok(Expr::NewObject { class: ty, args, line });
        }
        if self.ahead(1) == Tok::RBracket {
            self.advance();
            self.advance();
            let elem_ty: String = match self.bracketed_type(ty) {
                Ok(v) => v,
                Err(m) => {
                    return Err(m);
                },
            };
            if let Err(m) = self.eat(Tok::LBrace) {
                return Err(m);
            }
            let elems: Vec<Expr> = match self.array_lit_elems() {
                Ok(v) => v,
                Err(m) => {
                    return Err(m);
                },
            };
            return Ok(Expr::ArrayLit { elems, elem_ty: Some(elem_ty) });
        }
        self.advance();
        let size: Expr = match self.expression() {
            Ok(v) => v,
            Err(m) => {
                return Err(m);
            },
        };
        if let Err(m) = self.eat(Tok::RBracket) {
            return Err(m);
        }
        let mut sizes: Vec<Expr> = Vec::new();
        sizes.push(size);
        assert(expr_views(sizes@) =~= seq![size@]);
        let mut extra: u64 = 0;
        let ghost want = new_expr(old(self).t(), old(self).here());
        let ghost elem = ty@;
        while self.is(Tok::LBracket)
            invariant
                self.beyond(*old(self)),
                extra < self.pos,
                elem == ty@,
                want == new_expr(old(self).t(), old(self).here()),
                ({
                    let rest = sizes_rest(
                        self.t(),
                        self.here(),
                        expr_views(sizes@),
                        extra,
                        line,
                    );
                    want == (
                        ExprV::NewArray { elem_ty: elem, sizes: rest.0.0, extra_dims: rest.0.1 },
                        rest.1,
                    )
                }),
            decreases self.toks.len() - self.pos,
        {
            proof {
                by_the_rule(self.t(), Rule::SizesRest(expr_views(sizes@), extra, line), self.here());
                reveal(applied);
                reveal(sizes_rest_rule);
            }
            if self.ahead(1) == Tok::RBracket {
                self.advance();
                self.advance();
                extra = extra + 1;
            } else {
                if extra > 0 {
                    return Err(
                        with_line(
                            own("javars: a sized array dimension cannot follow an empty one"),
                            line,
                        ),
                    );
                }
                self.advance();
                let size: Expr = match self.expression() {
                    Ok(v) => v,
                    Err(m) => {
                        return Err(m);
                    },
                };
                if let Err(m) = self.eat(Tok::RBracket) {
                    return Err(m);
                }
                push_expr(&mut sizes, size);
            }
        }
        proof {
            by_the_rule(self.t(), Rule::SizesRest(expr_views(sizes@), extra, line), self.here());
            reveal(applied);
            reveal(sizes_rest_rule);
        }
        Ok(Expr::NewArray { elem_ty: ty, sizes, extra_dims: extra })
    }

    /// The elements of an array up to the closing brace.
    pub(crate) fn array_lit_elems(&mut self) -> (r: Result<Vec<Expr>, String>)
        requires
            old(self).wf(),
        ensures
            match r {
                Ok(x) => (expr_views(x@), final(self).here()) == array_elems(
                    old(self).t(),
                    old(self).here(),
                    seq![],
                ) && final(self).beyond(*old(self)),
                Err(m) => array_elems(old(self).t(), old(self).here(), seq![]).1.err == Some(m@),
            },
            final(self).t() == old(self).t(),
        decreases old(self).toks.len() - old(self).pos, 21int,
    {
        proof {
            by_the_rule(self.t(), Rule::ArrayElems(seq![]), self.here());
            reveal(applied);
            reveal(array_elems_rule);
        }
        let mut out: Vec<Expr> = Vec::new();
        assert(expr_views(out@) =~= seq![]);
        while !self.is(Tok::RBrace) && !self.is(Tok::Eof)
            invariant
                self.onward(*old(self)),
                array_elems(self.t(), self.here(), expr_views(out@)) == array_elems(
                    old(self).t(),
                    old(self).here(),
                    seq![],
                ),
            decreases self.toks.len() - self.pos,
        {
            proof {
                by_the_rule(self.t(), Rule::ArrayElems(expr_views(out@)), self.here());
                reveal(applied);
                reveal(array_elems_rule);
            }
            let elem: Expr = if self.is(Tok::LBrace) {
                self.advance();
                let elems: Vec<Expr> = match self.array_lit_elems() {
                    Ok(v) => v,
                    Err(m) => {
                        return Err(m);
                    },
                };
                Expr::ArrayLit { elems, elem_ty: None }
            } else {
                match self.expression() {
                    Ok(v) => v,
                    Err(m) => {
                        return Err(m);
                    },
                }
            };
            push_expr(&mut out, elem);
            if !self.is(Tok::Comma) {
                if let Err(m) = self.eat(Tok::RBrace) {
                    return Err(m);
                }
                return Ok(out);
            }
            self.advance();
        }
        proof {
            by_the_rule(self.t(), Rule::ArrayElems(expr_views(out@)), self.here());
            reveal(applied);
            reveal(array_elems_rule);
        }
        if let Err(m) = self.eat(Tok::RBrace) {
            return Err(m);
        }
        Ok(out)
    }

    /// Arguments in brackets.
    pub(crate) fn call_args(&mut self) -> (r: Result<Vec<Expr>, String>)
        requires
            old(self).wf(),
        ensures
            match r {
                Ok(x) => (expr_views(x@), final(self).here()) == call_args(
                    old(self).t(),
                    old(self).here(),
                ) && final(self).beyond(*old(self)),
                Err(m) => call_args(old(self).t(), old(self).here()).1.err == Some(m@),
            },
            final(self).t() == old(self).t(),
        decreases old(self).toks.len() - old(self).pos, 13int,
    {
        proof {
            by_the_rule(self.t(), Rule::CallArgs, self.here());
            reveal(applied);
            reveal(call_args_rule);
        }
        if let Err(m) = self.eat(Tok::LParen) {
            return Err(m);
        }
        let mut out: Vec<Expr> = Vec::new();
        assert(expr_views(out@) =~= seq![]);
        if self.is(Tok::RParen) {
            self.advance();
            return Ok(out);
        }
        loop
            invariant
                self.beyond(*old(self)),
                args_rest(self.t(), self.here(), expr_views(out@)) == call_args(
                    old(self).t(),
                    old(self).here(),
                ),
            decreases self.toks.len() - self.pos,
        {
            proof {
                by_the_rule(self.t(), Rule::ArgsRest(expr_views(out@)), self.here());
                reveal(applied);
                reveal(args_rest_rule);
            }
            let e: Expr = match self.expression() {
                Ok(v) => v,
                Err(m) => {
                    return Err(m);
                },
            };
            push_expr(&mut out, e);
            if !self.is(Tok::Comma) {
                if let Err(m) = self.eat(Tok::RParen) {
                    return Err(m);
                }
                return Ok(out);
            }
            self.advance();
        }
    }

    /// Printing to a stream of `System`.
    fn system_out(&mut self) -> (r: Result<Expr, String>)
        requires
            old(self).wf(),
        ensures
            match r {
                Ok(x) => (x@, final(self).here()) == system_out(
                    old(self).t(),
                    old(self).here(),
                ) && final(self).beyond(*old(self)),
                Err(m) => system_out(old(self).t(), old(self).here()).1.err == Some(m@),
            },
            final(self).t() == old(self).t(),
        decreases old(self).toks.len() - old(self).pos, 12int,
    {
        proof {
            by_the_rule(self.t(), Rule::SystemOut, self.here());
            reveal(applied);
            reveal(system_out_rule);
        }
        let sys: String = match self.ident() {
            Ok(v) => v,
            Err(m) => {
                return Err(m);
            },
        };
        if let Err(m) = self.eat(Tok::Dot) {
            return Err(m);
        }
        let stream: String = match self.ident() {
            Ok(v) => v,
            Err(m) => {
                return Err(m);
            },
        };
        let err: bool = same(stream.as_str(), "err");
        if !same(stream.as_str(), "out") && !err {
            let mut m: String = own(
                "javars: only `System.out`/`System.err` are supported, not `System.",
            );
            m.append(stream.as_str());
            m.append("`");
            return Err(with_line(m, self.line()));
        }
        if let Err(m) = self.eat(Tok::Dot) {
            return Err(m);
        }
        let line: u32 = self.line();
        let method: String = match self.ident() {
            Ok(v) => v,
            Err(m) => {
                return Err(m);
            },
        };
        if same(method.as_str(), "printf") || same(method.as_str(), "format") {
            let args: Vec<Expr> = match self.call_args() {
                Ok(v) => v,
                Err(m) => {
                    return Err(m);
                },
            };
            let recv: Expr = Expr::Var(own("String"));
            assert(recv@ == ExprV::Var("String"@));
            let call: Expr = Expr::MethodCall {
                recv: Box::new(recv),
                method: own("format"),
                args,
                line,
            };
            let ghost called = call@;
            let arg: Option<Box<Expr>> = Some(Box::new(call));
            assert(opt_box_view(arg) == Some(Box::new(called)));
            return Ok(Expr::Println { newline: false, err, arg });
        }
        let newline: bool = same(method.as_str(), "println");
        if !newline && !same(method.as_str(), "print") {
            let mut m: String = own("javars: only `System.");
            m.append(stream.as_str());
            m.append(".println`/`print`/`printf` are supported, not `");
            m.append(method.as_str());
            m.append("`");
            return Err(with_line(m, self.line()));
        }
        if let Err(m) = self.eat(Tok::LParen) {
            return Err(m);
        }
        if self.is(Tok::RParen) {
            self.advance();
            assert(opt_box_view(None) is None);
            return Ok(Expr::Println { newline, err, arg: None });
        }
        let e: Expr = match self.expression() {
            Ok(v) => v,
            Err(m) => {
                return Err(m);
            },
        };
        if let Err(m) = self.eat(Tok::RParen) {
            return Err(m);
        }
        let ghost shown = e@;
        let arg: Option<Box<Expr>> = Some(Box::new(e));
        assert(opt_box_view(arg) == Some(Box::new(shown)));
        Ok(Expr::Println { newline, err, arg })
    }

    /// A `switch` that has a value.
    pub fn switch_expr(&mut self) -> (r: Result<Expr, String>)
        requires
            old(self).wf(),
        ensures
            match r {
                Ok(x) => (x@, final(self).here()) == switch_expr(
                    old(self).t(),
                    old(self).here(),
                ) && final(self).beyond(*old(self)),
                Err(m) => switch_expr(old(self).t(), old(self).here()).1.err == Some(m@),
            },
            final(self).t() == old(self).t(),
        decreases old(self).toks.len() - old(self).pos, 14int,
    {
        proof {
            by_the_rule(self.t(), Rule::SwitchExpr, self.here());
            reveal(applied);
            reveal(switch_expr_rule);
        }
        let line: u32 = self.line();
        if let Err(m) = self.eat(Tok::Switch) {
            return Err(m);
        }
        if let Err(m) = self.eat(Tok::LParen) {
            return Err(m);
        }
        let disc: Expr = match self.expression() {
            Ok(v) => v,
            Err(m) => {
                return Err(m);
            },
        };
        if let Err(m) = self.eat(Tok::RParen) {
            return Err(m);
        }
        if let Err(m) = self.eat(Tok::LBrace) {
            return Err(m);
        }
        let arms: Vec<SwitchArm> = match self.arms() {
            Ok(v) => v,
            Err(m) => {
                return Err(m);
            },
        };
        Ok(Expr::SwitchExpr { disc: Box::new(disc), arms, line })
    }

    /// The arms up to the closing brace.
    fn arms(&mut self) -> (r: Result<Vec<SwitchArm>, String>)
        requires
            old(self).wf(),
        ensures
            match r {
                Ok(x) => (arm_views(x@), final(self).here()) == arms_rest(
                    old(self).t(),
                    old(self).here(),
                    seq![],
                    seq![],
                ) && final(self).beyond(*old(self)),
                Err(m) => arms_rest(
                    old(self).t(),
                    old(self).here(),
                    seq![],
                    seq![],
                ).1.err == Some(m@),
            },
            final(self).t() == old(self).t(),
        decreases old(self).toks.len() - old(self).pos, 30int,
    {
        proof {
            by_the_rule(self.t(), Rule::ArmsRest(seq![], seq![]), self.here());
            reveal(applied);
            reveal(arms_rest_rule);
        }
        let mut out: Vec<SwitchArm> = Vec::new();
        let mut waiting: Vec<Expr> = Vec::new();
        assert(arm_views(out@) =~= seq![]);
        assert(expr_views(waiting@) =~= seq![]);
        while !self.is(Tok::RBrace) && !self.is(Tok::Eof)
            invariant
                self.onward(*old(self)),
                arms_rest(self.t(), self.here(), arm_views(out@), expr_views(waiting@))
                    == arms_rest(old(self).t(), old(self).here(), seq![], seq![]),
            decreases self.toks.len() - self.pos,
        {
            proof {
                by_the_rule(
                    self.t(),
                    Rule::ArmsRest(arm_views(out@), expr_views(waiting@)),
                    self.here(),
                );
                reveal(applied);
                reveal(arms_rest_rule);
            }
            let ghost arms_were = arm_views(out@);
            let ghost were_waiting = expr_views(waiting@);
            let is_default: bool = self.is(Tok::Default);
            let mut labels: Vec<Expr> = Vec::new();
            assert(expr_views(labels@) =~= seq![]);
            if is_default {
                self.advance();
            } else {
                if let Err(m) = self.eat(Tok::Case) {
                    return Err(m);
                }
                match self.labels() {
                    Ok(v) => {
                        labels = v;
                    },
                    Err(m) => {
                        return Err(m);
                    },
                }
            }
            let ghost own_labels = expr_views(labels@);
            if self.is(Tok::Colon) {
                self.advance();
                self.switch_expr_depth = self.switch_expr_depth + 1;
                let stmts: Vec<Stmt> = match self.group_body() {
                    Ok(v) => v,
                    Err(m) => {
                        return Err(m);
                    },
                };
                self.switch_expr_depth = self.switch_expr_depth - 1;
                let ghost waiting_seq = waiting@;
                let ghost labels_seq = labels@;
                waiting.append(&mut labels);
                assert(waiting@ == waiting_seq + labels_seq);
                assert(expr_views(waiting@) =~= were_waiting + own_labels);
                assert(stmt_views(stmts@).len() == stmts.len());
                if stmts.len() > 0 || is_default {
                    let all: Vec<Expr> = waiting;
                    waiting = Vec::new();
                    assert(expr_views(waiting@) =~= seq![]);
                    out.push(
                        SwitchArm { labels: all, is_default, body: SwitchArmBody::Block(stmts) },
                    );
                    assert(arm_views(out@) =~= arms_were.push(
                        SwitchArmV {
                            labels: were_waiting + own_labels,
                            is_default,
                            body: SwitchArmBodyV::Block(stmt_views(stmts@)),
                        },
                    ));
                }
            } else {
                if let Err(m) = self.eat(Tok::Arrow) {
                    return Err(m);
                }
                self.switch_expr_depth = self.switch_expr_depth + 1;
                let body: SwitchArmBody = match self.arm_body() {
                    Ok(v) => v,
                    Err(m) => {
                        return Err(m);
                    },
                };
                self.switch_expr_depth = self.switch_expr_depth - 1;
                out.push(SwitchArm { labels, is_default, body });
                assert(arm_views(out@) =~= arms_were.push(
                    SwitchArmV { labels: own_labels, is_default, body: arm_body_view(body) },
                ));
            }
        }
        proof {
            by_the_rule(self.t(), Rule::ArmsRest(arm_views(out@), expr_views(waiting@)), self.here());
            reveal(applied);
            reveal(arms_rest_rule);
        }
        if let Err(m) = self.eat(Tok::RBrace) {
            return Err(m);
        }
        Ok(out)
    }

    /// The labels of an arm.
    fn labels(&mut self) -> (r: Result<Vec<Expr>, String>)
        requires
            old(self).wf(),
        ensures
            match r {
                Ok(x) => (expr_views(x@), final(self).here()) == labels_rest(
                    old(self).t(),
                    old(self).here(),
                    seq![],
                ) && final(self).beyond(*old(self)),
                Err(m) => labels_rest(old(self).t(), old(self).here(), seq![]).1.err == Some(m@),
            },
            final(self).t() == old(self).t(),
        decreases old(self).toks.len() - old(self).pos, 21int,
    {
        proof {
            by_the_rule(self.t(), Rule::LabelsRest(seq![]), self.here());
            reveal(applied);
            reveal(labels_rest_rule);
        }
        let mut out: Vec<Expr> = Vec::new();
        assert(expr_views(out@) =~= seq![]);
        loop
            invariant
                self.onward(*old(self)),
                labels_rest(self.t(), self.here(), expr_views(out@)) == labels_rest(
                    old(self).t(),
                    old(self).here(),
                    seq![],
                ),
            decreases self.toks.len() - self.pos,
        {
            proof {
                by_the_rule(self.t(), Rule::LabelsRest(expr_views(out@)), self.here());
                reveal(applied);
                reveal(labels_rest_rule);
            }
            let e: Expr = match self.binary(0) {
                Ok(v) => v,
                Err(m) => {
                    return Err(m);
                },
            };
            push_expr(&mut out, e);
            if !self.is(Tok::Comma) {
                return Ok(out);
            }
            self.advance();
        }
    }

    /// What stands behind an arrow.
    fn arm_body(&mut self) -> (r: Result<SwitchArmBody, String>)
        requires
            old(self).wf(),
        ensures
            match r {
                Ok(x) => (arm_body_view(x), final(self).here()) == arm_body(
                    old(self).t(),
                    old(self).here(),
                ) && final(self).beyond(*old(self)),
                Err(m) => arm_body(old(self).t(), old(self).here()).1.err == Some(m@),
            },
            final(self).t() == old(self).t(),
        decreases old(self).toks.len() - old(self).pos, 50int,
    {
        proof {
            by_the_rule(self.t(), Rule::ArmBody, self.here());
            reveal(applied);
            reveal(arm_body_rule);
        }
        if self.is(Tok::LBrace) {
            self.advance();
            let body: Vec<Stmt> = match self.block() {
                Ok(v) => v,
                Err(m) => {
                    return Err(m);
                },
            };
            return Ok(SwitchArmBody::Block(body));
        }
        if self.at_word("throw") {
            let stmt: Stmt = match self.statement() {
                Ok(v) => v,
                Err(m) => {
                    return Err(m);
                },
            };
            let mut body: Vec<Stmt> = Vec::new();
            push_stmt(&mut body, stmt);
            assert(stmt_views(body@) =~= seq![stmt@]);
            return Ok(SwitchArmBody::Block(body));
        }
        let e: Expr = match self.expression() {
            Ok(v) => v,
            Err(m) => {
                return Err(m);
            },
        };
        if let Err(m) = self.eat(Tok::Semi) {
            return Err(m);
        }
        Ok(SwitchArmBody::Expr(Box::new(e)))
    }
}

} // verus!
