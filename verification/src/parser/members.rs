//! Reading the members of a class, one at a time.
use vstd::prelude::*;

use crate::ast::{
    Ctor, CtorV, Expr, FieldDecl, FieldDeclV, Method, MethodV, Param, Stmt, StmtV,
    field_decl_views, param_views, stmt_views,
};
use crate::lexer::{Tok, TokenV};
use crate::parser::grammar::{block, opt_init};
use crate::parser::names::{declarator, declared_type, params, skipped_generics, skipped_throws};
use crate::parser::stmts::no_stmts;
use crate::parser::tokens::{
    Parser, Place, eat, halted, ident, kind_at, left, line_at, moved, step, text_of_token,
    word_at,
};
use crate::prelude::opt_view;
use crate::text::own;

verus! {

broadcast use crate::parser::grammar::first_error_stays;

/// What a modifier stands before.
#[derive(Clone, Copy, PartialEq, Eq, Structural, Debug)]
pub enum Slot {
    Class,
    Main,
    Ctor,
    Method,
    Field,
}

/// Whether a token is a modifier of what it stands before.
pub open spec fn modifier_at(t: Seq<TokenV>, j: int, slot: Slot) -> bool {
    let k = kind_at(t, j);
    ||| k == Tok::Public
    ||| k == Tok::Static
    ||| slot == Slot::Method && k == Tok::Default
    ||| slot != Slot::Main && word_at(t, j, "final"@)
    ||| (slot == Slot::Class || slot == Slot::Ctor || slot == Slot::Method) && word_at(
        t,
        j,
        "abstract"@,
    )
    ||| (slot == Slot::Ctor || slot == Slot::Method || slot == Slot::Field) && (word_at(
        t,
        j,
        "private"@,
    ) || word_at(t, j, "protected"@))
    ||| slot == Slot::Method && (word_at(t, j, "synchronized"@) || word_at(t, j, "native"@))
    ||| slot == Slot::Field && (word_at(t, j, "volatile"@) || word_at(t, j, "transient"@))
}

/// The place after the modifiers at a place.
pub open spec fn after_modifiers(t: Seq<TokenV>, j: int, slot: Slot) -> int
    decreases t.len() - j,
{
    if 0 <= j < t.len() && modifier_at(t, j, slot) {
        after_modifiers(t, j + 1, slot)
    } else {
        j
    }
}

/// Whether `static` stands between two places.
pub open spec fn static_in(t: Seq<TokenV>, from: int, to: int) -> bool {
    exists|k: int| from <= k < to && #[trigger] kind_at(t, k) == Tok::Static
}

/// Whether the entry point starts here.
pub open spec fn main_ahead(t: Seq<TokenV>, j: int) -> bool {
    let e = after_modifiers(t, j, Slot::Main);
    static_in(t, j, e) && kind_at(t, e) == Tok::Void && word_at(t, e + 1, "main"@)
}

/// The body behind a parameter list: what is thrown is skipped.
pub open spec fn body_after_params(t: Seq<TokenV>, st: Place) -> (Seq<StmtV>, Place) {
    block(t, eat(t, skipped_throws(t, eat(t, st, Tok::RParen)), Tok::LBrace))
}

/// The body of the entry point, and the name of its parameter.
#[verifier::opaque]
pub open spec fn main_method(t: Seq<TokenV>, st: Place) -> (
    (Seq<StmtV>, Option<Seq<char>>),
    Place,
) {
    let at = Place { pos: after_modifiers(t, st.pos, Slot::Main), ..st };
    let (ps, s) = params(t, eat(t, ident(t, eat(t, at, Tok::Void)).1, Tok::LParen));
    let (body, s2) = body_after_params(t, s);
    (
        (
            body,
            if ps.len() > 0 {
                Some(ps[0].name)
            } else {
                None
            },
        ),
        s2,
    )
}

/// Whether a constructor of a class starts here.
pub open spec fn ctor_ahead(t: Seq<TokenV>, j: int, class: Seq<char>) -> bool {
    let e = after_modifiers(t, j, Slot::Ctor);
    word_at(t, e, class) && kind_at(t, e + 1) == Tok::LParen
}

/// A constructor.
#[verifier::opaque]
pub open spec fn ctor_rule(t: Seq<TokenV>, st: Place) -> (CtorV, Place) {
    let at = Place { pos: after_modifiers(t, st.pos, Slot::Ctor), ..st };
    let (ps, s) = params(t, eat(t, step(t, at), Tok::LParen));
    let (body, s2) = body_after_params(t, s);
    (CtorV { params: ps, body, line: line_at(t, at.pos) }, s2)
}

/// Whether a type may start here.
pub open spec fn type_ahead(t: Seq<TokenV>, j: int) -> bool {
    kind_at(t, j) == Tok::Void || kind_at(t, j) == Tok::Ident
}

/// A method and whether it is static; none where something else stands there.
#[verifier::opaque]
pub open spec fn method_rule(t: Seq<TokenV>, st: Place, owner: Seq<char>) -> (
    Option<(MethodV, bool)>,
    Place,
) {
    let e = after_modifiers(t, st.pos, Slot::Method);
    let at = skipped_generics(t, Place { pos: e, ..st });
    let (ret, s) = declared_type(t, at);
    if st.err is Some || !type_ahead(t, at.pos) {
        (None, st)
    } else if s.err is Some {
        (None, s)
    } else if kind_at(t, s.pos) != Tok::Ident || kind_at(t, s.pos + 1) != Tok::LParen {
        (None, Place { pos: st.pos, ..s })
    } else {
        let (ps, s2) = params(t, eat(t, step(t, s), Tok::LParen));
        let s3 = skipped_throws(t, eat(t, s2, Tok::RParen));
        let is_abstract = s3.err is None && kind_at(t, s3.pos) == Tok::Semi;
        let (body, s4) = if is_abstract {
            (seq![], step(t, s3))
        } else {
            block(t, eat(t, s3, Tok::LBrace))
        };
        (
            Some(
                (
                    MethodV {
                        name: text_of_token(t, s.pos),
                        owner,
                        params: ps,
                        ret,
                        body,
                        is_abstract,
                        line: line_at(t, at.pos),
                    },
                    static_in(t, st.pos, e),
                ),
            ),
            s4,
        )
    }
}

/// The fields of one declaration from one on.
pub open spec fn field_decls(t: Seq<TokenV>, st: Place, base: Seq<char>, out: Seq<FieldDeclV>) -> (
    Seq<FieldDeclV>,
    Place,
)
    decreases left(t, st),
{
    if left(t, st) == 0 {
        (out, halted(st))
    } else {
        let ((name, ty), s0) = declarator(t, st, base);
        let (init, s1) = opt_init(t, s0);
        let s = moved(t, st, s1);
        let next = out.push(FieldDeclV { ty, name, init, line: line_at(t, st.pos) });
        if s.err is None && kind_at(t, s.pos) == Tok::Comma {
            field_decls(t, step(t, s), base, next)
        } else {
            (next, s)
        }
    }
}

/// The fields of a declaration and whether they are static; none where
/// something else stands there.
#[verifier::opaque]
pub open spec fn fields_rule(t: Seq<TokenV>, st: Place) -> (
    Option<(Seq<FieldDeclV>, bool)>,
    Place,
) {
    let e = after_modifiers(t, st.pos, Slot::Field);
    let (base, s) = declared_type(t, Place { pos: e, ..st });
    if st.err is Some || !type_ahead(t, e) {
        (None, st)
    } else if s.err is Some {
        (None, s)
    } else if kind_at(t, s.pos) != Tok::Ident || kind_at(t, s.pos + 1) == Tok::LParen {
        (None, Place { pos: st.pos, ..s })
    } else {
        let (decls, s2) = field_decls(t, s, base, seq![]);
        (Some((decls, static_in(t, st.pos, e))), eat(t, s2, Tok::Semi))
    }
}

/// The place after the brace that closes what is open, or the end.
pub open spec fn braces_end(t: Seq<TokenV>, j: int, depth: int) -> int
    decreases t.len() - j,
{
    if j < 0 || j >= t.len() || t[j].kind == Tok::Eof {
        j
    } else if t[j].kind == Tok::LBrace {
        braces_end(t, j + 1, depth + 1)
    } else if t[j].kind == Tok::RBrace {
        if depth - 1 == 0 {
            j + 1
        } else {
            braces_end(t, j + 1, depth - 1)
        }
    } else {
        braces_end(t, j + 1, depth)
    }
}

/// The place after a member that is not understood: behind its braces or its
/// semicolon, or before the brace that closes the class.
pub open spec fn member_end(t: Seq<TokenV>, j: int) -> int
    decreases t.len() - j,
{
    if j < 0 || j >= t.len() || t[j].kind == Tok::Eof || t[j].kind == Tok::RBrace {
        j
    } else if t[j].kind == Tok::LBrace {
        braces_end(t, j, 0)
    } else if t[j].kind == Tok::Semi {
        j + 1
    } else {
        member_end(t, j + 1)
    }
}

impl Parser {
    /// Whether a token is a modifier of what it stands before.
    fn is_modifier(&self, j: usize, slot: Slot) -> (r: bool)
        requires
            self.wf(),
        ensures
            r == modifier_at(self.t(), j as int, slot),
            r ==> j + 1 < self.toks.len(),
    {
        let k: Tok = self.at(j);
        if k == Tok::Public || k == Tok::Static {
            return true;
        }
        if slot == Slot::Method && k == Tok::Default {
            return true;
        }
        if slot != Slot::Main && self.is_word(j, "final") {
            return true;
        }
        if (slot == Slot::Class || slot == Slot::Ctor || slot == Slot::Method) && self.is_word(
            j,
            "abstract",
        ) {
            return true;
        }
        if (slot == Slot::Ctor || slot == Slot::Method || slot == Slot::Field) && (self.is_word(
            j,
            "private",
        ) || self.is_word(j, "protected")) {
            return true;
        }
        if slot == Slot::Method && (self.is_word(j, "synchronized") || self.is_word(j, "native")) {
            return true;
        }
        slot == Slot::Field && (self.is_word(j, "volatile") || self.is_word(j, "transient"))
    }

    /// The place after the modifiers from here on, and whether `static` is among
    /// them.
    pub fn modifiers_end(&self, from: usize, slot: Slot) -> (r: (usize, bool))
        requires
            self.wf(),
            from < self.toks.len(),
        ensures
            r.0 == after_modifiers(self.t(), from as int, slot),
            from <= r.0 < self.toks.len(),
            r.1 == static_in(self.t(), from as int, r.0 as int),
    {
        let mut j: usize = from;
        let mut is_static: bool = false;
        while self.is_modifier(j, slot)
            invariant
                self.wf(),
                from <= j < self.toks.len(),
                after_modifiers(self.t(), from as int, slot) == after_modifiers(
                    self.t(),
                    j as int,
                    slot,
                ),
                is_static == static_in(self.t(), from as int, j as int),
            decreases self.toks.len() - j,
        {
            let found: bool = self.at(j) == Tok::Static;
            proof {
                if found {
                    assert(kind_at(self.t(), j as int) == Tok::Static);
                    assert(static_in(self.t(), from as int, j + 1));
                } else if is_static {
                    let k = choose|k: int|
                        from <= k < j && #[trigger] kind_at(self.t(), k) == Tok::Static;
                    assert(kind_at(self.t(), k) == Tok::Static);
                    assert(static_in(self.t(), from as int, j + 1));
                }
            }
            if found {
                is_static = true;
            }
            j = j + 1;
        }
        (j, is_static)
    }

    /// Whether the entry point starts here.
    pub fn at_main(&self) -> (r: bool)
        requires
            self.wf(),
        ensures
            r == main_ahead(self.t(), self.pos as int),
    {
        let (e, is_static) = self.modifiers_end(self.pos, Slot::Main);
        is_static && self.at(e) == Tok::Void && self.is_word(e + 1, "main")
    }

    /// The body behind a parameter list.
    fn body_after_params(&mut self) -> (r: Result<Vec<Stmt>, String>)
        requires
            old(self).wf(),
        ensures
            match r {
                Ok(x) => (stmt_views(x@), final(self).here()) == body_after_params(
                    old(self).t(),
                    old(self).here(),
                ) && final(self).beyond(*old(self)),
                Err(m) => body_after_params(old(self).t(), old(self).here()).1.err == Some(m@),
            },
            final(self).t() == old(self).t(),
    {
        if let Err(m) = self.eat(Tok::RParen) {
            return Err(m);
        }
        if let Err(m) = self.skip_throws() {
            return Err(m);
        }
        if let Err(m) = self.eat(Tok::LBrace) {
            return Err(m);
        }
        self.block()
    }

    /// The body of the entry point, and the name of its parameter.
    pub fn main_here(&mut self) -> (r: Result<(Vec<Stmt>, Option<String>), String>)
        requires
            old(self).wf(),
        ensures
            match r {
                Ok(x) => ((stmt_views(x.0@), opt_view(x.1)), final(self).here()) == main_method(
                    old(self).t(),
                    old(self).here(),
                ) && final(self).beyond(*old(self)),
                Err(m) => main_method(old(self).t(), old(self).here()).1.err == Some(m@),
            },
            final(self).t() == old(self).t(),
    {
        proof {
            reveal(main_method);
        }
        let (e, _is_static) = self.modifiers_end(self.pos, Slot::Main);
        self.pos = e;
        if let Err(m) = self.eat(Tok::Void) {
            return Err(m);
        }
        let _name: String = match self.ident() {
            Ok(v) => v,
            Err(m) => {
                return Err(m);
            },
        };
        if let Err(m) = self.eat(Tok::LParen) {
            return Err(m);
        }
        let ps: Vec<Param> = match self.params() {
            Ok(v) => v,
            Err(m) => {
                return Err(m);
            },
        };
        assert(param_views(ps@).len() == ps.len());
        let param: Option<String> = if ps.len() > 0 {
            assert(param_views(ps@)[0] == ps@[0]@);
            Some(own(ps[0].name.as_str()))
        } else {
            None
        };
        let body: Vec<Stmt> = match self.body_after_params() {
            Ok(v) => v,
            Err(m) => {
                return Err(m);
            },
        };
        Ok((body, param))
    }

    /// Whether a constructor of a class starts here.
    pub fn at_ctor(&self, class: &str) -> (r: bool)
        requires
            self.wf(),
        ensures
            r == ctor_ahead(self.t(), self.pos as int, class@),
    {
        let (e, _is_static) = self.modifiers_end(self.pos, Slot::Ctor);
        self.is_word(e, class) && self.at(e + 1) == Tok::LParen
    }

    /// A constructor.
    pub fn ctor_here(&mut self, class: &str) -> (r: Result<Ctor, String>)
        requires
            old(self).wf(),
            ctor_ahead(old(self).t(), old(self).pos as int, class@),
        ensures
            match r {
                Ok(x) => (x@, final(self).here()) == ctor_rule(
                    old(self).t(),
                    old(self).here(),
                ) && final(self).beyond(*old(self)),
                Err(m) => ctor_rule(old(self).t(), old(self).here()).1.err == Some(m@),
            },
            final(self).t() == old(self).t(),
    {
        proof {
            reveal(ctor_rule);
        }
        let (e, _is_static) = self.modifiers_end(self.pos, Slot::Ctor);
        self.pos = e;
        let line: u32 = self.line();
        self.advance();
        if let Err(m) = self.eat(Tok::LParen) {
            return Err(m);
        }
        let params: Vec<Param> = match self.params() {
            Ok(v) => v,
            Err(m) => {
                return Err(m);
            },
        };
        let body: Vec<Stmt> = match self.body_after_params() {
            Ok(v) => v,
            Err(m) => {
                return Err(m);
            },
        };
        Ok(Ctor { params, body, line })
    }

    /// Whether a type may start here.
    fn at_type(&self) -> (r: bool)
        requires
            self.wf(),
        ensures
            r == type_ahead(self.t(), self.pos as int),
    {
        self.is(Tok::Void) || self.is(Tok::Ident)
    }

    /// A method and whether it is static; none where something else stands there.
    pub fn try_any_method(&mut self, owner: &str) -> (r: Result<Option<(Method, bool)>, String>)
        requires
            old(self).wf(),
        ensures
            match r {
                Ok(x) => (method_found(x), final(self).here()) == method_rule(
                    old(self).t(),
                    old(self).here(),
                    owner@,
                ) && final(self).onward(*old(self)),
                Err(m) => method_rule(old(self).t(), old(self).here(), owner@).1.err == Some(m@),
            },
            final(self).t() == old(self).t(),
            r matches Ok(Some(_)) ==> final(self).beyond(*old(self)),
    {
        proof {
            reveal(method_rule);
        }
        let save: usize = self.pos;
        let (e, is_static) = self.modifiers_end(self.pos, Slot::Method);
        self.pos = e;
        self.skip_generics();
        if !self.at_type() {
            self.pos = save;
            return Ok(None);
        }
        let line: u32 = self.line();
        let ret: String = match self.declared_type() {
            Ok(v) => v,
            Err(m) => {
                return Err(m);
            },
        };
        if !self.is(Tok::Ident) || self.ahead(1) != Tok::LParen {
            self.pos = save;
            return Ok(None);
        }
        let name: String = self.text();
        self.advance();
        if let Err(m) = self.eat(Tok::LParen) {
            return Err(m);
        }
        let params: Vec<Param> = match self.params() {
            Ok(v) => v,
            Err(m) => {
                return Err(m);
            },
        };
        if let Err(m) = self.eat(Tok::RParen) {
            return Err(m);
        }
        if let Err(m) = self.skip_throws() {
            return Err(m);
        }
        let is_abstract: bool = self.is(Tok::Semi);
        let body: Vec<Stmt> = if is_abstract {
            self.advance();
            no_stmts()
        } else {
            if let Err(m) = self.eat(Tok::LBrace) {
                return Err(m);
            }
            match self.block() {
                Ok(v) => v,
                Err(m) => {
                    return Err(m);
                },
            }
        };
        let m: Method = Method { name, owner: own(owner), params, ret, body, is_abstract, line };
        Ok(Some((m, is_static)))
    }

    /// The fields of a declaration and whether they are static; none where
    /// something else stands there.
    pub fn try_fields(&mut self) -> (r: Result<Option<(Vec<FieldDecl>, bool)>, String>)
        requires
            old(self).wf(),
        ensures
            match r {
                Ok(x) => (fields_found(x), final(self).here()) == fields_rule(
                    old(self).t(),
                    old(self).here(),
                ) && final(self).onward(*old(self)),
                Err(m) => fields_rule(old(self).t(), old(self).here()).1.err == Some(m@),
            },
            final(self).t() == old(self).t(),
            r matches Ok(Some(_)) ==> final(self).beyond(*old(self)),
    {
        proof {
            reveal(fields_rule);
        }
        let save: usize = self.pos;
        let (e, is_static) = self.modifiers_end(self.pos, Slot::Field);
        self.pos = e;
        if !self.at_type() {
            self.pos = save;
            return Ok(None);
        }
        let base: String = match self.declared_type() {
            Ok(v) => v,
            Err(m) => {
                return Err(m);
            },
        };
        if !self.is(Tok::Ident) || self.ahead(1) == Tok::LParen {
            self.pos = save;
            return Ok(None);
        }
        let decls: Vec<FieldDecl> = match self.field_decls(base.as_str()) {
            Ok(v) => v,
            Err(m) => {
                return Err(m);
            },
        };
        if let Err(m) = self.eat(Tok::Semi) {
            return Err(m);
        }
        Ok(Some((decls, is_static)))
    }

    /// The fields of one declaration.
    fn field_decls(&mut self, base: &str) -> (r: Result<Vec<FieldDecl>, String>)
        requires
            old(self).wf(),
        ensures
            match r {
                Ok(x) => (field_decl_views(x@), final(self).here()) == field_decls(
                    old(self).t(),
                    old(self).here(),
                    base@,
                    seq![],
                ) && final(self).beyond(*old(self)),
                Err(m) => field_decls(
                    old(self).t(),
                    old(self).here(),
                    base@,
                    seq![],
                ).1.err == Some(m@),
            },
            final(self).t() == old(self).t(),
    {
        let mut out: Vec<FieldDecl> = Vec::new();
        assert(field_decl_views(out@) =~= seq![]);
        loop
            invariant
                self.onward(*old(self)),
                field_decls(self.t(), self.here(), base@, field_decl_views(out@)) == field_decls(
                    old(self).t(),
                    old(self).here(),
                    base@,
                    seq![],
                ),
            decreases self.toks.len() - self.pos,
        {
            let ghost were = field_decl_views(out@);
            let line: u32 = self.line();
            let named: (String, String) = match self.declarator(base) {
                Ok(v) => v,
                Err(m) => {
                    return Err(m);
                },
            };
            let init: Option<Expr> = match self.opt_init() {
                Ok(v) => v,
                Err(m) => {
                    return Err(m);
                },
            };
            let f: FieldDecl = FieldDecl { ty: named.1, name: named.0, init, line };
            let ghost one = f@;
            out.push(f);
            assert(field_decl_views(out@) =~= were.push(one));
            if !self.is(Tok::Comma) {
                return Ok(out);
            }
            self.advance();
        }
    }

    /// The place after the brace that closes what is open.
    fn braces_end_at(&self, from: usize) -> (r: usize)
        requires
            self.wf(),
            from < self.toks.len(),
        ensures
            r == braces_end(self.t(), from as int, 0),
            from <= r < self.toks.len(),
            kind_at(self.t(), from as int) == Tok::LBrace ==> from < r,
    {
        let mut j: usize = from;
        let mut depth: i128 = 0;
        while self.at(j) != Tok::Eof
            invariant
                self.wf(),
                from <= j < self.toks.len(),
                from - j <= depth <= j - from,
                kind_at(self.t(), from as int) == Tok::LBrace && j == from ==> kind_at(
                    self.t(),
                    j as int,
                ) != Tok::Eof,
                braces_end(self.t(), from as int, 0) == braces_end(
                    self.t(),
                    j as int,
                    depth as int,
                ),
            decreases self.toks.len() - j,
        {
            let kind: Tok = self.at(j);
            if kind == Tok::LBrace {
                depth = depth + 1;
            } else if kind == Tok::RBrace {
                if depth - 1 == 0 {
                    return j + 1;
                }
                depth = depth - 1;
            }
            j = j + 1;
        }
        j
    }

    /// Go past a member that is not understood.
    pub fn skip_member(&mut self)
        requires
            old(self).wf(),
            kind_at(old(self).t(), old(self).pos as int) != Tok::RBrace,
            kind_at(old(self).t(), old(self).pos as int) != Tok::Eof,
        ensures
            final(self).here() == (Place {
                pos: member_end(old(self).t(), old(self).here().pos),
                ..old(self).here()
            }),
            final(self).beyond(*old(self)),
    {
        let ghost from = self.pos;
        let mut j: usize = self.pos;
        while self.at(j) != Tok::Eof && self.at(j) != Tok::RBrace
            invariant
                *self == *old(self),
                self.wf(),
                from == self.pos,
                from <= j < self.toks.len(),
                j == from ==> kind_at(self.t(), j as int) != Tok::Eof && kind_at(
                    self.t(),
                    j as int,
                ) != Tok::RBrace,
                member_end(self.t(), from as int) == member_end(self.t(), j as int),
            decreases self.toks.len() - j,
        {
            if self.at(j) == Tok::LBrace {
                self.pos = self.braces_end_at(j);
                return;
            }
            if self.at(j) == Tok::Semi {
                self.pos = j + 1;
                return;
            }
            j = j + 1;
        }
        self.pos = j;
    }
}

/// What was found where a method may stand.
pub open spec fn method_found(x: Option<(Method, bool)>) -> Option<(MethodV, bool)> {
    match x {
        Some((m, is_static)) => Some((m@, is_static)),
        None => None,
    }
}

/// What was found where fields may stand.
pub open spec fn fields_found(x: Option<(Vec<FieldDecl>, bool)>) -> Option<
    (Seq<FieldDeclV>, bool),
> {
    match x {
        Some((fs, is_static)) => Some((field_decl_views(fs@), is_static)),
        None => None,
    }
}

} // verus!
