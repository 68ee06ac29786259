//! Names, types and parameters, and the probes that look ahead without reading.
use vstd::prelude::*;

use crate::ast::{Param, ParamV, param_views};
use crate::host::characters::{is_lowercase, lowercase};
use crate::lexer::{Tok, TokenV, closers};
use crate::parser::tokens::{
    Parser, Place, eat, halted, ident, kind_at, left, moved, step, text_of_token, word_at,
};
use crate::prelude::{functional, is_functional};
use crate::text::own;

verus! {

// ── Types ───────────────────────────────────────────────────────────────────

/// The place after a group of type arguments that has `depth` brackets open, or
/// the end where it is not closed.
pub open spec fn generics_end(t: Seq<TokenV>, j: int, depth: int) -> int
    decreases t.len() - j,
{
    if j < 0 || j >= t.len() || t[j].kind == Tok::Eof {
        j
    } else if t[j].kind == Tok::Lt {
        generics_end(t, j + 1, depth + 1)
    } else if closers(t[j].kind) > 0 {
        if depth - closers(t[j].kind) <= 0 {
            j + 1
        } else {
            generics_end(t, j + 1, depth - closers(t[j].kind))
        }
    } else {
        generics_end(t, j + 1, depth)
    }
}

/// The place after the type arguments at a place, where there are some.
pub open spec fn after_generics(t: Seq<TokenV>, j: int) -> int {
    if kind_at(t, j) == Tok::Lt {
        generics_end(t, j, 0)
    } else {
        j
    }
}

/// The place after type arguments.
pub open spec fn skipped_generics(t: Seq<TokenV>, st: Place) -> Place {
    if st.err is Some {
        st
    } else {
        Place { pos: after_generics(t, st.pos), ..st }
    }
}

/// Whether a name starts with a lowercase letter, as a package does.
pub open spec fn starts_lower(s: Seq<char>) -> bool {
    s.len() > 0 && lowercase(s[0])
}

/// Whether the text of a token starts with a lowercase letter.
pub(crate) fn is_lower_start(s: &str) -> (r: bool)
    ensures
        r == starts_lower(s@),
{
    if s.unicode_len() == 0 {
        return false;
    }
    is_lowercase(s.get_char(0))
}

/// The last segment of a qualified name, read after `name`.
pub open spec fn simple_rest(t: Seq<TokenV>, name: Seq<char>, st: Place) -> (Seq<char>, Place)
    decreases left(t, st),
{
    if left(t, st) > 0 && starts_lower(name) && kind_at(t, st.pos) == Tok::Dot && kind_at(
        t,
        st.pos + 1,
    ) == Tok::Ident {
        simple_rest(t, text_of_token(t, st.pos + 1), step(t, step(t, st)))
    } else {
        (name, st)
    }
}

/// A type's name without its package.
pub open spec fn simple_type(t: Seq<TokenV>, st: Place) -> (Seq<char>, Place) {
    let (name, s) = ident(t, st);
    simple_rest(t, name, s)
}

/// Array brackets after a type. A bracket that opens has to close.
pub open spec fn brackets(t: Seq<TokenV>, ty: Seq<char>, st: Place) -> (Seq<char>, Place)
    decreases left(t, st),
{
    if left(t, st) > 0 && kind_at(t, st.pos) == Tok::LBracket {
        brackets(t, ty + "[]"@, eat(t, step(t, st), Tok::RBracket))
    } else {
        (ty, st)
    }
}

/// A type: its name without package and type arguments, and its brackets.
pub open spec fn declared_type(t: Seq<TokenV>, st: Place) -> (Seq<char>, Place) {
    let (name, s) = simple_type(t, st);
    if s.err is Some {
        (name, s)
    } else {
        brackets(t, name, skipped_generics(t, Place { fun: s.fun || functional(name), ..s }))
    }
}

/// Pairs of array brackets after a declared name.
pub open spec fn bracket_pairs(t: Seq<TokenV>, ty: Seq<char>, st: Place) -> (Seq<char>, Place)
    decreases left(t, st),
{
    if left(t, st) > 0 && kind_at(t, st.pos) == Tok::LBracket && kind_at(t, st.pos + 1)
        == Tok::RBracket {
        bracket_pairs(t, ty + "[]"@, step(t, step(t, st)))
    } else {
        (ty, st)
    }
}

/// A declared name and its type: brackets after the name belong to the type.
pub open spec fn declarator(t: Seq<TokenV>, st: Place, base: Seq<char>) -> (
    (Seq<char>, Seq<char>),
    Place,
) {
    let (name, s) = ident(t, st);
    let (ty, s2) = bracket_pairs(t, base, s);
    ((name, ty), s2)
}

// ── Parameters ──────────────────────────────────────────────────────────────

/// One parameter; three dots after its type make it an array of what is left.
pub open spec fn param(t: Seq<TokenV>, st: Place) -> (ParamV, Place) {
    let (ty, s) = declared_type(t, st);
    let dots = s.err is None && kind_at(t, s.pos) == Tok::Dot && kind_at(t, s.pos + 1) == Tok::Dot;
    let s2 = if dots {
        eat(t, step(t, step(t, s)), Tok::Dot)
    } else {
        s
    };
    let base = if dots {
        ty + "[]"@
    } else {
        ty
    };
    let ((name, ty2), s3) = declarator(t, s2, base);
    (ParamV { ty: ty2, name, varargs: dots }, s3)
}

/// The parameters from one on.
pub open spec fn params_rest(t: Seq<TokenV>, st: Place, out: Seq<ParamV>) -> (Seq<ParamV>, Place)
    decreases left(t, st),
{
    if left(t, st) == 0 {
        (out, halted(st))
    } else {
        let (p, s0) = param(t, st);
        let s = moved(t, st, s0);
        if s.err is None && kind_at(t, s.pos) == Tok::Comma {
            params_rest(t, step(t, s), out.push(p))
        } else {
            (out.push(p), s)
        }
    }
}

/// The parameters up to the closing bracket.
pub open spec fn params(t: Seq<TokenV>, st: Place) -> (Seq<ParamV>, Place) {
    if st.err is Some || kind_at(t, st.pos) == Tok::RParen {
        (seq![], st)
    } else {
        params_rest(t, st, seq![])
    }
}

/// The place after the types of a `throws` clause.
pub open spec fn thrown(t: Seq<TokenV>, st: Place) -> Place
    decreases left(t, st),
{
    if left(t, st) == 0 {
        halted(st)
    } else {
        let s = moved(t, st, declared_type(t, st).1);
        if s.err is None && kind_at(t, s.pos) == Tok::Comma {
            thrown(t, step(t, s))
        } else {
            s
        }
    }
}

/// The place after a `throws` clause, where there is one.
pub open spec fn skipped_throws(t: Seq<TokenV>, st: Place) -> Place {
    if st.err is None && word_at(t, st.pos, "throws"@) {
        thrown(t, step(t, st))
    } else {
        st
    }
}

impl Parser {
    /// Where the type arguments at a place end.
    pub(crate) fn generics_end_at(&self, from: usize) -> (r: usize)
        requires
            self.wf(),
            from < self.toks.len(),
        ensures
            r == generics_end(self.t(), from as int, 0),
            from <= r < self.toks.len(),
    {
        let mut j: usize = from;
        let mut depth: i128 = 0;
        while self.at(j) != Tok::Eof
            invariant
                self.wf(),
                from <= j < self.toks.len(),
                -3 <= depth <= j - from,
                generics_end(self.t(), from as int, 0) == generics_end(
                    self.t(),
                    j as int,
                    depth as int,
                ),
            decreases self.toks.len() - j,
        {
            let kind: Tok = self.at(j);
            if kind == Tok::Lt {
                depth = depth + 1;
            } else if kind.generic_closers() > 0 {
                depth = depth - kind.generic_closers() as i128;
                if depth <= 0 {
                    return j + 1;
                }
            }
            j = j + 1;
        }
        j
    }

    /// Go past type arguments.
    pub fn skip_generics(&mut self)
        requires
            old(self).wf(),
        ensures
            final(self).here() == skipped_generics(old(self).t(), old(self).here()),
            final(self).onward(*old(self)),
    {
        if self.is(Tok::Lt) {
            self.pos = self.generics_end_at(self.pos);
        }
    }

    /// A type's name without its package.
    pub fn simple_type_name(&mut self) -> (r: Result<String, String>)
        requires
            old(self).wf(),
        ensures
            match r {
                Ok(x) => (x@, final(self).here()) == simple_type(
                    old(self).t(),
                    old(self).here(),
                ) && final(self).beyond(*old(self)),
                Err(m) => simple_type(old(self).t(), old(self).here()).1.err == Some(m@),
            },
            final(self).t() == old(self).t(),
    {
        let mut ty: String = match self.ident() {
            Ok(v) => v,
            Err(m) => {
                return Err(m);
            },
        };
        while is_lower_start(ty.as_str()) && self.is(Tok::Dot) && self.ahead(1) == Tok::Ident
            invariant
                self.beyond(*old(self)),
                simple_rest(self.t(), ty@, self.here()) == simple_type(
                    old(self).t(),
                    old(self).here(),
                ),
            decreases self.toks.len() - self.pos,
        {
            self.advance();
            let next: String = self.text();
            self.advance();
            ty = next;
        }
        Ok(ty)
    }

    /// A declared name and its type.
    pub fn declarator(&mut self, base_ty: &str) -> (r: Result<(String, String), String>)
        requires
            old(self).wf(),
        ensures
            match r {
                Ok(x) => ((x.0@, x.1@), final(self).here()) == declarator(
                    old(self).t(),
                    old(self).here(),
                    base_ty@,
                ) && final(self).beyond(*old(self)),
                Err(m) => declarator(old(self).t(), old(self).here(), base_ty@).1.err == Some(m@),
            },
            final(self).t() == old(self).t(),
    {
        let name: String = match self.ident() {
            Ok(v) => v,
            Err(m) => {
                return Err(m);
            },
        };
        let mut ty: String = own(base_ty);
        while self.is(Tok::LBracket) && self.ahead(1) == Tok::RBracket
            invariant
                self.beyond(*old(self)),
                ((name@, bracket_pairs(self.t(), ty@, self.here()).0), bracket_pairs(
                    self.t(),
                    ty@,
                    self.here(),
                ).1) == declarator(old(self).t(), old(self).here(), base_ty@),
            decreases self.toks.len() - self.pos,
        {
            self.advance();
            self.advance();
            ty.append("[]");
        }
        Ok((name, ty))
    }

    /// A type.
    pub fn declared_type(&mut self) -> (r: Result<String, String>)
        requires
            old(self).wf(),
        ensures
            match r {
                Ok(x) => (x@, final(self).here()) == declared_type(
                    old(self).t(),
                    old(self).here(),
                ) && final(self).beyond(*old(self)),
                Err(m) => declared_type(old(self).t(), old(self).here()).1.err == Some(m@),
            },
            final(self).t() == old(self).t(),
    {
        let ty: String = match self.simple_type_name() {
            Ok(v) => v,
            Err(m) => {
                return Err(m);
            },
        };
        if is_functional(ty.as_str()) {
            self.uses_functional = true;
        }
        self.skip_generics();
        self.bracketed_type(ty)
    }

    /// A type with the array brackets that follow.
    pub fn bracketed_type(&mut self, base: String) -> (r: Result<String, String>)
        requires
            old(self).wf(),
        ensures
            match r {
                Ok(x) => (x@, final(self).here()) == brackets(
                    old(self).t(),
                    base@,
                    old(self).here(),
                ) && final(self).onward(*old(self)),
                Err(m) => brackets(old(self).t(), base@, old(self).here()).1.err == Some(m@),
            },
            final(self).t() == old(self).t(),
    {
        let mut ty: String = base;
        while self.is(Tok::LBracket)
            invariant
                self.onward(*old(self)),
                brackets(self.t(), ty@, self.here()) == brackets(
                    old(self).t(),
                    base@,
                    old(self).here(),
                ),
            decreases self.toks.len() - self.pos,
        {
            proof {
                reveal_with_fuel(brackets, 2);
            }
            self.advance();
            if let Err(m) = self.eat(Tok::RBracket) {
                return Err(m);
            }
            ty.append("[]");
        }
        Ok(ty)
    }

    /// One parameter.
    fn param(&mut self) -> (r: Result<Param, String>)
        requires
            old(self).wf(),
        ensures
            match r {
                Ok(x) => (x@, final(self).here()) == param(
                    old(self).t(),
                    old(self).here(),
                ) && final(self).beyond(*old(self)),
                Err(m) => param(old(self).t(), old(self).here()).1.err == Some(m@),
            },
            final(self).t() == old(self).t(),
    {
        let mut ty: String = match self.declared_type() {
            Ok(v) => v,
            Err(m) => {
                return Err(m);
            },
        };
        let mut varargs: bool = false;
        if self.is(Tok::Dot) && self.ahead(1) == Tok::Dot {
            self.advance();
            self.advance();
            if let Err(m) = self.eat(Tok::Dot) {
                return Err(m);
            }
            ty.append("[]");
            varargs = true;
        }
        let named: (String, String) = match self.declarator(ty.as_str()) {
            Ok(v) => v,
            Err(m) => {
                return Err(m);
            },
        };
        Ok(Param { ty: named.1, name: named.0, varargs })
    }

    /// The parameters up to the closing bracket.
    pub fn params(&mut self) -> (r: Result<Vec<Param>, String>)
        requires
            old(self).wf(),
        ensures
            match r {
                Ok(x) => (param_views(x@), final(self).here()) == params(
                    old(self).t(),
                    old(self).here(),
                ) && final(self).onward(*old(self)),
                Err(m) => params(old(self).t(), old(self).here()).1.err == Some(m@),
            },
            final(self).t() == old(self).t(),
    {
        let mut out: Vec<Param> = Vec::new();
        assert(param_views(out@) =~= Seq::<ParamV>::empty());
        if self.is(Tok::RParen) {
            return Ok(out);
        }
        loop
            invariant
                self.onward(*old(self)),
                params_rest(self.t(), self.here(), param_views(out@)) == params(
                    old(self).t(),
                    old(self).here(),
                ),
            decreases self.toks.len() - self.pos,
        {
            let p: Param = match self.param() {
                Ok(v) => v,
                Err(m) => {
                    return Err(m);
                },
            };
            let ghost was = param_views(out@);
            let ghost pv = p@;
            out.push(p);
            assert(param_views(out@) =~= was.push(pv));
            if !self.is(Tok::Comma) {
                return Ok(out);
            }
            self.advance();
        }
    }

    /// Go past a `throws` clause.
    pub fn skip_throws(&mut self) -> (r: Result<(), String>)
        requires
            old(self).wf(),
        ensures
            match r {
                Ok(_) => final(self).here() == skipped_throws(
                    old(self).t(),
                    old(self).here(),
                ) && final(self).onward(*old(self)),
                Err(m) => skipped_throws(old(self).t(), old(self).here()).err == Some(m@),
            },
            final(self).t() == old(self).t(),
    {
        if !self.at_word("throws") {
            return Ok(());
        }
        self.advance();
        loop
            invariant
                self.onward(*old(self)),
                thrown(self.t(), self.here()) == skipped_throws(old(self).t(), old(self).here()),
            decreases self.toks.len() - self.pos,
        {
            let ty: String = match self.declared_type() {
                Ok(v) => v,
                Err(m) => {
                    return Err(m);
                },
            };
            if !self.is(Tok::Comma) {
                return Ok(());
            }
            self.advance();
        }
    }
}

} // verus!
