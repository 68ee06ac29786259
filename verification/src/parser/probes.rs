//! What is decided by looking ahead, with nothing read.
use vstd::prelude::*;

use crate::lexer::{Tok, TokenV};
use crate::parser::names::{after_generics, is_lower_start, starts_lower};
use crate::parser::tokens::{Parser, kind_at, text_of_token, word_at};
use crate::text::{own, same};

verus! {

/// The closing bracket that leaves no bracket open, or the end.
pub open spec fn paren_end(t: Seq<TokenV>, j: int, depth: int) -> int
    decreases t.len() - j,
{
    if j < 0 || j >= t.len() || t[j].kind == Tok::Eof {
        j
    } else if t[j].kind == Tok::LParen {
        paren_end(t, j + 1, depth + 1)
    } else if t[j].kind == Tok::RParen {
        if depth - 1 == 0 {
            j
        } else {
            paren_end(t, j + 1, depth - 1)
        }
    } else {
        paren_end(t, j + 1, depth)
    }
}

/// Whether a bracketed parameter list with an arrow after it starts here.
pub open spec fn lambda_ahead(t: Seq<TokenV>, j: int) -> bool {
    let end = paren_end(t, j, 0);
    kind_at(t, j) == Tok::LParen && kind_at(t, end) == Tok::RParen && kind_at(t, end + 1)
        == Tok::Arrow
}

/// Whether the first label from here on ends in an arrow and not in a colon.
pub open spec fn label_has_arrow(t: Seq<TokenV>, j: int, depth: int) -> bool
    decreases t.len() - j,
{
    if j < 0 || j >= t.len() || t[j].kind == Tok::Eof || t[j].kind == Tok::RBrace {
        false
    } else if t[j].kind == Tok::Arrow && depth == 0 {
        true
    } else if t[j].kind == Tok::Colon && depth == 0 {
        false
    } else if t[j].kind == Tok::LParen {
        label_has_arrow(t, j + 1, depth + 1)
    } else if t[j].kind == Tok::RParen {
        label_has_arrow(
            t,
            j + 1,
            if depth > 0 {
                depth - 1
            } else {
                0
            },
        )
    } else {
        label_has_arrow(t, j + 1, depth)
    }
}

/// Whether a `switch` with arrows starts here.
pub open spec fn arrow_switch_ahead(t: Seq<TokenV>, j: int) -> bool {
    let end = paren_end(t, j + 1, 0);
    kind_at(t, j) == Tok::Switch && kind_at(t, end) == Tok::RParen && kind_at(t, end + 1)
        == Tok::LBrace && label_has_arrow(t, end + 2, 0)
}

/// The place after a qualified name whose segment is at `j`. Only a segment
/// that starts in lowercase is a package.
pub open spec fn after_package(t: Seq<TokenV>, j: int) -> int
    decreases t.len() - j,
{
    if 0 <= j < t.len() && starts_lower(text_of_token(t, j)) && kind_at(t, j + 1) == Tok::Dot
        && kind_at(t, j + 2) == Tok::Ident {
        after_package(t, j + 2)
    } else {
        j + 1
    }
}

/// The place after pairs of array brackets.
pub open spec fn after_pairs(t: Seq<TokenV>, j: int) -> int
    decreases t.len() - j,
{
    if 0 <= j < t.len() && t[j].kind == Tok::LBracket && kind_at(t, j + 1) == Tok::RBracket {
        after_pairs(t, j + 2)
    } else {
        j
    }
}

/// Where the type of a declaration would start: `final` before a name is
/// skipped.
pub open spec fn after_final(t: Seq<TokenV>, j: int) -> int {
    if word_at(t, j, "final"@) && kind_at(t, j + 1) == Tok::Ident {
        j + 1
    } else {
        j
    }
}

/// Whether a type and a name follow, as in a declaration.
pub open spec fn decl_ahead(t: Seq<TokenV>, j: int) -> bool {
    let start = after_final(t, j);
    kind_at(t, start) == Tok::Ident && kind_at(
        t,
        after_pairs(t, after_generics(t, after_package(t, start))),
    ) == Tok::Ident
}

/// A qualified name read up to `j`, and the place after it; none where a dot is
/// followed by something else than a name.
pub open spec fn qualified(t: Seq<TokenV>, j: int, name: Seq<char>) -> Option<(Seq<char>, int)>
    decreases t.len() - j,
{
    if 0 <= j < t.len() && t[j].kind == Tok::Dot {
        if kind_at(t, j + 1) == Tok::Ident {
            qualified(t, j + 2, text_of_token(t, j + 1))
        } else {
            None
        }
    } else {
        Some((name, j))
    }
}

/// A type with the pairs of brackets from `j` on, and the place after it.
pub open spec fn with_pairs(t: Seq<TokenV>, j: int, name: Seq<char>) -> (Seq<char>, int)
    decreases t.len() - j,
{
    if 0 <= j < t.len() && t[j].kind == Tok::LBracket && kind_at(t, j + 1) == Tok::RBracket {
        with_pairs(t, j + 2, name + "[]"@)
    } else {
        (name, j)
    }
}

/// Whether a name is one of a primitive type.
pub open spec fn names_primitive(name: Seq<char>) -> bool {
    ||| name == "int"@
    ||| name == "long"@
    ||| name == "short"@
    ||| name == "byte"@
    ||| name == "char"@
    ||| name == "float"@
    ||| name == "double"@
    ||| name == "boolean"@
}

/// Whether the token can only start an operand. `instanceof` continues the
/// expression before it.
pub open spec fn operand_ahead(t: Seq<TokenV>, j: int) -> bool {
    match kind_at(t, j) {
        Tok::Ident => text_of_token(t, j) != "instanceof"@,
        Tok::Str | Tok::Char | Tok::Int | Tok::Long | Tok::Float | Tok::Float32 | Tok::True
        | Tok::False | Tok::LParen | Tok::Not | Tok::Tilde | Tok::New => true,
        _ => false,
    }
}

/// The type of a cast that starts here, and the place of its closing bracket.
/// A primitive type in brackets is always a cast; another is one only where an
/// operand follows.
pub open spec fn cast_ahead(t: Seq<TokenV>, j: int) -> Option<(Seq<char>, int)> {
    if kind_at(t, j) != Tok::LParen || kind_at(t, j + 1) != Tok::Ident {
        None
    } else {
        match qualified(t, j + 2, text_of_token(t, j + 1)) {
            None => None,
            Some((name, k)) => {
                let (ty, end) = with_pairs(t, after_generics(t, k), name);
                if kind_at(t, end) == Tok::RParen && (names_primitive(ty) || operand_ahead(
                    t,
                    end + 1,
                )) {
                    Some((ty, end))
                } else {
                    None
                }
            },
        }
    }
}

impl Parser {
    /// The closing bracket that leaves no bracket open.
    fn paren_end_at(&self, from: usize) -> (r: usize)
        requires
            self.wf(),
            from < self.toks.len(),
        ensures
            r == paren_end(self.t(), from as int, 0),
            from <= r < self.toks.len(),
    {
        let mut j: usize = from;
        let mut depth: i128 = 0;
        while self.at(j) != Tok::Eof
            invariant
                self.wf(),
                from <= j < self.toks.len(),
                from - j <= depth <= j - from,
                paren_end(self.t(), from as int, 0) == paren_end(
                    self.t(),
                    j as int,
                    depth as int,
                ),
            decreases self.toks.len() - j,
        {
            let kind: Tok = self.at(j);
            if kind == Tok::LParen {
                depth = depth + 1;
            } else if kind == Tok::RParen {
                if depth - 1 == 0 {
                    return j;
                }
                depth = depth - 1;
            }
            j = j + 1;
        }
        j
    }

    /// Whether a bracketed parameter list with an arrow after it starts here.
    pub fn at_lambda(&self) -> (r: bool)
        requires
            self.wf(),
        ensures
            r == lambda_ahead(self.t(), self.pos as int),
    {
        if !self.is(Tok::LParen) {
            return false;
        }
        let end: usize = self.paren_end_at(self.pos);
        self.at(end) == Tok::RParen && self.at(end + 1) == Tok::Arrow
    }

    /// Whether a `switch` with arrows starts here.
    pub fn at_arrow_switch(&self) -> (r: bool)
        requires
            self.wf(),
        ensures
            r == arrow_switch_ahead(self.t(), self.pos as int),
    {
        if !self.is(Tok::Switch) {
            return false;
        }
        let end: usize = self.paren_end_at(self.pos + 1);
        if self.at(end) != Tok::RParen || self.at(end + 1) != Tok::LBrace {
            return false;
        }
        let mut j: usize = end + 2;
        let mut depth: usize = 0;
        while j < self.toks.len()
            invariant
                self.wf(),
                end + 2 <= j <= self.toks.len(),
                depth <= j,
                label_has_arrow(self.t(), end + 2, 0) == label_has_arrow(
                    self.t(),
                    j as int,
                    depth as int,
                ),
                arrow_switch_ahead(self.t(), self.pos as int) == label_has_arrow(
                    self.t(),
                    end + 2,
                    0,
                ),
            decreases self.toks.len() - j,
        {
            let kind: Tok = self.at(j);
            if kind == Tok::Eof || kind == Tok::RBrace {
                return false;
            } else if kind == Tok::Arrow && depth == 0 {
                return true;
            } else if kind == Tok::Colon && depth == 0 {
                return false;
            } else if kind == Tok::LParen {
                depth = depth + 1;
            } else if kind == Tok::RParen {
                if depth > 0 {
                    depth = depth - 1;
                }
            }
            j = j + 1;
        }
        false
    }

    /// Whether a type and a name follow, as in a declaration.
    pub fn looks_like_decl(&self) -> (r: bool)
        requires
            self.wf(),
        ensures
            r == decl_ahead(self.t(), self.pos as int),
    {
        let mut start: usize = self.pos;
        if self.at_word("final") && self.at(start + 1) == Tok::Ident {
            start = start + 1;
        }
        if self.at(start) != Tok::Ident {
            return false;
        }
        let mut last: usize = start;
        while is_lower_start(self.text_at(last)) && self.at(last + 1) == Tok::Dot
            && self.at(last + 2) == Tok::Ident
            invariant
                self.wf(),
                start <= last,
                last + 1 < self.toks.len(),
                kind_at(self.t(), last as int) == Tok::Ident,
                after_package(self.t(), start as int) == after_package(self.t(), last as int),
            decreases self.toks.len() - last,
        {
            last = last + 2;
        }
        let mut j: usize = last + 1;
        if self.at(j) == Tok::Lt {
            j = self.generics_end_at(j);
        }
        let named: usize = j;
        while self.at(j) == Tok::LBracket && self.at(j + 1) == Tok::RBracket
            invariant
                self.wf(),
                j < self.toks.len(),
                after_pairs(self.t(), named as int) == after_pairs(self.t(), j as int),
            decreases self.toks.len() - j,
        {
            j = j + 2;
        }
        self.at(j) == Tok::Ident
    }

    /// The type of a cast that starts here, and the place of its closing bracket.
    pub fn cast_here(&self) -> (r: Option<(String, usize)>)
        requires
            self.wf(),
        ensures
            match r {
                Some(c) => cast_ahead(self.t(), self.pos as int) == Some((c.0@, c.1 as int))
                    && self.pos < c.1 && c.1 + 1 < self.toks.len(),
                None => cast_ahead(self.t(), self.pos as int) is None,
            },
    {
        if !self.is(Tok::LParen) || self.at(self.pos + 1) != Tok::Ident {
            return None;
        }
        let mut name: String = own(self.text_at(self.pos + 1));
        let mut j: usize = self.pos + 2;
        while self.at(j) == Tok::Dot
            invariant
                self.wf(),
                self.pos + 2 <= j < self.toks.len(),
                qualified(self.t(), self.pos + 2, text_of_token(self.t(), self.pos + 1))
                    == qualified(self.t(), j as int, name@),
                kind_at(self.t(), self.pos as int) == Tok::LParen,
                kind_at(self.t(), self.pos + 1) == Tok::Ident,
            decreases self.toks.len() - j,
        {
            if self.at(j + 1) != Tok::Ident {
                return None;
            }
            name = own(self.text_at(j + 1));
            j = j + 2;
        }
        if self.at(j) == Tok::Lt {
            j = self.generics_end_at(j);
        }
        let ghost named = j as int;
        let ghost plain = name@;
        while self.at(j) == Tok::LBracket && self.at(j + 1) == Tok::RBracket
            invariant
                self.wf(),
                self.pos + 2 <= j < self.toks.len(),
                with_pairs(self.t(), named, plain) == with_pairs(self.t(), j as int, name@),
            decreases self.toks.len() - j,
        {
            name.append("[]");
            j = j + 2;
        }
        if self.at(j) != Tok::RParen {
            return None;
        }
        if is_primitive_name(name.as_str()) || self.operand_at(j + 1) {
            Some((name, j))
        } else {
            None
        }
    }

    /// Whether the token can only start an operand.
    fn operand_at(&self, j: usize) -> (r: bool)
        requires
            self.wf(),
        ensures
            r == operand_ahead(self.t(), j as int),
    {
        match self.at(j) {
            Tok::Ident => !same(self.text_at(j), "instanceof"),
            Tok::Str | Tok::Char | Tok::Int | Tok::Long | Tok::Float | Tok::Float32 | Tok::True
            | Tok::False | Tok::LParen | Tok::Not | Tok::Tilde | Tok::New => true,
            _ => false,
        }
    }
}

/// Whether a name is one of a primitive type.
pub(crate) fn is_primitive_name(name: &str) -> (r: bool)
    ensures
        r == names_primitive(name@),
{
    same(name, "int") || same(name, "long") || same(name, "short") || same(name, "byte") || same(
        name,
        "char",
    ) || same(name, "float") || same(name, "double") || same(name, "boolean")
}

} // verus!
