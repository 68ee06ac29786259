//! The parser's place in the tokens, and what is read without an expression:
//! names, types and parameters.
//!
//! A rule of the grammar is a function from a place to what was read and the
//! place after it. A place may be failed; every rule leaves a failed place as it
//! is, so the first error is the one that is reported.
use vstd::prelude::*;

use crate::host::render::{low32, low_bits, scalar};
use crate::lexer::{Tok, Token, TokenV, ends_once, token_views};
use crate::text::{dec, int_text, own, same};

verus! {

/// A place in the tokens, with what has been seen on the way.
pub struct Place {
    pub pos: int,
    /// Whether something of exceptions was seen.
    pub exc: bool,
    /// Whether something of functional interfaces was seen.
    pub fun: bool,
    /// How many arms of `switch` expressions enclose the place.
    pub depth: int,
    /// The error, where reading failed.
    pub err: Option<Seq<char>>,
}

/// The place where reading failed.
pub open spec fn failed(st: Place, msg: Seq<char>) -> Place {
    Place { err: Some(msg), ..st }
}

/// The kind of a token; past the last one is the end.
pub open spec fn kind_at(t: Seq<TokenV>, j: int) -> Tok {
    if 0 <= j < t.len() {
        t[j].kind
    } else {
        Tok::Eof
    }
}

/// The text of a token.
pub open spec fn text_of_token(t: Seq<TokenV>, j: int) -> Seq<char> {
    if 0 <= j < t.len() {
        t[j].text
    } else {
        seq![]
    }
}

/// The line of a token.
pub open spec fn line_at(t: Seq<TokenV>, j: int) -> u32 {
    if 0 <= j < t.len() {
        t[j].line
    } else {
        0
    }
}

/// Whether a token is this word.
pub open spec fn word_at(t: Seq<TokenV>, j: int, w: Seq<char>) -> bool {
    kind_at(t, j) == Tok::Ident && text_of_token(t, j) == w
}

// ── Messages ────────────────────────────────────────────────────────────────

/// A text as a message quotes it, in double quotes with its special characters
/// escaped.
pub uninterp spec fn quoted(s: Seq<char>) -> Seq<char>;

/// The `Debug` rendering of a `str`, which depends on its characters alone.
#[verifier::external_body]
fn quote(s: &str) -> (r: String)
    ensures
        r@ == quoted(s@),
{
    format!("{:?}", s)
}

/// A character as a message quotes it, in single quotes.
pub uninterp spec fn quoted_char(c: char) -> Seq<char>;

/// The `Debug` rendering of a `char`, which depends on the character alone.
#[verifier::external_body]
fn quote_char(c: char) -> (r: String)
    ensures
        r@ == quoted_char(c),
{
    format!("{:?}", c)
}

/// The value of a floating literal as a message shows it.
pub uninterp spec fn shown_float(s: Seq<char>) -> Seq<char>;

/// The `Debug` rendering of the number a text is read as by `fusevm`: the
/// nearest `double`, or zero where the text is no number. Both depend on the
/// text alone.
#[verifier::external_body]
fn show_float(s: &str) -> (r: String)
    ensures
        r@ == shown_float(s@),
{
    format!("{:?}", fusevm::Value::str(s.to_string()).to_float())
}

/// The name of a kind of token.
#[verifier::opaque]
pub open spec fn tok_name(k: Tok) -> Seq<char> {
    match k {
        Tok::Int => "Int"@,
        Tok::Long => "Long"@,
        Tok::Float => "Float"@,
        Tok::Float32 => "Float32"@,
        Tok::Str => "Str"@,
        Tok::Char => "Char"@,
        Tok::Ident => "Ident"@,
        Tok::Class => "Class"@,
        Tok::Public => "Public"@,
        Tok::Static => "Static"@,
        Tok::Void => "Void"@,
        Tok::If => "If"@,
        Tok::Else => "Else"@,
        Tok::While => "While"@,
        Tok::For => "For"@,
        Tok::Do => "Do"@,
        Tok::Switch => "Switch"@,
        Tok::Case => "Case"@,
        Tok::Default => "Default"@,
        Tok::Return => "Return"@,
        Tok::Break => "Break"@,
        Tok::Continue => "Continue"@,
        Tok::True => "True"@,
        Tok::False => "False"@,
        Tok::New => "New"@,
        Tok::LBrace => "LBrace"@,
        Tok::RBrace => "RBrace"@,
        Tok::LParen => "LParen"@,
        Tok::RParen => "RParen"@,
        Tok::LBracket => "LBracket"@,
        Tok::RBracket => "RBracket"@,
        Tok::Semi => "Semi"@,
        Tok::Comma => "Comma"@,
        Tok::Dot => "Dot"@,
        Tok::Question => "Question"@,
        Tok::Colon => "Colon"@,
        Tok::Arrow => "Arrow"@,
        Tok::ColonColon => "ColonColon"@,
        Tok::Assign => "Assign"@,
        Tok::PlusAssign => "PlusAssign"@,
        Tok::MinusAssign => "MinusAssign"@,
        Tok::StarAssign => "StarAssign"@,
        Tok::SlashAssign => "SlashAssign"@,
        Tok::PercentAssign => "PercentAssign"@,
        Tok::Plus => "Plus"@,
        Tok::Minus => "Minus"@,
        Tok::Star => "Star"@,
        Tok::Slash => "Slash"@,
        Tok::Percent => "Percent"@,
        Tok::PlusPlus => "PlusPlus"@,
        Tok::MinusMinus => "MinusMinus"@,
        Tok::EqEq => "EqEq"@,
        Tok::NotEq => "NotEq"@,
        Tok::Lt => "Lt"@,
        Tok::Gt => "Gt"@,
        Tok::Le => "Le"@,
        Tok::Ge => "Ge"@,
        Tok::AndAnd => "AndAnd"@,
        Tok::OrOr => "OrOr"@,
        Tok::Not => "Not"@,
        Tok::Amp => "Amp"@,
        Tok::Pipe => "Pipe"@,
        Tok::Caret => "Caret"@,
        Tok::Tilde => "Tilde"@,
        Tok::Shl => "Shl"@,
        Tok::Shr => "Shr"@,
        Tok::Ushr => "Ushr"@,
        Tok::AmpAssign => "AmpAssign"@,
        Tok::PipeAssign => "PipeAssign"@,
        Tok::CaretAssign => "CaretAssign"@,
        Tok::ShlAssign => "ShlAssign"@,
        Tok::ShrAssign => "ShrAssign"@,
        Tok::UshrAssign => "UshrAssign"@,
        Tok::Eof => "Eof"@,
    }
}

/// The name of a kind of token.
pub fn name_of_tok(k: Tok) -> (r: &'static str)
    ensures
        r@ == tok_name(k),
{
    proof {
        reveal(tok_name);
    }
    match k {
        Tok::Int => "Int",
        Tok::Long => "Long",
        Tok::Float => "Float",
        Tok::Float32 => "Float32",
        Tok::Str => "Str",
        Tok::Char => "Char",
        Tok::Ident => "Ident",
        Tok::Class => "Class",
        Tok::Public => "Public",
        Tok::Static => "Static",
        Tok::Void => "Void",
        Tok::If => "If",
        Tok::Else => "Else",
        Tok::While => "While",
        Tok::For => "For",
        Tok::Do => "Do",
        Tok::Switch => "Switch",
        Tok::Case => "Case",
        Tok::Default => "Default",
        Tok::Return => "Return",
        Tok::Break => "Break",
        Tok::Continue => "Continue",
        Tok::True => "True",
        Tok::False => "False",
        Tok::New => "New",
        Tok::LBrace => "LBrace",
        Tok::RBrace => "RBrace",
        Tok::LParen => "LParen",
        Tok::RParen => "RParen",
        Tok::LBracket => "LBracket",
        Tok::RBracket => "RBracket",
        Tok::Semi => "Semi",
        Tok::Comma => "Comma",
        Tok::Dot => "Dot",
        Tok::Question => "Question",
        Tok::Colon => "Colon",
        Tok::Arrow => "Arrow",
        Tok::ColonColon => "ColonColon",
        Tok::Assign => "Assign",
        Tok::PlusAssign => "PlusAssign",
        Tok::MinusAssign => "MinusAssign",
        Tok::StarAssign => "StarAssign",
        Tok::SlashAssign => "SlashAssign",
        Tok::PercentAssign => "PercentAssign",
        Tok::Plus => "Plus",
        Tok::Minus => "Minus",
        Tok::Star => "Star",
        Tok::Slash => "Slash",
        Tok::Percent => "Percent",
        Tok::PlusPlus => "PlusPlus",
        Tok::MinusMinus => "MinusMinus",
        Tok::EqEq => "EqEq",
        Tok::NotEq => "NotEq",
        Tok::Lt => "Lt",
        Tok::Gt => "Gt",
        Tok::Le => "Le",
        Tok::Ge => "Ge",
        Tok::AndAnd => "AndAnd",
        Tok::OrOr => "OrOr",
        Tok::Not => "Not",
        Tok::Amp => "Amp",
        Tok::Pipe => "Pipe",
        Tok::Caret => "Caret",
        Tok::Tilde => "Tilde",
        Tok::Shl => "Shl",
        Tok::Shr => "Shr",
        Tok::Ushr => "Ushr",
        Tok::AmpAssign => "AmpAssign",
        Tok::PipeAssign => "PipeAssign",
        Tok::CaretAssign => "CaretAssign",
        Tok::ShlAssign => "ShlAssign",
        Tok::ShrAssign => "ShrAssign",
        Tok::UshrAssign => "UshrAssign",
        Tok::Eof => "Eof",
    }
}

/// The character with a code point; NUL for what is none.
pub open spec fn char_of_code(n: i64) -> char {
    match scalar(low32(n as int)) {
        Some(c) => c,
        None => '\0',
    }
}

/// A token as a message shows it: its kind, and what it holds.
#[verifier::opaque]
pub open spec fn shown(t: TokenV) -> Seq<char> {
    match t.kind {
        Tok::Int => "Int("@ + dec(t.value as int) + ")"@,
        Tok::Long => "Long("@ + dec(t.value as int) + ")"@,
        Tok::Float => "Float("@ + shown_float(t.text) + ")"@,
        Tok::Float32 => "Float32("@ + shown_float(t.text) + ")"@,
        Tok::Str => "Str("@ + quoted(t.text) + ")"@,
        Tok::Char => "Char("@ + quoted_char(char_of_code(t.value)) + ")"@,
        Tok::Ident => "Ident("@ + quoted(t.text) + ")"@,
        _ => tok_name(t.kind),
    }
}

fn holding(kind: &str, held: String) -> (r: String)
    ensures
        r@ == kind@ + held@ + ")"@,
{
    let mut s: String = own(kind);
    s.append(held.as_str());
    s.append(")");
    s
}

/// A token as a message shows it.
pub fn show_token(t: &Token) -> (r: String)
    ensures
        r@ == shown(t@),
{
    proof {
        reveal(shown);
    }
    match t.kind {
        Tok::Int => holding("Int(", int_text(t.value)),
        Tok::Long => holding("Long(", int_text(t.value)),
        Tok::Float => holding("Float(", show_float(t.text.as_str())),
        Tok::Float32 => holding("Float32(", show_float(t.text.as_str())),
        Tok::Str => holding("Str(", quote(t.text.as_str())),
        Tok::Char => {
            let c: char = match char::from_u32(low_bits(t.value)) {
                Some(c) => c,
                None => '\0',
            };
            holding("Char(", quote_char(c))
        },
        Tok::Ident => holding("Ident(", quote(t.text.as_str())),
        k => own(name_of_tok(k)),
    }
}

// ── Reading ─────────────────────────────────────────────────────────────────

/// The place after a token. There is none after the last, which ends the text
/// and is never read past.
pub open spec fn step(t: Seq<TokenV>, st: Place) -> Place {
    if st.err is Some {
        st
    } else if 0 <= st.pos && st.pos + 1 < t.len() {
        Place { pos: st.pos + 1, ..st }
    } else {
        failed(st, "javars: unexpected end"@)
    }
}

/// The place after a rule that started at `st`, which it has to have left.
pub open spec fn moved(t: Seq<TokenV>, st: Place, s: Place) -> Place {
    if s.err is None && !(st.pos < s.pos < t.len()) {
        failed(s, "javars: unexpected end"@)
    } else {
        s
    }
}

/// What is left to read, zero at a failed place.
pub open spec fn left(t: Seq<TokenV>, st: Place) -> int {
    if st.err is Some || st.pos < 0 || st.pos >= t.len() {
        0
    } else {
        t.len() - st.pos
    }
}

/// A place with nothing left to read is a failed one.
pub open spec fn halted(st: Place) -> Place {
    if st.err is Some {
        st
    } else {
        failed(st, "javars: unexpected end"@)
    }
}

/// The message of a token that is not the one the grammar asks for.
#[verifier::opaque]
pub open spec fn expected(want: Seq<char>, t: Seq<TokenV>, j: int) -> Seq<char> {
    "javars: expected "@ + want + " but found "@ + shown(t[j]) + " on line "@ + dec(
        line_at(t, j) as int,
    )
}

/// The place after a token of this kind.
pub open spec fn eat(t: Seq<TokenV>, st: Place, want: Tok) -> Place {
    if st.err is Some {
        st
    } else if kind_at(t, st.pos) == want {
        step(t, st)
    } else {
        failed(st, expected(tok_name(want), t, st.pos))
    }
}

/// The place after a token of this kind, where there is one.
pub open spec fn eat_if(t: Seq<TokenV>, st: Place, want: Tok) -> Place {
    if st.err is None && kind_at(t, st.pos) == want {
        step(t, st)
    } else {
        st
    }
}

/// The place after this word, where there is one.
pub open spec fn eat_word(t: Seq<TokenV>, st: Place, w: Seq<char>) -> Place {
    if st.err is None && word_at(t, st.pos, w) {
        step(t, st)
    } else {
        st
    }
}

/// A name; `void` counts as one.
pub open spec fn ident(t: Seq<TokenV>, st: Place) -> (Seq<char>, Place) {
    if st.err is Some {
        (seq![], st)
    } else if kind_at(t, st.pos) == Tok::Ident {
        (text_of_token(t, st.pos), step(t, st))
    } else if kind_at(t, st.pos) == Tok::Void {
        ("void"@, step(t, st))
    } else {
        (seq![], failed(st, no_name(t, st.pos)))
    }
}

/// The message of a token that is no name. It names the line after the token.
#[verifier::opaque]
pub open spec fn no_name(t: Seq<TokenV>, j: int) -> Seq<char> {
    let after = if j + 1 < t.len() {
        j + 1
    } else {
        j
    };
    "javars: expected an identifier but found "@ + shown(t[j]) + " on line "@ + dec(
        line_at(t, after) as int,
    )
}

/// What tokens hold.
#[verifier::opaque]
pub open spec fn tokens_in(v: Seq<Token>) -> Seq<TokenV> {
    token_views(v)
}

/// Whether tokens end with the mark of the end and hold no other.
#[verifier::opaque]
pub open spec fn well_ended(t: Seq<TokenV>) -> bool {
    ends_once(t)
}

/// The state of a parse.
pub struct Parser {
    pub toks: Vec<Token>,
    pub pos: usize,
    pub uses_exceptions: bool,
    pub uses_functional: bool,
    pub switch_expr_depth: usize,
}

impl Parser {
    /// The tokens.
    pub open spec fn t(&self) -> Seq<TokenV> {
        tokens_in(self.toks@)
    }

    /// The place in them.
    pub open spec fn here(&self) -> Place {
        Place {
            pos: self.pos as int,
            exc: self.uses_exceptions,
            fun: self.uses_functional,
            depth: self.switch_expr_depth as int,
            err: None,
        }
    }

    /// The tokens end once, and the place is one of them.
    pub open spec fn wf(&self) -> bool {
        &&& well_ended(self.t())
        &&& self.t().len() == self.toks.len()
        &&& self.pos < self.toks.len()
        &&& self.switch_expr_depth <= self.pos
    }

    /// Whether the parser is further along in the same tokens, inside as many
    /// arms.
    pub open spec fn beyond(&self, before: Parser) -> bool {
        &&& self.wf()
        &&& self.t() == before.t()
        &&& self.toks.len() == before.toks.len()
        &&& before.pos < self.pos
        &&& self.switch_expr_depth == before.switch_expr_depth
    }

    /// Whether the parser is further along or where it was.
    pub open spec fn onward(&self, before: Parser) -> bool {
        &&& self.wf()
        &&& self.t() == before.t()
        &&& self.toks.len() == before.toks.len()
        &&& before.pos <= self.pos
        &&& self.switch_expr_depth == before.switch_expr_depth
    }

    /// The kind of the token at the place.
    pub fn peek(&self) -> (r: Tok)
        requires
            self.wf(),
        ensures
            r == kind_at(self.t(), self.here().pos),
            r != Tok::Eof ==> self.pos + 1 < self.toks.len(),
    {
        proof {
            reveal(tokens_in);
            reveal(well_ended);
        }
        self.toks[self.pos].kind
    }

    /// The kind of a token ahead; past the last one is the end.
    pub fn ahead(&self, n: usize) -> (r: Tok)
        requires
            self.wf(),
        ensures
            r == kind_at(self.t(), self.pos + n),
    {
        proof {
            reveal(tokens_in);
            reveal(well_ended);
        }
        if n < self.toks.len() - self.pos {
            self.toks[self.pos + n].kind
        } else {
            Tok::Eof
        }
    }

    /// Whether a token ahead is this word.
    pub fn word_ahead(&self, n: usize, w: &str) -> (r: bool)
        requires
            self.wf(),
        ensures
            r == word_at(self.t(), self.pos + n, w@),
    {
        proof {
            reveal(tokens_in);
            reveal(well_ended);
        }
        if n < self.toks.len() - self.pos {
            self.toks[self.pos + n].kind == Tok::Ident && same(
                self.toks[self.pos + n].text.as_str(),
                w,
            )
        } else {
            false
        }
    }

    /// The line of the token at the place.
    pub fn line(&self) -> (r: u32)
        requires
            self.wf(),
        ensures
            r == line_at(self.t(), self.pos as int),
    {
        proof {
            reveal(tokens_in);
            reveal(well_ended);
        }
        self.toks[self.pos].line
    }

    /// The text of the token at the place.
    pub fn text(&self) -> (r: String)
        requires
            self.wf(),
        ensures
            r@ == text_of_token(self.t(), self.pos as int),
    {
        proof {
            reveal(tokens_in);
            reveal(well_ended);
        }
        own(self.toks[self.pos].text.as_str())
    }

    /// The kind of a token; past the last one is the end.
    pub fn at(&self, j: usize) -> (r: Tok)
        requires
            self.wf(),
        ensures
            r == kind_at(self.t(), j as int),
            r != Tok::Eof ==> j + 1 < self.toks.len(),
    {
        proof {
            reveal(tokens_in);
            reveal(well_ended);
        }
        if j < self.toks.len() {
            self.toks[j].kind
        } else {
            Tok::Eof
        }
    }

    /// Whether a token is this word.
    pub fn is_word(&self, j: usize, w: &str) -> (r: bool)
        requires
            self.wf(),
        ensures
            r == word_at(self.t(), j as int, w@),
            r ==> j + 1 < self.toks.len(),
    {
        self.at(j) == Tok::Ident && same(self.text_at(j), w)
    }

    /// The text of a token.
    pub fn text_at(&self, j: usize) -> (r: &str)
        requires
            self.wf(),
            j < self.toks.len(),
        ensures
            r@ == text_of_token(self.t(), j as int),
    {
        proof {
            reveal(tokens_in);
        }
        self.toks[j].text.as_str()
    }

    /// The line of a token.
    pub fn line_of(&self, j: usize) -> (r: u32)
        requires
            self.wf(),
            j < self.toks.len(),
        ensures
            r == line_at(self.t(), j as int),
    {
        proof {
            reveal(tokens_in);
        }
        self.toks[j].line
    }

    /// The value of the token at the place.
    pub fn value(&self) -> (r: i64)
        requires
            self.wf(),
        ensures
            r == self.t()[self.pos as int].value,
    {
        proof {
            reveal(tokens_in);
        }
        self.toks[self.pos].value
    }

    /// The token at the place as a message shows it.
    pub fn shown_here(&self) -> (r: String)
        requires
            self.wf(),
        ensures
            r@ == shown(self.t()[self.pos as int]),
    {
        proof {
            reveal(tokens_in);
        }
        show_token(&self.toks[self.pos])
    }

    /// Go past a token that is not the end.
    pub fn advance(&mut self)
        requires
            old(self).wf(),
            kind_at(old(self).t(), old(self).pos as int) != Tok::Eof,
        ensures
            final(self).here() == step(old(self).t(), old(self).here()),
            final(self).beyond(*old(self)),
            final(self).pos == old(self).pos + 1,
            final(self).here().err is None,
    {
        proof {
            reveal(tokens_in);
            reveal(well_ended);
        }
        self.pos = self.pos + 1;
    }

    /// Go past a token of this kind.
    pub fn eat(&mut self, want: Tok) -> (r: Result<(), String>)
        requires
            old(self).wf(),
            want != Tok::Eof,
        ensures
            match r {
                Ok(_) => final(self).here() == eat(old(self).t(), old(self).here(), want)
                    && final(self).beyond(*old(self)) && final(self).pos == old(self).pos + 1,
                Err(m) => eat(old(self).t(), old(self).here(), want).err == Some(m@),
            },
            final(self).t() == old(self).t(),
    {
        if self.peek() == want {
            self.advance();
            return Ok(());
        }
        proof {
            reveal(tokens_in);
            reveal(expected);
        }
        let mut m: String = own("javars: expected ");
        m.append(name_of_tok(want));
        m.append(" but found ");
        m.append(self.shown_here().as_str());
        m.append(" on line ");
        m.append(int_text(self.line() as i64).as_str());
        Err(m)
    }

    /// Whether the token at the place is of this kind.
    pub fn is(&self, k: Tok) -> (r: bool)
        requires
            self.wf(),
        ensures
            r == (kind_at(self.t(), self.pos as int) == k),
            r && k != Tok::Eof ==> self.pos + 1 < self.toks.len(),
    {
        self.peek() == k
    }

    /// Whether the token at the place is this word.
    pub fn at_word(&self, w: &str) -> (r: bool)
        requires
            self.wf(),
        ensures
            r == word_at(self.t(), self.pos as int, w@),
    {
        self.word_ahead(0, w)
    }

    /// Go past a token of this kind, where there is one.
    pub fn eat_if(&mut self, want: Tok) -> (r: bool)
        requires
            old(self).wf(),
            want != Tok::Eof,
        ensures
            r == (kind_at(old(self).t(), old(self).pos as int) == want),
            final(self).here() == eat_if(old(self).t(), old(self).here(), want),
            final(self).onward(*old(self)),
            r ==> final(self).beyond(*old(self)),
            !r ==> final(self).here() == old(self).here(),
    {
        if self.peek() == want {
            self.advance();
            true
        } else {
            false
        }
    }

    /// Go past this word, where there is one.
    pub fn eat_word(&mut self, w: &str) -> (r: bool)
        requires
            old(self).wf(),
        ensures
            r == word_at(old(self).t(), old(self).pos as int, w@),
            final(self).here() == eat_word(old(self).t(), old(self).here(), w@),
            final(self).onward(*old(self)),
            r ==> final(self).beyond(*old(self)),
            !r ==> final(self).here() == old(self).here(),
    {
        if self.at_word(w) {
            self.advance();
            true
        } else {
            false
        }
    }

    /// A name.
    pub fn ident(&mut self) -> (r: Result<String, String>)
        requires
            old(self).wf(),
        ensures
            match r {
                Ok(s) => (s@, final(self).here()) == ident(old(self).t(), old(self).here())
                    && final(self).beyond(*old(self)) && final(self).pos == old(self).pos + 1,
                Err(m) => ident(old(self).t(), old(self).here()).1.err == Some(m@),
            },
            final(self).t() == old(self).t(),
    {
        if self.is(Tok::Ident) {
            let s: String = self.text();
            self.advance();
            return Ok(s);
        }
        if self.is(Tok::Void) {
            self.advance();
            return Ok(own("void"));
        }
        let after: usize = if self.pos + 1 < self.toks.len() {
            self.pos + 1
        } else {
            self.pos
        };
        proof {
            reveal(tokens_in);
            reveal(no_name);
        }
        let mut m: String = own("javars: expected an identifier but found ");
        m.append(self.shown_here().as_str());
        m.append(" on line ");
        m.append(int_text(self.toks[after].line as i64).as_str());
        Err(m)
    }
}

} // verus!
