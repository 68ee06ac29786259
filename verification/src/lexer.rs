//! A hand-written Java lexer.
//!
//! It turns a source text into the tokens the parser reads: names and keywords,
//! literals, operators and punctuation. Comments and white space are skipped.
use vstd::prelude::*;

use crate::host::maths::{wrap, wrapped};
use crate::host::operators::{wrap_at, wrapped_at};
use crate::text::{
    all_digits, chars_of, code_of, dec, digits_value, int_text, number, own, same, text_between,
    text_of,
};

verus! {

/// The kinds of token.
#[derive(Clone, Copy, PartialEq, Eq, Structural, Debug)]
pub enum Tok {
    // Literals and names.
    Int,
    /// An integer with the suffix that makes it a `long`.
    Long,
    Float,
    /// A floating literal with the suffix that makes it a `float`.
    Float32,
    Str,
    /// A `char`, which is a number.
    Char,
    Ident,
    // Keywords.
    Class,
    Public,
    Static,
    Void,
    If,
    Else,
    While,
    For,
    Do,
    Switch,
    Case,
    Default,
    Return,
    Break,
    Continue,
    True,
    False,
    New,
    // Punctuation and operators.
    LBrace,
    RBrace,
    LParen,
    RParen,
    LBracket,
    RBracket,
    Semi,
    Comma,
    Dot,
    Question,
    Colon,
    Arrow,
    ColonColon,
    Assign,
    PlusAssign,
    MinusAssign,
    StarAssign,
    SlashAssign,
    PercentAssign,
    Plus,
    Minus,
    Star,
    Slash,
    Percent,
    PlusPlus,
    MinusMinus,
    EqEq,
    NotEq,
    Lt,
    Gt,
    Le,
    Ge,
    AndAnd,
    OrOr,
    Not,
    Amp,
    Pipe,
    Caret,
    Tilde,
    Shl,
    Shr,
    Ushr,
    AmpAssign,
    PipeAssign,
    CaretAssign,
    ShlAssign,
    ShrAssign,
    UshrAssign,
    Eof,
}

/// A token and the line it ends on, from one.
pub struct Token {
    pub kind: Tok,
    /// The text of a name, a string or a floating literal; empty otherwise.
    pub text: String,
    /// The value of an integer, or the code point of a `char`; zero otherwise.
    pub value: i64,
    pub line: u32,
}

/// What a [`Token`] stands for.
pub struct TokenV {
    pub kind: Tok,
    pub text: Seq<char>,
    pub value: i64,
    pub line: u32,
}

impl View for Token {
    type V = TokenV;

    open spec fn view(&self) -> TokenV {
        TokenV { kind: self.kind, text: self.text@, value: self.value, line: self.line }
    }
}

/// What a sequence of tokens stands for.
pub open spec fn token_views(s: Seq<Token>) -> Seq<TokenV> {
    Seq::new(s.len(), |i: int| s[i]@)
}

/// How many closing brackets of type arguments a token spells.
pub open spec fn closers(t: Tok) -> int {
    match t {
        Tok::Gt => 1,
        Tok::Shr => 2,
        Tok::Ushr => 3,
        _ => 0,
    }
}

impl Tok {
    /// How many closing brackets of type arguments a token spells: the longest
    /// match makes two or three of them one shift.
    pub fn generic_closers(&self) -> (r: i32)
        ensures
            r == closers(*self),
    {
        match self {
            Tok::Gt => 1,
            Tok::Shr => 2,
            Tok::Ushr => 3,
            _ => 0,
        }
    }
}

// ── Characters ──────────────────────────────────────────────────────────────

pub open spec fn is_letter(c: char) -> bool {
    'a' <= c <= 'z' || 'A' <= c <= 'Z'
}

pub open spec fn is_digit(c: char) -> bool {
    '0' <= c <= '9'
}

/// The characters a name starts with.
pub open spec fn starts_word(c: char) -> bool {
    is_letter(c) || c == '_' || c == '$'
}

/// The characters a name goes on with.
pub open spec fn in_word(c: char) -> bool {
    starts_word(c) || is_digit(c)
}

/// White space, the line feed included.
pub open spec fn is_space(c: char) -> bool {
    9 <= c as int <= 13 || c == ' '
}

fn letter(c: char) -> (r: bool)
    ensures
        r == is_letter(c),
{
    ('a' <= c && c <= 'z') || ('A' <= c && c <= 'Z')
}

fn digit(c: char) -> (r: bool)
    ensures
        r == is_digit(c),
{
    '0' <= c && c <= '9'
}

fn word_start(c: char) -> (r: bool)
    ensures
        r == starts_word(c),
{
    letter(c) || c == '_' || c == '$'
}

pub(crate) fn word_part(c: char) -> (r: bool)
    ensures
        r == in_word(c),
{
    word_start(c) || digit(c)
}

fn space(c: char) -> (r: bool)
    ensures
        r == is_space(c),
{
    let n: u32 = code_of(c);
    (9 <= n && n <= 13) || c == ' '
}

/// Whether the text has `c` at a position.
pub open spec fn at(s: Seq<char>, i: int, c: char) -> bool {
    0 <= i < s.len() && s[i] == c
}

fn is_at(v: &Vec<char>, i: usize, c: char) -> (r: bool)
    ensures
        r == at(v@, i as int, c),
{
    i < v.len() && v[i] == c
}

/// Where a run of characters of `class` that starts at `i` ends.
pub open spec fn run_end(s: Seq<char>, i: int, class: spec_fn(char) -> bool) -> int
    decreases s.len() - i,
{
    if 0 <= i < s.len() && class(s[i]) {
        run_end(s, i + 1, class)
    } else {
        i
    }
}

pub open spec fn words() -> spec_fn(char) -> bool {
    |c: char| in_word(c)
}

/// Digits, with the underscores that separate them.
pub open spec fn spaced_digits() -> spec_fn(char) -> bool {
    |c: char| is_digit(c) || c == '_'
}

pub open spec fn pure_digits() -> spec_fn(char) -> bool {
    |c: char| is_digit(c)
}

/// The digits of a literal with a radix prefix.
pub open spec fn radix_digits() -> spec_fn(char) -> bool {
    |c: char| is_letter(c) || is_digit(c) || c == '_'
}

/// Anything but the end of a line.
pub open spec fn in_line() -> spec_fn(char) -> bool {
    |c: char| c != '\n'
}


fn scan_word(v: &Vec<char>, from: usize) -> (r: usize)
    requires
        from <= v.len(),
    ensures
        r == run_end(v@, from as int, words()),
        from <= r <= v.len(),
{
    let mut i: usize = from;
    while i < v.len() && (word_part(v[i]))
        invariant
            from <= i <= v.len(),
            run_end(v@, from as int, words()) == run_end(v@, i as int, words()),
        decreases v.len() - i,
    {
        i += 1;
    }
    i
}


fn scan_spaced(v: &Vec<char>, from: usize) -> (r: usize)
    requires
        from <= v.len(),
    ensures
        r == run_end(v@, from as int, spaced_digits()),
        from <= r <= v.len(),
{
    let mut i: usize = from;
    while i < v.len() && (digit(v[i]) || v[i] == '_')
        invariant
            from <= i <= v.len(),
            run_end(v@, from as int, spaced_digits()) == run_end(v@, i as int, spaced_digits()),
        decreases v.len() - i,
    {
        i += 1;
    }
    i
}


fn scan_digits(v: &Vec<char>, from: usize) -> (r: usize)
    requires
        from <= v.len(),
    ensures
        r == run_end(v@, from as int, pure_digits()),
        from <= r <= v.len(),
{
    let mut i: usize = from;
    while i < v.len() && (digit(v[i]))
        invariant
            from <= i <= v.len(),
            run_end(v@, from as int, pure_digits()) == run_end(v@, i as int, pure_digits()),
        decreases v.len() - i,
    {
        i += 1;
    }
    i
}


fn scan_radix(v: &Vec<char>, from: usize) -> (r: usize)
    requires
        from <= v.len(),
    ensures
        r == run_end(v@, from as int, radix_digits()),
        from <= r <= v.len(),
{
    let mut i: usize = from;
    while i < v.len() && (letter(v[i]) || digit(v[i]) || v[i] == '_')
        invariant
            from <= i <= v.len(),
            run_end(v@, from as int, radix_digits()) == run_end(v@, i as int, radix_digits()),
        decreases v.len() - i,
    {
        i += 1;
    }
    i
}


fn scan_line(v: &Vec<char>, from: usize) -> (r: usize)
    requires
        from <= v.len(),
    ensures
        r == run_end(v@, from as int, in_line()),
        from <= r <= v.len(),
{
    let mut i: usize = from;
    while i < v.len() && (v[i] != '\n')
        invariant
            from <= i <= v.len(),
            run_end(v@, from as int, in_line()) == run_end(v@, i as int, in_line()),
        decreases v.len() - i,
    {
        i += 1;
    }
    i
}


// ── Names and operators ─────────────────────────────────────────────────────

/// The kind of a word: a keyword, or a name.
pub open spec fn word_kind(w: Seq<char>) -> Tok {
    if w == "class"@ {
        Tok::Class
    } else if w == "public"@ {
        Tok::Public
    } else if w == "static"@ {
        Tok::Static
    } else if w == "void"@ {
        Tok::Void
    } else if w == "if"@ {
        Tok::If
    } else if w == "else"@ {
        Tok::Else
    } else if w == "while"@ {
        Tok::While
    } else if w == "for"@ {
        Tok::For
    } else if w == "do"@ {
        Tok::Do
    } else if w == "switch"@ {
        Tok::Switch
    } else if w == "case"@ {
        Tok::Case
    } else if w == "default"@ {
        Tok::Default
    } else if w == "return"@ {
        Tok::Return
    } else if w == "break"@ {
        Tok::Break
    } else if w == "continue"@ {
        Tok::Continue
    } else if w == "true"@ {
        Tok::True
    } else if w == "false"@ {
        Tok::False
    } else if w == "new"@ {
        Tok::New
    } else {
        Tok::Ident
    }
}

/// The kind of a word: a keyword, or a name.
pub fn keyword_or_ident(word: &str) -> (r: Tok)
    ensures
        r == word_kind(word@),
{
    if same(word, "class") {
        Tok::Class
    } else if same(word, "public") {
        Tok::Public
    } else if same(word, "static") {
        Tok::Static
    } else if same(word, "void") {
        Tok::Void
    } else if same(word, "if") {
        Tok::If
    } else if same(word, "else") {
        Tok::Else
    } else if same(word, "while") {
        Tok::While
    } else if same(word, "for") {
        Tok::For
    } else if same(word, "do") {
        Tok::Do
    } else if same(word, "switch") {
        Tok::Switch
    } else if same(word, "case") {
        Tok::Case
    } else if same(word, "default") {
        Tok::Default
    } else if same(word, "return") {
        Tok::Return
    } else if same(word, "break") {
        Tok::Break
    } else if same(word, "continue") {
        Tok::Continue
    } else if same(word, "true") {
        Tok::True
    } else if same(word, "false") {
        Tok::False
    } else if same(word, "new") {
        Tok::New
    } else {
        Tok::Ident
    }
}

/// The operator of two characters.
pub open spec fn pair_kind(a: char, b: char) -> Option<Tok> {
    if a == '+' && b == '=' {
        Some(Tok::PlusAssign)
    } else if a == '-' && b == '=' {
        Some(Tok::MinusAssign)
    } else if a == '*' && b == '=' {
        Some(Tok::StarAssign)
    } else if a == '/' && b == '=' {
        Some(Tok::SlashAssign)
    } else if a == '%' && b == '=' {
        Some(Tok::PercentAssign)
    } else if a == '+' && b == '+' {
        Some(Tok::PlusPlus)
    } else if a == '-' && b == '-' {
        Some(Tok::MinusMinus)
    } else if a == '=' && b == '=' {
        Some(Tok::EqEq)
    } else if a == '!' && b == '=' {
        Some(Tok::NotEq)
    } else if a == '<' && b == '=' {
        Some(Tok::Le)
    } else if a == '>' && b == '=' {
        Some(Tok::Ge)
    } else if a == '&' && b == '&' {
        Some(Tok::AndAnd)
    } else if a == '|' && b == '|' {
        Some(Tok::OrOr)
    } else if a == '&' && b == '=' {
        Some(Tok::AmpAssign)
    } else if a == '|' && b == '=' {
        Some(Tok::PipeAssign)
    } else if a == '^' && b == '=' {
        Some(Tok::CaretAssign)
    } else if a == '<' && b == '<' {
        Some(Tok::Shl)
    } else if a == '>' && b == '>' {
        Some(Tok::Shr)
    } else if a == '-' && b == '>' {
        Some(Tok::Arrow)
    } else if a == ':' && b == ':' {
        Some(Tok::ColonColon)
    } else {
        None
    }
}

fn pair_of(a: char, b: char) -> (r: Option<Tok>)
    ensures
        r == pair_kind(a, b),
{
    if a == '+' && b == '=' {
        Some(Tok::PlusAssign)
    } else if a == '-' && b == '=' {
        Some(Tok::MinusAssign)
    } else if a == '*' && b == '=' {
        Some(Tok::StarAssign)
    } else if a == '/' && b == '=' {
        Some(Tok::SlashAssign)
    } else if a == '%' && b == '=' {
        Some(Tok::PercentAssign)
    } else if a == '+' && b == '+' {
        Some(Tok::PlusPlus)
    } else if a == '-' && b == '-' {
        Some(Tok::MinusMinus)
    } else if a == '=' && b == '=' {
        Some(Tok::EqEq)
    } else if a == '!' && b == '=' {
        Some(Tok::NotEq)
    } else if a == '<' && b == '=' {
        Some(Tok::Le)
    } else if a == '>' && b == '=' {
        Some(Tok::Ge)
    } else if a == '&' && b == '&' {
        Some(Tok::AndAnd)
    } else if a == '|' && b == '|' {
        Some(Tok::OrOr)
    } else if a == '&' && b == '=' {
        Some(Tok::AmpAssign)
    } else if a == '|' && b == '=' {
        Some(Tok::PipeAssign)
    } else if a == '^' && b == '=' {
        Some(Tok::CaretAssign)
    } else if a == '<' && b == '<' {
        Some(Tok::Shl)
    } else if a == '>' && b == '>' {
        Some(Tok::Shr)
    } else if a == '-' && b == '>' {
        Some(Tok::Arrow)
    } else if a == ':' && b == ':' {
        Some(Tok::ColonColon)
    } else {
        None
    }
}

/// The operator or punctuation of one character.
pub open spec fn single_kind(c: char) -> Option<Tok> {
    if c == '{' {
        Some(Tok::LBrace)
    } else if c == '}' {
        Some(Tok::RBrace)
    } else if c == '(' {
        Some(Tok::LParen)
    } else if c == ')' {
        Some(Tok::RParen)
    } else if c == '[' {
        Some(Tok::LBracket)
    } else if c == ']' {
        Some(Tok::RBracket)
    } else if c == ';' {
        Some(Tok::Semi)
    } else if c == ',' {
        Some(Tok::Comma)
    } else if c == '.' {
        Some(Tok::Dot)
    } else if c == '?' {
        Some(Tok::Question)
    } else if c == ':' {
        Some(Tok::Colon)
    } else if c == '=' {
        Some(Tok::Assign)
    } else if c == '+' {
        Some(Tok::Plus)
    } else if c == '-' {
        Some(Tok::Minus)
    } else if c == '*' {
        Some(Tok::Star)
    } else if c == '/' {
        Some(Tok::Slash)
    } else if c == '%' {
        Some(Tok::Percent)
    } else if c == '<' {
        Some(Tok::Lt)
    } else if c == '>' {
        Some(Tok::Gt)
    } else if c == '!' {
        Some(Tok::Not)
    } else if c == '&' {
        Some(Tok::Amp)
    } else if c == '|' {
        Some(Tok::Pipe)
    } else if c == '^' {
        Some(Tok::Caret)
    } else if c == '~' {
        Some(Tok::Tilde)
    } else {
        None
    }
}

fn single_of(c: char) -> (r: Option<Tok>)
    ensures
        r == single_kind(c),
{
    if c == '{' {
        Some(Tok::LBrace)
    } else if c == '}' {
        Some(Tok::RBrace)
    } else if c == '(' {
        Some(Tok::LParen)
    } else if c == ')' {
        Some(Tok::RParen)
    } else if c == '[' {
        Some(Tok::LBracket)
    } else if c == ']' {
        Some(Tok::RBracket)
    } else if c == ';' {
        Some(Tok::Semi)
    } else if c == ',' {
        Some(Tok::Comma)
    } else if c == '.' {
        Some(Tok::Dot)
    } else if c == '?' {
        Some(Tok::Question)
    } else if c == ':' {
        Some(Tok::Colon)
    } else if c == '=' {
        Some(Tok::Assign)
    } else if c == '+' {
        Some(Tok::Plus)
    } else if c == '-' {
        Some(Tok::Minus)
    } else if c == '*' {
        Some(Tok::Star)
    } else if c == '/' {
        Some(Tok::Slash)
    } else if c == '%' {
        Some(Tok::Percent)
    } else if c == '<' {
        Some(Tok::Lt)
    } else if c == '>' {
        Some(Tok::Gt)
    } else if c == '!' {
        Some(Tok::Not)
    } else if c == '&' {
        Some(Tok::Amp)
    } else if c == '|' {
        Some(Tok::Pipe)
    } else if c == '^' {
        Some(Tok::Caret)
    } else if c == '~' {
        Some(Tok::Tilde)
    } else {
        None
    }
}
/// The operator or punctuation at `i`, the longest match, and its length.
pub open spec fn symbol_at(s: Seq<char>, i: int) -> Option<(Tok, int)> {
    if at(s, i, '>') && at(s, i + 1, '>') && at(s, i + 2, '>') && at(s, i + 3, '=') {
        Some((Tok::UshrAssign, 4))
    } else if at(s, i, '>') && at(s, i + 1, '>') && at(s, i + 2, '>') {
        Some((Tok::Ushr, 3))
    } else if at(s, i, '>') && at(s, i + 1, '>') && at(s, i + 2, '=') {
        Some((Tok::ShrAssign, 3))
    } else if at(s, i, '<') && at(s, i + 1, '<') && at(s, i + 2, '=') {
        Some((Tok::ShlAssign, 3))
    } else if i + 1 < s.len() && pair_kind(s[i], s[i + 1]) is Some {
        Some((pair_kind(s[i], s[i + 1])->Some_0, 2))
    } else {
        match single_kind(s[i]) {
            Some(k) => Some((k, 1)),
            None => None,
        }
    }
}

fn lex_symbol(v: &Vec<char>, i: usize) -> (r: Option<(Tok, usize)>)
    requires
        i < v.len(),
    ensures
        match (r, symbol_at(v@, i as int)) {
            (Some(x), Some(y)) => x.0 == y.0 && x.1 == y.1 && 1 <= x.1 && i + x.1 <= v.len(),
            (None, None) => true,
            _ => false,
        },
{
    let left: usize = v.len() - i;
    if left >= 4 && v[i] == '>' && v[i + 1] == '>' && v[i + 2] == '>' && v[i + 3] == '=' {
        return Some((Tok::UshrAssign, 4));
    }
    if left >= 3 && v[i] == '>' && v[i + 1] == '>' && v[i + 2] == '>' {
        return Some((Tok::Ushr, 3));
    }
    if left >= 3 && v[i] == '>' && v[i + 1] == '>' && v[i + 2] == '=' {
        return Some((Tok::ShrAssign, 3));
    }
    if left >= 3 && v[i] == '<' && v[i + 1] == '<' && v[i + 2] == '=' {
        return Some((Tok::ShlAssign, 3));
    }
    if left >= 2 {
        if let Some(k) = pair_of(v[i], v[i + 1]) {
            return Some((k, 2));
        }
    }
    match single_of(v[i]) {
        Some(k) => Some((k, 1)),
        None => None,
    }
}

/// What an escaped character stands for.
pub open spec fn unescaped(c: char) -> char {
    if c == 'n' {
        '\n'
    } else if c == 't' {
        '\t'
    } else if c == 'r' {
        '\r'
    } else if c == '0' {
        '\0'
    } else {
        c
    }
}

/// What an escaped character stands for.
pub fn unescape(c: char) -> (r: char)
    ensures
        r == unescaped(c),
{
    if c == 'n' {
        '\n'
    } else if c == 't' {
        '\t'
    } else if c == 'r' {
        '\r'
    } else if c == '0' {
        '\0'
    } else {
        c
    }
}

// ── Literals ────────────────────────────────────────────────────────────────

/// A text without its underscores.
pub open spec fn without_underscores(s: Seq<char>) -> Seq<char>
    decreases s.len(),
{
    if s.len() == 0 {
        seq![]
    } else if s.last() == '_' {
        without_underscores(s.drop_last())
    } else {
        without_underscores(s.drop_last()).push(s.last())
    }
}

fn drop_underscores(v: &Vec<char>, from: usize, to: usize) -> (r: Vec<char>)
    requires
        from <= to <= v.len(),
    ensures
        r@ == without_underscores(v@.subrange(from as int, to as int)),
{
    let mut r: Vec<char> = Vec::new();
    let mut i: usize = from;
    assert(v@.subrange(from as int, from as int) =~= seq![]);
    while i < to
        invariant
            from <= i <= to <= v.len(),
            r@ == without_underscores(v@.subrange(from as int, i as int)),
        decreases to - i,
    {
        proof {
            let t = v@.subrange(from as int, i + 1);
            assert(t.drop_last() =~= v@.subrange(from as int, i as int));
            assert(t.last() == v@[i as int]);
        }
        if v[i] != '_' {
            r.push(v[i]);
        }
        i += 1;
    }
    r
}

/// What lexing a piece of the text comes to: nothing, a token, or an error. The
/// position and the line are those after the piece.
pub enum Piece {
    Skip,
    Token { kind: Tok, text: String, value: i64 },
    Fail(String),
}

pub enum PieceV {
    Skip,
    Token { kind: Tok, text: Seq<char>, value: i64 },
    Fail(Seq<char>),
}

impl View for Piece {
    type V = PieceV;

    open spec fn view(&self) -> PieceV {
        match self {
            Piece::Skip => PieceV::Skip,
            Piece::Token { kind, text, value } => PieceV::Token {
                kind: *kind,
                text: text@,
                value: *value,
            },
            Piece::Fail(m) => PieceV::Fail(m@),
        }
    }
}

/// An error on a line.
pub open spec fn failure(what: Seq<char>, line: int) -> PieceV {
    PieceV::Fail("javars: "@ + what + " on line "@ + dec(line))
}

fn fail(what: &str, line: u32) -> (r: Piece)
    ensures
        r@ == failure(what@, line as int),
{
    let mut m: String = own("javars: ");
    m.append(what);
    m.append(" on line ");
    m.append(int_text(line as i64).as_str());
    Piece::Fail(m)
}

/// A bad literal.
pub open spec fn bad_literal(kind: Seq<char>, text: Seq<char>, line: int) -> PieceV {
    failure("bad "@ + kind + " literal `"@ + text + "`"@, line)
}

fn fail_literal(kind: &str, text: &str, line: u32) -> (r: Piece)
    ensures
        r@ == bad_literal(kind@, text@, line as int),
{
    let mut m: String = own("bad ");
    m.append(kind);
    m.append(" literal `");
    m.append(text);
    m.append("`");
    fail(m.as_str(), line)
}

/// A value of 64 bits read as an `int` or as a `long`.
pub open spec fn literal_value(bits: int, long: bool) -> i64 {
    if long {
        wrapped(bits) as i64
    } else {
        wrapped_at(bits, 0x8000_0000) as i64
    }
}

fn value_of_bits(bits: u64, long: bool) -> (r: i64)
    ensures
        r == literal_value(bits as int, long),
{
    if long {
        wrap(bits as i128)
    } else {
        let low: i64 = (bits % 0x1_0000_0000) as i64;
        proof {
            vstd::arithmetic::div_mod::lemma_mod_multiples_vanish(
                bits as int / 0x1_0000_0000,
                low + 0x8000_0000,
                0x1_0000_0000,
            );
        }
        wrap_at(low, 0x8000_0000)
    }
}

/// Whether a literal with a radix prefix starts at `i`.
pub open spec fn starts_radix(s: Seq<char>, i: int) -> bool {
    at(s, i, '0') && (at(s, i + 1, 'x') || at(s, i + 1, 'X') || at(s, i + 1, 'b') || at(
        s,
        i + 1,
        'B',
    )) && i + 2 < s.len() && (is_letter(s[i + 2]) || is_digit(s[i + 2]))
}

/// The literal with a radix prefix at `i`: a bit pattern, of an `int` unless the
/// suffix makes it a `long`.
pub open spec fn radix_literal(s: Seq<char>, i: int, line: int) -> (PieceV, int) {
    let end = run_end(s, i + 2, radix_digits());
    let all = without_underscores(s.subrange(i + 2, end));
    let long = all.len() > 0 && (all.last() == 'L' || all.last() == 'l');
    let digits = if long {
        all.drop_last()
    } else {
        all
    };
    let radix = if s[i + 1] == 'x' || s[i + 1] == 'X' {
        16
    } else {
        2int
    };
    if digits.len() > 0 && all_digits(digits, radix) && number(digits, radix) <= u64::MAX {
        (
            PieceV::Token {
                kind: if long {
                    Tok::Long
                } else {
                    Tok::Int
                },
                text: seq![],
                value: literal_value(number(digits, radix), long),
            },
            end,
        )
    } else {
        (bad_literal("integer"@, digits, line), end)
    }
}

fn lex_radix(v: &Vec<char>, i: usize, line: u32) -> (r: (Piece, usize))
    requires
        starts_radix(v@, i as int),
    ensures
        (r.0@, r.1 as int) == radix_literal(v@, i as int, line as int),
        i < r.1 <= v.len(),
{
    assert(i + 2 < v.len());
    let end: usize = scan_radix(v, i + 2);
    let mut digits: Vec<char> = drop_underscores(v, i + 2, end);
    let ghost all = digits@;
    let n: usize = digits.len();
    let long: bool = n > 0 && (digits[n - 1] == 'L' || digits[n - 1] == 'l');
    if long {
        let _ = digits.pop();
        assert(digits@ =~= all.drop_last());
    }
    let radix: u64 = if v[i + 1] == 'x' || v[i + 1] == 'X' {
        16
    } else {
        2
    };
    assert(digits@.subrange(0, digits.len() as int) =~= digits@);
    match digits_value(&digits, 0, digits.len(), radix, u64::MAX) {
        Some(bits) => {
            let value: i64 = value_of_bits(bits, long);
            let kind: Tok = if long {
                Tok::Long
            } else {
                Tok::Int
            };
            (Piece::Token { kind, text: String::new(), value }, end)
        },
        None => (fail_literal("integer", text_of(&digits).as_str(), line), end),
    }
}

/// Where the digits of a decimal literal at `i` end, and whether a fraction was
/// among them.
pub open spec fn fraction_end(s: Seq<char>, i: int) -> (int, bool) {
    let a = run_end(s, i, spaced_digits());
    if at(s, a, '.') && a + 1 < s.len() && is_digit(s[a + 1]) {
        (run_end(s, a + 1, spaced_digits()), true)
    } else {
        (a, false)
    }
}

/// Where the exponent at `a` ends, if there is one.
pub open spec fn exponent_end(s: Seq<char>, a: int) -> Option<int> {
    if at(s, a, 'e') || at(s, a, 'E') {
        let j = if at(s, a + 1, '+') || at(s, a + 1, '-') {
            a + 2
        } else {
            a + 1
        };
        if j < s.len() && is_digit(s[j]) {
            Some(run_end(s, j, pure_digits()))
        } else {
            None
        }
    } else {
        None
    }
}

/// Where the number of a decimal literal at `i` ends, without a suffix, and
/// whether it is floating.
pub open spec fn number_end(s: Seq<char>, i: int) -> (int, bool) {
    let (a, fraction) = fraction_end(s, i);
    match exponent_end(s, a) {
        Some(b) => (b, true),
        None => (a, fraction),
    }
}

fn scan_number(v: &Vec<char>, i: usize) -> (r: (usize, bool))
    requires
        i <= v.len(),
    ensures
        r.0 == number_end(v@, i as int).0,
        r.1 == number_end(v@, i as int).1,
        i <= r.0 <= v.len(),
        i < v.len() && is_digit(v@[i as int]) ==> i < r.0,
{
    let a: usize = scan_spaced(v, i);
    proof {
        if i < v.len() && is_digit(v@[i as int]) {
            lemma_run_moves(v@, i as int, spaced_digits());
        }
    }
    let fraction: bool = a < v.len() && v[a] == '.' && a + 1 < v.len() && digit(v[a + 1]);
    let b: usize = if fraction {
        scan_spaced(v, a + 1)
    } else {
        a
    };
    if b < v.len() && (v[b] == 'e' || v[b] == 'E') {
        let j: usize = if is_at(v, b + 1, '+') || is_at(v, b + 1, '-') {
            b + 2
        } else {
            b + 1
        };
        if j < v.len() && digit(v[j]) {
            return (scan_digits(v, j), true);
        }
    }
    (b, fraction)
}

proof fn lemma_run_moves(s: Seq<char>, i: int, class: spec_fn(char) -> bool)
    requires
        0 <= i < s.len(),
        class(s[i]),
    ensures
        run_end(s, i, class) > i,
{
    lemma_run_ends(s, i + 1, class);
}

proof fn lemma_run_ends(s: Seq<char>, i: int, class: spec_fn(char) -> bool)
    requires
        0 <= i <= s.len(),
    ensures
        i <= run_end(s, i, class) <= s.len(),
    decreases s.len() - i,
{
    if i < s.len() && class(s[i]) {
        lemma_run_ends(s, i + 1, class);
    }
}

/// The value of a whole decimal literal: octal where it starts with a zero.
pub open spec fn whole_literal(text: Seq<char>, long: bool, line: int) -> PieceV {
    let octal = text.len() > 1 && text[0] == '0';
    let digits = if octal {
        text.skip(1)
    } else {
        text
    };
    let radix = if octal {
        8
    } else {
        10int
    };
    if digits.len() > 0 && all_digits(digits, radix) && number(digits, radix) <= i64::MAX {
        PieceV::Token {
            kind: if long {
                Tok::Long
            } else {
                Tok::Int
            },
            text: seq![],
            value: number(digits, radix) as i64,
        }
    } else if octal {
        bad_literal("octal"@, text, line)
    } else {
        bad_literal("integer"@, text, line)
    }
}

fn lex_whole(text: &Vec<char>, long: bool, line: u32) -> (r: Piece)
    ensures
        r@ == whole_literal(text@, long, line as int),
{
    let octal: bool = text.len() > 1 && text[0] == '0';
    let from: usize = if octal {
        1
    } else {
        0
    };
    let radix: u64 = if octal {
        8
    } else {
        10
    };
    proof {
        assert(text@.subrange(0, text.len() as int) =~= text@);
        if octal {
            assert(text@.subrange(1, text.len() as int) =~= text@.skip(1));
        }
    }
    match digits_value(text, from, text.len(), radix, i64::MAX as u64) {
        Some(n) => {
            let kind: Tok = if long {
                Tok::Long
            } else {
                Tok::Int
            };
            Piece::Token { kind, text: String::new(), value: n as i64 }
        },
        None => {
            if octal {
                fail_literal("octal", text_of(text).as_str(), line)
            } else {
                fail_literal("integer", text_of(text).as_str(), line)
            }
        },
    }
}

/// Whether `s` has one of two characters at `i`.
pub open spec fn either(s: Seq<char>, i: int, a: char, b: char) -> bool {
    at(s, i, a) || at(s, i, b)
}

/// The decimal literal at `i`. A floating one keeps its text.
pub open spec fn decimal_token(s: Seq<char>, i: int, line: int) -> (PieceV, int) {
    let (end, point) = number_end(s, i);
    let narrow = either(s, end, 'f', 'F');
    let wide = either(s, end, 'd', 'D');
    let long = either(s, end, 'l', 'L');
    let next = if narrow || wide || long {
        end + 1
    } else {
        end
    };
    let text = without_underscores(s.subrange(i, end));
    if point || narrow || wide {
        (
            PieceV::Token {
                kind: if narrow {
                    Tok::Float32
                } else {
                    Tok::Float
                },
                text,
                value: 0,
            },
            next,
        )
    } else {
        (whole_literal(text, long, line), next)
    }
}

fn lex_decimal(v: &Vec<char>, i: usize, line: u32) -> (r: (Piece, usize))
    requires
        i < v.len(),
        is_digit(v@[i as int]),
    ensures
        (r.0@, r.1 as int) == decimal_token(v@, i as int, line as int),
        i < r.1 <= v.len(),
{
    let (end, point): (usize, bool) = scan_number(v, i);
    let narrow: bool = is_at(v, end, 'f') || is_at(v, end, 'F');
    let wide: bool = is_at(v, end, 'd') || is_at(v, end, 'D');
    let long: bool = is_at(v, end, 'l') || is_at(v, end, 'L');
    let next: usize = if narrow || wide || long {
        end + 1
    } else {
        end
    };
    let text: Vec<char> = drop_underscores(v, i, end);
    if point || narrow || wide {
        let kind: Tok = if narrow {
            Tok::Float32
        } else {
            Tok::Float
        };
        (Piece::Token { kind, text: text_of(&text), value: 0 }, next)
    } else {
        (lex_whole(&text, long, line), next)
    }
}

/// The number of the line after one. The greatest number stands for all lines
/// from there on.
pub open spec fn next_line(line: int) -> int {
    if line < u32::MAX {
        line + 1
    } else {
        line
    }
}

fn line_after(line: u32) -> (r: u32)
    ensures
        r == next_line(line as int),
{
    if line < u32::MAX {
        line + 1
    } else {
        line
    }
}

/// The characters of a string literal from `i` to the closing quote: the text,
/// where it ends, and the line. `None` where the quote is missing; the line is
/// then the one it was missed on.
pub open spec fn string_body(s: Seq<char>, i: int, line: int, held: Seq<char>) -> (
    Option<(Seq<char>, int)>,
    int,
)
    decreases s.len() - i,
{
    if i < 0 || i >= s.len() {
        (None, line)
    } else if s[i] == '"' {
        (Some((held, i)), line)
    } else if s[i] == '\\' && i + 1 < s.len() {
        string_body(s, i + 2, line, held.push(unescaped(s[i + 1])))
    } else if s[i] == '\n' {
        string_body(s, i + 1, next_line(line), held.push(s[i]))
    } else {
        string_body(s, i + 1, line, held.push(s[i]))
    }
}

/// A piece of the text: what it comes to, where it ends, and the line there.
pub open spec fn string_token(s: Seq<char>, i: int, line: int) -> (PieceV, int, int) {
    match string_body(s, i + 1, line, seq![]) {
        (Some((text, end)), l) => (
            PieceV::Token { kind: Tok::Str, text, value: 0 },
            end + 1,
            l,
        ),
        (None, l) => (failure("unterminated string literal"@, l), s.len() as int, l),
    }
}

fn lex_string(v: &Vec<char>, start: usize, from: u32) -> (r: (Piece, usize, u32))
    requires
        start < v.len(),
    ensures
        (r.0@, r.1 as int, r.2 as int) == string_token(v@, start as int, from as int),
        start < r.1 <= v.len(),
{
    let mut held: Vec<char> = Vec::new();
    let mut i: usize = start + 1;
    let mut line: u32 = from;
    assert(held@ =~= seq![]);
    while i < v.len() && v[i] != '"'
        invariant
            start < i <= v.len(),
            string_body(v@, start + 1, from as int, seq![]) == string_body(
                v@,
                i as int,
                line as int,
                held@,
            ),
        decreases v.len() - i,
    {
        if v[i] == '\\' && i + 1 < v.len() {
            held.push(unescape(v[i + 1]));
            i += 2;
        } else {
            if v[i] == '\n' {
                line = line_after(line);
            }
            held.push(v[i]);
            i += 1;
        }
    }
    if i >= v.len() {
        return (fail("unterminated string literal", line), v.len(), line);
    }
    (Piece::Token { kind: Tok::Str, text: text_of(&held), value: 0 }, i + 1, line)
}

/// The `char` literal at `i`: one character between quotes, or an escaped one,
/// which is of the ASCII range.
pub open spec fn char_token(s: Seq<char>, i: int, line: int) -> (PieceV, int) {
    let escaped = at(s, i + 1, '\\');
    let k = if escaped {
        i + 2
    } else {
        i + 1
    };
    if at(s, k + 1, '\'') && (escaped ==> s[k] <= '\x7f') {
        (
            PieceV::Token {
                kind: Tok::Char,
                text: seq![],
                value: (if escaped {
                    unescaped(s[k])
                } else {
                    s[k]
                } as int) as i64,
            },
            k + 2,
        )
    } else {
        (failure("unterminated char literal"@, line), s.len() as int)
    }
}

fn lex_char(v: &Vec<char>, i: usize, line: u32) -> (r: (Piece, usize))
    requires
        i < v.len(),
    ensures
        (r.0@, r.1 as int) == char_token(v@, i as int, line as int),
        i < r.1 <= v.len(),
{
    let escaped: bool = is_at(v, i + 1, '\\');
    let k: usize = if escaped {
        i + 2
    } else {
        i + 1
    };
    if k < v.len() && is_at(v, k + 1, '\'') && (!escaped || v[k] <= '\x7f') {
        let c: char = if escaped {
            unescape(v[k])
        } else {
            v[k]
        };
        (Piece::Token { kind: Tok::Char, text: String::new(), value: code_of(c) as i64 }, k + 2)
    } else {
        (fail("unterminated char literal", line), v.len())
    }
}

/// Where a block comment whose text starts at `i` ends, and the line there. One
/// that is not closed runs to the end; its last character closes no line.
pub open spec fn block_end(s: Seq<char>, i: int, line: int) -> (int, int)
    decreases s.len() - i,
{
    if i < 0 || i + 1 >= s.len() {
        (s.len() as int, line)
    } else if s[i] == '*' && s[i + 1] == '/' {
        (i + 2, line)
    } else if s[i] == '\n' {
        block_end(s, i + 1, next_line(line))
    } else {
        block_end(s, i + 1, line)
    }
}

fn skip_block(v: &Vec<char>, start: usize, from: u32) -> (r: (usize, u32))
    requires
        start <= v.len(),
    ensures
        r.0 == block_end(v@, start as int, from as int).0,
        r.1 == block_end(v@, start as int, from as int).1,
        start <= r.0 <= v.len(),
{
    let mut i: usize = start;
    let mut line: u32 = from;
    while i < v.len() && i + 1 < v.len() && !(v[i] == '*' && v[i + 1] == '/')
        invariant
            start <= i <= v.len(),
            block_end(v@, start as int, from as int) == block_end(v@, i as int, line as int),
        decreases v.len() - i,
    {
        if v[i] == '\n' {
            line = line_after(line);
        }
        i += 1;
    }
    if i >= v.len() || i + 1 >= v.len() {
        (v.len(), line)
    } else {
        (i + 2, line)
    }
}

/// The first byte of a character's UTF-8 form, as a character: what a message
/// names a character by.
pub open spec fn lead_char(c: char) -> char {
    let n = c as int;
    if n < 0x80 {
        c
    } else if n < 0x800 {
        (0xc0 + n / 0x40) as char
    } else if n < 0x1_0000 {
        (0xe0 + n / 0x1000) as char
    } else {
        (0xf0 + n / 0x4_0000) as char
    }
}

fn lead_of(c: char) -> (r: char)
    ensures
        r == lead_char(c),
{
    let n: u32 = code_of(c);
    let lead: u32 = if n < 0x80 {
        n
    } else if n < 0x800 {
        0xc0 + n / 0x40
    } else if n < 0x1_0000 {
        0xe0 + n / 0x1000
    } else {
        0xf0 + n / 0x4_0000
    };
    match char::from_u32(lead) {
        Some(d) => d,
        None => c,
    }
}

/// The operator or punctuation at `i`, or the error.
pub open spec fn symbol_token(s: Seq<char>, i: int, line: int) -> (PieceV, int) {
    match symbol_at(s, i) {
        Some((kind, n)) => (PieceV::Token { kind, text: seq![], value: 0 }, i + n),
        None => (
            failure("unexpected character `"@.push(lead_char(s[i])) + "`"@, line),
            s.len() as int,
        ),
    }
}

/// The piece of the text at `i`, which is in it: what it comes to, where it
/// ends, and the line there.
pub open spec fn piece_at(s: Seq<char>, i: int, line: int) -> (PieceV, int, int) {
    let c = s[i];
    if c == '\n' {
        (PieceV::Skip, i + 1, next_line(line))
    } else if is_space(c) {
        (PieceV::Skip, i + 1, line)
    } else if c == '/' && at(s, i + 1, '/') {
        (PieceV::Skip, run_end(s, i + 2, in_line()), line)
    } else if c == '/' && at(s, i + 1, '*') {
        let (end, l) = block_end(s, i + 2, line);
        (PieceV::Skip, end, l)
    } else if starts_word(c) {
        let end = run_end(s, i, words());
        let w = s.subrange(i, end);
        let kind = word_kind(w);
        (
            PieceV::Token {
                kind,
                text: if kind == Tok::Ident {
                    w
                } else {
                    seq![]
                },
                value: 0,
            },
            end,
            line,
        )
    } else if starts_radix(s, i) {
        let (p, end) = radix_literal(s, i, line);
        (p, end, line)
    } else if is_digit(c) {
        let (p, end) = decimal_token(s, i, line);
        (p, end, line)
    } else if c == '"' {
        string_token(s, i, line)
    } else if c == '\'' {
        let (p, end) = char_token(s, i, line);
        (p, end, line)
    } else {
        let (p, end) = symbol_token(s, i, line);
        (p, end, line)
    }
}

fn lex_word(v: &Vec<char>, i: usize) -> (r: (Piece, usize))
    requires
        i < v.len(),
        starts_word(v@[i as int]),
    ensures
        r.1 == run_end(v@, i as int, words()),
        i < r.1 <= v.len(),
        ({
            let w = v@.subrange(i as int, r.1 as int);
            r.0@ == PieceV::Token {
                kind: word_kind(w),
                text: if word_kind(w) == Tok::Ident {
                    w
                } else {
                    seq![]
                },
                value: 0,
            }
        }),
{
    proof {
        lemma_run_moves(v@, i as int, words());
    }
    let end: usize = scan_word(v, i);
    let w: String = text_between(v, i, end);
    let kind: Tok = keyword_or_ident(w.as_str());
    if kind == Tok::Ident {
        (Piece::Token { kind, text: w, value: 0 }, end)
    } else {
        (Piece::Token { kind, text: String::new(), value: 0 }, end)
    }
}

fn lex_operator(v: &Vec<char>, i: usize, line: u32) -> (r: (Piece, usize))
    requires
        i < v.len(),
    ensures
        (r.0@, r.1 as int) == symbol_token(v@, i as int, line as int),
        i < r.1 <= v.len(),
{
    match lex_symbol(v, i) {
        Some((kind, n)) => (Piece::Token { kind, text: String::new(), value: 0 }, i + n),
        None => {
            let mut m: String = own("unexpected character `");
            m.push(lead_of(v[i]));
            m.append("`");
            (fail(m.as_str(), line), v.len())
        },
    }
}

fn lex_piece(v: &Vec<char>, i: usize, line: u32) -> (r: (Piece, usize, u32))
    requires
        i < v.len(),
    ensures
        (r.0@, r.1 as int, r.2 as int) == piece_at(v@, i as int, line as int),
        i < r.1 <= v.len(),
{
    let c: char = v[i];
    if c == '\n' {
        (Piece::Skip, i + 1, line_after(line))
    } else if space(c) {
        (Piece::Skip, i + 1, line)
    } else if c == '/' && is_at(v, i + 1, '/') {
        (Piece::Skip, scan_line(v, i + 2), line)
    } else if c == '/' && is_at(v, i + 1, '*') {
        let (end, l): (usize, u32) = skip_block(v, i + 2, line);
        (Piece::Skip, end, l)
    } else if word_start(c) {
        let (p, end): (Piece, usize) = lex_word(v, i);
        (p, end, line)
    } else if c == '0' && (is_at(v, i + 1, 'x') || is_at(v, i + 1, 'X') || is_at(v, i + 1, 'b')
        || is_at(v, i + 1, 'B')) && i + 2 < v.len() && (letter(v[i + 2]) || digit(v[i + 2])) {
        let (p, end): (Piece, usize) = lex_radix(v, i, line);
        (p, end, line)
    } else if digit(c) {
        let (p, end): (Piece, usize) = lex_decimal(v, i, line);
        (p, end, line)
    } else if c == '"' {
        lex_string(v, i, line)
    } else if c == '\'' {
        let (p, end): (Piece, usize) = lex_char(v, i, line);
        (p, end, line)
    } else {
        let (p, end): (Piece, usize) = lex_operator(v, i, line);
        (p, end, line)
    }
}

/// The tokens of a text from `i` on, which is on `line`, after those in `done`:
/// the pieces one after the other, and the end of the text.
pub open spec fn lexed(s: Seq<char>, i: int, line: int, done: Seq<TokenV>) -> Result<
    Seq<TokenV>,
    Seq<char>,
>
    decreases s.len() - i,
{
    if i < 0 || i >= s.len() {
        Ok(done.push(TokenV { kind: Tok::Eof, text: seq![], value: 0, line: line as u32 }))
    } else {
        let (p, next, l) = piece_at(s, i, line);
        match p {
            PieceV::Fail(m) => Err(m),
            PieceV::Skip => if next <= i || next > s.len() {
                Err(seq![])
            } else {
                lexed(s, next, l, done)
            },
            PieceV::Token { kind, text, value } => if next <= i || next > s.len() {
                Err(seq![])
            } else {
                lexed(s, next, l, done.push(TokenV { kind, text, value, line: l as u32 }))
            },
        }
    }
}

/// The tokens of a source text.
pub open spec fn tokens_of(s: Seq<char>) -> Result<Seq<TokenV>, Seq<char>> {
    lexed(s, 0, 1, seq![])
}

/// Lex a source text. The last token marks its end.
pub fn lex(src: &str) -> (r: Result<Vec<Token>, String>)
    ensures
        match (r, tokens_of(src@)) {
            (Ok(x), Ok(y)) => token_views(x@) == y,
            (Err(x), Err(y)) => x@ == y,
            _ => false,
        },
        r matches Ok(x) ==> ends_once(token_views(x@)),
{
    proof {
        tokens_end_once(src@);
    }
    let v: Vec<char> = chars_of(src);
    let mut out: Vec<Token> = Vec::new();
    let mut i: usize = 0;
    let mut line: u32 = 1;
    assert(token_views(out@) =~= seq![]);
    while i < v.len()
        invariant
            v@ == src@,
            i <= v.len(),
            1 <= line,
            tokens_of(v@) == lexed(v@, i as int, line as int, token_views(out@)),
        decreases v.len() - i,
    {
        let (p, next, l): (Piece, usize, u32) = lex_piece(&v, i, line);
        proof {
            lemma_lines(v@, i as int, line as int);
        }
        match p {
            Piece::Fail(m) => {
                return Err(m);
            },
            Piece::Skip => {},
            Piece::Token { kind, text, value } => {
                let ghost before = token_views(out@);
                out.push(Token { kind, text, value, line: l });
                assert(token_views(out@) =~= before.push(
                    TokenV { kind, text: text@, value, line: l },
                ));
            },
        }
        i = next;
        line = l;
    }
    let ghost before = token_views(out@);
    out.push(Token { kind: Tok::Eof, text: String::new(), value: 0, line });
    assert(token_views(out@) =~= before.push(
        TokenV { kind: Tok::Eof, text: seq![], value: 0, line },
    ));
    Ok(out)
}

proof fn lemma_block_lines(s: Seq<char>, i: int, line: int)
    ensures
        block_end(s, i, line).1 >= line,
    decreases s.len() - i,
{
    if 0 <= i && i + 1 < s.len() && !(s[i] == '*' && s[i + 1] == '/') {
        lemma_block_lines(s, i + 1, next_line(line));
        lemma_block_lines(s, i + 1, line);
    }
}

proof fn lemma_string_lines(s: Seq<char>, i: int, line: int, held: Seq<char>)
    ensures
        string_body(s, i, line, held).1 >= line,
    decreases s.len() - i,
{
    if 0 <= i < s.len() && s[i] != '"' {
        if s[i] == '\\' && i + 1 < s.len() {
            lemma_string_lines(s, i + 2, line, held.push(unescaped(s[i + 1])));
        } else {
            lemma_string_lines(s, i + 1, next_line(line), held.push(s[i]));
            lemma_string_lines(s, i + 1, line, held.push(s[i]));
        }
    }
}

/// Lines never go back.
proof fn lemma_lines(s: Seq<char>, i: int, line: int)
    requires
        0 <= i < s.len(),
    ensures
        piece_at(s, i, line).2 >= line,
{
    lemma_block_lines(s, i + 2, line);
    lemma_string_lines(s, i + 1, line, seq![]);
}

proof fn lemma_no_end(s: Seq<char>, i: int, line: int)
    requires
        0 <= i < s.len(),
    ensures
        piece_at(s, i, line).0 matches PieceV::Token { kind, .. } ==> kind != Tok::Eof,
{
}

proof fn lemma_lexed(s: Seq<char>, i: int, line: int, done: Seq<TokenV>)
    requires
        forall|k: int| 0 <= k < done.len() ==> (#[trigger] done[k]).kind != Tok::Eof,
    ensures
        lexed(s, i, line, done) matches Ok(t) ==> ends_once(t),
    decreases s.len() - i,
{
    if 0 <= i < s.len() {
        lemma_no_end(s, i, line);
        let (p, next, l) = piece_at(s, i, line);
        if i < next <= s.len() {
            match p {
                PieceV::Fail(_) => {},
                PieceV::Skip => {
                    lemma_lexed(s, next, l, done);
                },
                PieceV::Token { kind, text, value } => {
                    lemma_lexed(
                        s,
                        next,
                        l,
                        done.push(TokenV { kind, text, value, line: l as u32 }),
                    );
                },
            }
        }
    }
}

/// Whether the end is marked by the last token, and by no other.
pub open spec fn ends_once(t: Seq<TokenV>) -> bool {
    t.len() > 0 && t.last().kind == Tok::Eof && forall|k: int|
        0 <= k < t.len() - 1 ==> (#[trigger] t[k]).kind != Tok::Eof
}

/// The tokens of a text end with the mark of its end, and hold no other.
pub proof fn tokens_end_once(s: Seq<char>)
    ensures
        tokens_of(s) matches Ok(t) ==> ends_once(t),
{
    lemma_lexed(s, 0, 1, seq![]);
}

/// A text without anything but white space has no token but the end.
pub proof fn blank_text_has_no_tokens(s: Seq<char>, i: int, line: int)
    requires
        0 <= i <= s.len(),
        forall|k: int| i <= k < s.len() ==> is_space(#[trigger] s[k]),
    ensures
        lexed(s, i, line, seq![]) matches Ok(t) && t.len() == 1 && t[0].kind == Tok::Eof,
    decreases s.len() - i,
{
    if i < s.len() {
        assert(is_space(s[i]));
        blank_text_has_no_tokens(s, i + 1, next_line(line));
        blank_text_has_no_tokens(s, i + 1, line);
    }
}

} // verus!
