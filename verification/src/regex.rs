//! `java.util.regex` patterns.
//!
//! A Java pattern and the engine's share most of their syntax but not their
//! defaults. What differs is rewritten, and what has no equivalent is refused by
//! name: an unsupported construct is an error, never another answer.
use vstd::prelude::*;

use crate::host::decimal::is_dec;
use crate::host::render::scalar;
use crate::prelude::opt_view;
use crate::text::{
    begins, begins_with, char_index, chars_of, code_of, dec, digit_value, find_char, own,
    parse_u64, same, size_text, text_between, text_of, unsigned, views,
};

verus! {

// ── Rewriting ───────────────────────────────────────────────────────────────

/// The flags in force at a point of a pattern.
#[derive(Clone, Copy, PartialEq, Eq, Structural)]
pub struct Flags {
    /// `(?i)`: ASCII case folding, which is written out into the pattern.
    pub ci: bool,
    /// `(?s)`: `.` matches line terminators.
    pub dotall: bool,
}

pub open spec fn default_flags() -> Flags {
    Flags { ci: false, dotall: false }
}

/// The refusal of a construct.
pub open spec fn unsupported_text(construct: Seq<char>, pattern: Seq<char>) -> Seq<char> {
    "javars supports no equivalent of "@ + construct + " near index 0\n"@ + pattern
}

/// The refusal of a construct, in the shape of `PatternSyntaxException`.
pub fn unsupported(construct: &str, pattern: &str) -> (r: String)
    ensures
        r@ == unsupported_text(construct@, pattern@),
{
    let mut r: String = own("javars supports no equivalent of ");
    r.append(construct);
    r.append(" near index 0\n");
    r.append(pattern);
    r
}

/// `before`, then the character, then `after`.
pub open spec fn around(before: Seq<char>, c: char, after: Seq<char>) -> Seq<char> {
    before.push(c) + after
}

fn unsupported_char(before: &str, c: char, after: &str, pattern: &str) -> (r: String)
    ensures
        r@ == unsupported_text(around(before@, c, after@), pattern@),
{
    let mut s: String = own(before);
    s.push(c);
    s.append(after);
    unsupported(s.as_str(), pattern)
}

pub open spec fn ascii_letter(c: char) -> bool {
    'a' <= c <= 'z' || 'A' <= c <= 'Z'
}

/// The other ASCII case of a letter; any other character is itself.
pub open spec fn flipped(c: char) -> char {
    if 'A' <= c <= 'Z' {
        (c as int + 32) as char
    } else if 'a' <= c <= 'z' {
        (c as int - 32) as char
    } else {
        c
    }
}

fn is_letter(c: char) -> (r: bool)
    ensures
        r == ascii_letter(c),
{
    ('a' <= c && c <= 'z') || ('A' <= c && c <= 'Z')
}

/// The other ASCII case of a letter.
pub fn flip_case(c: char) -> (r: char)
    ensures
        r == flipped(c),
{
    if 'A' <= c && c <= 'Z' {
        (code_of(c) as u8 + 32) as char
    } else if 'a' <= c && c <= 'z' {
        (code_of(c) as u8 - 32) as char
    } else {
        c
    }
}

/// Flipping a letter's case twice gives the letter back.
pub proof fn flipping_twice_is_identity(c: char)
    ensures
        flipped(flipped(c)) == c,
{
}

/// The characters the engine reads as syntax.
pub open spec fn special(c: char) -> bool {
    c == '\\' || c == '.' || c == '+' || c == '*' || c == '?' || c == '(' || c == ')' || c == '|'
        || c == '[' || c == ']' || c == '{' || c == '}' || c == '^' || c == '$' || c == '#'
}

/// `fancy_regex::escape` of one character: a backslash goes before a character
/// the engine reads as syntax, and any other stands for itself.
#[verifier::external_body]
fn escape_char(c: char) -> (r: String)
    ensures
        r@ == (if special(c) {
            seq!['\\', c]
        } else {
            seq![c]
        }),
{
    fancy_regex::escape(c.to_string().as_str()).into_owned()
}

/// One literal character, escaped for its position; a letter in both cases
/// where case is folded. `quoted` is set where even a metacharacter is literal.
pub open spec fn literal(c: char, in_class: bool, ci: bool, quoted: bool) -> Seq<char> {
    if ci && ascii_letter(c) {
        if in_class {
            seq![c, flipped(c)]
        } else {
            seq!['[', c, flipped(c), ']']
        }
    } else if quoted && special(c) {
        seq!['\\', c]
    } else {
        seq![c]
    }
}

/// Emit one literal character.
pub fn push_literal(out: &mut String, c: char, in_class: bool, ci: bool, quoted: bool)
    ensures
        final(out)@ == old(out)@ + literal(c, in_class, ci, quoted),
{
    if ci && is_letter(c) {
        if !in_class {
            out.push('[');
        }
        out.push(c);
        out.push(flip_case(c));
        if !in_class {
            out.push(']');
        }
        assert(out@ =~= old(out)@ + literal(c, in_class, ci, quoted));
        return ;
    }
    if quoted {
        out.append(escape_char(c).as_str());
    } else {
        out.push(c);
    }
    assert(out@ =~= old(out)@ + literal(c, in_class, ci, quoted));
}

/// Literal characters in a row.
pub open spec fn literals(s: Seq<char>, in_class: bool, ci: bool) -> Seq<char>
    decreases s.len(),
{
    if s.len() == 0 {
        seq![]
    } else {
        literals(s.drop_last(), in_class, ci) + literal(s.last(), in_class, ci, true)
    }
}

/// A POSIX class as its position needs it: bare inside a class, bracketed
/// outside, nested where it is negated.
pub open spec fn posix_text(posix: Seq<char>, negated: bool, in_class: bool) -> Seq<char> {
    if negated {
        "[^"@ + posix + "]"@
    } else if in_class {
        posix
    } else {
        "["@ + posix + "]"@
    }
}

/// A POSIX class as its position needs it.
pub fn posix_class(posix: &str, negated: bool, in_class: bool) -> (r: String)
    ensures
        r@ == posix_text(posix@, negated, in_class),
{
    if !negated && in_class {
        return own(posix);
    }
    let mut r: String = own(
        if negated {
            "[^"
        } else {
            "["
        },
    );
    r.append(posix);
    r.append("]");
    r
}

/// A bracketed class negated.
pub open spec fn negated_class(class: Seq<char>) -> Seq<char> {
    "[^"@ + class.skip(1)
}

/// A bracketed class negated.
pub fn negate_class(class: &str) -> (r: String)
    requires
        class@.len() > 0,
    ensures
        r@ == negated_class(class@),
{
    let v: Vec<char> = chars_of(class);
    let mut r: String = own("[^");
    let rest: String = text_between(&v, 1, v.len());
    assert(rest@ =~= class@.skip(1));
    r.append(rest.as_str());
    r
}

/// A character and the position past its code point.
pub open spec fn code_point(cs: Seq<char>, i: int, kind: char, pattern: Seq<char>) -> Result<
    (char, int),
    Seq<char>,
> {
    let braced = i < cs.len() && cs[i] == '{';
    let close = char_index(cs, '}', i + 1);
    let want = if kind == 'u' {
        4int
    } else {
        2int
    };
    if braced && close < 0 {
        Err(unsupported_text(around("\\"@, kind, "{...} with no closing brace"@), pattern))
    } else if !braced && i + want > cs.len() {
        Err(unsupported_text(around("a truncated \\"@, kind, " escape"@), pattern))
    } else {
        let digits = if braced {
            cs.subrange(i + 1, close)
        } else {
            cs.subrange(i, i + want)
        };
        let next = if braced {
            close + 1
        } else {
            i + want
        };
        match unsigned(digits, 16) {
            Some(n) if scalar(n) is Some => Ok((scalar(n)->0, next)),
            _ => Err(
                unsupported_text(
                    around("\\"@, kind, " naming no character (`"@) + digits + "`)"@,
                    pattern,
                ),
            ),
        }
    }
}

/// Read Java's `\uHHHH`, `\xHH` or `\x{…}`.
pub fn read_code_point(cs: &Vec<char>, i: usize, kind: char, pattern: &str) -> (r: Result<
    (char, usize),
    String,
>)
    requires
        i <= cs.len(),
    ensures
        match (r, code_point(cs@, i as int, kind, pattern@)) {
            (Ok(x), Ok(y)) => x.0 == y.0 && x.1 == y.1 && i <= x.1 <= cs.len(),
            (Err(x), Err(y)) => x@ == y,
            _ => false,
        },
{
    let from: usize;
    let to: usize;
    let next: usize;
    if i < cs.len() && cs[i] == '{' {
        match find_char(cs, '}', i + 1) {
            None => {
                return Err(unsupported_char("\\", kind, "{...} with no closing brace", pattern));
            },
            Some(j) => {
                from = i + 1;
                to = j;
                next = j + 1;
            },
        }
    } else {
        let want: usize = if kind == 'u' {
            4
        } else {
            2
        };
        if want > cs.len() - i {
            return Err(unsupported_char("a truncated \\", kind, " escape", pattern));
        }
        from = i;
        to = i + want;
        next = i + want;
    }
    if let Some(n) = parse_u64(cs, from, to, 16, 0xffff_ffff) {
        if let Some(c) = char::from_u32(n as u32) {
            return Ok((c, next));
        }
    }
    let digits: String = text_between(cs, from, to);
    let mut s: String = own("\\");
    s.push(kind);
    s.append(" naming no character (`");
    s.append(digits.as_str());
    s.append("`)");
    Err(unsupported(s.as_str(), pattern))
}

/// The name in a `\p{…}`, or the single letter of the short form, and the
/// position past it.
pub open spec fn braced_name(cs: Seq<char>, i: int, kind: char, pattern: Seq<char>) -> Result<
    (Seq<char>, int),
    Seq<char>,
> {
    let close = char_index(cs, '}', i + 1);
    if i >= cs.len() {
        Err(unsupported_text(around("\\"@, kind, " with no name"@), pattern))
    } else if cs[i] != '{' {
        Ok((seq![cs[i]], i + 1))
    } else if close < 0 {
        Err(unsupported_text(around("\\"@, kind, "{...} with no closing brace"@), pattern))
    } else {
        Ok((cs.subrange(i + 1, close), close + 1))
    }
}

/// Read the name in a `\p{…}`.
pub fn read_braced(cs: &Vec<char>, i: usize, kind: char, pattern: &str) -> (r: Result<
    (String, usize),
    String,
>)
    requires
        i <= cs.len(),
    ensures
        match (r, braced_name(cs@, i as int, kind, pattern@)) {
            (Ok(x), Ok(y)) => x.0@ == y.0 && x.1 == y.1 && i < x.1 <= cs.len(),
            (Err(x), Err(y)) => x@ == y,
            _ => false,
        },
{
    if i >= cs.len() {
        return Err(unsupported_char("\\", kind, " with no name", pattern));
    }
    if cs[i] != '{' {
        let mut s: String = String::new();
        s.push(cs[i]);
        assert(s@ =~= seq![cs@[i as int]]);
        return Ok((s, i + 1));
    }
    match find_char(cs, '}', i + 1) {
        None => Err(unsupported_char("\\", kind, "{...} with no closing brace", pattern)),
        Some(j) => Ok((text_between(cs, i + 1, j), j + 1)),
    }
}

/// The engine's POSIX class for a Java POSIX name.
pub open spec fn posix_name(name: Seq<char>) -> Option<Seq<char>> {
    if name == "Alpha"@ {
        Some("alpha"@)
    } else if name == "Digit"@ {
        Some("digit"@)
    } else if name == "Alnum"@ {
        Some("alnum"@)
    } else if name == "Upper"@ {
        Some("upper"@)
    } else if name == "Lower"@ {
        Some("lower"@)
    } else if name == "Space"@ {
        Some("space"@)
    } else if name == "Punct"@ {
        Some("punct"@)
    } else if name == "XDigit"@ {
        Some("xdigit"@)
    } else if name == "ASCII"@ {
        Some("ascii"@)
    } else if name == "Blank"@ {
        Some("blank"@)
    } else if name == "Cntrl"@ {
        Some("cntrl"@)
    } else if name == "Graph"@ {
        Some("graph"@)
    } else if name == "Print"@ {
        Some("print"@)
    } else {
        None
    }
}

fn posix_of(name: &str) -> (r: Option<&'static str>)
    ensures
        match r {
            Some(c) => posix_name(name@) == Some(c@),
            None => posix_name(name@) is None,
        },
{
    if same(name, "Alpha") {
        Some("alpha")
    } else if same(name, "Digit") {
        Some("digit")
    } else if same(name, "Alnum") {
        Some("alnum")
    } else if same(name, "Upper") {
        Some("upper")
    } else if same(name, "Lower") {
        Some("lower")
    } else if same(name, "Space") {
        Some("space")
    } else if same(name, "Punct") {
        Some("punct")
    } else if same(name, "XDigit") {
        Some("xdigit")
    } else if same(name, "ASCII") {
        Some("ascii")
    } else if same(name, "Blank") {
        Some("blank")
    } else if same(name, "Cntrl") {
        Some("cntrl")
    } else if same(name, "Graph") {
        Some("graph")
    } else if same(name, "Print") {
        Some("print")
    } else {
        None
    }
}

/// A property class: a POSIX name becomes the engine's, `Is` is dropped from a
/// script or category, and blocks and `Character` predicates are refused.
pub open spec fn property(kind: char, name: Seq<char>, pattern: Seq<char>) -> Result<
    Seq<char>,
    Seq<char>,
> {
    match posix_name(name) {
        Some(c) => Ok(
            if kind == 'p' {
                "[[:"@ + c + ":]]"@
            } else {
                "[[:^"@ + c + ":]]"@
            },
        ),
        None => if begins(name, "In"@) {
            Err(
                unsupported_text(
                    around("\\"@, kind, "{"@) + name + "} (Unicode block)"@,
                    pattern,
                ),
            )
        } else if begins(name, "java"@) {
            Err(
                unsupported_text(
                    around("\\"@, kind, "{"@) + name + "} (java.lang.Character predicate)"@,
                    pattern,
                ),
            )
        } else {
            Ok(
                around("\\"@, kind, "{"@) + (if begins(name, "Is"@) {
                    name.skip(2)
                } else {
                    name
                }) + "}"@,
            )
        },
    }
}

/// Map a Java property name to the engine's spelling.
pub fn translate_property(kind: char, name: &str, pattern: &str) -> (r: Result<String, String>)
    ensures
        match (r, property(kind, name@, pattern@)) {
            (Ok(x), Ok(y)) => x@ == y,
            (Err(x), Err(y)) => x@ == y,
            _ => false,
        },
{
    if let Some(c) = posix_of(name) {
        let mut r: String = own(
            if kind == 'p' {
                "[[:"
            } else {
                "[[:^"
            },
        );
        r.append(c);
        r.append(":]]");
        return Ok(r);
    }
    let mut s: String = own("\\");
    s.push(kind);
    s.append("{");
    if begins_with(name, "In") {
        s.append(name);
        s.append("} (Unicode block)");
        return Err(unsupported(s.as_str(), pattern));
    }
    if begins_with(name, "java") {
        s.append(name);
        s.append("} (java.lang.Character predicate)");
        return Err(unsupported(s.as_str(), pattern));
    }
    if begins_with(name, "Is") {
        proof {
            reveal_strlit("Is");
        }
        let v: Vec<char> = chars_of(name);
        let rest: String = text_between(&v, 2, v.len());
        assert(rest@ =~= name@.skip(2));
        s.append(rest.as_str());
    } else {
        s.append(name);
    }
    s.append("}");
    Ok(s)
}

pub open spec fn flag_letter(c: char) -> bool {
    ascii_letter(c) || c == '-'
}

/// The end of the run of flag letters that begins at `i`.
pub open spec fn letters_end(cs: Seq<char>, i: int) -> int
    decreases cs.len() - i,
{
    if 0 <= i < cs.len() && flag_letter(cs[i]) {
        letters_end(cs, i + 1)
    } else {
        i
    }
}

/// Where an inline flag group's letters end, when there is one at `i`: at least
/// one letter, then `)` or `:`.
pub open spec fn flag_group(cs: Seq<char>, i: int) -> Option<int> {
    let e = letters_end(cs, i);
    if e > i && e < cs.len() && (cs[e] == ')' || cs[e] == ':') {
        Some(e)
    } else {
        None
    }
}

/// Where an inline flag group's letters end, when there is one at `i`.
pub fn inline_flags(cs: &Vec<char>, i: usize) -> (r: Option<usize>)
    ensures
        match (r, flag_group(cs@, i as int)) {
            (Some(e), Some(f)) => e == f && i < e < cs.len() && (cs@[e as int] == ')'
                || cs@[e as int] == ':'),
            (None, None) => true,
            _ => false,
        },
{
    let mut e: usize = i;
    while e < cs.len() && (is_letter(cs[e]) || cs[e] == '-')
        invariant
            i <= e,
            e <= cs.len() || e == i,
            letters_end(cs@, i as int) == letters_end(cs@, e as int),
        decreases cs.len() - e,
    {
        e += 1;
    }
    if e > i && e < cs.len() && (cs[e] == ')' || cs[e] == ':') {
        Some(e)
    } else {
        None
    }
}

/// The flags after a run of flag letters, or the letter that has no
/// equivalent. After a `-` the letters switch off.
pub open spec fn flags_after(s: Seq<char>, i: int, on: bool, f: Flags) -> Result<Flags, char>
    decreases s.len() - i,
{
    if i < 0 || i >= s.len() {
        Ok(f)
    } else if s[i] == '-' {
        flags_after(s, i + 1, false, f)
    } else if s[i] == 'i' {
        flags_after(s, i + 1, on, Flags { ci: on, ..f })
    } else if s[i] == 's' {
        flags_after(s, i + 1, on, Flags { dotall: on, ..f })
    } else {
        Err(s[i])
    }
}

fn apply_letters(cs: &Vec<char>, from: usize, to: usize, f: Flags) -> (r: Result<Flags, char>)
    requires
        from <= to <= cs.len(),
    ensures
        r == flags_after(cs@.subrange(from as int, to as int), 0, true, f),
{
    let ghost s = cs@.subrange(from as int, to as int);
    let mut on: bool = true;
    let mut g: Flags = f;
    let mut i: usize = from;
    while i < to
        invariant
            from <= i <= to <= cs.len(),
            s == cs@.subrange(from as int, to as int),
            flags_after(s, 0, true, f) == flags_after(s, i - from, on, g),
        decreases to - i,
    {
        let c: char = cs[i];
        assert(s[i - from] == c);
        if c == '-' {
            on = false;
        } else if c == 'i' {
            g.ci = on;
        } else if c == 's' {
            g.dotall = on;
        } else {
            return Err(c);
        }
        i += 1;
    }
    Ok(g)
}

/// A scan in progress: what is written so far, and what governs what comes
/// next.
pub struct ScanV {
    pub out: Seq<char>,
    pub in_class: bool,
    pub flags: Flags,
    pub stack: Seq<Flags>,
}

/// The scan with more written.
pub open spec fn wrote(st: ScanV, text: Seq<char>) -> ScanV {
    ScanV { out: st.out + text, ..st }
}

/// The end of a quoted run that begins at `i`: its `\E`, or the end.
pub open spec fn quote_end(cs: Seq<char>, i: int) -> int
    decreases cs.len() - i,
{
    if i < 0 || i >= cs.len() {
        i
    } else if cs[i] == '\\' && i + 1 < cs.len() && cs[i + 1] == 'E' {
        i
    } else {
        quote_end(cs, i + 1)
    }
}

/// What an escape is rewritten to, where it does not depend on what follows it.
pub open spec fn escape_text(e: char, in_class: bool) -> Option<Seq<char>> {
    if e == 'd' {
        Some(posix_text("[:digit:]"@, false, in_class))
    } else if e == 'D' {
        Some(posix_text("[:digit:]"@, true, in_class))
    } else if e == 'w' {
        Some(posix_text("[:word:]"@, false, in_class))
    } else if e == 'W' {
        Some(posix_text("[:word:]"@, true, in_class))
    } else if e == 's' {
        Some(posix_text("[:space:]"@, false, in_class))
    } else if e == 'S' {
        Some(posix_text("[:space:]"@, true, in_class))
    } else if e == 'b' {
        Some("(?:(?<![[:word:]])(?=[[:word:]])|(?<=[[:word:]])(?![[:word:]]))"@)
    } else if e == 'B' {
        Some("(?:(?<=[[:word:]])(?=[[:word:]])|(?<![[:word:]])(?![[:word:]]))"@)
    } else if e == 'h' {
        Some("[ \\t\\u{a0}\\u{1680}\\u{180e}\\u{2000}-\\u{200a}\\u{202f}\\u{205f}\\u{3000}]"@)
    } else if e == 'H' {
        Some(negated_class("[ \\t\\u{a0}\\u{1680}\\u{180e}\\u{2000}-\\u{200a}\\u{202f}\\u{205f}\\u{3000}]"@))
    } else if e == 'v' {
        Some("[\\n\\u{b}\\u{c}\\r\\u{85}\\u{2028}\\u{2029}]"@)
    } else if e == 'V' {
        Some(negated_class("[\\n\\u{b}\\u{c}\\r\\u{85}\\u{2028}\\u{2029}]"@))
    } else if e == 'R' {
        Some("(?:\\r\\n|[\\n\\u{b}\\u{c}\\r\\u{85}\\u{2028}\\u{2029}])"@)
    } else if e == 'Z' {
        Some("(?=(?:\\r\\n|[\\n\\r\\u{85}\\u{2028}\\u{2029}])?\\z)"@)
    } else {
        None
    }
}

fn escape_rewrite(e: char, in_class: bool) -> (r: Option<String>)
    ensures
        opt_view(r) == escape_text(e, in_class),
{
    if e == 'd' {
        Some(posix_class("[:digit:]", false, in_class))
    } else if e == 'D' {
        Some(posix_class("[:digit:]", true, in_class))
    } else if e == 'w' {
        Some(posix_class("[:word:]", false, in_class))
    } else if e == 'W' {
        Some(posix_class("[:word:]", true, in_class))
    } else if e == 's' {
        Some(posix_class("[:space:]", false, in_class))
    } else if e == 'S' {
        Some(posix_class("[:space:]", true, in_class))
    } else if e == 'b' {
        Some(own("(?:(?<![[:word:]])(?=[[:word:]])|(?<=[[:word:]])(?![[:word:]]))"))
    } else if e == 'B' {
        Some(own("(?:(?<=[[:word:]])(?=[[:word:]])|(?<![[:word:]])(?![[:word:]]))"))
    } else if e == 'h' {
        Some(own("[ \\t\\u{a0}\\u{1680}\\u{180e}\\u{2000}-\\u{200a}\\u{202f}\\u{205f}\\u{3000}]"))
    } else if e == 'H' {
        proof {
            reveal_strlit("[ \\t\\u{a0}\\u{1680}\\u{180e}\\u{2000}-\\u{200a}\\u{202f}\\u{205f}\\u{3000}]");
        }
        Some(negate_class("[ \\t\\u{a0}\\u{1680}\\u{180e}\\u{2000}-\\u{200a}\\u{202f}\\u{205f}\\u{3000}]"))
    } else if e == 'v' {
        Some(own("[\\n\\u{b}\\u{c}\\r\\u{85}\\u{2028}\\u{2029}]"))
    } else if e == 'V' {
        proof {
            reveal_strlit("[\\n\\u{b}\\u{c}\\r\\u{85}\\u{2028}\\u{2029}]");
        }
        Some(negate_class("[\\n\\u{b}\\u{c}\\r\\u{85}\\u{2028}\\u{2029}]"))
    } else if e == 'R' {
        Some(own("(?:\\r\\n|[\\n\\u{b}\\u{c}\\r\\u{85}\\u{2028}\\u{2029}])"))
    } else if e == 'Z' {
        Some(own("(?=(?:\\r\\n|[\\n\\r\\u{85}\\u{2028}\\u{2029}])?\\z)"))
    } else {
        None
    }
}

/// The construct an escape is refused as. The boundaries and line breaks are
/// refused inside a class only.
pub open spec fn refused_escape(e: char, in_class: bool) -> Option<Seq<char>> {
    if in_class && (e == 'b' || e == 'B' || e == 'R' || e == 'Z') {
        Some(around("\\"@, e, " inside a character class"@))
    } else if e == 'G' {
        Some("\\G (end of previous match)"@)
    } else if e == 'X' {
        Some("\\X (grapheme cluster)"@)
    } else if e == 'c' {
        Some("\\cX (control character)"@)
    } else if e == 'N' {
        Some("\\N{...} (named character)"@)
    } else if e == '0' {
        Some("\\0n (octal escape)"@)
    } else {
        None
    }
}

fn refuse_escape(e: char, in_class: bool) -> (r: Option<String>)
    ensures
        opt_view(r) == refused_escape(e, in_class),
{
    if in_class && (e == 'b' || e == 'B' || e == 'R' || e == 'Z') {
        let mut s: String = own("\\");
        s.push(e);
        s.append(" inside a character class");
        Some(s)
    } else if e == 'G' {
        Some(own("\\G (end of previous match)"))
    } else if e == 'X' {
        Some(own("\\X (grapheme cluster)"))
    } else if e == 'c' {
        Some(own("\\cX (control character)"))
    } else if e == 'N' {
        Some(own("\\N{...} (named character)"))
    } else if e == '0' {
        Some(own("\\0n (octal escape)"))
    } else {
        None
    }
}

/// The escape at `i` rewritten: the scan after it and where it goes on.
pub open spec fn escape_step(cs: Seq<char>, i: int, st: ScanV, pattern: Seq<char>) -> Result<
    (ScanV, int),
    Seq<char>,
> {
    if i + 1 >= cs.len() {
        Err(unsupported_text("a trailing backslash"@, pattern))
    } else {
        let e = cs[i + 1];
        let j = i + 2;
        if e == 'Q' {
            let end = quote_end(cs, j);
            let text = literals(cs.subrange(j, end), st.in_class, st.flags.ci);
            Ok(
                (
                    wrote(st, text),
                    if end < cs.len() {
                        end + 2
                    } else {
                        end
                    },
                ),
            )
        } else if e == 'E' {
            Ok((st, j))
        } else if refused_escape(e, st.in_class) is Some {
            Err(unsupported_text(refused_escape(e, st.in_class)->0, pattern))
        } else if escape_text(e, st.in_class) is Some {
            Ok((wrote(st, escape_text(e, st.in_class)->0), j))
        } else if e == 'u' || e == 'x' {
            match code_point(cs, j, e, pattern) {
                Err(m) => Err(m),
                Ok((c, next)) => Ok(
                    (wrote(st, literal(c, st.in_class, st.flags.ci, true)), next),
                ),
            }
        } else if e == 'p' || e == 'P' {
            match braced_name(cs, j, e, pattern) {
                Err(m) => Err(m),
                Ok((name, next)) => match property(e, name, pattern) {
                    Err(m) => Err(m),
                    Ok(text) => Ok((wrote(st, text), next)),
                },
            }
        } else {
            Ok((wrote(st, seq!['\\', e]), j))
        }
    }
}

/// The `(` at `i` rewritten.
pub open spec fn group_step(cs: Seq<char>, i: int, st: ScanV, pattern: Seq<char>) -> Result<
    (ScanV, int),
    Seq<char>,
> {
    let plain = (ScanV { out: st.out + "("@, stack: st.stack.push(st.flags), ..st }, i + 1);
    if i + 1 < cs.len() && cs[i + 1] == '?' {
        let kind = if i + 2 < cs.len() {
            Some(cs[i + 2])
        } else {
            None
        };
        if kind == Some('>') {
            Err(unsupported_text("(?> (atomic group)"@, pattern))
        } else if kind == Some('(') {
            Err(unsupported_text("(?(...) (conditional)"@, pattern))
        } else if kind == Some('#') {
            Err(unsupported_text("(?# (comment group)"@, pattern))
        } else {
            match flag_group(cs, i + 2) {
                None => Ok(plain),
                Some(e) => match flags_after(cs.subrange(i + 2, e), 0, true, st.flags) {
                    Err(c) => Err(
                        unsupported_text(around("(?"@, c, ") (flag with no equivalent)"@), pattern),
                    ),
                    Ok(f) => if cs[e] == ':' {
                        Ok(
                            (
                                ScanV {
                                    out: st.out + "(?:"@,
                                    stack: st.stack.push(st.flags),
                                    flags: f,
                                    ..st
                                },
                                e + 1,
                            ),
                        )
                    } else {
                        Ok((ScanV { flags: f, ..st }, e + 1))
                    },
                },
            }
        }
    } else {
        Ok(plain)
    }
}

/// The `[` at `i` rewritten. A `]` right after it, or after `[^`, is literal.
pub open spec fn class_step(cs: Seq<char>, i: int, st: ScanV) -> (ScanV, int) {
    let caret = i + 1 < cs.len() && cs[i + 1] == '^';
    let j = if caret {
        i + 2
    } else {
        i + 1
    };
    let close = j < cs.len() && cs[j] == ']';
    let open = if caret {
        "[^"@
    } else {
        "["@
    };
    (
        ScanV {
            in_class: true,
            ..wrote(
                st,
                if close {
                    open + "\\]"@
                } else {
                    open
                },
            )
        },
        if close {
            j + 1
        } else {
            j
        },
    )
}

/// One step of the rewriting.
pub open spec fn translate_step(cs: Seq<char>, i: int, st: ScanV, pattern: Seq<char>) -> Result<
    (ScanV, int),
    Seq<char>,
> {
    let c = cs[i];
    let outside = !st.in_class;
    if c == '\\' {
        escape_step(cs, i, st, pattern)
    } else if c == '[' && outside {
        Ok(class_step(cs, i, st))
    } else if c == ']' && !outside {
        Ok((ScanV { in_class: false, ..wrote(st, "]"@) }, i + 1))
    } else if c == '.' && outside {
        Ok(
            (
                wrote(
                    st,
                    if st.flags.dotall {
                        "(?s:.)"@
                    } else {
                        "[^\\n\\r\\u{85}\\u{2028}\\u{2029}]"@
                    },
                ),
                i + 1,
            ),
        )
    } else if c == '^' && outside {
        Ok((wrote(st, "\\A"@), i + 1))
    } else if c == '$' && outside {
        Ok((wrote(st, "(?=(?:\\r\\n|[\\n\\r\\u{85}\\u{2028}\\u{2029}])?\\z)"@), i + 1))
    } else if c == '(' && outside {
        group_step(cs, i, st, pattern)
    } else if c == ')' && outside {
        let top = if st.stack.len() > 0 {
            st.stack.last()
        } else {
            default_flags()
        };
        let rest = if st.stack.len() > 0 {
            st.stack.drop_last()
        } else {
            st.stack
        };
        Ok((ScanV { flags: top, stack: rest, ..wrote(st, ")"@) }, i + 1))
    } else if (c == '*' || c == '+' || c == '?' || c == '}') && outside && i + 1 < cs.len()
        && cs[i + 1] == '+' {
        Err(unsupported_text(around(""@, c, "+ (possessive quantifier)"@), pattern))
    } else if st.flags.ci && ascii_letter(c) {
        if !outside && i + 2 < cs.len() && cs[i + 1] == '-' && ascii_letter(cs[i + 2]) {
            let hi = cs[i + 2];
            Ok((wrote(st, seq![c, '-', hi, flipped(c), '-', flipped(hi)]), i + 3))
        } else {
            Ok((wrote(st, literal(c, st.in_class, true, false)), i + 1))
        }
    } else {
        Ok((wrote(st, seq![c]), i + 1))
    }
}

/// The rewriting of what stands at `i` and behind it.
pub open spec fn translated_from(cs: Seq<char>, i: int, st: ScanV, pattern: Seq<char>) -> Result<
    Seq<char>,
    Seq<char>,
>
    decreases cs.len() - i,
{
    if i < 0 || i >= cs.len() {
        Ok(st.out)
    } else {
        match translate_step(cs, i, st, pattern) {
            Err(m) => Err(m),
            Ok((next, j)) => if j <= i || j > cs.len() {
                Ok(st.out)
            } else {
                translated_from(cs, j, next, pattern)
            },
        }
    }
}

/// A Java pattern in the engine's syntax, or the refusal of a construct.
pub open spec fn translated(pattern: Seq<char>) -> Result<Seq<char>, Seq<char>> {
    translated_from(
        pattern,
        0,
        ScanV { out: seq![], in_class: false, flags: default_flags(), stack: seq![] },
        pattern,
    )
}

struct Scan {
    out: String,
    in_class: bool,
    flags: Flags,
    stack: Vec<Flags>,
}

impl View for Scan {
    type V = ScanV;

    closed spec fn view(&self) -> ScanV {
        ScanV {
            out: self.out@,
            in_class: self.in_class,
            flags: self.flags,
            stack: self.stack@,
        }
    }
}

fn quote_step(cs: &Vec<char>, j: usize, st: &mut Scan) -> (r: usize)
    requires
        j <= cs.len(),
    ensures
        ({
            let end = quote_end(cs@, j as int);
            &&& final(st)@ == wrote(
                old(st)@,
                literals(cs@.subrange(j as int, end), old(st)@.in_class, old(st)@.flags.ci),
            )
            &&& r == (if end < cs.len() {
                end + 2
            } else {
                end
            })
            &&& j <= r <= cs.len()
        }),
{
    let mut i: usize = j;
    let ghost before = st@;
    assert(cs@.subrange(j as int, j as int) =~= seq![]);
    assert(wrote(st@, seq![]).out =~= st@.out);
    while i < cs.len()
        invariant
            j <= i <= cs.len(),
            before == old(st)@,
            quote_end(cs@, j as int) == quote_end(cs@, i as int),
            st@ == wrote(
                before,
                literals(cs@.subrange(j as int, i as int), before.in_class, before.flags.ci),
            ),
        decreases cs.len() - i,
    {
        if cs[i] == '\\' && i + 1 < cs.len() && cs[i + 1] == 'E' {
            return i + 2;
        }
        proof {
            let t = cs@.subrange(j as int, i + 1);
            assert(t.drop_last() =~= cs@.subrange(j as int, i as int));
            assert(t.last() == cs@[i as int]);
        }
        push_literal(&mut st.out, cs[i], st.in_class, st.flags.ci, true);
        assert(st@.out =~= wrote(
            before,
            literals(cs@.subrange(j as int, i + 1), before.in_class, before.flags.ci),
        ).out);
        i += 1;
    }
    i
}

fn run_escape(cs: &Vec<char>, i: usize, st: &mut Scan, pattern: &str) -> (r: Result<usize, String>)
    requires
        i < cs.len(),
    ensures
        match (r, escape_step(cs@, i as int, old(st)@, pattern@)) {
            (Ok(j), Ok((next, k))) => j == k && final(st)@ == next && i < j <= cs.len(),
            (Err(m), Err(n)) => m@ == n,
            _ => false,
        },
{
    if i + 1 >= cs.len() {
        return Err(unsupported("a trailing backslash", pattern));
    }
    let e: char = cs[i + 1];
    let j: usize = i + 2;
    if e == 'Q' {
        return Ok(quote_step(cs, j, st));
    }
    if e == 'E' {
        return Ok(j);
    }
    if let Some(what) = refuse_escape(e, st.in_class) {
        return Err(unsupported(what.as_str(), pattern));
    }
    if let Some(text) = escape_rewrite(e, st.in_class) {
        st.out.append(text.as_str());
        return Ok(j);
    }
    if e == 'u' || e == 'x' {
        return match read_code_point(cs, j, e, pattern) {
            Err(m) => Err(m),
            Ok((c, next)) => {
                push_literal(&mut st.out, c, st.in_class, st.flags.ci, true);
                Ok(next)
            },
        };
    }
    if e == 'p' || e == 'P' {
        return match read_braced(cs, j, e, pattern) {
            Err(m) => Err(m),
            Ok((name, next)) => match translate_property(e, name.as_str(), pattern) {
                Err(m) => Err(m),
                Ok(text) => {
                    st.out.append(text.as_str());
                    Ok(next)
                },
            },
        };
    }
    st.out.push('\\');
    st.out.push(e);
    assert(st@.out =~= wrote(old(st)@, seq!['\\', e]).out);
    Ok(j)
}

fn run_group(cs: &Vec<char>, i: usize, st: &mut Scan, pattern: &str) -> (r: Result<usize, String>)
    requires
        i < cs.len(),
    ensures
        match (r, group_step(cs@, i as int, old(st)@, pattern@)) {
            (Ok(j), Ok((next, k))) => j == k && final(st)@ == next && i < j <= cs.len(),
            (Err(m), Err(n)) => m@ == n,
            _ => false,
        },
{
    if i + 1 < cs.len() && cs[i + 1] == '?' {
        if i + 2 < cs.len() {
            if cs[i + 2] == '>' {
                return Err(unsupported("(?> (atomic group)", pattern));
            }
            if cs[i + 2] == '(' {
                return Err(unsupported("(?(...) (conditional)", pattern));
            }
            if cs[i + 2] == '#' {
                return Err(unsupported("(?# (comment group)", pattern));
            }
        }
        if let Some(e) = inline_flags(cs, i + 2) {
            let f: Flags = match apply_letters(cs, i + 2, e, st.flags) {
                Ok(f) => f,
                Err(c) => {
                    return Err(
                        unsupported_char("(?", c, ") (flag with no equivalent)", pattern),
                    );
                },
            };
            if cs[e] == ':' {
                st.stack.push(st.flags);
                st.out.append("(?:");
            }
            st.flags = f;
            return Ok(e + 1);
        }
    }
    st.stack.push(st.flags);
    st.out.append("(");
    Ok(i + 1)
}

fn run_class(cs: &Vec<char>, i: usize, st: &mut Scan) -> (r: usize)
    requires
        i < cs.len(),
    ensures
        (final(st)@, r as int) == class_step(cs@, i as int, old(st)@),
        i < r <= cs.len(),
{
    let mut open: String = own("[");
    let mut j: usize = i + 1;
    if j < cs.len() && cs[j] == '^' {
        open = own("[^");
        j += 1;
    }
    if j < cs.len() && cs[j] == ']' {
        open.append("\\]");
        j += 1;
    }
    st.out.append(open.as_str());
    st.in_class = true;
    j
}

fn run_step(cs: &Vec<char>, i: usize, st: &mut Scan, pattern: &str) -> (r: Result<usize, String>)
    requires
        i < cs.len(),
    ensures
        match (r, translate_step(cs@, i as int, old(st)@, pattern@)) {
            (Ok(j), Ok((next, k))) => j == k && final(st)@ == next && i < j <= cs.len(),
            (Err(m), Err(n)) => m@ == n,
            _ => false,
        },
{
    let c: char = cs[i];
    let outside: bool = !st.in_class;
    if c == '\\' {
        return run_escape(cs, i, st, pattern);
    }
    if c == '[' && outside {
        return Ok(run_class(cs, i, st));
    }
    if c == ']' && !outside {
        st.in_class = false;
        st.out.append("]");
        return Ok(i + 1);
    }
    if c == '.' && outside {
        st.out.append(
            if st.flags.dotall {
                "(?s:.)"
            } else {
                "[^\\n\\r\\u{85}\\u{2028}\\u{2029}]"
            },
        );
        return Ok(i + 1);
    }
    if c == '^' && outside {
        st.out.append("\\A");
        return Ok(i + 1);
    }
    if c == '$' && outside {
        st.out.append("(?=(?:\\r\\n|[\\n\\r\\u{85}\\u{2028}\\u{2029}])?\\z)");
        return Ok(i + 1);
    }
    if c == '(' && outside {
        return run_group(cs, i, st, pattern);
    }
    if c == ')' && outside {
        st.flags = match st.stack.pop() {
            Some(f) => f,
            None => Flags { ci: false, dotall: false },
        };
        st.out.append(")");
        assert(st@.stack =~= (if old(st)@.stack.len() > 0 {
            old(st)@.stack.drop_last()
        } else {
            old(st)@.stack
        }));
        return Ok(i + 1);
    }
    if (c == '*' || c == '+' || c == '?' || c == '}') && outside && i + 1 < cs.len() && cs[i + 1]
        == '+' {
        return Err(unsupported_char("", c, "+ (possessive quantifier)", pattern));
    }
    if st.flags.ci && is_letter(c) {
        if !outside && i + 1 < cs.len() && cs[i + 1] == '-' && i + 2 < cs.len() && is_letter(
            cs[i + 2],
        ) {
            let hi: char = cs[i + 2];
            st.out.push(c);
            st.out.push('-');
            st.out.push(hi);
            st.out.push(flip_case(c));
            st.out.push('-');
            st.out.push(flip_case(hi));
            assert(st@.out =~= wrote(
                old(st)@,
                seq![c, '-', hi, flipped(c), '-', flipped(hi)],
            ).out);
            return Ok(i + 3);
        }
        push_literal(&mut st.out, c, st.in_class, true, false);
        return Ok(i + 1);
    }
    st.out.push(c);
    assert(st@.out =~= wrote(old(st)@, seq![c]).out);
    Ok(i + 1)
}

/// Rewrite a Java pattern into the engine's syntax, or name the construct that
/// has no faithful counterpart.
pub fn translate(pattern: &str) -> (r: Result<String, String>)
    ensures
        match (r, translated(pattern@)) {
            (Ok(x), Ok(y)) => x@ == y,
            (Err(x), Err(y)) => x@ == y,
            _ => false,
        },
{
    let cs: Vec<char> = chars_of(pattern);
    let mut st: Scan = Scan {
        out: String::new(),
        in_class: false,
        flags: Flags { ci: false, dotall: false },
        stack: Vec::new(),
    };
    let mut i: usize = 0;
    while i < cs.len()
        invariant
            i <= cs.len(),
            cs@ == pattern@,
            translated(pattern@) == translated_from(cs@, i as int, st@, pattern@),
        decreases cs.len() - i,
    {
        match run_step(&cs, i, &mut st, pattern) {
            Err(m) => {
                return Err(m);
            },
            Ok(j) => {
                i = j;
            },
        }
    }
    Ok(st.out)
}

// ── Byte and character positions ────────────────────────────────────────────

/// How many bytes a character takes in UTF-8.
pub open spec fn utf8_width(c: char) -> int {
    if (c as int) < 0x80 {
        1
    } else if (c as int) < 0x800 {
        2
    } else if (c as int) < 0x1_0000 {
        3
    } else {
        4
    }
}

/// How many bytes a text takes in UTF-8.
pub open spec fn utf8_len(s: Seq<char>) -> int
    decreases s.len(),
{
    if s.len() == 0 {
        0
    } else {
        utf8_len(s.drop_last()) + utf8_width(s.last())
    }
}

fn width_of(c: char) -> (r: u8)
    ensures
        r == utf8_width(c),
        1 <= r <= 4,
{
    let n: u32 = code_of(c);
    if n < 0x80 {
        1
    } else if n < 0x800 {
        2
    } else if n < 0x1_0000 {
        3
    } else {
        4
    }
}

/// The byte position of the character at `i`.
pub open spec fn byte_position(s: Seq<char>, i: int) -> int {
    utf8_len(s.take(i))
}

proof fn lemma_encoded_char(c: char)
    ensures
        vstd::utf8::encode_scalar(c as u32).len() == utf8_width(c),
{
}

proof fn lemma_encoded(s: Seq<char>)
    ensures
        vstd::utf8::encode_utf8(s).len() == utf8_len(s),
    decreases s.len(),
{
    if s.len() > 0 {
        lemma_utf8_front(s);
        lemma_encoded(s.drop_first());
        assert(s.drop_first() =~= s.skip(1));
        lemma_encoded_char(s[0]);
    }
}

/// A text in memory takes no more bytes than a `usize` counts.
fn text_fits(text: &str)
    ensures
        utf8_len(text@) <= usize::MAX,
{
    let n: usize = text.as_bytes().len();
    proof {
        lemma_encoded(text@);
    }
}

/// The byte positions ascend with the characters.
proof fn lemma_positions_ascend(s: Seq<char>, i: int, j: int)
    requires
        0 <= i <= j <= s.len(),
    ensures
        0 <= byte_position(s, i) <= byte_position(s, j) <= utf8_len(s),
        i < j ==> byte_position(s, i) < byte_position(s, j),
    decreases s.len() - i,
{
    lemma_utf8_nonnegative(s.take(i));
    if i == s.len() {
        assert(s.take(i) =~= s);
    } else {
        assert(s.take(i + 1).drop_last() =~= s.take(i));
        lemma_positions_ascend(
            s,
            i + 1,
            if i < j {
                j
            } else {
                i + 1
            },
        );
    }
}

fn byte_at(v: &Vec<char>, i: usize) -> (r: usize)
    requires
        i <= v.len(),
        utf8_len(v@) <= usize::MAX,
    ensures
        r == byte_position(v@, i as int),
{
    let mut n: usize = 0;
    let mut k: usize = 0;
    assert(v@.take(0) =~= seq![]);
    while k < i
        invariant
            k <= i <= v.len(),
            n == byte_position(v@, k as int),
            utf8_len(v@) <= usize::MAX,
        decreases i - k,
    {
        proof {
            let t = v@.take(k + 1);
            assert(t.drop_last() =~= v@.take(k as int));
            assert(t.last() == v@[k as int]);
            lemma_positions_ascend(v@, k + 1, v.len() as int);
        }
        n = n + width_of(v[k]) as usize;
        k += 1;
    }
    n
}

/// The character position `b` bytes into a text, `None` when no character
/// begins or ends there.
pub open spec fn char_position(s: Seq<char>, b: int) -> Option<int>
    decreases s.len(),
{
    if b == 0 {
        Some(0)
    } else if s.len() == 0 || b < utf8_width(s[0]) {
        None
    } else {
        match char_position(s.skip(1), b - utf8_width(s[0])) {
            Some(k) => Some(k + 1),
            None => None,
        }
    }
}

fn char_at_byte(v: &Vec<char>, b: usize) -> (r: usize)
    requires
        starts_char(v@, b),
    ensures
        char_position(v@, b as int) == Some(r as int),
        r <= v.len(),
{
    proof {
        let i = choose|i: int| 0 <= i <= v@.len() && b == #[trigger] byte_position(v@, i);
        positions_are_inverse(v@, i);
    }
    let mut left: usize = b;
    let mut k: usize = 0;
    assert(v@.skip(0) =~= v@);
    while left > 0 && k < v.len() && left >= width_of(v[k]) as usize
        invariant
            k <= v.len(),
            char_position(v@, b as int) is Some,
            char_position(v@.skip(k as int), left as int) matches Some(y) && char_position(
                v@,
                b as int,
            ) == Some(y + k),
        decreases v.len() - k,
    {
        assert(v@.skip(k as int)[0] == v@[k as int]);
        assert(v@.skip(k as int).skip(1) =~= v@.skip(k + 1));
        left = left - width_of(v[k]) as usize;
        k += 1;
    }
    proof {
        if k < v.len() {
            assert(v@.skip(k as int)[0] == v@[k as int]);
        }
    }
    k
}

/// A character position and the byte position it stands at are inverse.
pub proof fn positions_are_inverse(s: Seq<char>, i: int)
    requires
        0 <= i <= s.len(),
    ensures
        char_position(s, byte_position(s, i)) == Some(i),
    decreases i,
{
    if i > 0 {
        lemma_utf8_front(s.take(i));
        assert(s.take(i)[0] == s[0]);
        assert(s.take(i).skip(1) =~= s.skip(1).take(i - 1));
        positions_are_inverse(s.skip(1), i - 1);
        lemma_utf8_nonnegative(s.skip(1).take(i - 1));
    } else {
        assert(s.take(0) =~= seq![]);
    }
}

proof fn lemma_utf8_nonnegative(s: Seq<char>)
    ensures
        utf8_len(s) >= 0,
    decreases s.len(),
{
    if s.len() > 0 {
        lemma_utf8_nonnegative(s.drop_last());
    }
}

proof fn lemma_utf8_front(s: Seq<char>)
    requires
        s.len() > 0,
    ensures
        utf8_len(s) == utf8_width(s[0]) + utf8_len(s.skip(1)),
    decreases s.len(),
{
    if s.len() > 1 {
        lemma_utf8_front(s.drop_last());
        assert(s.drop_last().skip(1) =~= s.skip(1).drop_last());
    } else {
        assert(s.drop_last() =~= seq![]);
        assert(s.skip(1) =~= seq![]);
    }
}

// ── The engine ──────────────────────────────────────────────────────────────

#[verifier::external_type_specification]
#[verifier::external_body]
pub struct ExRegex(fancy_regex::Regex);

/// The text a compiled expression was made from: `fancy_regex::Regex::as_str`.
pub uninterp spec fn engine_source(re: fancy_regex::Regex) -> Seq<char>;

/// The message with which the engine refuses an expression, `None` when it
/// accepts it.
pub uninterp spec fn engine_refusal(source: Seq<char>) -> Option<Seq<char>>;

/// `fancy_regex::Regex::new`: compiles the expression, or says what is wrong
/// with it. Whether it does, and the message, depend on the text alone.
#[verifier::external_body]
fn engine_new(source: &str) -> (r: Result<fancy_regex::Regex, String>)
    ensures
        match r {
            Ok(re) => engine_source(re) == source@ && engine_refusal(source@) is None,
            Err(m) => engine_refusal(source@) == Some(m@),
        },
{
    fancy_regex::Regex::new(source).map_err(|e| e.to_string())
}

/// Whether an expression matches anywhere in a text, or the message of a search
/// that gave up.
pub uninterp spec fn engine_matches(source: Seq<char>, text: Seq<char>) -> Result<
    bool,
    Seq<char>,
>;

/// `fancy_regex::Regex::is_match`: whether there is a match anywhere in the
/// text. It depends on the expression and the text alone.
#[verifier::external_body]
fn engine_is_match(re: &fancy_regex::Regex, text: &str) -> (r: Result<bool, String>)
    ensures
        match r {
            Ok(b) => engine_matches(engine_source(*re), text@) == Ok::<bool, Seq<char>>(b),
            Err(m) => engine_matches(engine_source(*re), text@) == Err::<bool, Seq<char>>(m@),
        },
{
    re.is_match(text).map_err(|e| e.to_string())
}

/// Whether a byte position is one where a character starts, or the end.
pub open spec fn starts_char(s: Seq<char>, at: usize) -> bool {
    exists|i: int| 0 <= i <= s.len() && at == #[trigger] byte_position(s, i)
}

/// Whether an expression may hold the escape that moves the start of a match,
/// which inside a look-behind moves it to before where the search began.
pub open spec fn moves_start(source: Seq<char>) -> bool {
    exists|i: int|
        #![trigger source[i]]
        0 <= i < source.len() - 1 && source[i] == '\\' && source[i + 1] == 'K'
}

/// Whether a span of bytes can be that of a match: its ends are where characters
/// start, in order, and it starts no earlier than the search did.
pub open spec fn is_span(source: Seq<char>, text: Seq<char>, from: usize, a: usize, b: usize) -> bool {
    &&& a <= b
    &&& starts_char(text, a)
    &&& starts_char(text, b)
    &&& moves_start(source) || from <= a
}

/// The first match at or after a byte position, as byte positions.
pub uninterp spec fn engine_find(source: Seq<char>, text: Seq<char>, from: usize) -> Result<
    Option<(usize, usize)>,
    Seq<char>,
>;

/// `fancy_regex::Regex::find_from_pos`: the first match at or after a byte
/// position, which is one where a character starts. It depends on the expression,
/// the text and the position alone. A match starts and ends where characters
/// start, does not end before it starts, and, where `\K` does not move its start,
/// starts at the position or after it.
#[verifier::external_body]
fn engine_find_from(re: &fancy_regex::Regex, text: &str, from: usize) -> (r: Result<
    Option<(usize, usize)>,
    String,
>)
    requires
        starts_char(text@, from),
    ensures
        match r {
            Ok(m) => engine_find(engine_source(*re), text@, from) == Ok::<
                Option<(usize, usize)>,
                Seq<char>,
            >(m) && (m matches Some((a, b)) ==> is_span(engine_source(*re), text@, from, a, b)),
            Err(m) => engine_find(engine_source(*re), text@, from) == Err::<
                Option<(usize, usize)>,
                Seq<char>,
            >(m@),
        },
{
    match re.find_from_pos(text, from) {
        Ok(m) => Ok(m.map(|m| (m.start(), m.end()))),
        Err(e) => Err(e.to_string()),
    }
}

/// Whether the spans of groups start and end where characters start.
pub open spec fn groups_on_chars(text: Seq<char>, g: Seq<Option<(usize, usize)>>) -> bool {
    forall|i: int|
        0 <= i < g.len() ==> (#[trigger] g[i] matches Some((a, b)) ==> starts_char(text, a)
            && starts_char(text, b))
}

/// The groups of the first match at or after a byte position, as byte
/// positions.
pub uninterp spec fn engine_captures(source: Seq<char>, text: Seq<char>, from: usize) -> Result<
    Option<Seq<Option<(usize, usize)>>>,
    Seq<char>,
>;

/// `fancy_regex::Regex::captures_from_pos`: the groups of the first match at or
/// after a byte position, which is one where a character starts, each with its
/// span where it took part. It depends on the expression, the text and the
/// position alone. The first group is the match itself and lies where
/// `find_from_pos` finds one; every other starts and ends where characters start.
#[verifier::external_body]
fn engine_captures_from(re: &fancy_regex::Regex, text: &str, from: usize) -> (r: Result<
    Option<Vec<Option<(usize, usize)>>>,
    String,
>)
    requires
        starts_char(text@, from),
    ensures
        match r {
            Ok(Some(g)) => engine_captures(engine_source(*re), text@, from) == Ok::<
                Option<Seq<Option<(usize, usize)>>>,
                Seq<char>,
            >(Some(g@)) && groups_on_chars(text@, g@) && g@.len() > 0 && (g@[0] matches Some((a, b))
                && is_span(engine_source(*re), text@, from, a, b)),
            Ok(None) => engine_captures(engine_source(*re), text@, from) == Ok::<
                Option<Seq<Option<(usize, usize)>>>,
                Seq<char>,
            >(None),
            Err(m) => engine_captures(engine_source(*re), text@, from) == Err::<
                Option<Seq<Option<(usize, usize)>>>,
                Seq<char>,
            >(m@),
        },
{
    match re.captures_from_pos(text, from) {
        Ok(c) => Ok(c.map(|c| c.iter().map(|m| m.map(|m| (m.start(), m.end()))).collect())),
        Err(e) => Err(e.to_string()),
    }
}

/// The name of each group of an expression, in order.
pub uninterp spec fn engine_names(source: Seq<char>) -> Seq<Option<Seq<char>>>;

/// The views of optional texts.
pub open spec fn opt_views(s: Seq<Option<String>>) -> Seq<Option<Seq<char>>> {
    Seq::new(s.len(), |i: int| opt_view(s[i]))
}

/// `fancy_regex::Regex::capture_names`: the name of each group, where it has
/// one, in order. It depends on the expression alone.
#[verifier::external_body]
fn engine_group_names(re: &fancy_regex::Regex) -> (r: Vec<Option<String>>)
    ensures
        opt_views(r@) == engine_names(engine_source(*re)),
{
    re.capture_names().map(|n| n.map(String::from)).collect()
}

// ── Patterns ────────────────────────────────────────────────────────────────

/// A compiled pattern.
pub struct Pattern {
    re: fancy_regex::Regex,
}

impl Pattern {
    /// The expression the pattern was compiled from, in the engine's syntax.
    pub closed spec fn source(&self) -> Seq<char> {
        engine_source(self.re)
    }
}

/// A pattern in the engine's syntax, whole-input patterns anchored at both
/// ends, or the message of a `PatternSyntaxException`. The anchors are those of
/// the input, so a final line terminator is not passed over.
pub open spec fn built(source: Seq<char>, anchored: bool) -> Result<Seq<char>, Seq<char>> {
    match translated(source) {
        Err(m) => Err(m),
        Ok(t) => {
            let expr = if anchored {
                "\\A(?:"@ + t + ")\\z"@
            } else {
                t
            };
            match engine_refusal(expr) {
                None => Ok(expr),
                Some(m) => Err(m + " near index 0\n"@ + source),
            }
        },
    }
}

/// Whether `r` is what compiling gives.
pub open spec fn compiled(r: Result<Pattern, String>, source: Seq<char>, anchored: bool) -> bool {
    match (r, built(source, anchored)) {
        (Ok(p), Ok(e)) => p.source() == e,
        (Err(m), Err(n)) => m@ == n,
        _ => false,
    }
}

fn build(source: &str, anchored: bool) -> (r: Result<Pattern, String>)
    ensures
        compiled(r, source@, anchored),
{
    let t: String = match translate(source) {
        Err(m) => {
            return Err(m);
        },
        Ok(t) => t,
    };
    let expr: String = if anchored {
        let mut e: String = own("\\A(?:");
        e.append(t.as_str());
        e.append(")\\z");
        e
    } else {
        t
    };
    match engine_new(expr.as_str()) {
        Ok(re) => Ok(Pattern { re }),
        Err(m) => {
            let mut e: String = m;
            e.append(" near index 0\n");
            e.append(source);
            Err(e)
        },
    }
}

/// Compile a Java pattern for searching, as `split` and `replaceAll` do.
pub fn compile(source: &str) -> (r: Result<Pattern, String>)
    ensures
        compiled(r, source@, false),
{
    build(source, false)
}

/// Compile a Java pattern for matching a whole input, as `matches` does.
pub fn compile_whole(source: &str) -> (r: Result<Pattern, String>)
    ensures
        compiled(r, source@, true),
{
    build(source, true)
}

/// The character position of a byte position where a character starts.
pub open spec fn char_of(text: Seq<char>, b: usize) -> int {
    match char_position(text, b as int) {
        Some(k) => k,
        None => 0,
    }
}

/// The message of a match that starts before the one that came before it ends.
pub open spec fn misplaced() -> Seq<char> {
    "match out of order"@
}

/// A match in character positions.
pub open spec fn in_chars(text: Seq<char>, m: Result<Option<(usize, usize)>, Seq<char>>) -> Result<
    Option<(int, int)>,
    Seq<char>,
> {
    match m {
        Err(e) => Err(e),
        Ok(None) => Ok(None),
        Ok(Some((a, b))) => Ok(Some((char_of(text, a), char_of(text, b)))),
    }
}

/// A step past a match: past its end, and past one more character where it is
/// empty.
pub open spec fn past(a: int, b: int) -> int {
    if a == b {
        b + 1
    } else {
        b
    }
}

/// Whether a match can come next: after the last one, and moving on.
pub open spec fn comes_next(text: Seq<char>, last: int, search: int, a: int, b: int) -> bool {
    last <= a <= b <= text.len() && past(a, b) > search
}

/// A list of texts without the empty ones at its end.
pub open spec fn without_trailing(parts: Seq<Seq<char>>) -> Seq<Seq<char>>
    decreases parts.len(),
{
    if parts.len() > 0 && parts.last().len() == 0 {
        without_trailing(parts.drop_last())
    } else {
        parts
    }
}

/// What `split` ends with: the whole text when nothing matched; otherwise the
/// rest as a last field, and without a limit no empty fields at the end.
pub open spec fn split_end(
    text: Seq<char>,
    limit: int,
    start: int,
    matched: bool,
    parts: Seq<Seq<char>>,
) -> Seq<Seq<char>> {
    if !matched {
        seq![text]
    } else if limit == 0 {
        without_trailing(parts.push(text.skip(start)))
    } else {
        parts.push(text.skip(start))
    }
}

/// `split` from `search` on, with `parts` done and the current field begun at
/// `start`. An empty match at the very start makes no field.
pub open spec fn split_from(
    text: Seq<char>,
    limit: int,
    find: spec_fn(int) -> Result<Option<(int, int)>, Seq<char>>,
    start: int,
    search: int,
    matched: bool,
    parts: Seq<Seq<char>>,
) -> Result<Seq<Seq<char>>, Seq<char>>
    decreases text.len() + 1 - search,
{
    if search < 0 || search > text.len() || (limit > 0 && parts.len() == limit - 1) {
        Ok(split_end(text, limit, start, matched, parts))
    } else {
        match find(search) {
            Err(e) => Err(e),
            Ok(None) => Ok(split_end(text, limit, start, matched, parts)),
            Ok(Some((a, b))) => if a == 0 && b == 0 {
                if search >= 1 {
                    Err(misplaced())
                } else {
                    split_from(text, limit, find, start, 1, matched, parts)
                }
            } else if !comes_next(text, start, search, a, b) {
                Err(misplaced())
            } else {
                split_from(
                    text,
                    limit,
                    find,
                    b,
                    past(a, b),
                    true,
                    parts.push(text.subrange(start, a)),
                )
            },
        }
    }
}

/// `String.split(regex, limit)`, given where the pattern matches.
pub open spec fn split_text(
    text: Seq<char>,
    limit: int,
    find: spec_fn(int) -> Result<Option<(int, int)>, Seq<char>>,
) -> Result<Seq<Seq<char>>, Seq<char>> {
    split_from(text, limit, find, 0, 0, false, seq![])
}

/// How the fields of a split with no limit relate to those with one, from any
/// point of the search on.
proof fn lemma_limits(
    text: Seq<char>,
    n: int,
    find: spec_fn(int) -> Result<Option<(int, int)>, Seq<char>>,
    start: int,
    search: int,
    matched: bool,
    parts: Seq<Seq<char>>,
)
    requires
        n > 0,
        parts.len() <= n - 1,
        matched == (parts.len() > 0),
        split_from(text, -1, find, start, search, matched, parts) is Ok,
    ensures
        ({
            let all = split_from(text, -1, find, start, search, matched, parts)->Ok_0;
            let none = split_from(text, 0, find, start, search, matched, parts);
            let some = split_from(text, n, find, start, search, matched, parts);
            &&& all.len() > parts.len()
            &&& all.take(parts.len() as int) == parts
            &&& all.len() == 1 ==> all == seq![text]
            &&& matched && all.len() == parts.len() + 1 ==> all == parts.push(text.skip(start))
            &&& none == Ok::<Seq<Seq<char>>, Seq<char>>(
                if all.len() == 1 {
                    all
                } else {
                    without_trailing(all)
                },
            )
            &&& some is Ok
            &&& all.len() <= n ==> some->Ok_0 == all
            &&& all.len() > n ==> some->Ok_0.len() == n && some->Ok_0.take(n - 1) == all.take(n - 1)
        }),
    decreases text.len() + 1 - search,
{
    let all = split_from(text, -1, find, start, search, matched, parts)->Ok_0;
    let rest = parts.push(text.skip(start));
    assert(rest.take(parts.len() as int) =~= parts);
    if !matched {
        assert(parts =~= seq![]);
        assert(seq![text].take(0) =~= parts);
    }
    if 0 <= search <= text.len() {
        if let Ok(Some((a, b))) = find(search) {
            if a == 0 && b == 0 {
                lemma_limits(text, n, find, start, 1, matched, parts);
            } else {
                let more = parts.push(text.subrange(start, a));
                if more.len() <= n - 1 {
                    lemma_limits(text, n, find, b, past(a, b), true, more);
                } else {
                    lemma_limits(text, n + 1, find, b, past(a, b), true, more);
                }
                assert(all.take(more.len() as int).take(parts.len() as int) =~= all.take(
                    parts.len() as int,
                ));
                assert(more.take(parts.len() as int) =~= parts);
            }
        }
    }
    if parts.len() == n - 1 && matched {
        assert(rest.take(n - 1) =~= all.take(n - 1));
    }
    if parts.len() == n - 1 && !matched {
        assert(seq![text].take(0) =~= all.take(0));
    }
}

/// The limit of a split. Without one, a text in which nothing matches is the only
/// field; limit 0 drops the empty fields at the end of several; a positive limit
/// changes nothing where there are no more fields than it allows, and otherwise
/// leaves as many, of which all but the last are the first ones.
pub proof fn limits_only_cut(
    text: Seq<char>,
    n: int,
    find: spec_fn(int) -> Result<Option<(int, int)>, Seq<char>>,
)
    requires
        n > 0,
        split_text(text, -1, find) is Ok,
    ensures
        ({
            let all = split_text(text, -1, find)->Ok_0;
            &&& all.len() == 1 ==> all == seq![text] && split_text(text, 0, find) == Ok::<
                Seq<Seq<char>>,
                Seq<char>,
            >(all)
            &&& all.len() > 1 ==> split_text(text, 0, find) == Ok::<Seq<Seq<char>>, Seq<char>>(
                without_trailing(all),
            )
            &&& split_text(text, n, find) matches Ok(some) && some.len() <= n && (all.len() <= n
                ==> some == all) && (all.len() > n ==> some.len() == n && some.take(n - 1)
                == all.take(n - 1))
        }),
{
    lemma_limits(text, n, find, 0, 0, false, seq![]);
}

/// Every negative limit is no limit.
pub proof fn negative_limits_are_none(
    text: Seq<char>,
    n: int,
    find: spec_fn(int) -> Result<Option<(int, int)>, Seq<char>>,
)
    requires
        n < 0,
    ensures
        split_text(text, n, find) == split_text(text, -1, find),
{
    lemma_negative(text, n, find, 0, 0, false, seq![]);
}

proof fn lemma_negative(
    text: Seq<char>,
    n: int,
    find: spec_fn(int) -> Result<Option<(int, int)>, Seq<char>>,
    start: int,
    search: int,
    matched: bool,
    parts: Seq<Seq<char>>,
)
    requires
        n < 0,
    ensures
        split_from(text, n, find, start, search, matched, parts) == split_from(
            text,
            -1,
            find,
            start,
            search,
            matched,
            parts,
        ),
    decreases text.len() + 1 - search,
{
    if 0 <= search <= text.len() {
        if let Ok(Some((a, b))) = find(search) {
            if a == 0 && b == 0 {
                if search < 1 {
                    lemma_negative(text, n, find, start, 1, matched, parts);
                }
            } else if comes_next(text, start, search, a, b) {
                lemma_negative(
                    text,
                    n,
                    find,
                    b,
                    past(a, b),
                    true,
                    parts.push(text.subrange(start, a)),
                );
            }
        }
    }
}

/// Whether every answer of `f` is what `rel` gives.
pub open spec fn finds<F: Fn(usize) -> Result<Option<(usize, usize)>, String>>(
    f: F,
    rel: spec_fn(int) -> Result<Option<(int, int)>, Seq<char>>,
) -> bool {
    forall|i: usize, r: Result<Option<(usize, usize)>, String>|
        call_ensures(f, (i,), r) ==> match (r, rel(i as int)) {
            (Ok(Some(x)), Ok(Some(y))) => x.0 == y.0 && x.1 == y.1,
            (Ok(None), Ok(None)) => true,
            (Err(x), Err(y)) => x@ == y,
            _ => false,
        }
}

/// Whether every match that `f` finds lies at or behind where the search for it
/// began.
pub open spec fn finds_ahead<F: Fn(usize) -> Result<Option<(usize, usize)>, String>>(
    f: F,
    n: int,
) -> bool {
    forall|i: usize, a: usize, b: usize|
        #![trigger call_ensures(f, (i,), Ok(Some((a, b))))]
        i <= n && call_ensures(f, (i,), Ok(Some((a, b)))) ==> i <= a <= b <= n
}

/// Whether a search ends with the message `m`.
pub open spec fn gives_up<F: Fn(usize) -> Result<Option<(usize, usize)>, String>>(
    f: F,
    m: String,
) -> bool {
    exists|i: usize| call_ensures(f, (i,), Err::<Option<(usize, usize)>, String>(m))
}

/// Whether `r` is the split that `rel` leads to.
pub open spec fn split_result(
    r: Result<Vec<String>, String>,
    s: Result<Seq<Seq<char>>, Seq<char>>,
) -> bool {
    match (r, s) {
        (Ok(x), Ok(y)) => views(x@) == y,
        (Err(x), Err(y)) => x@ == y,
        _ => false,
    }
}

fn finish_split(v: &Vec<char>, limit: i64, start: usize, matched: bool, parts: Vec<String>) -> (r:
    Vec<String>)
    requires
        start <= v.len(),
    ensures
        views(r@) == split_end(v@, limit as int, start as int, matched, views(parts@)),
{
    let mut out: Vec<String> = Vec::new();
    if !matched {
        out.push(text_of(v));
        assert(views(out@) =~= seq![v@]);
        return out;
    }
    let ghost before = views(parts@);
    out = parts;
    let rest: String = text_between(v, start, v.len());
    assert(rest@ =~= v@.skip(start as int));
    out.push(rest);
    assert(views(out@) =~= before.push(v@.skip(start as int)));
    if limit == 0 {
        while out.len() > 0 && out[out.len() - 1].as_str().is_empty()
            invariant
                without_trailing(views(out@)) == without_trailing(
                    before.push(v@.skip(start as int)),
                ),
            decreases out.len(),
        {
            let ghost w = views(out@);
            let _ = out.pop();
            assert(views(out@) =~= w.drop_last());
            assert(w.last().len() == 0);
        }
        proof {
            let w = views(out@);
            if w.len() > 0 {
                assert(w.last() == out@[out.len() - 1]@);
            }
        }
    }
    out
}

/// `String.split(regex, limit)`, given where the pattern matches at or after a
/// position.
pub fn split_with<F: Fn(usize) -> Result<Option<(usize, usize)>, String>>(
    text: &str,
    limit: i64,
    find: F,
) -> (r: Result<Vec<String>, String>)
    requires
        forall|i: usize| call_requires(find, (i,)),
    ensures
        forall|rel: spec_fn(int) -> Result<Option<(int, int)>, Seq<char>>| #[trigger]
            finds(find, rel) ==> split_result(r, split_text(text@, limit as int, rel)),
        finds_ahead(find, text@.len() as int) ==> (r matches Err(m) ==> gives_up(find, m)),
{
    let v: Vec<char> = chars_of(text);
    let n: usize = v.len();
    let mut parts: Vec<String> = Vec::new();
    let mut start: usize = 0;
    let mut search: usize = 0;
    let mut matched: bool = false;
    assert(views(parts@) =~= seq![]);
    while search <= n
        invariant_except_break
            n == v.len(),
            v@ == text@,
            start <= n,
            start <= search,
            forall|i: usize| call_requires(find, (i,)),
            forall|rel: spec_fn(int) -> Result<Option<(int, int)>, Seq<char>>| #[trigger]
                finds(find, rel) ==> split_text(text@, limit as int, rel) == split_from(
                    text@,
                    limit as int,
                    rel,
                    start as int,
                    search as int,
                    matched,
                    views(parts@),
                ),
        ensures
            n == v.len(),
            v@ == text@,
            start <= n,
            forall|rel: spec_fn(int) -> Result<Option<(int, int)>, Seq<char>>| #[trigger]
                finds(find, rel) ==> split_text(text@, limit as int, rel) == Ok::<
                    Seq<Seq<char>>,
                    Seq<char>,
                >(split_end(text@, limit as int, start as int, matched, views(parts@))),
        decreases n + 1 - search,
    {
        if limit > 0 && parts.len() as i128 == limit as i128 - 1 {
            break ;
        }
        let answer: Result<Option<(usize, usize)>, String> = find(search);
        assert(call_ensures(find, (search,), answer));
        match answer {
            Err(e) => {
                assert(gives_up(find, e));
                return Err(e);
            },
            Ok(None) => {
                break ;
            },
            Ok(Some((a, b))) => {
                if a == 0 && b == 0 {
                    if search >= 1 {
                        return Err(own("match out of order"));
                    }
                    search = 1;
                    continue ;
                }
                if !(start <= a && a <= b && b <= n) || (a < b && b <= search) || (a == b && b
                    < search) {
                    return Err(own("match out of order"));
                }
                let ghost before = views(parts@);
                parts.push(text_between(&v, start, a));
                assert(views(parts@) =~= before.push(text@.subrange(start as int, a as int)));
                matched = true;
                start = b;
                if a == b {
                    if b == n {
                        proof {
                            assert forall|rel: spec_fn(int) -> Result<
                                Option<(int, int)>,
                                Seq<char>,
                            >| #[trigger] finds(find, rel) implies split_text(
                                text@,
                                limit as int,
                                rel,
                            ) == Ok::<Seq<Seq<char>>, Seq<char>>(
                                split_end(
                                    text@,
                                    limit as int,
                                    start as int,
                                    matched,
                                    views(parts@),
                                ),
                            ) by {
                                assert(split_from(
                                    text@,
                                    limit as int,
                                    rel,
                                    start as int,
                                    b + 1,
                                    matched,
                                    views(parts@),
                                ) == Ok::<Seq<Seq<char>>, Seq<char>>(
                                    split_end(
                                        text@,
                                        limit as int,
                                        start as int,
                                        matched,
                                        views(parts@),
                                    ),
                                ));
                            }
                        }
                        break ;
                    }
                    search = b + 1;
                } else {
                    search = b;
                }
            },
        }
    }
    Ok(finish_split(&v, limit, start, matched, parts))
}

// ── Replacement ─────────────────────────────────────────────────────────────

/// The text of a span; a span outside the text is empty.
pub open spec fn span_text(text: Seq<char>, a: int, b: int) -> Seq<char> {
    if 0 <= a <= b <= text.len() {
        text.subrange(a, b)
    } else {
        seq![]
    }
}

/// The text of a group; one that took no part in the match has none.
pub open spec fn group_text(text: Seq<char>, group: Option<(int, int)>) -> Seq<char> {
    match group {
        Some((a, b)) => span_text(text, a, b),
        None => seq![],
    }
}

/// The number of the last group with a name, `None` when no group has it.
pub open spec fn named_group(
    groups: Seq<Option<(int, int)>>,
    names: Seq<Option<Seq<char>>>,
    name: Seq<char>,
) -> Option<int>
    decreases names.len(),
{
    if names.len() == 0 {
        None
    } else if names.last() == Some(name) {
        if names.len() - 1 < groups.len() {
            Some(names.len() - 1)
        } else {
            None
        }
    } else {
        named_group(groups, names.drop_last(), name)
    }
}

/// A group number read from its first digit on: further digits are taken in as
/// long as they make the number of a group there is. Gives the number and where
/// it ends.
pub open spec fn group_number(s: Seq<char>, i: int, n: int, count: int) -> (int, int)
    decreases s.len() - i,
{
    if 0 <= i < s.len() && is_dec(s[i]) && n * 10 + digit_value(s[i]) < count {
        group_number(s, i + 1, n * 10 + digit_value(s[i]), count)
    } else {
        (n, i)
    }
}

/// Java's replacement grammar from `i` on: `$n` and `${name}` refer to groups,
/// and `\` makes the next character literal.
pub open spec fn expanded(
    s: Seq<char>,
    i: int,
    out: Seq<char>,
    text: Seq<char>,
    groups: Seq<Option<(int, int)>>,
    names: Seq<Option<Seq<char>>>,
) -> Result<Seq<char>, Seq<char>>
    decreases s.len() - i,
{
    if i < 0 || i >= s.len() {
        Ok(out)
    } else if s[i] == '\\' {
        if i + 1 >= s.len() {
            Err("character to be escaped is missing"@)
        } else {
            expanded(s, i + 2, out.push(s[i + 1]), text, groups, names)
        }
    } else if s[i] != '$' {
        expanded(s, i + 1, out.push(s[i]), text, groups, names)
    } else if i + 1 < s.len() && s[i + 1] == '{' {
        let close = char_index(s, '}', i + 2);
        if close < i + 2 || close >= s.len() {
            Err("named capturing group is missing trailing '}'"@)
        } else {
            let name = s.subrange(i + 2, close);
            match named_group(groups, names, name) {
                None => Err("No group with name {"@ + name + "}"@),
                Some(n) => expanded(
                    s,
                    close + 1,
                    out + group_text(text, groups[n]),
                    text,
                    groups,
                    names,
                ),
            }
        }
    } else if i + 1 >= s.len() || !is_dec(s[i + 1]) {
        Err("Illegal group reference"@)
    } else {
        let first = digit_value(s[i + 1]);
        if first >= groups.len() {
            Err("No group "@ + dec(first))
        } else {
            let (n, end) = group_number(s, i + 2, first, groups.len() as int);
            if end <= i || end > s.len() {
                Ok(out)
            } else {
                expanded(s, end, out + group_text(text, groups[n]), text, groups, names)
            }
        }
    }
}

/// Spans as integers.
pub open spec fn span_ints(s: Seq<Option<(usize, usize)>>) -> Seq<Option<(int, int)>> {
    Seq::new(
        s.len(),
        |i: int|
            match s[i] {
                Some((a, b)) => Some((a as int, b as int)),
                None => None,
            },
    )
}

/// A span as integers.
pub open spec fn as_ints(span: Option<(usize, usize)>) -> Option<(int, int)> {
    match span {
        Some((a, b)) => Some((a as int, b as int)),
        None => None,
    }
}

fn push_group(out: &mut String, v: &Vec<char>, group: Option<(usize, usize)>)
    ensures
        final(out)@ == old(out)@ + group_text(v@, as_ints(group)),
{
    match group {
        Some((a, b)) => push_span(out, v, a, b),
        None => {
            assert(out@ =~= old(out)@ + group_text(v@, as_ints(group)));
        },
    }
}

fn push_span(out: &mut String, v: &Vec<char>, a: usize, b: usize)
    ensures
        final(out)@ == old(out)@ + span_text(v@, a as int, b as int),
{
    if a <= b && b <= v.len() {
        out.append(text_between(v, a, b).as_str());
    } else {
        assert(out@ =~= old(out)@ + span_text(v@, a as int, b as int));
    }
}

fn find_named(
    groups: &Vec<Option<(usize, usize)>>,
    names: &Vec<Option<String>>,
    name: &str,
) -> (r: Option<usize>)
    ensures
        match (r, named_group(span_ints(groups@), opt_views(names@), name@)) {
            (Some(x), Some(y)) => x == y && x < groups.len(),
            (None, None) => true,
            _ => false,
        },
{
    let mut k: usize = names.len();
    let ghost all = opt_views(names@);
    assert(all.take(k as int) =~= all);
    while k > 0
        invariant
            k <= names.len(),
            all == opt_views(names@),
            named_group(span_ints(groups@), all, name@) == named_group(
                span_ints(groups@),
                all.take(k as int),
                name@,
            ),
        decreases k,
    {
        proof {
            let t = all.take(k as int);
            assert(t.drop_last() =~= all.take(k - 1));
            assert(t.last() == opt_view(names@[k - 1]));
        }
        k -= 1;
        let hit: bool = match &names[k] {
            Some(n) => same(n.as_str(), name),
            None => false,
        };
        if hit {
            if k < groups.len() {
                return Some(k);
            }
            return None;
        }
    }
    None
}

fn read_group_number(s: &Vec<char>, from: usize, first: usize, count: usize) -> (r: (usize, usize))
    requires
        from <= s.len(),
        first < count,
    ensures
        (r.0 as int, r.1 as int) == group_number(s@, from as int, first as int, count as int),
        r.0 < count,
        from <= r.1 <= s.len(),
{
    let mut n: usize = first;
    let mut i: usize = from;
    while i < s.len() && '0' <= s[i] && s[i] <= '9'
        invariant
            from <= i <= s.len(),
            n < count,
            group_number(s@, from as int, first as int, count as int) == group_number(
                s@,
                i as int,
                n as int,
                count as int,
            ),
        decreases s.len() - i,
    {
        let d: u32 = code_of(s[i]) - 48;
        let wider: u128 = n as u128 * 10 + d as u128;
        if wider >= count as u128 {
            return (n, i);
        }
        n = wider as usize;
        i += 1;
    }
    (n, i)
}

/// Expand Java's replacement grammar against the groups of a match.
pub fn expand(
    replacement: &str,
    text: &Vec<char>,
    groups: &Vec<Option<(usize, usize)>>,
    names: &Vec<Option<String>>,
) -> (r: Result<String, String>)
    ensures
        match (
            r,
            expanded(replacement@, 0, seq![], text@, span_ints(groups@), opt_views(names@)),
        ) {
            (Ok(x), Ok(y)) => x@ == y,
            (Err(x), Err(y)) => x@ == y,
            _ => false,
        },
{
    let s: Vec<char> = chars_of(replacement);
    let ghost gs = span_ints(groups@);
    let ghost ns = opt_views(names@);
    let mut out: String = String::new();
    let mut i: usize = 0;
    while i < s.len()
        invariant
            i <= s.len(),
            s@ == replacement@,
            gs == span_ints(groups@),
            ns == opt_views(names@),
            expanded(replacement@, 0, seq![], text@, gs, ns) == expanded(
                replacement@,
                i as int,
                out@,
                text@,
                gs,
                ns,
            ),
        decreases s.len() - i,
    {
        let c: char = s[i];
        if c == '\\' {
            if i + 1 >= s.len() {
                return Err(own("character to be escaped is missing"));
            }
            out.push(s[i + 1]);
            i += 2;
        } else if c != '$' {
            out.push(c);
            i += 1;
        } else if i + 1 < s.len() && s[i + 1] == '{' {
            match find_char(&s, '}', i + 2) {
                None => {
                    return Err(own("named capturing group is missing trailing '}'"));
                },
                Some(close) => {
                    let name: String = text_between(&s, i + 2, close);
                    match find_named(groups, names, name.as_str()) {
                        None => {
                            let mut m: String = own("No group with name {");
                            m.append(name.as_str());
                            m.append("}");
                            return Err(m);
                        },
                        Some(n) => {
                            push_group(&mut out, text, groups[n]);
                            assert(gs[n as int] == as_ints(groups@[n as int]));
                            i = close + 1;
                        },
                    }
                },
            }
        } else if i + 1 >= s.len() || !('0' <= s[i + 1] && s[i + 1] <= '9') {
            return Err(own("Illegal group reference"));
        } else {
            let first: usize = (code_of(s[i + 1]) - 48) as usize;
            if first >= groups.len() {
                let mut m: String = own("No group ");
                m.append(size_text(first).as_str());
                return Err(m);
            }
            let (n, end): (usize, usize) = read_group_number(&s, i + 2, first, groups.len());
            assert(gs[n as int] == as_ints(groups@[n as int]));
            push_group(&mut out, text, groups[n]);
            i = end;
        }
    }
    Ok(out)
}

/// The groups of a match in character positions.
pub open spec fn groups_in_chars(text: Seq<char>, groups: Seq<Option<(usize, usize)>>) -> Seq<
    Option<(int, int)>,
> {
    Seq::new(
        groups.len(),
        |i: int|
            match groups[i] {
                Some((a, b)) => Some((char_of(text, a), char_of(text, b))),
                None => None,
            },
    )
}

/// A match's groups in character positions.
pub open spec fn captures_in_chars(
    text: Seq<char>,
    m: Result<Option<Seq<Option<(usize, usize)>>>, Seq<char>>,
) -> Result<Option<Seq<Option<(int, int)>>>, Seq<char>> {
    match m {
        Err(e) => Err(e),
        Ok(None) => Ok(None),
        Ok(Some(g)) => Ok(Some(groups_in_chars(text, g))),
    }
}

/// The replacement of matches from `search` on, `last` being the end of the
/// match before.
pub open spec fn replaced_from(
    text: Seq<char>,
    replacement: Seq<char>,
    first_only: bool,
    names: Seq<Option<Seq<char>>>,
    find: spec_fn(int) -> Result<Option<Seq<Option<(int, int)>>>, Seq<char>>,
    last: int,
    search: int,
    out: Seq<char>,
) -> Result<Seq<char>, Seq<char>>
    decreases text.len() + 1 - search,
{
    if search < 0 || search > text.len() {
        Ok(out + text.skip(last))
    } else {
        match find(search) {
            Err(e) => Err(e),
            Ok(None) => Ok(out + text.skip(last)),
            Ok(Some(groups)) => if groups.len() == 0 || groups[0] is None {
                Err(misplaced())
            } else {
                let (a, b) = groups[0]->0;
                if !comes_next(text, last, search, a, b) {
                    Err(misplaced())
                } else {
                    match expanded(replacement, 0, seq![], text, groups, names) {
                        Err(e) => Err(e),
                        Ok(piece) => {
                            let more = out + text.subrange(last, a) + piece;
                            if first_only {
                                Ok(more + text.skip(b))
                            } else {
                                replaced_from(
                                    text,
                                    replacement,
                                    first_only,
                                    names,
                                    find,
                                    b,
                                    past(a, b),
                                    more,
                                )
                            }
                        },
                    }
                }
            },
        }
    }
}

/// `String.replaceAll` or `replaceFirst`, given the groups of each match.
pub open spec fn replaced(
    text: Seq<char>,
    replacement: Seq<char>,
    first_only: bool,
    names: Seq<Option<Seq<char>>>,
    find: spec_fn(int) -> Result<Option<Seq<Option<(int, int)>>>, Seq<char>>,
) -> Result<Seq<char>, Seq<char>> {
    replaced_from(text, replacement, first_only, names, find, 0, 0, seq![])
}

/// Whether every answer of `f` is what `rel` gives.
pub open spec fn captures<F: Fn(usize) -> Result<Option<Vec<Option<(usize, usize)>>>, String>>(
    f: F,
    rel: spec_fn(int) -> Result<Option<Seq<Option<(int, int)>>>, Seq<char>>,
) -> bool {
    forall|i: usize, r: Result<Option<Vec<Option<(usize, usize)>>>, String>|
        call_ensures(f, (i,), r) ==> match (r, rel(i as int)) {
            (Ok(Some(x)), Ok(Some(y))) => span_ints(x@) == y,
            (Ok(None), Ok(None)) => true,
            (Err(x), Err(y)) => x@ == y,
            _ => false,
        }
}

/// Whether every match whose groups `f` gives lies at or behind where the search
/// for it began.
pub open spec fn captures_ahead<F: Fn(usize) -> Result<Option<Vec<Option<(usize, usize)>>>, String>>(
    f: F,
    n: int,
) -> bool {
    forall|i: usize, g: Vec<Option<(usize, usize)>>|
        #![trigger call_ensures(f, (i,), Ok(Some(g)))]
        i <= n && call_ensures(f, (i,), Ok(Some(g))) ==> g@.len() > 0 && (g@[0] matches Some((a, b))
            && i <= a <= b <= n)
}

/// Whether a replacement is refused with `m` for some groups of a match.
pub open spec fn refuses(
    replacement: Seq<char>,
    text: Seq<char>,
    names: Seq<Option<Seq<char>>>,
    m: Seq<char>,
) -> bool {
    exists|groups: Seq<Option<(int, int)>>| #[trigger]
        expanded(replacement, 0, seq![], text, groups, names) == Err::<Seq<char>, Seq<char>>(m)
}

/// Whether `r` is the text or the message `s`.
pub open spec fn text_result(r: Result<String, String>, s: Result<Seq<char>, Seq<char>>) -> bool {
    match (r, s) {
        (Ok(x), Ok(y)) => x@ == y,
        (Err(x), Err(y)) => x@ == y,
        _ => false,
    }
}

fn finish_replace(out: String, v: &Vec<char>, last: usize) -> (r: String)
    requires
        last <= v.len(),
    ensures
        r@ == out@ + v@.skip(last as int),
{
    let mut r: String = out;
    let rest: String = text_between(v, last, v.len());
    assert(rest@ =~= v@.skip(last as int));
    r.append(rest.as_str());
    r
}

/// `String.replaceAll` or `replaceFirst`, given the groups of the first match
/// at or after a position.
pub fn replace_with<F: Fn(usize) -> Result<Option<Vec<Option<(usize, usize)>>>, String>>(
    text: &str,
    replacement: &str,
    first_only: bool,
    names: &Vec<Option<String>>,
    find: F,
) -> (r: Result<String, String>)
    requires
        forall|i: usize| call_requires(find, (i,)),
    ensures
        forall|rel: spec_fn(int) -> Result<Option<Seq<Option<(int, int)>>>, Seq<char>>| #[trigger]
            captures(find, rel) ==> text_result(
                r,
                replaced(text@, replacement@, first_only, opt_views(names@), rel),
            ),
        captures_ahead(find, text@.len() as int) ==> (r matches Err(m) ==> refuses(
            replacement@,
            text@,
            opt_views(names@),
            m@,
        ) || exists|i: usize|
            call_ensures(find, (i,), Err::<Option<Vec<Option<(usize, usize)>>>, String>(m))),
{
    let v: Vec<char> = chars_of(text);
    let n: usize = v.len();
    let mut out: String = String::new();
    let mut last: usize = 0;
    let mut search: usize = 0;
    while search <= n
        invariant
            n == v.len(),
            v@ == text@,
            last <= n,
            last <= search,
            forall|i: usize| call_requires(find, (i,)),
            forall|rel: spec_fn(int) -> Result<Option<Seq<Option<(int, int)>>>, Seq<char>>|
             #[trigger]
                captures(find, rel) ==> replaced(
                    text@,
                    replacement@,
                    first_only,
                    opt_views(names@),
                    rel,
                ) == replaced_from(
                    text@,
                    replacement@,
                    first_only,
                    opt_views(names@),
                    rel,
                    last as int,
                    search as int,
                    out@,
                ),
        decreases n + 1 - search,
    {
        let answer: Result<Option<Vec<Option<(usize, usize)>>>, String> = find(search);
        assert(call_ensures(find, (search,), answer));
        match answer {
            Err(e) => {
                assert(call_ensures(
                    find,
                    (search,),
                    Err::<Option<Vec<Option<(usize, usize)>>>, String>(e),
                ));
                return Err(e);
            },
            Ok(None) => {
                return Ok(finish_replace(out, &v, last));
            },
            Ok(Some(groups)) => {
                let ghost gs = span_ints(groups@);
                if groups.len() == 0 {
                    return Err(own("match out of order"));
                }
                assert(gs[0] == (match groups@[0] {
                    Some((a, b)) => Some((a as int, b as int)),
                    None => None,
                }));
                let (a, b): (usize, usize) = match groups[0] {
                    Some(s) => s,
                    None => {
                        return Err(own("match out of order"));
                    },
                };
                if !(last <= a && a <= b && b <= n) || (a < b && b <= search) || (a == b && b
                    < search) {
                    return Err(own("match out of order"));
                }
                let piece: String = match expand(replacement, &v, &groups, names) {
                    Ok(p) => p,
                    Err(e) => {
                        return Err(e);
                    },
                };
                out.append(text_between(&v, last, a).as_str());
                out.append(piece.as_str());
                last = b;
                if first_only {
                    return Ok(finish_replace(out, &v, last));
                }
                if a == b {
                    if b == n {
                        proof {
                            assert forall|
                                rel: spec_fn(int) -> Result<
                                    Option<Seq<Option<(int, int)>>>,
                                    Seq<char>,
                                >,
                            | #[trigger]
                                captures(find, rel) implies replaced(
                                text@,
                                replacement@,
                                first_only,
                                opt_views(names@),
                                rel,
                            ) == Ok::<Seq<char>, Seq<char>>(out@ + text@.skip(last as int)) by {
                                assert(replaced_from(
                                    text@,
                                    replacement@,
                                    first_only,
                                    opt_views(names@),
                                    rel,
                                    last as int,
                                    b + 1,
                                    out@,
                                ) == Ok::<Seq<char>, Seq<char>>(out@ + text@.skip(last as int)));
                            }
                        }
                        return Ok(finish_replace(out, &v, last));
                    }
                    search = b + 1;
                } else {
                    search = b;
                }
            },
        }
    }
    Ok(finish_replace(out, &v, last))
}

impl Pattern {
    /// `String.matches`: whether a whole-input pattern matches, or the message
    /// of a search that gave up.
    pub fn matches_whole(&self, text: &str) -> (r: Result<bool, String>)
        ensures
            match r {
                Ok(b) => engine_matches(self.source(), text@) == Ok::<bool, Seq<char>>(b),
                Err(m) => engine_matches(self.source(), text@) == Err::<bool, Seq<char>>(m@),
            },
    {
        engine_is_match(&self.re, text)
    }

    /// The first match at or after a character position, in character positions.
    fn find_at(&self, v: &Vec<char>, text: &str, from: usize) -> (r: Result<
        Option<(usize, usize)>,
        String,
    >)
        requires
            v@ == text@,
            utf8_len(text@) <= usize::MAX,
        ensures
            !moves_start(self.source()) && from <= text@.len() ==> (r matches Ok(Some((a, b)))
                ==> from <= a <= b <= text@.len()),
            match (
                r,
                in_chars(
                    text@,
                    engine_find(
                        self.source(),
                        text@,
                        byte_position(
                            text@,
                            if from <= text@.len() {
                                from as int
                            } else {
                                text@.len() as int
                            },
                        ) as usize,
                    ),
                ),
            ) {
                (Ok(Some(x)), Ok(Some(y))) => x.0 == y.0 && x.1 == y.1,
                (Ok(None), Ok(None)) => true,
                (Err(x), Err(y)) => x@ == y,
                _ => false,
            },
    {
        let at: usize = byte_at(
            v,
            if from <= v.len() {
                from
            } else {
                v.len()
            },
        );
        assert(starts_char(text@, at));
        match engine_find_from(&self.re, text, at) {
            Err(e) => Err(e),
            Ok(None) => Ok(None),
            Ok(Some((a, b))) => {
                proof {
                    lemma_span_in_chars(self.source(), text@, from as int, at, a, b);
                }
                Ok(Some((char_at_byte(v, a), char_at_byte(v, b))))
            },
        }
    }

    /// The groups of the first match at or after a character position.
    fn captures_at(&self, v: &Vec<char>, text: &str, from: usize) -> (r: Result<
        Option<Vec<Option<(usize, usize)>>>,
        String,
    >)
        requires
            v@ == text@,
            utf8_len(text@) <= usize::MAX,
        ensures
            !moves_start(self.source()) && from <= text@.len() ==> (r matches Ok(Some(g))
                ==> g@.len() > 0 && (g@[0] matches Some((a, b)) && from <= a <= b <= text@.len())),
            match (
                r,
                captures_in_chars(
                    text@,
                    engine_captures(
                        self.source(),
                        text@,
                        byte_position(
                            text@,
                            if from <= text@.len() {
                                from as int
                            } else {
                                text@.len() as int
                            },
                        ) as usize,
                    ),
                ),
            ) {
                (Ok(Some(x)), Ok(Some(y))) => span_ints(x@) == y,
                (Ok(None), Ok(None)) => true,
                (Err(x), Err(y)) => x@ == y,
                _ => false,
            },
    {
        let at: usize = byte_at(
            v,
            if from <= v.len() {
                from
            } else {
                v.len()
            },
        );
        assert(starts_char(text@, at));
        match engine_captures_from(&self.re, text, at) {
            Err(e) => Err(e),
            Ok(None) => Ok(None),
            Ok(Some(g)) => {
                let r: Vec<Option<(usize, usize)>> = char_groups(v, &g);
                proof {
                    let (a, b) = g@[0]->0;
                    lemma_span_in_chars(self.source(), text@, from as int, at, a, b);
                    assert(span_ints(r@)[0] == groups_in_chars(v@, g@)[0]);
                    assert(span_ints(r@).len() == groups_in_chars(v@, g@).len());
                }
                Ok(Some(r))
            },
        }
    }

    /// `String.split(regex, limit)`: where the limit is positive the pattern is
    /// applied at most `limit - 1` times; where it is zero the empty fields at
    /// the end are dropped.
    pub fn split(&self, text: &str, limit: i64) -> (r: Result<Vec<String>, String>)
        ensures
            split_result(r, split_text(text@, limit as int, found_by(self.source(), text@))),
            !moves_start(self.source()) ==> (r matches Err(m) ==> exists|at: usize|
                #[trigger] engine_find(self.source(), text@, at) == Err::<
                    Option<(usize, usize)>,
                    Seq<char>,
                >(m@)),
    {
        let v: Vec<char> = chars_of(text);
        text_fits(text);
        let find = |i: usize| -> (r: Result<Option<(usize, usize)>, String>)
            ensures
                !moves_start(self.source()) && i <= text@.len() ==> (r matches Ok(Some((a, b)))
                    ==> i <= a <= b <= text@.len()),
                match (r, found_by(self.source(), text@)(i as int)) {
                    (Ok(Some(x)), Ok(Some(y))) => x.0 == y.0 && x.1 == y.1,
                    (Ok(None), Ok(None)) => true,
                    (Err(x), Err(y)) => x@ == y,
                    _ => false,
                },
            { self.find_at(&v, text, i) };
        assert(finds(find, found_by(self.source(), text@)));
        split_with(text, limit, find)
    }

    /// `String.replaceAll`, or `replaceFirst` where `first_only` is set.
    pub fn replace(&self, text: &str, replacement: &str, first_only: bool) -> (r: Result<
        String,
        String,
    >)
        ensures
            text_result(
                r,
                replaced(
                    text@,
                    replacement@,
                    first_only,
                    engine_names(self.source()),
                    captured_by(self.source(), text@),
                ),
            ),
            !moves_start(self.source()) ==> (r matches Err(m) ==> refuses(
                replacement@,
                text@,
                engine_names(self.source()),
                m@,
            ) || exists|at: usize|
                #[trigger] engine_captures(self.source(), text@, at) == Err::<
                    Option<Seq<Option<(usize, usize)>>>,
                    Seq<char>,
                >(m@)),
    {
        let v: Vec<char> = chars_of(text);
        text_fits(text);
        let names: Vec<Option<String>> = engine_group_names(&self.re);
        let find = |i: usize| -> (r: Result<Option<Vec<Option<(usize, usize)>>>, String>)
            ensures
                !moves_start(self.source()) && i <= text@.len() ==> (r matches Ok(Some(g))
                    ==> g@.len() > 0 && (g@[0] matches Some((a, b)) && i <= a <= b
                    <= text@.len())),
                match (r, captured_by(self.source(), text@)(i as int)) {
                    (Ok(Some(x)), Ok(Some(y))) => span_ints(x@) == y,
                    (Ok(None), Ok(None)) => true,
                    (Err(x), Err(y)) => x@ == y,
                    _ => false,
                },
            { self.captures_at(&v, text, i) };
        assert(captures(find, captured_by(self.source(), text@)));
        replace_with(text, replacement, first_only, &names, find)
    }
}

/// A span of bytes behind a position is one of characters behind it.
proof fn lemma_span_in_chars(
    source: Seq<char>,
    text: Seq<char>,
    from: int,
    at: usize,
    a: usize,
    b: usize,
)
    requires
        is_span(source, text, at, a, b),
        0 <= from,
        from <= text.len() ==> at == byte_position(text, from),
    ensures
        0 <= char_of(text, a) <= char_of(text, b) <= text.len(),
        !moves_start(source) && from <= text.len() ==> from <= char_of(text, a),
{
    let i = choose|i: int| 0 <= i <= text.len() && a == #[trigger] byte_position(text, i);
    let j = choose|j: int| 0 <= j <= text.len() && b == #[trigger] byte_position(text, j);
    positions_are_inverse(text, i);
    positions_are_inverse(text, j);
    if j < i {
        lemma_positions_ascend(text, j, i);
    }
    if i < from <= text.len() {
        lemma_positions_ascend(text, i, from);
    }
}

fn char_groups(v: &Vec<char>, g: &Vec<Option<(usize, usize)>>) -> (r: Vec<Option<(usize, usize)>>)
    requires
        groups_on_chars(v@, g@),
    ensures
        span_ints(r@) == groups_in_chars(v@, g@),
{
    let mut out: Vec<Option<(usize, usize)>> = Vec::new();
    let mut i: usize = 0;
    assert(span_ints(out@) =~= groups_in_chars(v@, g@.take(0)));
    while i < g.len()
        invariant
            i <= g.len(),
            groups_on_chars(v@, g@),
            span_ints(out@) == groups_in_chars(v@, g@.take(i as int)),
        decreases g.len() - i,
    {
        let ghost before = span_ints(out@);
        assert(groups_in_chars(v@, g@.take(i as int)).len() == i);
        match g[i] {
            None => {
                out.push(None);
                assert(span_ints(out@) =~= before.push(None));
            },
            Some((a, b)) => {
                assert(g@[i as int] == Some((a, b)));
                let x: usize = char_at_byte(v, a);
                let y: usize = char_at_byte(v, b);
                out.push(Some((x, y)));
                assert(span_ints(out@) =~= before.push(Some((x as int, y as int))));
            },
        }
        i += 1;
        assert(span_ints(out@) =~= groups_in_chars(v@, g@.take(i as int)));
    }
    assert(g@.take(g.len() as int) =~= g@);
    out
}

/// Where an expression matches in a text, at or after each character position.
pub open spec fn found_by(source: Seq<char>, text: Seq<char>) -> spec_fn(int) -> Result<
    Option<(int, int)>,
    Seq<char>,
> {
    |i: int|
        in_chars(
            text,
            engine_find(
                source,
                text,
                byte_position(
                    text,
                    if i <= text.len() {
                        i
                    } else {
                        text.len() as int
                    },
                ) as usize,
            ),
        )
}

/// The groups of an expression's matches in a text, at or after each character
/// position.
pub open spec fn captured_by(source: Seq<char>, text: Seq<char>) -> spec_fn(int) -> Result<
    Option<Seq<Option<(int, int)>>>,
    Seq<char>,
> {
    |i: int|
        captures_in_chars(
            text,
            engine_captures(
                source,
                text,
                byte_position(
                    text,
                    if i <= text.len() {
                        i
                    } else {
                        text.len() as int
                    },
                ) as usize,
            ),
        )
}

} // verus!
