//! What the lexer makes of the characters of a text: signs, words, numbers and
//! literals, with white space and comments between them.
use vstd::prelude::*;

use crate::lexer::{
    Tok, TokenV, block_end, fraction_end, in_line, in_word, is_digit, lexed, number_end, run_end,
    spaced_digits, starts_radix, string_body, unescaped, without_underscores, word_kind, words,
};
use crate::text::{all_digits, is_digit_in, number};

verus! {

/// How a sign is written; nothing for a token that is none.
pub open spec fn sign_text(k: Tok) -> Seq<char> {
    match k {
        Tok::LBrace => seq!['{'],
        Tok::RBrace => seq!['}'],
        Tok::LParen => seq!['('],
        Tok::RParen => seq![')'],
        Tok::LBracket => seq!['['],
        Tok::RBracket => seq![']'],
        Tok::Semi => seq![';'],
        Tok::Comma => seq![','],
        Tok::Dot => seq!['.'],
        Tok::Question => seq!['?'],
        Tok::Colon => seq![':'],
        Tok::ColonColon => seq![':', ':'],
        Tok::Arrow => seq!['-', '>'],
        Tok::Assign => seq!['='],
        Tok::PlusAssign => seq!['+', '='],
        Tok::MinusAssign => seq!['-', '='],
        Tok::StarAssign => seq!['*', '='],
        Tok::SlashAssign => seq!['/', '='],
        Tok::PercentAssign => seq!['%', '='],
        Tok::AmpAssign => seq!['&', '='],
        Tok::PipeAssign => seq!['|', '='],
        Tok::CaretAssign => seq!['^', '='],
        Tok::ShlAssign => seq!['<', '<', '='],
        Tok::ShrAssign => seq!['>', '>', '='],
        Tok::UshrAssign => seq!['>', '>', '>', '='],
        Tok::PlusPlus => seq!['+', '+'],
        Tok::MinusMinus => seq!['-', '-'],
        Tok::Plus => seq!['+'],
        Tok::Minus => seq!['-'],
        Tok::Star => seq!['*'],
        Tok::Slash => seq!['/'],
        Tok::Percent => seq!['%'],
        Tok::EqEq => seq!['=', '='],
        Tok::NotEq => seq!['!', '='],
        Tok::Lt => seq!['<'],
        Tok::Gt => seq!['>'],
        Tok::Le => seq!['<', '='],
        Tok::Ge => seq!['>', '='],
        Tok::AndAnd => seq!['&', '&'],
        Tok::OrOr => seq!['|', '|'],
        Tok::Not => seq!['!'],
        Tok::Amp => seq!['&'],
        Tok::Pipe => seq!['|'],
        Tok::Caret => seq!['^'],
        Tok::Tilde => seq!['~'],
        Tok::Shl => seq!['<', '<'],
        Tok::Shr => seq!['>', '>'],
        Tok::Ushr => seq!['>', '>', '>'],
        _ => seq![],
    }
}

/// How a keyword is written; nothing for a token that is none.
pub open spec fn keyword_text(k: Tok) -> Seq<char> {
    match k {
        Tok::Class => "class"@,
        Tok::Public => "public"@,
        Tok::Static => "static"@,
        Tok::Void => "void"@,
        Tok::If => "if"@,
        Tok::Else => "else"@,
        Tok::While => "while"@,
        Tok::For => "for"@,
        Tok::Do => "do"@,
        Tok::Switch => "switch"@,
        Tok::Case => "case"@,
        Tok::Default => "default"@,
        Tok::Return => "return"@,
        Tok::Break => "break"@,
        Tok::Continue => "continue"@,
        Tok::True => "true"@,
        Tok::False => "false"@,
        Tok::New => "new"@,
        _ => seq![],
    }
}

/// Whether a text stands at a place of another.
pub open spec fn stands_in(s: Seq<char>, i: int, w: Seq<char>) -> bool {
    &&& 0 <= i
    &&& i + w.len() <= s.len()
    &&& forall|k: int| 0 <= k < w.len() ==> s[i + k] == #[trigger] w[k]
}

/// Whether a text ends at a place, or goes on there with a space or a line end.
pub open spec fn breaks_at(s: Seq<char>, j: int) -> bool {
    j == s.len() || 0 <= j < s.len() && (s[j] == ' ' || s[j] == '\n')
}

/// A token without a number.
pub open spec fn marked(kind: Tok, text: Seq<char>, line: int) -> TokenV {
    TokenV { kind, text, value: 0, line: line as u32 }
}

/// A token with a number.
pub open spec fn numbered(kind: Tok, value: int, line: int) -> TokenV {
    TokenV { kind, text: seq![], value: value as i64, line: line as u32 }
}

/// A sign with a space behind it is the token of that sign.
#[verifier::rlimit(60)]
pub proof fn signs_are_lexed(s: Seq<char>, i: int, k: Tok, line: int, done: Seq<TokenV>)
    requires
        sign_text(k).len() > 0,
        stands_in(s, i, sign_text(k)),
        breaks_at(s, i + sign_text(k).len()),
    ensures
        lexed(s, i, line, done) == lexed(
            s,
            i + sign_text(k).len(),
            line,
            done.push(marked(k, seq![], line)),
        ),
{
    let w = sign_text(k);
    assert(s[i + 0] == w[0]);
    if w.len() > 1 {
        assert(s[i + 1] == w[1]);
    }
    if w.len() > 2 {
        assert(s[i + 2] == w[2]);
    }
    if w.len() > 3 {
        assert(s[i + 3] == w[3]);
    }
}

proof fn lemma_word_run(s: Seq<char>, i: int, j: int)
    requires
        0 <= i <= j <= s.len(),
        forall|k: int| i <= k < j ==> in_word(#[trigger] s[k]),
        j < s.len() ==> !in_word(s[j]),
    ensures
        run_end(s, i, words()) == j,
    decreases j - i,
{
    if i < j {
        lemma_word_run(s, i + 1, j);
    }
}

/// Whether a text is a word: letters, digits, `_` and `$`, and no digit first.
pub open spec fn is_one_word(w: Seq<char>) -> bool {
    &&& w.len() > 0
    &&& !('0' <= w[0] <= '9')
    &&& forall|k: int|
        0 <= k < w.len() ==> 'a' <= #[trigger] w[k] <= 'z' || 'A' <= w[k] <= 'Z' || '0' <= w[k]
            <= '9' || w[k] == '_' || w[k] == '$'
}

/// A word up to where it ends is the keyword that it spells, and otherwise a name
/// with its characters.
pub proof fn words_are_lexed(s: Seq<char>, i: int, w: Seq<char>, line: int, done: Seq<TokenV>)
    requires
        is_one_word(w),
        stands_in(s, i, w),
        i + w.len() < s.len() ==> !in_word(s[i + w.len()]),
    ensures
        (forall|k: Tok| keyword_text(k).len() > 0 ==> #[trigger] keyword_text(k) != w) ==> lexed(
            s,
            i,
            line,
            done,
        ) == lexed(s, i + w.len(), line, done.push(marked(Tok::Ident, w, line))),
        forall|k: Tok|
            keyword_text(k).len() > 0 && #[trigger] keyword_text(k) == w ==> lexed(s, i, line, done)
                == lexed(s, i + w.len(), line, done.push(marked(k, seq![], line))),
{
    let j = i + w.len();
    assert forall|k: int| i <= k < j implies in_word(#[trigger] s[k]) by {
        assert(s[i + (k - i)] == w[k - i]);
    }
    lemma_word_run(s, i, j);
    assert(s.subrange(i, j) =~= w) by {
        assert forall|k: int| 0 <= k < w.len() implies s.subrange(i, j)[k] == w[k] by {
            assert(s[i + k] == w[k]);
        }
    }
    assert(s[i + 0] == w[0]);
    lemma_keywords();
    assert(word_kind(w) != Tok::Ident ==> keyword_text(word_kind(w)) == w);
    assert forall|k: Tok| keyword_text(k).len() > 0 && #[trigger] keyword_text(k) == w implies lexed(
        s,
        i,
        line,
        done,
    ) == lexed(s, j, line, done.push(marked(k, seq![], line))) by {
        lemma_keyword_kind(k);
    }
    if forall|k: Tok| keyword_text(k).len() > 0 ==> #[trigger] keyword_text(k) != w {
        assert(keyword_text(word_kind(w)) != w || word_kind(w) == Tok::Ident);
        assert(word_kind(w) == Tok::Ident);
    }
}

proof fn lemma_keywords()
    ensures
        "class"@.len() == 5 && "class"@[0] == 'c' && "class"@[1] == 'l',
        "public"@.len() == 6 && "public"@[0] == 'p' && "public"@[1] == 'u',
        "static"@.len() == 6 && "static"@[0] == 's' && "static"@[1] == 't',
        "void"@.len() == 4 && "void"@[0] == 'v' && "void"@[1] == 'o',
        "if"@.len() == 2 && "if"@[0] == 'i' && "if"@[1] == 'f',
        "else"@.len() == 4 && "else"@[0] == 'e' && "else"@[1] == 'l',
        "while"@.len() == 5 && "while"@[0] == 'w' && "while"@[1] == 'h',
        "for"@.len() == 3 && "for"@[0] == 'f' && "for"@[1] == 'o',
        "do"@.len() == 2 && "do"@[0] == 'd' && "do"@[1] == 'o',
        "switch"@.len() == 6 && "switch"@[0] == 's' && "switch"@[1] == 'w',
        "case"@.len() == 4 && "case"@[0] == 'c' && "case"@[1] == 'a',
        "default"@.len() == 7 && "default"@[0] == 'd' && "default"@[1] == 'e',
        "return"@.len() == 6 && "return"@[0] == 'r' && "return"@[1] == 'e',
        "break"@.len() == 5 && "break"@[0] == 'b' && "break"@[1] == 'r',
        "continue"@.len() == 8 && "continue"@[0] == 'c' && "continue"@[1] == 'o',
        "true"@.len() == 4 && "true"@[0] == 't' && "true"@[1] == 'r',
        "false"@.len() == 5 && "false"@[0] == 'f' && "false"@[1] == 'a',
        "new"@.len() == 3 && "new"@[0] == 'n' && "new"@[1] == 'e',
        "case"@[2] == 's' && "while"@[2] == 'i' && "break"@[2] == 'e' && "class"@[2] == 'a' && "static"@[2] == 'a' && "switch"@[2] == 'i' && "return"@[2] == 't' && "public"@[2] == 'b',
{
    reveal_strlit("class");
    reveal_strlit("public");
    reveal_strlit("static");
    reveal_strlit("void");
    reveal_strlit("if");
    reveal_strlit("else");
    reveal_strlit("while");
    reveal_strlit("for");
    reveal_strlit("do");
    reveal_strlit("switch");
    reveal_strlit("case");
    reveal_strlit("default");
    reveal_strlit("return");
    reveal_strlit("break");
    reveal_strlit("continue");
    reveal_strlit("true");
    reveal_strlit("false");
    reveal_strlit("new");
}

proof fn lemma_keyword_kind(k: Tok)
    requires
        keyword_text(k).len() > 0,
    ensures
        word_kind(keyword_text(k)) == k,
{
    lemma_keywords();
}

/// White space is passed over, and the end of a line counts it.
pub proof fn white_space_is_passed_over(s: Seq<char>, i: int, line: int, done: Seq<TokenV>)
    requires
        0 <= i < s.len(),
        s[i] == ' ' || s[i] == '\t' || s[i] == '\r' || s[i] == '\n',
        0 <= line < u32::MAX,
    ensures
        s[i] != '\n' ==> lexed(s, i, line, done) == lexed(s, i + 1, line, done),
        s[i] == '\n' ==> lexed(s, i, line, done) == lexed(s, i + 1, line + 1, done),
{
}

proof fn lemma_line_run(s: Seq<char>, i: int, j: int)
    requires
        0 <= i <= j <= s.len(),
        forall|k: int| i <= k < j ==> #[trigger] s[k] != '\n',
        j < s.len() ==> s[j] == '\n',
    ensures
        run_end(s, i, in_line()) == j,
    decreases j - i,
{
    if i < j {
        lemma_line_run(s, i + 1, j);
    }
}

/// A comment behind two slashes goes to the end of its line.
pub proof fn line_comments_are_passed_over(
    s: Seq<char>,
    i: int,
    j: int,
    line: int,
    done: Seq<TokenV>,
)
    requires
        0 <= i,
        i + 2 <= j <= s.len(),
        s[i] == '/',
        s[i + 1] == '/',
        forall|k: int| i + 2 <= k < j ==> #[trigger] s[k] != '\n',
        j < s.len() ==> s[j] == '\n',
    ensures
        lexed(s, i, line, done) == lexed(s, j, line, done),
{
    lemma_line_run(s, i + 2, j);
}

proof fn lemma_block_run(s: Seq<char>, i: int, j: int, line: int)
    requires
        0 <= i <= j,
        j + 1 < s.len(),
        s[j] == '*',
        s[j + 1] == '/',
        forall|k: int| i <= k < j ==> #[trigger] s[k] != '\n' && !(s[k] == '*' && s[k + 1] == '/'),
    ensures
        block_end(s, i, line) == (j + 2, line),
    decreases j - i,
{
    if i < j {
        assert(s[i] != '\n');
        lemma_block_run(s, i + 1, j, line);
    }
}

/// A comment between its marks goes to the first one that closes it.
pub proof fn block_comments_are_passed_over(
    s: Seq<char>,
    i: int,
    j: int,
    line: int,
    done: Seq<TokenV>,
)
    requires
        0 <= i,
        i + 2 <= j,
        j + 1 < s.len(),
        s[i] == '/',
        s[i + 1] == '*',
        s[j] == '*',
        s[j + 1] == '/',
        forall|k: int|
            i + 2 <= k < j ==> #[trigger] s[k] != '\n' && !(s[k] == '*' && s[k + 1] == '/'),
    ensures
        lexed(s, i, line, done) == lexed(s, j + 2, line, done),
{
    lemma_block_run(s, i + 2, j, line);
}

proof fn lemma_digit_run(s: Seq<char>, i: int, j: int)
    requires
        0 <= i <= j <= s.len(),
        forall|k: int| i <= k < j ==> '0' <= #[trigger] s[k] <= '9',
        j < s.len() ==> !('0' <= s[j] <= '9') && s[j] != '_',
    ensures
        run_end(s, i, spaced_digits()) == j,
    decreases j - i,
{
    if i < j {
        lemma_digit_run(s, i + 1, j);
    }
}

proof fn lemma_no_underscore(s: Seq<char>)
    requires
        forall|k: int| 0 <= k < s.len() ==> #[trigger] s[k] != '_',
    ensures
        without_underscores(s) == s,
    decreases s.len(),
{
    if s.len() > 0 {
        lemma_no_underscore(s.drop_last());
        assert(s.drop_last().push(s.last()) =~= s);
    } else {
        assert(s =~= seq![]);
    }
}

/// Digits that do not start with a zero are a whole number in decimal, a `long`
/// with the letter behind it. A zero by itself is zero, and one in front of other
/// digits makes them octal.
pub proof fn whole_numbers_are_lexed(
    s: Seq<char>,
    i: int,
    d: Seq<char>,
    long: bool,
    line: int,
    done: Seq<TokenV>,
)
    requires
        d.len() > 0,
        forall|k: int| 0 <= k < d.len() ==> '0' <= #[trigger] d[k] <= '9',
        stands_in(s, i, d),
        long ==> i + d.len() < s.len() && (s[i + d.len()] == 'L' || s[i + d.len()] == 'l'),
        !long ==> breaks_at(s, i + d.len()) || s[i + d.len()] == ';' || s[i + d.len()] == ')',
        number(d, 10) <= i64::MAX,
    ensures
        d.len() == 1 || d[0] != '0' ==> lexed(s, i, line, done) == lexed(
            s,
            i + d.len() + (if long {
                1int
            } else {
                0
            }),
            line,
            done.push(
                numbered(
                    if long {
                        Tok::Long
                    } else {
                        Tok::Int
                    },
                    number(d, 10),
                    line,
                ),
            ),
        ),
        d.len() > 1 && d[0] == '0' && (forall|k: int| 0 <= k < d.len() ==> #[trigger] d[k] <= '7')
            && number(d.skip(1), 8) <= i64::MAX && !long ==> lexed(s, i, line, done) == lexed(
            s,
            i + d.len(),
            line,
            done.push(numbered(Tok::Int, number(d.skip(1), 8), line)),
        ),
{
    let j = i + d.len();
    assert forall|k: int| i <= k < j implies '0' <= #[trigger] s[k] <= '9' by {
        assert(s[i + (k - i)] == d[k - i]);
    }
    lemma_digit_run(s, i, j);
    assert(s.subrange(i, j) =~= d) by {
        assert forall|k: int| 0 <= k < d.len() implies s.subrange(i, j)[k] == d[k] by {
            assert(s[i + k] == d[k]);
        }
    }
    lemma_no_underscore(d);
    assert(s[i + 0] == d[0]);
    assert(!starts_radix(s, i)) by {
        if d.len() > 1 {
            assert(s[i + 1] == d[1]);
        }
    }
    assert(number_end(s, i) == (j, false));
    assert(all_digits(d, 10)) by {
        assert forall|k: int| 0 <= k < d.len() implies is_digit_in(#[trigger] d[k], 10) by {
            assert('0' <= d[k] <= '9');
        }
    }
    if forall|k: int| 0 <= k < d.len() ==> #[trigger] d[k] <= '7' {
        let e = d.skip(1);
        assert(all_digits(e, 8)) by {
            assert forall|k: int| 0 <= k < e.len() implies is_digit_in(#[trigger] e[k], 8) by {
                assert('0' <= d[k + 1] <= '9');
            }
        }
    }
    lemma_number_grows(d);
    if d.len() > 1 {
        assert forall|k: int| 0 <= k < d.skip(1).len() implies '0' <= #[trigger] d.skip(1)[k] <= '9' by {
            assert('0' <= d[k + 1] <= '9');
        }
    }
}

proof fn lemma_number_grows(d: Seq<char>)
    requires
        forall|k: int| 0 <= k < d.len() ==> '0' <= #[trigger] d[k] <= '9',
    ensures
        number(d, 10) >= 0,
    decreases d.len(),
{
    if d.len() > 0 {
        let r = d.drop_last();
        assert forall|k: int| 0 <= k < r.len() implies '0' <= #[trigger] r[k] <= '9' by {
            assert('0' <= d[k] <= '9');
        }
        lemma_number_grows(r);
        assert('0' <= d[d.len() - 1] <= '9');
    }
}

/// Digits, a point and digits are a floating literal with that text; the letter
/// `f` behind it makes it a `float`.
pub proof fn fractions_are_lexed(
    s: Seq<char>,
    i: int,
    a: Seq<char>,
    b: Seq<char>,
    narrow: bool,
    line: int,
    done: Seq<TokenV>,
)
    requires
        a.len() > 0,
        b.len() > 0,
        forall|k: int| 0 <= k < a.len() ==> '0' <= #[trigger] a[k] <= '9',
        forall|k: int| 0 <= k < b.len() ==> '0' <= #[trigger] b[k] <= '9',
        stands_in(s, i, a.push('.') + b),
        narrow ==> i + a.len() + 1 + b.len() < s.len() && s[i + a.len() + 1 + b.len()] == 'f',
        !narrow ==> breaks_at(s, i + a.len() + 1 + b.len()) || s[i + a.len() + 1 + b.len()] == ';',
    ensures
        lexed(s, i, line, done) == lexed(
            s,
            i + a.len() + 1 + b.len() + (if narrow {
                1int
            } else {
                0
            }),
            line,
            done.push(
                marked(
                    if narrow {
                        Tok::Float32
                    } else {
                        Tok::Float
                    },
                    a.push('.') + b,
                    line,
                ),
            ),
        ),
{
    let w = a.push('.') + b;
    let m = i + a.len();
    let j = m + 1 + b.len();
    assert forall|k: int| i <= k < m implies '0' <= #[trigger] s[k] <= '9' by {
        assert(s[i + (k - i)] == w[k - i] && w[k - i] == a[k - i]);
    }
    assert(s[i + a.len()] == w[a.len() as int] && w[a.len() as int] == '.');
    assert forall|k: int| m + 1 <= k < j implies '0' <= #[trigger] s[k] <= '9' by {
        assert(s[i + (k - i)] == w[k - i] && w[k - i] == b[k - m - 1]);
    }
    lemma_digit_run(s, i, m);
    lemma_digit_run(s, m + 1, j);
    assert(is_digit(s[m + 1]));
    assert(fraction_end(s, i) == (j, true));
    assert(number_end(s, i) == (j, true));
    assert(s.subrange(i, j) =~= w) by {
        assert forall|k: int| 0 <= k < w.len() implies s.subrange(i, j)[k] == w[k] by {
            assert(s[i + k] == w[k]);
        }
    }
    assert forall|k: int| 0 <= k < w.len() implies #[trigger] w[k] != '_' by {
        if k < a.len() {
            assert(w[k] == a[k]);
        } else if k > a.len() {
            assert(w[k] == b[k - a.len() - 1]);
        }
    }
    lemma_no_underscore(w);
    assert('0' <= s[i] <= '9');
    assert(!starts_radix(s, i)) by {
        assert(!('a' <= s[i + 1] <= 'z') && !('A' <= s[i + 1] <= 'Z'));
    }
}

proof fn lemma_plain_body(s: Seq<char>, i: int, j: int, line: int, held: Seq<char>)
    requires
        0 <= i <= j < s.len(),
        s[j] == '"',
        forall|k: int| i <= k < j ==> #[trigger] s[k] != '"' && s[k] != '\\' && s[k] != '\n',
    ensures
        string_body(s, i, line, held) == (Some((held + s.subrange(i, j), j)), line),
    decreases j - i,
{
    if i < j {
        lemma_plain_body(s, i + 1, j, line, held.push(s[i]));
        assert(held.push(s[i]) + s.subrange(i + 1, j) =~= held + s.subrange(i, j));
    } else {
        assert(held + s.subrange(i, j) =~= held);
    }
}

/// What stands between two quotes is a text with these characters.
pub proof fn texts_are_lexed(s: Seq<char>, i: int, w: Seq<char>, line: int, done: Seq<TokenV>)
    requires
        stands_in(s, i, seq!['"'] + w + seq!['"']),
        forall|k: int| 0 <= k < w.len() ==> #[trigger] w[k] != '"' && w[k] != '\\' && w[k] != '\n',
    ensures
        lexed(s, i, line, done) == lexed(
            s,
            i + w.len() + 2,
            line,
            done.push(marked(Tok::Str, w, line)),
        ),
{
    let all = seq!['"'] + w + seq!['"'];
    let j = i + 1 + w.len();
    assert(s[i + 0] == all[0]);
    assert(s[i + (1 + w.len())] == all[1 + w.len() as int]);
    assert forall|k: int| i + 1 <= k < j implies #[trigger] s[k] != '"' && s[k] != '\\' && s[k]
        != '\n' by {
        assert(s[i + (k - i)] == all[k - i] && all[k - i] == w[k - i - 1]);
    }
    lemma_plain_body(s, i + 1, j, line, seq![]);
    assert(Seq::<char>::empty() + s.subrange(i + 1, j) =~= w) by {
        assert forall|k: int| 0 <= k < w.len() implies s[i + 1 + k] == w[k] by {
            assert(s[i + (1 + k)] == all[1 + k]);
        }
    }
}

/// What a backslash and a character stand for in a literal.
pub open spec fn stands_for(c: char) -> char {
    match c {
        'n' => '\n',
        't' => '\t',
        'r' => '\r',
        '0' => '\0',
        _ => c,
    }
}

/// In a text a backslash and the character behind it stand for one character, and
/// a quote behind a backslash does not end it.
pub proof fn escapes_are_lexed(s: Seq<char>, i: int, c: char, line: int, done: Seq<TokenV>)
    requires
        stands_in(s, i, seq!['"', '\\', c, '"']),
    ensures
        lexed(s, i, line, done) == lexed(
            s,
            i + 4,
            line,
            done.push(marked(Tok::Str, seq![stands_for(c)], line)),
        ),
{
    let all = seq!['"', '\\', c, '"'];
    assert(s[i + 0] == all[0] && s[i + 1] == all[1] && s[i + 2] == all[2] && s[i + 3] == all[3]);
    let held = Seq::<char>::empty().push(unescaped(c));
    assert(string_body(s, i + 3, line, held) == (Some((held, i + 3)), line));
    assert(string_body(s, i + 1, line, seq![]) == string_body(s, i + 3, line, held));
    assert(held =~= seq![stands_for(c)]);
}

/// A character between single quotes is its code, and so is one behind a
/// backslash.
pub proof fn characters_are_lexed(s: Seq<char>, i: int, c: char, line: int, done: Seq<TokenV>)
    ensures
        stands_in(s, i, seq!['\'', c, '\'']) && c != '\\' ==> lexed(s, i, line, done) == lexed(
            s,
            i + 3,
            line,
            done.push(numbered(Tok::Char, c as int, line)),
        ),
        stands_in(s, i, seq!['\'', '\\', c, '\'']) && c <= '\x7f' ==> lexed(s, i, line, done)
            == lexed(s, i + 4, line, done.push(numbered(Tok::Char, stands_for(c) as int, line))),
{
    if stands_in(s, i, seq!['\'', c, '\'']) {
        let all = seq!['\'', c, '\''];
        assert(s[i + 0] == all[0] && s[i + 1] == all[1] && s[i + 2] == all[2]);
    }
    if stands_in(s, i, seq!['\'', '\\', c, '\'']) {
        let all = seq!['\'', '\\', c, '\''];
        assert(s[i + 0] == all[0] && s[i + 1] == all[1] && s[i + 2] == all[2] && s[i + 3] == all[3]);
    }
}

} // verus!
