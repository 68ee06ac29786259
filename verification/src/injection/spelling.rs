//! How the lexer reads the words and signs that the prelude is written in.
use vstd::prelude::*;

use crate::injection::vocabulary::is_common;
use crate::lexer::{
    Tok, TokenV, in_word, lexed, next_line, number_end, pair_kind, run_end, single_kind,
    spaced_digits, starts_word, string_body, symbol_at, without_underscores, word_kind, words,
};
use crate::text::{all_digits, number};

verus! {

/// What is lexed from a place on.
#[verifier::opaque]
pub open spec fn rest(s: Seq<char>, i: int, line: int, done: Seq<TokenV>) -> Result<
    Seq<TokenV>,
    Seq<char>,
> {
    lexed(s, i, line, done)
}

/// A token on a line.
pub open spec fn tok(kind: Tok, text: Seq<char>, line: int) -> TokenV {
    TokenV { kind, text, value: 0, line: line as u32 }
}

/// Whether a text stands at a place of another.
pub open spec fn spells(s: Seq<char>, i: int, w: Seq<char>) -> bool {
    0 <= i && i + w.len() <= s.len() && s.subrange(i, i + w.len()) =~= w
}

/// Whether a text is one word.
pub open spec fn is_word(w: Seq<char>) -> bool {
    w.len() > 0 && starts_word(w[0]) && forall|k: int| 0 <= k < w.len() ==> in_word(#[trigger] w[k])
}

/// A name as a token.
pub open spec fn name_tok(w: Seq<char>, line: int) -> TokenV {
    tok(Tok::Ident, w, line)
}

/// A word or sign that has no text of its own, as a token.
pub open spec fn sign_tok(kind: Tok, line: int) -> TokenV {
    tok(kind, seq![], line)
}

proof fn lemma_run_to(s: Seq<char>, i: int, j: int)
    requires
        0 <= i <= j <= s.len(),
        forall|k: int| i <= k < j ==> in_word(#[trigger] s[k]),
        j < s.len() ==> !in_word(s[j]),
    ensures
        run_end(s, i, words()) == j,
    decreases j - i,
{
    if i < j {
        lemma_run_to(s, i + 1, j);
    }
}

/// A word is one token.
pub proof fn lexes_word(s: Seq<char>, i: int, j: int, w: Seq<char>, line: int, done: Seq<TokenV>)
    requires
        spells(s, i, w),
        j == i + w.len(),
        is_word(w),
        j < s.len(),
        !in_word(s[j]),
    ensures
        rest(s, i, line, done) == rest(
            s,
            j,
            line,
            done.push(
                tok(
                    word_kind(w),
                    if word_kind(w) == Tok::Ident {
                        w
                    } else {
                        seq![]
                    },
                    line,
                ),
            ),
        ),
{
    reveal(rest);
    assert forall|k: int| i <= k < j implies in_word(#[trigger] s[k]) by {
        assert(s.subrange(i, j)[k - i] == w[k - i]);
    }
    assert(s.subrange(i, j)[0] == w[0]);
    lemma_run_to(s, i, j);
    assert(s.subrange(i, j) =~= w);
}

/// A name is one token.
pub proof fn lexes_name(s: Seq<char>, i: int, j: int, w: Seq<char>, line: int, done: Seq<TokenV>)
    requires
        spells(s, i, w),
        j == i + w.len(),
        is_word(w),
        word_kind(w) == Tok::Ident,
        j < s.len(),
        !in_word(s[j]),
    ensures
        rest(s, i, line, done) == rest(s, j, line, done.push(name_tok(w, line))),
{
    lexes_word(s, i, j, w, line, done);
}

/// A name with a space behind it.
pub proof fn lexes_name_space(s: Seq<char>, i: int, j: int, w: Seq<char>, line: int, done: Seq<TokenV>)
    requires
        spells(s, i, w),
        j == i + w.len() + 1,
        is_word(w),
        word_kind(w) == Tok::Ident,
        j <= s.len(),
        s[j - 1] == ' ',
    ensures
        rest(s, i, line, done) == rest(s, j, line, done.push(name_tok(w, line))),
{
    lexes_word(s, i, j - 1, w, line, done);
    lexes_space(s, j - 1, line, done.push(name_tok(w, line)));
}

/// A reserved word with a space behind it.
pub proof fn lexes_key_space(
    s: Seq<char>,
    i: int,
    j: int,
    w: Seq<char>,
    kind: Tok,
    line: int,
    done: Seq<TokenV>,
)
    requires
        spells(s, i, w),
        j == i + w.len() + 1,
        is_word(w),
        word_kind(w) == kind,
        kind != Tok::Ident,
        j <= s.len(),
        s[j - 1] == ' ',
    ensures
        rest(s, i, line, done) == rest(s, j, line, done.push(sign_tok(kind, line))),
{
    lexes_word(s, i, j - 1, w, line, done);
    lexes_space(s, j - 1, line, done.push(sign_tok(kind, line)));
}

/// A space is passed over.
pub proof fn lexes_space(s: Seq<char>, i: int, line: int, done: Seq<TokenV>)
    requires
        0 <= i < s.len(),
        s[i] == ' ',
    ensures
        rest(s, i, line, done) == rest(s, i + 1, line, done),
{
    reveal(rest);
}

/// The end of a line is passed over.
pub proof fn lexes_line(s: Seq<char>, i: int, line: int, done: Seq<TokenV>)
    requires
        0 <= i < s.len(),
        s[i] == '\n',
    ensures
        rest(s, i, line, done) == rest(s, i + 1, next_line(line), done),
{
    reveal(rest);
}

/// Whether a character starts a sign and nothing else.
pub open spec fn starts_sign(c: char) -> bool {
    c == '{' || c == '}' || c == '(' || c == ')' || c == '[' || c == ']' || c == ';' || c == ','
        || c == '.' || c == '?' || c == ':' || c == '<' || c == '>' || c == '=' || c == '!' || c
        == '&' || c == '|' || c == '+' || c == '-'
}

/// A sign is one token.
pub proof fn lexes_sign(s: Seq<char>, i: int, j: int, kind: Tok, line: int, done: Seq<TokenV>)
    requires
        0 <= i < j <= s.len(),
        starts_sign(s[i]),
        symbol_at(s, i) == Some((kind, j - i)),
    ensures
        rest(s, i, line, done) == rest(s, j, line, done.push(sign_tok(kind, line))),
{
    reveal(rest);
}

/// A zero is one token.
pub proof fn lexes_zero(s: Seq<char>, i: int, line: int, done: Seq<TokenV>)
    requires
        0 <= i < s.len() - 1,
        s[i] == '0',
        s[i + 1] == ' ' || s[i + 1] == ')',
    ensures
        rest(s, i, line, done) == rest(s, i + 1, line, done.push(sign_tok(Tok::Int, line))),
{
    reveal(rest);
    assert(run_end(s, i + 1, spaced_digits()) == i + 1);
    assert(run_end(s, i, spaced_digits()) == i + 1);
    assert(number_end(s, i) == (i + 1, false));
    let text = s.subrange(i, i + 1);
    assert(text.drop_last() =~= seq![]);
    assert(text.last() == '0');
    assert(without_underscores(seq![]) =~= seq![]);
    assert(without_underscores(text) =~= seq!['0']);
    lemma_zero();
}

proof fn lemma_zero()
    ensures
        all_digits(seq!['0'], 10),
        number(seq!['0'], 10) == 0,
{
    let z = seq!['0'];
    assert(z.drop_last() =~= seq![]);
    assert(number(seq![], 10) == 0);
}

/// The text of a colon and a space is one token.
pub proof fn lexes_colon_text(s: Seq<char>, i: int, line: int, done: Seq<TokenV>)
    requires
        0 <= i < s.len() - 3,
        s[i] == '"',
        s[i + 1] == ':',
        s[i + 2] == ' ',
        s[i + 3] == '"',
    ensures
        rest(s, i, line, done) == rest(
            s,
            i + 4,
            line,
            done.push(tok(Tok::Str, seq![':', ' '], line)),
        ),
{
    reveal(rest);
    let two = seq![':', ' '];
    let one = seq![':'];
    assert(string_body(s, i + 3, line, two) == (Some((two, i + 3)), line));
    assert(one.push(' ') =~= two);
    assert(string_body(s, i + 2, line, one) == (Some((two, i + 3)), line));
    assert(Seq::<char>::empty().push(':') =~= one);
    assert(string_body(s, i + 1, line, seq![]) == (Some((two, i + 3)), line));
}

/// What stands in a text that stands in another.
proof fn lemma_within(s: Seq<char>, b: int, text: Seq<char>, o: int)
    requires
        spells(s, b, text),
        0 <= o < text.len(),
    ensures
        s[b + o] == text[o],
{
    assert(s.subrange(b, b + text.len())[o] == text[o]);
}

proof fn lemma_word_within(s: Seq<char>, b: int, text: Seq<char>, o: int, w: Seq<char>)
    requires
        spells(s, b, text),
        spells(text, o, w),
    ensures
        spells(s, b + o, w),
{
    assert forall|k: int| 0 <= k < w.len() implies s[b + o + k] == #[trigger] w[k] by {
        assert(text.subrange(o, o + w.len())[k] == w[k]);
        lemma_within(s, b, text, o + k);
    }
}

/// Two texts that stand one behind the other.
pub proof fn spells_both(s: Seq<char>, b: int, x: Seq<char>, y: Seq<char>)
    requires
        spells(s, b, x + y),
    ensures
        spells(s, b, x),
        spells(s, b + x.len(), y),
{
    let both = x + y;
    assert forall|k: int| 0 <= k < x.len() implies s[b + k] == #[trigger] x[k] by {
        lemma_within(s, b, both, k);
    }
    assert forall|k: int| 0 <= k < y.len() implies s[b + x.len() + k] == #[trigger] y[k] by {
        lemma_within(s, b, both, x.len() + k);
    }
}

/// The character of a text that stands in another.
pub proof fn reads_gap(s: Seq<char>, b: int, text: Seq<char>, o: int)
    requires
        spells(s, b, text),
        0 <= o < text.len(),
    ensures
        s[b + o] == text[o],
{
    lemma_within(s, b, text, o);
}

/// The texts between the words.
pub proof fn signs_are_known()
    ensures
        "interface "@.len() == 10 && "interface "@[9] == ' ' && spells(
            "interface "@,
            0,
            "interface"@,
        ),
        " { "@.len() == 3 && " { "@[0] == ' ' && " { "@[1] == '{' && " { "@[2] == ' ',
        "; "@.len() == 2 && "; "@[0] == ';' && "; "@[1] == ' ',
        " "@.len() == 1 && " "@[0] == ' ',
        " }\n"@.len() == 3 && " }\n"@[0] == ' ' && " }\n"@[1] == '}' && " }\n"@[2] == '\n',
{
    reveal_strlit("interface ");
    reveal_strlit("interface");
    reveal_strlit(" { ");
    reveal_strlit("; ");
    reveal_strlit(" ");
    reveal_strlit(" }\n");
}

/// A name in a text, up to a sign.
pub proof fn reads_name(
    s: Seq<char>,
    b: int,
    text: Seq<char>,
    o: int,
    e: int,
    w: Seq<char>,
    line: int,
    done: Seq<TokenV>,
)
    requires
        spells(s, b, text),
        spells(text, o, w),
        e == o + w.len() < text.len(),
        is_common(w) || w == "this"@ && is_word(w) && word_kind(w) == Tok::Ident,
        starts_sign(text[e]),
    ensures
        rest(s, b + o, line, done) == rest(s, b + e, line, done.push(name_tok(w, line))),
{
    lemma_word_within(s, b, text, o, w);
    lemma_within(s, b, text, e);
    lexes_name(s, b + o, b + e, w, line, done);
}

/// A name in a text, with the space behind it.
pub proof fn reads_name_space(
    s: Seq<char>,
    b: int,
    text: Seq<char>,
    o: int,
    e: int,
    w: Seq<char>,
    line: int,
    done: Seq<TokenV>,
)
    requires
        spells(s, b, text),
        spells(text, o, w),
        e == o + w.len() + 1 <= text.len(),
        is_word(w),
        word_kind(w) == Tok::Ident,
        text[e - 1] == ' ',
    ensures
        rest(s, b + o, line, done) == rest(s, b + e, line, done.push(name_tok(w, line))),
{
    lemma_word_within(s, b, text, o, w);
    lemma_within(s, b, text, e - 1);
    lexes_name_space(s, b + o, b + e, w, line, done);
}

/// A reserved word in a text, with the space behind it.
pub proof fn reads_key_space(
    s: Seq<char>,
    b: int,
    text: Seq<char>,
    o: int,
    e: int,
    w: Seq<char>,
    kind: Tok,
    line: int,
    done: Seq<TokenV>,
)
    requires
        spells(s, b, text),
        spells(text, o, w),
        e == o + w.len() + 1 <= text.len(),
        is_word(w),
        word_kind(w) == kind,
        kind != Tok::Ident,
        text[e - 1] == ' ',
    ensures
        rest(s, b + o, line, done) == rest(s, b + e, line, done.push(sign_tok(kind, line))),
{
    lemma_word_within(s, b, text, o, w);
    lemma_within(s, b, text, e - 1);
    lexes_key_space(s, b + o, b + e, w, kind, line, done);
}

/// Whether a character is a sign by itself, whatever follows it.
pub open spec fn stands_alone(c: char) -> bool {
    c == '{' || c == '}' || c == '(' || c == ')' || c == '[' || c == ']' || c == ';' || c == ','
        || c == '.' || c == '?'
}

/// A sign of one character in a text.
pub proof fn reads_sign(
    s: Seq<char>,
    b: int,
    text: Seq<char>,
    o: int,
    kind: Tok,
    line: int,
    done: Seq<TokenV>,
)
    requires
        spells(s, b, text),
        0 <= o < text.len(),
        stands_alone(text[o]),
        single_kind(text[o]) == Some(kind),
    ensures
        rest(s, b + o, line, done) == rest(s, b + o + 1, line, done.push(sign_tok(kind, line))),
{
    lemma_within(s, b, text, o);
    lexes_sign(s, b + o, b + o + 1, kind, line, done);
}

/// A sign in a text that stands between it and a space or a name.
pub proof fn reads_operator_sign(
    s: Seq<char>,
    b: int,
    text: Seq<char>,
    o: int,
    e: int,
    kind: Tok,
    line: int,
    done: Seq<TokenV>,
)
    requires
        spells(s, b, text),
        0 <= o < e < text.len(),
        e <= o + 2,
        starts_sign(text[o]),
        text[e] == ' ' || in_word(text[e]),
        if e == o + 1 {
            single_kind(text[o]) == Some(kind)
        } else {
            pair_kind(text[o], text[o + 1]) == Some(kind)
        },
    ensures
        rest(s, b + o, line, done) == rest(s, b + e, line, done.push(sign_tok(kind, line))),
{
    lemma_within(s, b, text, o);
    lemma_within(s, b, text, e);
    lemma_within(s, b, text, o + 1);
    lexes_sign(s, b + o, b + e, kind, line, done);
}

/// A space in a text.
pub proof fn reads_space(s: Seq<char>, b: int, text: Seq<char>, o: int, line: int, done: Seq<TokenV>)
    requires
        spells(s, b, text),
        0 <= o < text.len(),
        text[o] == ' ',
    ensures
        rest(s, b + o, line, done) == rest(s, b + o + 1, line, done),
{
    lemma_within(s, b, text, o);
    lexes_space(s, b + o, line, done);
}

/// The end of a line in a text.
pub proof fn reads_line(s: Seq<char>, b: int, text: Seq<char>, o: int, line: int, done: Seq<TokenV>)
    requires
        spells(s, b, text),
        0 <= o < text.len(),
        text[o] == '\n',
    ensures
        rest(s, b + o, line, done) == rest(s, b + o + 1, next_line(line), done),
{
    lemma_within(s, b, text, o);
    lexes_line(s, b + o, line, done);
}

/// A zero in a text.
pub proof fn reads_zero(s: Seq<char>, b: int, text: Seq<char>, o: int, line: int, done: Seq<TokenV>)
    requires
        spells(s, b, text),
        0 <= o < text.len() - 1,
        text[o] == '0',
        text[o + 1] == ' ' || text[o + 1] == ')',
    ensures
        rest(s, b + o, line, done) == rest(s, b + o + 1, line, done.push(sign_tok(Tok::Int, line))),
{
    lemma_within(s, b, text, o);
    lemma_within(s, b, text, o + 1);
    lexes_zero(s, b + o, line, done);
}

/// The text of a colon and a space in a text.
pub proof fn reads_colon_text(
    s: Seq<char>,
    b: int,
    text: Seq<char>,
    o: int,
    line: int,
    done: Seq<TokenV>,
)
    requires
        spells(s, b, text),
        0 <= o < text.len() - 3,
        text[o] == '"',
        text[o + 1] == ':',
        text[o + 2] == ' ',
        text[o + 3] == '"',
    ensures
        rest(s, b + o, line, done) == rest(
            s,
            b + o + 4,
            line,
            done.push(tok(Tok::Str, seq![':', ' '], line)),
        ),
{
    lemma_within(s, b, text, o);
    lemma_within(s, b, text, o + 1);
    lemma_within(s, b, text, o + 2);
    lemma_within(s, b, text, o + 3);
    lexes_colon_text(s, b + o, line, done);
}

/// The end of the text is marked.
pub proof fn lexes_end(s: Seq<char>, line: int, done: Seq<TokenV>)
    ensures
        rest(s, s.len() as int, line, done) == Ok::<Seq<TokenV>, Seq<char>>(
            done.push(sign_tok(Tok::Eof, line)),
        ),
{
    reveal(rest);
}

} // verus!
