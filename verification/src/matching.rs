//! What splitting and replacing by a pattern make of a text, and what a pattern is
//! rewritten to.
use vstd::prelude::*;

use crate::host::decimal::is_dec;
use crate::regex::{
    ScanV, default_flags, escape_text, expanded, group_number, literal, literals, past, quote_end,
    replaced, replaced_from, special, split_end, split_from, split_text, translate_step,
    translated, translated_from, wrote,
};
use crate::text::digit_value;

verus! {

// ── Splitting ───────────────────────────────────────────────────────────────

/// Fields with what separates them put back between each two.
pub open spec fn put_together(fields: Seq<Seq<char>>, between: Seq<Seq<char>>) -> Seq<char>
    decreases fields.len(),
{
    if fields.len() == 0 {
        seq![]
    } else if fields.len() == 1 {
        fields[0]
    } else {
        put_together(fields.drop_last(), between.drop_last()) + between.last() + fields.last()
    }
}

/// Whether a text is what a pattern matched somewhere.
pub open spec fn is_match_of(
    text: Seq<char>,
    find: spec_fn(int) -> Result<Option<(int, int)>, Seq<char>>,
    w: Seq<char>,
) -> bool {
    exists|i: int, a: int, b: int|
        0 <= a <= b <= text.len() && #[trigger] find(i) == Ok::<Option<(int, int)>, Seq<char>>(
            Some((a, b)),
        ) && w == #[trigger] text.subrange(a, b)
}

proof fn lemma_split(
    text: Seq<char>,
    limit: int,
    find: spec_fn(int) -> Result<Option<(int, int)>, Seq<char>>,
    start: int,
    search: int,
    matched: bool,
    parts: Seq<Seq<char>>,
    between: Seq<Seq<char>>,
) -> (all: Seq<Seq<char>>)
    requires
        limit != 0,
        0 <= start <= text.len(),
        parts.len() == between.len(),
        matched == (parts.len() > 0),
        !matched ==> start == 0,
        matched ==> put_together(parts, between.drop_last()) + between.last() == text.take(start),
        forall|k: int| 0 <= k < between.len() ==> is_match_of(text, find, #[trigger] between[k]),
        split_from(text, limit, find, start, search, matched, parts) is Ok,
    ensures
        ({
            let r = split_from(text, limit, find, start, search, matched, parts)->Ok_0;
            &&& r.len() == all.len() + 1
            &&& put_together(r, all) == text
            &&& forall|k: int| 0 <= k < all.len() ==> is_match_of(text, find, #[trigger] all[k])
        }),
    decreases text.len() + 1 - search,
{
    let done = search < 0 || search > text.len() || (limit > 0 && parts.len() == limit - 1)
        || find(search) == Ok::<Option<(int, int)>, Seq<char>>(None);
    if done {
        let r = split_end(text, limit, start, matched, parts);
        if matched {
            assert(r.drop_last() =~= parts);
            assert(text.take(start) + text.skip(start) =~= text);
            assert(put_together(r, between) == put_together(parts, between.drop_last())
                + between.last() + text.skip(start));
        }
        between
    } else {
        let (a, b) = find(search)->Ok_0->Some_0;
        if a == 0 && b == 0 {
            lemma_split(text, limit, find, start, 1, matched, parts, between)
        } else {
            let field = text.subrange(start, a);
            let gap = text.subrange(a, b);
            let more = parts.push(field);
            let gaps = between.push(gap);
            assert(more.drop_last() =~= parts);
            assert(gaps.drop_last() =~= between);
            assert(is_match_of(text, find, gap));
            assert forall|k: int| 0 <= k < gaps.len() implies is_match_of(
                text,
                find,
                #[trigger] gaps[k],
            ) by {
                if k < between.len() {
                    assert(gaps[k] == between[k]);
                }
            }
            if matched {
                assert(put_together(more, between) == put_together(parts, between.drop_last())
                    + between.last() + field);
                assert(text.take(start) + field + gap =~= text.take(b));
            } else {
                assert(put_together(more, between) == field);
                assert(field + gap =~= text.take(b));
            }
            lemma_split(text, limit, find, b, past(a, b), true, more, gaps)
        }
    }
}

/// Splitting loses nothing: the fields with the matches put back between each two
/// make the text, whatever limit other than zero there is.
pub proof fn splitting_loses_nothing(
    text: Seq<char>,
    limit: int,
    find: spec_fn(int) -> Result<Option<(int, int)>, Seq<char>>,
)
    requires
        limit != 0,
        split_text(text, limit, find) is Ok,
    ensures
        exists|between: Seq<Seq<char>>|
            between.len() + 1 == split_text(text, limit, find)->Ok_0.len() && #[trigger]
            put_together(split_text(text, limit, find)->Ok_0, between) == text && forall|k: int|
                0 <= k < between.len() ==> is_match_of(text, find, #[trigger] between[k]),
{
    let all = lemma_split(text, limit, find, 0, 0, false, seq![], seq![]);
    assert(put_together(split_text(text, limit, find)->Ok_0, all) == text);
}

// ── Replacing ───────────────────────────────────────────────────────────────

/// A replacement without a backslash and a dollar sign stands for itself.
pub proof fn plain_replacements_stand_for_themselves(
    s: Seq<char>,
    i: int,
    out: Seq<char>,
    text: Seq<char>,
    groups: Seq<Option<(int, int)>>,
    names: Seq<Option<Seq<char>>>,
)
    requires
        0 <= i <= s.len(),
        forall|k: int| i <= k < s.len() ==> #[trigger] s[k] != '\\' && s[k] != '$',
    ensures
        expanded(s, i, out, text, groups, names) == Ok::<Seq<char>, Seq<char>>(out + s.skip(i)),
    decreases s.len() - i,
{
    if i < s.len() {
        assert(s[i] != '\\' && s[i] != '$');
        plain_replacements_stand_for_themselves(s, i + 1, out.push(s[i]), text, groups, names);
        assert(out.push(s[i]) + s.skip(i + 1) =~= out + s.skip(i));
    } else {
        assert(out + s.skip(i) =~= out);
    }
}

/// In a replacement a backslash makes the next character stand for itself, and a
/// dollar sign with the number of a group stands for what the group matched;
/// without such a group it is refused.
pub proof fn references_stand_for_their_groups(
    s: Seq<char>,
    i: int,
    out: Seq<char>,
    text: Seq<char>,
    groups: Seq<Option<(int, int)>>,
    names: Seq<Option<Seq<char>>>,
)
    requires
        0 <= i < s.len() - 1,
        groups.len() <= 10,
    ensures
        s[i] == '\\' ==> expanded(s, i, out, text, groups, names) == expanded(
            s,
            i + 2,
            out.push(s[i + 1]),
            text,
            groups,
            names,
        ),
        s[i] == '$' && '0' < s[i + 1] <= '9' ==> {
            let n = s[i + 1] as int - '0' as int;
            &&& n >= groups.len() ==> expanded(s, i, out, text, groups, names) is Err
            &&& n < groups.len() && groups[n] is None ==> expanded(s, i, out, text, groups, names)
                == expanded(s, i + 2, out, text, groups, names)
            &&& n < groups.len() && (groups[n] matches Some((a, b)) && 0 <= a <= b <= text.len())
                ==> expanded(s, i, out, text, groups, names) == expanded(
                s,
                i + 2,
                out + text.subrange(groups[n]->Some_0.0, groups[n]->Some_0.1),
                text,
                groups,
                names,
            )
        },
{
    if s[i] == '$' && '0' < s[i + 1] <= '9' {
        let n = s[i + 1] as int - '0' as int;
        if n < groups.len() {
            assert(group_number(s, i + 2, n, groups.len() as int) == (n, i + 2)) by {
                if i + 2 < s.len() && is_dec(s[i + 2]) {
                    assert(n * 10 + digit_value(s[i + 2]) >= 10);
                }
            }
            if groups[n] is None {
                assert(out + Seq::<char>::empty() =~= out);
            }
        }
    }
}

/// Where nothing matches, replacing leaves the text alone. Replacing the first
/// match keeps what stands before and behind it; replacing all goes on behind it
/// and keeps what stands between.
pub proof fn replacing_keeps_what_is_not_matched(
    text: Seq<char>,
    replacement: Seq<char>,
    names: Seq<Option<Seq<char>>>,
    find: spec_fn(int) -> Result<Option<Seq<Option<(int, int)>>>, Seq<char>>,
    groups: Seq<Option<(int, int)>>,
    a: int,
    b: int,
)
    requires
        forall|k: int| 0 <= k < replacement.len() ==> #[trigger] replacement[k] != '\\'
            && replacement[k] != '$',
    ensures
        find(0) == Ok::<Option<Seq<Option<(int, int)>>>, Seq<char>>(None) ==> replaced(
            text,
            replacement,
            false,
            names,
            find,
        ) == Ok::<Seq<char>, Seq<char>>(text),
        find(0) == Ok::<Option<Seq<Option<(int, int)>>>, Seq<char>>(Some(groups)) && groups.len()
            > 0 && groups[0] == Some((a, b)) && 0 <= a < b <= text.len() ==> {
            &&& replaced(text, replacement, true, names, find) == Ok::<Seq<char>, Seq<char>>(
                text.take(a) + replacement + text.skip(b),
            )
            &&& find(b) == Ok::<Option<Seq<Option<(int, int)>>>, Seq<char>>(None) ==> replaced(
                text,
                replacement,
                false,
                names,
                find,
            ) == Ok::<Seq<char>, Seq<char>>(text.take(a) + replacement + text.skip(b))
        },
{
    plain_replacements_stand_for_themselves(replacement, 0, seq![], text, groups, names);
    assert(Seq::<char>::empty() + replacement.skip(0) =~= replacement);
    assert(Seq::<char>::empty() + text.skip(0) =~= text);
    if 0 <= a < b <= text.len() {
        let more = Seq::<char>::empty() + text.subrange(0, a) + replacement;
        assert(more =~= text.take(a) + replacement);
        assert(replaced_from(text, replacement, false, names, find, b, b, more) == match find(b) {
            Ok(None) => Ok(more + text.skip(b)),
            _ => replaced_from(text, replacement, false, names, find, b, b, more),
        });
    }
}

// ── Rewriting ───────────────────────────────────────────────────────────────

/// Whether a character means itself in every pattern.
pub open spec fn means_itself(c: char) -> bool {
    'a' <= c <= 'z' || 'A' <= c <= 'Z' || '0' <= c <= '9' || c == ' ' || c == ',' || c == ';' || c
        == '-' || c == '_' || c == ':' || c == '='
}

proof fn lemma_plain_pattern(p: Seq<char>, i: int, out: Seq<char>)
    requires
        0 <= i <= p.len(),
        forall|k: int| 0 <= k < p.len() ==> means_itself(#[trigger] p[k]),
    ensures
        translated_from(p, i, scan_of(out), p) == Ok::<Seq<char>, Seq<char>>(out + p.skip(i)),
    decreases p.len() - i,
{
    if i < p.len() {
        assert(means_itself(p[i]));
        let next = wrote(scan_of(out), seq![p[i]]);
        assert(next == scan_of(out.push(p[i]))) by {
            assert(out + seq![p[i]] =~= out.push(p[i]));
        }
        lemma_plain_pattern(p, i + 1, out.push(p[i]));
        assert(out.push(p[i]) + p.skip(i + 1) =~= out + p.skip(i));
    } else {
        assert(out + p.skip(i) =~= out);
    }
}

/// A scan outside any group or class, with something written.
pub open spec fn scan_of(out: Seq<char>) -> ScanV {
    ScanV { out, in_class: false, flags: default_flags(), stack: seq![] }
}

/// A pattern of characters that mean themselves stays as it is.
pub proof fn plain_patterns_stay(p: Seq<char>)
    requires
        forall|k: int| 0 <= k < p.len() ==> means_itself(#[trigger] p[k]),
    ensures
        translated(p) == Ok::<Seq<char>, Seq<char>>(p),
{
    lemma_plain_pattern(p, 0, seq![]);
    assert(Seq::<char>::empty() + p.skip(0) =~= p);
}

/// The classes behind a backslash are those of ASCII: digits, word characters and
/// white space, and each capital letter is the opposite of the small one.
pub proof fn classes_are_of_ascii()
    ensures
        translated(seq!['\\', 'd']) == Ok::<Seq<char>, Seq<char>>("[[:digit:]]"@),
        translated(seq!['\\', 'w']) == Ok::<Seq<char>, Seq<char>>("[[:word:]]"@),
        translated(seq!['\\', 's']) == Ok::<Seq<char>, Seq<char>>("[[:space:]]"@),
        translated(seq!['\\', 'D']) == Ok::<Seq<char>, Seq<char>>("[^[:digit:]]"@),
        translated(seq!['\\', 'W']) == Ok::<Seq<char>, Seq<char>>("[^[:word:]]"@),
        translated(seq!['\\', 'S']) == Ok::<Seq<char>, Seq<char>>("[^[:space:]]"@),
{
    reveal_strlit("[:digit:]");
    reveal_strlit("[:word:]");
    reveal_strlit("[:space:]");
    reveal_strlit("[");
    reveal_strlit("]");
    reveal_strlit("[^");
    reveal_strlit("[[:digit:]]");
    reveal_strlit("[[:word:]]");
    reveal_strlit("[[:space:]]");
    reveal_strlit("[^[:digit:]]");
    reveal_strlit("[^[:word:]]");
    reveal_strlit("[^[:space:]]");
    lemma_class('d');
    lemma_class('w');
    lemma_class('s');
    lemma_class('D');
    lemma_class('W');
    lemma_class('S');
    assert("["@ + "[:digit:]"@ + "]"@ =~= "[[:digit:]]"@);
    assert("["@ + "[:word:]"@ + "]"@ =~= "[[:word:]]"@);
    assert("["@ + "[:space:]"@ + "]"@ =~= "[[:space:]]"@);
    assert("[^"@ + "[:digit:]"@ + "]"@ =~= "[^[:digit:]]"@);
    assert("[^"@ + "[:word:]"@ + "]"@ =~= "[^[:word:]]"@);
    assert("[^"@ + "[:space:]"@ + "]"@ =~= "[^[:space:]]"@);
}

proof fn lemma_class(c: char)
    requires
        c == 'd' || c == 'w' || c == 's' || c == 'D' || c == 'W' || c == 'S',
    ensures
        translated(seq!['\\', c]) == Ok::<Seq<char>, Seq<char>>(escape_text(c, false)->Some_0),
{
    let p = seq!['\\', c];
    let t = escape_text(c, false)->Some_0;
    let next = wrote(scan_of(seq![]), t);
    assert(translate_step(p, 0, scan_of(seq![]), p) == Ok::<(ScanV, int), Seq<char>>((next, 2)));
    assert(translated_from(p, 2, next, p) == Ok::<Seq<char>, Seq<char>>(next.out));
    assert(Seq::<char>::empty() + t =~= t);
}

/// Between its marks a quoted run means itself: what the engine reads as syntax is
/// escaped, and every other character stays.
pub proof fn quoted_runs_mean_themselves(p: Seq<char>, i: int, j: int, out: Seq<char>)
    requires
        0 <= i,
        i + 2 <= j <= p.len(),
        p[i] == '\\' && p[i + 1] == 'Q',
        j == p.len() || j + 1 < p.len() && p[j] == '\\' && p[j + 1] == 'E',
        forall|k: int|
            i + 2 <= k < j ==> !(#[trigger] p[k] == '\\' && k + 1 < p.len() && p[k + 1] == 'E'),
    ensures
        translated_from(p, i, scan_of(out), p) == translated_from(
            p,
            if j < p.len() {
                j + 2
            } else {
                j
            },
            scan_of(out + literals(p.subrange(i + 2, j), false, false)),
            p,
        ),
        forall|c: char| #[trigger] literal(c, false, false, true) == if special(c) {
            seq!['\\', c]
        } else {
            seq![c]
        },
{
    lemma_quote(p, i + 2, j);
}

proof fn lemma_quote(p: Seq<char>, i: int, j: int)
    requires
        0 <= i <= j <= p.len(),
        j == p.len() || j + 1 < p.len() && p[j] == '\\' && p[j + 1] == 'E',
        forall|k: int|
            i <= k < j ==> !(#[trigger] p[k] == '\\' && k + 1 < p.len() && p[k + 1] == 'E'),
    ensures
        quote_end(p, i) == j,
    decreases j - i,
{
    if i < j {
        lemma_quote(p, i + 1, j);
    }
}

/// Where case is folded a letter stands for itself and its other case.
pub proof fn folded_letters_have_two_cases(c: char, quoted: bool)
    requires
        'a' <= c <= 'z' || 'A' <= c <= 'Z',
    ensures
        ({
            let w = literal(c, false, true, quoted);
            &&& w.len() == 4 && w[0] == '[' && w[1] == c && w[3] == ']'
            &&& 'a' <= c <= 'z' ==> w[2] as int == c as int - 32
            &&& 'A' <= c <= 'Z' ==> w[2] as int == c as int + 32
        }),
        literal(c, false, false, quoted) == seq![c],
{
}

} // verus!
