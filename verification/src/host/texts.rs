//! What the methods of a text mean, in terms of its characters.
use vstd::prelude::*;

use crate::host::{HostV, ObjV};
use crate::host::decimal::{blank_lead, blank_trail};
use crate::host::format::upper_text;
use crate::host::strings::{
    AnswerV, all_blank, bool_answer, char_result, int_answer, java_blank, last_index, lower_text,
    replaced_all, string_call, strip_lead, strip_trail, stripped, substring_result, text_answer,
    the_first_difference_decides,
};
use crate::text::{
    begins, ends, index_from, last_index_to, lemma_repeated_len, occurs_at, repeated,
    the_first_occurrence_is_found, the_last_occurrence_is_found,
};
use crate::value::{FaultV, Val, after_last};

verus! {

/// The names of the methods are different words.
proof fn lemma_methods_differ()
    ensures
        "charAt"@.len() == 6 && "charAt"@[0] == 'c' && "charAt"@[1] == 'h',
        "codePointAt"@.len() == 11 && "codePointAt"@[0] == 'c' && "codePointAt"@[2] == 'd',
        "compareTo"@.len() == 9 && "compareTo"@[0] == 'c',
        "compareToIgnoreCase"@.len() == 19,
        "concat"@.len() == 6 && "concat"@[0] == 'c' && "concat"@[1] == 'o',
        "contains"@.len() == 8 && "contains"@[0] == 'c',
        "contentEquals"@.len() == 13 && "contentEquals"@[0] == 'c',
        "endsWith"@.len() == 8 && "endsWith"@[0] == 'e',
        "equals"@.len() == 6 && "equals"@[0] == 'e' && "equals"@[1] == 'q',
        "equalsIgnoreCase"@.len() == 16,
        "formatted"@.len() == 9 && "formatted"@[0] == 'f',
        "getName"@.len() == 7 && "getName"@[0] == 'g' && "getName"@[1] == 'e' && "getName"@[2] == 't',
        "getSimpleName"@.len() == 13 && "getSimpleName"@[0] == 'g',
        "hashCode"@.len() == 8 && "hashCode"@[0] == 'h',
        "indexOf"@.len() == 7 && "indexOf"@[0] == 'i' && "indexOf"@[1] == 'n' && "indexOf"@[2] == 'd',
        "intern"@.len() == 6 && "intern"@[0] == 'i' && "intern"@[1] == 'n',
        "isBlank"@.len() == 7 && "isBlank"@[0] == 'i' && "isBlank"@[1] == 's' && "isBlank"@[2] == 'B',
        "isEmpty"@.len() == 7 && "isEmpty"@[0] == 'i' && "isEmpty"@[1] == 's' && "isEmpty"@[2] == 'E',
        "lastIndexOf"@.len() == 11 && "lastIndexOf"@[0] == 'l' && "lastIndexOf"@[2] == 's',
        "length"@.len() == 6 && "length"@[0] == 'l' && "length"@[1] == 'e',
        "matches"@.len() == 7 && "matches"@[0] == 'm' && "matches"@[1] == 'a' && "matches"@[2] == 't',
        "repeat"@.len() == 6 && "repeat"@[0] == 'r' && "repeat"@[1] == 'e',
        "replace"@.len() == 7 && "replace"@[0] == 'r' && "replace"@[1] == 'e' && "replace"@[2] == 'p',
        "replaceAll"@.len() == 10 && "replaceAll"@[0] == 'r',
        "replaceFirst"@.len() == 12 && "replaceFirst"@[0] == 'r',
        "split"@.len() == 5 && "split"@[1] == 'p',
        "startsWith"@.len() == 10 && "startsWith"@[0] == 's',
        "strip"@.len() == 5 && "strip"@[1] == 't',
        "stripLeading"@.len() == 12 && "stripLeading"@[0] == 's',
        "stripTrailing"@.len() == 13 && "stripTrailing"@[0] == 's',
        "substring"@.len() == 9 && "substring"@[0] == 's',
        "toCharArray"@.len() == 11 && "toCharArray"@[0] == 't' && "toCharArray"@[2] == 'C',
        "toLowerCase"@.len() == 11 && "toLowerCase"@[0] == 't' && "toLowerCase"@[2] == 'L',
        "toString"@.len() == 8 && "toString"@[0] == 't',
        "toUpperCase"@.len() == 11 && "toUpperCase"@[0] == 't' && "toUpperCase"@[2] == 'U',
        "trim"@.len() == 4,
{
    reveal_strlit("charAt");
    reveal_strlit("codePointAt");
    reveal_strlit("compareTo");
    reveal_strlit("compareToIgnoreCase");
    reveal_strlit("concat");
    reveal_strlit("contains");
    reveal_strlit("contentEquals");
    reveal_strlit("endsWith");
    reveal_strlit("equals");
    reveal_strlit("equalsIgnoreCase");
    reveal_strlit("formatted");
    reveal_strlit("getName");
    reveal_strlit("getSimpleName");
    reveal_strlit("hashCode");
    reveal_strlit("indexOf");
    reveal_strlit("intern");
    reveal_strlit("isBlank");
    reveal_strlit("isEmpty");
    reveal_strlit("lastIndexOf");
    reveal_strlit("length");
    reveal_strlit("matches");
    reveal_strlit("repeat");
    reveal_strlit("replace");
    reveal_strlit("replaceAll");
    reveal_strlit("replaceFirst");
    reveal_strlit("split");
    reveal_strlit("startsWith");
    reveal_strlit("strip");
    reveal_strlit("stripLeading");
    reveal_strlit("stripTrailing");
    reveal_strlit("substring");
    reveal_strlit("toCharArray");
    reveal_strlit("toLowerCase");
    reveal_strlit("toString");
    reveal_strlit("toUpperCase");
    reveal_strlit("trim");
}

/// Whether a method answers with a value.
pub open spec fn gives(r: Result<AnswerV, FaultV>, v: Val) -> bool {
    r == Ok::<AnswerV, FaultV>(AnswerV::Value(v))
}

/// Whether a method answers with a fault of a class.
pub open spec fn faults(r: Result<AnswerV, FaultV>, class: Seq<char>) -> bool {
    r matches Err(f) && f.class == class
}

/// The text that a method answers with.
pub open spec fn text_given(r: Result<AnswerV, FaultV>) -> Seq<char> {
    r->Ok_0->Value_0->Str_0
}

/// A text as an argument.
pub open spec fn one_text(s: Seq<char>) -> Seq<Val> {
    seq![Val::Str(s)]
}

/// A number as an argument.
pub open spec fn one_number(n: i64) -> Seq<Val> {
    seq![Val::Int(n)]
}

#[verifier::rlimit(60)]
proof fn lemma_one(h: HostV, s: Seq<char>, t: Seq<char>)
    ensures
        string_call(h, s, "indexOf"@, one_text(t)) == int_answer(index_from(s, t, 0)),
        string_call(h, s, "lastIndexOf"@, one_text(t)) == int_answer(
            last_index(s, t, s.len() as int),
        ),
        string_call(h, s, "contains"@, one_text(t)) == bool_answer(index_from(s, t, 0) >= 0),
        string_call(h, s, "startsWith"@, one_text(t)) == bool_answer(begins(s, t)),
        string_call(h, s, "endsWith"@, one_text(t)) == bool_answer(ends(s, t)),
{
    lemma_methods_differ();
}

#[verifier::rlimit(60)]
proof fn lemma_two(h: HostV, s: Seq<char>, t: Seq<char>, a: i64, b: i64)
    ensures
        string_call(h, s, "substring"@, seq![Val::Int(a), Val::Int(b)]) == substring_result(
            s,
            a as int,
            b as int,
        ),
        string_call(h, s, "substring"@, one_number(a)) == substring_result(
            s,
            a as int,
            s.len() as int,
        ),
        string_call(h, s, "lastIndexOf"@, seq![Val::Str(t), Val::Int(b)]) == int_answer(
            last_index(s, t, b as int),
        ),
        string_call(h, s, "startsWith"@, seq![Val::Str(t), Val::Int(b)]) == bool_answer(
            occurs_at(s, t, b as int),
        ),
        string_call(h, s, "charAt"@, one_number(a)) == char_result(s, a as int),
{
    lemma_methods_differ();
}

#[verifier::rlimit(60)]
proof fn lemma_strips(h: HostV, s: Seq<char>)
    ensures
        string_call(h, s, "strip"@, seq![]) == text_answer(stripped(s, true, true)),
        string_call(h, s, "stripLeading"@, seq![]) == text_answer(stripped(s, true, false)),
        string_call(h, s, "stripTrailing"@, seq![]) == text_answer(stripped(s, false, true)),
        string_call(h, s, "isBlank"@, seq![]) == bool_answer(all_blank(s)),
{
    lemma_methods_differ();
}

/// A class without a package is named as it is.
proof fn lemma_unqualified(w: Seq<char>)
    requires
        forall|i: int| 0 <= i < w.len() ==> #[trigger] w[i] != '.',
    ensures
        after_last(w, '.') == w,
    decreases w.len(),
{
    if w.len() > 0 {
        lemma_unqualified(w.drop_last());
        assert(w.drop_last().push(w.last()) =~= w);
    }
}

proof fn lemma_faults()
    ensures
        after_last("StringIndexOutOfBoundsException"@, '.') == "StringIndexOutOfBoundsException"@,
        after_last("IllegalArgumentException"@, '.') == "IllegalArgumentException"@,
{
    reveal_strlit("StringIndexOutOfBoundsException");
    reveal_strlit("IllegalArgumentException");
    lemma_unqualified("StringIndexOutOfBoundsException"@);
    lemma_unqualified("IllegalArgumentException"@);
}

// ── Characters and parts ────────────────────────────────────────────────────

/// `length` counts the characters, `isEmpty` says that there is none, and
/// `toCharArray` gives each in its place.
#[verifier::rlimit(60)]
pub proof fn a_text_is_its_characters(h: HostV, s: Seq<char>)
    requires
        s.len() <= i64::MAX,
    ensures
        gives(string_call(h, s, "length"@, seq![]), Val::Int(s.len() as i64)),
        gives(string_call(h, s, "isEmpty"@, seq![]), Val::Bool(s.len() == 0)),
        gives(string_call(h, s, "toString"@, seq![]), Val::Str(s)),
        string_call(h, s, "toCharArray"@, seq![]) matches Ok(AnswerV::Alloc(ObjV::Array(items)))
            && items.len() == s.len() && forall|i: int|
            0 <= i < s.len() ==> #[trigger] items[i] == Val::Int((s[i] as int) as i64),
{
    lemma_methods_differ();
}

/// `charAt` gives the character at an index inside the text and fails outside it.
#[verifier::rlimit(60)]
pub proof fn each_index_has_its_character(h: HostV, s: Seq<char>, i: i64)
    ensures
        0 <= i < s.len() ==> gives(
            string_call(h, s, "charAt"@, one_number(i)),
            Val::Int((s[i as int] as int) as i64),
        ),
        !(0 <= i < s.len()) ==> faults(
            string_call(h, s, "charAt"@, one_number(i)),
            "StringIndexOutOfBoundsException"@,
        ),
{
    lemma_faults();
    lemma_two(h, s, seq![], i, 0);
}

/// `substring` gives what stands from one index up to another, whose characters
/// are those of the text in their order, and fails where these are not in order
/// or not inside the text. Without an end it goes to the end of the text.
#[verifier::rlimit(60)]
pub proof fn a_substring_stands_in_its_text(h: HostV, s: Seq<char>, a: i64, b: i64)
    requires
        s.len() <= i64::MAX,
    ensures
        ({
            let r = string_call(h, s, "substring"@, seq![Val::Int(a), Val::Int(b)]);
            let t = text_given(r);
            &&& 0 <= a <= b <= s.len() ==> gives(r, Val::Str(t)) && t.len() == b - a
                && forall|k: int| 0 <= k < b - a ==> #[trigger] t[k] == s[a + k]
            &&& !(0 <= a <= b <= s.len()) ==> faults(r, "StringIndexOutOfBoundsException"@)
        }),
        string_call(h, s, "substring"@, one_number(a)) == string_call(
            h,
            s,
            "substring"@,
            seq![Val::Int(a), Val::Int(s.len() as i64)],
        ),
{
    lemma_faults();
    lemma_two(h, s, seq![], a, b);
    lemma_two(h, s, seq![], a, s.len() as i64);
}

/// A text cut in two is what `concat` makes of the two parts.
#[verifier::rlimit(60)]
pub proof fn the_parts_of_a_text_are_joined(h: HostV, s: Seq<char>, i: i64)
    requires
        0 <= i <= s.len() <= i64::MAX,
    ensures
        ({
            let front = text_given(
                string_call(h, s, "substring"@, seq![Val::Int(0), Val::Int(i)]),
            );
            let back = text_given(string_call(h, s, "substring"@, one_number(i)));
            gives(string_call(h, front, "concat"@, one_text(back)), Val::Str(s))
        }),
{
    lemma_methods_differ();
    assert(s.subrange(0, i as int) + s.subrange(i as int, s.len() as int) =~= s);
}

/// `concat` puts one text behind another.
#[verifier::rlimit(60)]
pub proof fn concat_puts_behind(h: HostV, s: Seq<char>, t: Seq<char>)
    ensures
        gives(string_call(h, s, "concat"@, one_text(t)), Val::Str(s + t)),
{
    lemma_methods_differ();
}

// ── Searching ───────────────────────────────────────────────────────────────

/// `indexOf` gives the first place at or behind a start where the other text
/// stands, and -1 where there is none.
#[verifier::rlimit(60)]
pub proof fn index_of_is_the_first_place(h: HostV, s: Seq<char>, t: Seq<char>, from: i64)
    requires
        s.len() <= i64::MAX,
    ensures
        ({
            let r = string_call(h, s, "indexOf"@, seq![Val::Str(t), Val::Int(from)]);
            let i = r->Ok_0->Value_0->Int_0 as int;
            let start = if from < 0 {
                0
            } else {
                from as int
            };
            &&& gives(r, Val::Int(i as i64))
            &&& i == -1 || 0 <= i && i + t.len() <= s.len() && s.subrange(i, i + t.len()) == t
            &&& i != -1 && from <= s.len() ==> start <= i
            &&& forall|k: int|
                start <= k && k + t.len() <= s.len() && (i == -1 || k < i)
                    ==> #[trigger] s.subrange(k, k + t.len()) != t
        }),
        string_call(h, s, "indexOf"@, one_text(t)) == string_call(
            h,
            s,
            "indexOf"@,
            seq![Val::Str(t), Val::Int(0)],
        ),
{
    lemma_methods_differ();
    let n = s.len() as int;
    let start = if from < 0 {
        0
    } else if from > n {
        n
    } else {
        from as int
    };
    the_first_occurrence_is_found(s, t, start);
    let i = index_from(s, t, start);
    assert(-1 <= i <= n);
    assert forall|k: int| start <= k && k + t.len() <= n && (i == -1 || k < i) implies #[trigger] s.subrange(
        k,
        k + t.len(),
    ) != t by {
        assert(!occurs_at(s, t, k));
    }
}

/// `lastIndexOf` gives the last place at or before a start where the other text
/// stands, and -1 where there is none. Without a start it looks at the whole text.
#[verifier::rlimit(60)]
pub proof fn last_index_of_is_the_last_place(h: HostV, s: Seq<char>, t: Seq<char>, from: i64)
    requires
        s.len() <= i64::MAX,
    ensures
        ({
            let r = string_call(h, s, "lastIndexOf"@, seq![Val::Str(t), Val::Int(from)]);
            let i = r->Ok_0->Value_0->Int_0 as int;
            &&& gives(r, Val::Int(i as i64))
            &&& i == -1 || 0 <= i <= from && i + t.len() <= s.len() && s.subrange(i, i + t.len())
                == t
            &&& forall|k: int|
                0 <= k <= from && k + t.len() <= s.len() && (i == -1 || k > i)
                    ==> #[trigger] s.subrange(k, k + t.len()) != t
        }),
        string_call(h, s, "lastIndexOf"@, one_text(t)) == string_call(
            h,
            s,
            "lastIndexOf"@,
            seq![Val::Str(t), Val::Int(s.len() as i64)],
        ),
{
    lemma_one(h, s, t);
    lemma_two(h, s, t, 0, from);
    lemma_two(h, s, t, 0, s.len() as i64);
    let n = s.len() as int;
    let start = if from < n - t.len() {
        from as int
    } else {
        n - t.len()
    };
    the_last_occurrence_is_found(s, t, start);
    let i = if start < 0 {
        -1
    } else {
        last_index_to(s, t, start)
    };
    assert forall|k: int| 0 <= k <= from && k + t.len() <= n && (i == -1 || k > i) implies #[trigger] s.subrange(
        k,
        k + t.len(),
    ) != t by {
        assert(!occurs_at(s, t, k));
    }
}

/// `contains` says whether the other text stands anywhere, `startsWith` and
/// `endsWith` whether it stands at the front and at the back.
#[verifier::rlimit(60)]
pub proof fn a_part_is_found_where_it_stands(
    h: HostV,
    front: Seq<char>,
    t: Seq<char>,
    back: Seq<char>,
)
    ensures
        gives(string_call(h, front + t + back, "contains"@, one_text(t)), Val::Bool(true)),
        gives(string_call(h, t + back, "startsWith"@, one_text(t)), Val::Bool(true)),
        gives(string_call(h, front + t, "endsWith"@, one_text(t)), Val::Bool(true)),
        front.len() <= i64::MAX ==> gives(
            string_call(
                h,
                front + t + back,
                "startsWith"@,
                seq![Val::Str(t), Val::Int(front.len() as i64)],
            ),
            Val::Bool(true),
        ),
{
    lemma_one(h, front + t + back, t);
    lemma_one(h, t + back, t);
    lemma_one(h, front + t, t);
    if front.len() <= i64::MAX {
        lemma_two(h, front + t + back, t, 0, front.len() as i64);
    }
    let s = front + t + back;
    let n = front.len() as int;
    assert(s.subrange(n, n + t.len()) =~= t);
    assert((t + back).subrange(0, t.len() as int) =~= t);
    assert((front + t).subrange(n, n + t.len()) =~= t);
    assert(occurs_at(s, t, n));
    the_first_occurrence_is_found(s, t, 0);
}

/// Where `contains`, `startsWith` or `endsWith` says so, the other text stands
/// there; otherwise they say that it does not.
#[verifier::rlimit(60)]
pub proof fn a_part_that_is_found_stands_there(h: HostV, s: Seq<char>, t: Seq<char>)
    ensures
        ({
            let r = string_call(h, s, "contains"@, one_text(t));
            &&& gives(r, Val::Bool(true)) || gives(r, Val::Bool(false))
            &&& gives(r, Val::Bool(true)) ==> exists|front: Seq<char>, back: Seq<char>|
                s == #[trigger] (front + t + back)
        }),
        ({
            let r = string_call(h, s, "startsWith"@, one_text(t));
            &&& gives(r, Val::Bool(true)) || gives(r, Val::Bool(false))
            &&& gives(r, Val::Bool(true)) ==> exists|back: Seq<char>| s == #[trigger] (t + back)
        }),
        ({
            let r = string_call(h, s, "endsWith"@, one_text(t));
            &&& gives(r, Val::Bool(true)) || gives(r, Val::Bool(false))
            &&& gives(r, Val::Bool(true)) ==> exists|front: Seq<char>| s == #[trigger] (front + t)
        }),
{
    lemma_one(h, s, t);
    the_first_occurrence_is_found(s, t, 0);
    let i = index_from(s, t, 0);
    if i >= 0 {
        assert(s =~= s.take(i) + t + s.skip(i + t.len())) by {
            assert(s.subrange(i, i + t.len()) =~= t);
        }
    }
    if begins(s, t) {
        assert(s =~= t + s.skip(t.len() as int)) by {
            assert(s.subrange(0, t.len() as int) =~= t);
        }
    }
    if ends(s, t) {
        let n = s.len() - t.len();
        assert(s =~= s.take(n) + t) by {
            assert(s.subrange(n, n + t.len()) =~= t);
        }
    }
}

// ── Replacing ───────────────────────────────────────────────────────────────

/// What `replace` makes of a text.
pub open spec fn after_replace(h: HostV, s: Seq<char>, t: Seq<char>, u: Seq<char>) -> Seq<char> {
    text_given(string_call(h, s, "replace"@, seq![Val::Str(t), Val::Str(u)]))
}

proof fn lemma_replace(h: HostV, s: Seq<char>, t: Seq<char>, u: Seq<char>)
    ensures
        gives(
            string_call(h, s, "replace"@, seq![Val::Str(t), Val::Str(u)]),
            Val::Str(after_replace(h, s, t, u)),
        ),
        after_replace(h, s, t, u) == replaced_all(s, 0, t, u),
{
    lemma_methods_differ();
}

proof fn lemma_replaced_tail(s: Seq<char>, i: int, j: int, t: Seq<char>, u: Seq<char>)
    requires
        0 <= i <= j <= s.len(),
        t.len() > 0,
    ensures
        replaced_all(s, j, t, u) == replaced_all(s.skip(i), j - i, t, u),
    decreases s.len() - j,
{
    let r = s.skip(i);
    if j < s.len() {
        assert(r[j - i] == s[j]);
        if j + t.len() <= s.len() {
            assert(s.subrange(j, j + t.len()) =~= r.subrange(j - i, j - i + t.len()));
        }
        assert(occurs_at(s, t, j) == occurs_at(r, t, j - i));
        if occurs_at(s, t, j) {
            lemma_replaced_tail(s, i, j + t.len(), t, u);
        } else {
            lemma_replaced_tail(s, i, j + 1, t, u);
        }
    }
}

proof fn lemma_replaced_upto(s: Seq<char>, i: int, j: int, t: Seq<char>, u: Seq<char>)
    requires
        0 <= i <= j <= s.len(),
        t.len() > 0,
        forall|k: int| i <= k < j ==> !(#[trigger] occurs_at(s, t, k)),
    ensures
        replaced_all(s, i, t, u) == s.subrange(i, j) + replaced_all(s, j, t, u),
    decreases j - i,
{
    let rest = replaced_all(s, j, t, u);
    if i < j {
        assert(!occurs_at(s, t, i));
        lemma_replaced_upto(s, i + 1, j, t, u);
        assert(seq![s[i]] + (s.subrange(i + 1, j) + rest) =~= s.subrange(i, j) + rest);
    } else {
        assert(s.subrange(i, j) + rest =~= rest);
    }
}

/// `replace` puts the new text in the place of the whole first occurrence of the
/// old one, keeps what stands before it, and goes on behind it.
#[verifier::rlimit(60)]
pub proof fn replace_goes_from_occurrence_to_occurrence(
    h: HostV,
    front: Seq<char>,
    t: Seq<char>,
    back: Seq<char>,
    u: Seq<char>,
)
    requires
        t.len() > 0,
        forall|k: int|
            0 <= k < front.len() ==> #[trigger] (front + t + back).subrange(k, k + t.len()) != t,
    ensures
        gives(
            string_call(h, front + t + back, "replace"@, seq![Val::Str(t), Val::Str(u)]),
            Val::Str(front + u + after_replace(h, back, t, u)),
        ),
        gives(
            string_call(h, back, "replace"@, seq![Val::Str(t), Val::Str(u)]),
            Val::Str(after_replace(h, back, t, u)),
        ),
{
    let s = front + t + back;
    let n = front.len() as int;
    lemma_replace(h, s, t, u);
    lemma_replace(h, back, t, u);
    assert forall|k: int| 0 <= k < n implies !(#[trigger] occurs_at(s, t, k)) by {
        assert(s.subrange(k, k + t.len()) != t);
    }
    lemma_replaced_upto(s, 0, n, t, u);
    assert(s.subrange(0, n) =~= front);
    assert(s.subrange(n, n + t.len()) =~= t);
    lemma_replaced_tail(s, n + t.len(), n + t.len(), t, u);
    assert(s.skip(n + t.len()) =~= back);
    let rest = replaced_all(back, 0, t, u);
    assert(front + (u + rest) =~= front + u + rest);
}

/// `replace` leaves a text alone in which the old text does not stand.
#[verifier::rlimit(60)]
pub proof fn replace_needs_an_occurrence(h: HostV, s: Seq<char>, t: Seq<char>, u: Seq<char>)
    requires
        t.len() > 0,
        forall|k: int|
            0 <= k && k + t.len() <= s.len() ==> #[trigger] s.subrange(k, k + t.len()) != t,
    ensures
        gives(string_call(h, s, "replace"@, seq![Val::Str(t), Val::Str(u)]), Val::Str(s)),
{
    lemma_replace(h, s, t, u);
    assert forall|k: int| 0 <= k < s.len() implies !(#[trigger] occurs_at(s, t, k)) by {
        if k + t.len() <= s.len() {
            assert(s.subrange(k, k + t.len()) != t);
        }
    }
    lemma_replaced_upto(s, 0, s.len() as int, t, u);
    assert(s.subrange(0, s.len() as int) + Seq::<char>::empty() =~= s);
}

/// Replacing a text by itself changes nothing.
#[verifier::rlimit(60)]
pub proof fn replacing_by_the_same_changes_nothing(h: HostV, s: Seq<char>, t: Seq<char>)
    requires
        t.len() > 0,
    ensures
        gives(string_call(h, s, "replace"@, seq![Val::Str(t), Val::Str(t)]), Val::Str(s)),
{
    lemma_replace(h, s, t, t);
    lemma_replaced_by_same(s, 0, t);
    assert(s.skip(0) =~= s);
}

proof fn lemma_replaced_by_same(s: Seq<char>, i: int, t: Seq<char>)
    requires
        0 <= i <= s.len(),
        t.len() > 0,
    ensures
        replaced_all(s, i, t, t) == s.skip(i),
    decreases s.len() - i,
{
    if i < s.len() {
        if occurs_at(s, t, i) {
            lemma_replaced_by_same(s, i + t.len(), t);
            assert(s.subrange(i, i + t.len()) =~= t);
            assert(t + s.skip(i + t.len()) =~= s.skip(i));
        } else {
            lemma_replaced_by_same(s, i + 1, t);
            assert(seq![s[i]] + s.skip(i + 1) =~= s.skip(i));
        }
    } else {
        assert(s.skip(i) =~= seq![]);
    }
}

/// An empty text stands before every character and at the end: `replace` puts the
/// new text there.
#[verifier::rlimit(60)]
pub proof fn the_empty_text_stands_between_characters(h: HostV, s: Seq<char>, u: Seq<char>)
    ensures
        ({
            let r = string_call(h, s, "replace"@, seq![Val::Str(seq![]), Val::Str(u)]);
            let t = text_given(r);
            &&& gives(r, Val::Str(t))
            &&& t.len() == s.len() + (s.len() + 1) * u.len()
            &&& forall|i: int|
                0 <= i < s.len() ==> #[trigger] t[i + (i + 1) * u.len()] == s[i]
            &&& forall|i: int, k: int|
                0 <= i <= s.len() && 0 <= k < u.len() ==> #[trigger] t[i + i * u.len() + k] == u[k]
        }),
{
    let none = Seq::<char>::empty();
    lemma_replace(h, s, none, u);
    lemma_between(s, 0, u);
}

proof fn lemma_between(s: Seq<char>, at: int, u: Seq<char>)
    requires
        0 <= at <= s.len(),
    ensures
        ({
            let t = replaced_all(s, at, seq![], u);
            let n = s.len() - at;
            &&& t.len() == n + (n + 1) * u.len()
            &&& forall|i: int| 0 <= i < n ==> #[trigger] t[i + (i + 1) * u.len()] == s[at + i]
            &&& forall|i: int, k: int|
                0 <= i <= n && 0 <= k < u.len() ==> #[trigger] t[i + i * u.len() + k] == u[k]
        }),
    decreases s.len() - at,
{
    let t = replaced_all(s, at, seq![], u);
    let m = u.len() as int;
    let n = s.len() - at;
    if at < s.len() {
        lemma_between(s, at + 1, u);
        let rest = replaced_all(s, at + 1, seq![], u);
        assert(t == u.push(s[at]) + rest);
        assert(n + (n + 1) * m == (m + 1) + ((n - 1) + n * m)) by (nonlinear_arith);
        assert forall|i: int| 0 <= i < n implies #[trigger] t[i + (i + 1) * m] == s[at + i] by {
            if i == 0 {
                assert(i + (i + 1) * m == m) by (nonlinear_arith)
                    requires
                        i == 0,
                ;
            } else {
                assert(i + (i + 1) * m == (m + 1) + ((i - 1) + i * m)) by (nonlinear_arith);
                assert((i - 1) + i * m < (n - 1) + n * m && (i - 1) + i * m >= 0)
                    by (nonlinear_arith)
                    requires
                        1 <= i < n,
                        m >= 0,
                ;
                assert(rest[(i - 1) + ((i - 1) + 1) * m] == s[at + 1 + (i - 1)]);
            }
        }
        assert forall|i: int, k: int| 0 <= i <= n && 0 <= k < m implies #[trigger] t[i + i * m + k]
            == u[k] by {
            if i == 0 {
                assert(i + i * m + k == k) by (nonlinear_arith)
                    requires
                        i == 0,
                ;
            } else {
                let j = i - 1;
                assert(i + i * m + k == (m + 1) + (j + j * m + k)) by (nonlinear_arith)
                    requires
                        j == i - 1,
                ;
                assert(0 <= j + j * m + k < (n - 1) + n * m) by (nonlinear_arith)
                    requires
                        0 <= j <= n - 1,
                        0 <= k < m,
                ;
                assert(rest[j + j * m + k] == u[k]);
            }
        }
    } else {
        assert(n + (n + 1) * m == m) by (nonlinear_arith)
            requires
                n == 0,
        ;
        assert forall|i: int, k: int| 0 <= i <= n && 0 <= k < m implies #[trigger] t[i + i * m + k]
            == u[k] by {
            assert(i + i * m + k == k) by (nonlinear_arith)
                requires
                    i == 0,
            ;
        }
    }
}

// ── Blanks ──────────────────────────────────────────────────────────────────

/// `trim` takes the characters up to the space from both ends, and no others.
#[verifier::rlimit(60)]
pub proof fn trim_takes_the_ends(h: HostV, s: Seq<char>)
    ensures
        ({
            let r = string_call(h, s, "trim"@, seq![]);
            let t = text_given(r);
            &&& gives(r, Val::Str(t))
            &&& t.len() > 0 ==> t[0] > ' ' && t.last() > ' '
            &&& exists|front: Seq<char>, back: Seq<char>|
                s == #[trigger] (front + t + back) && (forall|i: int|
                    0 <= i < front.len() ==> #[trigger] front[i] <= ' ') && forall|i: int|
                    0 <= i < back.len() ==> #[trigger] back[i] <= ' '
        }),
{
    lemma_methods_differ();
    lemma_blank_lead(s);
    let a = blank_lead(s);
    let rest = s.skip(a);
    lemma_blank_trail(rest);
    let b = blank_trail(rest);
    let t = rest.take(rest.len() - b);
    let front = s.take(a);
    let back = rest.skip(rest.len() - b);
    assert(s =~= front + t + back);
    if t.len() > 0 {
        assert(t[0] == s[a]);
        assert(t.last() == rest[rest.len() - b - 1]);
    }
}

proof fn lemma_blank_lead(s: Seq<char>)
    ensures
        0 <= blank_lead(s) <= s.len(),
        forall|i: int| 0 <= i < blank_lead(s) ==> #[trigger] s[i] <= ' ',
        blank_lead(s) < s.len() ==> s[blank_lead(s)] > ' ',
    decreases s.len(),
{
    if s.len() > 0 && s[0] <= ' ' {
        let r = s.skip(1);
        lemma_blank_lead(r);
        assert forall|i: int| 0 <= i < blank_lead(s) implies #[trigger] s[i] <= ' ' by {
            if i > 0 {
                assert(r[i - 1] == s[i]);
            }
        }
        if blank_lead(s) < s.len() {
            assert(s[blank_lead(s)] == r[blank_lead(r)]);
        }
    }
}

proof fn lemma_blank_trail(s: Seq<char>)
    ensures
        0 <= blank_trail(s) <= s.len(),
        forall|i: int| s.len() - blank_trail(s) <= i < s.len() ==> #[trigger] s[i] <= ' ',
        blank_trail(s) < s.len() ==> s[s.len() - blank_trail(s) - 1] > ' ',
    decreases s.len(),
{
    if s.len() > 0 && s.last() <= ' ' {
        let r = s.drop_last();
        lemma_blank_trail(r);
        assert forall|i: int| s.len() - blank_trail(s) <= i < s.len() implies #[trigger] s[i] <= ' ' by {
            if i < r.len() {
                assert(r[i] == s[i]);
            }
        }
        if blank_trail(s) < s.len() {
            assert(s[s.len() - blank_trail(s) - 1] == r[r.len() - blank_trail(r) - 1]);
        }
    }
}

/// Whether a character is white space of Java: a tab, a line or page end, a
/// separator of files, groups, records or units, or a space that may break.
pub open spec fn breaks(c: char) -> bool {
    let n = c as int;
    9 <= n <= 13 || 28 <= n <= 32 || n == 5760 || 8192 <= n <= 8202 && n != 8199 || n == 8232 || n
        == 8233 || n == 8287 || n == 12288
}

/// `strip` takes the white space from both ends and no other characters,
/// `stripLeading` and `stripTrailing` from one, and `isBlank` says that nothing is
/// left.
#[verifier::rlimit(60)]
pub proof fn strip_takes_the_ends(h: HostV, s: Seq<char>)
    ensures
        ({
            let r = string_call(h, s, "strip"@, seq![]);
            let t = text_given(r);
            &&& gives(r, Val::Str(t))
            &&& t.len() > 0 ==> !breaks(t[0]) && !breaks(t.last())
            &&& exists|front: Seq<char>, back: Seq<char>|
                s == #[trigger] (front + t + back) && (forall|i: int|
                    0 <= i < front.len() ==> breaks(#[trigger] front[i])) && forall|i: int|
                    0 <= i < back.len() ==> breaks(#[trigger] back[i])
            &&& gives(string_call(h, s, "isBlank"@, seq![]), Val::Bool(t.len() == 0))
        }),
        ({
            let r = string_call(h, s, "stripLeading"@, seq![]);
            let t = text_given(r);
            &&& gives(r, Val::Str(t))
            &&& t.len() > 0 ==> !breaks(t[0])
            &&& exists|front: Seq<char>|
                s == #[trigger] (front + t) && forall|i: int|
                    0 <= i < front.len() ==> breaks(#[trigger] front[i])
        }),
        ({
            let r = string_call(h, s, "stripTrailing"@, seq![]);
            let t = text_given(r);
            &&& gives(r, Val::Str(t))
            &&& t.len() > 0 ==> !breaks(t.last())
            &&& exists|back: Seq<char>|
                s == #[trigger] (t + back) && forall|i: int|
                    0 <= i < back.len() ==> breaks(#[trigger] back[i])
        }),
{
    lemma_strips(h, s);
    assert forall|c: char| #[trigger] java_blank(c) == breaks(c) by {}
    lemma_strip_lead(s);
    lemma_strip_trail(s);
    let a = strip_lead(s);
    let rest = s.skip(a);
    lemma_strip_trail(rest);
    let b = strip_trail(rest);
    let t = rest.take(rest.len() - b);
    let front = s.take(a);
    let back = rest.skip(rest.len() - b);
    assert(s =~= front + t + back);
    assert(s =~= front + rest);
    let c = strip_trail(s);
    assert(s =~= s.take(s.len() - c) + s.skip(s.len() - c));
    if t.len() > 0 {
        assert(t[0] == s[a]);
        assert(t.last() == rest[rest.len() - b - 1]);
        assert(!java_blank(s[a]));
    } else {
        assert forall|i: int| 0 <= i < s.len() implies java_blank(#[trigger] s[i]) by {
            if i >= a {
                assert(s[i] == rest[i - a]);
            }
        }
    }
}

proof fn lemma_strip_lead(s: Seq<char>)
    ensures
        0 <= strip_lead(s) <= s.len(),
        forall|i: int| 0 <= i < strip_lead(s) ==> java_blank(#[trigger] s[i]),
        strip_lead(s) < s.len() ==> !java_blank(s[strip_lead(s)]),
    decreases s.len(),
{
    if s.len() > 0 && java_blank(s[0]) {
        let r = s.skip(1);
        lemma_strip_lead(r);
        assert forall|i: int| 0 <= i < strip_lead(s) implies java_blank(#[trigger] s[i]) by {
            if i > 0 {
                assert(r[i - 1] == s[i]);
            }
        }
        if strip_lead(s) < s.len() {
            assert(s[strip_lead(s)] == r[strip_lead(r)]);
        }
    }
}

proof fn lemma_strip_trail(s: Seq<char>)
    ensures
        0 <= strip_trail(s) <= s.len(),
        forall|i: int| s.len() - strip_trail(s) <= i < s.len() ==> java_blank(#[trigger] s[i]),
        strip_trail(s) < s.len() ==> !java_blank(s[s.len() - strip_trail(s) - 1]),
    decreases s.len(),
{
    if s.len() > 0 && java_blank(s.last()) {
        let r = s.drop_last();
        lemma_strip_trail(r);
        assert forall|i: int| s.len() - strip_trail(s) <= i < s.len() implies java_blank(
            #[trigger] s[i],
        ) by {
            if i < r.len() {
                assert(r[i] == s[i]);
            }
        }
        if strip_trail(s) < s.len() {
            assert(s[s.len() - strip_trail(s) - 1] == r[r.len() - strip_trail(r) - 1]);
        }
    }
}

// ── Repeating, comparing, hashing ───────────────────────────────────────────

/// `repeat` writes a text as often as asked: it is that many times as long, and
/// every copy is the text. A negative count is refused.
#[verifier::rlimit(60)]
pub proof fn repeat_writes_copies(h: HostV, s: Seq<char>, n: i64)
    ensures
        ({
            let r = string_call(h, s, "repeat"@, one_number(n));
            let t = text_given(r);
            &&& n >= 0 ==> gives(r, Val::Str(t)) && t.len() == s.len() * n && forall|c: int, k: int|
                0 <= c < n && 0 <= k < s.len() ==> #[trigger] t[c * s.len() + k] == s[k]
            &&& n < 0 ==> faults(r, "IllegalArgumentException"@)
        }),
{
    lemma_faults();
    lemma_methods_differ();
    if n >= 0 {
        lemma_repeated_len(s, n as int);
        lemma_copies(s, n as int);
    }
}

proof fn lemma_copies(s: Seq<char>, n: int)
    requires
        n >= 0,
    ensures
        forall|c: int, k: int|
            0 <= c < n && 0 <= k < s.len() ==> #[trigger] repeated(s, n)[c * s.len() + k] == s[k],
    decreases n,
{
    if n > 0 {
        lemma_copies(s, n - 1);
        lemma_repeated_len(s, n - 1);
        let m = s.len() as int;
        let t = repeated(s, n - 1);
        assert forall|c: int, k: int| 0 <= c < n && 0 <= k < m implies #[trigger] repeated(s, n)[c * m
            + k] == s[k] by {
            if c < n - 1 {
                assert(0 <= c * m + k < m * (n - 1)) by (nonlinear_arith)
                    requires
                        0 <= c < n - 1,
                        0 <= k < m,
                ;
                assert(t[c * m + k] == s[k]);
            } else {
                assert(c * m + k == m * (n - 1) + k) by (nonlinear_arith)
                    requires
                        c == n - 1,
                ;
            }
        }
    }
}

/// `equals` and `contentEquals` say whether two texts have the same characters,
/// and `equalsIgnoreCase` whether they do in lower case. Nothing equals `null`.
#[verifier::rlimit(60)]
pub proof fn equal_texts_have_the_same_characters(h: HostV, s: Seq<char>, t: Seq<char>)
    ensures
        gives(string_call(h, s, "equals"@, one_text(t)), Val::Bool(s == t)),
        gives(string_call(h, s, "contentEquals"@, one_text(t)), Val::Bool(s == t)),
        gives(string_call(h, s, "equals"@, seq![Val::Undef]), Val::Bool(false)),
        gives(string_call(h, s, "equalsIgnoreCase"@, seq![Val::Undef]), Val::Bool(false)),
        ({
            let low = text_given(string_call(h, s, "toLowerCase"@, seq![]));
            let other = text_given(string_call(h, t, "toLowerCase"@, seq![]));
            gives(string_call(h, s, "equalsIgnoreCase"@, one_text(t)), Val::Bool(low == other))
        }),
{
    lemma_methods_differ();
}

/// `compareTo` is the difference of the first characters that differ; where one
/// text is the beginning of the other, the difference of the lengths.
#[verifier::rlimit(60)]
pub proof fn compare_to_goes_by_the_first_difference(h: HostV, s: Seq<char>, t: Seq<char>, i: int)
    requires
        0 <= i <= s.len() <= i64::MAX,
        i <= t.len() <= i64::MAX,
        s.take(i) == t.take(i),
        i < s.len() && i < t.len() ==> s[i] != t[i],
    ensures
        gives(
            string_call(h, s, "compareTo"@, one_text(t)),
            Val::Int(
                (if i < s.len() && i < t.len() {
                    s[i] as int - t[i] as int
                } else {
                    s.len() - t.len()
                }) as i64,
            ),
        ),
{
    lemma_methods_differ();
    the_first_difference_decides(s, t, i);
}

/// `hashCode` is built a character at a time: thirty-one times the hash of what
/// came before and the code of the character, in thirty-two bits.
#[verifier::rlimit(60)]
pub proof fn the_hash_grows_by_a_character(h: HostV, s: Seq<char>, c: char)
    ensures
        gives(string_call(h, seq![], "hashCode"@, seq![]), Val::Int(0)),
        ({
            let before = string_call(h, s, "hashCode"@, seq![])->Ok_0->Value_0->Int_0;
            let after = string_call(h, s.push(c), "hashCode"@, seq![]);
            &&& i32::MIN <= before <= i32::MAX
            &&& gives(after, Val::Int(after->Ok_0->Value_0->Int_0))
            &&& i32::MIN <= after->Ok_0->Value_0->Int_0 <= i32::MAX
            &&& (after->Ok_0->Value_0->Int_0 - (31 * before + c as int)) % 0x1_0000_0000 == 0
        }),
{
    lemma_methods_differ();
    assert(s.push(c).drop_last() =~= s);
    assert(s.push(c).last() == c);
}

/// `toUpperCase` and `toLowerCase` go by the case mappings of Unicode.
#[verifier::rlimit(60)]
pub proof fn cases_are_mapped(h: HostV, s: Seq<char>)
    ensures
        gives(string_call(h, s, "toUpperCase"@, seq![]), Val::Str(upper_text(s))),
        gives(string_call(h, s, "toLowerCase"@, seq![]), Val::Str(lower_text(s))),
{
    lemma_methods_differ();
}

} // verus!
