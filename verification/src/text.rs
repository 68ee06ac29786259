//! Character sequences: building, searching, trimming, and the decimal and
//! radix renderings of integers, with what each of them yields stated over
//! `Seq<char>`.
//!
//! A Java `String` is counted in Unicode scalars throughout, which is what a
//! Rust `char` is.
use vstd::prelude::*;

verus! {

/// `String::push`: the character goes to the end.
pub assume_specification[ String::push ](s: &mut String, c: char)
    ensures
        final(s)@ == old(s)@.push(c),
;

/// `str`'s `==`: true exactly when the two hold the same characters.
pub assume_specification[ <str as PartialEq>::eq ](a: &str, b: &str) -> (r: bool)
    ensures
        r == (a@ == b@),
;

/// Whether two texts hold the same characters.
pub fn same(a: &str, b: &str) -> (r: bool)
    ensures
        r == (a@ == b@),
{
    *a == *b
}

/// The code point of `c`.
pub fn code_of(c: char) -> (r: u32)
    ensures
        r == c as int,
{
    c as u32
}

/// An owned copy of `s`.
pub fn own(s: &str) -> (r: String)
    ensures
        r@ == s@,
{
    s.to_owned()
}

/// The characters of `s`.
pub fn chars_of(s: &str) -> (r: Vec<char>)
    ensures
        r@ == s@,
{
    let mut r: Vec<char> = Vec::new();
    for c in it: s.chars()
        invariant
            r@ == s@.take(it.index() as int),
            it.seq() == s@,
    {
        r.push(c);
    }
    r
}

/// The text of `v[from..to]`.
pub fn text_between(v: &Vec<char>, from: usize, to: usize) -> (r: String)
    requires
        from <= to <= v.len(),
    ensures
        r@ == v@.subrange(from as int, to as int),
{
    let mut r: String = String::new();
    let mut i: usize = from;
    while i < to
        invariant
            from <= i <= to <= v.len(),
            r@ == v@.subrange(from as int, i as int),
        decreases to - i,
    {
        r.push(v[i]);
        i += 1;
        assert(v@.subrange(from as int, i as int) =~= v@.subrange(from as int, i - 1).push(
            v@[i - 1],
        ));
    }
    r
}

/// The text `v` spells.
pub fn text_of(v: &Vec<char>) -> (r: String)
    ensures
        r@ == v@,
{
    let r = text_between(v, 0, v.len());
    assert(v@.subrange(0, v.len() as int) =~= v@);
    r
}

/// Append the characters of `s` to `v`.
pub fn push_text(v: &mut Vec<char>, s: &str)
    ensures
        final(v)@ == old(v)@ + s@,
{
    let c: Vec<char> = chars_of(s);
    let mut i: usize = 0;
    while i < c.len()
        invariant
            i <= c.len(),
            c@ == s@,
            v@ == old(v)@ + s@.take(i as int),
        decreases c.len() - i,
    {
        v.push(c[i]);
        i += 1;
        assert(s@.take(i as int) =~= s@.take(i - 1).push(s@[i - 1]));
    }
    assert(s@.take(s@.len() as int) =~= s@);
}

/// The views of a sequence of owned texts.
pub open spec fn views(s: Seq<String>) -> Seq<Seq<char>> {
    Seq::new(s.len(), |i: int| s[i]@)
}

/// An owned copy of a list of texts.
pub fn own_all(v: &Vec<String>) -> (r: Vec<String>)
    ensures
        views(r@) == views(v@),
{
    let mut r: Vec<String> = Vec::new();
    let mut i: usize = 0;
    while i < v.len()
        invariant
            i <= v.len(),
            r.len() == i,
            forall|k: int| 0 <= k < i ==> r@[k]@ == v@[k]@,
        decreases v.len() - i,
    {
        r.push(own(v[i].as_str()));
        i += 1;
    }
    assert(views(r@) =~= views(v@));
    r
}

/// Whether `name` is one of `names`.
pub open spec fn listed(names: Seq<Seq<char>>, name: Seq<char>) -> bool {
    exists|i: int| 0 <= i < names.len() && names[i] == name
}

/// Whether `name` is one of `names`.
pub fn is_listed(names: &Vec<String>, name: &str) -> (r: bool)
    ensures
        r == listed(views(names@), name@),
{
    let mut i: usize = 0;
    while i < names.len()
        invariant
            i <= names.len(),
            forall|k: int| 0 <= k < i ==> names@[k]@ != name@,
        decreases names.len() - i,
    {
        if same(names[i].as_str(), name) {
            assert(views(names@)[i as int] == name@);
            return true;
        }
        i += 1;
    }
    assert forall|k: int| 0 <= k < views(names@).len() implies views(names@)[k] != name@ by {
        assert(views(names@)[k] == names@[k]@);
    }
    false
}

// ── Numbers as text ─────────────────────────────────────────────────────────

/// The digit that stands for `d`: `0`–`9`, then `a`–`z`.
pub open spec fn digit_char(d: int) -> char {
    if d < 10 {
        (48 + d) as char
    } else {
        (87 + d) as char
    }
}

/// `n` written in `radix`, with no leading zero.
pub open spec fn digits(n: int, radix: int) -> Seq<char>
    decreases n,
{
    if n < radix || radix < 2 {
        seq![digit_char(n)]
    } else {
        proof {
            assert(0 <= n / radix < n) by (nonlinear_arith)
                requires
                    n >= radix >= 2,
            ;
        }
        digits(n / radix, radix).push(digit_char(n % radix))
    }
}

/// `n` in decimal, with a leading `-` when it is negative.
pub open spec fn dec(n: int) -> Seq<char> {
    if n < 0 {
        seq!['-'] + digits(-n, 10)
    } else {
        digits(n, 10)
    }
}

/// The digit that stands for `d`.
pub fn digit_for(d: u64) -> (r: char)
    requires
        d < 36,
    ensures
        r == digit_char(d as int),
{
    if d < 10 {
        (48 + d as u8) as char
    } else {
        (87 + d as u8) as char
    }
}

/// `n` written in `radix`.
pub fn radix_text(n: u64, radix: u64) -> (r: String)
    requires
        2 <= radix <= 36,
    ensures
        r@ == digits(n as int, radix as int),
{
    let mut back: Vec<char> = Vec::new();
    let mut left: u64 = n;
    while left >= radix
        invariant
            2 <= radix <= 36,
            digits(n as int, radix as int) =~= digits(left as int, radix as int)
                + back@.reverse(),
        decreases left,
    {
        let ghost before = back@;
        let ghost was = left as int;
        back.push(digit_for(left % radix));
        proof {
            assert(was / (radix as int) < was && was / (radix as int) >= 0) by (nonlinear_arith)
                requires
                    was >= radix as int,
                    2 <= radix as int,
            ;
            assert(back@.reverse() =~= seq![digit_char(was % (radix as int))] + before.reverse());
            assert(digits(was, radix as int) == digits(was / (radix as int), radix as int).push(
                digit_char(was % (radix as int)),
            ));
        }
        left = left / radix;
    }
    back.push(digit_for(left));
    proof {
        assert(back@.reverse() =~= seq![digit_char(left as int)] + back@.drop_last().reverse());
        assert(digits(left as int, radix as int) == seq![digit_char(left as int)]);
    }
    let mut r: String = String::new();
    let mut i: usize = back.len();
    while i > 0
        invariant
            i <= back.len(),
            r@ =~= back@.reverse().take(back.len() - i),
        decreases i,
    {
        i -= 1;
        r.push(back[i]);
        assert(back@.reverse().take(back.len() - i) =~= back@.reverse().take(
            back.len() - i - 1,
        ).push(back@[i as int]));
    }
    assert(back@.reverse().take(back.len() as int) =~= back@.reverse());
    r
}

/// `n` in decimal.
pub fn int_text(n: i64) -> (r: String)
    ensures
        r@ == dec(n as int),
{
    if n < 0 {
        let mut r: String = String::new();
        r.push('-');
        let m: u64 = (-(n as i128)) as u64;
        let d: String = radix_text(m, 10);
        r.append(d.as_str());
        assert(r@ =~= dec(n as int));
        r
    } else {
        radix_text(n as u64, 10)
    }
}

/// `n` in decimal.
pub fn size_text(n: usize) -> (r: String)
    ensures
        r@ == dec(n as int),
{
    radix_text(n as u64, 10)
}

/// The value of `c` as a digit: `0`–`9`, then the letters of either case; -1
/// for any other character.
pub open spec fn digit_value(c: char) -> int {
    if '0' <= c <= '9' {
        c as int - 48
    } else if 'a' <= c <= 'z' {
        c as int - 87
    } else if 'A' <= c <= 'Z' {
        c as int - 55
    } else {
        -1
    }
}

/// Whether `c` is a digit of `radix`.
pub open spec fn is_digit_in(c: char, radix: int) -> bool {
    0 <= digit_value(c) < radix
}

/// Whether every character of `s` is a digit of `radix`.
pub open spec fn all_digits(s: Seq<char>, radix: int) -> bool {
    forall|i: int| 0 <= i < s.len() ==> is_digit_in(#[trigger] s[i], radix)
}

/// The number the digits of `s` spell in `radix`.
pub open spec fn number(s: Seq<char>, radix: int) -> int
    decreases s.len(),
{
    if s.len() == 0 {
        0
    } else {
        number(s.drop_last(), radix) * radix + digit_value(s.last())
    }
}

/// The value of `c` as a digit of `radix`.
pub fn digit_of(c: char, radix: u64) -> (r: Option<u64>)
    requires
        radix <= 36,
    ensures
        r is Some == is_digit_in(c, radix as int),
        r matches Some(d) ==> d == digit_value(c),
{
    let d: u64 = if '0' <= c && c <= '9' {
        c as u64 - 48
    } else if 'a' <= c && c <= 'z' {
        c as u64 - 87
    } else if 'A' <= c && c <= 'Z' {
        c as u64 - 55
    } else {
        return None;
    };
    if d < radix {
        Some(d)
    } else {
        None
    }
}

proof fn lemma_number_grows(s: Seq<char>, n: int, radix: int)
    requires
        0 <= n <= s.len(),
        radix >= 2,
        all_digits(s, radix),
    ensures
        0 <= number(s.take(n), radix) <= number(s, radix),
    decreases s.len(),
{
    if n == s.len() {
        assert(s.take(n) =~= s);
        if n > 0 {
            let t = s.drop_last();
            assert(all_digits(t, radix));
            lemma_number_grows(t, t.len() as int, radix);
            assert(t.take(t.len() as int) =~= t);
            assert(is_digit_in(s[n - 1], radix));
            assert(number(t, radix) * radix >= 0) by (nonlinear_arith)
                requires
                    number(t, radix) >= 0,
                    radix >= 2,
            ;
        }
    } else {
        let t = s.drop_last();
        assert(all_digits(t, radix));
        lemma_number_grows(t, n, radix);
        assert(t.take(n) =~= s.take(n));
        assert(is_digit_in(s[s.len() - 1], radix));
        assert(number(t, radix) * radix >= number(t, radix)) by (nonlinear_arith)
            requires
                number(t, radix) >= 0,
                radix >= 2,
        ;
    }
}

/// The number `v[from..to]` spells in `radix`, when it is a non-empty run of
/// digits no greater than `most`.
pub fn digits_value(v: &Vec<char>, from: usize, to: usize, radix: u64, most: u64) -> (r: Option<u64>)
    requires
        2 <= radix <= 36,
        from <= to <= v.len(),
    ensures
        ({
            let s = v@.subrange(from as int, to as int);
            let fits = s.len() > 0 && all_digits(s, radix as int) && number(s, radix as int)
                <= most;
            &&& r is Some == fits
            &&& r matches Some(n) ==> n == number(s, radix as int)
        }),
{
    let ghost s = v@.subrange(from as int, to as int);
    if from == to {
        return None;
    }
    let mut acc: u128 = 0;
    let mut huge: bool = false;
    let mut i: usize = from;
    while i < to
        invariant
            2 <= radix <= 36,
            from <= i <= to <= v.len(),
            s == v@.subrange(from as int, to as int),
            all_digits(s.take(i - from), radix as int),
            huge ==> number(s.take(i - from), radix as int) > most,
            !huge ==> acc == number(s.take(i - from), radix as int) && acc <= most,
        decreases to - i,
    {
        let c: char = v[i];
        proof {
            assert(s[i - from] == c);
            assert(s.take(i + 1 - from) =~= s.take(i - from).push(c));
            assert(s.take(i + 1 - from).drop_last() =~= s.take(i - from));
        }
        match digit_of(c, radix) {
            None => {
                assert(!is_digit_in(s[i - from], radix as int));
                return None;
            },
            Some(d) => {
                proof {
                    assert(all_digits(s.take(i + 1 - from), radix as int));
                    lemma_number_grows(s.take(i + 1 - from), i - from, radix as int);
                    assert(s.take(i + 1 - from).take(i - from) =~= s.take(i - from));
                }
                if !huge {
                    assert(acc * radix <= 0xffff_ffff_ffff_ffff * 36) by (nonlinear_arith)
                        requires
                            acc <= 0xffff_ffff_ffff_ffff,
                            radix <= 36,
                    ;
                    acc = acc * (radix as u128) + d as u128;
                    if acc > most as u128 {
                        huge = true;
                    }
                }
            },
        }
        i += 1;
    }
    assert(s.take(to - from) =~= s);
    if huge {
        None
    } else {
        Some(acc as u64)
    }
}

/// The integer a signed numeral stands for: an optional single `+` or `-`,
/// then at least one digit. `None` when it is not one.
pub open spec fn signed(s: Seq<char>, radix: int) -> Option<int> {
    let signed_text = s.len() > 0 && (s[0] == '-' || s[0] == '+');
    let body = if signed_text {
        s.skip(1)
    } else {
        s
    };
    if body.len() == 0 || !all_digits(body, radix) {
        None
    } else if s[0] == '-' {
        Some(-number(body, radix))
    } else {
        Some(number(body, radix))
    }
}

/// The signed 64-bit integer `v[from..to]` stands for in `radix`, when it is a
/// numeral and its value fits.
pub fn parse_i64(v: &Vec<char>, from: usize, to: usize, radix: u64) -> (r: Option<i64>)
    requires
        2 <= radix <= 36,
        from <= to <= v.len(),
    ensures
        ({
            let n = signed(v@.subrange(from as int, to as int), radix as int);
            &&& r is Some == (n is Some && i64::MIN <= n->0 <= i64::MAX)
            &&& r matches Some(x) ==> x == n->0
        }),
{
    let ghost s = v@.subrange(from as int, to as int);
    if from == to {
        return None;
    }
    let sign: bool = v[from] == '-' || v[from] == '+';
    let neg: bool = v[from] == '-';
    let start: usize = if sign {
        from + 1
    } else {
        from
    };
    proof {
        assert(s[0] == v@[from as int]);
        if sign {
            assert(s.skip(1) =~= v@.subrange(start as int, to as int));
        }
        let body = v@.subrange(start as int, to as int);
        if all_digits(body, radix as int) {
            lemma_number_grows(body, body.len() as int, radix as int);
            assert(body.take(body.len() as int) =~= body);
        }
    }
    let most: u64 = if neg {
        0x8000_0000_0000_0000
    } else {
        0x7fff_ffff_ffff_ffff
    };
    match digits_value(v, start, to, radix, most) {
        None => None,
        Some(m) => {
            if neg {
                Some((-(m as i128)) as i64)
            } else {
                Some(m as i64)
            }
        },
    }
}

/// The integer an unsigned numeral stands for: an optional `+`, then at least
/// one digit. `None` when it is not one.
pub open spec fn unsigned(s: Seq<char>, radix: int) -> Option<int> {
    let body = if s.len() > 0 && s[0] == '+' {
        s.skip(1)
    } else {
        s
    };
    if body.len() == 0 || !all_digits(body, radix) {
        None
    } else {
        Some(number(body, radix))
    }
}

/// The unsigned integer `v[from..to]` stands for in `radix`, when it is a
/// numeral no greater than `most`.
pub fn parse_u64(v: &Vec<char>, from: usize, to: usize, radix: u64, most: u64) -> (r: Option<u64>)
    requires
        2 <= radix <= 36,
        from <= to <= v.len(),
    ensures
        ({
            let n = unsigned(v@.subrange(from as int, to as int), radix as int);
            &&& r is Some == (n is Some && n->0 <= most)
            &&& r matches Some(x) ==> x == n->0
        }),
{
    let ghost s = v@.subrange(from as int, to as int);
    if from == to {
        return None;
    }
    let start: usize = if v[from] == '+' {
        from + 1
    } else {
        from
    };
    proof {
        assert(s[0] == v@[from as int]);
        if start > from {
            assert(s.skip(1) =~= v@.subrange(start as int, to as int));
        }
    }
    digits_value(v, start, to, radix, most)
}

// ── Searching ───────────────────────────────────────────────────────────────

/// Whether `needle` stands in `hay` at `i`.
pub open spec fn occurs_at(hay: Seq<char>, needle: Seq<char>, i: int) -> bool {
    0 <= i && i + needle.len() <= hay.len() && hay.subrange(i, i + needle.len()) == needle
}

/// The first position at or after `from` where `needle` stands in `hay`, or -1.
pub open spec fn index_from(hay: Seq<char>, needle: Seq<char>, from: int) -> int
    decreases hay.len() + 1 - from,
{
    if from < 0 || from + needle.len() > hay.len() {
        -1
    } else if occurs_at(hay, needle, from) {
        from
    } else {
        index_from(hay, needle, from + 1)
    }
}

/// The last position at or before `from` where `needle` stands in `hay`, or -1.
pub open spec fn last_index_to(hay: Seq<char>, needle: Seq<char>, from: int) -> int
    decreases from + 1,
{
    if from < 0 {
        -1
    } else if occurs_at(hay, needle, from) {
        from
    } else {
        last_index_to(hay, needle, from - 1)
    }
}

/// What a search finds is the first occurrence, it finds one where there is any,
/// and a miss is -1.
pub proof fn the_first_occurrence_is_found(hay: Seq<char>, needle: Seq<char>, from: int)
    requires
        0 <= from,
    ensures
        ({
            let i = index_from(hay, needle, from);
            &&& i == -1 || from <= i && occurs_at(hay, needle, i)
            &&& i == -1 <==> forall|k: int| from <= k ==> !(#[trigger] occurs_at(hay, needle, k))
            &&& forall|k: int|
                from <= k && (i < 0 || k < i) ==> !(#[trigger] occurs_at(hay, needle, k))
        }),
    decreases hay.len() + 1 - from,
{
    if from + needle.len() <= hay.len() && !occurs_at(hay, needle, from) {
        the_first_occurrence_is_found(hay, needle, from + 1);
    }
}

/// What a search from behind finds is the last occurrence, it finds one where
/// there is any, and a miss is -1.
pub proof fn the_last_occurrence_is_found(hay: Seq<char>, needle: Seq<char>, from: int)
    ensures
        ({
            let i = last_index_to(hay, needle, from);
            &&& i == -1 || 0 <= i <= from && occurs_at(hay, needle, i)
            &&& i == -1 <==> forall|k: int| k <= from ==> !(#[trigger] occurs_at(hay, needle, k))
            &&& forall|k: int|
                k <= from && (i < 0 || i < k) ==> !(#[trigger] occurs_at(hay, needle, k))
        }),
    decreases from + 1,
{
    if from >= 0 && !occurs_at(hay, needle, from) {
        the_last_occurrence_is_found(hay, needle, from - 1);
    }
}

/// Whether `needle` stands in `hay` at `i`.
pub fn stands_at(hay: &Vec<char>, needle: &Vec<char>, i: usize) -> (r: bool)
    ensures
        r == occurs_at(hay@, needle@, i as int),
{
    if i > hay.len() || needle.len() > hay.len() - i {
        return false;
    }
    let mut k: usize = 0;
    while k < needle.len()
        invariant
            k <= needle.len(),
            i + needle.len() <= hay.len(),
            forall|j: int| 0 <= j < k ==> hay@[i + j] == needle@[j],
        decreases needle.len() - k,
    {
        if hay[i + k] != needle[k] {
            assert(hay@.subrange(i as int, i + needle.len())[k as int] != needle@[k as int]);
            return false;
        }
        k += 1;
    }
    assert(hay@.subrange(i as int, i + needle.len()) =~= needle@);
    true
}

/// The first position at or after `from` where `needle` stands in `hay`.
pub fn find_from(hay: &Vec<char>, needle: &Vec<char>, from: usize) -> (r: Option<usize>)
    ensures
        r is Some == (index_from(hay@, needle@, from as int) >= 0),
        r matches Some(i) ==> i == index_from(hay@, needle@, from as int) && from <= i <= hay.len(),
        index_from(hay@, needle@, from as int) >= -1,
{
    let mut i: usize = from;
    while i <= hay.len() && needle.len() <= hay.len() - i
        invariant
            from <= i <= hay.len() + 1 || i == from,
            index_from(hay@, needle@, from as int) == index_from(hay@, needle@, i as int),
        decreases hay.len() + 1 - i,
    {
        if stands_at(hay, needle, i) {
            return Some(i);
        }
        if i == hay.len() {
            assert(index_from(hay@, needle@, i + 1) == -1);
            return None;
        }
        i += 1;
    }
    None
}

/// The last position at or before `from` where `needle` stands in `hay`.
pub fn find_back(hay: &Vec<char>, needle: &Vec<char>, from: usize) -> (r: Option<usize>)
    requires
        from < usize::MAX,
    ensures
        r is Some == (last_index_to(hay@, needle@, from as int) >= 0),
        r matches Some(i) ==> i == last_index_to(hay@, needle@, from as int) && i <= from,
        last_index_to(hay@, needle@, from as int) >= -1,
{
    let mut i: usize = from + 1;
    while i > 0
        invariant
            i <= from + 1,
            last_index_to(hay@, needle@, from as int) == last_index_to(hay@, needle@, i - 1),
        decreases i,
    {
        i -= 1;
        if stands_at(hay, needle, i) {
            return Some(i);
        }
    }
    None
}

/// The first position at or after `from` where `c` stands in `s`, or -1.
pub open spec fn char_index(s: Seq<char>, c: char, from: int) -> int
    decreases s.len() - from,
{
    if from < 0 || from >= s.len() {
        -1
    } else if s[from] == c {
        from
    } else {
        char_index(s, c, from + 1)
    }
}

/// The first position at or after `from` where `c` stands in `v`.
pub fn find_char(v: &Vec<char>, c: char, from: usize) -> (r: Option<usize>)
    ensures
        match r {
            Some(i) => i == char_index(v@, c, from as int) && from <= i < v.len() && v@[i as int]
                == c && (forall|k: int| from <= k < i ==> v@[k] != c),
            None => char_index(v@, c, from as int) == -1 && (forall|k: int|
                from <= k < v.len() ==> v@[k] != c),
        },
{
    let mut i: usize = from;
    while i < v.len()
        invariant
            from <= i,
            i <= v.len() || i == from,
            char_index(v@, c, from as int) == char_index(v@, c, i as int),
            forall|k: int| from <= k < i ==> v@[k] != c,
        decreases v.len() - i,
    {
        if v[i] == c {
            return Some(i);
        }
        i += 1;
    }
    None
}

/// A copy of `v[from..to]`.
pub fn part(v: &Vec<char>, from: usize, to: usize) -> (r: Vec<char>)
    requires
        from <= to <= v.len(),
    ensures
        r@ == v@.subrange(from as int, to as int),
{
    let mut r: Vec<char> = Vec::new();
    let mut i: usize = from;
    while i < to
        invariant
            from <= i <= to <= v.len(),
            r@ =~= v@.subrange(from as int, i as int),
        decreases to - i,
    {
        r.push(v[i]);
        i += 1;
    }
    r
}

/// Append `n` copies of `c`.
pub fn push_times(v: &mut Vec<char>, c: char, n: usize)
    ensures
        final(v)@ == old(v)@ + Seq::new(n as nat, |i: int| c),
{
    let mut i: usize = 0;
    while i < n
        invariant
            i <= n,
            v@ =~= old(v)@ + Seq::new(i as nat, |k: int| c),
        decreases n - i,
    {
        v.push(c);
        i += 1;
    }
}

/// Append all of `w`.
pub fn push_chars(v: &mut Vec<char>, w: &Vec<char>)
    ensures
        final(v)@ == old(v)@ + w@,
{
    let mut i: usize = 0;
    while i < w.len()
        invariant
            i <= w.len(),
            v@ =~= old(v)@ + w@.take(i as int),
        decreases w.len() - i,
    {
        v.push(w[i]);
        i += 1;
    }
    assert(w@.take(w.len() as int) =~= w@);
}

/// Whether `s` begins with `prefix`.
pub open spec fn begins(s: Seq<char>, prefix: Seq<char>) -> bool {
    occurs_at(s, prefix, 0)
}

/// Whether `s` begins with `prefix`.
pub fn begins_with(s: &str, prefix: &str) -> (r: bool)
    ensures
        r == begins(s@, prefix@),
{
    stands_at(&chars_of(s), &chars_of(prefix), 0)
}

/// Whether `s` ends with `suffix`.
pub open spec fn ends(s: Seq<char>, suffix: Seq<char>) -> bool {
    occurs_at(s, suffix, s.len() - suffix.len())
}

/// Whether `s` ends with `suffix`.
pub fn ends_with(s: &str, suffix: &str) -> (r: bool)
    ensures
        r == ends(s@, suffix@),
{
    let h: Vec<char> = chars_of(s);
    let n: Vec<char> = chars_of(suffix);
    if n.len() > h.len() {
        false
    } else {
        stands_at(&h, &n, h.len() - n.len())
    }
}

// ── Joining and repeating ───────────────────────────────────────────────────

/// `parts` with `sep` between each two.
pub open spec fn join(parts: Seq<Seq<char>>, sep: Seq<char>) -> Seq<char>
    decreases parts.len(),
{
    if parts.len() == 0 {
        seq![]
    } else if parts.len() == 1 {
        parts[0]
    } else {
        join(parts.drop_last(), sep) + sep + parts.last()
    }
}

/// `parts` with `sep` between each two.
pub fn join_texts(parts: &Vec<String>, sep: &str) -> (r: String)
    ensures
        r@ == join(views(parts@), sep@),
{
    let mut r: String = String::new();
    let mut i: usize = 0;
    while i < parts.len()
        invariant
            i <= parts.len(),
            r@ == join(views(parts@).take(i as int), sep@),
        decreases parts.len() - i,
    {
        let ghost all = views(parts@);
        if i > 0 {
            r.append(sep);
        }
        r.append(parts[i].as_str());
        i += 1;
        proof {
            let t = all.take(i as int);
            assert(t.drop_last() =~= all.take(i - 1));
            assert(t.last() == parts@[i - 1]@);
            assert(all.take(0) =~= seq![]);
            if i == 1 {
                assert(r@ =~= t[0]);
            }
        }
    }
    assert(views(parts@).take(parts.len() as int) =~= views(parts@));
    r
}

/// `s` written `n` times.
pub open spec fn repeated(s: Seq<char>, n: int) -> Seq<char>
    decreases n,
{
    if n <= 0 {
        seq![]
    } else {
        repeated(s, n - 1) + s
    }
}

/// `s` written `n` times.
pub fn repeat_text(s: &str, n: u64) -> (r: String)
    ensures
        r@ == repeated(s@, n as int),
{
    let mut r: String = String::new();
    let mut i: u64 = 0;
    while i < n
        invariant
            i <= n,
            r@ == repeated(s@, i as int),
        decreases n - i,
    {
        r.append(s);
        i += 1;
    }
    r
}

pub proof fn lemma_repeated_len(s: Seq<char>, n: int)
    requires
        n >= 0,
    ensures
        repeated(s, n).len() == s.len() * n,
    decreases n,
{
    if n > 0 {
        lemma_repeated_len(s, n - 1);
        assert(s.len() * n == s.len() * (n - 1) + s.len()) by (nonlinear_arith);
    } else {
        assert(s.len() * n == 0) by (nonlinear_arith)
            requires
                n == 0,
        ;
    }
}

} // verus!
