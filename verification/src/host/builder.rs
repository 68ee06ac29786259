//! `StringBuilder` and `StringBuffer`: a text that its methods change in place.
//!
//! A failed bounds check carries one of three messages: one for a single index,
//! one for a range, and one for `setLength`.
use vstd::prelude::*;

use crate::host::{Host, HostObj, HostV, ObjV};
use crate::host::boxes::{jint, jint_of};
use crate::host::render::scalar;
use crate::host::strings::{
    char_index_of, char_last_index_of, clamped, compare_strings, compared, last_index, last_of,
    range_to_end, sb_index_fault, sb_range_fault, string_index_fault, string_range_fault,
    unsupported_call, unsupported_fault,
};
use crate::host::views::object;
use crate::text::{
    chars_of, code_of, dec, digits, index_from, int_text, own, part, push_chars, radix_text,
    repeat_text, repeated, same, text_between, text_of, views,
};
use crate::value::{Fault, FaultV, Val, Value, internal_fault, java_fault, opt_outcome, vals};

verus! {

/// The capacity of an empty builder, and what a seeded one adds to its length.
pub const SB_DEFAULT_CAP: u64 = 16;

/// What a method does to a builder: the text and the capacity after it, and the
/// value it answers with.
pub type Edit = Result<(Seq<char>, int, Val), FaultV>;

/// The capacity a builder grows to when `min` characters have to fit: twice the
/// old one and two, or `min` when even that is too small.
pub open spec fn grown(cap: int, min: int) -> int {
    if min <= cap {
        cap
    } else if cap * 2 + 2 >= min {
        if cap * 2 + 2 > u64::MAX {
            u64::MAX as int
        } else {
            cap * 2 + 2
        }
    } else {
        min
    }
}

/// The capacity a builder grows to when `min` characters have to fit. The
/// largest capacity is the largest `u64`.
pub fn sb_grow(cap: u64, min: u64) -> (r: u64)
    ensures
        r == grown(cap as int, min as int),
{
    if min <= cap {
        cap
    } else if cap > (u64::MAX - 2) / 2 {
        u64::MAX
    } else if cap * 2 + 2 >= min {
        cap * 2 + 2
    } else {
        min
    }
}

/// The text and capacity as they are, and a value.
pub open spec fn untouched(s: Seq<char>, cap: int, v: Val) -> Edit {
    Ok((s, cap, v))
}

/// A new text, which the capacity grows to hold.
pub open spec fn written(s: Seq<char>, cap: int, v: Val) -> Edit {
    Ok((s, grown(cap, s.len() as int), v))
}

/// Whether `s1`, `cap1` and `r` are what `want` says of a builder that held `s0`
/// at capacity `cap0`. A fault leaves the builder as it was.
pub open spec fn edits(
    r: Result<Value, Fault>,
    s0: Seq<char>,
    cap0: int,
    s1: Seq<char>,
    cap1: int,
    want: Edit,
) -> bool {
    match (r, want) {
        (Ok(v), Ok((s, cap, x))) => v@ == x && s1 == s && cap1 == cap,
        (Err(f), Err(g)) => f@ == g && s1 == s0 && cap1 == cap0,
        _ => false,
    }
}

/// `s` with what stands in `[a, b)` replaced.
pub open spec fn spliced(s: Seq<char>, a: int, b: int, with: Seq<char>) -> Seq<char> {
    s.take(a) + with + s.skip(b)
}

/// Replace what stands in `[a, b)`.
fn splice(s: &mut Vec<char>, a: usize, b: usize, with: &Vec<char>)
    requires
        a <= b <= old(s)@.len(),
    ensures
        final(s)@ == spliced(old(s)@, a as int, b as int, with@),
{
    let ghost before = s@;
    let mut out: Vec<char> = part(s, 0, a);
    push_chars(&mut out, with);
    let tail: Vec<char> = part(s, b, s.len());
    push_chars(&mut out, &tail);
    assert(out@ =~= spliced(before, a as int, b as int, with@));
    *s = out;
}

/// `[start, end)` of a builder, or the fault. Both ends have to lie in it.
pub open spec fn range_ok(start: int, end: int, len: int) -> bool {
    0 <= start <= end <= len
}

/// Check a range of a builder.
pub fn sb_range(start: i64, end: i64, len: usize) -> (r: Result<(usize, usize), Fault>)
    ensures
        match r {
            Ok((a, b)) => range_ok(start as int, end as int, len as int) && a == start && b == end,
            Err(f) => !range_ok(start as int, end as int, len as int) && f@ == string_range_fault(
                start as int,
                end as int,
                len as int,
            ),
        },
{
    if start < 0 || start > end || end as u64 > len as u64 {
        return Err(sb_range_fault(start, end, len));
    }
    Ok((start as usize, end as usize))
}

/// Check an index into a builder.
pub fn sb_char_offset(i: i64, len: usize) -> (r: Result<usize, Fault>)
    ensures
        match r {
            Ok(a) => 0 <= i < len && a == i,
            Err(f) => !(0 <= i < len) && f@ == string_index_fault(i as int, len as int),
        },
{
    if i < 0 || i as u64 >= len as u64 {
        return Err(sb_index_fault(i, len));
    }
    Ok(i as usize)
}

/// The smaller of an index and a length.
pub open spec fn capped(n: int, len: int) -> int {
    if n < len {
        n
    } else {
        len
    }
}

/// The digits of a number in base 16, the letters in upper case.
pub open spec fn upper_hex(n: int) -> Seq<char> {
    let low = digits(n, 16);
    Seq::new(low.len(), |i: int| raised_digit(low[i]))
}

/// A letter of a hexadecimal digit in upper case.
pub open spec fn raised_digit(c: char) -> char {
    if 'a' <= c <= 'f' {
        ((c as int) - 32) as char
    } else {
        c
    }
}

fn hex_upper(n: u64) -> (r: String)
    ensures
        r@ == upper_hex(n as int),
{
    let low: Vec<char> = chars_of(radix_text(n, 16).as_str());
    let mut out: Vec<char> = Vec::new();
    let mut i: usize = 0;
    while i < low.len()
        invariant
            i <= low.len(),
            out.len() == i,
            forall|k: int| 0 <= k < i ==> #[trigger] out@[k] == raised_digit(low@[k]),
        decreases low.len() - i,
    {
        let c: char = low[i];
        let n: u32 = code_of(c);
        if 0x61 <= n && n <= 0x66 {
            match char::from_u32(n - 32) {
                Some(d) => out.push(d),
                None => out.push(c),
            }
        } else {
            out.push(c);
        }
        i += 1;
    }
    assert(out@ =~= upper_hex(n as int));
    text_of(&out)
}

/// An integer's 64 bits read without a sign.
pub open spec fn unsigned_bits(n: int) -> int {
    if n < 0 {
        n + 0x1_0000_0000_0000_0000
    } else {
        n
    }
}

pub fn bits_of(n: i64) -> (r: u64)
    ensures
        r == unsigned_bits(n as int),
{
    if n < 0 {
        (n as i128 + 0x1_0000_0000_0000_0000) as u64
    } else {
        n as u64
    }
}

/// The methods without an argument.
pub open spec fn builder_plain(this: Val, s: Seq<char>, cap: int, method: Seq<char>) -> Option<Edit> {
    if method == "toString"@ || method == "substring"@ {
        Some(untouched(s, cap, Val::Str(s)))
    } else if method == "length"@ {
        Some(untouched(s, cap, Val::Int(s.len() as i64)))
    } else if method == "isEmpty"@ {
        Some(untouched(s, cap, Val::Bool(s.len() == 0)))
    } else if method == "capacity"@ {
        Some(untouched(s, cap, Val::Int(cap as i64)))
    } else if method == "trimToSize"@ {
        Some(Ok((s, s.len() as int, Val::Undef)))
    } else if method == "reverse"@ {
        Some(untouched(s.reverse(), cap, this))
    } else {
        None
    }
}

fn reverse_chars(s: &mut Vec<char>)
    ensures
        final(s)@ == old(s)@.reverse(),
{
    let ghost before = s@;
    let mut out: Vec<char> = Vec::new();
    let mut i: usize = s.len();
    while i > 0
        invariant
            s@ == before,
            i <= s.len(),
            out.len() == s.len() - i,
            forall|k: int| 0 <= k < out.len() ==> #[trigger] out@[k] == before[before.len() - 1 - k],
        decreases i,
    {
        i -= 1;
        out.push(s[i]);
    }
    assert(out@ =~= before.reverse());
    *s = out;
}

fn call_builder_plain(id: u32, s: &mut Vec<char>, cap: &mut u64, method: &str) -> (r: Option<
    Result<Value, Fault>,
>)
    ensures
        match (r, builder_plain(Val::Obj(id), old(s)@, *old(cap) as int, method@)) {
            (Some(x), Some(y)) => edits(
                x,
                old(s)@,
                *old(cap) as int,
                final(s)@,
                *final(cap) as int,
                y,
            ),
            (None, None) => final(s)@ == old(s)@ && *final(cap) == *old(cap),
            _ => false,
        },
{
    if same(method, "toString") || same(method, "substring") {
        Some(Ok(Value::Str(text_of(s))))
    } else if same(method, "length") {
        Some(Ok(Value::Int(s.len() as i64)))
    } else if same(method, "isEmpty") {
        Some(Ok(Value::Bool(s.len() == 0)))
    } else if same(method, "capacity") {
        Some(Ok(Value::Int(*cap as i64)))
    } else if same(method, "trimToSize") {
        *cap = s.len() as u64;
        Some(Ok(Value::Undef))
    } else if same(method, "reverse") {
        reverse_chars(s);
        Some(Ok(Value::Obj(id)))
    } else {
        None
    }
}

/// The methods with one argument: `arg`, `n` it read as a number and `t` the
/// text it is rendered as.
pub open spec fn builder_one(
    this: Val,
    s: Seq<char>,
    cap: int,
    method: Seq<char>,
    arg: Val,
    n: int,
    t: Seq<char>,
) -> Option<Edit> {
    if method == "ensureCapacity"@ {
        if n > 0 {
            Some(Ok((s, grown(cap, n), Val::Undef)))
        } else {
            Some(untouched(s, cap, Val::Undef))
        }
    } else if method == "append"@ {
        Some(written(s + t, cap, this))
    } else if method == "appendChars"@ {
        if arg == Val::Undef {
            Some(
                Err(
                    java_fault(
                        "NullPointerException"@,
                        "Cannot read the array length because \"str\" is null"@,
                    ),
                ),
            )
        } else {
            Some(written(s + t, cap, this))
        }
    } else if method == "appendCodePoint"@ {
        match scalar(n) {
            Some(c) => Some(written(s.push(c), cap, this)),
            None => Some(
                Err(
                    java_fault(
                        "IllegalArgumentException"@,
                        "Not a valid Unicode code point: 0x"@ + upper_hex(unsigned_bits(n)),
                    ),
                ),
            ),
        }
    } else if method == "charAt"@ {
        if 0 <= n < s.len() {
            Some(untouched(s, cap, Val::Int((s[n] as int) as i64)))
        } else {
            Some(Err(string_index_fault(n, s.len() as int)))
        }
    } else if method == "deleteCharAt"@ {
        if 0 <= n < s.len() {
            Some(untouched(spliced(s, n, n + 1, seq![]), cap, this))
        } else {
            Some(Err(string_index_fault(n, s.len() as int)))
        }
    } else if method == "substring"@ {
        if range_ok(n, s.len() as int, s.len() as int) {
            Some(untouched(s, cap, Val::Str(s.skip(n))))
        } else {
            Some(Err(string_range_fault(n, s.len() as int, s.len() as int)))
        }
    } else if method == "setLength"@ {
        if n < 0 {
            Some(
                Err(
                    java_fault(
                        "StringIndexOutOfBoundsException"@,
                        "String index out of range: "@ + dec(n),
                    ),
                ),
            )
        } else {
            Some(Ok((resized_text(s, n), grown(cap, n), Val::Undef)))
        }
    } else if method == "indexOf"@ {
        Some(untouched(s, cap, Val::Int(index_from(s, t, 0) as i64)))
    } else if method == "lastIndexOf"@ {
        Some(untouched(s, cap, Val::Int(last_index(s, t, s.len() as int) as i64)))
    } else if method == "compareTo"@ {
        Some(untouched(s, cap, Val::Int(compared(s, t, false) as i64)))
    } else {
        None
    }
}

/// The first `n` characters, or the text followed by NUL up to `n`.
pub open spec fn resized_text(s: Seq<char>, n: int) -> Seq<char> {
    if n <= s.len() {
        s.take(n)
    } else {
        s + Seq::new((n - s.len()) as nat, |i: int| '\0')
    }
}

fn resize_chars(s: &mut Vec<char>, n: u64)
    ensures
        final(s)@ == resized_text(old(s)@, n as int),
{
    let ghost before = s@;
    if n <= s.len() as u64 {
        s.truncate(n as usize);
        assert(s@ =~= resized_text(before, n as int));
        return;
    }
    while (s.len() as u64) < n
        invariant
            before.len() <= s@.len() <= n,
            before.len() < n,
            s@ =~= before + Seq::new((s@.len() - before.len()) as nat, |i: int| '\0'),
        decreases n - s@.len(),
    {
        s.push('\0');
    }
    assert(s@ =~= resized_text(before, n as int));
}


fn call_builder_one(
    id: u32,
    s: &mut Vec<char>,
    cap: &mut u64,
    method: &str,
    arg: &Value,
    n: i64,
    rendered: &str,
) -> (r: Option<Result<Value, Fault>>)
    ensures
        match (
            r,
            builder_one(
                Val::Obj(id),
                old(s)@,
                *old(cap) as int,
                method@,
                arg@,
                n as int,
                rendered@,
            ),
        ) {
            (Some(x), Some(y)) => edits(
                x,
                old(s)@,
                *old(cap) as int,
                final(s)@,
                *final(cap) as int,
                y,
            ),
            (None, None) => final(s)@ == old(s)@ && *final(cap) == *old(cap),
            _ => false,
        },
{
    let t: Vec<char> = chars_of(rendered);
    if same(method, "ensureCapacity") {
        if n > 0 {
            *cap = sb_grow(*cap, n as u64);
        }
        Some(Ok(Value::Undef))
    } else if same(method, "append") {
        push_chars(s, &t);
        *cap = sb_grow(*cap, s.len() as u64);
        Some(Ok(Value::Obj(id)))
    } else if same(method, "appendChars") {
        if arg.is_undef() {
            return Some(
                Err(
                    Fault::java(
                        "NullPointerException",
                        own("Cannot read the array length because \"str\" is null"),
                    ),
                ),
            );
        }
        push_chars(s, &t);
        *cap = sb_grow(*cap, s.len() as u64);
        Some(Ok(Value::Obj(id)))
    } else if same(method, "appendCodePoint") {
        let c: Option<char> = if 0 <= n && n <= 0x10_ffff {
            char::from_u32(n as u32)
        } else {
            None
        };
        match c {
            Some(c) => {
                s.push(c);
                *cap = sb_grow(*cap, s.len() as u64);
                Some(Ok(Value::Obj(id)))
            },
            None => {
                let mut m: String = own("Not a valid Unicode code point: 0x");
                m.append(hex_upper(bits_of(n)).as_str());
                Some(Err(Fault::java("IllegalArgumentException", m)))
            },
        }
    } else if same(method, "charAt") {
        match sb_char_offset(n, s.len()) {
            Ok(at) => Some(Ok(Value::Int(code_of(s[at]) as i64))),
            Err(f) => Some(Err(f)),
        }
    } else if same(method, "deleteCharAt") {
        match sb_char_offset(n, s.len()) {
            Ok(at) => {
                splice(s, at, at + 1, &Vec::new());
                Some(Ok(Value::Obj(id)))
            },
            Err(f) => Some(Err(f)),
        }
    } else if same(method, "substring") {
        if n < 0 || n as u64 > s.len() as u64 {
            return Some(Err(range_to_end(n, s.len())));
        }
        let tail: String = text_between(s, n as usize, s.len());
        assert(tail@ =~= s@.skip(n as int));
        Some(Ok(Value::Str(tail)))
    } else if same(method, "setLength") {
        if n < 0 {
            let mut m: String = own("String index out of range: ");
            m.append(int_text(n).as_str());
            return Some(Err(Fault::java("StringIndexOutOfBoundsException", m)));
        }
        resize_chars(s, n as u64);
        *cap = sb_grow(*cap, n as u64);
        Some(Ok(Value::Undef))
    } else if same(method, "indexOf") {
        Some(Ok(Value::Int(char_index_of(s, &t, 0))))
    } else if same(method, "lastIndexOf") {
        Some(Ok(Value::Int(last_of(s, &t))))
    } else if same(method, "compareTo") {
        let held: String = text_of(s);
        Some(Ok(Value::Int(compare_strings(held.as_str(), rendered, false))))
    } else {
        None
    }
}

/// The methods with two arguments: `m` and `n` they read as numbers, `t` and `u`
/// the texts they are rendered as.
pub open spec fn builder_two(
    this: Val,
    s: Seq<char>,
    cap: int,
    method: Seq<char>,
    m: int,
    n: int,
    t: Seq<char>,
    u: Seq<char>,
) -> Option<Edit> {
    let len = s.len() as int;
    if method == "repeat"@ {
        Some(written(s + repeated(t, n), cap, this))
    } else if method == "setCharAt"@ {
        if 0 <= m < len {
            Some(untouched(spliced(s, m, m + 1, u), cap, Val::Undef))
        } else {
            Some(Err(string_index_fault(m, len)))
        }
    } else if method == "delete"@ {
        if range_ok(m, capped(n, len), len) {
            Some(untouched(spliced(s, m, capped(n, len), seq![]), cap, this))
        } else {
            Some(Err(string_range_fault(m, capped(n, len), len)))
        }
    } else if method == "substring"@ || method == "subSequence"@ {
        if range_ok(m, n, len) {
            Some(untouched(s, cap, Val::Str(s.subrange(m, n))))
        } else {
            Some(Err(string_range_fault(m, n, len)))
        }
    } else if method == "insert"@ {
        if 0 <= m <= len {
            Some(written(spliced(s, m, m, u), cap, this))
        } else {
            Some(Err(string_range_fault(m, len, len)))
        }
    } else if method == "indexOf"@ {
        Some(untouched(s, cap, Val::Int(index_from(s, t, clamped(n, len)) as i64)))
    } else if method == "lastIndexOf"@ {
        Some(untouched(s, cap, Val::Int(last_index(s, t, n) as i64)))
    } else {
        None
    }
}

/// `[start, end)` of a builder, the end brought down to its length.
fn capped_range(start: i64, end: i64, len: usize) -> (r: Result<(usize, usize), Fault>)
    ensures
        match r {
            Ok((a, b)) => range_ok(start as int, capped(end as int, len as int), len as int) && a
                == start && b == capped(end as int, len as int),
            Err(f) => !range_ok(start as int, capped(end as int, len as int), len as int) && f@
                == string_range_fault(start as int, capped(end as int, len as int), len as int),
        },
{
    if end < 0 || (end as u64) < len as u64 {
        sb_range(start, end, len)
    } else if start < 0 || start as u64 > len as u64 {
        Err(range_to_end(start, len))
    } else {
        Ok((start as usize, len))
    }
}

fn call_builder_two(
    id: u32,
    s: &mut Vec<char>,
    cap: &mut u64,
    method: &str,
    m: i64,
    n: i64,
    first: &str,
    second: &str,
) -> (r: Option<Result<Value, Fault>>)
    ensures
        match (
            r,
            builder_two(
                Val::Obj(id),
                old(s)@,
                *old(cap) as int,
                method@,
                m as int,
                n as int,
                first@,
                second@,
            ),
        ) {
            (Some(x), Some(y)) => edits(
                x,
                old(s)@,
                *old(cap) as int,
                final(s)@,
                *final(cap) as int,
                y,
            ),
            (None, None) => final(s)@ == old(s)@ && *final(cap) == *old(cap),
            _ => false,
        },
{
    let t: Vec<char> = chars_of(first);
    let u: Vec<char> = chars_of(second);
    if same(method, "repeat") {
        let times: u64 = if n < 0 {
            0
        } else {
            n as u64
        };
        let text: String = repeat_text(first, times);
        push_chars(s, &chars_of(text.as_str()));
        *cap = sb_grow(*cap, s.len() as u64);
        Some(Ok(Value::Obj(id)))
    } else if same(method, "setCharAt") {
        match sb_char_offset(m, s.len()) {
            Ok(at) => {
                splice(s, at, at + 1, &u);
                Some(Ok(Value::Undef))
            },
            Err(f) => Some(Err(f)),
        }
    } else if same(method, "delete") {
        match capped_range(m, n, s.len()) {
            Ok((a, b)) => {
                splice(s, a, b, &Vec::new());
                Some(Ok(Value::Obj(id)))
            },
            Err(f) => Some(Err(f)),
        }
    } else if same(method, "substring") || same(method, "subSequence") {
        match sb_range(m, n, s.len()) {
            Ok((a, b)) => Some(Ok(Value::Str(text_between(s, a, b)))),
            Err(f) => Some(Err(f)),
        }
    } else if same(method, "insert") {
        if m < 0 || m as u64 > s.len() as u64 {
            return Some(Err(range_to_end(m, s.len())));
        }
        splice(s, m as usize, m as usize, &u);
        *cap = sb_grow(*cap, s.len() as u64);
        Some(Ok(Value::Obj(id)))
    } else if same(method, "indexOf") {
        Some(Ok(Value::Int(char_index_of(s, &t, n))))
    } else if same(method, "lastIndexOf") {
        Some(Ok(Value::Int(char_last_index_of(s, &t, n))))
    } else {
        None
    }
}

/// `replace(start, end, text)`: the end is brought down to the length first.
pub open spec fn builder_replace(
    this: Val,
    s: Seq<char>,
    cap: int,
    m: int,
    n: int,
    t: Seq<char>,
) -> Edit {
    let len = s.len() as int;
    if range_ok(m, capped(n, len), len) {
        written(spliced(s, m, capped(n, len), t), cap, this)
    } else {
        Err(string_range_fault(m, capped(n, len), len))
    }
}

fn replace_range(id: u32, s: &mut Vec<char>, cap: &mut u64, m: i64, n: i64, text: &str) -> (r:
    Result<Value, Fault>)
    ensures
        edits(
            r,
            old(s)@,
            *old(cap) as int,
            final(s)@,
            *final(cap) as int,
            builder_replace(
                Val::Obj(id),
                old(s)@,
                *old(cap) as int,
                m as int,
                n as int,
                text@,
            ),
        ),
{
    match capped_range(m, n, s.len()) {
        Ok((a, b)) => {
            splice(s, a, b, &chars_of(text));
            *cap = sb_grow(*cap, s.len() as u64);
            Ok(Value::Obj(id))
        },
        Err(f) => Err(f),
    }
}

/// `sb.method(args)` on a builder that holds `s` at capacity `cap`, `texts` what
/// the arguments are rendered as.
pub open spec fn builder_edit(
    h: HostV,
    id: u32,
    s: Seq<char>,
    cap: int,
    method: Seq<char>,
    args: Seq<Val>,
    texts: Seq<Seq<char>>,
) -> Edit {
    let this = Val::Obj(id);
    let found = if args.len() == 0 {
        builder_plain(this, s, cap, method)
    } else if args.len() == 1 {
        builder_one(this, s, cap, method, args[0], jint_of(h, args[0]), texts[0])
    } else if args.len() == 2 {
        builder_two(
            this,
            s,
            cap,
            method,
            jint_of(h, args[0]),
            jint_of(h, args[1]),
            texts[0],
            texts[1],
        )
    } else if args.len() == 3 && method == "replace"@ {
        Some(
            builder_replace(this, s, cap, jint_of(h, args[0]), jint_of(h, args[1]), texts[2]),
        )
    } else {
        None
    };
    match found {
        Some(r) => r,
        None => Err(unsupported_call("StringBuilder"@, method, args.len() as int)),
    }
}

/// The methods a builder has from `Object`: they go by identity, not by the text.
pub open spec fn inherited(method: Seq<char>, n: int) -> bool {
    ||| method == "equals"@ && n == 1
    ||| method == "hashCode"@ && n == 0
    ||| method == "getClass"@ && n == 0
}

fn is_inherited(method: &str, n: usize) -> (r: bool)
    ensures
        r == inherited(method@, n as int),
{
    (n == 1 && same(method, "equals")) || (n == 0 && (same(method, "hashCode") || same(
        method,
        "getClass",
    )))
}

/// What `sb.method(args)` leaves the host as, and what it answers with; no
/// answer, and nothing changed, where the method is one of `Object`'s.
pub open spec fn builder_called(
    h: HostV,
    id: u32,
    method: Seq<char>,
    args: Seq<Val>,
    texts: Seq<Seq<char>>,
) -> (HostV, Option<Result<Val, FaultV>>) {
    if inherited(method, args.len() as int) {
        (h, None)
    } else if (id as int) < h.heap.len() {
        match h.heap[id as int] {
            ObjV::Builder { s, cap, buffer } => match builder_edit(
                h,
                id,
                s,
                cap,
                method,
                args,
                texts,
            ) {
                Ok((s2, cap2, v)) => (
                    HostV {
                        heap: h.heap.update(id as int, ObjV::Builder { s: s2, cap: cap2, buffer }),
                        ..h
                    },
                    Some(Ok(v)),
                ),
                Err(f) => (h, Some(Err(f))),
            },
            _ => (h, Some(Err(internal_fault("javars: dangling StringBuilder handle"@)))),
        }
    } else {
        (h, Some(Err(internal_fault("javars: dangling StringBuilder handle"@))))
    }
}

/// Evaluate `sb.method(args)` on a `StringBuilder` or `StringBuffer`. `rendered`
/// holds the texts of the arguments: rendering one may run the program's own
/// code, so it comes before the builder is read. `None` leaves the call to
/// `Object`.
pub fn builder_method(
    host: &mut Host,
    id: u32,
    method: &str,
    args: &Vec<Value>,
    rendered: &Vec<String>,
) -> (r: Option<Result<Value, Fault>>)
    requires
        rendered.len() == args.len(),
    ensures
        (final(host)@, opt_outcome(r)) == builder_called(
            old(host)@,
            id,
            method@,
            vals(args@),
            views(rendered@),
        ),
{
    if is_inherited(method, args.len()) {
        return None;
    }
    let i: usize = id as usize;
    if i >= host.heap.len() {
        return Some(Err(Fault::internal(own("javars: dangling StringBuilder handle"))));
    }
    let ghost before = host@;
    let ghost vs = vals(args@);
    let mut nums: Vec<i64> = Vec::new();
    let mut k: usize = 0;
    while k < args.len()
        invariant
            k <= args.len(),
            nums.len() == k,
            forall|j: int| 0 <= j < k ==> #[trigger] nums@[j] == jint_of(host@, args@[j]@),
        decreases args.len() - k,
    {
        let n: i64 = jint(host, &args[k]);
        nums.push(n);
        k += 1;
    }
    assert(before.heap[i as int] == host.heap@[i as int]@);
    let r: Result<Value, Fault> = match &mut host.heap[i] {
        HostObj::Builder { s, cap, .. } => {
            let found: Option<Result<Value, Fault>> = if args.len() == 0 {
                call_builder_plain(id, s, cap, method)
            } else if args.len() == 1 {
                call_builder_one(id, s, cap, method, &args[0], nums[0], rendered[0].as_str())
            } else if args.len() == 2 {
                call_builder_two(
                    id,
                    s,
                    cap,
                    method,
                    nums[0],
                    nums[1],
                    rendered[0].as_str(),
                    rendered[1].as_str(),
                )
            } else if args.len() == 3 && same(method, "replace") {
                Some(replace_range(id, s, cap, nums[0], nums[1], rendered[2].as_str()))
            } else {
                None
            };
            match found {
                Some(r) => r,
                None => Err(unsupported_fault("StringBuilder", method, args.len())),
            }
        },
        _ => Err(Fault::internal(own("javars: dangling StringBuilder handle"))),
    };
    proof {
        assert(forall|j: int| 0 <= j < args.len() ==> vs[j] == (#[trigger] args@[j])@);
        assert(host@.heap =~= before.heap.update(i as int, host.heap@[i as int]@));
        assert(before.heap.update(i as int, before.heap[i as int]) =~= before.heap);
    }
    Some(r)
}

/// The handle of a builder, `None` for every other value.
pub open spec fn builder_id(h: HostV, v: Val) -> Option<u32> {
    match v {
        Val::Obj(id) => match object(h, id as int) {
            Some(ObjV::Builder { .. }) => Some(id),
            _ => None,
        },
        _ => None,
    }
}

/// The handle of a builder, `None` for every other value.
pub fn is_builder(host: &Host, v: &Value) -> (r: Option<u32>)
    ensures
        r == builder_id(host@, v@),
{
    match v {
        Value::Obj(id) => {
            let i: usize = *id as usize;
            if i < host.heap.len() {
                assert(host@.heap[i as int] == host.heap@[i as int]@);
                match &host.heap[i] {
                    HostObj::Builder { .. } => Some(*id),
                    _ => None,
                }
            } else {
                None
            }
        },
        _ => None,
    }
}

/// A new builder: `seed` is a capacity, or a value whose rendering `text` it
/// starts with.
pub open spec fn new_builder(kind: Seq<char>, seed: Val, text: Seq<char>) -> Result<ObjV, FaultV> {
    match seed {
        Val::Undef => Err(
            java_fault(
                "NullPointerException"@,
                "Cannot invoke \"String.length()\" because \"str\" is null"@,
            ),
        ),
        Val::Int(n) => if n < 0 {
            Err(java_fault("NegativeArraySizeException"@, dec(n as int)))
        } else {
            Ok(ObjV::Builder { s: seq![], cap: n as int, buffer: kind == "StringBuffer"@ })
        },
        _ => Ok(
            ObjV::Builder {
                s: text,
                cap: text.len() + SB_DEFAULT_CAP as int,
                buffer: kind == "StringBuffer"@,
            },
        ),
    }
}

/// Make a `StringBuilder` or, where `kind` says so, a `StringBuffer`. The three
/// constructors are told apart by what the argument is: a capacity, a text, or
/// the `null` that none takes.
pub fn sb_new(kind: &str, seed: &Value, text: &str) -> (r: Result<HostObj, Fault>)
    requires
        text@.len() + SB_DEFAULT_CAP <= u64::MAX,
    ensures
        match (r, new_builder(kind@, seed@, text@)) {
            (Ok(x), Ok(y)) => x@ == y,
            (Err(x), Err(y)) => x@ == y,
            _ => false,
        },
{
    let buffer: bool = same(kind, "StringBuffer");
    match seed {
        Value::Undef => Err(
            Fault::java(
                "NullPointerException",
                own("Cannot invoke \"String.length()\" because \"str\" is null"),
            ),
        ),
        Value::Int(n) => {
            if *n < 0 {
                return Err(Fault::java("NegativeArraySizeException", int_text(*n)));
            }
            let s: Vec<char> = Vec::new();
            assert(s@ =~= seq![]);
            Ok(HostObj::Builder { s, cap: *n as u64, buffer })
        },
        _ => {
            let s: Vec<char> = chars_of(text);
            let cap: u64 = s.len() as u64 + SB_DEFAULT_CAP;
            Ok(HostObj::Builder { s, cap, buffer })
        },
    }
}

/// Appending a text puts it behind what the builder held, and answers with the
/// builder itself.
pub proof fn appending_extends(h: HostV, id: u32, s: Seq<char>, cap: int, arg: Val, t: Seq<char>)
    ensures
        builder_edit(h, id, s, cap, "append"@, seq![arg], seq![t]) matches Ok((s2, cap2, v)) && s2
            == s + t && v == Val::Obj(id),
{
    reveal_strlit("append");
    reveal_strlit("ensureCapacity");
    assert("append"@.len() != "ensureCapacity"@.len());
}

/// Reversing twice gives the text back.
pub proof fn reversing_twice_restores(h: HostV, id: u32, s: Seq<char>, cap: int)
    ensures
        builder_edit(h, id, s, cap, "reverse"@, seq![], seq![]) matches Ok((s2, cap2, v))
            && builder_edit(h, id, s2, cap2, "reverse"@, seq![], seq![]) == Ok::<
            (Seq<char>, int, Val),
            FaultV,
        >((s, cap, Val::Obj(id))),
{
    reveal_strlit("reverse");
    reveal_strlit("toString");
    reveal_strlit("substring");
    reveal_strlit("length");
    reveal_strlit("isEmpty");
    reveal_strlit("capacity");
    reveal_strlit("trimToSize");
    let m = "reverse"@;
    assert(m.len() == 7);
    assert(m[0] == 'r' && "isEmpty"@[0] == 'i');
    assert(s.reverse().reverse() =~= s);
}

/// Deleting what was inserted, where it was inserted, gives the text back.
pub proof fn deleting_undoes_inserting(
    this: Val,
    s: Seq<char>,
    cap: int,
    at: int,
    t: Seq<char>,
    n: int,
    u: Seq<char>,
)
    requires
        0 <= at <= s.len(),
    ensures
        builder_two(this, s, cap, "insert"@, at, n, u, t) matches Some(Ok((s2, cap2, _)))
            && builder_two(this, s2, cap2, "delete"@, at, at + t.len(), u, u) == Some(
            Ok::<(Seq<char>, int, Val), FaultV>((s, cap2, this)),
        ),
{
    reveal_strlit("insert");
    reveal_strlit("repeat");
    reveal_strlit("setCharAt");
    reveal_strlit("delete");
    reveal_strlit("substring");
    reveal_strlit("subSequence");
    assert("insert"@[0] == 'i' && "repeat"@[0] == 'r' && "delete"@[0] == 'd');
    assert(spliced(spliced(s, at, at, t), at, at + t.len(), seq![]) =~= s);
}

/// A written builder has room for its text.
pub proof fn growing_makes_room(cap: int, min: int)
    requires
        0 <= min <= u64::MAX,
        0 <= cap <= u64::MAX,
    ensures
        cap <= grown(cap, min) <= u64::MAX,
        min <= grown(cap, min),
{
}

} // verus!
