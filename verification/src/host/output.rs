//! What a program prints, and what its calls into native code come to.
use vstd::prelude::*;

use crate::host::{Host, HostV};
use crate::host::render::{depth_limit, java_str, text_of_value};
use crate::host::views::{stale_view, staleness};
use crate::text::{char_index, chars_of, find_char, own, text_between, views};
use crate::value::{Fault, FaultV, Val, Value, vals};

verus! {

/// The fault of the first of these values that is a view of a list changed
/// behind it.
pub open spec fn first_stale(h: HostV, vs: Seq<Val>) -> Option<FaultV>
    decreases vs.len(),
{
    if vs.len() == 0 {
        None
    } else {
        match staleness(h, vs[0]) {
            Some(f) => Some(f),
            None => first_stale(h, vs.skip(1)),
        }
    }
}

/// The texts of values, one behind the other.
pub open spec fn texts_joined(h: HostV, vs: Seq<Val>) -> Option<Seq<char>>
    decreases vs.len(),
{
    if vs.len() == 0 {
        Some(seq![])
    } else {
        match (texts_joined(h, vs.drop_last()), text_of_value(h, vs.last())) {
            (Some(before), Some(last)) => Some(before + last),
            _ => None,
        }
    }
}

/// The text that printing these values writes. A view of a list changed behind
/// it is a fault, and then nothing is written.
pub open spec fn printed(h: HostV, vs: Seq<Val>) -> Result<Option<Seq<char>>, FaultV> {
    match first_stale(h, vs) {
        Some(f) => Err(f),
        None => Ok(texts_joined(h, vs)),
    }
}

/// The fault of the first of these values that is a view of a list changed
/// behind it.
pub fn print_fault(host: &Host, vals_given: &Vec<Value>) -> (r: Option<Fault>)
    ensures
        match r {
            Some(f) => first_stale(host@, vals(vals_given@)) == Some(f@),
            None => first_stale(host@, vals(vals_given@)) is None,
        },
{
    let ghost all = vals(vals_given@);
    let mut i: usize = 0;
    assert(all.skip(0) =~= all);
    while i < vals_given.len()
        invariant
            i <= vals_given.len(),
            all == vals(vals_given@),
            all.len() == vals_given.len(),
            first_stale(host@, all) == first_stale(host@, all.skip(i as int)),
        decreases vals_given.len() - i,
    {
        assert(all.skip(i as int)[0] == vals_given@[i as int]@);
        assert(all.skip(i as int).skip(1) =~= all.skip(i + 1));
        if let Some(f) = stale_view(host, &vals_given[i]) {
            return Some(f);
        }
        i = i + 1;
    }
    None
}

/// The text that printing these values writes, where no class of the program
/// renders itself. There is none where a value holds itself.
pub fn print_text(host: &Host, vals_given: &Vec<Value>) -> (r: Result<Option<String>, Fault>)
    requires
        depth_limit(host@) <= usize::MAX,
    ensures
        match r {
            Ok(Some(s)) => printed(host@, vals(vals_given@)) == Ok::<Option<Seq<char>>, FaultV>(
                Some(s@),
            ),
            Ok(None) => printed(host@, vals(vals_given@)) == Ok::<Option<Seq<char>>, FaultV>(
                None,
            ),
            Err(f) => printed(host@, vals(vals_given@)) == Err::<Option<Seq<char>>, FaultV>(f@),
        },
{
    if let Some(f) = print_fault(host, vals_given) {
        return Err(f);
    }
    let ghost all = vals(vals_given@);
    let mut out: String = String::new();
    let mut i: usize = 0;
    assert(all.take(0) =~= seq![]);
    assert(out@ =~= seq![]);
    while i < vals_given.len()
        invariant
            i <= vals_given.len(),
            all == vals(vals_given@),
            all.len() == vals_given.len(),
            depth_limit(host@) <= usize::MAX,
            first_stale(host@, all) is None,
            texts_joined(host@, all.take(i as int)) == Some(out@),
        decreases vals_given.len() - i,
    {
        assert(all.take(i + 1).drop_last() =~= all.take(i as int));
        assert(all.take(i + 1).last() == vals_given@[i as int]@);
        match java_str(host, &vals_given[i]) {
            Some(s) => {
                out.append(s.as_str());
            },
            None => {
                proof {
                    lemma_no_text(host@, all, i + 1);
                }
                return Ok(None);
            },
        }
        i = i + 1;
    }
    assert(all.take(i as int) =~= all);
    Ok(Some(out))
}

/// Without a text for some of them, values have none together.
proof fn lemma_no_text(h: HostV, vs: Seq<Val>, n: int)
    requires
        0 <= n <= vs.len(),
        texts_joined(h, vs.take(n)) is None,
    ensures
        texts_joined(h, vs) is None,
    decreases vs.len() - n,
{
    if n == vs.len() {
        assert(vs.take(n) =~= vs);
    } else {
        assert(vs.take(n + 1).drop_last() =~= vs.take(n));
        lemma_no_text(h, vs, n + 1);
    }
}

/// The parts of a text between separators.
pub open spec fn split_at(s: Seq<char>, sep: char, from: int) -> Seq<Seq<char>>
    decreases s.len() - from,
{
    let end = char_index(s, sep, from);
    if from < 0 || end < from || end >= s.len() {
        seq![s.skip(from)]
    } else {
        seq![s.subrange(from, end)] + split_at(s, sep, end + 1)
    }
}

/// The tags that a call of a formatter hands over: what each argument was
/// declared as.
pub open spec fn tags_in(blob: Seq<char>) -> Seq<Seq<char>> {
    if blob.len() == 0 {
        seq![]
    } else {
        split_at(blob, '\u{1f}', 0)
    }
}

/// The tags that a call of a formatter hands over.
pub fn format_tags(blob: &str) -> (r: Vec<String>)
    ensures
        views(r@) == tags_in(blob@),
{
    let v: Vec<char> = chars_of(blob);
    let mut out: Vec<String> = Vec::new();
    if v.len() == 0 {
        assert(views(out@) =~= seq![]);
        return out;
    }
    let mut from: usize = 0;
    assert(views(out@) + split_at(v@, '\u{1f}', 0) =~= tags_in(blob@));
    loop
        invariant
            v@ == blob@,
            v.len() > 0,
            from <= v.len(),
            views(out@) + split_at(v@, '\u{1f}', from as int) == tags_in(blob@),
        decreases v.len() - from,
    {
        let ghost were = views(out@);
        match find_char(&v, '\u{1f}', from) {
            Some(end) => {
                let one: String = text_between(&v, from, end);
                let ghost part = one@;
                out.push(one);
                assert(views(out@) =~= were.push(part));
                assert(views(out@) + split_at(v@, '\u{1f}', end + 1) =~= were + split_at(
                    v@,
                    '\u{1f}',
                    from as int,
                ));
                from = end + 1;
            },
            None => {
                let one: String = text_between(&v, from, v.len());
                let ghost part = one@;
                assert(part =~= v@.skip(from as int));
                out.push(one);
                assert(views(out@) =~= were.push(part));
                assert(views(out@) =~= were + split_at(v@, '\u{1f}', from as int));
                return out;
            },
        }
    }
}

/// What a call into native code comes to: its value, or the message that ends
/// the run. There is no answer where nothing has that name.
pub fn ffi_outcome(name: &str, answer: Option<Result<Value, String>>) -> (r: Result<Value, String>)
    ensures
        match answer {
            Some(Ok(v)) => r == Ok::<Value, String>(v),
            Some(Err(e)) => r is Err && r->Err_0@ == "javars: rust FFI call "@ + name@ + ": "@ + e@,
            None => r is Err && r->Err_0@ == "javars: unresolved reference: "@ + name@,
        },
{
    match answer {
        Some(Ok(v)) => Ok(v),
        Some(Err(e)) => {
            let mut m: String = own("javars: rust FFI call ");
            m.append(name);
            m.append(": ");
            m.append(e.as_str());
            Err(m)
        },
        None => {
            let mut m: String = own("javars: unresolved reference: ");
            m.append(name);
            Err(m)
        },
    }
}

/// How many values stay on a stack that is cut back to a depth noted before. A
/// depth it does not reach leaves it as it is.
pub fn stack_after_cut(depth: i64, len: usize) -> (r: usize)
    ensures
        r == if depth < 0 {
            0
        } else if depth <= len {
            depth as int
        } else {
            len as int
        },
{
    if depth < 0 {
        0
    } else if depth as u64 <= len as u64 {
        depth as usize
    } else {
        len
    }
}

} // verus!
