//! The stable sort of `List.sort` and `Collections.sort`.
//!
//! A bottom-up merge sort: it ends with a permutation of its input whatever the
//! comparator answers, and with the stable ascending order where the comparator
//! is an order.
use vstd::prelude::*;

use crate::host::{Host, HostObj, HostV, ObjV};
use crate::host::boxes::bare;
use crate::host::order::{ints, natural, natural_order, picked, text_order};
use crate::host::views::object;
use crate::text::own;
use crate::value::{Fault, FaultV, Val, Value, internal_fault, vals};

verus! {

/// Whether every answer of `f` is what `rel` gives.
pub open spec fn ranks<F: Fn(&Value, &Value) -> i64>(f: F, rel: spec_fn(Val, Val) -> int) -> bool {
    forall|a: &Value, b: &Value, r: i64| call_ensures(f, (a, b), r) ==> r == rel(a@, b@)
}

/// Whether `rel` is an order on `items`: of two values one is not below the
/// other, and what is not below passes on.
pub open spec fn is_order(items: Seq<Val>, rel: spec_fn(Val, Val) -> int) -> bool {
    &&& forall|p: int, q: int|
        0 <= p < items.len() && 0 <= q < items.len() ==> #[trigger] rel(items[p], items[q]) >= 0
            || rel(items[q], items[p]) >= 0
    &&& forall|p: int, q: int, s: int|
        #![trigger rel(items[p], items[q]), rel(items[q], items[s])]
        0 <= p < items.len() && 0 <= q < items.len() && 0 <= s < items.len() && rel(
            items[p],
            items[q],
        ) >= 0 && rel(items[q], items[s]) >= 0 ==> rel(items[p], items[s]) >= 0
}

/// Whether the element at position `p` comes before the one at `q`: it is
/// smaller, or no greater and stood first.
pub open spec fn before(items: Seq<Val>, rel: spec_fn(Val, Val) -> int, p: int, q: int) -> bool {
    rel(items[q], items[p]) >= 0 && (rel(items[p], items[q]) >= 0 ==> p < q)
}

/// Whether the positions in `[lo, hi)` are in ascending order.
pub open spec fn ascending(
    items: Seq<Val>,
    rel: spec_fn(Val, Val) -> int,
    at: Seq<int>,
    lo: int,
    hi: int,
) -> bool {
    forall|a: int, b: int|
        lo <= a < b < hi ==> before(items, rel, #[trigger] at[a], #[trigger] at[b])
}

/// Whether `at` is `lo..hi` in some order, between `lo` and `hi`.
pub open spec fn shuffles(at: Seq<int>, lo: int, hi: int) -> bool {
    &&& forall|a: int| lo <= a < hi ==> lo <= #[trigger] at[a] < hi
    &&& forall|a: int, b: int|
        lo <= a < hi && lo <= b < hi && a != b ==> #[trigger] at[a] != #[trigger] at[b]
}

/// Whether every position of `out` comes before those of `at` in `[lo, hi)`.
pub open spec fn all_before(
    items: Seq<Val>,
    rel: spec_fn(Val, Val) -> int,
    out: Seq<int>,
    at: Seq<int>,
    lo: int,
    hi: int,
) -> bool {
    forall|a: int, b: int|
        0 <= a < out.len() && lo <= b < hi ==> before(
            items,
            rel,
            #[trigger] out[a],
            #[trigger] at[b],
        )
}

proof fn lemma_before_passes(
    items: Seq<Val>,
    rel: spec_fn(Val, Val) -> int,
    p: int,
    q: int,
    s: int,
)
    requires
        is_order(items, rel),
        0 <= p < items.len(),
        0 <= q < items.len(),
        0 <= s < items.len(),
        before(items, rel, p, q),
        before(items, rel, q, s),
    ensures
        before(items, rel, p, s),
{
    assert(rel(items[s], items[q]) >= 0 && rel(items[q], items[p]) >= 0);
    assert(rel(items[s], items[p]) >= 0);
    if rel(items[p], items[s]) >= 0 {
        assert(rel(items[p], items[q]) >= 0);
        assert(rel(items[q], items[s]) >= 0);
    }
}

/// Taking the next position from `at[k]` keeps the merge in order, where it
/// comes before everything that remains.
proof fn lemma_take(
    items: Seq<Val>,
    rel: spec_fn(Val, Val) -> int,
    out: Seq<int>,
    at: Seq<int>,
    i: int,
    mid: int,
    j: int,
    hi: int,
    p: int,
)
    requires
        ascending(items, rel, out, 0, out.len() as int),
        all_before(items, rel, out, at, i, mid),
        all_before(items, rel, out, at, j, hi),
        (i < mid && p == at[i]) || (j < hi && p == at[j]),
        forall|b: int| i <= b < mid && !(p == at[i] && b == i) ==> before(items, rel, p, #[trigger] at[b]),
        forall|b: int| j <= b < hi && !(p == at[j] && b == j) ==> before(items, rel, p, #[trigger] at[b]),
    ensures
        ascending(items, rel, out.push(p), 0, out.len() as int + 1),
        all_before(items, rel, out.push(p), at, if i < mid && p == at[i] { i + 1 } else { i }, mid),
        all_before(items, rel, out.push(p), at, if j < hi && p == at[j] { j + 1 } else { j }, hi),
{
    let o = out.push(p);
    assert forall|a: int, b: int| 0 <= a < b < o.len() implies before(
        items,
        rel,
        #[trigger] o[a],
        #[trigger] o[b],
    ) by {
        if b < out.len() {
            assert(before(items, rel, out[a], out[b]));
        } else if i < mid && p == at[i] {
            assert(before(items, rel, out[a], at[i]));
        } else {
            assert(before(items, rel, out[a], at[j]));
        }
    }
    let i2 = if i < mid && p == at[i] {
        i + 1
    } else {
        i
    };
    let j2 = if j < hi && p == at[j] {
        j + 1
    } else {
        j
    };
    assert forall|a: int, b: int| 0 <= a < o.len() && i2 <= b < mid implies before(
        items,
        rel,
        #[trigger] o[a],
        #[trigger] at[b],
    ) by {
        if a < out.len() {
            assert(before(items, rel, out[a], at[b]));
        }
    }
    assert forall|a: int, b: int| 0 <= a < o.len() && j2 <= b < hi implies before(
        items,
        rel,
        #[trigger] o[a],
        #[trigger] at[b],
    ) by {
        if a < out.len() {
            assert(before(items, rel, out[a], at[b]));
        }
    }
}

/// Whether `f` answers as `rel`, which is an order on `items`.
pub open spec fn orders<F: Fn(&Value, &Value) -> i64>(
    f: F,
    rel: spec_fn(Val, Val) -> int,
    items: Seq<Val>,
) -> bool {
    ranks(f, rel) && is_order(items, rel)
}

/// Whether the merge of two runs is in order so far.
pub open spec fn merging(
    items: Seq<Val>,
    rel: spec_fn(Val, Val) -> int,
    out: Seq<int>,
    at: Seq<int>,
    i: int,
    mid: int,
    j: int,
    hi: int,
) -> bool {
    &&& ascending(items, rel, out, 0, out.len() as int)
    &&& all_before(items, rel, out, at, i, mid)
    &&& all_before(items, rel, out, at, j, hi)
}

/// The left run's head is taken: the right one's, if there is one, is not below
/// it.
proof fn lemma_take_left(
    items: Seq<Val>,
    rel: spec_fn(Val, Val) -> int,
    out: Seq<int>,
    at: Seq<int>,
    lo: int,
    i: int,
    mid: int,
    j: int,
    hi: int,
)
    requires
        is_order(items, rel),
        forall|b: int| lo <= b < hi ==> 0 <= #[trigger] at[b] < items.len(),
        lo <= i < mid <= j <= hi,
        ascending(items, rel, at, lo, mid),
        ascending(items, rel, at, mid, hi),
        merging(items, rel, out, at, i, mid, j, hi),
        j < hi ==> at[i] < at[j] && rel(items[at[j]], items[at[i]]) >= 0,
        forall|b: int| j <= b < hi ==> #[trigger] at[b] != at[i],
    ensures
        merging(items, rel, out.push(at[i]), at, i + 1, mid, j, hi),
{
    let p = at[i];
    assert forall|b: int| j <= b < hi && !(p == at[j] && b == j) implies before(
        items,
        rel,
        p,
        #[trigger] at[b],
    ) by {
        assert(before(items, rel, p, at[j]));
        if b > j {
            lemma_before_passes(items, rel, p, at[j], at[b]);
        }
    }
    lemma_take(items, rel, out, at, i, mid, j, hi, p);
    if j < hi {
        assert(at[j] != p);
    }
}

/// The right run's head is taken: it is below the left one's, if there is one.
proof fn lemma_take_right(
    items: Seq<Val>,
    rel: spec_fn(Val, Val) -> int,
    out: Seq<int>,
    at: Seq<int>,
    lo: int,
    i: int,
    mid: int,
    j: int,
    hi: int,
)
    requires
        is_order(items, rel),
        forall|b: int| lo <= b < hi ==> 0 <= #[trigger] at[b] < items.len(),
        lo <= i <= mid <= j < hi,
        ascending(items, rel, at, lo, mid),
        ascending(items, rel, at, mid, hi),
        merging(items, rel, out, at, i, mid, j, hi),
        i < mid ==> rel(items[at[j]], items[at[i]]) < 0,
        forall|b: int| i <= b < mid ==> #[trigger] at[b] != at[j],
    ensures
        merging(items, rel, out.push(at[j]), at, i, mid, j + 1, hi),
{
    let p = at[j];
    assert forall|b: int| i <= b < mid && !(p == at[i] && b == i) implies before(
        items,
        rel,
        p,
        #[trigger] at[b],
    ) by {
        assert(rel(items[at[i]], items[p]) >= 0 || rel(items[p], items[at[i]]) >= 0);
        assert(before(items, rel, p, at[i]));
        if b > i {
            lemma_before_passes(items, rel, p, at[i], at[b]);
        }
    }
    lemma_take(items, rel, out, at, i, mid, j, hi, p);
    if i < mid {
        assert(at[i] != p);
    }
}

/// Merge the runs `[lo, mid)` and `[mid, hi)` of `at`.
fn merge_runs<F: Fn(&Value, &Value) -> i64>(
    items: &Vec<Value>,
    at: &Vec<usize>,
    lo: usize,
    mid: usize,
    hi: usize,
    call: &F,
) -> (r: Vec<usize>)
    requires
        forall|a: &Value, b: &Value| call_requires(*call, (a, b)),
        lo <= mid <= hi <= at.len() == items.len(),
        shuffles(ints(at@), lo as int, mid as int),
        shuffles(ints(at@), mid as int, hi as int),
    ensures
        r.len() == hi - lo,
        forall|k: int| 0 <= k < r.len() ==> lo <= #[trigger] r@[k] < hi,
        r@.no_duplicates(),
        forall|rel: spec_fn(Val, Val) -> int|
            #[trigger] orders(*call, rel, vals(items@)) && ascending(
                vals(items@),
                rel,
                ints(at@),
                lo as int,
                mid as int,
            ) && ascending(vals(items@), rel, ints(at@), mid as int, hi as int) ==> ascending(
                vals(items@),
                rel,
                ints(r@),
                0,
                r.len() as int,
            ),
{
    let mut out: Vec<usize> = Vec::new();
    let ghost mut from: Seq<int> = seq![];
    let ghost all = ints(at@);
    let ghost vs = vals(items@);
    let mut i: usize = lo;
    let mut j: usize = mid;
    assert(ints(out@) =~= seq![]);
    while i < mid || j < hi
        invariant
            forall|a: &Value, b: &Value| call_requires(*call, (a, b)),
            lo <= i <= mid <= j <= hi <= at.len() == items.len(),
            all == ints(at@),
            vs == vals(items@),
            shuffles(all, lo as int, mid as int),
            shuffles(all, mid as int, hi as int),
            out.len() == (i - lo) + (j - mid),
            from.len() == out.len(),
            forall|k: int|
                0 <= k < out.len() ==> (lo <= #[trigger] from[k] < i || mid <= from[k] < j)
                    && out@[k] == at@[from[k]],
            from.no_duplicates(),
            forall|rel: spec_fn(Val, Val) -> int|
                #[trigger] orders(*call, rel, vals(items@)) && ascending(vs, rel, all, lo as int, mid as int)
                    && ascending(vs, rel, all, mid as int, hi as int) ==> merging(
                    vs,
                    rel,
                    ints(out@),
                    all,
                    i as int,
                    mid as int,
                    j as int,
                    hi as int,
                ),
        decreases (mid - i) + (hi - j),
    {
        let ghost before = ints(out@);
        if i < mid {
            assert(lo <= all[i as int] < mid);
        }
        if j < hi {
            assert(mid <= all[j as int] < hi);
        }
        let left: bool = if i >= mid {
            false
        } else if j >= hi {
            true
        } else {
            call(&items[at[j]], &items[at[i]]) >= 0
        };
        proof {
            assert forall|b: int, c: int| lo <= b < mid && mid <= c < hi implies #[trigger] all[b]
                < #[trigger] all[c] by {}
        }
        if left {
            out.push(at[i]);
            assert(ints(out@) =~= before.push(all[i as int]));
            proof {
                from = from.push(i as int);
                assert forall|rel: spec_fn(Val, Val) -> int|
                    #[trigger] orders(*call, rel, vals(items@)) && ascending(
                        vs,
                        rel,
                        all,
                        lo as int,
                        mid as int,
                    ) && ascending(vs, rel, all, mid as int, hi as int) implies merging(
                    vs,
                    rel,
                    ints(out@),
                    all,
                    i + 1,
                    mid as int,
                    j as int,
                    hi as int,
                ) by {
                    lemma_take_left(
                        vs,
                        rel,
                        before,
                        all,
                        lo as int,
                        i as int,
                        mid as int,
                        j as int,
                        hi as int,
                    );
                }
            }
            i += 1;
        } else {
            out.push(at[j]);
            assert(ints(out@) =~= before.push(all[j as int]));
            proof {
                from = from.push(j as int);
                assert forall|rel: spec_fn(Val, Val) -> int|
                    #[trigger] orders(*call, rel, vals(items@)) && ascending(
                        vs,
                        rel,
                        all,
                        lo as int,
                        mid as int,
                    ) && ascending(vs, rel, all, mid as int, hi as int) implies merging(
                    vs,
                    rel,
                    ints(out@),
                    all,
                    i as int,
                    mid as int,
                    j + 1,
                    hi as int,
                ) by {
                    lemma_take_right(
                        vs,
                        rel,
                        before,
                        all,
                        lo as int,
                        i as int,
                        mid as int,
                        j as int,
                        hi as int,
                    );
                }
            }
            j += 1;
        }
    }
    proof {
        assert forall|a: int, b: int| 0 <= a < out.len() && 0 <= b < out.len() && a != b implies
            out@[a] != out@[b] by {
            assert(from[a] != from[b]);
            assert(all[from[a]] != all[from[b]]);
        }
        assert forall|k: int| 0 <= k < out.len() implies lo <= #[trigger] out@[k] < hi by {
            assert(all[from[k]] == out@[k]);
        }
    }
    out
}

/// Where block `k` of blocks of `width` starts.
pub open spec fn start(k: int, width: int) -> int {
    k * width
}

/// Where a block that starts at `lo` ends.
pub open spec fn stop(lo: int, width: int, n: int) -> int {
    if lo + width < n {
        lo + width
    } else {
        n
    }
}

/// Whether the blocks that start before `upto` are shuffled within themselves.
pub open spec fn blocks_shuffled(at: Seq<int>, width: int, n: int, upto: int) -> bool {
    forall|k: int|
        0 <= k && #[trigger] start(k, width) < upto ==> shuffles(
            at,
            start(k, width),
            stop(start(k, width), width, n),
        )
}

/// Whether the blocks that start before `upto` are each in order.
pub open spec fn blocks_ascend(
    items: Seq<Val>,
    rel: spec_fn(Val, Val) -> int,
    at: Seq<int>,
    width: int,
    upto: int,
) -> bool {
    forall|k: int|
        0 <= k && #[trigger] start(k, width) < upto ==> ascending(
            items,
            rel,
            at,
            start(k, width),
            stop(start(k, width), width, items.len() as int),
        )
}

/// Merge each two neighbouring blocks of `width`.
fn merge_pass<F: Fn(&Value, &Value) -> i64>(
    items: &Vec<Value>,
    at: &Vec<usize>,
    width: usize,
    call: &F,
) -> (r: Vec<usize>)
    requires
        forall|a: &Value, b: &Value| call_requires(*call, (a, b)),
        at.len() == items.len(),
        0 < width < items.len(),
        blocks_shuffled(ints(at@), width as int, items.len() as int, items.len() as int),
    ensures
        r.len() == items.len(),
        blocks_shuffled(ints(r@), 2 * width, items.len() as int, items.len() as int),
        forall|rel: spec_fn(Val, Val) -> int|
            #[trigger] orders(*call, rel, vals(items@)) && blocks_ascend(
                vals(items@),
                rel,
                ints(at@),
                width as int,
                items.len() as int,
            ) ==> blocks_ascend(
                vals(items@),
                rel,
                ints(r@),
                2 * width,
                items.len() as int,
            ),
{
    let n: usize = items.len();
    let ghost vs = vals(items@);
    let ghost all = ints(at@);
    let mut next: Vec<usize> = Vec::new();
    let mut lo: usize = 0;
    let ghost mut b: int = 0;
    assert(start(0, 2 * width) == 0);
    while lo < n
        invariant
            forall|x: &Value, y: &Value| call_requires(*call, (x, y)),
            n == items.len() == at.len(),
            vs == vals(items@),
            all == ints(at@),
            0 < width < n,
            0 <= b,
            lo == stop(start(b, 2 * width), 0, n as int),
            next.len() == lo,
            lo <= n,
            blocks_shuffled(all, width as int, n as int, n as int),
            blocks_shuffled(ints(next@), 2 * width, n as int, lo as int),
            forall|rel: spec_fn(Val, Val) -> int|
                #[trigger] orders(*call, rel, vals(items@)) && blocks_ascend(
                    vs,
                    rel,
                    all,
                    width as int,
                    n as int,
                ) ==> blocks_ascend(vs, rel, ints(next@), 2 * width, lo as int),
        decreases n - lo,
    {
        let mid: usize = if width >= n - lo {
            n
        } else {
            lo + width
        };
        let hi: usize = if width >= n - mid {
            n
        } else {
            mid + width
        };
        let ghost w = width as int;
        proof {
            assert(start(2 * b, w) == start(b, 2 * w)) by (nonlinear_arith);
            assert(start(2 * b + 1, w) == start(b, 2 * w) + w) by (nonlinear_arith);
            assert(start(2 * b, w) == lo);
            assert(shuffles(all, lo as int, mid as int));
            assert(start(2 * b + 1, w) >= n || start(2 * b + 1, w) == mid);
            assert(shuffles(all, mid as int, hi as int));
        }
        let run: Vec<usize> = merge_runs(items, at, lo, mid, hi, call);
        let ghost old_next = ints(next@);
        let mut k: usize = 0;
        while k < run.len()
            invariant
                k <= run.len(),
                next.len() == lo + k,
                old_next.len() == lo,
                ints(next@) =~= old_next + ints(run@).take(k as int),
            decreases run.len() - k,
        {
            let ghost mid_next = ints(next@);
            next.push(run[k]);
            assert(ints(next@) =~= mid_next.push(ints(run@)[k as int]));
            assert(ints(run@).take(k + 1) =~= ints(run@).take(k as int).push(
                ints(run@)[k as int],
            ));
            k += 1;
        }
        let ghost new = ints(next@);
        proof {
            let r = ints(run@);
            assert(r.take(run.len() as int) =~= r);
            assert(new =~= old_next + r);
            assert(new.len() == hi);
            assert(forall|a: int| 0 <= a < lo ==> new[a] == #[trigger] old_next[a]);
            assert(forall|a: int| lo <= a < hi ==> #[trigger] new[a] == r[a - lo]);
            // A block that starts before `lo` ends there at the latest.
            assert forall|q: int|
                0 <= q && #[trigger] start(q, 2 * w) < lo implies stop(
                start(q, 2 * w),
                2 * w,
                n as int,
            ) <= lo by {
                assert(start(b, 2 * w) == lo);
                assert(q < b) by (nonlinear_arith)
                    requires
                        q * (2 * w) < b * (2 * w),
                        w > 0,
                ;
                assert((q + 1) * (2 * w) <= b * (2 * w)) by (nonlinear_arith)
                    requires
                        q + 1 <= b,
                        w > 0,
                ;
                assert((q + 1) * (2 * w) == q * (2 * w) + 2 * w) by (nonlinear_arith);
            }
            assert forall|q: int| 0 <= q && lo <= #[trigger] start(q, 2 * w) < hi implies start(
                q,
                2 * w,
            ) == lo by {
                assert(start(b, 2 * w) == lo);
                assert(q >= b) by (nonlinear_arith)
                    requires
                        q * (2 * w) >= b * (2 * w),
                        w > 0,
                ;
                if q > b {
                    assert((b + 1) * (2 * w) <= q * (2 * w)) by (nonlinear_arith)
                        requires
                            b + 1 <= q,
                            w > 0,
                    ;
                    assert((b + 1) * (2 * w) == b * (2 * w) + 2 * w) by (nonlinear_arith);
                }
            }
            assert(shuffles(new, lo as int, hi as int)) by {
                assert forall|x: int, y: int|
                    lo <= x < hi && lo <= y < hi && x != y implies #[trigger] new[x]
                    != #[trigger] new[y] by {
                    assert(run@[x - lo] != run@[y - lo]);
                    assert(r[x - lo] == run@[x - lo] && r[y - lo] == run@[y - lo]);
                }
                assert forall|x: int| lo <= x < hi implies lo <= #[trigger] new[x] < hi by {
                    assert(r[x - lo] == run@[x - lo]);
                }
            }
            assert(stop(lo as int, 2 * w, n as int) == hi);
            assert(blocks_shuffled(new, 2 * w, n as int, hi as int)) by {
                assert forall|q: int| 0 <= q && #[trigger] start(q, 2 * w) < hi implies shuffles(
                    new,
                    start(q, 2 * w),
                    stop(start(q, 2 * w), 2 * w, n as int),
                ) by {
                    if start(q, 2 * w) < lo {
                        assert(0 <= start(q, 2 * w)) by (nonlinear_arith)
                            requires
                                q >= 0,
                                w > 0,
                        ;
                        lemma_same_shuffle(
                            old_next,
                            new,
                            start(q, 2 * w),
                            stop(start(q, 2 * w), 2 * w, n as int),
                        );
                    }
                }
            }
            assert forall|rel: spec_fn(Val, Val) -> int|
                #[trigger] orders(*call, rel, vals(items@)) && blocks_ascend(vs, rel, all, w, n as int) implies
                blocks_ascend(vs, rel, new, 2 * w, hi as int) by {
                assert(ascending(vs, rel, all, start(2 * b, w), mid as int));
                if mid < n {
                    assert(ascending(vs, rel, all, start(2 * b + 1, w), hi as int));
                }
                assert(ascending(vs, rel, r, 0, r.len() as int));
                assert(ascending(vs, rel, new, lo as int, hi as int)) by {
                    assert forall|x: int, y: int| lo <= x < y < hi implies before(
                        vs,
                        rel,
                        #[trigger] new[x],
                        #[trigger] new[y],
                    ) by {
                        assert(before(vs, rel, r[x - lo], r[y - lo]));
                    }
                }
                assert forall|q: int| 0 <= q && #[trigger] start(q, 2 * w) < hi implies ascending(
                    vs,
                    rel,
                    new,
                    start(q, 2 * w),
                    stop(start(q, 2 * w), 2 * w, n as int),
                ) by {
                    if start(q, 2 * w) < lo {
                        assert(0 <= start(q, 2 * w)) by (nonlinear_arith)
                            requires
                                q >= 0,
                                w > 0,
                        ;
                        lemma_same_ascent(
                            vs,
                            rel,
                            old_next,
                            new,
                            start(q, 2 * w),
                            stop(start(q, 2 * w), 2 * w, n as int),
                        );
                    }
                }
            }
            assert(start(b + 1, 2 * w) == start(b, 2 * w) + 2 * w) by (nonlinear_arith);
            b = b + 1;
        }
        lo = hi;
    }
    next
}

proof fn lemma_same_shuffle(a: Seq<int>, b: Seq<int>, lo: int, hi: int)
    requires
        shuffles(a, lo, hi),
        0 <= lo,
        hi <= a.len(),
        forall|k: int| 0 <= k < a.len() ==> b[k] == #[trigger] a[k],
    ensures
        shuffles(b, lo, hi),
{
    assert forall|k: int| lo <= k < hi implies lo <= #[trigger] b[k] < hi by {
        assert(a[k] == b[k]);
    }
    assert forall|x: int, y: int| lo <= x < hi && lo <= y < hi && x != y implies #[trigger] b[x]
        != #[trigger] b[y] by {
        assert(a[x] == b[x] && a[y] == b[y]);
    }
}

proof fn lemma_same_ascent(
    items: Seq<Val>,
    rel: spec_fn(Val, Val) -> int,
    a: Seq<int>,
    b: Seq<int>,
    lo: int,
    hi: int,
)
    requires
        ascending(items, rel, a, lo, hi),
        0 <= lo,
        hi <= a.len(),
        forall|k: int| 0 <= k < a.len() ==> b[k] == #[trigger] a[k],
    ensures
        ascending(items, rel, b, lo, hi),
{
    assert forall|x: int, y: int| lo <= x < y < hi implies before(
        items,
        rel,
        #[trigger] b[x],
        #[trigger] b[y],
    ) by {
        assert(a[x] == b[x] && a[y] == b[y]);
    }
}

/// The positions of `items` in sorted order.
pub fn sort_positions<F: Fn(&Value, &Value) -> i64>(items: &Vec<Value>, call: &F) -> (r: Vec<usize>)
    requires
        forall|a: &Value, b: &Value| call_requires(*call, (a, b)),
    ensures
        r.len() == items.len(),
        shuffles(ints(r@), 0, items.len() as int),
        forall|rel: spec_fn(Val, Val) -> int| #[trigger]
            orders(*call, rel, vals(items@)) ==> ascending(
                vals(items@),
                rel,
                ints(r@),
                0,
                items.len() as int,
            ),
{
    let n: usize = items.len();
    let ghost vs = vals(items@);
    let mut at: Vec<usize> = Vec::new();
    let mut k: usize = 0;
    while k < n
        invariant
            k <= n,
            at.len() == k,
            forall|j: int| 0 <= j < k ==> #[trigger] at@[j] == j,
        decreases n - k,
    {
        at.push(k);
        k += 1;
    }
    proof {
        assert(forall|j: int| 0 <= j < n ==> #[trigger] ints(at@)[j] == at@[j]);
        assert(forall|q: int| #[trigger] start(q, 1) == q);
    }
    let mut width: usize = 1;
    while width < n
        invariant
            forall|a: &Value, b: &Value| call_requires(*call, (a, b)),
            n == items.len() == at.len(),
            vs == vals(items@),
            0 < width,
            blocks_shuffled(ints(at@), width as int, n as int, n as int),
            forall|rel: spec_fn(Val, Val) -> int| #[trigger]
                orders(*call, rel, vals(items@)) ==> blocks_ascend(
                    vs,
                    rel,
                    ints(at@),
                    width as int,
                    n as int,
                ),
        decreases n - width,
    {
        let next: Vec<usize> = merge_pass(items, &at, width, call);
        let ghost w = width as int;
        if width > n - width {
            proof {
                let whole = ints(next@);
                assert(start(0, 2 * w) == 0);
                assert(shuffles(whole, 0, n as int));
                assert forall|q: int| 0 <= q && #[trigger] start(q, n as int) < n implies q
                    == 0 by {
                    assert(q < 1) by (nonlinear_arith)
                        requires
                            q * n < n,
                            n > 0,
                    ;
                }
                assert(start(0, n as int) == 0);
                assert forall|rel: spec_fn(Val, Val) -> int| #[trigger]
                    orders(*call, rel, vals(items@)) implies blocks_ascend(
                    vs,
                    rel,
                    whole,
                    n as int,
                    n as int,
                ) by {
                    assert(ascending(vs, rel, whole, start(0, 2 * w), n as int));
                }
            }
            width = n;
        } else {
            width = width * 2;
        }
        at = next;
    }
    proof {
        let whole = ints(at@);
        let w = width as int;
        assert(start(0, w) == 0);
        if n > 0 {
            assert(shuffles(whole, start(0, w), n as int));
        }
        assert forall|rel: spec_fn(Val, Val) -> int| #[trigger] orders(*call, rel, vals(items@)) implies ascending(
            vs,
            rel,
            whole,
            0,
            n as int,
        ) by {
            if n > 0 {
                assert(ascending(vs, rel, whole, start(0, w), n as int));
            }
        }
    }
    at
}

/// Whether `sorted` is `items` in the order of the positions `at`, each once.
pub open spec fn rearranged(items: Seq<Val>, sorted: Seq<Val>, at: Seq<int>) -> bool {
    &&& at.len() == items.len()
    &&& shuffles(at, 0, items.len() as int)
    &&& sorted == picked(items, at)
}

/// The elements at these positions.
pub fn pick(items: &Vec<Value>, at: &Vec<usize>) -> (r: Vec<Value>)
    requires
        at.len() == items.len(),
        shuffles(ints(at@), 0, items.len() as int),
    ensures
        rearranged(vals(items@), vals(r@), ints(at@)),
{
    let mut r: Vec<Value> = Vec::new();
    let mut i: usize = 0;
    while i < at.len()
        invariant
            i <= at.len() == items.len(),
            shuffles(ints(at@), 0, items.len() as int),
            r.len() == i,
            forall|k: int|
                0 <= k < i ==> (#[trigger] r@[k])@ == vals(items@)[ints(at@)[k]],
        decreases at.len() - i,
    {
        assert(0 <= ints(at@)[i as int] < items.len());
        r.push(items[at[i]].copy());
        i += 1;
    }
    assert(vals(r@) =~= picked(vals(items@), ints(at@)));
    r
}

/// Sort stably by a comparator. Whatever it answers, the result is the input
/// rearranged; where it answers as an order, the result ascends and equal
/// elements stay in the order they stood in.
pub fn sort_with<F: Fn(&Value, &Value) -> i64>(items: &Vec<Value>, call: &F) -> (r: Vec<Value>)
    requires
        forall|a: &Value, b: &Value| call_requires(*call, (a, b)),
    ensures
        exists|at: Seq<int>|
            #[trigger] rearranged(vals(items@), vals(r@), at) && forall|
                rel: spec_fn(Val, Val) -> int,
            | #[trigger]
                orders(*call, rel, vals(items@)) ==> ascending(
                    vals(items@),
                    rel,
                    at,
                    0,
                    items.len() as int,
                ),
{
    let at: Vec<usize> = sort_positions(items, call);
    pick(items, &at)
}

/// Ascending natural order, as a relation.
pub open spec fn natural_in(h: HostV) -> spec_fn(Val, Val) -> int {
    |a: Val, b: Val| natural(h, a, b)
}

/// The positions of `items` in natural order, which a missing comparator stands
/// for. Equal elements stay in the order they stood in.
pub fn natural_positions(host: &Host, items: &Vec<Value>) -> (r: Vec<usize>)
    ensures
        r.len() == items.len(),
        shuffles(ints(r@), 0, items.len() as int),
        is_order(vals(items@), natural_in(host@)) ==> ascending(
            vals(items@),
            natural_in(host@),
            ints(r@),
            0,
            items.len() as int,
        ),
{
    let call = |a: &Value, b: &Value| -> (r: i64)
        ensures
            r == natural(host@, a@, b@),
        { natural_order(host, a, b) };
    let r: Vec<usize> = sort_positions(items, &call);
    assert(ranks(call, natural_in(host@)));
    assert(is_order(vals(items@), natural_in(host@)) ==> orders(
        call,
        natural_in(host@),
        vals(items@),
    ));
    r
}

/// An element of sorted values is not above a later one.
pub proof fn sorted_values_ascend(
    items: Seq<Val>,
    sorted: Seq<Val>,
    at: Seq<int>,
    rel: spec_fn(Val, Val) -> int,
    i: int,
    j: int,
)
    requires
        rearranged(items, sorted, at),
        ascending(items, rel, at, 0, items.len() as int),
        0 <= i < j < items.len(),
    ensures
        rel(sorted[j], sorted[i]) >= 0,
        rel(sorted[i], sorted[j]) >= 0 ==> at[i] < at[j],
{
    assert(before(items, rel, at[i], at[j]));
}

proof fn lemma_texts_total(a: Seq<char>, b: Seq<char>, i: int)
    requires
        0 <= i,
    ensures
        text_order(a, b, i) == -text_order(b, a, i),
    decreases a.len() - i,
{
    if i < a.len() && i < b.len() && a[i] == b[i] {
        lemma_texts_total(a, b, i + 1);
    }
}

proof fn lemma_texts_pass(a: Seq<char>, b: Seq<char>, c: Seq<char>, i: int)
    requires
        0 <= i,
        text_order(a, b, i) >= 0,
        text_order(b, c, i) >= 0,
    ensures
        text_order(a, c, i) >= 0,
    decreases a.len() - i,
{
    if i < a.len() && i < b.len() && i < c.len() && a[i] == b[i] && b[i] == c[i] {
        lemma_texts_pass(a, b, c, i + 1);
    }
}

/// Natural order is an order on values of one kind: texts, integers, floating
/// values or booleans, in wrappers or not.
pub proof fn natural_order_is_an_order(h: HostV, items: Seq<Val>)
    requires
        (forall|i: int| 0 <= i < items.len() ==> bare(h, #[trigger] items[i]) is Str) || (forall|
            i: int,
        |
            0 <= i < items.len() ==> bare(h, #[trigger] items[i]) is Int) || (forall|i: int|
            0 <= i < items.len() ==> bare(h, #[trigger] items[i]) is Float) || (forall|i: int|
            0 <= i < items.len() ==> bare(h, #[trigger] items[i]) is Bool),
    ensures
        is_order(items, natural_in(h)),
{
    let rel = natural_in(h);
    assert forall|p: int, q: int| 0 <= p < items.len() && 0 <= q < items.len() implies #[trigger] rel(
        items[p],
        items[q],
    ) >= 0 || rel(items[q], items[p]) >= 0 by {
        if let (Val::Str(x), Val::Str(y)) = (bare(h, items[p]), bare(h, items[q])) {
            lemma_texts_total(x, y, 0);
        }
    }
    assert forall|p: int, q: int, s: int|
        #![trigger rel(items[p], items[q]), rel(items[q], items[s])]
        0 <= p < items.len() && 0 <= q < items.len() && 0 <= s < items.len() && rel(
            items[p],
            items[q],
        ) >= 0 && rel(items[q], items[s]) >= 0 implies rel(items[p], items[s]) >= 0 by {
        let (a, b, c) = (bare(h, items[p]), bare(h, items[q]), bare(h, items[s]));
        assert(a is Str && b is Str && c is Str || a is Int && b is Int && c is Int || a is Float
            && b is Float && c is Float || a is Bool && b is Bool && c is Bool);
        if let (Val::Str(x), Val::Str(y)) = (a, b) {
            if let Val::Str(z) = c {
                lemma_texts_pass(x, y, z, 0);
            }
        }
    }
}

/// Whether a sort with this comparator is by the natural order, which no
/// comparator asks for. Anything but a lambda is refused.
pub open spec fn by_nature(h: HostV, comparator: Val) -> Result<bool, FaultV> {
    match comparator {
        Val::Undef => Ok(true),
        Val::Obj(id) => match object(h, id as int) {
            Some(ObjV::Closure { .. }) => Ok(false),
            _ => Err(internal_fault("javars: `sort` needs a Comparator lambda"@)),
        },
        _ => Err(internal_fault("javars: `sort` needs a Comparator lambda"@)),
    }
}

/// Whether a sort with this comparator is by the natural order.
pub fn sorts_naturally(host: &Host, comparator: &Value) -> (r: Result<bool, Fault>)
    ensures
        match (r, by_nature(host@, comparator@)) {
            (Ok(a), Ok(b)) => a == b,
            (Err(f), Err(g)) => f@ == g,
            _ => false,
        },
{
    match comparator {
        Value::Undef => Ok(true),
        Value::Obj(id) => {
            let i: usize = *id as usize;
            if i < host.heap.len() {
                assert(host@.heap[i as int] == host.heap@[i as int]@);
                match &host.heap[i] {
                    HostObj::Closure { .. } => {
                        return Ok(false);
                    },
                    _ => {},
                }
            }
            Err(Fault::internal(own("javars: `sort` needs a Comparator lambda")))
        },
        _ => Err(Fault::internal(own("javars: `sort` needs a Comparator lambda"))),
    }
}

} // verus!
