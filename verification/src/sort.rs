//! A stable sort by text keys.
//!
//! `sort_order(keys)` returns the positions `0..keys.len()` in the order in
//! which a stable sort by key would put the items that carry those keys.
use vstd::prelude::*;

use crate::text::{compare_chars, lemma_seq_lt_total, lemma_seq_lt_trans, seq_lt};

verus! {

/// Position `a` goes before position `b`: a smaller key, or the same key and an
/// earlier position (stability).
pub open spec fn pos_before(keys: Seq<Seq<char>>, a: int, b: int) -> bool {
    seq_lt(keys[a], keys[b]) || (keys[a] == keys[b] && a < b)
}

/// `order` lists positions in strictly increasing `pos_before` order.
pub open spec fn strictly_sorted(keys: Seq<Seq<char>>, order: Seq<usize>) -> bool {
    forall|i: int, j: int|
        0 <= i < j < order.len() ==> pos_before(keys, #[trigger] order[i] as int, #[trigger] order[j] as int)
}

/// `order` holds exactly the positions `lo..hi`.
pub open spec fn covers(order: Seq<usize>, lo: int, hi: int) -> bool {
    &&& order.len() == hi - lo
    &&& forall|i: int| 0 <= i < order.len() ==> lo <= #[trigger] order[i] < hi
    &&& forall|x: usize| lo <= x < hi ==> #[trigger] order.contains(x)
}

/// The result of a stable sort of `n` items by `keys`: a permutation of `0..n`
/// in `pos_before` order.
pub open spec fn is_sort_order(keys: Seq<Seq<char>>, order: Seq<usize>) -> bool {
    covers(order, 0, keys.len() as int) && strictly_sorted(keys, order)
}

/// `a` lists the items of `b` in some order: `a[k] == b[order[k]]` for a
/// permutation `order` of the positions of `b`.
pub open spec fn permutes<A>(a: Seq<A>, b: Seq<A>) -> bool {
    exists|order: Seq<usize>|
        #![trigger covers(order, 0, b.len() as int)]
        covers(order, 0, b.len() as int) && a.len() == order.len() && (forall|i: int, j: int|
            0 <= i < j < order.len() ==> order[i] != order[j]) && (forall|k: int|
            0 <= k < a.len() ==> #[trigger] a[k] == b[order[k] as int])
}

pub proof fn lemma_pos_before_trans(keys: Seq<Seq<char>>, a: int, b: int, c: int)
    requires
        pos_before(keys, a, b),
        pos_before(keys, b, c),
    ensures
        pos_before(keys, a, c),
{
    if seq_lt(keys[a], keys[b]) && seq_lt(keys[b], keys[c]) {
        lemma_seq_lt_trans(keys[a], keys[b], keys[c]);
    }
}

pub proof fn lemma_pos_before_total(keys: Seq<Seq<char>>, a: int, b: int)
    ensures
        a == b || pos_before(keys, a, b) || pos_before(keys, b, a),
        !(pos_before(keys, a, b) && pos_before(keys, b, a)),
{
    lemma_seq_lt_total(keys[a], keys[b]);
}

/// Whether position `a` goes before position `b`.
fn before(keys: &Vec<Vec<char>>, a: usize, b: usize) -> (r: bool)
    requires
        a < keys@.len(),
        b < keys@.len(),
    ensures
        r == pos_before(keys@.map_values(|k: Vec<char>| k@), a as int, b as int),
{
    let c = compare_chars(&keys[a], &keys[b]);
    c == -1 || (c == 0 && a < b)
}

fn merge(keys: &Vec<Vec<char>>, left: Vec<usize>, right: Vec<usize>, lo: usize, mid: usize, hi: usize) -> (out: Vec<usize>)
    requires
        lo <= mid <= hi <= keys@.len(),
        covers(left@, lo as int, mid as int),
        covers(right@, mid as int, hi as int),
        strictly_sorted(keys@.map_values(|k: Vec<char>| k@), left@),
        strictly_sorted(keys@.map_values(|k: Vec<char>| k@), right@),
    ensures
        covers(out@, lo as int, hi as int),
        strictly_sorted(keys@.map_values(|k: Vec<char>| k@), out@),
{
    let ghost ks = keys@.map_values(|k: Vec<char>| k@);
    let mut out: Vec<usize> = Vec::new();
    let mut i: usize = 0;
    let mut j: usize = 0;
    while i < left.len() || j < right.len()
        invariant
            lo <= mid <= hi <= keys@.len(),
            ks == keys@.map_values(|k: Vec<char>| k@),
            covers(left@, lo as int, mid as int),
            covers(right@, mid as int, hi as int),
            strictly_sorted(ks, left@),
            strictly_sorted(ks, right@),
            i <= left@.len(),
            j <= right@.len(),
            out@.len() == i + j,
            strictly_sorted(ks, out@),
            forall|k: int| 0 <= k < out@.len() ==> left@.take(i as int).contains(#[trigger] out@[k]) || right@.take(j as int).contains(out@[k]),
            forall|a: int| 0 <= a < i ==> out@.contains(#[trigger] left@[a]),
            forall|b: int| 0 <= b < j ==> out@.contains(#[trigger] right@[b]),
            forall|k: int, a: int| 0 <= k < out@.len() && i <= a < left@.len() ==> pos_before(ks, #[trigger] out@[k] as int, #[trigger] left@[a] as int),
            forall|k: int, b: int| 0 <= k < out@.len() && j <= b < right@.len() ==> pos_before(ks, #[trigger] out@[k] as int, #[trigger] right@[b] as int),
        decreases left@.len() + right@.len() - i - j,
    {
        let take_left = if i < left.len() && j < right.len() {
            before(keys, left[i], right[j])
        } else {
            i < left.len()
        };
        let ghost old_out = out@;
        let ghost oi = i as int;
        let ghost oj = j as int;
        let x;
        if take_left {
            x = left[i];
            proof {
                if j < right@.len() {
                    assert forall|b: int| j <= b < right@.len() implies pos_before(ks, x as int, #[trigger] right@[b] as int) by {
                        if b > j {
                            lemma_pos_before_trans(ks, x as int, right@[j as int] as int, right@[b] as int);
                        }
                    }
                }
                assert forall|a: int| i < a < left@.len() implies pos_before(ks, x as int, #[trigger] left@[a] as int) by {}
            }
            i = i + 1;
        } else {
            x = right[j];
            proof {
                if i < left@.len() {
                    lemma_pos_before_total(ks, left@[i as int] as int, x as int);
                    assert(left@[i as int] != x);
                    assert forall|a: int| i <= a < left@.len() implies pos_before(ks, x as int, #[trigger] left@[a] as int) by {
                        if a > i {
                            lemma_pos_before_trans(ks, x as int, left@[i as int] as int, left@[a] as int);
                        }
                    }
                }
                assert forall|b: int| j < b < right@.len() implies pos_before(ks, x as int, #[trigger] right@[b] as int) by {}
            }
            j = j + 1;
        }
        out.push(x);
        proof {
            assert(out@ == old_out.push(x));
            assert(out@[out@.len() - 1] == x);
            if take_left {
                assert(left@.take(i as int) == left@.take(oi).push(x));
                assert(right@.take(j as int) == right@.take(oj));
            } else {
                assert(right@.take(j as int) == right@.take(oj).push(x));
                assert(left@.take(i as int) == left@.take(oi));
            }
            assert forall|k: int, a: int| 0 <= k < out@.len() && i <= a < left@.len() implies pos_before(ks, #[trigger] out@[k] as int, #[trigger] left@[a] as int) by {
                if k < old_out.len() {
                    assert(out@[k] == old_out[k]);
                }
            }
            assert forall|k: int, b: int| 0 <= k < out@.len() && j <= b < right@.len() implies pos_before(ks, #[trigger] out@[k] as int, #[trigger] right@[b] as int) by {
                if k < old_out.len() {
                    assert(out@[k] == old_out[k]);
                }
            }
            assert forall|k: int| 0 <= k < out@.len() implies left@.take(i as int).contains(#[trigger] out@[k]) || right@.take(j as int).contains(out@[k]) by {
                if k < old_out.len() {
                    assert(out@[k] == old_out[k]);
                    if left@.take(oi).contains(old_out[k]) {
                        let a = choose|a: int| 0 <= a < left@.take(oi).len() && left@.take(oi)[a] == old_out[k];
                        assert(left@.take(i as int)[a] == old_out[k]);
                    } else {
                        let b = choose|b: int| 0 <= b < right@.take(oj).len() && right@.take(oj)[b] == old_out[k];
                        assert(right@.take(j as int)[b] == old_out[k]);
                    }
                } else if take_left {
                    assert(left@.take(i as int)[oi] == out@[k]);
                } else {
                    assert(right@.take(j as int)[oj] == out@[k]);
                }
            }
            assert forall|a: int| 0 <= a < i implies out@.contains(#[trigger] left@[a]) by {
                if take_left && a == oi {
                    assert(out@[out@.len() - 1] == left@[a]);
                } else {
                    assert(old_out.contains(left@[a]));
                    let k = choose|k: int| 0 <= k < old_out.len() && old_out[k] == left@[a];
                    assert(out@[k] == old_out[k]);
                }
            }
            assert forall|b: int| 0 <= b < j implies out@.contains(#[trigger] right@[b]) by {
                if !take_left && b == oj {
                    assert(out@[out@.len() - 1] == right@[b]);
                } else {
                    assert(old_out.contains(right@[b]));
                    let k = choose|k: int| 0 <= k < old_out.len() && old_out[k] == right@[b];
                    assert(out@[k] == old_out[k]);
                }
            }
            assert forall|p: int, q: int| 0 <= p < q < out@.len() implies pos_before(ks, #[trigger] out@[p] as int, #[trigger] out@[q] as int) by {
                assert(out@[p] == old_out[p]);
                if q < old_out.len() {
                    assert(out@[q] == old_out[q]);
                } else if take_left {
                    assert(pos_before(ks, old_out[p] as int, left@[oi] as int));
                } else {
                    assert(pos_before(ks, old_out[p] as int, right@[oj] as int));
                }
            }
        }
    }
    proof {
        assert(left@.take(i as int) == left@);
        assert(right@.take(j as int) == right@);
        assert forall|k: int| 0 <= k < out@.len() implies lo <= #[trigger] out@[k] < hi by {
            if left@.contains(out@[k]) {
                let a = choose|a: int| 0 <= a < left@.len() && left@[a] == out@[k];
                assert(lo <= left@[a] < mid);
            } else {
                let b = choose|b: int| 0 <= b < right@.len() && right@[b] == out@[k];
                assert(mid <= right@[b] < hi);
            }
        }
        assert forall|x: usize| lo <= x < hi implies #[trigger] out@.contains(x) by {
            if x < mid {
                assert(left@.contains(x));
                let a = choose|a: int| 0 <= a < left@.len() && left@[a] == x;
                assert(out@.contains(left@[a]));
            } else {
                assert(right@.contains(x));
                let b = choose|b: int| 0 <= b < right@.len() && right@[b] == x;
                assert(out@.contains(right@[b]));
            }
        }
    }
    out
}

fn sort_range(keys: &Vec<Vec<char>>, lo: usize, hi: usize) -> (out: Vec<usize>)
    requires
        lo <= hi <= keys@.len(),
    ensures
        covers(out@, lo as int, hi as int),
        strictly_sorted(keys@.map_values(|k: Vec<char>| k@), out@),
    decreases hi - lo,
{
    if hi - lo <= 1 {
        let mut out: Vec<usize> = Vec::new();
        if hi - lo == 1 {
            out.push(lo);
            assert(out@[0] == lo);
            assert forall|x: usize| lo <= x < hi implies #[trigger] out@.contains(x) by {
                assert(out@[0] == x);
            }
        }
        return out;
    }
    let mid = lo + (hi - lo) / 2;
    let left = sort_range(keys, lo, mid);
    let right = sort_range(keys, mid, hi);
    merge(keys, left, right, lo, mid, hi)
}

/// The order in which a stable sort by `keys` puts `keys.len()` items.
pub fn sort_order(keys: &Vec<Vec<char>>) -> (order: Vec<usize>)
    ensures
        is_sort_order(keys@.map_values(|k: Vec<char>| k@), order@),
{
    sort_range(keys, 0, keys.len())
}

} // verus!
