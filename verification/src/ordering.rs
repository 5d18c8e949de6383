//! Stable orderings of positions by a numeric key, used to rank formats,
//! resolutions and devices without moving the values themselves.
use vstd::prelude::*;

verus! {

/// `r` lists each position of a sequence of `n` items exactly once.
pub open spec fn is_permutation_of_positions(r: Seq<usize>, n: nat) -> bool {
    &&& r.len() == n
    &&& forall|k: int| 0 <= k < r.len() ==> r[k] < n
    &&& forall|a: int, b: int| 0 <= a < b < r.len() ==> r[a] != r[b]
}

/// Keys never increase along `r`, and positions with equal keys keep their
/// input order.
pub open spec fn stably_descending(keys: Seq<u64>, r: Seq<usize>) -> bool {
    forall|a: int, b: int|
        0 <= a < b < r.len() ==> keys[r[a] as int] > keys[r[b] as int] || (keys[r[a] as int]
            == keys[r[b] as int] && r[a] < r[b])
}

/// The positions of `keys`, highest key first, equal keys in their input
/// order: what a stable sort by descending key produces.
pub fn stable_order_desc(keys: &[u64]) -> (r: Vec<usize>)
    ensures
        is_permutation_of_positions(r@, keys@.len()),
        stably_descending(keys@, r@),
{
    let mut r: Vec<usize> = Vec::new();
    let mut i: usize = 0;
    while i < keys.len()
        invariant
            i <= keys@.len(),
            r@.len() == i,
            forall|k: int| 0 <= k < r@.len() ==> r@[k] < i,
            forall|a: int, b: int| 0 <= a < b < r@.len() ==> r@[a] != r@[b],
            stably_descending(keys@, r@),
        decreases keys.len() - i,
    {
        let key = keys[i];
        let mut pos: usize = 0;
        while pos < r.len() && keys[r[pos]] >= key
            invariant
                pos <= r@.len(),
                forall|k: int| 0 <= k < r@.len() ==> r@[k] < i,
                i < keys@.len(),
                forall|k: int| 0 <= k < pos ==> keys@[r@[k] as int] >= key,
            decreases r.len() - pos,
        {
            pos = pos + 1;
        }
        let ghost before = r@;
        r.insert(pos, i);
        assert(r@ =~= before.take(pos as int) + seq![i] + before.skip(pos as int));
        assert forall|a: int, b: int| 0 <= a < b < r@.len() implies keys@[r@[a] as int] > keys@[r@[
            b] as int] || (keys@[r@[a] as int] == keys@[r@[b] as int] && r@[a] < r@[b]) by {
            if b < pos {
            } else if a < pos && b == pos {
            } else if a < pos {
                assert(r@[b] == before[b - 1]);
            } else if a == pos {
                assert(r@[b] == before[b - 1]);
                assert(keys@[before[pos as int] as int] < key);
                if b - 1 > pos {
                    assert(keys@[before[pos as int] as int] >= keys@[before[b - 1] as int]);
                }
            } else {
                assert(r@[a] == before[a - 1] && r@[b] == before[b - 1]);
            }
        }
        assert forall|a: int, b: int| 0 <= a < b < r@.len() implies r@[a] != r@[b] by {
            if a == pos {
                assert(r@[b] == before[b - 1]);
            } else if b == pos {
                assert(r@[a] == before[a]);
            } else if a < pos && b < pos {
            } else if a < pos {
                assert(r@[b] == before[b - 1]);
            } else {
                assert(r@[a] == before[a - 1] && r@[b] == before[b - 1]);
            }
        }
        assert forall|k: int| 0 <= k < r@.len() implies r@[k] < i + 1 by {
            if k < pos {
            } else if k > pos {
                assert(r@[k] == before[k - 1]);
            }
        }
        i = i + 1;
    }
    r
}

} // verus!
