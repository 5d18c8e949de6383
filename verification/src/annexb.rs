//! Annex-B start codes: the byte patterns `00 00 01` and `00 00 00 01` that
//! delimit NAL units in an H.264 / H.265 elementary stream.
use vstd::prelude::*;

verus! {

/// A three-byte start code begins at `i`.
pub open spec fn sc3_at(d: Seq<u8>, i: int) -> bool {
    0 <= i && i + 3 <= d.len() && d[i] == 0 && d[i + 1] == 0 && d[i + 2] == 1
}

/// A four-byte start code begins at `i`.
pub open spec fn sc4_at(d: Seq<u8>, i: int) -> bool {
    0 <= i && i + 4 <= d.len() && d[i] == 0 && d[i + 1] == 0 && d[i + 2] == 0 && d[i + 3] == 1
}

/// Some start code begins at `i`.
pub open spec fn sc_at(d: Seq<u8>, i: int) -> bool {
    sc3_at(d, i) || sc4_at(d, i)
}

/// Length of the start code at `i` (the four-byte form wins).
pub open spec fn sc_len(d: Seq<u8>, i: int) -> int {
    if sc4_at(d, i) {
        4
    } else {
        3
    }
}

/// Position of the first start code at or after `from`, or `d.len()` when there is none.
pub open spec fn next_sc(d: Seq<u8>, from: int) -> int
    decreases d.len() - from,
{
    if from < 0 || from + 3 > d.len() {
        d.len() as int
    } else if sc_at(d, from) {
        from
    } else {
        next_sc(d, from + 1)
    }
}

/// What `next_sc` returns: either the end of the data, or a start code with
/// no start code in between.
pub proof fn lemma_next_sc(d: Seq<u8>, from: int)
    requires
        0 <= from,
    ensures
        from <= next_sc(d, from) || next_sc(d, from) == d.len(),
        next_sc(d, from) <= d.len(),
        next_sc(d, from) < d.len() ==> sc_at(d, next_sc(d, from)) && next_sc(d, from) + 3
            <= d.len(),
        forall|j: int| from <= j < next_sc(d, from) ==> !sc_at(d, j),
        from <= d.len() ==> from <= next_sc(d, from),
    decreases d.len() - from,
{
    if from + 3 > d.len() {
        assert forall|j: int| from <= j < d.len() implies !sc_at(d, j) by {}
    } else if sc_at(d, from) {
    } else {
        lemma_next_sc(d, from + 1);
    }
}

/// The first start code at or after `from`; `data.len()` when there is none.
pub fn find_start_code(data: &[u8], from: usize) -> (r: usize)
    requires
        from <= data@.len(),
    ensures
        r as int == next_sc(data@, from as int),
        from <= r <= data@.len(),
{
    let n = data.len();
    let mut i = from;
    proof {
        lemma_next_sc(data@, from as int);
    }
    while n - i >= 3
        invariant
            n == data@.len(),
            from <= i <= n,
            next_sc(data@, i as int) == next_sc(data@, from as int),
        decreases n - i,
    {
        if data[i] == 0 && data[i + 1] == 0 && (data[i + 2] == 1 || (n - i >= 4 && data[i + 2]
            == 0 && data[i + 3] == 1)) {
            return i;
        }
        i = i + 1;
    }
    n
}

/// Length of the start code at `i`, which must begin one.
pub fn start_code_len(data: &[u8], i: usize) -> (r: usize)
    requires
        sc_at(data@, i as int),
    ensures
        r as int == sc_len(data@, i as int),
{
    if data.len() - i >= 4 && data[i] == 0 && data[i + 1] == 0 && data[i + 2] == 0 && data[i + 3]
        == 1 {
        4
    } else {
        3
    }
}

} // verus!

verus! {

/// An owned copy of `data`.
pub fn copy_bytes(data: &[u8]) -> (r: Vec<u8>)
    ensures
        r@ == data@,
{
    let mut v: Vec<u8> = Vec::new();
    v.extend_from_slice(data);
    proof {
        assert(v@ =~= data@);
    }
    v
}

} // verus!
