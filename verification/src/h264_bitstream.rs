//! H.264 Annex-B / AVCC bitstream helpers shared by WebRTC, RTSP and RustDesk.
use vstd::prelude::*;
use crate::text::{concat_str, hex2, push_hex2};
use crate::annexb::{copy_bytes, sc3_at, sc4_at, find_start_code, lemma_next_sc, next_sc, sc_at, sc_len, start_code_len};

verus! {

broadcast use vstd::seq_lib::group_seq_properties;

// ---------------------------------------------------------------------------
// The NAL units of an Annex-B stream
// ---------------------------------------------------------------------------

/// NAL units of `d` found by scanning from `i`: each is
/// (start code position, first payload byte, end), where the unit ends at the
/// next start code after its first payload byte, or at the end of the data.
/// A start code with no payload byte after it ends the stream.
pub open spec fn h264_nals_from(d: Seq<u8>, i: int) -> Seq<(int, int, int)>
    decreases d.len() - i,
{
    let s = next_sc(d, i);
    if i < 0 || s >= d.len() {
        Seq::empty()
    } else {
        let ns = s + sc_len(d, s);
        if ns >= d.len() {
            Seq::empty()
        } else {
            let e = next_sc(d, ns + 1);
            proof {
                lemma_next_sc(d, i);
                lemma_next_sc(d, ns + 1);
            }
            seq![(s, ns, e)] + h264_nals_from(d, e)
        }
    }
}

/// All NAL units of `d`.
pub open spec fn h264_nals(d: Seq<u8>) -> Seq<(int, int, int)> {
    h264_nals_from(d, 0)
}

/// The H.264 `nal_unit_type` of the unit whose first payload byte is at `ns`.
pub open spec fn h264_nal_type(d: Seq<u8>, ns: int) -> u8 {
    d[ns] & 0x1f
}

/// Access unit delimiters (9) and filler data (12) are dropped for WebRTC.
pub open spec fn is_droppable_nal_type(t: u8) -> bool {
    t == 9 || t == 12
}

/// Concatenation of the kept units, each with its start code.
pub open spec fn kept_units(d: Seq<u8>, nals: Seq<(int, int, int)>) -> Seq<u8>
    decreases nals.len(),
{
    if nals.len() == 0 {
        Seq::empty()
    } else {
        let (s, ns, e) = nals[0];
        let first = if is_droppable_nal_type(h264_nal_type(d, ns)) {
            Seq::empty()
        } else {
            d.subrange(s, e)
        };
        first + kept_units(d, nals.drop_first())
    }
}

/// `d` without its AUD and filler NAL units; `d` itself when nothing would be left.
pub open spec fn spec_strip_aud_nal_units(d: Seq<u8>) -> Seq<u8> {
    let r = kept_units(d, h264_nals(d));
    if r.len() == 0 && d.len() != 0 {
        d
    } else {
        r
    }
}

/// Payload (without start code) of the last unit of type `t`.
pub open spec fn last_nal_of_type(d: Seq<u8>, nals: Seq<(int, int, int)>, t: u8) -> Option<
    Seq<u8>,
>
    decreases nals.len(),
{
    if nals.len() == 0 {
        None
    } else {
        match last_nal_of_type(d, nals.drop_first(), t) {
            Some(x) => Some(x),
            None => {
                let (s, ns, e) = nals[0];
                if h264_nal_type(d, ns) == t {
                    Some(d.subrange(ns, e))
                } else {
                    None
                }
            },
        }
    }
}

/// Some unit among `nals` has type `t`.
pub open spec fn has_nal_type(d: Seq<u8>, nals: Seq<(int, int, int)>, t: u8) -> bool {
    exists|k: int| 0 <= k < nals.len() && h264_nal_type(d, #[trigger] nals[k].1) == t
}

/// A three-byte start code at `p` is followed by an IDR slice (type 5).
pub open spec fn idr_after_sc3(d: Seq<u8>, p: int) -> bool {
    0 <= p && p + 3 < d.len() && d[p] == 0 && d[p + 1] == 0 && d[p + 2] == 1 && d[p + 3] & 0x1f
        == 5
}

/// The stream holds an IDR slice right after a start code.
pub open spec fn spec_h264_is_keyframe(d: Seq<u8>) -> bool {
    exists|p: int| idr_after_sc3(d, p)
}

/// Lifts `Option<Vec<u8>>` to its contents.
pub open spec fn opt_bytes(o: Option<Vec<u8>>) -> Option<Seq<u8>> {
    match o {
        Some(v) => Some(v@),
        None => None,
    }
}

// ---------------------------------------------------------------------------
// Facts about the unit list
// ---------------------------------------------------------------------------

/// Every unit lies inside the data, with its payload after its start code.
pub open spec fn nals_well_formed(d: Seq<u8>, nals: Seq<(int, int, int)>) -> bool {
    forall|k: int|
        0 <= k < nals.len() ==> {
            let (s, ns, e) = #[trigger] nals[k];
            0 <= s && ns == s + sc_len(d, s) && sc_at(d, s) && ns < e <= d.len()
        }
}

pub proof fn lemma_nals_well_formed(d: Seq<u8>, i: int)
    requires
        0 <= i,
    ensures
        nals_well_formed(d, h264_nals_from(d, i)),
    decreases d.len() - i,
{
    let s = next_sc(d, i);
    lemma_next_sc(d, i);
    if s >= d.len() {
    } else {
        let ns = s + sc_len(d, s);
        if ns >= d.len() {
        } else {
            let e = next_sc(d, ns + 1);
            lemma_next_sc(d, ns + 1);
            lemma_nals_well_formed(d, e);
            let rest = h264_nals_from(d, e);
            let all = h264_nals_from(d, i);
            assert(all == seq![(s, ns, e)] + rest);
            assert forall|k: int| 0 <= k < all.len() implies {
                let (s2, ns2, e2) = #[trigger] all[k];
                0 <= s2 && ns2 == s2 + sc_len(d, s2) && sc_at(d, s2) && ns2 < e2 <= d.len()
            } by {
                if k > 0 {
                    assert(all[k] == rest[k - 1]);
                }
            }
        }
    }
}

/// One step of the scan: the units from `i` are the one found there followed
/// by the units from its end.
pub proof fn lemma_nals_step(d: Seq<u8>, i: int)
    requires
        0 <= i,
        next_sc(d, i) < d.len(),
        next_sc(d, i) + sc_len(d, next_sc(d, i)) < d.len(),
    ensures
        h264_nals_from(d, i) == seq![
            (
                next_sc(d, i),
                next_sc(d, i) + sc_len(d, next_sc(d, i)),
                next_sc(d, next_sc(d, i) + sc_len(d, next_sc(d, i)) + 1),
            ),
        ] + h264_nals_from(
            d,
            next_sc(d, next_sc(d, i) + sc_len(d, next_sc(d, i)) + 1),
        ),
{
}

// ---------------------------------------------------------------------------
// Stripping twice changes nothing
// ---------------------------------------------------------------------------

/// A unit list moved `k` bytes further into the data.
pub open spec fn shift_nals(l: Seq<(int, int, int)>, k: int) -> Seq<(int, int, int)> {
    l.map_values(|t: (int, int, int)| (t.0 + k, t.1 + k, t.2 + k))
}

/// Start codes behind a prefix are found where they are in the rest.
proof fn lemma_next_sc_shift(a: Seq<u8>, x: Seq<u8>, q: int)
    requires
        0 <= q,
    ensures
        next_sc(a + x, a.len() + q) == a.len() + next_sc(x, q),
        sc_at(a + x, a.len() + q) == sc_at(x, q),
        sc_len(a + x, a.len() + q) == sc_len(x, q),
    decreases x.len() - q,
{
    let y = a + x;
    let p = a.len() + q;
    if q + 3 <= x.len() {
        assert(y[p] == x[q] && y[p + 1] == x[q + 1] && y[p + 2] == x[q + 2]);
        if q + 4 <= x.len() {
            assert(y[p + 3] == x[q + 3]);
        }
    }
    if q + 3 > x.len() {
    } else if sc_at(x, q) {
    } else {
        lemma_next_sc_shift(a, x, q + 1);
    }
}

/// The units behind a prefix are the units of the rest, moved.
proof fn lemma_nals_shift(a: Seq<u8>, x: Seq<u8>, q: int)
    requires
        0 <= q,
    ensures
        h264_nals_from(a + x, a.len() + q) == shift_nals(h264_nals_from(x, q), a.len() as int),
    decreases x.len() - q,
{
    let y = a + x;
    let k = a.len() as int;
    lemma_next_sc_shift(a, x, q);
    lemma_next_sc(x, q);
    let sx = next_sc(x, q);
    if sx >= x.len() {
        assert(shift_nals(h264_nals_from(x, q), k) =~= Seq::<(int, int, int)>::empty());
    } else {
        lemma_next_sc_shift(a, x, sx);
        let nsx = sx + sc_len(x, sx);
        if nsx >= x.len() {
            assert(shift_nals(h264_nals_from(x, q), k) =~= Seq::<(int, int, int)>::empty());
        } else {
            lemma_next_sc_shift(a, x, nsx + 1);
            lemma_next_sc(x, nsx + 1);
            let ex = next_sc(x, nsx + 1);
            lemma_nals_shift(a, x, ex);
            lemma_next_sc_shift(a, x, ex);
            let rest = h264_nals_from(x, ex);
            assert(h264_nals_from(x, q) == seq![(sx, nsx, ex)] + rest);
            assert(h264_nals_from(y, k + q) == seq![(k + sx, k + nsx, k + ex)] + h264_nals_from(
                y,
                k + ex,
            ));
            assert(shift_nals(seq![(sx, nsx, ex)] + rest, k) =~= seq![(k + sx, k + nsx, k + ex)]
                + shift_nals(rest, k));
        }
    }
}

/// Kept units of a moved list are the kept units of the list.
proof fn lemma_kept_shift(a: Seq<u8>, x: Seq<u8>, l: Seq<(int, int, int)>)
    requires
        nals_well_formed(x, l),
    ensures
        kept_units(a + x, shift_nals(l, a.len() as int)) == kept_units(x, l),
        all_kept(a + x, shift_nals(l, a.len() as int)) == all_kept(x, l),
    decreases l.len(),
{
    let k = a.len() as int;
    let y = a + x;
    let sl = shift_nals(l, k);
    if l.len() > 0 {
        let (s, ns, e) = l[0];
        assert(0 <= s && s < ns && ns < e <= x.len()) by {
            assert(nals_well_formed(x, l));
            let t = l[0];
        }
        assert(sl[0] == (s + k, ns + k, e + k));
        assert(y[ns + k] == x[ns]);
        assert(y.subrange(s + k, e + k) =~= x.subrange(s, e));
        assert(sl.drop_first() =~= shift_nals(l.drop_first(), k));
        assert(nals_well_formed(x, l.drop_first())) by {
            assert forall|j: int| 0 <= j < l.drop_first().len() implies {
                let (s2, ns2, e2) = #[trigger] l.drop_first()[j];
                0 <= s2 && ns2 == s2 + sc_len(x, s2) && sc_at(x, s2) && ns2 < e2 <= x.len()
            } by {
                assert(l.drop_first()[j] == l[j + 1]);
            }
        }
        lemma_kept_shift(a, x, l.drop_first());
    } else {
        assert(sl.len() == 0);
    }
    assert forall|j: int| 0 <= j < sl.len() implies h264_nal_type(y, #[trigger] sl[j].1)
        == h264_nal_type(x, l[j].1) by {
        let t = l[j];
        assert(0 <= t.1 < x.len());
        assert(sl[j].1 == t.1 + k);
        assert(y[t.1 + k] == x[t.1]);
    }
    if all_kept(x, l) {
        assert forall|j: int| 0 <= j < sl.len() implies !is_droppable_nal_type(
            #[trigger] h264_nal_type(y, sl[j].1),
        ) by {
            assert(h264_nal_type(x, l[j].1) == h264_nal_type(y, sl[j].1));
        }
    }
    if all_kept(y, sl) {
        assert forall|j: int| 0 <= j < l.len() implies !is_droppable_nal_type(
            #[trigger] h264_nal_type(x, l[j].1),
        ) by {
            assert(h264_nal_type(y, sl[j].1) == h264_nal_type(x, l[j].1));
        }
    }
}

/// No unit of the list is an AUD or filler unit.
pub open spec fn all_kept(x: Seq<u8>, l: Seq<(int, int, int)>) -> bool {
    forall|j: int| 0 <= j < l.len() ==> !is_droppable_nal_type(#[trigger] h264_nal_type(x, l[j].1))
}

/// Stripping `x` keeps every unit and gives `x` back.
pub open spec fn strip_keeps_all(x: Seq<u8>) -> bool {
    &&& all_kept(x, h264_nals(x))
    &&& kept_units(x, h264_nals(x)) == x
}

/// Nothing is dropped from the empty stream.
proof fn lemma_strip_keeps_empty(x: Seq<u8>)
    requires
        x.len() == 0,
    ensures
        strip_keeps_all(x),
{
    assert(h264_nals(x).len() == 0);
    assert(kept_units(x, h264_nals(x)) =~= x);
}

/// A zero byte in front of a stream that starts with a three-byte start
/// code makes it a four-byte one; every unit is kept as before.
proof fn lemma_zero_prefix(x: Seq<u8>)
    requires
        strip_keeps_all(x),
        sc3_at(x, 0),
    ensures
        strip_keeps_all(seq![0u8] + x),
        sc4_at(seq![0u8] + x, 0),
{
    let a = seq![0u8];
    let y = a + x;
    lemma_next_sc(x, 0);
    assert(next_sc(x, 0) == 0);
    assert(!sc4_at(x, 0));
    assert(sc_len(x, 0) == 3);
    if 3 >= x.len() {
        assert(h264_nals(x).len() == 0);
        assert(kept_units(x, h264_nals(x)).len() == 0);
        assert(false);
    }
    lemma_nals_step(x, 0);
    let ex = next_sc(x, 4);
    lemma_next_sc(x, 4);
    let restx = h264_nals_from(x, ex);
    assert(h264_nals(x) == seq![(0int, 3int, ex)] + restx);
    assert(h264_nals(x)[0] == (0int, 3int, ex));
    assert(!is_droppable_nal_type(h264_nal_type(x, 3)));
    lemma_nals_well_formed(x, 0);
    assert(nals_well_formed(x, restx)) by {
        lemma_nals_well_formed(x, ex);
    }
    assert(h264_nals(x).drop_first() =~= restx);
    let kx = kept_units(x, restx);
    assert(kept_units(x, h264_nals(x)) == x.subrange(0, ex) + kx);
    assert(kx =~= x.skip(ex)) by {
        assert((x.subrange(0, ex) + kx) == x);
        assert forall|i: int| 0 <= i < kx.len() implies kx[i] == x.skip(ex)[i] by {
            assert((x.subrange(0, ex) + kx)[ex + i] == x[ex + i]);
        }
    }
    // The stream with the zero in front.
    assert(y[0] == 0 && y[1] == 0 && y[2] == 0 && y[3] == 1);
    assert(sc4_at(y, 0));
    lemma_next_sc(y, 0);
    assert(next_sc(y, 0) == 0);
    assert(sc_len(y, 0) == 4);
    lemma_next_sc_shift(a, x, 4);
    assert(next_sc(y, 5) == 1 + ex);
    lemma_nals_step(y, 0);
    lemma_nals_shift(a, x, ex);
    let resty = h264_nals_from(y, 1 + ex);
    assert(resty == shift_nals(restx, 1));
    assert(h264_nals(y) == seq![(0int, 4int, 1 + ex)] + resty);
    lemma_kept_shift(a, x, restx);
    assert(y[4] == x[3]);
    assert(h264_nals(y)[0] == (0int, 4int, 1 + ex));
    assert(h264_nals(y).drop_first() =~= resty);
    assert(kept_units(y, h264_nals(y)) == y.subrange(0, 1 + ex) + kept_units(y, resty));
    assert(y.subrange(0, 1 + ex) + kx =~= y);
    assert forall|j: int| 0 <= j < h264_nals(y).len() implies !is_droppable_nal_type(
        #[trigger] h264_nal_type(y, h264_nals(y)[j].1),
    ) by {
        if j > 0 {
            assert(h264_nals(y)[j] == resty[j - 1]);
            assert(all_kept(x, restx)) by {
                assert forall|i: int| 0 <= i < restx.len() implies !is_droppable_nal_type(
                    #[trigger] h264_nal_type(x, restx[i].1),
                ) by {
                    assert(restx[i] == h264_nals(x)[i + 1]);
                }
            }
        }
    }
}

/// A kept unit of `d` in front of a stream whose units are all kept: the
/// units of the whole are all kept too. The unit's end may move one byte
/// back when it ends in a zero and the stream starts with a three-byte start
/// code, but the bytes kept are the same.
#[verifier::rlimit(40)]
proof fn lemma_unit_prefix(d: Seq<u8>, s: int, ns: int, e: int, x: Seq<u8>)
    requires
        0 <= s,
        sc_at(d, s),
        ns == s + sc_len(d, s),
        ns < e <= d.len(),
        forall|p: int| ns + 1 <= p < e ==> !#[trigger] sc_at(d, p),
        !is_droppable_nal_type(h264_nal_type(d, ns)),
        strip_keeps_all(x),
        x.len() == 0 || sc_at(x, 0),
    ensures
        strip_keeps_all(d.subrange(s, e) + x),
        sc_at(d.subrange(s, e) + x, 0),
{
    let seg = d.subrange(s, e);
    let r = seg + x;
    let big_e = e - s;
    let l = ns - s;
    assert(seg.len() == big_e);
    assert forall|i: int| 0 <= i < big_e implies #[trigger] r[i] == d[s + i] by {}
    // Windows inside the unit read the same bytes as in `d`.
    assert forall|p: int| 0 <= p && p + 3 <= big_e implies #[trigger] sc3_at(r, p) == sc3_at(d, s + p) by {
        assert(r[p] == d[s + p] && r[p + 1] == d[s + p + 1] && r[p + 2] == d[s + p + 2]);
    }
    assert forall|p: int| 0 <= p && p + 4 <= big_e implies #[trigger] sc4_at(r, p) == sc4_at(d, s + p) by {
        assert(r[p] == d[s + p] && r[p + 1] == d[s + p + 1] && r[p + 2] == d[s + p + 2] && r[p + 3]
            == d[s + p + 3]);
    }
    assert(l == sc_len(d, s) && l < big_e);
    assert(sc3_at(r, 0) == sc3_at(d, s));
    assert(sc4_at(r, 0) == sc4_at(d, s));
    assert(sc_at(r, 0));
    assert(sc_len(r, 0) == l);
    lemma_next_sc(r, 0);
    assert(next_sc(r, 0) == 0);
    // Where the scan of `r` ends the first unit.
    if x.len() > 0 {
        assert(r[big_e] == x[0] && x[0] == 0);
        assert(r[big_e + 1] == x[1] && x[1] == 0);
    }
    let shift = big_e - 1 >= l + 1 && seg[big_e - 1] == 0 && x.len() > 0 && sc3_at(x, 0);
    assert forall|p: int| l + 1 <= p < big_e && !(shift && p == big_e - 1) implies !#[trigger] sc_at(r, p) by {
        assert(!sc_at(d, s + p));
        if p + 4 <= big_e {
        } else if p + 3 <= big_e {
            assert(!sc3_at(r, p));
        } else {
            if p + 2 == big_e {
                assert(!sc3_at(r, p));
                assert(!sc4_at(r, p));
            } else {
                assert(p == big_e - 1);
                assert(!sc3_at(r, p));
                if sc4_at(r, p) {
                    assert(r[big_e + 2] == x[2]);
                    assert(x[2] == 1);
                    assert(sc3_at(x, 0));
                    assert(seg[big_e - 1] == r[big_e - 1]);
                    assert(big_e - 1 >= l + 1);
                    assert(shift);
                }
            }
        }
    }
    lemma_next_sc(r, l + 1);
    lemma_nals_step(r, 0);
    lemma_nals_well_formed(x, 0);
    assert(r[l] == d[ns]);
    if shift {
        assert(sc4_at(r, big_e - 1)) by {
            assert(r[big_e - 1] == seg[big_e - 1]);
            assert(r[big_e + 2] == x[2]);
        }
        assert(sc_at(r, big_e - 1));
        let nx = next_sc(r, l + 1);
        if nx > big_e - 1 {
            assert(l + 1 <= big_e - 1 < nx);
            assert(!sc_at(r, big_e - 1));
        }
        if nx < big_e - 1 {
            assert(l + 1 <= nx);
            assert(nx < r.len());
            assert(sc_at(r, nx));
            assert(!(shift && nx == big_e - 1));
            assert(!sc_at(r, nx));
        }
        assert(next_sc(r, l + 1) == big_e - 1);
        let a = seg.drop_last();
        let y = seq![0u8] + x;
        assert(r =~= a + y);
        lemma_zero_prefix(x);
        lemma_nals_shift(a, y, 0);
        lemma_nals_well_formed(y, 0);
        lemma_kept_shift(a, y, h264_nals(y));
        let rest = h264_nals_from(r, big_e - 1);
        assert(rest == shift_nals(h264_nals(y), big_e - 1));
        assert(h264_nals(r) == seq![(0int, l, big_e - 1)] + rest);
        assert(h264_nals(r)[0] == (0int, l, big_e - 1));
        assert(h264_nals(r).drop_first() =~= rest);
        assert(kept_units(r, h264_nals(r)) == r.subrange(0, big_e - 1) + kept_units(r, rest));
        assert(r.subrange(0, big_e - 1) =~= a);
        assert(kept_units(r, rest) == y);
        assert(a + y =~= r);
        assert forall|j: int| 0 <= j < h264_nals(r).len() implies !is_droppable_nal_type(
            #[trigger] h264_nal_type(r, h264_nals(r)[j].1),
        ) by {
            if j > 0 {
                assert(h264_nals(r)[j] == rest[j - 1]);
                assert(all_kept(r, rest));
            }
        }
    } else if x.len() == 0 {
        assert(next_sc(r, l + 1) == big_e);
        lemma_next_sc(r, big_e);
        assert(h264_nals_from(r, big_e).len() == 0);
        assert(h264_nals(r) == seq![(0int, l, big_e)]);
        assert(h264_nals(r).drop_first().len() == 0);
        assert(kept_units(r, h264_nals(r)) == r.subrange(0, big_e) + kept_units(r, Seq::empty()));
        assert(r.subrange(0, big_e) + Seq::<u8>::empty() =~= r);
    } else {
        lemma_next_sc_shift(seg, x, 0);
        assert(sc_at(r, big_e));
        assert(next_sc(r, l + 1) == big_e);
        lemma_nals_shift(seg, x, 0);
        lemma_kept_shift(seg, x, h264_nals(x));
        let rest = h264_nals_from(r, big_e);
        assert(rest == shift_nals(h264_nals(x), big_e));
        assert(h264_nals(r) == seq![(0int, l, big_e)] + rest);
        assert(h264_nals(r)[0] == (0int, l, big_e));
        assert(h264_nals(r).drop_first() =~= rest);
        assert(kept_units(r, h264_nals(r)) == r.subrange(0, big_e) + kept_units(r, rest));
        assert(r.subrange(0, big_e) =~= seg);
        assert forall|j: int| 0 <= j < h264_nals(r).len() implies !is_droppable_nal_type(
            #[trigger] h264_nal_type(r, h264_nals(r)[j].1),
        ) by {
            if j > 0 {
                assert(h264_nals(r)[j] == rest[j - 1]);
                assert(all_kept(r, rest));
            }
        }
    }
}

/// The units `d` keeps from `i` on form a stream whose units are all kept,
/// starting with a start code unless empty.
proof fn lemma_kept_stream(d: Seq<u8>, i: int)
    requires
        0 <= i,
    ensures
        strip_keeps_all(kept_units(d, h264_nals_from(d, i))),
        kept_units(d, h264_nals_from(d, i)).len() == 0 || sc_at(
            kept_units(d, h264_nals_from(d, i)),
            0,
        ),
    decreases d.len() - i,
{
    let k = kept_units(d, h264_nals_from(d, i));
    lemma_next_sc(d, i);
    let s = next_sc(d, i);
    if s >= d.len() || s + sc_len(d, s) >= d.len() {
        assert(h264_nals_from(d, i).len() == 0);
        assert(k.len() == 0);
        lemma_strip_keeps_empty(k);
    } else {
        let ns = s + sc_len(d, s);
        lemma_nals_step(d, i);
        lemma_next_sc(d, ns + 1);
        let e = next_sc(d, ns + 1);
        let l = h264_nals_from(d, i);
        let rest = h264_nals_from(d, e);
        assert(l == seq![(s, ns, e)] + rest);
        assert(l[0] == (s, ns, e));
        assert(l.drop_first() =~= rest);
        lemma_kept_stream(d, e);
        if is_droppable_nal_type(h264_nal_type(d, ns)) {
            assert(k == kept_units(d, rest));
        } else {
            assert(k == d.subrange(s, e) + kept_units(d, rest));
            lemma_unit_prefix(d, s, ns, e, kept_units(d, rest));
        }
    }
}

/// Stripping AUD and filler units twice gives what stripping once gives,
/// and the result is empty exactly when the input is.
pub proof fn lemma_strip_aud_idempotent(d: Seq<u8>)
    ensures
        spec_strip_aud_nal_units(spec_strip_aud_nal_units(d)) == spec_strip_aud_nal_units(d),
        (d.len() == 0) <==> (spec_strip_aud_nal_units(d).len() == 0),
{
    let k = kept_units(d, h264_nals(d));
    lemma_kept_stream(d, 0);
    if d.len() == 0 {
        assert(h264_nals(d).len() == 0);
    }
    if !(k.len() == 0 && d.len() != 0) {
        assert(spec_strip_aud_nal_units(d) == k);
        assert(kept_units(k, h264_nals(k)) == k);
    }
}

// ---------------------------------------------------------------------------
// Executable scan
// ---------------------------------------------------------------------------

/// The next NAL unit at or after `i`: (start code, first payload byte, end).
fn next_nal(data: &[u8], i: usize) -> (r: Option<(usize, usize, usize)>)
    requires
        i <= data@.len(),
    ensures
        match r {
            None => h264_nals_from(data@, i as int).len() == 0,
            Some((s, ns, e)) => {
                &&& h264_nals_from(data@, i as int).len() > 0
                &&& h264_nals_from(data@, i as int) == seq![(s as int, ns as int, e as int)]
                    + h264_nals_from(data@, e as int)
                &&& sc_at(data@, s as int)
                &&& ns as int == s + sc_len(data@, s as int)
                &&& i <= s < ns < e <= data@.len()
            },
        },
{
    let n = data.len();
    let s = find_start_code(data, i);
    proof {
        lemma_next_sc(data@, i as int);
    }
    if s >= n {
        return None;
    }
    let l = start_code_len(data, s);
    let ns = s + l;
    if ns >= n {
        return None;
    }
    let e = find_start_code(data, ns + 1);
    proof {
        lemma_next_sc(data@, (ns + 1) as int);
        lemma_nals_step(data@, i as int);
    }
    Some((s, ns, e))
}

/// Drops access-unit-delimiter (9) and filler (12) NAL units; returns the input
/// unchanged when nothing else is left.
pub fn strip_aud_nal_units(data: &[u8]) -> (r: Vec<u8>)
    ensures
        r@ == spec_strip_aud_nal_units(data@),
{
    let mut result: Vec<u8> = Vec::new();
    let mut i: usize = 0;
    let ghost all = h264_nals(data@);
    loop
        invariant_except_break
            i <= data@.len(),
            result@ + kept_units(data@, h264_nals_from(data@, i as int)) == kept_units(
                data@,
                all,
            ),
            all == h264_nals(data@),
        ensures
            result@ == kept_units(data@, all),
            all == h264_nals(data@),
        decreases data@.len() - i,
    {
        match next_nal(data, i) {
            None => {
                assert(result@ + Seq::<u8>::empty() == result@);
                break;
            },
            Some((s, ns, e)) => {
                let ghost before = result@;
                let ghost rest = h264_nals_from(data@, e as int);
                let ghost cur = h264_nals_from(data@, i as int);
                assert(cur.drop_first() == rest);
                let t = data[ns] & 0x1f;
                if t != 9 && t != 12 {
                    result.extend_from_slice(&data[s..e]);
                    assert(result@ == before + data@.subrange(s as int, e as int));
                }
                i = e;
            },
        }
    }
    if result.len() == 0 && data.len() != 0 {
        return copy_bytes(data);
    }
    result
}

/// The last SPS (type 7) and PPS (type 8) payloads, without start codes.
pub fn extract_sps_pps(data: &[u8]) -> (r: (Option<Vec<u8>>, Option<Vec<u8>>))
    ensures
        opt_bytes(r.0) == last_nal_of_type(data@, h264_nals(data@), 7),
        opt_bytes(r.1) == last_nal_of_type(data@, h264_nals(data@), 8),
{
    let mut sps: Option<Vec<u8>> = None;
    let mut pps: Option<Vec<u8>> = None;
    let mut i: usize = 0;
    loop
        invariant_except_break
            i <= data@.len(),
            combine_last(opt_bytes(sps), last_nal_of_type(data@, h264_nals_from(data@, i as int), 7))
                == last_nal_of_type(data@, h264_nals(data@), 7),
            combine_last(opt_bytes(pps), last_nal_of_type(data@, h264_nals_from(data@, i as int), 8))
                == last_nal_of_type(data@, h264_nals(data@), 8),
        ensures
            opt_bytes(sps) == last_nal_of_type(data@, h264_nals(data@), 7),
            opt_bytes(pps) == last_nal_of_type(data@, h264_nals(data@), 8),
        decreases data@.len() - i,
    {
        match next_nal(data, i) {
            None => {
                break;
            },
            Some((s, ns, e)) => {
                let ghost cur = h264_nals_from(data@, i as int);
                assert(cur.drop_first() == h264_nals_from(data@, e as int));
                let t = data[ns] & 0x1f;
                if t == 7 {
                    sps = Some(copy_bytes(&data[ns..e]));
                } else if t == 8 {
                    pps = Some(copy_bytes(&data[ns..e]));
                }
                i = e;
            },
        }
    }
    (sps, pps)
}

/// `later` if it found something, else `earlier`.
pub open spec fn combine_last(earlier: Option<Seq<u8>>, later: Option<Seq<u8>>) -> Option<
    Seq<u8>,
> {
    match later {
        Some(x) => Some(x),
        None => earlier,
    }
}

/// Whether the stream carries both an SPS and a PPS.
pub fn has_sps_pps(data: &[u8]) -> (r: bool)
    ensures
        r == (has_nal_type(data@, h264_nals(data@), 7) && has_nal_type(
            data@,
            h264_nals(data@),
            8,
        )),
{
    let mut has_sps = false;
    let mut has_pps = false;
    let mut i: usize = 0;
    let ghost all = h264_nals(data@);
    let ghost mut seen: int = 0;
    loop
        invariant
            i <= data@.len(),
            0 <= seen <= all.len(),
            all == h264_nals(data@),
            h264_nals_from(data@, i as int) == all.subrange(seen, all.len() as int),
            has_sps == exists|k: int|
                0 <= k < seen && h264_nal_type(data@, #[trigger] all[k].1) == 7,
            has_pps == exists|k: int|
                0 <= k < seen && h264_nal_type(data@, #[trigger] all[k].1) == 8,
        decreases data@.len() - i,
    {
        match next_nal(data, i) {
            None => {
                assert(seen == all.len());
                return has_sps && has_pps;
            },
            Some((s, ns, e)) => {
                let ghost cur = h264_nals_from(data@, i as int);
                assert(cur[0] == all[seen]);
                assert(all.subrange(seen + 1, all.len() as int) == cur.drop_first());
                let t = data[ns] & 0x1f;
                if t == 7 {
                    has_sps = true;
                } else if t == 8 {
                    has_pps = true;
                }
                proof {
                    seen = seen + 1;
                }
                if has_sps && has_pps {
                    return true;
                }
                i = e;
            },
        }
    }
}

/// Whether the stream holds an IDR slice (NAL type 5).
pub fn is_keyframe(data: &[u8]) -> (r: bool)
    ensures
        r == spec_h264_is_keyframe(data@),
{
    let n = data.len();
    let mut i: usize = 0;
    while i < n
        invariant
            n == data@.len(),
            i <= n,
            forall|p: int| 0 <= p < i ==> !idr_after_sc3(data@, p),
        decreases n - i,
    {
        if n - i > 3 && data[i] == 0 && data[i + 1] == 0 {
            if data[i + 2] == 1 {
                if data[i + 3] & 0x1f == 5 {
                    assert(idr_after_sc3(data@, i as int));
                    return true;
                }
                i = i + 3;
            } else if n - i > 4 && data[i + 2] == 0 && data[i + 3] == 1 {
                if data[i + 4] & 0x1f == 5 {
                    assert(idr_after_sc3(data@, i + 1));
                    return true;
                }
                i = i + 4;
            } else {
                i = i + 1;
            }
        } else {
            i = i + 1;
        }
    }
    false
}

} // verus!

verus! {

/// The `profile-level-id` that SDP offers when no SPS has been seen.
pub const FALLBACK_WEBRTC_PROFILE_LEVEL_ID: &'static str = "42e01f";

/// The fixed part of the H.264 SDP `fmtp` line.
pub open spec fn fmtp_prefix() -> Seq<char> {
    "level-asymmetry-allowed=1;packetization-mode=1;profile-level-id="@
}

/// The SDP `fmtp` line for the given `profile-level-id`.
pub fn webrtc_fmtp_line(profile_level_id: &str) -> (r: String)
    ensures
        r@ == fmtp_prefix() + profile_level_id@,
{
    concat_str("level-asymmetry-allowed=1;packetization-mode=1;profile-level-id=", profile_level_id)
}

/// The SDP `fmtp` line for the fallback `profile-level-id`.
pub fn fallback_webrtc_fmtp_line() -> (r: String)
    ensures
        r@ == fmtp_prefix() + FALLBACK_WEBRTC_PROFILE_LEVEL_ID@,
{
    webrtc_fmtp_line(FALLBACK_WEBRTC_PROFILE_LEVEL_ID)
}

/// `profile_idc`, constraint flags and `level_idc` of an SPS payload, as six hex digits.
pub open spec fn spec_profile_level_id(sps: Seq<u8>) -> Option<Seq<char>> {
    if sps.len() < 4 {
        None
    } else {
        Some(hex2(sps[1]) + hex2(sps[2]) + hex2(sps[3]))
    }
}

/// Lifts `Option<String>` to its characters.
pub open spec fn opt_chars(o: Option<String>) -> Option<Seq<char>> {
    match o {
        Some(s) => Some(s@),
        None => None,
    }
}

/// The SDP `profile-level-id` (e.g. `42001f`) of an SPS NAL given without start code.
pub fn parse_profile_level_id_from_sps(sps: &[u8]) -> (r: Option<String>)
    ensures
        opt_chars(r) == spec_profile_level_id(sps@),
{
    if sps.len() < 4 {
        return None;
    }
    let mut out = String::new();
    push_hex2(&mut out, sps[1]);
    push_hex2(&mut out, sps[2]);
    push_hex2(&mut out, sps[3]);
    Some(out)
}

/// The `profile-level-id` of the last SPS in an Annex-B stream.
pub open spec fn spec_extract_profile_level_id(d: Seq<u8>) -> Option<Seq<char>> {
    match last_nal_of_type(d, h264_nals(d), 7) {
        Some(sps) => spec_profile_level_id(sps),
        None => None,
    }
}

/// The `profile-level-id` of the last SPS in an Annex-B stream.
pub fn extract_profile_level_id(data: &[u8]) -> (r: Option<String>)
    ensures
        opt_chars(r) == spec_extract_profile_level_id(data@),
{
    let (sps, _) = extract_sps_pps(data);
    match sps {
        Some(sps_data) => parse_profile_level_id_from_sps(sps_data.as_slice()),
        None => None,
    }
}

/// The data begins with a start code.
pub open spec fn spec_is_annex_b(d: Seq<u8>) -> bool {
    sc3_at(d, 0) || sc4_at(d, 0)
}

/// Whether the data begins with an Annex-B start code.
pub fn is_annex_b(data: &[u8]) -> (r: bool)
    ensures
        r == spec_is_annex_b(data@),
{
    (data.len() >= 3 && data[0] == 0 && data[1] == 0 && data[2] == 1) || (data.len() >= 4
        && data[0] == 0 && data[1] == 0 && data[2] == 0 && data[3] == 1)
}

/// Big-endian 32-bit value at `pos`.
pub open spec fn be32_at(d: Seq<u8>, pos: int) -> int {
    d[pos] as int * 16777216 + d[pos + 1] as int * 65536 + d[pos + 2] as int * 256 + d[pos
        + 3] as int
}

/// The length-prefixed units (payload start, payload length) of an AVCC packet
/// read from `pos`, or `None` when a length is zero, runs past the end, or
/// trailing bytes are too short for a length field.
pub open spec fn avcc_units_from(d: Seq<u8>, pos: int) -> Option<Seq<(int, int)>>
    decreases d.len() - pos,
{
    if pos < 0 || pos + 4 > d.len() {
        if pos == d.len() {
            Some(Seq::empty())
        } else {
            None
        }
    } else {
        let n = be32_at(d, pos);
        let p = pos + 4;
        if n == 0 || p + n > d.len() {
            None
        } else {
            match avcc_units_from(d, p + n) {
                Some(rest) => Some(seq![(p, n)] + rest),
                None => None,
            }
        }
    }
}

/// The Annex-B form of the units: each non-AUD, non-filler unit behind a four-byte start code.
pub open spec fn avcc_annex_b_bytes(d: Seq<u8>, units: Seq<(int, int)>) -> Seq<u8>
    decreases units.len(),
{
    if units.len() == 0 {
        Seq::empty()
    } else {
        let (p, n) = units[0];
        let first = if is_droppable_nal_type(d[p] & 0x1f) {
            Seq::empty()
        } else {
            seq![0u8, 0u8, 0u8, 1u8] + d.subrange(p, p + n)
        };
        first + avcc_annex_b_bytes(d, units.drop_first())
    }
}

/// An AVCC packet converted to Annex-B, when it parses, holds a unit, and
/// something is left after dropping AUD and filler units.
pub open spec fn spec_avcc_to_annex_b(d: Seq<u8>) -> Option<Seq<u8>> {
    match avcc_units_from(d, 0) {
        Some(units) => {
            let out = avcc_annex_b_bytes(d, units);
            if units.len() > 0 && out.len() > 0 {
                Some(out)
            } else {
                None
            }
        },
        None => None,
    }
}

/// Converts a length-prefixed (AVCC) packet to Annex-B.
pub fn avcc_to_annex_b(data: &[u8]) -> (r: Option<Vec<u8>>)
    ensures
        opt_bytes(r) == spec_avcc_to_annex_b(data@),
{
    let n = data.len();
    let mut pos: usize = 0;
    let mut output: Vec<u8> = Vec::new();
    let mut nalu_count: usize = 0;
    let ghost mut done: Seq<(int, int)> = Seq::empty();
    while n - pos >= 4
        invariant
            n == data@.len(),
            pos <= n,
            nalu_count == done.len(),
            nalu_count <= pos,
            output@ == avcc_annex_b_bytes(data@, done),
            avcc_units_from(data@, 0) == match avcc_units_from(data@, pos as int) {
                Some(rest) => Some(done + rest),
                None => None::<Seq<(int, int)>>,
            },
        decreases n - pos,
    {
        let len32: u32 = (data[pos] as u32) * 16777216 + (data[pos + 1] as u32) * 65536 + (data[pos
            + 2] as u32) * 256 + (data[pos + 3] as u32);
        let nalu_len = len32 as usize;
        let p = pos + 4;
        if nalu_len == 0 || nalu_len > n - p {
            return None;
        }
        let ghost rest_after = avcc_units_from(data@, (p + nalu_len) as int);
        let ghost unit = (p as int, nalu_len as int);
        let nal_type = data[p] & 0x1f;
        if nal_type != 9 && nal_type != 12 {
            output.extend_from_slice(&[0u8, 0u8, 0u8, 1u8]);
            output.extend_from_slice(&data[p..p + nalu_len]);
        }
        proof {
            lemma_avcc_bytes_push(data@, done, unit);
            done = done.push(unit);
            match rest_after {
                Some(r) => {
                    assert(done + r == (done.drop_last()) + (seq![unit] + r));
                },
                None => {},
            }
            assert(output@ == avcc_annex_b_bytes(data@, done));
        }
        nalu_count = nalu_count + 1;
        pos = p + nalu_len;
    }
    if pos == n && nalu_count > 0 && output.len() > 0 {
        proof {
            assert(done + Seq::<(int, int)>::empty() == done);
        }
        Some(output)
    } else {
        None
    }
}

/// Converting one more unit appends its bytes.
pub proof fn lemma_avcc_bytes_push(d: Seq<u8>, units: Seq<(int, int)>, u: (int, int))
    ensures
        avcc_annex_b_bytes(d, units.push(u)) == avcc_annex_b_bytes(d, units) + (
        if is_droppable_nal_type(d[u.0] & 0x1f) {
            Seq::empty()
        } else {
            seq![0u8, 0u8, 0u8, 1u8] + d.subrange(u.0, u.0 + u.1)
        }),
    decreases units.len(),
{
    if units.len() == 0 {
        assert(units.push(u).drop_first() == Seq::<(int, int)>::empty());
    } else {
        lemma_avcc_bytes_push(d, units.drop_first(), u);
        assert(units.push(u).drop_first() == units.drop_first().push(u));
    }
}

/// The WebRTC form of a packet: Annex-B without AUD and filler units; AVCC
/// packets are converted first; anything else is passed through.
pub open spec fn spec_normalize_for_webrtc(d: Seq<u8>) -> Seq<u8> {
    if spec_is_annex_b(d) {
        spec_strip_aud_nal_units(d)
    } else {
        match spec_avcc_to_annex_b(d) {
            Some(a) => spec_strip_aud_nal_units(a),
            None => d,
        }
    }
}

/// Normalizes an H.264 packet for WebRTC.
pub fn normalize_for_webrtc(data: &[u8]) -> (r: Vec<u8>)
    ensures
        r@ == spec_normalize_for_webrtc(data@),
{
    if is_annex_b(data) {
        return strip_aud_nal_units(data);
    }
    match avcc_to_annex_b(data) {
        Some(annex_b) => strip_aud_nal_units(annex_b.as_slice()),
        None => copy_bytes(data),
    }
}

/// Annex-B data unchanged; an AVCC packet converted; anything else unchanged.
pub open spec fn spec_normalize_annex_b(d: Seq<u8>) -> Seq<u8> {
    if spec_is_annex_b(d) {
        d
    } else {
        match spec_avcc_to_annex_b(d) {
            Some(a) => a,
            None => d,
        }
    }
}

/// Brings a packet into Annex-B form when it is a well-formed AVCC packet.
pub fn normalize_annex_b(data: Vec<u8>) -> (r: Vec<u8>)
    ensures
        r@ == spec_normalize_annex_b(data@),
{
    if is_annex_b(data.as_slice()) {
        return data;
    }
    match avcc_to_annex_b(data.as_slice()) {
        Some(annex_b) => annex_b,
        None => data,
    }
}

} // verus!
