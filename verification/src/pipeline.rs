//! Keyframe gating for the shared encoder pipeline: an encoded H.264/H.265
//! packet is announced as a keyframe only when a decoder can start from it,
//! which takes both the encoder's key flag and an IDR/IRAP payload carrying
//! every parameter set; the last parameter sets seen are cached and put in
//! front of a keyframe that lacks them.
use vstd::prelude::*;
use crate::annexb::{copy_bytes, lemma_next_sc, next_sc, sc3_at, sc4_at, sc_at, sc_len};
use crate::h264_bitstream::{
    combine_last, extract_sps_pps, h264_nal_type, has_nal_type, idr_after_sc3, h264_nals, h264_nals_from,
    is_keyframe as h264_is_keyframe, last_nal_of_type, normalize_annex_b, opt_bytes,
    spec_h264_is_keyframe, spec_normalize_annex_b,
};
use crate::h265_bitstream::{
    extract_vps_sps_pps, h265_nal_type, h265_units, h265_units_from, is_irap_type,
    is_keyframe as h265_is_keyframe, last_unit_of_type, lemma_trim_bounds, spec_extract_vps_sps_pps,
    spec_h265_is_keyframe, trim_trailing_zeros,
};
use crate::registry::VideoEncoderType;

verus! {

/// The four-byte Annex-B start code.
pub open spec fn start_code4() -> Seq<u8> {
    seq![0u8, 0u8, 0u8, 1u8]
}

/// A cached H.264 parameter set of type `t`: a NAL unit payload whose first
/// byte carries the type and that holds no start code after that byte.
pub open spec fn h264_param_ok(v: Seq<u8>, t: u8) -> bool {
    &&& v.len() >= 1
    &&& v[0] & 0x1f == t
    &&& forall|j: int| 1 <= j ==> !sc_at(v, j)
}

/// A cached H.265 parameter set of type `t`: a NAL unit with its two header
/// bytes, a non-zero last byte and no start code inside.
pub open spec fn h265_param_ok(v: Seq<u8>, t: u8) -> bool {
    &&& v.len() >= 2
    &&& h265_nal_type(v, 0) == t
    &&& v[v.len() - 1] != 0
    &&& forall|j: int| 0 <= j ==> !sc_at(v, j)
}

pub open spec fn opt_param_ok(o: Option<Seq<u8>>, h265: bool, t: u8) -> bool {
    match o {
        Some(v) => if h265 {
            h265_param_ok(v, t)
        } else {
            h264_param_ok(v, t)
        },
        None => true,
    }
}

/// The last parameter sets seen on the encoded stream.
pub struct ParameterSetCache {
    h264_sps: Option<Vec<u8>>,
    h264_pps: Option<Vec<u8>>,
    h265_vps: Option<Vec<u8>>,
    h265_sps: Option<Vec<u8>>,
    h265_pps: Option<Vec<u8>>,
}

/// The outcome for an H.264 packet: the packet to send, whether it is a
/// decoder bootstrap frame, and the cached SPS and PPS afterwards.
pub open spec fn spec_h264_packet(
    cached_sps: Option<Seq<u8>>,
    cached_pps: Option<Seq<u8>>,
    data: Seq<u8>,
    encoder_keyframe: bool,
) -> (Seq<u8>, bool, Option<Seq<u8>>, Option<Seq<u8>>) {
    let d = spec_normalize_annex_b(data);
    let sps = last_nal_of_type(d, h264_nals(d), 7);
    let pps = last_nal_of_type(d, h264_nals(d), 8);
    let new_sps = combine_last(cached_sps, sps);
    let new_pps = combine_last(cached_pps, pps);
    let is_idr = encoder_keyframe && spec_h264_is_keyframe(d);
    if !is_idr {
        (d, false, new_sps, new_pps)
    } else if sps is Some && pps is Some {
        (d, true, new_sps, new_pps)
    } else {
        match (new_sps, new_pps) {
            (Some(s), Some(p)) => (start_code4() + s + start_code4() + p + d, true, new_sps, new_pps),
            _ => (d, false, new_sps, new_pps),
        }
    }
}

/// The outcome for an H.265 packet: the packet to send, whether it is a
/// decoder bootstrap frame, and the cached VPS, SPS and PPS afterwards.
pub open spec fn spec_h265_packet(
    cached_vps: Option<Seq<u8>>,
    cached_sps: Option<Seq<u8>>,
    cached_pps: Option<Seq<u8>>,
    d: Seq<u8>,
    encoder_keyframe: bool,
) -> (Seq<u8>, bool, Option<Seq<u8>>, Option<Seq<u8>>, Option<Seq<u8>>) {
    let (vps, sps, pps) = spec_extract_vps_sps_pps(d);
    let new_vps = combine_last(cached_vps, vps);
    let new_sps = combine_last(cached_sps, sps);
    let new_pps = combine_last(cached_pps, pps);
    let is_irap = encoder_keyframe && spec_h265_is_keyframe(d);
    if !is_irap {
        (d, false, new_vps, new_sps, new_pps)
    } else if vps is Some && sps is Some && pps is Some {
        (d, true, new_vps, new_sps, new_pps)
    } else {
        match (new_vps, new_sps, new_pps) {
            (Some(v), Some(s), Some(p)) => (
                start_code4() + v + start_code4() + s + start_code4() + p + d,
                true,
                new_vps,
                new_sps,
                new_pps,
            ),
            _ => (d, false, new_vps, new_sps, new_pps),
        }
    }
}

impl ParameterSetCache {
    #[verifier::type_invariant]
    spec fn inv(&self) -> bool {
        &&& opt_param_ok(opt_bytes(self.h264_sps), false, 7)
        &&& opt_param_ok(opt_bytes(self.h264_pps), false, 8)
        &&& opt_param_ok(opt_bytes(self.h265_vps), true, 32)
        &&& opt_param_ok(opt_bytes(self.h265_sps), true, 33)
        &&& opt_param_ok(opt_bytes(self.h265_pps), true, 34)
    }

    pub closed spec fn h264_sps(&self) -> Option<Seq<u8>> {
        opt_bytes(self.h264_sps)
    }

    pub closed spec fn h264_pps(&self) -> Option<Seq<u8>> {
        opt_bytes(self.h264_pps)
    }

    pub closed spec fn h265_vps(&self) -> Option<Seq<u8>> {
        opt_bytes(self.h265_vps)
    }

    pub closed spec fn h265_sps(&self) -> Option<Seq<u8>> {
        opt_bytes(self.h265_sps)
    }

    pub closed spec fn h265_pps(&self) -> Option<Seq<u8>> {
        opt_bytes(self.h265_pps)
    }

    /// A cache that has seen nothing.
    pub fn new() -> (r: ParameterSetCache)
        ensures
            r.h264_sps() is None && r.h264_pps() is None,
            r.h265_vps() is None && r.h265_sps() is None && r.h265_pps() is None,
    {
        ParameterSetCache {
            h264_sps: None,
            h264_pps: None,
            h265_vps: None,
            h265_sps: None,
            h265_pps: None,
        }
    }
}

// ---------------------------------------------------------------------------
// What an extracted parameter set looks like
// ---------------------------------------------------------------------------

/// Each H.264 unit ends at the next start code after its first payload byte.
proof fn lemma_h264_nal_ends(d: Seq<u8>, i: int)
    requires
        0 <= i,
    ensures
        forall|k: int|
            0 <= k < h264_nals_from(d, i).len() ==> {
                let (s, ns, e) = #[trigger] h264_nals_from(d, i)[k];
                0 <= ns < e <= d.len() && e == next_sc(d, ns + 1)
            },
    decreases d.len() - i,
{
    let s = next_sc(d, i);
    lemma_next_sc(d, i);
    if s < d.len() {
        let ns = s + sc_len(d, s);
        if ns < d.len() {
            let e = next_sc(d, ns + 1);
            lemma_next_sc(d, ns + 1);
            lemma_h264_nal_ends(d, e);
            let rest = h264_nals_from(d, e);
            let all = h264_nals_from(d, i);
            assert(all == seq![(s, ns, e)] + rest);
            assert forall|k: int| 0 <= k < all.len() implies {
                let (s2, ns2, e2) = #[trigger] all[k];
                0 <= ns2 < e2 <= d.len() && e2 == next_sc(d, ns2 + 1)
            } by {
                if k > 0 {
                    assert(all[k] == rest[k - 1]);
                }
            }
        }
    }
}

/// The last unit of type `t` is one of the units.
proof fn lemma_last_nal_is_unit(d: Seq<u8>, nals: Seq<(int, int, int)>, t: u8)
    requires
        last_nal_of_type(d, nals, t) is Some,
    ensures
        exists|k: int|
            0 <= k < nals.len() && h264_nal_type(d, #[trigger] nals[k].1) == t && last_nal_of_type(
                d,
                nals,
                t,
            ) == Some(d.subrange(nals[k].1, nals[k].2)),
    decreases nals.len(),
{
    match last_nal_of_type(d, nals.drop_first(), t) {
        Some(x) => {
            lemma_last_nal_is_unit(d, nals.drop_first(), t);
            let k = choose|k: int|
                0 <= k < nals.drop_first().len() && h264_nal_type(
                    d,
                    #[trigger] nals.drop_first()[k].1,
                ) == t && last_nal_of_type(d, nals.drop_first(), t) == Some(
                    d.subrange(nals.drop_first()[k].1, nals.drop_first()[k].2),
                );
            assert(nals[k + 1] == nals.drop_first()[k]);
        },
        None => {
            assert(h264_nal_type(d, nals[0].1) == t);
        },
    }
}

/// An SPS or PPS taken from a stream is fit to be cached.
proof fn lemma_h264_extracted_ok(d: Seq<u8>, t: u8)
    ensures
        opt_param_ok(last_nal_of_type(d, h264_nals(d), t), false, t),
{
    let nals = h264_nals(d);
    if last_nal_of_type(d, nals, t) is Some {
        lemma_last_nal_is_unit(d, nals, t);
        lemma_h264_nal_ends(d, 0);
        let k = choose|k: int|
            0 <= k < nals.len() && h264_nal_type(d, #[trigger] nals[k].1) == t && last_nal_of_type(
                d,
                nals,
                t,
            ) == Some(d.subrange(nals[k].1, nals[k].2));
        let (s, ns, e) = nals[k];
        let x = d.subrange(ns, e);
        assert(h264_nals_from(d, 0)[k] == nals[k]);
        assert(0 <= ns < e <= d.len() && e == next_sc(d, ns + 1));
        lemma_next_sc(d, ns + 1);
        assert forall|j: int| 1 <= j implies !sc_at(x, j) by {
            if sc_at(x, j) {
                assert(ns + 1 <= ns + j < e);
                assert(!sc_at(d, ns + j));
                if sc3_at(x, j) {
                    assert(sc3_at(d, ns + j));
                } else {
                    assert(sc4_at(d, ns + j));
                }
            }
        }
    }
}

/// Trimming stops at a non-zero byte.
proof fn lemma_trim_nonzero(d: Seq<u8>, lo: int, hi: int)
    requires
        0 <= lo <= hi <= d.len(),
    ensures
        trim_trailing_zeros(d, lo, hi) > lo ==> d[trim_trailing_zeros(d, lo, hi) - 1] != 0,
    decreases hi - lo,
{
    if hi > lo && d[hi - 1] == 0 {
        lemma_trim_nonzero(d, lo, hi - 1);
    }
}

/// Each H.265 unit has its header, ends in a non-zero byte and holds no start code.
proof fn lemma_h265_unit_props(d: Seq<u8>, c: int)
    requires
        0 <= c,
    ensures
        forall|k: int|
            0 <= k < h265_units_from(d, c).len() ==> {
                let (ns, e) = #[trigger] h265_units_from(d, c)[k];
                &&& 0 <= ns
                &&& ns + 2 <= e <= d.len()
                &&& d[e - 1] != 0
                &&& forall|j: int| ns <= j < e ==> !sc_at(d, j)
            },
    decreases d.len() - c,
{
    let start = next_sc(d, c);
    lemma_next_sc(d, c);
    if start < d.len() {
        let ns = start + sc_len(d, start);
        if ns + 2 <= d.len() {
            let next_start = next_sc(d, ns);
            lemma_next_sc(d, ns);
            let nal_end = trim_trailing_zeros(d, ns, next_start);
            lemma_trim_bounds(d, ns, next_start);
            lemma_trim_nonzero(d, ns, next_start);
            let here: Seq<(int, int)> = if nal_end >= ns + 2 {
                seq![(ns, nal_end)]
            } else {
                Seq::empty()
            };
            let all = h265_units_from(d, c);
            if next_start >= d.len() {
                assert(all == here);
            } else {
                lemma_h265_unit_props(d, next_start);
                let rest = h265_units_from(d, next_start);
                assert(all == here + rest);
                assert forall|k: int| 0 <= k < all.len() implies {
                    let (ns2, e2) = #[trigger] all[k];
                    &&& 0 <= ns2
                    &&& ns2 + 2 <= e2 <= d.len()
                    &&& d[e2 - 1] != 0
                    &&& forall|j: int| ns2 <= j < e2 ==> !sc_at(d, j)
                } by {
                    if k >= here.len() {
                        assert(all[k] == rest[k - here.len()]);
                    }
                }
            }
        }
    }
}

/// The last unit of type `t` is one of the units.
proof fn lemma_last_unit_is_unit(d: Seq<u8>, units: Seq<(int, int)>, t: u8)
    requires
        last_unit_of_type(d, units, t) is Some,
    ensures
        exists|k: int|
            0 <= k < units.len() && h265_nal_type(d, #[trigger] units[k].0) == t
                && last_unit_of_type(d, units, t) == Some(d.subrange(units[k].0, units[k].1)),
    decreases units.len(),
{
    let (ns, e) = units.last();
    if h265_nal_type(d, ns) == t {
        assert(units[units.len() - 1] == units.last());
    } else {
        lemma_last_unit_is_unit(d, units.drop_last(), t);
        let k = choose|k: int|
            0 <= k < units.drop_last().len() && h265_nal_type(d, #[trigger] units.drop_last()[k].0)
                == t && last_unit_of_type(d, units.drop_last(), t) == Some(
                d.subrange(units.drop_last()[k].0, units.drop_last()[k].1),
            );
        assert(units[k] == units.drop_last()[k]);
    }
}

/// A VPS, SPS or PPS taken from a stream is fit to be cached.
proof fn lemma_h265_extracted_ok(d: Seq<u8>, t: u8)
    ensures
        opt_param_ok(last_unit_of_type(d, h265_units(d), t), true, t),
{
    let units = h265_units(d);
    if last_unit_of_type(d, units, t) is Some {
        lemma_last_unit_is_unit(d, units, t);
        lemma_h265_unit_props(d, 0);
        let k = choose|k: int|
            0 <= k < units.len() && h265_nal_type(d, #[trigger] units[k].0) == t
                && last_unit_of_type(d, units, t) == Some(d.subrange(units[k].0, units[k].1));
        let (ns, e) = units[k];
        let x = d.subrange(ns, e);
        assert(h265_units_from(d, 0)[k] == units[k]);
        assert(ns + 2 <= e <= d.len() && d[e - 1] != 0);
        assert(forall|j: int| ns <= j < e ==> !sc_at(d, j));
        assert(x[x.len() - 1] == d[e - 1]);
        assert forall|j: int| 0 <= j implies !sc_at(x, j) by {
            if sc_at(x, j) {
                assert(ns <= ns + j < e);
                assert(!sc_at(d, ns + j));
                if sc3_at(x, j) {
                    assert(sc3_at(d, ns + j));
                } else {
                    assert(sc4_at(d, ns + j));
                }
            }
        }
    }
}

// ---------------------------------------------------------------------------
// A packet with parameter sets put in front starts a decoder
// ---------------------------------------------------------------------------

/// With no start code in `[from, q)`, the search from `from` lands where the
/// search from `q` does.
proof fn lemma_next_sc_skip(d: Seq<u8>, from: int, q: int)
    requires
        0 <= from <= q,
        forall|j: int| from <= j < q ==> !sc_at(d, j),
    ensures
        next_sc(d, from) == next_sc(d, q),
    decreases q - from,
{
    if from < q {
        if from + 3 > d.len() {
        } else {
            assert(!sc_at(d, from));
            lemma_next_sc_skip(d, from + 1, q);
        }
    }
}

/// A start code at `q` is found from `q`.
proof fn lemma_next_sc_here(d: Seq<u8>, q: int)
    requires
        sc_at(d, q),
    ensures
        next_sc(d, q) == q,
{
}

/// A region of `out` holding `v` contains no start code from `first` on when
/// `v` has none and a four-byte start code follows it.
proof fn lemma_region_before_sc(out: Seq<u8>, start: int, v: Seq<u8>, first: int)
    requires
        0 <= start,
        0 <= first,
        start + v.len() + 4 <= out.len(),
        forall|i: int| 0 <= i < v.len() ==> out[start + i] == #[trigger] v[i],
        out[start + v.len()] == 0,
        out[start + v.len() + 1] == 0,
        out[start + v.len() + 2] == 0,
        out[start + v.len() + 3] == 1,
        forall|j: int| first <= j ==> !sc_at(v, j),
    ensures
        forall|j: int| start + first <= j < start + v.len() ==> !sc_at(out, j),
{
    let end = start + v.len();
    assert forall|j: int| start + first <= j < end implies !sc_at(out, j) by {
        let k = j - start;
        assert(out[j] == v[k]);
        assert(!sc_at(v, k));
        if sc3_at(out, j) {
            if j + 3 <= end {
                assert(out[j + 1] == v[k + 1] && out[j + 2] == v[k + 2]);
                assert(sc3_at(v, k));
            } else {
                assert(j + 2 == end || j + 2 == end + 1);
            }
        }
        if sc4_at(out, j) {
            if j + 4 <= end {
                assert(out[j + 1] == v[k + 1] && out[j + 2] == v[k + 2] && out[j + 3] == v[k + 3]);
                assert(sc4_at(v, k));
            } else {
                assert(j + 3 == end || j + 3 == end + 1 || j + 3 == end + 2);
            }
        }
    }
}

/// A region of `out` holding `v` contains no start code when `v` has none
/// and ends in a non-zero byte, whatever follows it.
proof fn lemma_region_nonzero_end(out: Seq<u8>, start: int, v: Seq<u8>)
    requires
        0 <= start,
        v.len() >= 1,
        start + v.len() <= out.len(),
        forall|i: int| 0 <= i < v.len() ==> out[start + i] == #[trigger] v[i],
        v[v.len() - 1] != 0,
        forall|j: int| 0 <= j ==> !sc_at(v, j),
    ensures
        forall|j: int| start <= j < start + v.len() ==> !sc_at(out, j),
{
    let end = start + v.len();
    assert(out[end - 1] == v[v.len() - 1]);
    assert forall|j: int| start <= j < end implies !sc_at(out, j) by {
        let k = j - start;
        assert(out[j] == v[k]);
        assert(!sc_at(v, k));
        if sc3_at(out, j) {
            if j + 3 <= end {
                assert(out[j + 1] == v[k + 1] && out[j + 2] == v[k + 2]);
                assert(sc3_at(v, k));
            } else {
                assert(end - 1 == j || end - 1 == j + 1);
            }
        }
        if sc4_at(out, j) {
            if j + 4 <= end {
                assert(out[j + 1] == v[k + 1] && out[j + 2] == v[k + 2] && out[j + 3] == v[k + 3]);
                assert(sc4_at(v, k));
            } else {
                assert(end - 1 == j || end - 1 == j + 1 || end - 1 == j + 2);
            }
        }
    }
}

/// An H.264 unit of type `t` found by the scan.
proof fn lemma_has_nal_type_intro(d: Seq<u8>, nals: Seq<(int, int, int)>, k: int, t: u8)
    requires
        0 <= k < nals.len(),
        h264_nal_type(d, nals[k].1) == t,
    ensures
        has_nal_type(d, nals, t),
{
}

/// An IDR slice of `d` is still one after bytes are put in front.
proof fn lemma_h264_keyframe_suffix(p: Seq<u8>, d: Seq<u8>)
    requires
        spec_h264_is_keyframe(d),
    ensures
        spec_h264_is_keyframe(p + d),
{
    let q = choose|q: int| idr_after_sc3(d, q);
    let out = p + d;
    assert(out[p.len() + q] == d[q] && out[p.len() + q + 1] == d[q + 1] && out[p.len() + q + 2]
        == d[q + 2] && out[p.len() + q + 3] == d[q + 3]);
    assert(idr_after_sc3(out, p.len() + q));
}

/// An IDR packet with the cached SPS and PPS put in front carries both and
/// is still an IDR packet.
pub proof fn lemma_h264_bootstrap(sps: Seq<u8>, pps: Seq<u8>, d: Seq<u8>)
    requires
        h264_param_ok(sps, 7),
        h264_param_ok(pps, 8),
        spec_h264_is_keyframe(d),
    ensures
        ({
            let out = start_code4() + sps + start_code4() + pps + d;
            &&& has_nal_type(out, h264_nals(out), 7)
            &&& has_nal_type(out, h264_nals(out), 8)
            &&& spec_h264_is_keyframe(out)
        }),
{
    let pre = start_code4() + sps + start_code4() + pps;
    let out = pre + d;
    assert(start_code4() + sps + start_code4() + pps + d == out);
    let p2: int = 4 + sps.len() as int;
    let l: int = p2 + 4 + pps.len() as int;
    assert(pre.len() == l);
    assert forall|i: int| 0 <= i < sps.len() implies out[4 + i] == sps[i] by {}
    assert forall|i: int| 0 <= i < pps.len() implies out[p2 + 4 + i] == pps[i] by {}
    assert(out[0] == 0 && out[1] == 0 && out[2] == 0 && out[3] == 1);
    assert(out[p2] == 0 && out[p2 + 1] == 0 && out[p2 + 2] == 0 && out[p2 + 3] == 1);
    // first unit: the SPS
    assert(sc4_at(out, 0));
    lemma_next_sc_here(out, 0);
    assert(sc_len(out, 0) == 4);
    crate::h264_bitstream::lemma_nals_step(out, 0);
    lemma_region_before_sc(out, 4, sps, 1);
    assert(sc4_at(out, p2));
    lemma_next_sc_skip(out, 5, p2);
    lemma_next_sc_here(out, p2);
    assert(next_sc(out, 5) == p2);
    // second unit: the PPS
    assert(sc_len(out, p2) == 4);
    crate::h264_bitstream::lemma_nals_step(out, p2);
    let nals = h264_nals(out);
    assert(nals[0].1 == 4);
    assert(nals[1] == h264_nals_from(out, p2)[0]);
    assert(nals[1].1 == p2 + 4);
    assert(h264_nal_type(out, 4) == sps[0] & 0x1f);
    assert(h264_nal_type(out, p2 + 4) == pps[0] & 0x1f);
    lemma_has_nal_type_intro(out, nals, 0, 7);
    lemma_has_nal_type_intro(out, nals, 1, 8);
    lemma_h264_keyframe_suffix(pre, d);
}

/// Start codes in the tail of `p + d` are those of `d`, moved by `p.len()`.
proof fn lemma_next_sc_shift(p: Seq<u8>, d: Seq<u8>, x: int)
    requires
        0 <= x,
    ensures
        next_sc(p + d, p.len() + x) == p.len() + next_sc(d, x),
        x + 3 <= d.len() ==> (sc_at(p + d, p.len() + x) == sc_at(d, x) && sc_len(p + d, p.len() + x)
            == sc_len(d, x)),
    decreases d.len() - x,
{
    let out = p + d;
    let q = p.len() + x;
    if x + 3 <= d.len() {
        assert(out[q] == d[x] && out[q + 1] == d[x + 1] && out[q + 2] == d[x + 2]);
        if x + 4 <= d.len() {
            assert(out[q + 3] == d[x + 3]);
        }
        if !sc_at(d, x) {
            lemma_next_sc_shift(p, d, x + 1);
        }
    }
}

/// Trimming in the tail of `p + d` is trimming in `d`, moved by `p.len()`.
proof fn lemma_trim_shift(p: Seq<u8>, d: Seq<u8>, a: int, b: int)
    requires
        0 <= a <= b <= d.len(),
    ensures
        trim_trailing_zeros(p + d, p.len() + a, p.len() + b) == p.len() + trim_trailing_zeros(
            d,
            a,
            b,
        ),
    decreases b - a,
{
    if b > a {
        assert((p + d)[p.len() + b - 1] == d[b - 1]);
        if d[b - 1] == 0 {
            lemma_trim_shift(p, d, a, b - 1);
        }
    }
}

/// Units moved by `n`.
pub open spec fn shift_units(u: Seq<(int, int)>, n: int) -> Seq<(int, int)> {
    u.map_values(|t: (int, int)| (t.0 + n, t.1 + n))
}

/// The units scanned in the tail of `p + d` are those of `d`, moved by `p.len()`.
proof fn lemma_units_shift(p: Seq<u8>, d: Seq<u8>, x: int)
    requires
        0 <= x,
    ensures
        h265_units_from(p + d, p.len() + x) == shift_units(h265_units_from(d, x), p.len() as int),
    decreases d.len() - x,
{
    let out = p + d;
    let n = p.len() as int;
    let start = next_sc(d, x);
    lemma_next_sc_shift(p, d, x);
    lemma_next_sc(d, x);
    if start >= d.len() {
        assert(shift_units(h265_units_from(d, x), n) =~= Seq::<(int, int)>::empty());
    } else {
        lemma_next_sc_shift(p, d, start);
        let ns = start + sc_len(d, start);
        if ns + 2 > d.len() {
            assert(shift_units(h265_units_from(d, x), n) =~= Seq::<(int, int)>::empty());
        } else {
            let next_start = next_sc(d, ns);
            lemma_next_sc_shift(p, d, ns);
            lemma_next_sc(d, ns);
            lemma_trim_shift(p, d, ns, next_start);
            let nal_end = trim_trailing_zeros(d, ns, next_start);
            let here: Seq<(int, int)> = if nal_end >= ns + 2 {
                seq![(ns, nal_end)]
            } else {
                Seq::empty()
            };
            let here2: Seq<(int, int)> = if nal_end + n >= ns + n + 2 {
                seq![(ns + n, nal_end + n)]
            } else {
                Seq::empty()
            };
            assert(shift_units(here, n) =~= here2);
            if next_start >= d.len() {
                assert(h265_units_from(out, n + x) == here2);
            } else {
                lemma_units_shift(p, d, next_start);
                assert(h265_units_from(out, n + x) == here2 + h265_units_from(out, n + next_start));
                assert(shift_units(here + h265_units_from(d, next_start), n) =~= shift_units(here, n)
                    + shift_units(h265_units_from(d, next_start), n));
            }
        }
    }
}

/// A unit of type `t` makes the last one of that type exist.
proof fn lemma_last_unit_exists(d: Seq<u8>, units: Seq<(int, int)>, k: int, t: u8)
    requires
        0 <= k < units.len(),
        h265_nal_type(d, units[k].0) == t,
    ensures
        last_unit_of_type(d, units, t) is Some,
    decreases units.len(),
{
    if h265_nal_type(d, units.last().0) != t {
        assert(k < units.len() - 1);
        assert(units.drop_last()[k] == units[k]);
        lemma_last_unit_exists(d, units.drop_last(), k, t);
    }
}

/// Trimming does not go below a non-zero byte.
proof fn lemma_trim_at_least(d: Seq<u8>, lo: int, m: int, hi: int)
    requires
        lo < m <= hi <= d.len(),
        d[m - 1] != 0,
    ensures
        trim_trailing_zeros(d, lo, hi) >= m,
    decreases hi - m,
{
    if hi > m && d[hi - 1] == 0 {
        lemma_trim_at_least(d, lo, m, hi - 1);
    }
}

/// The scan from the first start code is the whole scan.
proof fn lemma_units_from_first(d: Seq<u8>)
    ensures
        h265_units_from(d, next_sc(d, 0)) == h265_units(d),
{
    lemma_next_sc(d, 0);
    let s = next_sc(d, 0);
    if s < d.len() {
        lemma_next_sc_here(d, s);
    }
}

/// An IRAP packet with the cached VPS, SPS and PPS put in front carries all
/// three and is still an IRAP packet.
pub proof fn lemma_h265_bootstrap(vps: Seq<u8>, sps: Seq<u8>, pps: Seq<u8>, d: Seq<u8>)
    requires
        h265_param_ok(vps, 32),
        h265_param_ok(sps, 33),
        h265_param_ok(pps, 34),
        spec_h265_is_keyframe(d),
    ensures
        ({
            let out = start_code4() + vps + start_code4() + sps + start_code4() + pps + d;
            &&& spec_extract_vps_sps_pps(out).0 is Some
            &&& spec_extract_vps_sps_pps(out).1 is Some
            &&& spec_extract_vps_sps_pps(out).2 is Some
            &&& spec_h265_is_keyframe(out)
        }),
{
    let pre = start_code4() + vps + start_code4() + sps + start_code4() + pps;
    let out = pre + d;
    assert(start_code4() + vps + start_code4() + sps + start_code4() + pps + d == out);
    let a: int = 4;
    let p2: int = a + vps.len() as int;
    let b: int = p2 + 4;
    let p3: int = b + sps.len() as int;
    let c: int = p3 + 4;
    let l: int = c + pps.len() as int;
    assert(pre.len() == l);
    assert forall|i: int| 0 <= i < vps.len() implies out[a + i] == vps[i] by {}
    assert forall|i: int| 0 <= i < sps.len() implies out[b + i] == sps[i] by {}
    assert forall|i: int| 0 <= i < pps.len() implies out[c + i] == pps[i] by {}
    assert(out[0] == 0 && out[1] == 0 && out[2] == 0 && out[3] == 1);
    assert(out[p2] == 0 && out[p2 + 1] == 0 && out[p2 + 2] == 0 && out[p2 + 3] == 1);
    assert(out[p3] == 0 && out[p3 + 1] == 0 && out[p3 + 2] == 0 && out[p3 + 3] == 1);
    // the units of `d`
    let du = h265_units(d);
    let k0 = choose|k: int| 0 <= k < du.len() && is_irap_type(h265_nal_type(d, #[trigger] du[k].0));
    lemma_next_sc(d, 0);
    let n0 = next_sc(d, 0);
    assert(n0 < d.len());
    lemma_units_from_first(d);
    // first unit: the VPS
    assert(sc4_at(out, 0));
    lemma_next_sc_here(out, 0);
    lemma_region_nonzero_end(out, a, vps);
    assert(sc4_at(out, p2));
    lemma_next_sc_skip(out, a, p2);
    lemma_next_sc_here(out, p2);
    assert(out[p2 - 1] == vps[vps.len() - 1]);
    assert(trim_trailing_zeros(out, a, p2) == p2);
    assert(h265_units_from(out, 0) == seq![(a, p2)] + h265_units_from(out, p2));
    // second unit: the SPS
    lemma_region_nonzero_end(out, b, sps);
    assert(sc4_at(out, p3));
    lemma_next_sc_skip(out, b, p3);
    lemma_next_sc_here(out, p3);
    assert(out[p3 - 1] == sps[sps.len() - 1]);
    assert(trim_trailing_zeros(out, b, p3) == p3);
    assert(h265_units_from(out, p2) == seq![(b, p3)] + h265_units_from(out, p3));
    // third unit: the PPS, running into the packet
    lemma_region_nonzero_end(out, c, pps);
    lemma_next_sc_skip(out, c, l);
    lemma_next_sc_shift(pre, d, 0);
    let q = l + n0;
    assert(next_sc(out, c) == q);
    assert(out[l - 1] == pps[pps.len() - 1]);
    lemma_trim_at_least(out, c, l, q);
    let e3 = trim_trailing_zeros(out, c, q);
    assert(h265_units_from(out, p3) == seq![(c, e3)] + h265_units_from(out, q));
    lemma_units_shift(pre, d, n0);
    let units = h265_units(out);
    let tail = shift_units(du, l);
    assert(units == seq![(a, p2)] + (seq![(b, p3)] + (seq![(c, e3)] + tail)));
    assert(units[0] == (a, p2));
    assert(units[1] == (b, p3));
    assert(units[2] == (c, e3));
    assert(units[3 + k0] == tail[k0]);
    assert(tail[k0] == (du[k0].0 + l, du[k0].1 + l));
    lemma_h265_unit_props(d, 0);
    assert(h265_units_from(d, 0)[k0] == du[k0]);
    assert(0 <= du[k0].0 < d.len());
    assert(out[du[k0].0 + l] == d[du[k0].0]);
    assert(h265_nal_type(out, units[0].0) == h265_nal_type(vps, 0));
    assert(h265_nal_type(out, units[1].0) == h265_nal_type(sps, 0));
    assert(h265_nal_type(out, units[2].0) == h265_nal_type(pps, 0));
    lemma_last_unit_exists(out, units, 0, 32);
    lemma_last_unit_exists(out, units, 1, 33);
    lemma_last_unit_exists(out, units, 2, 34);
    assert(is_irap_type(h265_nal_type(out, units[3 + k0].0)));
}

fn prepend_parameter_sets(sets: &[&Vec<u8>], data: Vec<u8>) -> (r: Vec<u8>)
    requires
        sets@.len() <= 3,
    ensures
        sets@.len() == 2 ==> r@ == start_code4() + sets@[0]@ + start_code4() + sets@[1]@ + data@,
        sets@.len() == 3 ==> r@ == start_code4() + sets@[0]@ + start_code4() + sets@[1]@
            + start_code4() + sets@[2]@ + data@,
{
    let mut out: Vec<u8> = Vec::new();
    let mut k: usize = 0;
    let ghost mut acc: Seq<u8> = Seq::empty();
    while k < sets.len()
        invariant
            k <= sets@.len() <= 3,
            out@ == acc,
            k == 0 ==> acc == Seq::<u8>::empty(),
            k == 1 ==> acc == start_code4() + sets@[0]@,
            k == 2 ==> acc == start_code4() + sets@[0]@ + start_code4() + sets@[1]@,
            k == 3 ==> acc == start_code4() + sets@[0]@ + start_code4() + sets@[1]@ + start_code4()
                + sets@[2]@,
        decreases sets.len() - k,
    {
        let ghost before = out@;
        out.push(0);
        out.push(0);
        out.push(0);
        out.push(1);
        out.extend_from_slice(sets[k].as_slice());
        proof {
            acc = before + start_code4() + sets@[k as int]@;
            assert(out@ =~= acc);
        }
        k = k + 1;
    }
    let ghost before = out@;
    let mut tail = data;
    let ghost t0 = tail@;
    out.append(&mut tail);
    assert(out@ =~= before + t0);
    out
}

impl ParameterSetCache {
    /// Decides whether an encoded packet can start a decoder, caching the
    /// parameter sets it carries.
    ///
    /// H.264 packets are first brought into Annex-B form. A packet is a
    /// keyframe only when the encoder flagged it and it holds an IDR (H.264)
    /// or IRAP (H.265) unit; such a packet that lacks parameter sets gets the
    /// cached ones put in front, and without them it is no keyframe. VP8 and
    /// VP9 packets pass through with the encoder's flag.
    pub fn inspect_and_parameterize_packet(
        &mut self,
        codec: VideoEncoderType,
        data: Vec<u8>,
        ffmpeg_keyframe: bool,
    ) -> (r: (Vec<u8>, bool))
        ensures
            codec == VideoEncoderType::H264 ==> ({
                let o = spec_h264_packet(
                    old(self).h264_sps(),
                    old(self).h264_pps(),
                    data@,
                    ffmpeg_keyframe,
                );
                &&& r.0@ == o.0
                &&& r.1 == o.1
                &&& final(self).h264_sps() == o.2
                &&& final(self).h264_pps() == o.3
                &&& final(self).h265_vps() == old(self).h265_vps()
                &&& final(self).h265_sps() == old(self).h265_sps()
                &&& final(self).h265_pps() == old(self).h265_pps()
            }),
            codec == VideoEncoderType::H265 ==> ({
                let o = spec_h265_packet(
                    old(self).h265_vps(),
                    old(self).h265_sps(),
                    old(self).h265_pps(),
                    data@,
                    ffmpeg_keyframe,
                );
                &&& r.0@ == o.0
                &&& r.1 == o.1
                &&& final(self).h265_vps() == o.2
                &&& final(self).h265_sps() == o.3
                &&& final(self).h265_pps() == o.4
                &&& final(self).h264_sps() == old(self).h264_sps()
                &&& final(self).h264_pps() == old(self).h264_pps()
            }),
            codec == VideoEncoderType::H264 && r.1 ==> {
                &&& has_nal_type(r.0@, h264_nals(r.0@), 7)
                &&& has_nal_type(r.0@, h264_nals(r.0@), 8)
                &&& spec_h264_is_keyframe(r.0@)
            },
            codec == VideoEncoderType::H265 && r.1 ==> {
                &&& spec_extract_vps_sps_pps(r.0@).0 is Some
                &&& spec_extract_vps_sps_pps(r.0@).1 is Some
                &&& spec_extract_vps_sps_pps(r.0@).2 is Some
                &&& spec_h265_is_keyframe(r.0@)
            },
            (codec == VideoEncoderType::VP8 || codec == VideoEncoderType::VP9) ==> {
                &&& r.0@ == data@
                &&& r.1 == ffmpeg_keyframe
                &&& final(self).h264_sps() == old(self).h264_sps()
                &&& final(self).h264_pps() == old(self).h264_pps()
                &&& final(self).h265_vps() == old(self).h265_vps()
                &&& final(self).h265_sps() == old(self).h265_sps()
                &&& final(self).h265_pps() == old(self).h265_pps()
            },
    {
        proof {
            use_type_invariant(&*self);
        }
        match codec {
            VideoEncoderType::H264 => {
                let data = normalize_annex_b(data);
                let (sps, pps) = extract_sps_pps(data.as_slice());
                proof {
                    lemma_h264_extracted_ok(data@, 7);
                    lemma_h264_extracted_ok(data@, 8);
                }
                let is_idr = ffmpeg_keyframe && h264_is_keyframe(data.as_slice());
                match &sps {
                    Some(v) => {
                        self.h264_sps = Some(copy_bytes(v.as_slice()));
                    },
                    None => {},
                }
                match &pps {
                    Some(v) => {
                        self.h264_pps = Some(copy_bytes(v.as_slice()));
                    },
                    None => {},
                }
                if !is_idr {
                    return (data, false);
                }
                if sps.is_some() && pps.is_some() {
                    proof {
                        lemma_last_nal_is_unit(data@, h264_nals(data@), 7);
                        lemma_last_nal_is_unit(data@, h264_nals(data@), 8);
                    }
                    return (data, true);
                }
                proof {
                    use_type_invariant(&*self);
                }
                match (&self.h264_sps, &self.h264_pps) {
                    (Some(cached_sps), Some(cached_pps)) => {
                        proof {
                            lemma_h264_bootstrap(cached_sps@, cached_pps@, data@);
                        }
                        let sets = [cached_sps, cached_pps];
                        let out = prepend_parameter_sets(&sets, data);
                        (out, true)
                    },
                    _ => (data, false),
                }
            },
            VideoEncoderType::H265 => {
                let (vps, sps, pps) = extract_vps_sps_pps(data.as_slice());
                proof {
                    lemma_h265_extracted_ok(data@, 32);
                    lemma_h265_extracted_ok(data@, 33);
                    lemma_h265_extracted_ok(data@, 34);
                }
                let is_irap = ffmpeg_keyframe && h265_is_keyframe(data.as_slice());
                match &vps {
                    Some(v) => {
                        self.h265_vps = Some(copy_bytes(v.as_slice()));
                    },
                    None => {},
                }
                match &sps {
                    Some(v) => {
                        self.h265_sps = Some(copy_bytes(v.as_slice()));
                    },
                    None => {},
                }
                match &pps {
                    Some(v) => {
                        self.h265_pps = Some(copy_bytes(v.as_slice()));
                    },
                    None => {},
                }
                if !is_irap {
                    return (data, false);
                }
                if vps.is_some() && sps.is_some() && pps.is_some() {
                    return (data, true);
                }
                proof {
                    use_type_invariant(&*self);
                }
                match (&self.h265_vps, &self.h265_sps, &self.h265_pps) {
                    (Some(cached_vps), Some(cached_sps), Some(cached_pps)) => {
                        proof {
                            lemma_h265_bootstrap(cached_vps@, cached_sps@, cached_pps@, data@);
                        }
                        let sets = [cached_vps, cached_sps, cached_pps];
                        let out = prepend_parameter_sets(&sets, data);
                        (out, true)
                    },
                    _ => (data, false),
                }
            },
            _ => (data, ffmpeg_keyframe),
        }
    }
}

} // verus!
