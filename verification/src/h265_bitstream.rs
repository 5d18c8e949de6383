//! H.265 Annex-B helpers: NAL unit scan, IRAP detection, parameter sets.
use vstd::prelude::*;
use crate::annexb::{
    copy_bytes, find_start_code, lemma_next_sc, next_sc, sc3_at, sc4_at, sc_at, sc_len, start_code_len,
};
use crate::h264_bitstream::opt_bytes;

verus! {

broadcast use vstd::seq_lib::group_seq_properties;

pub const VPS_NAL_TYPE: u8 = 32;

pub const SPS_NAL_TYPE: u8 = 33;

pub const PPS_NAL_TYPE: u8 = 34;

/// `hi` moved down past trailing zero bytes, not below `lo`.
pub open spec fn trim_trailing_zeros(d: Seq<u8>, lo: int, hi: int) -> int
    decreases hi - lo,
{
    if hi > lo && d[hi - 1] == 0 {
        trim_trailing_zeros(d, lo, hi - 1)
    } else {
        hi
    }
}

pub proof fn lemma_trim_bounds(d: Seq<u8>, lo: int, hi: int)
    requires
        lo <= hi,
    ensures
        lo <= trim_trailing_zeros(d, lo, hi) <= hi,
    decreases hi - lo,
{
    if hi > lo && d[hi - 1] == 0 {
        lemma_trim_bounds(d, lo, hi - 1);
    }
}

/// The NAL units visited when scanning from `cursor`, each as (first payload
/// byte, end with trailing zero bytes removed). A unit runs to the next start
/// code searched from its first payload byte; units shorter than the two-byte
/// H.265 header after trimming are skipped; a start code with fewer than two
/// bytes after it ends the scan.
pub open spec fn h265_units_from(d: Seq<u8>, cursor: int) -> Seq<(int, int)>
    decreases d.len() - cursor,
{
    let start = next_sc(d, cursor);
    if cursor < 0 || start >= d.len() {
        Seq::empty()
    } else {
        let ns = start + sc_len(d, start);
        if ns + 2 > d.len() {
            Seq::empty()
        } else {
            let next_start = next_sc(d, ns);
            let nal_end = trim_trailing_zeros(d, ns, next_start);
            let here: Seq<(int, int)> = if nal_end >= ns + 2 {
                seq![(ns, nal_end)]
            } else {
                Seq::empty()
            };
            proof {
                lemma_next_sc(d, cursor);
                lemma_next_sc(d, ns);
            }
            if next_start >= d.len() {
                here
            } else {
                here + h265_units_from(d, next_start)
            }
        }
    }
}

/// All NAL units of the stream.
pub open spec fn h265_units(d: Seq<u8>) -> Seq<(int, int)> {
    h265_units_from(d, 0)
}

/// The H.265 `nal_unit_type` of the unit whose header starts at `ns`.
pub open spec fn h265_nal_type(d: Seq<u8>, ns: int) -> u8 {
    (d[ns] >> 1u8) & 0x3f
}

/// IRAP pictures (types 16..=23) are random-access points.
pub open spec fn is_irap_type(t: u8) -> bool {
    16 <= t && t <= 23
}

/// The stream holds an IRAP NAL unit.
pub open spec fn spec_h265_is_keyframe(d: Seq<u8>) -> bool {
    exists|k: int|
        0 <= k < h265_units(d).len() && is_irap_type(h265_nal_type(d, #[trigger] h265_units(d)[k].0))
}

/// Payload of the last unit of type `t`.
pub open spec fn last_unit_of_type(d: Seq<u8>, units: Seq<(int, int)>, t: u8) -> Option<Seq<u8>>
    decreases units.len(),
{
    if units.len() == 0 {
        None
    } else {
        let (ns, e) = units.last();
        if h265_nal_type(d, ns) == t {
            Some(d.subrange(ns, e))
        } else {
            last_unit_of_type(d, units.drop_last(), t)
        }
    }
}

/// Every listed unit lies in the data with at least its two header bytes.
pub open spec fn units_well_formed(d: Seq<u8>, units: Seq<(int, int)>) -> bool {
    forall|k: int|
        0 <= k < units.len() ==> 0 <= (#[trigger] units[k]).0 && units[k].0 + 2 <= units[k].1
            <= d.len()
}

/// Trimming stops at `lo` or after a non-zero byte.
proof fn lemma_trim_stop(d: Seq<u8>, lo: int, hi: int)
    requires
        lo <= hi,
    ensures
        trim_trailing_zeros(d, lo, hi) == lo || d[trim_trailing_zeros(d, lo, hi) - 1] != 0,
    decreases hi - lo,
{
    if hi > lo && d[hi - 1] == 0 {
        lemma_trim_stop(d, lo, hi - 1);
    }
}

/// What a visited unit `d[ns..e]` looks like: it follows the `00 00 01` that
/// ends its start code, holds at least the two header bytes, ends in a
/// non-zero byte, and holds no `00 00 01` inside.
pub open spec fn h265_unit_shape(d: Seq<u8>, ns: int, e: int) -> bool {
    &&& 3 <= ns
    &&& ns + 2 <= e <= d.len()
    &&& d[e - 1] != 0
    &&& d[ns - 3] == 0 && d[ns - 2] == 0 && d[ns - 1] == 1
    &&& forall|p: int| ns <= p && p + 3 <= e ==> !#[trigger] sc3_at(d, p)
}

proof fn lemma_h265_units_from_shape(d: Seq<u8>, c: int)
    requires
        0 <= c,
    ensures
        forall|k: int|
            0 <= k < h265_units_from(d, c).len() ==> h265_unit_shape(
                d,
                (#[trigger] h265_units_from(d, c)[k]).0,
                h265_units_from(d, c)[k].1,
            ) && h265_units_from(d, c)[k].0 >= c + 3,
        forall|i: int, j: int|
            0 <= i < j < h265_units_from(d, c).len() ==> (#[trigger] h265_units_from(d, c)[i]).0
                < (#[trigger] h265_units_from(d, c)[j]).0,
    decreases d.len() - c,
{
    let units = h265_units_from(d, c);
    let start = next_sc(d, c);
    lemma_next_sc(d, c);
    if start >= d.len() {
    } else {
        let ns = start + sc_len(d, start);
        if ns + 2 > d.len() {
        } else {
            let next_start = next_sc(d, ns);
            lemma_next_sc(d, ns);
            let nal_end = trim_trailing_zeros(d, ns, next_start);
            lemma_trim_bounds(d, ns, next_start);
            lemma_trim_stop(d, ns, next_start);
            let here: Seq<(int, int)> = if nal_end >= ns + 2 {
                seq![(ns, nal_end)]
            } else {
                Seq::empty()
            };
            if nal_end >= ns + 2 {
                assert forall|p: int| ns <= p && p + 3 <= nal_end implies !#[trigger] sc3_at(
                    d,
                    p,
                ) by {
                    assert(!sc_at(d, p));
                }
                assert(h265_unit_shape(d, ns, nal_end));
            }
            if next_start >= d.len() {
                assert(units == here);
            } else {
                lemma_h265_units_from_shape(d, next_start);
                let rest = h265_units_from(d, next_start);
                assert(units == here + rest);
                assert forall|k: int| 0 <= k < units.len() implies h265_unit_shape(
                    d,
                    (#[trigger] units[k]).0,
                    units[k].1,
                ) && units[k].0 >= c + 3 by {
                    if k >= here.len() {
                        assert(units[k] == rest[k - here.len()]);
                    }
                }
                assert forall|i: int, j: int| 0 <= i < j < units.len() implies (
                #[trigger] units[i]).0 < (#[trigger] units[j]).0 by {
                    assert(units[j] == rest[j - here.len()]) by {
                        if here.len() == 1 {
                            assert(j >= 1);
                        }
                    }
                    if i >= here.len() {
                        assert(units[i] == rest[i - here.len()]);
                    }
                }
            }
        }
    }
}

/// The unit walk: every visited unit has the shape of `h265_unit_shape`, the
/// header byte its type is read from is its first byte, units come in the
/// order of the stream, and a stream with no `00 00 01` has none.
pub proof fn lemma_h265_unit_walk(d: Seq<u8>)
    ensures
        forall|k: int|
            0 <= k < h265_units(d).len() ==> h265_unit_shape(
                d,
                (#[trigger] h265_units(d)[k]).0,
                h265_units(d)[k].1,
            ),
        forall|i: int, j: int|
            0 <= i < j < h265_units(d).len() ==> (#[trigger] h265_units(d)[i]).0 < (
            #[trigger] h265_units(d)[j]).0,
        (forall|p: int| !#[trigger] sc3_at(d, p)) ==> h265_units(d).len() == 0,
{
    lemma_h265_units_from_shape(d, 0);
    lemma_next_sc(d, 0);
    if forall|p: int| !#[trigger] sc3_at(d, p) {
        if next_sc(d, 0) < d.len() {
            let s = next_sc(d, 0);
            assert(sc_at(d, s));
            if sc4_at(d, s) {
                assert(sc3_at(d, s + 1));
            } else {
                assert(sc3_at(d, s));
            }
        }
    }
}

/// The units found from `cursor`, returned in order.
fn h265_units_exec(data: &[u8]) -> (r: Vec<(usize, usize)>)
    ensures
        r@.len() == h265_units(data@).len(),
        forall|k: int|
            0 <= k < r@.len() ==> r@[k].0 as int == (#[trigger] h265_units(data@)[k]).0 && r@[k].1
                as int == h265_units(data@)[k].1,
        units_well_formed(data@, h265_units(data@)),
{
    let n = data.len();
    let mut out: Vec<(usize, usize)> = Vec::new();
    let mut cursor: usize = 0;
    let ghost all = h265_units(data@);
    let ghost mut done: Seq<(int, int)> = Seq::empty();
    loop
        invariant_except_break
            n == data@.len(),
            cursor <= n,
            all == h265_units(data@),
            all == done + h265_units_from(data@, cursor as int),
            out@.len() == done.len(),
            forall|k: int|
                0 <= k < out@.len() ==> out@[k].0 as int == (#[trigger] done[k]).0 && out@[k].1
                    as int == done[k].1,
            units_well_formed(data@, done),
        ensures
            all == done,
            out@.len() == done.len(),
            forall|k: int|
                0 <= k < out@.len() ==> out@[k].0 as int == (#[trigger] done[k]).0 && out@[k].1
                    as int == done[k].1,
            units_well_formed(data@, done),
        decreases n - cursor,
    {
        let start = find_start_code(data, cursor);
        proof {
            lemma_next_sc(data@, cursor as int);
        }
        if start >= n {
            assert(done + Seq::<(int, int)>::empty() == done);
            break;
        }
        let ns = start + start_code_len(data, start);
        if ns > n || n - ns < 2 {
            assert(done + Seq::<(int, int)>::empty() == done);
            break;
        }
        let next_start = find_start_code(data, ns);
        proof {
            lemma_next_sc(data@, ns as int);
        }
        let mut nal_end = next_start;
        while nal_end > ns && data[nal_end - 1] == 0
            invariant
                n == data@.len(),
                ns <= nal_end <= next_start <= n,
                trim_trailing_zeros(data@, ns as int, nal_end as int) == trim_trailing_zeros(
                    data@,
                    ns as int,
                    next_start as int,
                ),
            decreases nal_end - ns,
        {
            nal_end = nal_end - 1;
        }
        let ghost here: Seq<(int, int)> = if nal_end >= ns + 2 {
            seq![(ns as int, nal_end as int)]
        } else {
            Seq::empty()
        };
        if nal_end >= ns + 2 {
            out.push((ns, nal_end));
        }
        proof {
            let old_done = done;
            done = done + here;
            assert forall|k: int| 0 <= k < out@.len() implies out@[k].0 as int == (
            #[trigger] done[k]).0 && out@[k].1 as int == done[k].1 by {
                if k < old_done.len() {
                    assert(done[k] == old_done[k]);
                }
            }
            assert forall|k: int| 0 <= k < done.len() implies 0 <= (#[trigger] done[k]).0
                && done[k].0 + 2 <= done[k].1 <= data@.len() by {
                if k < old_done.len() {
                    assert(done[k] == old_done[k]);
                }
            }
        }
        if next_start >= n {
            proof {
                assert(done + Seq::<(int, int)>::empty() == done);
            }
            break;
        }
        proof {
            assert(all == done + h265_units_from(data@, next_start as int));
        }
        cursor = next_start;
    }
    out
}

/// The NAL units of an H.265 stream, in stream order, each as its type and
/// the bounds `(start, end)` of its bytes: a unit follows the `00 00 01` that
/// ends its start code, holds at least its two header bytes, ends in a
/// non-zero byte, holds no `00 00 01`, and its type is read from its first
/// byte. A stream with no `00 00 01` has none.
pub fn nal_units(data: &[u8]) -> (r: Vec<(u8, usize, usize)>)
    ensures
        r@.len() == h265_units(data@).len(),
        forall|k: int|
            0 <= k < r@.len() ==> {
                let (t, s, e) = #[trigger] r@[k];
                &&& s as int == h265_units(data@)[k].0
                &&& e as int == h265_units(data@)[k].1
                &&& h265_unit_shape(data@, s as int, e as int)
                &&& t == h265_nal_type(data@, s as int)
            },
        forall|i: int, j: int| 0 <= i < j < r@.len() ==> (#[trigger] r@[i]).1 < (#[trigger] r@[j]).1,
        (forall|p: int| !#[trigger] sc3_at(data@, p)) ==> r@.len() == 0,
{
    let units = h265_units_exec(data);
    proof {
        lemma_h265_unit_walk(data@);
    }
    let mut out: Vec<(u8, usize, usize)> = Vec::new();
    let mut k: usize = 0;
    while k < units.len()
        invariant
            k <= units@.len(),
            units@.len() == h265_units(data@).len(),
            forall|m: int|
                0 <= m < units@.len() ==> units@[m].0 as int == (#[trigger] h265_units(data@)[m]).0
                    && units@[m].1 as int == h265_units(data@)[m].1,
            units_well_formed(data@, h265_units(data@)),
            forall|m: int|
                0 <= m < h265_units(data@).len() ==> h265_unit_shape(
                    data@,
                    (#[trigger] h265_units(data@)[m]).0,
                    h265_units(data@)[m].1,
                ),
            out@.len() == k,
            forall|m: int|
                0 <= m < k ==> {
                    let (t, s, e) = #[trigger] out@[m];
                    &&& s == units@[m].0
                    &&& e == units@[m].1
                    &&& t == h265_nal_type(data@, s as int)
                },
        decreases units.len() - k,
    {
        let (s, e) = units[k];
        assert(units@[k as int].0 as int == h265_units(data@)[k as int].0);
        assert(s < data@.len());
        let t = (data[s] >> 1u8) & 0x3f;
        out.push((t, s, e));
        k = k + 1;
    }
    proof {
        assert forall|i: int, j: int| 0 <= i < j < out@.len() implies (#[trigger] out@[i]).1 < (
        #[trigger] out@[j]).1 by {
            assert(out@[i].1 == units@[i].0 && out@[j].1 == units@[j].0);
            assert(h265_units(data@)[i].0 < h265_units(data@)[j].0);
        }
        assert forall|m: int| 0 <= m < out@.len() implies {
            let (t, s, e) = #[trigger] out@[m];
            &&& s as int == h265_units(data@)[m].0
            &&& e as int == h265_units(data@)[m].1
            &&& h265_unit_shape(data@, s as int, e as int)
            &&& t == h265_nal_type(data@, s as int)
        } by {
            assert(h265_unit_shape(data@, h265_units(data@)[m].0, h265_units(data@)[m].1));
        }
    }
    out
}

/// Whether the stream holds an IRAP (keyframe) NAL unit.
pub fn is_keyframe(data: &[u8]) -> (r: bool)
    ensures
        r == spec_h265_is_keyframe(data@),
{
    let units = h265_units_exec(data);
    let ghost all = h265_units(data@);
    let mut k: usize = 0;
    while k < units.len()
        invariant
            all == h265_units(data@),
            units@.len() == all.len(),
            forall|j: int|
                0 <= j < units@.len() ==> units@[j].0 as int == (#[trigger] all[j]).0,
            units_well_formed(data@, all),
            k <= units@.len(),
            forall|j: int| 0 <= j < k ==> !is_irap_type(h265_nal_type(data@, #[trigger] all[j].0)),
        decreases units.len() - k,
    {
        let (ns, _e) = units[k];
        assert(all[k as int].0 == ns as int);
        let t = (data[ns] >> 1u8) & 0x3f;
        if 16 <= t && t <= 23 {
            return true;
        }
        k = k + 1;
    }
    false
}

/// Lifts the three optional parameter sets to their contents.
pub open spec fn opt_bytes3(r: (Option<Vec<u8>>, Option<Vec<u8>>, Option<Vec<u8>>)) -> (
    Option<Seq<u8>>,
    Option<Seq<u8>>,
    Option<Seq<u8>>,
) {
    (opt_bytes(r.0), opt_bytes(r.1), opt_bytes(r.2))
}

/// The last VPS, SPS and PPS payloads of the stream.
pub open spec fn spec_extract_vps_sps_pps(d: Seq<u8>) -> (
    Option<Seq<u8>>,
    Option<Seq<u8>>,
    Option<Seq<u8>>,
) {
    (
        last_unit_of_type(d, h265_units(d), VPS_NAL_TYPE),
        last_unit_of_type(d, h265_units(d), SPS_NAL_TYPE),
        last_unit_of_type(d, h265_units(d), PPS_NAL_TYPE),
    )
}

/// Extracts the last VPS, SPS and PPS NAL units (header included, start code and
/// trailing zero bytes removed).
pub fn extract_vps_sps_pps(data: &[u8]) -> (r: (Option<Vec<u8>>, Option<Vec<u8>>, Option<Vec<u8>>))
    ensures
        opt_bytes3(r) == spec_extract_vps_sps_pps(data@),
{
    let units = h265_units_exec(data);
    let ghost all = h265_units(data@);
    let mut vps: Option<Vec<u8>> = None;
    let mut sps: Option<Vec<u8>> = None;
    let mut pps: Option<Vec<u8>> = None;
    let mut k: usize = 0;
    while k < units.len()
        invariant
            all == h265_units(data@),
            units@.len() == all.len(),
            forall|j: int|
                0 <= j < units@.len() ==> units@[j].0 as int == (#[trigger] all[j]).0 && units@[j].1
                    as int == all[j].1,
            units_well_formed(data@, all),
            k <= units@.len(),
            opt_bytes(vps) == last_unit_of_type(data@, all.take(k as int), VPS_NAL_TYPE),
            opt_bytes(sps) == last_unit_of_type(data@, all.take(k as int), SPS_NAL_TYPE),
            opt_bytes(pps) == last_unit_of_type(data@, all.take(k as int), PPS_NAL_TYPE),
        decreases units.len() - k,
    {
        let (ns, e) = units[k];
        assert(all[k as int].0 == ns as int && all[k as int].1 == e as int);
        assert(all.take(k + 1).drop_last() == all.take(k as int));
        assert(all.take(k + 1).last() == all[k as int]);
        let t = (data[ns] >> 1u8) & 0x3f;
        if t == VPS_NAL_TYPE {
            vps = Some(copy_bytes(&data[ns..e]));
        } else if t == SPS_NAL_TYPE {
            sps = Some(copy_bytes(&data[ns..e]));
        } else if t == PPS_NAL_TYPE {
            pps = Some(copy_bytes(&data[ns..e]));
        }
        k = k + 1;
    }
    assert(all.take(k as int) == all);
    (vps, sps, pps)
}

/// Whether the stream carries all three parameter sets.
pub fn has_vps_sps_pps(data: &[u8]) -> (r: bool)
    ensures
        r == (spec_extract_vps_sps_pps(data@).0 is Some && spec_extract_vps_sps_pps(data@).1 is Some
            && spec_extract_vps_sps_pps(data@).2 is Some),
{
    let (vps, sps, pps) = extract_vps_sps_pps(data);
    vps.is_some() && sps.is_some() && pps.is_some()
}

} // verus!
