//! Removing row padding from captured frames before they reach an encoder
//! that expects tightly packed planes.
use vstd::prelude::*;
use crate::format::{PixelFormat, Resolution, spec_format_name};
use crate::planes::{append_rows, lemma_packed_rows_len, packed_rows, rows_fit, splice, write_at};
use crate::text::{decimal, push_decimal, string_of};
use vstd::string::StringExecFns;

verus! {

/// One copy: (source offset, source stride, destination offset, row bytes, rows).
pub type PlaneCopy = (int, int, int, int, int);

/// Size of the packed frame; 0 for compressed formats.
pub open spec fn compact_size(f: PixelFormat, w: int, h: int) -> int {
    match f {
        PixelFormat::Nv12 | PixelFormat::Yuv420 | PixelFormat::Yvu420 => w * h * 3 / 2,
        PixelFormat::Nv16 | PixelFormat::Yuyv | PixelFormat::Yvyu | PixelFormat::Uyvy => w * h * 2,
        PixelFormat::Nv24 | PixelFormat::Rgb24 | PixelFormat::Bgr24 => w * h * 3,
        PixelFormat::Rgb565 => w * h * 2,
        PixelFormat::Grey => w * h,
        PixelFormat::Mjpeg | PixelFormat::Jpeg => 0,
    }
}

/// The bytes a strided frame must have for its planes to be read.
pub open spec fn compact_required_len(f: PixelFormat, w: int, h: int, s: int) -> int {
    match f {
        PixelFormat::Nv12 => s * h + s * h / 2,
        PixelFormat::Yuv420 | PixelFormat::Yvu420 => s * h + (s / 2) * h / 2 * 2,
        PixelFormat::Nv16 => s * h + s * h,
        PixelFormat::Nv24 => s * h + s * 2 * h,
        _ => s * h,
    }
}

/// The row copies that pack each plane.
pub open spec fn compact_copies(f: PixelFormat, w: int, h: int, s: int) -> Seq<PlaneCopy> {
    match f {
        PixelFormat::Nv12 => seq![(0, s, 0, w, h), (s * h, s, w * h, w, h / 2)],
        PixelFormat::Yuv420 | PixelFormat::Yvu420 => {
            let cs = s / 2;
            let csz = cs * h / 2;
            let dcs = w / 2;
            let dsz = dcs * h / 2;
            seq![
                (0, s, 0, w, h),
                (s * h, cs, w * h, dcs, h / 2),
                (s * h + csz, cs, w * h + dsz, dcs, h / 2),
            ]
        },
        PixelFormat::Nv16 => seq![(0, s, 0, w, h), (s * h, s, w * h, w, h)],
        PixelFormat::Nv24 => seq![(0, s, 0, w, h), (s * h, s * 2, w * h, w * 2, h)],
        PixelFormat::Yuyv | PixelFormat::Yvyu | PixelFormat::Uyvy | PixelFormat::Rgb565 => seq![
            (0, s, 0, w * 2, h),
        ],
        PixelFormat::Rgb24 | PixelFormat::Bgr24 => seq![(0, s, 0, w * 3, h)],
        PixelFormat::Grey => seq![(0, s, 0, w, h)],
        PixelFormat::Mjpeg | PixelFormat::Jpeg => Seq::empty(),
    }
}

/// The rows a copy takes from `data`.
pub open spec fn copy_rows_of(data: Seq<u8>, c: PlaneCopy) -> Seq<u8> {
    packed_rows(data.skip(c.0), c.1, c.3, c.4)
}

/// The copies applied in order over `base`.
pub open spec fn apply_copies(base: Seq<u8>, data: Seq<u8>, copies: Seq<PlaneCopy>) -> Seq<u8>
    decreases copies.len(),
{
    if copies.len() == 0 {
        base
    } else {
        let c = copies.last();
        splice(apply_copies(base, data, copies.drop_last()), c.2, copy_rows_of(data, c))
    }
}

/// Every copy reads inside the data and writes inside the packed frame.
pub open spec fn copy_fits(c: PlaneCopy, data_len: int, out_len: int) -> bool {
    &&& 0 <= c.0 <= data_len
    &&& 0 <= c.1
    &&& 0 <= c.2
    &&& 0 <= c.3
    &&& 0 <= c.4
    &&& rows_fit(data_len - c.0, c.1, c.3, c.4)
    &&& c.2 + c.4 * c.3 <= out_len
}

/// The message for a frame too short for its stride.
pub open spec fn too_small_message(f: PixelFormat, len: nat, required: nat, stride: nat) -> Seq<char> {
    spec_format_name(f) + " frame too small for stride compaction: "@ + decimal(len) + " < "@
        + decimal(required) + " (stride="@ + decimal(stride) + ")"@
}

/// What compaction yields: `Ok(None)` when nothing needs doing (an empty
/// size, a zero stride, a compressed format, or data already of packed
/// size), an error when the data is shorter than its stride implies,
/// otherwise the packed frame, whose bytes outside the copied rows are zero.
pub open spec fn spec_compact(f: PixelFormat, w: int, h: int, s: int, data: Seq<u8>) -> Result<
    Option<Seq<u8>>,
    Seq<char>,
> {
    let cs = compact_size(f, w, h);
    let required = compact_required_len(f, w, h, s);
    if w == 0 || h == 0 || s == 0 || f == PixelFormat::Mjpeg || f == PixelFormat::Jpeg {
        Ok(None)
    } else if data.len() == cs {
        Ok(None)
    } else if data.len() < required {
        Err(too_small_message(f, data.len(), required as nat, s as nat))
    } else {
        Ok(Some(apply_copies(Seq::new(cs as nat, |i: int| 0u8), data, compact_copies(f, w, h, s))))
    }
}

/// The rows stay inside the data whenever the data has the length its
/// stride implies.
pub open spec fn compact_reads_fit(f: PixelFormat, w: int, h: int, s: int, len: int) -> bool {
    len >= compact_required_len(f, w, h, s) ==> forall|k: int|
        0 <= k < compact_copies(f, w, h, s).len() ==> {
            let c = #[trigger] compact_copies(f, w, h, s)[k];
            c.0 <= len && rows_fit(len - c.0, c.1, c.3, c.4)
        }
}

fn zeros(n: usize) -> (r: Vec<u8>)
    ensures
        r@ == Seq::new(n as nat, |i: int| 0u8),
{
    let mut v: Vec<u8> = Vec::new();
    let mut i: usize = 0;
    while i < n
        invariant
            i <= n,
            v@ == Seq::new(i as nat, |j: int| 0u8),
        decreases n - i,
    {
        v.push(0);
        i = i + 1;
        assert(v@ =~= Seq::new(i as nat, |j: int| 0u8));
    }
    v
}

/// Copies the rows of one plane into their packed place in `out`.
fn copy_plane(
    out: &mut Vec<u8>,
    data: &[u8],
    src_off: usize,
    src_stride: usize,
    dst_off: usize,
    rb: usize,
    rows: usize,
)
    requires
        copy_fits(
            (src_off as int, src_stride as int, dst_off as int, rb as int, rows as int),
            data@.len() as int,
            old(out)@.len() as int,
        ),
    ensures
        final(out)@ == splice(
            old(out)@,
            dst_off as int,
            copy_rows_of(
                data@,
                (src_off as int, src_stride as int, dst_off as int, rb as int, rows as int),
            ),
        ),
        final(out)@.len() == old(out)@.len(),
{
    let n = data.len();
    let src = &data[src_off..n];
    assert(src@ =~= data@.skip(src_off as int));
    let mut packed: Vec<u8> = Vec::new();
    append_rows(&mut packed, src, src_stride, rb, rows);
    proof {
        lemma_packed_rows_len(src@, src_stride as int, rb as int, rows as int);
        if rows == 0 {
            assert(rows * rb == 0) by (nonlinear_arith)
                requires
                    rows == 0,
            ;
        }
        assert(rows * rb == rb * rows) by (nonlinear_arith);
        assert(packed@ =~= packed_rows(src@, src_stride as int, rb as int, rows as int));
    }
    let slice = out.as_mut_slice();
    write_at(slice, dst_off, packed.as_slice());
}

proof fn lemma_apply_step(base: Seq<u8>, data: Seq<u8>, copies: Seq<PlaneCopy>, k: int)
    requires
        0 <= k < copies.len(),
    ensures
        apply_copies(base, data, copies.take(k + 1)) == splice(
            apply_copies(base, data, copies.take(k)),
            copies[k].2,
            copy_rows_of(data, copies[k]),
        ),
{
    assert(copies.take(k + 1).drop_last() =~= copies.take(k));
    assert(copies.take(k + 1).last() == copies[k]);
}

/// The copies of every format write inside the packed frame.
proof fn lemma_copies_write_fit(f: PixelFormat, w: int, h: int, s: int)
    requires
        0 <= w,
        0 <= h,
        0 <= s,
    ensures
        forall|k: int|
            0 <= k < compact_copies(f, w, h, s).len() ==> {
                let c = #[trigger] compact_copies(f, w, h, s)[k];
                &&& 0 <= c.0
                &&& 0 <= c.1
                &&& 0 <= c.2
                &&& 0 <= c.3
                &&& 0 <= c.4
                &&& c.2 + c.4 * c.3 <= compact_size(f, w, h)
            },
{
    assert(0 <= w * h && 0 <= s * h && 0 <= (s / 2) * h / 2 && 0 <= (w / 2) * h / 2)
        by (nonlinear_arith)
        requires
            0 <= w,
            0 <= h,
            0 <= s,
    ;
    assert(h * w <= w * h * 3 / 2) by (nonlinear_arith)
        requires
            0 <= w,
            0 <= h,
    ;
    assert(w * h + (h / 2) * w <= w * h * 3 / 2) by (nonlinear_arith)
        requires
            0 <= w,
            0 <= h,
    ;
    assert(w * h + (h / 2) * (w / 2) <= w * h * 3 / 2) by (nonlinear_arith)
        requires
            0 <= w,
            0 <= h,
    ;
    assert(w * h + (w / 2) * h / 2 + (h / 2) * (w / 2) <= w * h * 3 / 2) by (nonlinear_arith)
        requires
            0 <= w,
            0 <= h,
    ;
    assert(w * h + h * w <= w * h * 2) by (nonlinear_arith);
    assert(w * h + h * (w * 2) <= w * h * 3) by (nonlinear_arith);
    assert(h * (w * 2) <= w * h * 2) by (nonlinear_arith);
    assert(h * (w * 3) <= w * h * 3) by (nonlinear_arith);
    assert(h * w <= w * h) by (nonlinear_arith);
    assert(0 <= w * 2 && 0 <= w * 3 && 0 <= s * 2);
}

/// Packs a strided uncompressed frame for the encoder: `Ok(None)` when the
/// frame is empty, has no stride, is compressed, or already has its packed
/// size; an error when the data is shorter than its stride implies;
/// otherwise the frame with row padding removed.
pub fn compact_strided_frame_for_encoder(
    format: PixelFormat,
    resolution: Resolution,
    stride: u32,
    data: &[u8],
) -> (r: Result<Option<Vec<u8>>, String>)
    requires
        resolution.width * resolution.height * 3 <= usize::MAX,
        stride * resolution.height * 3 <= usize::MAX,
        compact_reads_fit(
            format,
            resolution.width as int,
            resolution.height as int,
            stride as int,
            data@.len() as int,
        ),
    ensures
        match spec_compact(
            format,
            resolution.width as int,
            resolution.height as int,
            stride as int,
            data@,
        ) {
            Ok(None) => r matches Ok(None),
            Ok(Some(v)) => r matches Ok(Some(out)) && out@ == v,
            Err(msg) => r matches Err(e) && e@ == msg,
        },
{
    let width = resolution.width as usize;
    let height = resolution.height as usize;
    let s = stride as usize;
    let ghost wi = width as int;
    let ghost hi = height as int;
    let ghost si = s as int;
    if width == 0 || height == 0 || s == 0 || format.is_compressed() {
        return Ok(None);
    }
    proof {
        assert(0 <= wi * hi <= wi * hi * 3 && 0 <= si * hi <= si * hi * 3) by (nonlinear_arith)
            requires
                0 <= wi,
                0 <= hi,
                0 <= si,
        ;
        lemma_copies_write_fit(format, wi, hi, si);
    }
    let wh = width * height;
    let sh = s * height;
    let packed_size = match format {
        PixelFormat::Nv12 | PixelFormat::Yuv420 | PixelFormat::Yvu420 => wh * 3 / 2,
        PixelFormat::Nv16 | PixelFormat::Yuyv | PixelFormat::Yvyu | PixelFormat::Uyvy => wh * 2,
        PixelFormat::Nv24 | PixelFormat::Rgb24 | PixelFormat::Bgr24 => wh * 3,
        PixelFormat::Rgb565 => wh * 2,
        PixelFormat::Grey => wh,
        PixelFormat::Mjpeg | PixelFormat::Jpeg => 0,
    };
    assert(packed_size == compact_size(format, wi, hi));
    if data.len() == packed_size {
        return Ok(None);
    }
    proof {
        assert(si * 2 <= si * 2 * hi && si * hi + si * 2 * hi == si * hi * 3) by (nonlinear_arith)
            requires
                0 <= si,
                1 <= hi,
        ;
        assert(0 <= (si / 2) * hi / 2 <= si * hi / 2) by (nonlinear_arith)
            requires
                0 <= si,
                0 <= hi,
        ;
    }
    let required = match format {
        PixelFormat::Nv12 => sh + sh / 2,
        PixelFormat::Yuv420 | PixelFormat::Yvu420 => sh + (s / 2) * height / 2 * 2,
        PixelFormat::Nv16 => sh + sh,
        PixelFormat::Nv24 => sh + s * 2 * height,
        _ => sh,
    };
    assert(required == compact_required_len(format, wi, hi, si)) by {
        assert(si * 2 * hi == 2 * (si * hi)) by (nonlinear_arith);
    }
    if data.len() < required {
        let mut msg = string_of(format.name());
        msg.append(" frame too small for stride compaction: ");
        push_decimal(&mut msg, data.len() as u64);
        msg.append(" < ");
        push_decimal(&mut msg, required as u64);
        msg.append(" (stride=");
        push_decimal(&mut msg, s as u64);
        msg.append(")");
        return Err(msg);
    }
    let mut out = zeros(packed_size);
    let ghost base = out@;
    let ghost copies = compact_copies(format, wi, hi, si);
    let ghost dl = data@.len() as int;
    assert(forall|k: int|
        0 <= k < copies.len() ==> copy_fits(#[trigger] copies[k], dl, packed_size as int));
    assert(copies.take(0) =~= Seq::<PlaneCopy>::empty());
    match format {
        PixelFormat::Nv12 => {
            assert(copy_fits(copies[0], dl, packed_size as int));
            assert(copy_fits(copies[1], dl, packed_size as int));
            copy_plane(&mut out, data, 0, s, 0, width, height);
            proof { lemma_apply_step(base, data@, copies, 0); }
            copy_plane(&mut out, data, sh, s, wh, width, height / 2);
            proof { lemma_apply_step(base, data@, copies, 1); }
            assert(copies.take(2) =~= copies);
        },
        PixelFormat::Yuv420 | PixelFormat::Yvu420 => {
            assert(copy_fits(copies[0], dl, packed_size as int));
            assert(copy_fits(copies[1], dl, packed_size as int));
            assert(copy_fits(copies[2], dl, packed_size as int));
            let cs = s / 2;
            let csz = cs * height / 2;
            let dcs = width / 2;
            let dsz = dcs * height / 2;
            copy_plane(&mut out, data, 0, s, 0, width, height);
            proof { lemma_apply_step(base, data@, copies, 0); }
            copy_plane(&mut out, data, sh, cs, wh, dcs, height / 2);
            proof { lemma_apply_step(base, data@, copies, 1); }
            copy_plane(&mut out, data, sh + csz, cs, wh + dsz, dcs, height / 2);
            proof { lemma_apply_step(base, data@, copies, 2); }
            assert(copies.take(3) =~= copies);
        },
        PixelFormat::Nv16 => {
            assert(copy_fits(copies[0], dl, packed_size as int));
            assert(copy_fits(copies[1], dl, packed_size as int));
            copy_plane(&mut out, data, 0, s, 0, width, height);
            proof { lemma_apply_step(base, data@, copies, 0); }
            copy_plane(&mut out, data, sh, s, wh, width, height);
            proof { lemma_apply_step(base, data@, copies, 1); }
            assert(copies.take(2) =~= copies);
        },
        PixelFormat::Nv24 => {
            assert(copy_fits(copies[0], dl, packed_size as int));
            assert(copy_fits(copies[1], dl, packed_size as int));
            copy_plane(&mut out, data, 0, s, 0, width, height);
            proof { lemma_apply_step(base, data@, copies, 0); }
            copy_plane(&mut out, data, sh, s * 2, wh, width * 2, height);
            proof { lemma_apply_step(base, data@, copies, 1); }
            assert(copies.take(2) =~= copies);
        },
        PixelFormat::Yuyv | PixelFormat::Yvyu | PixelFormat::Uyvy | PixelFormat::Rgb565 => {
            assert(copy_fits(copies[0], dl, packed_size as int));
            copy_plane(&mut out, data, 0, s, 0, width * 2, height);
            proof { lemma_apply_step(base, data@, copies, 0); }
            assert(copies.take(1) =~= copies);
        },
        PixelFormat::Rgb24 | PixelFormat::Bgr24 => {
            assert(copy_fits(copies[0], dl, packed_size as int));
            copy_plane(&mut out, data, 0, s, 0, width * 3, height);
            proof { lemma_apply_step(base, data@, copies, 0); }
            assert(copies.take(1) =~= copies);
        },
        PixelFormat::Grey => {
            assert(copy_fits(copies[0], dl, packed_size as int));
            copy_plane(&mut out, data, 0, s, 0, width, height);
            proof { lemma_apply_step(base, data@, copies, 0); }
            assert(copies.take(1) =~= copies);
        },
        PixelFormat::Mjpeg | PixelFormat::Jpeg => {
            return Ok(None);
        },
    }
    Ok(Some(out))
}

} // verus!
