//! Frames produced by the MJPEG decoder and their packed layouts, plus the
//! decoder's own bookkeeping.
use vstd::prelude::*;
use crate::format::Resolution;
use crate::planes::{
    append_rows, lemma_packed_rows_contiguous, lemma_packed_rows_index, lemma_packed_rows_len,
    packed_rows, rows_fit, splice, write_at,
};
use crate::text::string_of;

verus! {

/// MJPEG decoder configuration.
#[derive(Debug, Clone, Copy)]
pub struct MjpegVaapiDecoderConfig {
    /// Expected resolution (can be updated from decoded frame)
    pub resolution: Resolution,
    /// Use hardware acceleration (ignored, kept for API compatibility)
    pub use_hwaccel: bool,
}

impl Default for MjpegVaapiDecoderConfig {
    fn default() -> (r: MjpegVaapiDecoderConfig)
        ensures
            r.resolution.width == 1920 && r.resolution.height == 1080,
            r.use_hwaccel,
    {
        MjpegVaapiDecoderConfig { resolution: Resolution::HD1080(), use_hwaccel: true }
    }
}

/// Decoded frame data in NV12 format.
#[derive(Debug, Clone)]
pub struct DecodedNv12Frame {
    /// Y plane data
    pub y_plane: Vec<u8>,
    /// UV interleaved plane data
    pub uv_plane: Vec<u8>,
    /// Y plane linesize (stride)
    pub y_linesize: i32,
    /// UV plane linesize (stride)
    pub uv_linesize: i32,
    /// Frame width
    pub width: i32,
    /// Frame height
    pub height: i32,
}

/// Decoded frame data in YUV420P (I420) format.
#[derive(Debug, Clone)]
pub struct DecodedYuv420pFrame {
    /// Y plane data
    pub y_plane: Vec<u8>,
    /// U plane data
    pub u_plane: Vec<u8>,
    /// V plane data
    pub v_plane: Vec<u8>,
    /// Y plane linesize (stride)
    pub y_linesize: i32,
    /// U plane linesize (stride)
    pub u_linesize: i32,
    /// V plane linesize (stride)
    pub v_linesize: i32,
    /// Frame width
    pub width: i32,
    /// Frame height
    pub height: i32,
}

/// One plane in packed form: the first `fast_len` bytes when its linesize is
/// the row width, otherwise its rows gathered one by one.
pub open spec fn packed_plane(plane: Seq<u8>, linesize: int, rb: int, rows: int, fast_len: int) -> Seq<
    u8,
> {
    if linesize == rb {
        plane.subrange(0, fast_len)
    } else {
        packed_rows(plane, linesize, rb, rows)
    }
}

/// A plane can be packed without reading past its end.
pub open spec fn plane_ok(plane_len: int, linesize: int, rb: int, rows: int, fast_len: int) -> bool {
    &&& 0 <= linesize
    &&& if linesize == rb {
        fast_len <= plane_len
    } else {
        rows_fit(plane_len, linesize, rb, rows)
    }
}

/// The Y, U and V parts of a packed YUV420P frame.
pub open spec fn yuv420p_parts(f: DecodedYuv420pFrame) -> (Seq<u8>, Seq<u8>, Seq<u8>) {
    let w = f.width as int;
    let h = f.height as int;
    (
        packed_plane(f.y_plane@, f.y_linesize as int, w, h, w * h),
        packed_plane(f.u_plane@, f.u_linesize as int, w / 2, h / 2, w * h / 4),
        packed_plane(f.v_plane@, f.v_linesize as int, w / 2, h / 2, w * h / 4),
    )
}

/// The frame's sizes are non-negative and every plane holds its rows.
pub open spec fn yuv420p_frame_ok(f: DecodedYuv420pFrame) -> bool {
    let w = f.width as int;
    let h = f.height as int;
    &&& 0 <= w
    &&& 0 <= h
    &&& w * h + 2 * (w * h / 4) <= usize::MAX
    &&& plane_ok(f.y_plane@.len() as int, f.y_linesize as int, w, h, w * h)
    &&& plane_ok(f.u_plane@.len() as int, f.u_linesize as int, w / 2, h / 2, w * h / 4)
    &&& plane_ok(f.v_plane@.len() as int, f.v_linesize as int, w / 2, h / 2, w * h / 4)
}

/// The Y and UV parts of a packed NV12 frame.
pub open spec fn nv12_parts(f: DecodedNv12Frame) -> (Seq<u8>, Seq<u8>) {
    let w = f.width as int;
    let h = f.height as int;
    (
        packed_plane(f.y_plane@, f.y_linesize as int, w, h, w * h),
        packed_plane(f.uv_plane@, f.uv_linesize as int, w, h / 2, w * h / 2),
    )
}

/// The frame's sizes are non-negative and both planes hold their rows.
pub open spec fn nv12_frame_ok(f: DecodedNv12Frame) -> bool {
    let w = f.width as int;
    let h = f.height as int;
    &&& 0 <= w
    &&& 0 <= h
    &&& w * h + w * h / 2 <= usize::MAX
    &&& plane_ok(f.y_plane@.len() as int, f.y_linesize as int, w, h, w * h)
    &&& plane_ok(f.uv_plane@.len() as int, f.uv_linesize as int, w, h / 2, w * h / 2)
}

/// Byte `j` of luma row `row` of `packed` is byte `j` of that row in the
/// frame's Y plane.
pub open spec fn luma_byte_packed(f: DecodedYuv420pFrame, packed: Seq<u8>, row: int, j: int) -> bool {
    let p = row * f.y_linesize + j;
    &&& 0 <= p < f.y_plane@.len()
    &&& 0 <= row * f.width + j < packed.len()
    &&& packed[row * f.width + j] == f.y_plane@[p]
}

/// Byte `j` of row `r` of a packed plane is byte `j` of that row in the
/// plane, when the plane's fast form holds all its rows.
proof fn lemma_packed_plane_index(plane: Seq<u8>, linesize: int, rb: int, rows: int, fast_len: int, r: int, j: int)
    requires
        0 <= rb,
        plane_ok(plane.len() as int, linesize, rb, rows, fast_len),
        fast_len == rows * rb,
        0 <= r < rows,
        0 <= j < rb,
    ensures
        0 <= r * linesize + j < plane.len(),
        0 <= r * rb + j < packed_plane(plane, linesize, rb, rows, fast_len).len(),
        packed_plane(plane, linesize, rb, rows, fast_len)[r * rb + j] == plane[r * linesize + j],
{
    if linesize == rb {
        assert(0 <= r * rb && r * rb + rb <= rows * rb) by (nonlinear_arith)
            requires
                0 <= r < rows,
                0 <= rb,
        ;
    } else {
        lemma_packed_rows_index(plane, linesize, rb, rows, r, j);
    }
}

proof fn lemma_packed_plane_len(plane: Seq<u8>, linesize: int, rb: int, rows: int, fast_len: int)
    requires
        0 <= rb,
        0 <= rows,
        0 <= fast_len,
        plane_ok(plane.len() as int, linesize, rb, rows, fast_len),
    ensures
        packed_plane(plane, linesize, rb, rows, fast_len).len() == if linesize == rb {
            fast_len
        } else {
            rows * rb
        },
{
    if linesize != rb {
        lemma_packed_rows_len(plane, linesize, rb, rows);
        if rows == 0 {
            assert(rows * rb == 0) by (nonlinear_arith)
                requires
                    rows == 0,
            ;
        }
    }
}

/// Appends one plane in packed form.
fn append_plane(
    out: &mut Vec<u8>,
    plane: &Vec<u8>,
    linesize: usize,
    rb: usize,
    rows: usize,
    fast_len: usize,
)
    requires
        plane_ok(plane@.len() as int, linesize as int, rb as int, rows as int, fast_len as int),
    ensures
        final(out)@ == old(out)@ + packed_plane(
            plane@,
            linesize as int,
            rb as int,
            rows as int,
            fast_len as int,
        ),
{
    if linesize == rb {
        out.extend_from_slice(&plane.as_slice()[0..fast_len]);
    } else {
        append_rows(out, plane.as_slice(), linesize, rb, rows);
    }
}

/// Writes one plane in packed form into `dst` from `off` on.
fn write_plane(
    dst: &mut [u8],
    off: usize,
    plane: &Vec<u8>,
    linesize: usize,
    rb: usize,
    rows: usize,
    fast_len: usize,
)
    requires
        plane_ok(plane@.len() as int, linesize as int, rb as int, rows as int, fast_len as int),
        off + packed_plane(plane@, linesize as int, rb as int, rows as int, fast_len as int).len()
            <= old(dst)@.len(),
    ensures
        final(dst)@ == splice(
            old(dst)@,
            off as int,
            packed_plane(plane@, linesize as int, rb as int, rows as int, fast_len as int),
        ),
{
    let mut packed: Vec<u8> = Vec::new();
    append_plane(&mut packed, plane, linesize, rb, rows, fast_len);
    assert(packed@ =~= packed_plane(
        plane@,
        linesize as int,
        rb as int,
        rows as int,
        fast_len as int,
    ));
    write_at(dst, off, packed.as_slice());
}

impl DecodedYuv420pFrame {
    /// The frame as packed YUV420P: the Y plane, then U, then V, each with
    /// its row padding removed.
    pub fn to_packed_yuv420p(&self) -> (r: Vec<u8>)
        requires
            yuv420p_frame_ok(*self),
        ensures
            r@ == yuv420p_parts(*self).0 + yuv420p_parts(*self).1 + yuv420p_parts(*self).2,
            forall|row: int, j: int|
                0 <= row < self.height && 0 <= j < self.width ==> #[trigger] luma_byte_packed(
                    *self,
                    r@,
                    row,
                    j,
                ),
    {
        proof {
            let w = self.width as int;
            let h = self.height as int;
            assert forall|row: int, j: int| 0 <= row < h && 0 <= j < w implies #[trigger] luma_byte_packed(
                *self,
                yuv420p_parts(*self).0 + yuv420p_parts(*self).1 + yuv420p_parts(*self).2,
                row,
                j,
            ) by {
                assert(w * h == h * w) by (nonlinear_arith);
                lemma_packed_plane_index(self.y_plane@, self.y_linesize as int, w, h, w * h, row, j);
            }
        }
        let width = self.width as usize;
        let height = self.height as usize;
        proof {
            assert(0 <= width * height / 4 <= width * height) by (nonlinear_arith)
                requires
                    0 <= width,
                    0 <= height,
            ;
        }
        let y_size = width * height;
        let uv_size = width * height / 4;
        let mut packed: Vec<u8> = Vec::new();
        append_plane(&mut packed, &self.y_plane, self.y_linesize as usize, width, height, y_size);
        append_plane(
            &mut packed,
            &self.u_plane,
            self.u_linesize as usize,
            width / 2,
            height / 2,
            uv_size,
        );
        append_plane(
            &mut packed,
            &self.v_plane,
            self.v_linesize as usize,
            width / 2,
            height / 2,
            uv_size,
        );
        proof {
            let c = yuv420p_parts(*self).0 + yuv420p_parts(*self).1 + yuv420p_parts(*self).2;
            assert(packed@ == c);
            assert forall|row: int, j: int|
                0 <= row < self.height && 0 <= j < self.width implies #[trigger] luma_byte_packed(
                *self,
                packed@,
                row,
                j,
            ) by {
                assert(luma_byte_packed(*self, c, row, j));
            }
        }
        packed
    }

    /// Writes the packed YUV420P frame into `dst`: `None`, with `dst`
    /// untouched, when `dst` is shorter than a full frame (Y plus two
    /// quarter-size chroma planes); otherwise the number of bytes of a full
    /// frame. The U part starts after the Y plane and the V part a quarter
    /// plane later.
    pub fn copy_to_packed_yuv420p(&self, dst: &mut [u8]) -> (r: Option<usize>)
        requires
            yuv420p_frame_ok(*self),
        ensures
            ({
                let w = self.width as int;
                let h = self.height as int;
                let total = w * h + 2 * (w * h / 4);
                let (y, u, v) = yuv420p_parts(*self);
                if old(dst)@.len() < total {
                    r is None && final(dst)@ == old(dst)@
                } else {
                    r == Some(total as usize) && final(dst)@ == splice(
                        splice(splice(old(dst)@, 0, y), w * h, u),
                        w * h + w * h / 4,
                        v,
                    )
                }
            }),
            ({
                let w = self.width as int;
                let h = self.height as int;
                let total = w * h + 2 * (w * h / 4);
                let (y, u, v) = yuv420p_parts(*self);
                w % 2 == 0 && h % 2 == 0 && old(dst)@.len() >= total ==> {
                    &&& (y + u + v).len() == total
                    &&& final(dst)@ == (y + u + v) + old(dst)@.skip(total)
                }
            }),
    {
        let width = self.width as usize;
        let height = self.height as usize;
        proof {
            assert(0 <= width * height / 4 <= width * height) by (nonlinear_arith)
                requires
                    0 <= width,
                    0 <= height,
            ;
            assert((height / 2) * (width / 2) <= width * height / 4) by (nonlinear_arith)
                requires
                    0 <= width,
                    0 <= height,
            ;
            lemma_packed_plane_len(
                self.y_plane@,
                self.y_linesize as int,
                width as int,
                height as int,
                (width * height) as int,
            );
            lemma_packed_plane_len(
                self.u_plane@,
                self.u_linesize as int,
                (width / 2) as int,
                (height / 2) as int,
                (width * height / 4) as int,
            );
            lemma_packed_plane_len(
                self.v_plane@,
                self.v_linesize as int,
                (width / 2) as int,
                (height / 2) as int,
                (width * height / 4) as int,
            );
            assert(height * width == width * height) by (nonlinear_arith);
        }
        let y_size = width * height;
        let uv_size = width * height / 4;
        let total_size = y_size + uv_size * 2;
        if dst.len() < total_size {
            return None;
        }
        write_plane(dst, 0, &self.y_plane, self.y_linesize as usize, width, height, y_size);
        write_plane(
            dst,
            y_size,
            &self.u_plane,
            self.u_linesize as usize,
            width / 2,
            height / 2,
            uv_size,
        );
        write_plane(
            dst,
            y_size + uv_size,
            &self.v_plane,
            self.v_linesize as usize,
            width / 2,
            height / 2,
            uv_size,
        );
        proof {
            if self.width % 2 == 0 && self.height % 2 == 0 {
                lemma_copy_matches_packed_yuv420p(*self, old(dst)@);
            }
        }
        Some(total_size)
    }
}

/// Of a frame with even sides, copying into a caller's buffer of at least
/// the packed size writes the packed frame at its start and leaves the rest
/// of the buffer as it was; the packed frame is `w*h + 2*(w*h/4)` bytes.
pub proof fn lemma_copy_matches_packed_yuv420p(f: DecodedYuv420pFrame, dst: Seq<u8>)
    requires
        yuv420p_frame_ok(f),
        f.width % 2 == 0,
        f.height % 2 == 0,
        dst.len() >= f.width * f.height + 2 * (f.width * f.height / 4),
    ensures
        ({
            let w = f.width as int;
            let h = f.height as int;
            let total = w * h + 2 * (w * h / 4);
            let (y, u, v) = yuv420p_parts(f);
            &&& (y + u + v).len() == total
            &&& splice(splice(splice(dst, 0, y), w * h, u), w * h + w * h / 4, v) == (y + u + v)
                + dst.skip(total)
        }),
{
    let w = f.width as int;
    let h = f.height as int;
    let (y, u, v) = yuv420p_parts(f);
    assert((h / 2) * (w / 2) == w * h / 4 && 0 <= w * h / 4 && 0 <= w * h) by (nonlinear_arith)
        requires
            w % 2 == 0,
            h % 2 == 0,
            0 <= w,
            0 <= h,
    ;
    assert(0 <= w / 2 && 0 <= h / 2);
    lemma_packed_plane_len(f.y_plane@, f.y_linesize as int, w, h, w * h);
    lemma_packed_plane_len(f.u_plane@, f.u_linesize as int, w / 2, h / 2, w * h / 4);
    lemma_packed_plane_len(f.v_plane@, f.v_linesize as int, w / 2, h / 2, w * h / 4);
    assert(h * w == w * h) by (nonlinear_arith);
    assert(y.len() == w * h);
    assert(u.len() == w * h / 4);
    assert(v.len() == w * h / 4);
    let total = w * h + 2 * (w * h / 4);
    let s1 = splice(dst, 0, y);
    let s2 = splice(s1, w * h, u);
    let s3 = splice(s2, w * h + w * h / 4, v);
    assert(s1 =~= y + dst.skip(w * h));
    assert(s2 =~= y + u + dst.skip(w * h + w * h / 4));
    assert(s3 =~= (y + u + v) + dst.skip(total));
}

impl DecodedNv12Frame {
    /// The frame as packed NV12: the Y plane, then the interleaved UV plane,
    /// each with its row padding removed.
    pub fn to_packed_nv12(&self) -> (r: Vec<u8>)
        requires
            nv12_frame_ok(*self),
        ensures
            r@ == nv12_parts(*self).0 + nv12_parts(*self).1,
    {
        let width = self.width as usize;
        let height = self.height as usize;
        proof {
            assert(0 <= width * height / 2 <= width * height) by (nonlinear_arith)
                requires
                    0 <= width,
                    0 <= height,
            ;
        }
        let y_size = width * height;
        let uv_size = width * height / 2;
        let mut packed: Vec<u8> = Vec::new();
        append_plane(&mut packed, &self.y_plane, self.y_linesize as usize, width, height, y_size);
        append_plane(
            &mut packed,
            &self.uv_plane,
            self.uv_linesize as usize,
            width,
            height / 2,
            uv_size,
        );
        packed
    }

    /// Writes the packed NV12 frame into `dst`: `None`, with `dst` untouched,
    /// when `dst` is shorter than a full frame; otherwise the number of bytes
    /// of a full frame, the UV part starting after the Y plane.
    pub fn copy_to_packed_nv12(&self, dst: &mut [u8]) -> (r: Option<usize>)
        requires
            nv12_frame_ok(*self),
        ensures
            ({
                let w = self.width as int;
                let h = self.height as int;
                let total = w * h + w * h / 2;
                let (y, uv) = nv12_parts(*self);
                if old(dst)@.len() < total {
                    r is None && final(dst)@ == old(dst)@
                } else {
                    r == Some(total as usize) && final(dst)@ == splice(
                        splice(old(dst)@, 0, y),
                        w * h,
                        uv,
                    )
                }
            }),
    {
        let width = self.width as usize;
        let height = self.height as usize;
        proof {
            assert(0 <= width * height / 2 <= width * height) by (nonlinear_arith)
                requires
                    0 <= width,
                    0 <= height,
            ;
            assert((height / 2) * width <= width * height / 2) by (nonlinear_arith)
                requires
                    0 <= width,
                    0 <= height,
            ;
            lemma_packed_plane_len(
                self.y_plane@,
                self.y_linesize as int,
                width as int,
                height as int,
                (width * height) as int,
            );
            lemma_packed_plane_len(
                self.uv_plane@,
                self.uv_linesize as int,
                width as int,
                (height / 2) as int,
                (width * height / 2) as int,
            );
            assert(height * width == width * height) by (nonlinear_arith);
        }
        let y_size = width * height;
        let uv_size = width * height / 2;
        let total_size = y_size + uv_size;
        if dst.len() < total_size {
            return None;
        }
        write_plane(dst, 0, &self.y_plane, self.y_linesize as usize, width, height, y_size);
        write_plane(
            dst,
            y_size,
            &self.uv_plane,
            self.uv_linesize as usize,
            width,
            height / 2,
            uv_size,
        );
        Some(total_size)
    }
}

/// MJPEG decoder with NV12 output: the bookkeeping around the decode call.
pub struct MjpegVaapiDecoder {
    config: MjpegVaapiDecoderConfig,
    frame_count: u64,
}

/// Why a buffer is refused before decoding, if it is.
pub open spec fn jpeg_start_error(d: Seq<u8>) -> Option<Seq<char>> {
    if d.len() < 2 {
        Some("JPEG data too small"@)
    } else if d[0] != 0xFF || d[1] != 0xD8 {
        Some("Invalid JPEG signature"@)
    } else {
        None
    }
}

impl MjpegVaapiDecoder {
    pub closed spec fn spec_config(&self) -> MjpegVaapiDecoderConfig {
        self.config
    }

    pub closed spec fn spec_frame_count(&self) -> u64 {
        self.frame_count
    }

    /// A decoder that has decoded nothing yet.
    pub fn new(config: MjpegVaapiDecoderConfig) -> (r: Result<MjpegVaapiDecoder, String>)
        ensures
            r matches Ok(d) && d.spec_config() == config && d.spec_frame_count() == 0,
    {
        Ok(MjpegVaapiDecoder { config, frame_count: 0 })
    }

    /// A decoder for `resolution` asking for hardware acceleration.
    pub fn with_vaapi(resolution: Resolution) -> (r: Result<MjpegVaapiDecoder, String>)
        ensures
            r matches Ok(d) && d.spec_config().resolution == resolution && d.spec_config().use_hwaccel
                && d.spec_frame_count() == 0,
    {
        Self::new(MjpegVaapiDecoderConfig { resolution, use_hwaccel: true })
    }

    /// A decoder for `resolution` without hardware acceleration.
    pub fn with_software(resolution: Resolution) -> (r: Result<MjpegVaapiDecoder, String>)
        ensures
            r matches Ok(d) && d.spec_config().resolution == resolution && !d.spec_config().use_hwaccel
                && d.spec_frame_count() == 0,
    {
        Self::new(MjpegVaapiDecoderConfig { resolution, use_hwaccel: false })
    }

    /// Decoding runs in software: never.
    pub fn is_hwaccel_active(&self) -> (r: bool)
        ensures
            !r,
    {
        false
    }

    /// Frames accepted for decoding so far.
    pub fn frame_count(&self) -> (r: u64)
        ensures
            r == self.spec_frame_count(),
    {
        self.frame_count
    }

    /// The configured resolution.
    pub fn resolution(&self) -> (r: Resolution)
        ensures
            r == self.spec_config().resolution,
    {
        self.config.resolution
    }

    /// The checks made before a buffer is decoded: it must hold at least two
    /// bytes and start with the JPEG start-of-image marker. An accepted
    /// buffer is counted.
    pub fn begin_decode(&mut self, jpeg_data: &[u8]) -> (r: Result<(), String>)
        requires
            old(self).spec_frame_count() < u64::MAX,
        ensures
            match jpeg_start_error(jpeg_data@) {
                Some(msg) => r matches Err(e) && e@ == msg && final(self).spec_frame_count() == old(
                    self,
                ).spec_frame_count(),
                None => r is Ok && final(self).spec_frame_count() == old(self).spec_frame_count() + 1,
            },
            final(self).spec_config() == old(self).spec_config(),
    {
        if jpeg_data.len() < 2 {
            return Err(string_of("JPEG data too small"));
        }
        if jpeg_data[0] != 0xFF || jpeg_data[1] != 0xD8 {
            return Err(string_of("Invalid JPEG signature"));
        }
        self.frame_count = self.frame_count + 1;
        Ok(())
    }
}

/// Splits a packed NV12 buffer of a `width`x`height` frame into its planes,
/// both with the frame width as linesize.
pub fn nv12_frame_from_buffer(nv12: Vec<u8>, width: i32, height: i32) -> (r: DecodedNv12Frame)
    requires
        0 <= width,
        0 <= height,
        width * height <= nv12@.len(),
    ensures
        r.y_plane@ == nv12@.take(width * height),
        r.uv_plane@ == nv12@.skip(width * height),
        r.y_linesize == width && r.uv_linesize == width,
        r.width == width && r.height == height,
{
    let n = nv12.len();
    assert((width as usize) * (height as usize) == width * height);
    let y_size = (width as usize) * (height as usize);
    let mut y_plane: Vec<u8> = Vec::new();
    y_plane.extend_from_slice(&nv12.as_slice()[0..y_size]);
    let mut uv_plane: Vec<u8> = Vec::new();
    uv_plane.extend_from_slice(&nv12.as_slice()[y_size..nv12.len()]);
    assert(y_plane@ =~= nv12@.take(width * height));
    assert(uv_plane@ =~= nv12@.skip(width * height));
    DecodedNv12Frame {
        y_plane,
        uv_plane,
        y_linesize: width,
        uv_linesize: width,
        width,
        height,
    }
}

} // verus!
