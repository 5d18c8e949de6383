//! Frame buffers in YUV420P and NV12 layout, and the converters that fill
//! them. The SIMD conversions are libyuv's; the two that libyuv lacks (YVYU
//! and YVU420 input) are written here.
use vstd::prelude::*;
use vstd::string::StringExecFns;
use crate::format::{spec_format_name, spec_frame_size, PixelFormat, Resolution};
use crate::text::decimal;
use crate::text::push_decimal;

verus! {

/// Pixels in a frame of `width` x `height`.
pub open spec fn pixels(width: u32, height: u32) -> int {
    width * height
}

/// The bytes of a YUV420P frame: the luma plane and two quarter-size planes.
pub open spec fn yuv420p_len(width: u32, height: u32) -> int {
    pixels(width, height) + 2 * (pixels(width, height) / 4)
}

/// The bytes of an NV12 frame: the luma plane and a half-size chroma plane.
pub open spec fn nv12_len(width: u32, height: u32) -> int {
    pixels(width, height) + pixels(width, height) / 2
}

/// YUV420P buffer with separate Y, U, V planes
pub struct Yuv420pBuffer {
    data: Vec<u8>,
    width: u32,
    height: u32,
    y_offset: usize,
    u_offset: usize,
    v_offset: usize,
}

impl Yuv420pBuffer {
    /// The bytes of all three planes.
    pub closed spec fn bytes(&self) -> Seq<u8> {
        self.data@
    }

    pub closed spec fn spec_width(&self) -> u32 {
        self.width
    }

    pub closed spec fn spec_height(&self) -> u32 {
        self.height
    }

    /// The planes lie where the dimensions put them.
    pub closed spec fn wf(&self) -> bool {
        let y = pixels(self.width, self.height);
        &&& y <= u32::MAX
        &&& self.y_offset == 0
        &&& self.u_offset == y
        &&& self.v_offset == y + y / 4
        &&& self.data@.len() == yuv420p_len(self.width, self.height)
    }

    /// The same dimensions and plane offsets as `other`.
    pub closed spec fn same_layout(&self, other: Self) -> bool {
        &&& self.width == other.width
        &&& self.height == other.height
        &&& self.y_offset == other.y_offset
        &&& self.u_offset == other.u_offset
        &&& self.v_offset == other.v_offset
    }

    /// The layout is well formed exactly when the buffer has the length that
    /// the dimensions give.
    pub proof fn lemma_wf_by_len(&self, other: Self)
        requires
            other.wf(),
            self.same_layout(other),
            self.bytes().len() == other.bytes().len(),
        ensures
            self.wf(),
    {
    }

    /// A zeroed buffer for `resolution`.
    pub fn new(resolution: Resolution) -> (r: Yuv420pBuffer)
        requires
            pixels(resolution.width, resolution.height) <= u32::MAX,
            yuv420p_len(resolution.width, resolution.height) <= usize::MAX,
        ensures
            r.wf(),
            r.spec_width() == resolution.width,
            r.spec_height() == resolution.height,
            r.bytes().len() == yuv420p_len(resolution.width, resolution.height),
            forall|i: int| 0 <= i < r.bytes().len() ==> #[trigger] r.bytes()[i] == 0,
    {
        let width = resolution.width;
        let height = resolution.height;
        let y_size = (width * height) as usize;
        let uv_size = y_size / 4;
        let total_size = y_size + uv_size * 2;
        let data = vec![0u8; total_size];
        Yuv420pBuffer {
            data,
            width,
            height,
            y_offset: 0,
            u_offset: y_size,
            v_offset: y_size + uv_size,
        }
    }

    /// The raw buffer.
    pub fn as_bytes(&self) -> (r: &[u8])
        ensures
            r@ == self.bytes(),
    {
        self.data.as_slice()
    }

    /// The raw buffer, to write into.
    pub fn as_bytes_mut(&mut self) -> (r: &mut [u8])
        ensures
            r@ == old(self).bytes(),
            final(self).bytes() == final(r)@,
            final(self).same_layout(*old(self)),
    {
        self.data.as_mut_slice()
    }

    /// The luma plane.
    pub fn y_plane(&self) -> (r: &[u8])
        requires
            self.wf(),
        ensures
            r@ == self.bytes().subrange(0, pixels(self.spec_width(), self.spec_height())),
    {
        let (y, _) = self.data.as_slice().split_at(self.u_offset);
        y
    }

    /// The luma plane, to write into.
    pub fn y_plane_mut(&mut self) -> (r: &mut [u8])
        requires
            old(self).wf(),
        ensures
            ({
                let y = pixels(old(self).spec_width(), old(self).spec_height());
                &&& r@ == old(self).bytes().subrange(0, y)
                &&& final(self).bytes() == final(r)@ + old(self).bytes().subrange(
                    y,
                    old(self).bytes().len() as int,
                )
                &&& final(self).same_layout(*old(self))
            }),
    {
        let u_offset = self.u_offset;
        let (y, _) = self.data.as_mut_slice().split_at_mut(u_offset);
        y
    }

    /// The first chroma plane.
    pub fn u_plane(&self) -> (r: &[u8])
        requires
            self.wf(),
        ensures
            ({
                let y = pixels(self.spec_width(), self.spec_height());
                r@ == self.bytes().subrange(y, y + y / 4)
            }),
    {
        let (_, rest) = self.data.as_slice().split_at(self.u_offset);
        let (u, _) = rest.split_at(self.v_offset - self.u_offset);
        u
    }

    /// The first chroma plane, to write into.
    pub fn u_plane_mut(&mut self) -> (r: &mut [u8])
        requires
            old(self).wf(),
        ensures
            ({
                let y = pixels(old(self).spec_width(), old(self).spec_height());
                let b = old(self).bytes();
                &&& r@ == b.subrange(y, y + y / 4)
                &&& final(self).bytes() == b.subrange(0, y) + final(r)@ + b.subrange(
                    y + y / 4,
                    b.len() as int,
                )
                &&& final(self).same_layout(*old(self))
            }),
    {
        let v_offset = self.v_offset;
        let u_offset = self.u_offset;
        let (_, rest) = self.data.as_mut_slice().split_at_mut(u_offset);
        let (u, _) = rest.split_at_mut(v_offset - u_offset);
        u
    }

    /// The second chroma plane.
    pub fn v_plane(&self) -> (r: &[u8])
        requires
            self.wf(),
        ensures
            ({
                let y = pixels(self.spec_width(), self.spec_height());
                r@ == self.bytes().subrange(y + y / 4, self.bytes().len() as int)
            }),
    {
        let (_, v) = self.data.as_slice().split_at(self.v_offset);
        v
    }

    /// The second chroma plane, to write into.
    pub fn v_plane_mut(&mut self) -> (r: &mut [u8])
        requires
            old(self).wf(),
        ensures
            ({
                let y = pixels(old(self).spec_width(), old(self).spec_height());
                let b = old(self).bytes();
                &&& r@ == b.subrange(y + y / 4, b.len() as int)
                &&& final(self).bytes() == b.subrange(0, y + y / 4) + final(r)@
                &&& final(self).same_layout(*old(self))
            }),
    {
        let v_offset = self.v_offset;
        let (_, v) = self.data.as_mut_slice().split_at_mut(v_offset);
        v
    }

    pub fn len(&self) -> (r: usize)
        ensures
            r == self.bytes().len(),
    {
        self.data.len()
    }

    pub fn is_empty(&self) -> (r: bool)
        ensures
            r == (self.bytes().len() == 0),
    {
        self.data.len() == 0
    }

    pub fn resolution(&self) -> (r: Resolution)
        ensures
            r.width == self.spec_width(),
            r.height == self.spec_height(),
    {
        Resolution::new(self.width, self.height)
    }
}

/// NV12 buffer with Y plane and interleaved UV plane
pub struct Nv12Buffer {
    data: Vec<u8>,
    width: u32,
    height: u32,
}

impl Nv12Buffer {
    pub closed spec fn bytes(&self) -> Seq<u8> {
        self.data@
    }

    pub closed spec fn spec_width(&self) -> u32 {
        self.width
    }

    pub closed spec fn spec_height(&self) -> u32 {
        self.height
    }

    /// The luma plane fits in the buffer and its size in `u32`.
    pub closed spec fn wf(&self) -> bool {
        &&& pixels(self.width, self.height) <= u32::MAX
        &&& pixels(self.width, self.height) <= self.data@.len()
    }

    /// A zeroed buffer for `resolution`.
    pub fn new(resolution: Resolution) -> (r: Nv12Buffer)
        requires
            pixels(resolution.width, resolution.height) <= u32::MAX,
            nv12_len(resolution.width, resolution.height) <= usize::MAX,
        ensures
            r.wf(),
            r.spec_width() == resolution.width,
            r.spec_height() == resolution.height,
            r.bytes().len() == nv12_len(resolution.width, resolution.height),
            forall|i: int| 0 <= i < r.bytes().len() ==> #[trigger] r.bytes()[i] == 0,
    {
        let width = resolution.width;
        let height = resolution.height;
        let y_size = (width * height) as usize;
        let uv_size = y_size / 2;
        let total_size = y_size + uv_size;
        Nv12Buffer { data: vec![0u8; total_size], width, height }
    }

    pub fn as_bytes(&self) -> (r: &[u8])
        ensures
            r@ == self.bytes(),
    {
        self.data.as_slice()
    }

    pub fn as_bytes_mut(&mut self) -> (r: &mut [u8])
        ensures
            r@ == old(self).bytes(),
            final(self).bytes() == final(r)@,
            final(self).spec_width() == old(self).spec_width(),
            final(self).spec_height() == old(self).spec_height(),
    {
        self.data.as_mut_slice()
    }

    /// The luma plane.
    pub fn y_plane(&self) -> (r: &[u8])
        requires
            self.wf(),
        ensures
            r@ == self.bytes().subrange(0, pixels(self.spec_width(), self.spec_height())),
    {
        let y_size = (self.width * self.height) as usize;
        let (y, _) = self.data.as_slice().split_at(y_size);
        y
    }

    pub fn y_plane_mut(&mut self) -> (r: &mut [u8])
        requires
            old(self).wf(),
        ensures
            ({
                let y = pixels(old(self).spec_width(), old(self).spec_height());
                let b = old(self).bytes();
                &&& r@ == b.subrange(0, y)
                &&& final(self).bytes() == final(r)@ + b.subrange(y, b.len() as int)
                &&& final(self).spec_width() == old(self).spec_width()
                &&& final(self).spec_height() == old(self).spec_height()
            }),
    {
        let y_size = (self.width * self.height) as usize;
        let (y, _) = self.data.as_mut_slice().split_at_mut(y_size);
        y
    }

    /// The interleaved chroma plane.
    pub fn uv_plane(&self) -> (r: &[u8])
        requires
            self.wf(),
        ensures
            r@ == self.bytes().subrange(
                pixels(self.spec_width(), self.spec_height()),
                self.bytes().len() as int,
            ),
    {
        let y_size = (self.width * self.height) as usize;
        let (_, uv) = self.data.as_slice().split_at(y_size);
        uv
    }

    pub fn uv_plane_mut(&mut self) -> (r: &mut [u8])
        requires
            old(self).wf(),
        ensures
            ({
                let y = pixels(old(self).spec_width(), old(self).spec_height());
                let b = old(self).bytes();
                &&& r@ == b.subrange(y, b.len() as int)
                &&& final(self).bytes() == b.subrange(0, y) + final(r)@
                &&& final(self).spec_width() == old(self).spec_width()
                &&& final(self).spec_height() == old(self).spec_height()
            }),
    {
        let y_size = (self.width * self.height) as usize;
        let (_, uv) = self.data.as_mut_slice().split_at_mut(y_size);
        uv
    }

    pub fn len(&self) -> (r: usize)
        ensures
            r == self.bytes().len(),
    {
        self.data.len()
    }

    pub fn is_empty(&self) -> (r: bool)
        ensures
            r == (self.bytes().len() == 0),
    {
        self.data.len() == 0
    }

    pub fn resolution(&self) -> (r: Resolution)
        ensures
            r.width == self.spec_width(),
            r.height == self.spec_height(),
    {
        Resolution::new(self.width, self.height)
    }
}

/// Bytes of a YUV420P frame at `resolution`.
pub fn yuv420p_buffer_size(resolution: Resolution) -> (r: usize)
    requires
        pixels(resolution.width, resolution.height) <= u32::MAX,
        nv12_len(resolution.width, resolution.height) <= usize::MAX,
    ensures
        r == pixels(resolution.width, resolution.height) + pixels(
            resolution.width,
            resolution.height,
        ) / 2,
{
    let pixels = (resolution.width * resolution.height) as usize;
    pixels + pixels / 2
}

/// Bytes of a YUYV frame at `resolution`.
pub fn yuyv_buffer_size(resolution: Resolution) -> (r: usize)
    requires
        2 * pixels(resolution.width, resolution.height) <= u32::MAX,
    ensures
        r == 2 * pixels(resolution.width, resolution.height),
{
    (resolution.width * resolution.height * 2) as usize
}

/// The chroma sample of the 2x2 block at (`r`, `c`) of a YVYU frame `w`
/// pixels wide: the mean of the sample at byte `k` of the block's upper and
/// lower 4-byte group (`k` is 3 for U, 1 for V).
pub open spec fn yvyu_chroma(input: Seq<u8>, w: int, r: int, c: int, k: int) -> u8 {
    ((input[r * (4 * w) + 4 * c + k] + input[r * (4 * w) + 2 * w + 4 * c + k]) / 2) as u8
}

/// `out` is the YUV420P form of the YVYU frame `input` of `w` x `h` pixels:
/// every second byte is luma, and each 2x2 block's chroma is the mean of its
/// two rows.
pub open spec fn is_yvyu_to_yuv420p(input: Seq<u8>, out: Seq<u8>, w: int, h: int) -> bool {
    let y = w * h;
    let hw = w / 2;
    let q = y / 4;
    &&& out.len() == y + 2 * q
    &&& forall|i: int| 0 <= i < y ==> #[trigger] out[i] == input[2 * i]
    &&& forall|r: int, c: int|
        0 <= r < h / 2 && 0 <= c < hw ==> {
            &&& #[trigger] out[y + r * hw + c] == yvyu_chroma(input, w, r, c, 3)
            &&& out[y + q + r * hw + c] == yvyu_chroma(input, w, r, c, 1)
        }
}

/// `out` is the YUV420P form of the YVU420 frame `input` of `y` luma
/// samples: the same luma, the chroma planes swapped.
pub open spec fn is_yvu420_to_yuv420p(input: Seq<u8>, out: Seq<u8>, y: int) -> bool {
    let q = y / 4;
    &&& out.len() == input.len()
    &&& out.subrange(0, y) == input.subrange(0, y)
    &&& out.subrange(y, y + q) == input.subrange(y + q, y + 2 * q)
    &&& out.subrange(y + q, y + 2 * q) == input.subrange(y, y + q)
}

proof fn lemma_block_index(r: int, c: int, hw: int, hh: int)
    requires
        0 <= r < hh,
        0 <= c < hw,
    ensures
        0 <= r * hw + c < hh * hw,
        r * hw + c < (r + 1) * hw,
        r * hw <= r * hw + c,
{
    assert(r * hw + c < hh * hw) by (nonlinear_arith)
        requires
            0 <= r < hh,
            0 <= c < hw,
    ;
    assert(0 <= r * hw) by (nonlinear_arith)
        requires
            0 <= r,
            0 <= hw,
    ;
    assert((r + 1) * hw == r * hw + hw) by (nonlinear_arith);
}

proof fn lemma_block_order(r: int, c: int, r2: int, c2: int, hw: int)
    requires
        0 <= r2 < r,
        0 <= c < hw,
        0 <= c2 < hw,
    ensures
        r2 * hw + c2 < r * hw + c,
{
    assert(r2 * hw + hw <= r * hw) by (nonlinear_arith)
        requires
            r2 < r,
            0 <= hw,
    ;
}

/// Converts a YVYU frame to YUV420P in `out`.
fn yvyu_to_yuv420p_sw(input: &[u8], out: &mut Vec<u8>, width: usize, height: usize)
    requires
        width % 2 == 0,
        height % 2 == 0,
        width * height <= u32::MAX,
        2 * (width * height) <= input@.len(),
        old(out)@.len() == width * height + 2 * ((width * height) / 4),
    ensures
        is_yvyu_to_yuv420p(input@, final(out)@, width as int, height as int),
{
    let ghost w = width as int;
    let ghost h = height as int;
    let y_size = width * height;
    let hw = width / 2;
    let hh = height / 2;
    let q = y_size / 4;
    assert(q == hh * hw) by (nonlinear_arith)
        requires
            q == (w * h) / 4,
            hh == h / 2,
            hw == w / 2,
            w % 2 == 0,
            h % 2 == 0,
            w >= 0,
            h >= 0,
    ;
    let len = out.len();
    let input_len = input.len();
    let mut i: usize = 0;
    while i < y_size
        invariant
            input_len == input@.len(),
            width == w,
            height == h,
            y_size == w * h,
            i <= y_size,
            2 * y_size <= input@.len(),
            out@.len() == len,
            len == y_size + 2 * q,
            forall|j: int| 0 <= j < i ==> #[trigger] out@[j] == input@[2 * j],
        decreases y_size - i,
    {
        out.set(i, input[2 * i]);
        i = i + 1;
    }
    let mut r: usize = 0;
    let mut out_base: usize = y_size;
    let mut in_base: usize = 0;
    while r < hh
        invariant
            input_len == input@.len(),
            width == w,
            height == h,
            y_size == w * h,
            hw == w / 2,
            hh == h / 2,
            w % 2 == 0,
            h % 2 == 0,
            q == hh * hw,
            2 * y_size <= input@.len(),
            out@.len() == len,
            len == y_size + 2 * q,
            r <= hh,
            out_base == y_size + r * hw,
            in_base == r * (4 * w),
            forall|j: int| 0 <= j < y_size ==> #[trigger] out@[j] == input@[2 * j],
            forall|r2: int, c2: int|
                0 <= r2 < r && 0 <= c2 < hw ==> {
                    &&& #[trigger] out@[y_size + r2 * hw + c2] == yvyu_chroma(
                        input@,
                        w,
                        r2,
                        c2,
                        3,
                    )
                    &&& out@[y_size + q + r2 * hw + c2] == yvyu_chroma(input@, w, r2, c2, 1)
                },
        decreases hh - r,
    {
        assert(in_base + 4 * w <= 2 * y_size) by (nonlinear_arith)
            requires
                in_base == r * (4 * w),
                r < hh,
                hh == h / 2,
                h % 2 == 0,
                y_size == w * h,
                w >= 0,
        ;
        assert(r * hw + hw <= hh * hw) by (nonlinear_arith)
            requires
                r < hh,
                hw >= 0,
        ;
        let mut c: usize = 0;
        while c < hw
            invariant
                input_len == input@.len(),
                width == w,
                height == h,
                y_size == w * h,
                hw == w / 2,
                hh == h / 2,
                w % 2 == 0,
                q == hh * hw,
                2 * y_size <= input@.len(),
                out@.len() == len,
                len == y_size + 2 * q,
                r < hh,
                c <= hw,
                out_base == y_size + r * hw,
                in_base == r * (4 * w),
                in_base + 4 * w <= 2 * y_size,
                r * hw + hw <= q,
                forall|j: int| 0 <= j < y_size ==> #[trigger] out@[j] == input@[2 * j],
                forall|r2: int, c2: int|
                    0 <= r2 < r && 0 <= c2 < hw ==> {
                        &&& #[trigger] out@[y_size + r2 * hw + c2] == yvyu_chroma(
                            input@,
                            w,
                            r2,
                            c2,
                            3,
                        )
                        &&& out@[y_size + q + r2 * hw + c2] == yvyu_chroma(input@, w, r2, c2, 1)
                    },
                forall|c2: int|
                    0 <= c2 < c ==> {
                        &&& #[trigger] out@[y_size + r * hw + c2] == yvyu_chroma(
                            input@,
                            w,
                            r as int,
                            c2,
                            3,
                        )
                        &&& out@[y_size + q + r * hw + c2] == yvyu_chroma(
                            input@,
                            w,
                            r as int,
                            c2,
                            1,
                        )
                    },
            decreases hw - c,
        {
            let top = in_base + 4 * c;
            let bottom = in_base + width * 2 + 4 * c;
            let u = ((input[top + 3] as u16 + input[bottom + 3] as u16) / 2) as u8;
            let v = ((input[top + 1] as u16 + input[bottom + 1] as u16) / 2) as u8;
            let ghost before = out@;
            out.set(out_base + c, u);
            out.set(out_base + q + c, v);
            proof {
                assert forall|r2: int, c2: int| 0 <= r2 < r && 0 <= c2 < hw implies {
                    &&& #[trigger] out@[y_size + r2 * hw + c2] == yvyu_chroma(
                        input@,
                        w,
                        r2,
                        c2,
                        3,
                    )
                    &&& out@[y_size + q + r2 * hw + c2] == yvyu_chroma(input@, w, r2, c2, 1)
                } by {
                    lemma_block_order(r as int, c as int, r2, c2, hw as int);
                    lemma_block_index(r2, c2, hw as int, hh as int);
                    assert(out@[y_size + r2 * hw + c2] == before[y_size + r2 * hw + c2]);
                    assert(out@[y_size + q + r2 * hw + c2] == before[y_size + q + r2 * hw
                        + c2]);
                }
                assert(out@[y_size + r * hw + c] == u);
                assert(out@[y_size + q + r * hw + c] == v);
                assert(u == yvyu_chroma(input@, w, r as int, c as int, 3));
                assert(v == yvyu_chroma(input@, w, r as int, c as int, 1));
                assert forall|c2: int| 0 <= c2 < c + 1 implies {
                    &&& #[trigger] out@[y_size + r * hw + c2] == yvyu_chroma(
                        input@,
                        w,
                        r as int,
                        c2,
                        3,
                    )
                    &&& out@[y_size + q + r * hw + c2] == yvyu_chroma(input@, w, r as int, c2, 1)
                } by {
                    if c2 < c {
                        assert(out@[y_size + r * hw + c2] == before[y_size + r * hw + c2]);
                        assert(out@[y_size + q + r * hw + c2] == before[y_size + q + r * hw + c2]);
                    }
                }
            }
            c = c + 1;
        }
        proof {
            assert((r + 1) * hw == r * hw + hw) by (nonlinear_arith);
            assert((r + 1) * (4 * w) == r * (4 * w) + 4 * w) by (nonlinear_arith);
            assert forall|r2: int, c2: int| 0 <= r2 < r + 1 && 0 <= c2 < hw implies {
                &&& #[trigger] out@[y_size + r2 * hw + c2] == yvyu_chroma(input@, w, r2, c2, 3)
                &&& out@[y_size + q + r2 * hw + c2] == yvyu_chroma(input@, w, r2, c2, 1)
            } by {
                if r2 == r {
                    assert(out@[y_size + r * hw + c2] == yvyu_chroma(input@, w, r as int, c2, 3));
                }
            }
        }
        r = r + 1;
        out_base = out_base + hw;
        in_base = in_base + width * 4;
    }
}

/// Converts a YVU420 frame to YUV420P in `out`.
fn yvu420_to_yuv420p_sw(input: &[u8], out: &mut Vec<u8>, y_size: usize)
    requires
        input@.len() == y_size + 2 * (y_size / 4),
        old(out)@.len() == input@.len(),
    ensures
        is_yvu420_to_yuv420p(input@, final(out)@, y_size as int),
{
    let q = y_size / 4;
    let n = input.len();
    let mut i: usize = 0;
    while i < n
        invariant
            n == input@.len(),
            n == y_size + 2 * q,
            q == y_size / 4,
            out@.len() == n,
            i <= n,
            forall|j: int|
                0 <= j < i ==> #[trigger] out@[j] == (if j < y_size {
                    input@[j]
                } else if j < y_size + q {
                    input@[j + q]
                } else {
                    input@[j - q]
                }),
        decreases n - i,
    {
        let b = if i < y_size {
            input[i]
        } else if i < y_size + q {
            input[i + q]
        } else {
            input[i - q]
        };
        out.set(i, b);
        i = i + 1;
    }
    proof {
        assert(out@.subrange(0, y_size as int) =~= input@.subrange(0, y_size as int));
        assert(out@.subrange(y_size as int, y_size + q) =~= input@.subrange(
            y_size + q,
            y_size + 2 * q,
        ));
        assert(out@.subrange(y_size + q, y_size + 2 * q) =~= input@.subrange(
            y_size as int,
            y_size + q,
        ));
    }
}

/// How a converter reaches its output format.
#[derive(Debug, Clone, Copy, PartialEq, Eq, Structural)]
pub enum ConversionRoute {
    /// libyuv's YUY2 (YUYV) conversion.
    LibyuvYuyv,
    /// libyuv's UYVY conversion.
    LibyuvUyvy,
    /// libyuv's NV12 conversion.
    LibyuvNv12,
    /// libyuv's RGB24 conversion.
    LibyuvRgb24,
    /// libyuv's BGR24 conversion.
    LibyuvBgr24,
    /// The software YVYU conversion.
    SoftwareYvyu,
    /// The software YVU420 plane swap.
    SoftwareYvu420,
    /// Input and output share a layout: a copy.
    Copy,
    /// No conversion between the two formats.
    Unsupported,
}

pub open spec fn spec_yuv420p_route(src: PixelFormat, dst: PixelFormat) -> ConversionRoute {
    if dst != PixelFormat::Yuv420 {
        ConversionRoute::Unsupported
    } else {
        match src {
            PixelFormat::Yuyv => ConversionRoute::LibyuvYuyv,
            PixelFormat::Uyvy => ConversionRoute::LibyuvUyvy,
            PixelFormat::Nv12 => ConversionRoute::LibyuvNv12,
            PixelFormat::Rgb24 => ConversionRoute::LibyuvRgb24,
            PixelFormat::Bgr24 => ConversionRoute::LibyuvBgr24,
            PixelFormat::Yvyu => ConversionRoute::SoftwareYvyu,
            PixelFormat::Yvu420 => ConversionRoute::SoftwareYvu420,
            PixelFormat::Yuv420 => ConversionRoute::Copy,
            _ => ConversionRoute::Unsupported,
        }
    }
}

/// Pixel format converter to YUV420P
pub struct PixelConverter {
    src_format: PixelFormat,
    dst_format: PixelFormat,
    resolution: Resolution,
    output_buffer: Yuv420pBuffer,
}

/// A resolution whose buffers fit in memory.
pub open spec fn buffer_fits(resolution: Resolution) -> bool {
    &&& pixels(resolution.width, resolution.height) <= u32::MAX
    &&& yuv420p_len(resolution.width, resolution.height) <= usize::MAX
}

impl PixelConverter {
    pub closed spec fn spec_src(&self) -> PixelFormat {
        self.src_format
    }

    pub closed spec fn spec_dst(&self) -> PixelFormat {
        self.dst_format
    }

    pub closed spec fn spec_resolution(&self) -> Resolution {
        self.resolution
    }

    pub closed spec fn spec_buffer(&self) -> Yuv420pBuffer {
        self.output_buffer
    }

    /// The converted frame.
    pub closed spec fn spec_output(&self) -> Seq<u8> {
        self.output_buffer.bytes()
    }

    /// The output buffer matches the resolution.
    pub closed spec fn wf(&self) -> bool {
        &&& self.output_buffer.wf()
        &&& self.output_buffer.spec_width() == self.resolution.width
        &&& self.output_buffer.spec_height() == self.resolution.height
    }

    fn with_formats(src_format: PixelFormat, resolution: Resolution) -> (r: PixelConverter)
        requires
            buffer_fits(resolution),
        ensures
            r.wf(),
            r.spec_src() == src_format,
            r.spec_dst() == PixelFormat::Yuv420,
            r.spec_resolution() == resolution,
            r.spec_output().len() == yuv420p_len(resolution.width, resolution.height),
    {
        PixelConverter {
            src_format,
            dst_format: PixelFormat::Yuv420,
            resolution,
            output_buffer: Yuv420pBuffer::new(resolution),
        }
    }

    /// YUYV to YUV420P.
    pub fn yuyv_to_yuv420p(resolution: Resolution) -> (r: PixelConverter)
        requires
            buffer_fits(resolution),
        ensures
            r.wf(),
            r.spec_src() == PixelFormat::Yuyv,
            r.spec_dst() == PixelFormat::Yuv420,
            r.spec_resolution() == resolution,
            r.spec_output().len() == yuv420p_len(resolution.width, resolution.height),
    {
        Self::with_formats(PixelFormat::Yuyv, resolution)
    }

    /// UYVY to YUV420P.
    pub fn uyvy_to_yuv420p(resolution: Resolution) -> (r: PixelConverter)
        requires
            buffer_fits(resolution),
        ensures
            r.wf(),
            r.spec_src() == PixelFormat::Uyvy,
            r.spec_dst() == PixelFormat::Yuv420,
            r.spec_resolution() == resolution,
            r.spec_output().len() == yuv420p_len(resolution.width, resolution.height),
    {
        Self::with_formats(PixelFormat::Uyvy, resolution)
    }

    /// YVYU to YUV420P.
    pub fn yvyu_to_yuv420p(resolution: Resolution) -> (r: PixelConverter)
        requires
            buffer_fits(resolution),
        ensures
            r.wf(),
            r.spec_src() == PixelFormat::Yvyu,
            r.spec_dst() == PixelFormat::Yuv420,
            r.spec_resolution() == resolution,
            r.spec_output().len() == yuv420p_len(resolution.width, resolution.height),
    {
        Self::with_formats(PixelFormat::Yvyu, resolution)
    }

    /// NV12 to YUV420P.
    pub fn nv12_to_yuv420p(resolution: Resolution) -> (r: PixelConverter)
        requires
            buffer_fits(resolution),
        ensures
            r.wf(),
            r.spec_src() == PixelFormat::Nv12,
            r.spec_dst() == PixelFormat::Yuv420,
            r.spec_resolution() == resolution,
            r.spec_output().len() == yuv420p_len(resolution.width, resolution.height),
    {
        Self::with_formats(PixelFormat::Nv12, resolution)
    }

    /// YVU420 to YUV420P (the chroma planes swapped).
    pub fn yvu420_to_yuv420p(resolution: Resolution) -> (r: PixelConverter)
        requires
            buffer_fits(resolution),
        ensures
            r.wf(),
            r.spec_src() == PixelFormat::Yvu420,
            r.spec_dst() == PixelFormat::Yuv420,
            r.spec_resolution() == resolution,
            r.spec_output().len() == yuv420p_len(resolution.width, resolution.height),
    {
        Self::with_formats(PixelFormat::Yvu420, resolution)
    }

    /// RGB24 to YUV420P.
    pub fn rgb24_to_yuv420p(resolution: Resolution) -> (r: PixelConverter)
        requires
            buffer_fits(resolution),
        ensures
            r.wf(),
            r.spec_src() == PixelFormat::Rgb24,
            r.spec_dst() == PixelFormat::Yuv420,
            r.spec_resolution() == resolution,
            r.spec_output().len() == yuv420p_len(resolution.width, resolution.height),
    {
        Self::with_formats(PixelFormat::Rgb24, resolution)
    }

    /// BGR24 to YUV420P.
    pub fn bgr24_to_yuv420p(resolution: Resolution) -> (r: PixelConverter)
        requires
            buffer_fits(resolution),
        ensures
            r.wf(),
            r.spec_src() == PixelFormat::Bgr24,
            r.spec_dst() == PixelFormat::Yuv420,
            r.spec_resolution() == resolution,
            r.spec_output().len() == yuv420p_len(resolution.width, resolution.height),
    {
        Self::with_formats(PixelFormat::Bgr24, resolution)
    }

    /// How this converter reaches YUV420P.
    pub fn route(&self) -> (r: ConversionRoute)
        ensures
            r == spec_yuv420p_route(self.spec_src(), self.spec_dst()),
    {
        if self.dst_format != PixelFormat::Yuv420 {
            return ConversionRoute::Unsupported;
        }
        match self.src_format {
            PixelFormat::Yuyv => ConversionRoute::LibyuvYuyv,
            PixelFormat::Uyvy => ConversionRoute::LibyuvUyvy,
            PixelFormat::Nv12 => ConversionRoute::LibyuvNv12,
            PixelFormat::Rgb24 => ConversionRoute::LibyuvRgb24,
            PixelFormat::Bgr24 => ConversionRoute::LibyuvBgr24,
            PixelFormat::Yvyu => ConversionRoute::SoftwareYvyu,
            PixelFormat::Yvu420 => ConversionRoute::SoftwareYvu420,
            PixelFormat::Yuv420 => ConversionRoute::Copy,
            _ => ConversionRoute::Unsupported,
        }
    }

    /// The output buffer, for a libyuv conversion to write into.
    pub fn output_buffer_mut(&mut self) -> (r: &mut Yuv420pBuffer)
        ensures
            *r == old(self).spec_buffer(),
            final(self).spec_buffer() == *final(r),
            final(self).spec_src() == old(self).spec_src(),
            final(self).spec_dst() == old(self).spec_dst(),
            final(self).spec_resolution() == old(self).spec_resolution(),
    {
        &mut self.output_buffer
    }

    /// The converted frame.
    pub fn output_bytes(&self) -> (r: &[u8])
        ensures
            r@ == self.spec_output(),
    {
        self.output_buffer.as_bytes()
    }

    /// Runs the conversions that need no SIMD library: the YVYU and YVU420
    /// software paths, the plain copy, and the refusal of an unsupported pair.
    /// Answers `None`, changing nothing, where the route is one of libyuv's.
    pub fn convert_without_simd(&mut self, input: &[u8]) -> (r: Option<Result<(), String>>)
        requires
            old(self).wf(),
            spec_yuv420p_route(old(self).spec_src(), old(self).spec_dst())
                == ConversionRoute::SoftwareYvyu ==> {
                &&& old(self).spec_resolution().width % 2 == 0
                &&& old(self).spec_resolution().height % 2 == 0
                &&& 2 * pixels(old(self).spec_resolution().width, old(self).spec_resolution().height)
                    <= input@.len()
            },
            spec_yuv420p_route(old(self).spec_src(), old(self).spec_dst())
                == ConversionRoute::SoftwareYvu420 ==> input@.len() == old(self).spec_output().len(),
        ensures
            final(self).wf(),
            final(self).spec_src() == old(self).spec_src(),
            final(self).spec_dst() == old(self).spec_dst(),
            final(self).spec_resolution() == old(self).spec_resolution(),
            ({
                let res = old(self).spec_resolution();
                let expected = old(self).spec_output().len();
                match spec_yuv420p_route(old(self).spec_src(), old(self).spec_dst()) {
                    ConversionRoute::SoftwareYvyu => r == Some(Ok::<(), String>(()))
                        && is_yvyu_to_yuv420p(
                        input@,
                        final(self).spec_output(),
                        res.width as int,
                        res.height as int,
                    ),
                    ConversionRoute::SoftwareYvu420 => r == Some(Ok::<(), String>(()))
                        && is_yvu420_to_yuv420p(
                        input@,
                        final(self).spec_output(),
                        pixels(res.width, res.height),
                    ),
                    ConversionRoute::Copy => if input@.len() < expected {
                        &&& r matches Some(Err(m))
                        &&& m@ == "Input buffer too small: "@ + decimal(input@.len() as nat)
                            + " < "@ + decimal(expected as nat)
                        &&& final(self).spec_output() == old(self).spec_output()
                    } else {
                        &&& r == Some(Ok::<(), String>(()))
                        &&& final(self).spec_output() == input@.subrange(0, expected as int)
                    },
                    ConversionRoute::Unsupported => {
                        &&& r matches Some(Err(m))
                        &&& m@ == "Unsupported conversion: "@ + spec_format_name(
                            old(self).spec_src(),
                        ) + " \u{2192} "@ + spec_format_name(old(self).spec_dst())
                        &&& final(self).spec_output() == old(self).spec_output()
                    },
                    _ => r is None && final(self).spec_output() == old(self).spec_output(),
                }
            }),
    {
        let route = self.route();
        let width = self.resolution.width as usize;
        let height = self.resolution.height as usize;
        match route {
            ConversionRoute::SoftwareYvyu => {
                let mut data: Vec<u8> = Vec::new();
                std::mem::swap(&mut data, &mut self.output_buffer.data);
                yvyu_to_yuv420p_sw(input, &mut data, width, height);
                self.output_buffer.data = data;
                Some(Ok(()))
            },
            ConversionRoute::SoftwareYvu420 => {
                let y_size = width * height;
                let mut data: Vec<u8> = Vec::new();
                std::mem::swap(&mut data, &mut self.output_buffer.data);
                yvu420_to_yuv420p_sw(input, &mut data, y_size);
                self.output_buffer.data = data;
                Some(Ok(()))
            },
            ConversionRoute::Copy => {
                let expected = self.output_buffer.data.len();
                if input.len() < expected {
                    let mut m = String::from_str("Input buffer too small: ");
                    push_decimal(&mut m, input.len() as u64);
                    m.append(" < ");
                    push_decimal(&mut m, expected as u64);
                    return Some(Err(m));
                }
                let mut data: Vec<u8> = Vec::new();
                std::mem::swap(&mut data, &mut self.output_buffer.data);
                let mut i: usize = 0;
                while i < expected
                    invariant
                        i <= expected,
                        expected <= input@.len(),
                        data@.len() == expected,
                        forall|j: int| 0 <= j < i ==> #[trigger] data@[j] == input@[j],
                    decreases expected - i,
                {
                    data.set(i, input[i]);
                    i = i + 1;
                }
                proof {
                    assert(data@ =~= input@.subrange(0, expected as int));
                }
                self.output_buffer.data = data;
                Some(Ok(()))
            },
            ConversionRoute::Unsupported => {
                let mut m = String::from_str("Unsupported conversion: ");
                m.append(self.src_format.name());
                m.append(" \u{2192} ");
                m.append(self.dst_format.name());
                Some(Err(m))
            },
            _ => None,
        }
    }

    /// Bytes of the converted frame.
    pub fn output_len(&self) -> (r: usize)
        ensures
            r == self.spec_output().len(),
    {
        self.output_buffer.len()
    }

    pub fn resolution(&self) -> (r: Resolution)
        ensures
            r == self.spec_resolution(),
    {
        self.resolution
    }
}

/// How an NV12 converter reaches its output: one of libyuv's conversions.
pub open spec fn spec_nv12_route(src: PixelFormat) -> ConversionRoute {
    match src {
        PixelFormat::Bgr24 => ConversionRoute::LibyuvBgr24,
        PixelFormat::Rgb24 => ConversionRoute::LibyuvRgb24,
        PixelFormat::Yuyv => ConversionRoute::LibyuvYuyv,
        _ => ConversionRoute::Unsupported,
    }
}

/// Pixel format converter that outputs NV12 (for VAAPI encoders)
pub struct Nv12Converter {
    src_format: PixelFormat,
    resolution: Resolution,
    output_buffer: Nv12Buffer,
}

/// A resolution whose NV12 buffers fit in memory.
pub open spec fn nv12_buffer_fits(resolution: Resolution) -> bool {
    &&& pixels(resolution.width, resolution.height) <= u32::MAX
    &&& nv12_len(resolution.width, resolution.height) <= usize::MAX
}

impl Nv12Converter {
    pub closed spec fn spec_src(&self) -> PixelFormat {
        self.src_format
    }

    pub closed spec fn spec_resolution(&self) -> Resolution {
        self.resolution
    }

    pub closed spec fn spec_buffer(&self) -> Nv12Buffer {
        self.output_buffer
    }

    pub closed spec fn spec_output(&self) -> Seq<u8> {
        self.output_buffer.bytes()
    }

    fn with_format(src_format: PixelFormat, resolution: Resolution) -> (r: Nv12Converter)
        requires
            nv12_buffer_fits(resolution),
        ensures
            r.spec_src() == src_format,
            r.spec_resolution() == resolution,
            r.spec_output().len() == nv12_len(resolution.width, resolution.height),
    {
        Nv12Converter { src_format, resolution, output_buffer: Nv12Buffer::new(resolution) }
    }

    /// BGR24 to NV12.
    pub fn bgr24_to_nv12(resolution: Resolution) -> (r: Nv12Converter)
        requires
            nv12_buffer_fits(resolution),
        ensures
            r.spec_src() == PixelFormat::Bgr24,
            r.spec_resolution() == resolution,
            r.spec_output().len() == nv12_len(resolution.width, resolution.height),
    {
        Self::with_format(PixelFormat::Bgr24, resolution)
    }

    /// RGB24 to NV12.
    pub fn rgb24_to_nv12(resolution: Resolution) -> (r: Nv12Converter)
        requires
            nv12_buffer_fits(resolution),
        ensures
            r.spec_src() == PixelFormat::Rgb24,
            r.spec_resolution() == resolution,
            r.spec_output().len() == nv12_len(resolution.width, resolution.height),
    {
        Self::with_format(PixelFormat::Rgb24, resolution)
    }

    /// YUYV to NV12.
    pub fn yuyv_to_nv12(resolution: Resolution) -> (r: Nv12Converter)
        requires
            nv12_buffer_fits(resolution),
        ensures
            r.spec_src() == PixelFormat::Yuyv,
            r.spec_resolution() == resolution,
            r.spec_output().len() == nv12_len(resolution.width, resolution.height),
    {
        Self::with_format(PixelFormat::Yuyv, resolution)
    }

    /// The libyuv conversion to run, or `Unsupported`.
    pub fn route(&self) -> (r: ConversionRoute)
        ensures
            r == spec_nv12_route(self.spec_src()),
    {
        match self.src_format {
            PixelFormat::Bgr24 => ConversionRoute::LibyuvBgr24,
            PixelFormat::Rgb24 => ConversionRoute::LibyuvRgb24,
            PixelFormat::Yuyv => ConversionRoute::LibyuvYuyv,
            _ => ConversionRoute::Unsupported,
        }
    }

    /// The message for a source format that has no NV12 conversion.
    pub fn unsupported_message(&self) -> (r: String)
        ensures
            r@ == "Unsupported conversion to NV12: "@ + spec_format_name(self.spec_src()),
    {
        let mut m = String::from_str("Unsupported conversion to NV12: ");
        m.append(self.src_format.name());
        m
    }

    /// The output buffer, for a libyuv conversion to write into.
    pub fn output_buffer_mut(&mut self) -> (r: &mut Nv12Buffer)
        ensures
            *r == old(self).spec_buffer(),
            final(self).spec_buffer() == *final(r),
            final(self).spec_src() == old(self).spec_src(),
            final(self).spec_resolution() == old(self).spec_resolution(),
    {
        &mut self.output_buffer
    }

    /// The converted frame.
    pub fn output_bytes(&self) -> (r: &[u8])
        ensures
            r@ == self.spec_output(),
    {
        self.output_buffer.as_bytes()
    }

    /// Bytes of the converted frame.
    pub fn output_len(&self) -> (r: usize)
        ensures
            r == self.spec_output().len(),
    {
        self.output_buffer.len()
    }

    pub fn resolution(&self) -> (r: Resolution)
        ensures
            r == self.spec_resolution(),
    {
        self.resolution
    }
}

/// Bytes a libyuv conversion reads of a `w`x`h` frame: two per pixel for
/// the packed 4:2:2 formats, three for RGB24 and BGR24, and for NV12 the
/// luma plane and one chroma row of `w` bytes per two luma rows; nothing is
/// read on the other routes.
pub open spec fn spec_libyuv_input_len(route: ConversionRoute, w: int, h: int) -> int {
    match route {
        ConversionRoute::LibyuvYuyv | ConversionRoute::LibyuvUyvy => 2 * (w * h),
        ConversionRoute::LibyuvNv12 => w * h + w * ((h + 1) / 2),
        ConversionRoute::LibyuvRgb24 | ConversionRoute::LibyuvBgr24 => 3 * (w * h),
        _ => 0,
    }
}

/// Whether a frame of `input_len` bytes holds what a libyuv conversion on
/// `route` reads at `resolution`; the error names the length.
pub fn check_libyuv_input(route: ConversionRoute, resolution: Resolution, input_len: usize) -> (r:
    Result<(), String>)
    ensures
        r is Err <==> (input_len as int) < spec_libyuv_input_len(
            route,
            resolution.width as int,
            resolution.height as int,
        ),
        r matches Err(m) ==> m@ == "Input buffer too small: "@ + decimal(input_len as nat),
{
    let w = resolution.width as u128;
    let h = resolution.height as u128;
    proof {
        assert(w * h <= 0xffff_ffffu128 * 0xffff_ffffu128) by (nonlinear_arith)
            requires
                w <= 0xffff_ffffu128,
                h <= 0xffff_ffffu128,
        ;
        assert(w * ((h + 1) / 2) <= 0xffff_ffffu128 * 0xffff_ffffu128) by (nonlinear_arith)
            requires
                w <= 0xffff_ffffu128,
                h <= 0xffff_ffffu128,
        ;
    }
    let wh = w * h;
    let needed: u128 = match route {
        ConversionRoute::LibyuvYuyv | ConversionRoute::LibyuvUyvy => 2 * wh,
        ConversionRoute::LibyuvNv12 => wh + w * ((h + 1) / 2),
        ConversionRoute::LibyuvRgb24 | ConversionRoute::LibyuvBgr24 => 3 * wh,
        _ => 0,
    };
    if (input_len as u128) < needed {
        let mut m = String::from_str("Input buffer too small: ");
        push_decimal(&mut m, input_len as u64);
        Err(m)
    } else {
        Ok(())
    }
}

/// Whether a frame of `input_len` bytes suits the software conversion on
/// `route` at `resolution`: YVYU needs even sides and two bytes a pixel,
/// YVU420 exactly the size of the YUV420P output; other routes ask nothing.
pub fn software_input_fits(route: ConversionRoute, resolution: Resolution, output_len: usize, input_len: usize) -> (r: bool)
    ensures
        r == ((route == ConversionRoute::SoftwareYvyu ==> {
            &&& resolution.width % 2 == 0
            &&& resolution.height % 2 == 0
            &&& 2 * pixels(resolution.width, resolution.height) <= input_len
        }) && (route == ConversionRoute::SoftwareYvu420 ==> input_len == output_len)),
{
    match route {
        ConversionRoute::SoftwareYvyu => {
            let w = resolution.width as u64;
            let h = resolution.height as u64;
            proof {
                assert(w * h <= 0xffff_ffffu64 * 0xffff_ffffu64) by (nonlinear_arith)
                    requires
                        w <= 0xffff_ffffu64,
                        h <= 0xffff_ffffu64,
                ;
            }
            let wh = w * h;
            resolution.width % 2 == 0 && resolution.height % 2 == 0 && wh <= (input_len as u64) / 2
        },
        ConversionRoute::SoftwareYvu420 => input_len == output_len,
        _ => true,
    }
}

/// The capture format whose layout a conversion reads, by its name: the
/// libyuv YUY2, UYVY, NV12, RGB24 and BGR24 conversions, the software YVYU
/// and YVU420 ones, and the copy of YUV420 itself.
pub open spec fn route_source(route: ConversionRoute) -> Option<PixelFormat> {
    match route {
        ConversionRoute::LibyuvYuyv => Some(PixelFormat::Yuyv),
        ConversionRoute::LibyuvUyvy => Some(PixelFormat::Uyvy),
        ConversionRoute::LibyuvNv12 => Some(PixelFormat::Nv12),
        ConversionRoute::LibyuvRgb24 => Some(PixelFormat::Rgb24),
        ConversionRoute::LibyuvBgr24 => Some(PixelFormat::Bgr24),
        ConversionRoute::SoftwareYvyu => Some(PixelFormat::Yvyu),
        ConversionRoute::SoftwareYvu420 => Some(PixelFormat::Yvu420),
        ConversionRoute::Copy => Some(PixelFormat::Yuv420),
        ConversionRoute::Unsupported => None,
    }
}

/// Every conversion a converter picks reads its own source format.
pub proof fn lemma_route_reads_source(f: PixelFormat)
    ensures
        spec_yuv420p_route(f, PixelFormat::Yuv420) != ConversionRoute::Unsupported ==> route_source(
            spec_yuv420p_route(f, PixelFormat::Yuv420),
        ) == Some(f),
        spec_nv12_route(f) != ConversionRoute::Unsupported ==> route_source(spec_nv12_route(f))
            == Some(f),
{
}

/// No two capture formats share a conversion to YUV420P or to NV12: each
/// route reads the layout of exactly one source format, so frames of one
/// format are never read as another.
pub proof fn lemma_routes_are_distinct(f: PixelFormat, g: PixelFormat)
    ensures
        spec_yuv420p_route(f, PixelFormat::Yuv420) == spec_yuv420p_route(g, PixelFormat::Yuv420)
            && spec_yuv420p_route(f, PixelFormat::Yuv420) != ConversionRoute::Unsupported ==> f == g,
        spec_nv12_route(f) == spec_nv12_route(g) && spec_nv12_route(f)
            != ConversionRoute::Unsupported ==> f == g,
{
}

/// A libyuv conversion of a frame with even sides reads exactly the bytes of
/// one frame of its source format.
pub proof fn lemma_libyuv_reads_one_frame(f: PixelFormat, r: Resolution)
    requires
        r.width % 2 == 0,
        r.height % 2 == 0,
        r.width * r.height * 3 <= usize::MAX,
        spec_libyuv_input_len(spec_yuv420p_route(f, PixelFormat::Yuv420), r.width as int, r.height as int) > 0,
    ensures
        spec_frame_size(f, r) == Some(
            spec_libyuv_input_len(spec_yuv420p_route(f, PixelFormat::Yuv420), r.width as int, r.height as int) as usize,
        ),
{
    let w = r.width as int;
    let h = r.height as int;
    assert(w * ((h + 1) / 2) == (w * h) / 2) by (nonlinear_arith)
        requires
            h % 2 == 0,
            w >= 0,
            h >= 0,
    ;
    assert((w * h) * 3 / 2 == w * h + (w * h) / 2) by (nonlinear_arith)
        requires
            w >= 0,
            h >= 0,
    ;
    assert(0 <= w * h) by (nonlinear_arith)
        requires
            w >= 0,
            h >= 0,
    ;
}

/// A 4:2:0 frame with even sides is its luma plane and two quarter-size
/// chroma planes: the frame size of NV12, YUV420 and YVU420 is the size of
/// the YUV420P and NV12 buffers the converters fill.
pub proof fn lemma_420_frame_size(f: PixelFormat, r: Resolution)
    requires
        f == PixelFormat::Nv12 || f == PixelFormat::Yuv420 || f == PixelFormat::Yvu420,
        r.width % 2 == 0,
        r.height % 2 == 0,
        r.width * r.height * 3 <= usize::MAX,
    ensures
        spec_frame_size(f, r) == Some(
            (r.width * r.height + 2 * ((r.width / 2) * (r.height / 2))) as usize,
        ),
        spec_frame_size(f, r) == Some(yuv420p_len(r.width, r.height) as usize),
        spec_frame_size(f, r) == Some(nv12_len(r.width, r.height) as usize),
{
    let w = r.width as int;
    let h = r.height as int;
    assert((w / 2) * (h / 2) * 4 == w * h) by (nonlinear_arith)
        requires
            w % 2 == 0,
            h % 2 == 0,
            w >= 0,
            h >= 0,
    ;
    assert((w * h) * 3 / 2 == w * h + 2 * ((w / 2) * (h / 2))) by (nonlinear_arith)
        requires
            (w / 2) * (h / 2) * 4 == w * h,
            w >= 0,
            h >= 0,
    ;
    assert(w * h / 4 == (w / 2) * (h / 2)) by (nonlinear_arith)
        requires
            (w / 2) * (h / 2) * 4 == w * h,
    ;
    assert(w * h / 2 == 2 * ((w / 2) * (h / 2))) by (nonlinear_arith)
        requires
            (w / 2) * (h / 2) * 4 == w * h,
    ;
    assert(0 <= w * h) by (nonlinear_arith)
        requires
            w >= 0,
            h >= 0,
    ;
}

} // verus!
