//! Video frames: the captured bytes with their geometry and format, their
//! content hash for deduplication, and JPEG validation.
use vstd::prelude::*;
use crate::capture::{is_valid_jpeg, spec_is_valid_jpeg};
use crate::format::{is_compressed_format, PixelFormat, Resolution};

verus! {

/// XXH64 of `data` with `seed`, as the xxhash-rust crate computes it.
pub uninterp spec fn xxh64_digest(data: Seq<u8>, seed: u64) -> u64;

/// `xxhash_rust::xxh64::xxh64`: the 64-bit xxHash of `data` with `seed`,
/// a function of the bytes and the seed alone.
#[verifier::external_body]
fn xxh64_hash(data: &[u8], seed: u64) -> (r: u64)
    ensures
        r == xxh64_digest(data@, seed),
{
    xxhash_rust::xxh64::xxh64(data, seed)
}

/// A video frame with metadata. The capture time stays with the capturer.
#[derive(Debug, Clone)]
pub struct VideoFrame {
    /// The frame's bytes
    pub data: Vec<u8>,
    /// Frame resolution
    pub resolution: Resolution,
    /// Pixel format
    pub format: PixelFormat,
    /// Stride (bytes per line)
    pub stride: u32,
    /// Whether this is a key frame (for compressed formats)
    pub key_frame: bool,
    /// Frame sequence number
    pub sequence: u64,
    /// Whether capture is online (signal present)
    pub online: bool,
}

impl VideoFrame {
    /// The frame's bytes.
    pub open spec fn bytes(&self) -> Seq<u8> {
        self.data@
    }

    /// A key frame, online, holding `data`.
    pub fn from_vec(
        data: Vec<u8>,
        resolution: Resolution,
        format: PixelFormat,
        stride: u32,
        sequence: u64,
    ) -> (r: VideoFrame)
        ensures
            r.bytes() == data@,
            r.resolution == resolution,
            r.format == format,
            r.stride == stride,
            r.sequence == sequence,
            r.key_frame,
            r.online,
    {
        VideoFrame { data, resolution, format, stride, key_frame: true, sequence, online: true }
    }

    /// An empty placeholder frame for a source with no signal.
    pub fn offline(resolution: Resolution, format: PixelFormat) -> (r: VideoFrame)
        ensures
            r.bytes().len() == 0,
            r.resolution == resolution,
            r.format == format,
            r.stride == 0,
            r.sequence == 0,
            r.key_frame,
            !r.online,
    {
        VideoFrame {
            data: Vec::new(),
            resolution,
            format,
            stride: 0,
            key_frame: true,
            sequence: 0,
            online: false,
        }
    }

    pub fn data(&self) -> (r: &[u8])
        ensures
            r@ == self.bytes(),
    {
        self.data.as_slice()
    }

    pub fn len(&self) -> (r: usize)
        ensures
            r == self.bytes().len(),
    {
        self.data.len()
    }

    pub fn is_empty(&self) -> (r: bool)
        ensures
            r == (self.bytes().len() == 0),
    {
        self.data.len() == 0
    }

    pub fn width(&self) -> (r: u32)
        ensures
            r == self.resolution.width,
    {
        self.resolution.width
    }

    pub fn height(&self) -> (r: u32)
        ensures
            r == self.resolution.height,
    {
        self.resolution.height
    }

    /// The XXH64 of the frame's bytes with seed 0: equal bytes, equal hash.
    pub fn get_hash(&self) -> (r: u64)
        ensures
            r == xxh64_digest(self.bytes(), 0),
    {
        xxh64_hash(self.data.as_slice(), 0)
    }

    /// Whether the format is JPEG/MJPEG.
    pub fn is_jpeg(&self) -> (r: bool)
        ensures
            r == is_compressed_format(self.format),
    {
        self.format.is_compressed()
    }

    /// A JPEG frame whose bytes pass `is_valid_jpeg_bytes`.
    pub fn is_valid_jpeg(&self) -> (r: bool)
        ensures
            r == (is_compressed_format(self.format) && spec_is_valid_jpeg(self.bytes())),
    {
        if !self.is_jpeg() {
            return false;
        }
        Self::is_valid_jpeg_bytes(self.data.as_slice())
    }

    /// Validates JPEG bytes without a frame: at least 125 bytes, SOI first,
    /// EOI (or its padding) last.
    pub fn is_valid_jpeg_bytes(data: &[u8]) -> (r: bool)
        ensures
            r == spec_is_valid_jpeg(data@),
    {
        is_valid_jpeg(data)
    }
}

/// Two frames with the same bytes have the same hash.
pub proof fn lemma_equal_bytes_equal_hash(a: VideoFrame, b: VideoFrame)
    requires
        a.bytes() == b.bytes(),
    ensures
        xxh64_digest(a.bytes(), 0) == xxh64_digest(b.bytes(), 0),
{
}

/// Frame metadata without actual data (for logging/stats)
#[derive(Debug, Clone, Copy, PartialEq, Eq, Structural)]
pub struct FrameMeta {
    pub resolution: Resolution,
    pub format: PixelFormat,
    pub size: usize,
    pub sequence: u64,
    pub key_frame: bool,
    pub online: bool,
}

impl FrameMeta {
    /// The metadata of `frame`.
    pub fn of(frame: &VideoFrame) -> (r: FrameMeta)
        ensures
            r.resolution == frame.resolution,
            r.format == frame.format,
            r.size == frame.bytes().len(),
            r.sequence == frame.sequence,
            r.key_frame == frame.key_frame,
            r.online == frame.online,
    {
        FrameMeta {
            resolution: frame.resolution,
            format: frame.format,
            size: frame.len(),
            sequence: frame.sequence,
            key_frame: frame.key_frame,
            online: frame.online,
        }
    }
}

/// `Vec::capacity`: how many bytes the buffer can hold without
/// reallocating, never fewer than it holds. How much more the allocator gave
/// is left unsaid.
#[verifier::external_body]
fn buffer_capacity(buf: &Vec<u8>) -> (r: usize)
    ensures
        r >= buf@.len(),
{
    buf.capacity()
}

/// A pool of frame buffers kept for reuse, so that capture does not
/// allocate a buffer per frame. It keeps at most `max_buffers` of them, each
/// emptied when it comes back.
pub struct FrameBufferPool {
    pool: Vec<Vec<u8>>,
    max_buffers: usize,
}

impl FrameBufferPool {
    /// How many buffers the pool keeps at most.
    pub closed spec fn spec_max(&self) -> nat {
        self.max_buffers as nat
    }

    /// How many buffers the pool holds now.
    pub closed spec fn spec_pooled(&self) -> nat {
        self.pool@.len()
    }

    /// The pool keeps at least one buffer, never more than its limit, and
    /// only empty ones.
    pub closed spec fn wf(&self) -> bool {
        &&& 1 <= self.max_buffers
        &&& self.pool@.len() <= self.max_buffers
        &&& forall|i: int| 0 <= i < self.pool@.len() ==> (#[trigger] self.pool@[i])@.len() == 0
    }

    /// A well-formed pool holds no more buffers than its limit, which is at
    /// least one.
    pub proof fn lemma_pool_within_limit(&self)
        requires
            self.wf(),
        ensures
            self.spec_pooled() <= self.spec_max(),
            self.spec_max() >= 1,
    {
    }

    /// An empty pool that keeps up to `max_buffers` buffers, at least one.
    pub fn new(max_buffers: usize) -> (r: FrameBufferPool)
        ensures
            r.wf(),
            r.spec_max() == if max_buffers >= 1 { max_buffers as nat } else { 1 },
            r.spec_pooled() == 0,
    {
        let max_buffers = if max_buffers >= 1 { max_buffers } else { 1 };
        FrameBufferPool { pool: Vec::new(), max_buffers }
    }

    /// An empty buffer for a frame of `min_capacity` bytes: the last one
    /// given back, grown if it is too small, or a new one.
    pub fn take(&mut self, min_capacity: usize) -> (r: Vec<u8>)
        requires
            old(self).wf(),
        ensures
            final(self).wf(),
            r@.len() == 0,
            final(self).spec_max() == old(self).spec_max(),
            final(self).spec_pooled() == if old(self).spec_pooled() > 0 {
                (old(self).spec_pooled() - 1) as nat
            } else {
                0
            },
    {
        match self.pool.pop() {
            Some(mut buf) => {
                let capacity = buffer_capacity(&buf);
                if capacity < min_capacity {
                    buf.reserve(min_capacity - capacity);
                }
                buf
            },
            None => Vec::with_capacity(min_capacity),
        }
    }

    /// Gives a buffer back: it is emptied and kept if the pool is below its
    /// limit, else dropped.
    pub fn put(&mut self, buf: Vec<u8>)
        requires
            old(self).wf(),
        ensures
            final(self).wf(),
            final(self).spec_max() == old(self).spec_max(),
            final(self).spec_pooled() == if old(self).spec_pooled() < old(self).spec_max() {
                old(self).spec_pooled() + 1
            } else {
                old(self).spec_pooled()
            },
    {
        let mut buf = buf;
        buf.clear();
        if self.pool.len() < self.max_buffers {
            self.pool.push(buf);
        }
    }
}

} // verus!
