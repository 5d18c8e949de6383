//! Pixel formats and resolutions.
use vstd::prelude::*;
use crate::text::{all_ascii, str_eq, to_uppercase, unicode_uppercase, upper_ascii};

verus! {

/// Supported pixel formats.
#[derive(Debug, Clone, Copy, PartialEq, Eq, Hash, Structural)]
pub enum PixelFormat {
    /// MJPEG compressed format (preferred for capture cards)
    Mjpeg,
    /// JPEG compressed format
    Jpeg,
    /// YUYV 4:2:2 packed format
    Yuyv,
    /// YVYU 4:2:2 packed format
    Yvyu,
    /// UYVY 4:2:2 packed format
    Uyvy,
    /// NV12 semi-planar format (Y plane + interleaved UV)
    Nv12,
    /// NV16 semi-planar format
    Nv16,
    /// NV24 semi-planar format
    Nv24,
    /// YUV420 planar format
    Yuv420,
    /// YVU420 planar format
    Yvu420,
    /// RGB565 format
    Rgb565,
    /// RGB24 format (3 bytes per pixel)
    Rgb24,
    /// BGR24 format (3 bytes per pixel)
    Bgr24,
    /// Grayscale format
    Grey,
}

/// Resolution (width x height).
#[derive(Debug, Clone, Copy, PartialEq, Eq, Hash, Structural)]
pub struct Resolution {
    pub width: u32,
    pub height: u32,
}

/// The V4L2 FourCC of each format.
pub open spec fn spec_fourcc(f: PixelFormat) -> Seq<u8> {
    match f {
        PixelFormat::Mjpeg => seq![77u8, 74u8, 80u8, 71u8],
        PixelFormat::Jpeg => seq![74u8, 80u8, 69u8, 71u8],
        PixelFormat::Yuyv => seq![89u8, 85u8, 89u8, 86u8],
        PixelFormat::Yvyu => seq![89u8, 86u8, 89u8, 85u8],
        PixelFormat::Uyvy => seq![85u8, 89u8, 86u8, 89u8],
        PixelFormat::Nv12 => seq![78u8, 86u8, 49u8, 50u8],
        PixelFormat::Nv16 => seq![78u8, 86u8, 49u8, 54u8],
        PixelFormat::Nv24 => seq![78u8, 86u8, 50u8, 52u8],
        PixelFormat::Yuv420 => seq![89u8, 85u8, 49u8, 50u8],
        PixelFormat::Yvu420 => seq![89u8, 86u8, 49u8, 50u8],
        PixelFormat::Rgb565 => seq![82u8, 71u8, 66u8, 80u8],
        PixelFormat::Rgb24 => seq![82u8, 71u8, 66u8, 51u8],
        PixelFormat::Bgr24 => seq![66u8, 71u8, 82u8, 51u8],
        PixelFormat::Grey => seq![71u8, 82u8, 69u8, 89u8],
    }
}

/// Formats recognised from a FourCC, with the aliases `I420` and `Y800`.
pub open spec fn spec_from_fourcc(c: Seq<u8>) -> Option<PixelFormat> {
    if c == seq![73u8, 52u8, 50u8, 48u8] {
        Some(PixelFormat::Yuv420)
    } else if c == seq![89u8, 56u8, 48u8, 48u8] {
        Some(PixelFormat::Grey)
    } else if exists|f: PixelFormat| spec_fourcc(f) == c {
        Some(choose|f: PixelFormat| spec_fourcc(f) == c)
    } else {
        None
    }
}

fn code_is(code: &[u8; 4], a: u8, b: u8, c: u8, d: u8) -> (r: bool)
    ensures
        r == (code@ == seq![a, b, c, d]),
{
    let r = code[0] == a && code[1] == b && code[2] == c && code[3] == d;
    proof {
        if r {
            assert(code@ =~= seq![a, b, c, d]);
        } else {
            if code@ == seq![a, b, c, d] {
                assert(code@[0] == a && code@[1] == b && code@[2] == c && code@[3] == d);
            }
        }
    }
    r
}

impl PixelFormat {
    /// The V4L2 FourCC bytes of this format.
    pub fn fourcc_code(&self) -> (r: [u8; 4])
        ensures
            r@ == spec_fourcc(*self),
    {
        let r: [u8; 4] = match self {
            PixelFormat::Mjpeg => [77u8, 74u8, 80u8, 71u8],
            PixelFormat::Jpeg => [74u8, 80u8, 69u8, 71u8],
            PixelFormat::Yuyv => [89u8, 85u8, 89u8, 86u8],
            PixelFormat::Yvyu => [89u8, 86u8, 89u8, 85u8],
            PixelFormat::Uyvy => [85u8, 89u8, 86u8, 89u8],
            PixelFormat::Nv12 => [78u8, 86u8, 49u8, 50u8],
            PixelFormat::Nv16 => [78u8, 86u8, 49u8, 54u8],
            PixelFormat::Nv24 => [78u8, 86u8, 50u8, 52u8],
            PixelFormat::Yuv420 => [89u8, 85u8, 49u8, 50u8],
            PixelFormat::Yvu420 => [89u8, 86u8, 49u8, 50u8],
            PixelFormat::Rgb565 => [82u8, 71u8, 66u8, 80u8],
            PixelFormat::Rgb24 => [82u8, 71u8, 66u8, 51u8],
            PixelFormat::Bgr24 => [66u8, 71u8, 82u8, 51u8],
            PixelFormat::Grey => [71u8, 82u8, 69u8, 89u8],
        };
        proof {
            assert(r@ =~= spec_fourcc(*self));
        }
        r
    }

    /// The format with the given V4L2 FourCC bytes, if supported.
    pub fn from_fourcc_code(code: [u8; 4]) -> (r: Option<PixelFormat>)
        ensures
            r == spec_from_fourcc(code@),
            r matches Some(f) ==> spec_fourcc(f) == code@ || code@ == seq![73u8, 52u8, 50u8, 48u8]
                || code@ == seq![89u8, 56u8, 48u8, 48u8],
    {
        let all = PixelFormat::all();
        if code_is(&code, 73, 52, 50, 48) {
            return Some(PixelFormat::Yuv420);
        }
        if code_is(&code, 89, 56, 48, 48) {
            return Some(PixelFormat::Grey);
        }
        let mut i: usize = 0;
        while i < all.len()
            invariant
                all@ == spec_all_formats(),
                i <= all@.len(),
                forall|j: int| 0 <= j < i ==> spec_fourcc(#[trigger] all@[j]) != code@,
            decreases all@.len() - i,
        {
            let c = all[i].fourcc_code();
            if code_is(&code, c[0], c[1], c[2], c[3]) {
                proof {
                    assert(c@ =~= seq![c@[0], c@[1], c@[2], c@[3]]);
                    lemma_fourcc_injective(all@[i as int]);
                }
                return Some(all[i]);
            }
            proof {
                assert(c@ =~= seq![c@[0], c@[1], c@[2], c@[3]]);
            }
            i = i + 1;
        }
        proof {
            assert forall|f: PixelFormat| spec_fourcc(f) != code@ by {
                lemma_all_formats_complete(f);
            }
        }
        None
    }

    /// Whether the format is compressed (JPEG/MJPEG).
    pub fn is_compressed(&self) -> (r: bool)
        ensures
            r == (*self == PixelFormat::Mjpeg || *self == PixelFormat::Jpeg),
    {
        match self {
            PixelFormat::Mjpeg | PixelFormat::Jpeg => true,
            _ => false,
        }
    }

    /// Bytes per pixel of packed formats; `None` for compressed and planar ones.
    pub fn bytes_per_pixel(&self) -> (r: Option<usize>)
        ensures
            r == spec_bytes_per_pixel(*self),
    {
        match self {
            PixelFormat::Mjpeg | PixelFormat::Jpeg => None,
            PixelFormat::Yuyv | PixelFormat::Yvyu | PixelFormat::Uyvy => Some(2),
            PixelFormat::Nv12 | PixelFormat::Yuv420 | PixelFormat::Yvu420 => None,
            PixelFormat::Nv16 => None,
            PixelFormat::Nv24 => None,
            PixelFormat::Rgb565 => Some(2),
            PixelFormat::Rgb24 | PixelFormat::Bgr24 => Some(3),
            PixelFormat::Grey => Some(1),
        }
    }

    /// Expected frame size for a resolution; `None` for compressed formats.
    pub fn frame_size(&self, resolution: Resolution) -> (r: Option<usize>)
        requires
            resolution.width * resolution.height <= u32::MAX,
            resolution.width * resolution.height * 3 <= usize::MAX,
        ensures
            r == spec_frame_size(*self, resolution),
    {
        let pixels = (resolution.width * resolution.height) as usize;
        match self {
            PixelFormat::Mjpeg | PixelFormat::Jpeg => None,
            PixelFormat::Yuyv | PixelFormat::Yvyu | PixelFormat::Uyvy => Some(pixels * 2),
            PixelFormat::Nv12 | PixelFormat::Yuv420 | PixelFormat::Yvu420 => Some(pixels * 3 / 2),
            PixelFormat::Nv16 => Some(pixels * 2),
            PixelFormat::Nv24 => Some(pixels * 3),
            PixelFormat::Rgb565 => Some(pixels * 2),
            PixelFormat::Rgb24 | PixelFormat::Bgr24 => Some(pixels * 3),
            PixelFormat::Grey => Some(pixels),
        }
    }

    /// Priority for format selection (higher is better).
    pub fn priority(&self) -> (r: u8)
        ensures
            r == spec_priority(*self),
    {
        match self {
            PixelFormat::Mjpeg => 100,
            PixelFormat::Jpeg => 99,
            PixelFormat::Yuyv => 80,
            PixelFormat::Nv12 => 75,
            PixelFormat::Yuv420 => 70,
            PixelFormat::Uyvy => 65,
            PixelFormat::Yvyu => 64,
            PixelFormat::Yvu420 => 63,
            PixelFormat::Nv16 => 60,
            PixelFormat::Nv24 => 55,
            PixelFormat::Rgb24 => 50,
            PixelFormat::Bgr24 => 49,
            PixelFormat::Rgb565 => 40,
            PixelFormat::Grey => 10,
        }
    }

    /// Recommended capture format for encoding: hardware prefers NV12 over
    /// YUYV, software YUYV over NV12; otherwise the first uncompressed one.
    pub fn recommended_for_encoding(available: &[PixelFormat], is_hardware: bool) -> (r: Option<
        PixelFormat,
    >)
        ensures
            r == spec_recommended_for_encoding(available@, is_hardware),
    {
        let first = if is_hardware {
            PixelFormat::Nv12
        } else {
            PixelFormat::Yuyv
        };
        let second = if is_hardware {
            PixelFormat::Yuyv
        } else {
            PixelFormat::Nv12
        };
        if slice_has_format(available, first) {
            return Some(first);
        }
        if slice_has_format(available, second) {
            return Some(second);
        }
        let mut i: usize = 0;
        while i < available.len()
            invariant
                i <= available@.len(),
                forall|j: int| 0 <= j < i ==> is_compressed_format(#[trigger] available@[j]),
                !available@.contains(first),
                !available@.contains(second),
                first == (if is_hardware { PixelFormat::Nv12 } else { PixelFormat::Yuyv }),
                second == (if is_hardware { PixelFormat::Yuyv } else { PixelFormat::Nv12 }),
            decreases available@.len() - i,
        {
            if !available[i].is_compressed() {
                proof {
                    assert(first_uncompressed(available@) == Some(available@[i as int])) by {
                        lemma_first_uncompressed(available@, i as int);
                    }
                }
                return Some(available[i]);
            }
            i = i + 1;
        }
        proof {
            lemma_first_uncompressed_none(available@);
        }
        None
    }

    /// All supported formats.
    pub fn all() -> (r: [PixelFormat; 14])
        ensures
            r@ == spec_all_formats(),
    {
        let r = [
            PixelFormat::Mjpeg,
            PixelFormat::Jpeg,
            PixelFormat::Yuyv,
            PixelFormat::Yvyu,
            PixelFormat::Uyvy,
            PixelFormat::Nv12,
            PixelFormat::Nv16,
            PixelFormat::Nv24,
            PixelFormat::Yuv420,
            PixelFormat::Yvu420,
            PixelFormat::Rgb565,
            PixelFormat::Rgb24,
            PixelFormat::Bgr24,
            PixelFormat::Grey,
        ];
        proof {
            assert(r@ =~= spec_all_formats());
        }
        r
    }

    /// The display name of the format.
    pub fn name(&self) -> (r: &'static str)
        ensures
            r@ == spec_format_name(*self),
    {
        match self {
            PixelFormat::Mjpeg => "MJPEG",
            PixelFormat::Jpeg => "JPEG",
            PixelFormat::Yuyv => "YUYV",
            PixelFormat::Yvyu => "YVYU",
            PixelFormat::Uyvy => "UYVY",
            PixelFormat::Nv12 => "NV12",
            PixelFormat::Nv16 => "NV16",
            PixelFormat::Nv24 => "NV24",
            PixelFormat::Yuv420 => "YUV420",
            PixelFormat::Yvu420 => "YVU420",
            PixelFormat::Rgb565 => "RGB565",
            PixelFormat::Rgb24 => "RGB24",
            PixelFormat::Bgr24 => "BGR24",
            PixelFormat::Grey => "GREY",
        }
    }
}

pub open spec fn is_compressed_format(f: PixelFormat) -> bool {
    f == PixelFormat::Mjpeg || f == PixelFormat::Jpeg
}

pub open spec fn spec_bytes_per_pixel(f: PixelFormat) -> Option<usize> {
    match f {
        PixelFormat::Yuyv | PixelFormat::Yvyu | PixelFormat::Uyvy | PixelFormat::Rgb565 => Some(2),
        PixelFormat::Rgb24 | PixelFormat::Bgr24 => Some(3),
        PixelFormat::Grey => Some(1),
        _ => None,
    }
}

/// Bytes of one frame: packed 4:2:2 and RGB565 take two bytes per pixel,
/// 4:2:0 one and a half, NV16 two, NV24 and RGB three, grey one.
pub open spec fn spec_frame_size(f: PixelFormat, r: Resolution) -> Option<usize> {
    let p = r.width * r.height;
    match f {
        PixelFormat::Mjpeg | PixelFormat::Jpeg => None,
        PixelFormat::Yuyv | PixelFormat::Yvyu | PixelFormat::Uyvy | PixelFormat::Nv16
        | PixelFormat::Rgb565 => Some((p * 2) as usize),
        PixelFormat::Nv12 | PixelFormat::Yuv420 | PixelFormat::Yvu420 => Some((p * 3 / 2) as usize),
        PixelFormat::Nv24 | PixelFormat::Rgb24 | PixelFormat::Bgr24 => Some((p * 3) as usize),
        PixelFormat::Grey => Some(p as usize),
    }
}

pub open spec fn spec_priority(f: PixelFormat) -> u8 {
    match f {
        PixelFormat::Mjpeg => 100,
        PixelFormat::Jpeg => 99,
        PixelFormat::Yuyv => 80,
        PixelFormat::Nv12 => 75,
        PixelFormat::Yuv420 => 70,
        PixelFormat::Uyvy => 65,
        PixelFormat::Yvyu => 64,
        PixelFormat::Yvu420 => 63,
        PixelFormat::Nv16 => 60,
        PixelFormat::Nv24 => 55,
        PixelFormat::Rgb24 => 50,
        PixelFormat::Bgr24 => 49,
        PixelFormat::Rgb565 => 40,
        PixelFormat::Grey => 10,
    }
}

pub open spec fn spec_format_name(f: PixelFormat) -> Seq<char> {
    match f {
        PixelFormat::Mjpeg => "MJPEG"@,
        PixelFormat::Jpeg => "JPEG"@,
        PixelFormat::Yuyv => "YUYV"@,
        PixelFormat::Yvyu => "YVYU"@,
        PixelFormat::Uyvy => "UYVY"@,
        PixelFormat::Nv12 => "NV12"@,
        PixelFormat::Nv16 => "NV16"@,
        PixelFormat::Nv24 => "NV24"@,
        PixelFormat::Yuv420 => "YUV420"@,
        PixelFormat::Yvu420 => "YVU420"@,
        PixelFormat::Rgb565 => "RGB565"@,
        PixelFormat::Rgb24 => "RGB24"@,
        PixelFormat::Bgr24 => "BGR24"@,
        PixelFormat::Grey => "GREY"@,
    }
}

pub open spec fn spec_all_formats() -> Seq<PixelFormat> {
    seq![
        PixelFormat::Mjpeg,
        PixelFormat::Jpeg,
        PixelFormat::Yuyv,
        PixelFormat::Yvyu,
        PixelFormat::Uyvy,
        PixelFormat::Nv12,
        PixelFormat::Nv16,
        PixelFormat::Nv24,
        PixelFormat::Yuv420,
        PixelFormat::Yvu420,
        PixelFormat::Rgb565,
        PixelFormat::Rgb24,
        PixelFormat::Bgr24,
        PixelFormat::Grey,
    ]
}

pub proof fn lemma_all_formats_complete(f: PixelFormat)
    ensures
        spec_all_formats().contains(f),
{
    let a = spec_all_formats();
    match f {
        PixelFormat::Mjpeg => assert(a[0] == f),
        PixelFormat::Jpeg => assert(a[1] == f),
        PixelFormat::Yuyv => assert(a[2] == f),
        PixelFormat::Yvyu => assert(a[3] == f),
        PixelFormat::Uyvy => assert(a[4] == f),
        PixelFormat::Nv12 => assert(a[5] == f),
        PixelFormat::Nv16 => assert(a[6] == f),
        PixelFormat::Nv24 => assert(a[7] == f),
        PixelFormat::Yuv420 => assert(a[8] == f),
        PixelFormat::Yvu420 => assert(a[9] == f),
        PixelFormat::Rgb565 => assert(a[10] == f),
        PixelFormat::Rgb24 => assert(a[11] == f),
        PixelFormat::Bgr24 => assert(a[12] == f),
        PixelFormat::Grey => assert(a[13] == f),
    }
}

/// Distinct formats have distinct FourCCs, and none is an alias.
pub proof fn lemma_fourcc_injective(f: PixelFormat)
    ensures
        forall|g: PixelFormat| spec_fourcc(g) == spec_fourcc(f) ==> g == f,
        spec_fourcc(f) != seq![73u8, 52u8, 50u8, 48u8],
        spec_fourcc(f) != seq![89u8, 56u8, 48u8, 48u8],
        spec_from_fourcc(spec_fourcc(f)) == Some(f),
{
    assert forall|g: PixelFormat| spec_fourcc(g) == spec_fourcc(f) implies g == f by {
        let a = spec_fourcc(f);
        let b = spec_fourcc(g);
        assert(a[0] == b[0] && a[1] == b[1] && a[2] == b[2] && a[3] == b[3]);
    }
    assert(spec_fourcc(f)[3] != 48u8 || spec_fourcc(f) != seq![73u8, 52u8, 50u8, 48u8]);
    assert(spec_fourcc(f)[3] != 48u8 || spec_fourcc(f) != seq![89u8, 56u8, 48u8, 48u8]);
}

/// Whether `f` occurs in `available`.
pub fn slice_has_format(available: &[PixelFormat], f: PixelFormat) -> (r: bool)
    ensures
        r == available@.contains(f),
{
    let mut i: usize = 0;
    while i < available.len()
        invariant
            i <= available@.len(),
            forall|j: int| 0 <= j < i ==> available@[j] != f,
        decreases available@.len() - i,
    {
        if available[i] == f {
            return true;
        }
        i = i + 1;
    }
    false
}

/// The first uncompressed format in the list.
pub open spec fn first_uncompressed(s: Seq<PixelFormat>) -> Option<PixelFormat>
    decreases s.len(),
{
    if s.len() == 0 {
        None
    } else if !is_compressed_format(s[0]) {
        Some(s[0])
    } else {
        first_uncompressed(s.drop_first())
    }
}

proof fn lemma_first_uncompressed(s: Seq<PixelFormat>, i: int)
    requires
        0 <= i < s.len(),
        !is_compressed_format(s[i]),
        forall|j: int| 0 <= j < i ==> is_compressed_format(#[trigger] s[j]),
    ensures
        first_uncompressed(s) == Some(s[i]),
    decreases i,
{
    if i > 0 {
        lemma_first_uncompressed(s.drop_first(), i - 1);
    }
}

proof fn lemma_first_uncompressed_none(s: Seq<PixelFormat>)
    requires
        forall|j: int| 0 <= j < s.len() ==> is_compressed_format(#[trigger] s[j]),
    ensures
        first_uncompressed(s) == None::<PixelFormat>,
    decreases s.len(),
{
    if s.len() > 0 {
        lemma_first_uncompressed_none(s.drop_first());
    }
}

pub open spec fn spec_recommended_for_encoding(available: Seq<PixelFormat>, is_hardware: bool) -> Option<
    PixelFormat,
> {
    let first = if is_hardware {
        PixelFormat::Nv12
    } else {
        PixelFormat::Yuyv
    };
    let second = if is_hardware {
        PixelFormat::Yuyv
    } else {
        PixelFormat::Nv12
    };
    if available.contains(first) {
        Some(first)
    } else if available.contains(second) {
        Some(second)
    } else {
        first_uncompressed(available)
    }
}

/// The upper-case spellings accepted by `parse_pixel_format`.
pub open spec fn spec_format_from_upper(u: Seq<char>) -> Option<PixelFormat> {
    if u == "MJPEG"@ || u == "MJPG"@ {
        Some(PixelFormat::Mjpeg)
    } else if u == "JPEG"@ {
        Some(PixelFormat::Jpeg)
    } else if u == "YUYV"@ {
        Some(PixelFormat::Yuyv)
    } else if u == "YVYU"@ {
        Some(PixelFormat::Yvyu)
    } else if u == "UYVY"@ {
        Some(PixelFormat::Uyvy)
    } else if u == "NV12"@ {
        Some(PixelFormat::Nv12)
    } else if u == "NV16"@ {
        Some(PixelFormat::Nv16)
    } else if u == "NV24"@ {
        Some(PixelFormat::Nv24)
    } else if u == "YUV420"@ || u == "I420"@ {
        Some(PixelFormat::Yuv420)
    } else if u == "YVU420"@ || u == "YV12"@ {
        Some(PixelFormat::Yvu420)
    } else if u == "RGB565"@ {
        Some(PixelFormat::Rgb565)
    } else if u == "RGB24"@ {
        Some(PixelFormat::Rgb24)
    } else if u == "BGR24"@ {
        Some(PixelFormat::Bgr24)
    } else if u == "GREY"@ || u == "GRAY"@ {
        Some(PixelFormat::Grey)
    } else {
        None
    }
}

/// The format named by an upper-case spelling.
pub fn format_from_upper(u: &str) -> (r: Option<PixelFormat>)
    ensures
        r == spec_format_from_upper(u@),
{
    if str_eq(u, "MJPEG") || str_eq(u, "MJPG") {
        Some(PixelFormat::Mjpeg)
    } else if str_eq(u, "JPEG") {
        Some(PixelFormat::Jpeg)
    } else if str_eq(u, "YUYV") {
        Some(PixelFormat::Yuyv)
    } else if str_eq(u, "YVYU") {
        Some(PixelFormat::Yvyu)
    } else if str_eq(u, "UYVY") {
        Some(PixelFormat::Uyvy)
    } else if str_eq(u, "NV12") {
        Some(PixelFormat::Nv12)
    } else if str_eq(u, "NV16") {
        Some(PixelFormat::Nv16)
    } else if str_eq(u, "NV24") {
        Some(PixelFormat::Nv24)
    } else if str_eq(u, "YUV420") || str_eq(u, "I420") {
        Some(PixelFormat::Yuv420)
    } else if str_eq(u, "YVU420") || str_eq(u, "YV12") {
        Some(PixelFormat::Yvu420)
    } else if str_eq(u, "RGB565") {
        Some(PixelFormat::Rgb565)
    } else if str_eq(u, "RGB24") {
        Some(PixelFormat::Rgb24)
    } else if str_eq(u, "BGR24") {
        Some(PixelFormat::Bgr24)
    } else if str_eq(u, "GREY") || str_eq(u, "GRAY") {
        Some(PixelFormat::Grey)
    } else {
        None
    }
}

/// Parses a format name, case-insensitively; the error names the input.
pub fn parse_pixel_format(s: &str) -> (r: Result<PixelFormat, String>)
    ensures
        match r {
            Ok(f) => spec_format_from_upper(unicode_uppercase(s@)) == Some(f),
            Err(msg) => spec_format_from_upper(unicode_uppercase(s@)) is None && msg@
                == "Unknown pixel format: "@ + s@,
        },
        all_ascii(s@) ==> match r {
            Ok(f) => spec_format_from_upper(upper_ascii(s@)) == Some(f),
            Err(_) => spec_format_from_upper(upper_ascii(s@)) is None,
        },
{
    let upper = to_uppercase(s);
    match format_from_upper(upper.as_str()) {
        Some(f) => Ok(f),
        None => Err(crate::text::concat_str("Unknown pixel format: ", s)),
    }
}

/// Every format's name parses back to the format: the name is ASCII, and
/// its upper-case form is one of the accepted spellings of that format.
pub proof fn lemma_format_name_parses_back(f: PixelFormat)
    ensures
        all_ascii(spec_format_name(f)),
        spec_format_from_upper(upper_ascii(spec_format_name(f))) == Some(f),
{
    reveal_strlit("MJPEG");
    reveal_strlit("MJPG");
    reveal_strlit("JPEG");
    reveal_strlit("YUYV");
    reveal_strlit("YVYU");
    reveal_strlit("UYVY");
    reveal_strlit("NV12");
    reveal_strlit("NV16");
    reveal_strlit("NV24");
    reveal_strlit("YUV420");
    reveal_strlit("I420");
    reveal_strlit("YVU420");
    reveal_strlit("YV12");
    reveal_strlit("RGB565");
    reveal_strlit("RGB24");
    reveal_strlit("BGR24");
    reveal_strlit("GREY");
    reveal_strlit("GRAY");
    let n = spec_format_name(f);
    assert(upper_ascii(n) =~= n);
    match f {
        PixelFormat::Mjpeg => {

        },
        PixelFormat::Jpeg => {
            assert(n[0] != "MJPG"@[0]);
        },
        PixelFormat::Yuyv => {
            assert(n[0] != "MJPG"@[0]);
            assert(n[0] != "JPEG"@[0]);
        },
        PixelFormat::Yvyu => {
            assert(n[0] != "MJPG"@[0]);
            assert(n[0] != "JPEG"@[0]);
            assert(n[1] != "YUYV"@[1]);
        },
        PixelFormat::Uyvy => {
            assert(n[0] != "MJPG"@[0]);
            assert(n[0] != "JPEG"@[0]);
            assert(n[0] != "YUYV"@[0]);
            assert(n[0] != "YVYU"@[0]);
        },
        PixelFormat::Nv12 => {
            assert(n[0] != "MJPG"@[0]);
            assert(n[0] != "JPEG"@[0]);
            assert(n[0] != "YUYV"@[0]);
            assert(n[0] != "YVYU"@[0]);
            assert(n[0] != "UYVY"@[0]);
        },
        PixelFormat::Nv16 => {
            assert(n[0] != "MJPG"@[0]);
            assert(n[0] != "JPEG"@[0]);
            assert(n[0] != "YUYV"@[0]);
            assert(n[0] != "YVYU"@[0]);
            assert(n[0] != "UYVY"@[0]);
            assert(n[3] != "NV12"@[3]);
        },
        PixelFormat::Nv24 => {
            assert(n[0] != "MJPG"@[0]);
            assert(n[0] != "JPEG"@[0]);
            assert(n[0] != "YUYV"@[0]);
            assert(n[0] != "YVYU"@[0]);
            assert(n[0] != "UYVY"@[0]);
            assert(n[2] != "NV12"@[2]);
            assert(n[2] != "NV16"@[2]);
        },
        PixelFormat::Yuv420 => {

        },
        PixelFormat::Yvu420 => {
            assert(n[1] != "YUV420"@[1]);
        },
        PixelFormat::Rgb565 => {
            assert(n[0] != "YUV420"@[0]);
            assert(n[0] != "YVU420"@[0]);
        },
        PixelFormat::Rgb24 => {
            assert(n[0] != "MJPEG"@[0]);
        },
        PixelFormat::Bgr24 => {
            assert(n[0] != "MJPEG"@[0]);
            assert(n[0] != "RGB24"@[0]);
        },
        PixelFormat::Grey => {
            assert(n[0] != "MJPG"@[0]);
            assert(n[0] != "JPEG"@[0]);
            assert(n[0] != "YUYV"@[0]);
            assert(n[0] != "YVYU"@[0]);
            assert(n[0] != "UYVY"@[0]);
            assert(n[0] != "NV12"@[0]);
            assert(n[0] != "NV16"@[0]);
            assert(n[0] != "NV24"@[0]);
            assert(n[0] != "I420"@[0]);
            assert(n[0] != "YV12"@[0]);
        },
    }
}

impl Resolution {
    /// 640x480.
    #[allow(non_snake_case)]
    pub fn VGA() -> (r: Resolution)
        ensures
            r.width == 640 && r.height == 480,
    {
        Resolution { width: 640, height: 480 }
    }

    /// 1280x720.
    #[allow(non_snake_case)]
    pub fn HD720() -> (r: Resolution)
        ensures
            r.width == 1280 && r.height == 720,
    {
        Resolution { width: 1280, height: 720 }
    }

    /// 1920x1080.
    #[allow(non_snake_case)]
    pub fn HD1080() -> (r: Resolution)
        ensures
            r.width == 1920 && r.height == 1080,
    {
        Resolution { width: 1920, height: 1080 }
    }

    /// 3840x2160.
    #[allow(non_snake_case)]
    pub fn UHD4K() -> (r: Resolution)
        ensures
            r.width == 3840 && r.height == 2160,
    {
        Resolution { width: 3840, height: 2160 }
    }

    pub fn new(width: u32, height: u32) -> (r: Resolution)
        ensures
            r.width == width,
            r.height == height,
    {
        Resolution { width, height }
    }

    /// Within 160x120 ..= 15360x8640.
    pub fn is_valid(&self) -> (r: bool)
        ensures
            r == (160 <= self.width <= 15360 && 120 <= self.height <= 8640),
    {
        self.width >= 160 && self.width <= 15360 && self.height >= 120 && self.height <= 8640
    }

    /// Total pixels.
    pub fn pixels(&self) -> (r: u64)
        ensures
            r == self.width * self.height,
    {
        proof {
            vstd::arithmetic::mul::lemma_mul_upper_bound(
                self.width as int,
                u32::MAX as int,
                self.height as int,
                u32::MAX as int,
            );
        }
        self.width as u64 * self.height as u64
    }
}

impl From<(u32, u32)> for Resolution {
    fn from(wh: (u32, u32)) -> (r: Resolution) {
        Resolution { width: wh.0, height: wh.1 }
    }
}

impl vstd::std_specs::convert::FromSpecImpl<(u32, u32)> for Resolution {
    open spec fn obeys_from_spec() -> bool {
        true
    }

    open spec fn from_spec(wh: (u32, u32)) -> Resolution {
        Resolution { width: wh.0, height: wh.1 }
    }
}

/// Frame sizes follow the layouts: a format with a fixed number of bytes per
/// pixel takes that many per pixel; NV16 is a luma plane and a chroma plane
/// of half-width pairs on every row; NV24 a luma plane and a full-size pair
/// plane; compressed formats have no fixed size.
pub proof fn lemma_frame_size_follows_layout(f: PixelFormat, r: Resolution)
    requires
        r.width * r.height * 3 <= usize::MAX,
        r.width % 2 == 0,
    ensures
        spec_bytes_per_pixel(f) matches Some(b) ==> spec_frame_size(f, r) == Some(
            (b * (r.width * r.height)) as usize,
        ),
        f == PixelFormat::Nv16 ==> spec_frame_size(f, r) == Some(
            (r.width * r.height + 2 * ((r.width / 2) * r.height)) as usize,
        ),
        f == PixelFormat::Nv24 ==> spec_frame_size(f, r) == Some(
            (r.width * r.height + 2 * (r.width * r.height)) as usize,
        ),
        spec_frame_size(f, r) is None <==> is_compressed_format(f),
{
    let w = r.width as int;
    let h = r.height as int;
    assert(2 * ((w / 2) * h) == w * h) by (nonlinear_arith)
        requires
            w % 2 == 0,
            w >= 0,
    ;
    assert(2 * (w * h) == (w * h) * 2 && 3 * (w * h) == (w * h) * 3 && 1 * (w * h) == w * h) by (nonlinear_arith);
}

} // verus!
