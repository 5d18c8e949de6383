//! The rules of the JPEG encoder: which inputs it takes, how large each must
//! be, and the quality it passes on. The colour conversion (libyuv) and the
//! compression (turbojpeg) are the libraries' own.
use vstd::prelude::*;
use vstd::string::StringExecFns;
use crate::format::{spec_bytes_per_pixel, spec_format_name, spec_frame_size, PixelFormat, Resolution};
use crate::text::{decimal, push_decimal};

verus! {

/// How a frame reaches I420 before compression.
#[derive(Debug, Clone, Copy, PartialEq, Eq, Structural)]
pub enum JpegInput {
    Yuyv,
    Nv12,
    Rgb24,
    Bgr24,
}

pub open spec fn spec_jpeg_input(format: PixelFormat) -> Option<JpegInput> {
    match format {
        PixelFormat::Yuyv | PixelFormat::Yvyu => Some(JpegInput::Yuyv),
        PixelFormat::Nv12 => Some(JpegInput::Nv12),
        PixelFormat::Rgb24 => Some(JpegInput::Rgb24),
        PixelFormat::Bgr24 => Some(JpegInput::Bgr24),
        _ => None,
    }
}

/// The conversion a capture format takes; YVYU goes the YUYV way.
pub fn jpeg_input_for(format: PixelFormat) -> (r: Option<JpegInput>)
    ensures
        r == spec_jpeg_input(format),
{
    match format {
        PixelFormat::Yuyv | PixelFormat::Yvyu => Some(JpegInput::Yuyv),
        PixelFormat::Nv12 => Some(JpegInput::Nv12),
        PixelFormat::Rgb24 => Some(JpegInput::Rgb24),
        PixelFormat::Bgr24 => Some(JpegInput::Bgr24),
        _ => None,
    }
}

/// Whether the JPEG encoder takes frames in `format`.
pub fn jpeg_supports_format(format: PixelFormat) -> (r: bool)
    ensures
        r == (spec_jpeg_input(format) is Some),
{
    jpeg_input_for(format).is_some()
}

/// The refusal of a format the encoder does not take.
pub fn unsupported_jpeg_input_message(format: PixelFormat) -> (r: String)
    ensures
        r@ == "Unsupported input format for JPEG: "@ + spec_format_name(format),
{
    let mut m = String::from_str("Unsupported input format for JPEG: ");
    m.append(format.name());
    m
}

/// The bytes an input of `width` x `height` must hold.
pub open spec fn spec_expected_size(input: JpegInput, w: int, h: int) -> int {
    match input {
        JpegInput::Yuyv => w * h * 2,
        JpegInput::Nv12 => w * h * 3 / 2,
        JpegInput::Rgb24 | JpegInput::Bgr24 => w * h * 3,
    }
}

pub open spec fn spec_input_label(input: JpegInput) -> Seq<char> {
    match input {
        JpegInput::Yuyv => "YUYV"@,
        JpegInput::Nv12 => "NV12"@,
        JpegInput::Rgb24 => "RGB"@,
        JpegInput::Bgr24 => "BGR"@,
    }
}

/// Whether a frame of `len` bytes is large enough; the error gives both
/// sizes.
pub fn check_jpeg_input(input: JpegInput, resolution: Resolution, len: usize) -> (r: Result<(), String>)
    requires
        resolution.width * resolution.height * 3 <= usize::MAX,
    ensures
        ({
            let expected = spec_expected_size(
                input,
                resolution.width as int,
                resolution.height as int,
            );
            match r {
                Ok(()) => len >= expected,
                Err(m) => len < expected && m@ == spec_input_label(input) + " data too small: "@
                    + decimal(len as nat) + " < "@ + decimal(expected as nat),
            }
        }),
{
    let w = resolution.width as usize;
    let h = resolution.height as usize;
    assert(w * h * 3 <= usize::MAX);
    assert(w * h * 2 <= w * h * 3) by (nonlinear_arith)
        requires
            w * h >= 0,
    ;
    let expected: usize = match input {
        JpegInput::Yuyv => w * h * 2,
        JpegInput::Nv12 => w * h * 3 / 2,
        JpegInput::Rgb24 | JpegInput::Bgr24 => w * h * 3,
    };
    if len < expected {
        let mut m = String::new();
        match input {
            JpegInput::Yuyv => m.append("YUYV"),
            JpegInput::Nv12 => m.append("NV12"),
            JpegInput::Rgb24 => m.append("RGB"),
            JpegInput::Bgr24 => m.append("BGR"),
        }
        m.append(" data too small: ");
        push_decimal(&mut m, len as u64);
        m.append(" < ");
        push_decimal(&mut m, expected as u64);
        return Err(m);
    }
    Ok(())
}

/// The bytes of the I420 buffer the frame is converted into.
pub fn i420_buffer_len(resolution: Resolution) -> (r: usize)
    requires
        resolution.width * resolution.height * 3 <= usize::MAX,
    ensures
        r == resolution.width * resolution.height * 3 / 2,
{
    let w = resolution.width as usize;
    let h = resolution.height as usize;
    w * h * 3 / 2
}

/// The quality handed to the compressor: at most 100.
pub fn jpeg_quality_setting(quality: u32) -> (r: i32)
    ensures
        r == if quality < 100 {
            quality as int
        } else {
            100
        },
{
    if quality < 100 {
        quality as i32
    } else {
        100
    }
}

/// A JPEG input must hold one whole frame of the capture format it comes
/// from: its expected size is that format's frame size, and for packed
/// formats its bytes per pixel times the pixels.
pub proof fn lemma_jpeg_input_holds_one_frame(f: PixelFormat, r: Resolution)
    requires
        spec_jpeg_input(f) is Some,
        r.width * r.height * 3 <= usize::MAX,
    ensures
        spec_frame_size(f, r) == Some(
            spec_expected_size(spec_jpeg_input(f).unwrap(), r.width as int, r.height as int) as usize,
        ),
        spec_bytes_per_pixel(f) matches Some(bpp) ==> spec_expected_size(
            spec_jpeg_input(f).unwrap(),
            r.width as int,
            r.height as int,
        ) == bpp * (r.width * r.height),
{
    let w = r.width as int;
    let h = r.height as int;
    assert(w * h * 2 == (w * h) * 2 && w * h * 3 == (w * h) * 3 && w * h * 3 / 2 == (w * h) * 3 / 2) by (nonlinear_arith);
    assert(2 * (w * h) == (w * h) * 2 && 3 * (w * h) == (w * h) * 3) by (nonlinear_arith);
}

} // verus!
