//! How the shared pipeline picks its encoder: which registered codec encodes,
//! whether frames go to an RKMPP encoder without conversion, and what input
//! format the chosen codec is handed.
use vstd::prelude::*;
use vstd::string::StringExecFns;
use crate::encoder::{
    spec_h265_input_pixel_format, spec_input_pixel_format, H264InputFormat, H265InputFormat,
};
use crate::format::{is_compressed_format, PixelFormat};
use crate::registry::{
    first_of_backend, AvailableEncoder, EncoderBackend, EncoderRegistry, VideoEncoderType,
};
use crate::text::{seq_contains, str_contains};

verus! {

/// The codec the pipeline encodes with, and how frames reach it.
#[derive(Debug, Clone)]
pub struct EncoderSelection {
    /// FFmpeg name of the chosen codec
    pub codec_name: String,
    /// Frames go to the RKMPP encoder in their capture format.
    pub rkmpp_direct: bool,
    /// YUYV frames go to the RKMPP encoder as they are.
    pub yuyv_direct: bool,
}

/// The registry entry `backend` picks for `format`: the first of that backend
/// when one is named, else the best available entry.
pub open spec fn spec_entry_for(
    reg: EncoderRegistry,
    format: VideoEncoderType,
    backend: Option<EncoderBackend>,
) -> Option<AvailableEncoder> {
    let s = reg.encoders(format);
    match backend {
        Some(b) => {
            let i = first_of_backend(s, b);
            if i < s.len() {
                Some(s[i])
            } else {
                None
            }
        },
        None => if s.len() > 0 {
            Some(s[0])
        } else {
            None
        },
    }
}

/// The capture formats an RKMPP encoder takes as they are.
pub open spec fn spec_rkmpp_direct_format(f: PixelFormat) -> bool {
    f == PixelFormat::Yuyv || f == PixelFormat::Yuv420 || f == PixelFormat::Rgb24 || f
        == PixelFormat::Bgr24 || f == PixelFormat::Nv12 || f == PixelFormat::Nv16 || f
        == PixelFormat::Nv24
}

/// Frames go to RKMPP unconverted: an RKMPP H.264 encoder is registered and
/// the input is an uncompressed format it takes.
pub open spec fn spec_rkmpp_direct(reg: EncoderRegistry, input: PixelFormat) -> bool {
    &&& spec_entry_for(reg, VideoEncoderType::H264, Some(EncoderBackend::Rkmpp)) is Some
    &&& !is_compressed_format(input)
    &&& spec_rkmpp_direct_format(input)
}

/// The backend the choice goes by: RKMPP for H.264 and H.265 when frames go
/// to it unconverted, else the configured one.
pub open spec fn spec_selection_backend(
    reg: EncoderRegistry,
    output: VideoEncoderType,
    input: PixelFormat,
    backend: Option<EncoderBackend>,
) -> Option<EncoderBackend> {
    if (output == VideoEncoderType::H264 || output == VideoEncoderType::H265) && spec_rkmpp_direct(
        reg,
        input,
    ) {
        Some(EncoderBackend::Rkmpp)
    } else {
        backend
    }
}

/// How an output format is named in selection errors.
pub open spec fn spec_output_label(f: VideoEncoderType) -> Seq<char> {
    match f {
        VideoEncoderType::H264 => "H.264"@,
        VideoEncoderType::H265 => "H.265"@,
        VideoEncoderType::VP8 => "VP8"@,
        VideoEncoderType::VP9 => "VP9"@,
    }
}

/// The debug spelling of a backend.
pub open spec fn spec_backend_debug(b: EncoderBackend) -> Seq<char> {
    match b {
        EncoderBackend::Vaapi => "Vaapi"@,
        EncoderBackend::Nvenc => "Nvenc"@,
        EncoderBackend::Qsv => "Qsv"@,
        EncoderBackend::Amf => "Amf"@,
        EncoderBackend::Rkmpp => "Rkmpp"@,
        EncoderBackend::V4l2m2m => "V4l2m2m"@,
        EncoderBackend::Software => "Software"@,
    }
}

/// The error when no entry is found, one message per branch of the choice.
pub open spec fn spec_selection_error(
    reg: EncoderRegistry,
    output: VideoEncoderType,
    input: PixelFormat,
    backend: Option<EncoderBackend>,
) -> Seq<char> {
    if (output == VideoEncoderType::H264 || output == VideoEncoderType::H265) && spec_rkmpp_direct(
        reg,
        input,
    ) {
        "RKMPP backend not available for "@ + spec_output_label(output)
    } else {
        match backend {
            Some(b) => "Backend "@ + spec_backend_debug(b) + " does not support "@
                + spec_output_label(output),
            None => "No "@ + spec_output_label(output) + " encoder available"@,
        }
    }
}

fn output_label(f: VideoEncoderType) -> (r: &'static str)
    ensures
        r@ == spec_output_label(f),
{
    match f {
        VideoEncoderType::H264 => "H.264",
        VideoEncoderType::H265 => "H.265",
        VideoEncoderType::VP8 => "VP8",
        VideoEncoderType::VP9 => "VP9",
    }
}

/// The debug spelling of a backend, as selection errors print it.
pub fn backend_debug_name(b: EncoderBackend) -> (r: &'static str)
    ensures
        r@ == spec_backend_debug(b),
{
    match b {
        EncoderBackend::Vaapi => "Vaapi",
        EncoderBackend::Nvenc => "Nvenc",
        EncoderBackend::Qsv => "Qsv",
        EncoderBackend::Amf => "Amf",
        EncoderBackend::Rkmpp => "Rkmpp",
        EncoderBackend::V4l2m2m => "V4l2m2m",
        EncoderBackend::Software => "Software",
    }
}

/// Whether an RKMPP encoder takes `f` as it is.
pub fn is_rkmpp_direct_format(f: PixelFormat) -> (r: bool)
    ensures
        r == spec_rkmpp_direct_format(f),
{
    match f {
        PixelFormat::Yuyv | PixelFormat::Yuv420 | PixelFormat::Rgb24 | PixelFormat::Bgr24
        | PixelFormat::Nv12 | PixelFormat::Nv16 | PixelFormat::Nv24 => true,
        _ => false,
    }
}

fn entry_for<'a>(
    registry: &'a EncoderRegistry,
    format: VideoEncoderType,
    backend: Option<EncoderBackend>,
) -> (r: Option<&'a AvailableEncoder>)
    ensures
        match r {
            Some(e) => spec_entry_for(*registry, format, backend) == Some(*e),
            None => spec_entry_for(*registry, format, backend) is None,
        },
{
    match backend {
        Some(b) => registry.encoder_with_backend(format, b),
        None => registry.best_available_encoder(format),
    }
}

/// The encoder the shared pipeline uses for `output` with frames of `input`:
/// RKMPP for H.264 and H.265 when an RKMPP H.264 encoder is registered and the
/// input is an uncompressed format it takes; else the configured backend's
/// first encoder; else the best available one. The error names the branch
/// that found nothing.
pub fn select_pipeline_encoder(
    registry: &EncoderRegistry,
    output: VideoEncoderType,
    input: PixelFormat,
    backend: Option<EncoderBackend>,
) -> (r: Result<EncoderSelection, String>)
    ensures
        ({
            let entry = spec_entry_for(
                *registry,
                output,
                spec_selection_backend(*registry, output, input, backend),
            );
            match r {
                Ok(sel) => {
                    &&& entry matches Some(e) && sel.codec_name@ == e.codec_name@
                    &&& sel.rkmpp_direct == spec_rkmpp_direct(*registry, input)
                    &&& sel.yuyv_direct == (spec_rkmpp_direct(*registry, input) && input
                        == PixelFormat::Yuyv)
                },
                Err(m) => entry is None && m@ == spec_selection_error(
                    *registry,
                    output,
                    input,
                    backend,
                ),
            }
        }),
{
    let rkmpp_available = entry_for(
        registry,
        VideoEncoderType::H264,
        Some(EncoderBackend::Rkmpp),
    ).is_some();
    let compressed = input == PixelFormat::Mjpeg || input == PixelFormat::Jpeg;
    let rkmpp_direct = rkmpp_available && !compressed && is_rkmpp_direct_format(input);
    let yuyv_direct = rkmpp_available && !compressed && input == PixelFormat::Yuyv;
    let use_rkmpp = rkmpp_direct && (output == VideoEncoderType::H264 || output
        == VideoEncoderType::H265);
    let chosen = if use_rkmpp {
        Some(EncoderBackend::Rkmpp)
    } else {
        backend
    };
    match entry_for(registry, output, chosen) {
        Some(e) => Ok(
            EncoderSelection { codec_name: e.codec_name.clone(), rkmpp_direct, yuyv_direct },
        ),
        None => {
            let label = output_label(output);
            if use_rkmpp {
                let mut m = String::from_str("RKMPP backend not available for ");
                m.append(label);
                Err(m)
            } else {
                match backend {
                    Some(b) => {
                        let mut m = String::from_str("Backend ");
                        m.append(backend_debug_name(b));
                        m.append(" does not support ");
                        m.append(label);
                        Err(m)
                    },
                    None => {
                        let mut m = String::from_str("No ");
                        m.append(label);
                        m.append(" encoder available");
                        Err(m)
                    },
                }
            }
        },
    }
}

/// The format frames have when they reach the encoder: compressed capture is
/// decoded to RGB24, the rest is passed on.
pub fn pipeline_input_format(input: PixelFormat) -> (r: PixelFormat)
    ensures
        r == if is_compressed_format(input) {
            PixelFormat::Rgb24
        } else {
            input
        },
{
    if input == PixelFormat::Mjpeg || input == PixelFormat::Jpeg {
        PixelFormat::Rgb24
    } else {
        input
    }
}

/// The H.264 input format a codec takes `f` in without conversion: RKMPP
/// takes every format it accepts directly, libx264 the planar 4:2:0 and
/// semi-planar ones.
pub open spec fn spec_h264_direct(name: Seq<char>, f: PixelFormat) -> Option<H264InputFormat> {
    if seq_contains(name, "rkmpp"@) {
        match f {
            PixelFormat::Yuyv => Some(H264InputFormat::Yuyv422),
            PixelFormat::Yuv420 => Some(H264InputFormat::Yuv420p),
            PixelFormat::Rgb24 => Some(H264InputFormat::Rgb24),
            PixelFormat::Bgr24 => Some(H264InputFormat::Bgr24),
            PixelFormat::Nv12 => Some(H264InputFormat::Nv12),
            PixelFormat::Nv16 => Some(H264InputFormat::Nv16),
            PixelFormat::Nv24 => Some(H264InputFormat::Nv24),
            _ => None,
        }
    } else if seq_contains(name, "libx264"@) {
        match f {
            PixelFormat::Nv12 => Some(H264InputFormat::Nv12),
            PixelFormat::Nv16 => Some(H264InputFormat::Nv16),
            PixelFormat::Yuv420 => Some(H264InputFormat::Yuv420p),
            _ => None,
        }
    } else {
        None
    }
}

/// The H.264 input format `codec_name` takes `f` in without conversion.
pub fn h264_direct_input_format(codec_name: &str, f: PixelFormat) -> (r: Option<H264InputFormat>)
    ensures
        r == spec_h264_direct(codec_name@, f),
{
    if str_contains(codec_name, "rkmpp") {
        match f {
            PixelFormat::Yuyv => Some(H264InputFormat::Yuyv422),
            PixelFormat::Yuv420 => Some(H264InputFormat::Yuv420p),
            PixelFormat::Rgb24 => Some(H264InputFormat::Rgb24),
            PixelFormat::Bgr24 => Some(H264InputFormat::Bgr24),
            PixelFormat::Nv12 => Some(H264InputFormat::Nv12),
            PixelFormat::Nv16 => Some(H264InputFormat::Nv16),
            PixelFormat::Nv24 => Some(H264InputFormat::Nv24),
            _ => None,
        }
    } else if str_contains(codec_name, "libx264") {
        match f {
            PixelFormat::Nv12 => Some(H264InputFormat::Nv12),
            PixelFormat::Nv16 => Some(H264InputFormat::Nv16),
            PixelFormat::Yuv420 => Some(H264InputFormat::Yuv420p),
            _ => None,
        }
    } else {
        None
    }
}

/// The H.265 input format a codec takes `f` in without conversion: RKMPP
/// takes every format it accepts directly, libx265 only YUV420.
pub open spec fn spec_h265_direct(name: Seq<char>, f: PixelFormat) -> Option<H265InputFormat> {
    if seq_contains(name, "rkmpp"@) {
        match f {
            PixelFormat::Yuyv => Some(H265InputFormat::Yuyv422),
            PixelFormat::Yuv420 => Some(H265InputFormat::Yuv420p),
            PixelFormat::Rgb24 => Some(H265InputFormat::Rgb24),
            PixelFormat::Bgr24 => Some(H265InputFormat::Bgr24),
            PixelFormat::Nv12 => Some(H265InputFormat::Nv12),
            PixelFormat::Nv16 => Some(H265InputFormat::Nv16),
            PixelFormat::Nv24 => Some(H265InputFormat::Nv24),
            _ => None,
        }
    } else if seq_contains(name, "libx265"@) {
        match f {
            PixelFormat::Yuv420 => Some(H265InputFormat::Yuv420p),
            _ => None,
        }
    } else {
        None
    }
}

/// The H.265 input format `codec_name` takes `f` in without conversion.
pub fn h265_direct_input_format(codec_name: &str, f: PixelFormat) -> (r: Option<H265InputFormat>)
    ensures
        r == spec_h265_direct(codec_name@, f),
{
    if str_contains(codec_name, "rkmpp") {
        match f {
            PixelFormat::Yuyv => Some(H265InputFormat::Yuyv422),
            PixelFormat::Yuv420 => Some(H265InputFormat::Yuv420p),
            PixelFormat::Rgb24 => Some(H265InputFormat::Rgb24),
            PixelFormat::Bgr24 => Some(H265InputFormat::Bgr24),
            PixelFormat::Nv12 => Some(H265InputFormat::Nv12),
            PixelFormat::Nv16 => Some(H265InputFormat::Nv16),
            PixelFormat::Nv24 => Some(H265InputFormat::Nv24),
            _ => None,
        }
    } else if str_contains(codec_name, "libx265") {
        match f {
            PixelFormat::Yuv420 => Some(H265InputFormat::Yuv420p),
            _ => None,
        }
    } else {
        None
    }
}

/// The formats that go to RKMPP unconverted are exactly those its H.264 and
/// H.265 encoders take directly, and each is taken in its own layout: the
/// direct input format of an RKMPP codec for `f` accepts frames of `f` as they
/// are. No compressed format goes to RKMPP unconverted.
pub proof fn lemma_rkmpp_direct_formats(name: Seq<char>, f: PixelFormat)
    requires
        seq_contains(name, "rkmpp"@),
    ensures
        spec_rkmpp_direct_format(f) <==> spec_h264_direct(name, f) is Some,
        spec_rkmpp_direct_format(f) <==> spec_h265_direct(name, f) is Some,
        spec_h264_direct(name, f) matches Some(d) ==> spec_input_pixel_format(d) == Some(f),
        spec_h265_direct(name, f) matches Some(d) ==> spec_h265_input_pixel_format(d) == Some(f),
        spec_rkmpp_direct_format(f) ==> !is_compressed_format(f),
{
}

/// The input format an H.264 encoder is configured with: the direct one when
/// there is one, else YUV420P for libx264 and NV12 for the rest.
pub fn h264_encoder_input(codec_name: &str, f: PixelFormat) -> (r: H264InputFormat)
    ensures
        r == match spec_h264_direct(codec_name@, f) {
            Some(d) => d,
            None => if seq_contains(codec_name@, "libx264"@) {
                H264InputFormat::Yuv420p
            } else {
                H264InputFormat::Nv12
            },
        },
{
    match h264_direct_input_format(codec_name, f) {
        Some(d) => d,
        None => if str_contains(codec_name, "libx264") {
            H264InputFormat::Yuv420p
        } else {
            H264InputFormat::Nv12
        },
    }
}

/// The input format an H.265 encoder is configured with: the direct one when
/// there is one, else YUV420P for libx265 and NV12 for the rest.
pub fn h265_encoder_input(codec_name: &str, f: PixelFormat) -> (r: H265InputFormat)
    ensures
        r == match spec_h265_direct(codec_name@, f) {
            Some(d) => d,
            None => if seq_contains(codec_name@, "libx265"@) {
                H265InputFormat::Yuv420p
            } else {
                H265InputFormat::Nv12
            },
        },
{
    match h265_direct_input_format(codec_name, f) {
        Some(d) => d,
        None => if str_contains(codec_name, "libx265") {
            H265InputFormat::Yuv420p
        } else {
            H265InputFormat::Nv12
        },
    }
}

/// How frames of `f` reach the encoder `codec_name`.
#[derive(Debug, Clone, Copy, PartialEq, Eq, Structural)]
pub struct EncoderInputPlan {
    /// The encoder takes the frames as they are.
    pub direct: bool,
    /// The encoder needs YUV420P (else NV12) when the frames are converted.
    pub needs_yuv420p: bool,
}

/// RKMPP takes its direct formats unconverted, libx264 its planar and
/// semi-planar ones; libx264 needs YUV420P for the rest, and libvpx and
/// libx265 always do.
pub open spec fn spec_input_plan(name: Seq<char>, f: PixelFormat) -> EncoderInputPlan {
    let x264_direct = f == PixelFormat::Nv12 || f == PixelFormat::Nv16 || f == PixelFormat::Yuv420;
    EncoderInputPlan {
        direct: if seq_contains(name, "rkmpp"@) {
            spec_rkmpp_direct_format(f)
        } else if seq_contains(name, "libx264"@) {
            x264_direct
        } else {
            false
        },
        needs_yuv420p: if seq_contains(name, "libx264"@) {
            !x264_direct
        } else {
            seq_contains(name, "libvpx"@) || seq_contains(name, "libx265"@)
        },
    }
}

/// Whether frames of `f` go to `codec_name` unconverted, and which format
/// they are converted to otherwise.
pub fn encoder_input_plan(codec_name: &str, f: PixelFormat) -> (r: EncoderInputPlan)
    ensures
        r == spec_input_plan(codec_name@, f),
{
    let x264_direct = f == PixelFormat::Nv12 || f == PixelFormat::Nv16 || f == PixelFormat::Yuv420;
    let is_x264 = str_contains(codec_name, "libx264");
    let direct = if str_contains(codec_name, "rkmpp") {
        is_rkmpp_direct_format(f)
    } else if is_x264 {
        x264_direct
    } else {
        false
    };
    let needs_yuv420p = if is_x264 {
        !x264_direct
    } else {
        str_contains(codec_name, "libvpx") || str_contains(codec_name, "libx265")
    };
    EncoderInputPlan { direct, needs_yuv420p }
}

} // verus!
