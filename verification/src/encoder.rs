//! Encoder and codec configurations, encoder kinds, and the choice of an
//! encoder among those the FFmpeg probe reports.
use vstd::prelude::*;
use crate::format::{PixelFormat, Resolution};
use crate::registry::{
    spec_backend_from_codec_name, CodecInfo, DataFormat, EncoderBackend, EncoderRegistry,
    VideoEncoderType, first_eligible,
};
use crate::text::{decimal, push_decimal, seq_contains, str_contains, string_of};
use vstd::string::StringExecFns;

verus! {

/// Encoder configuration.
#[derive(Debug, Clone, Copy, PartialEq, Eq, Structural)]
pub struct EncoderConfig {
    /// Target resolution
    pub resolution: Resolution,
    /// Input pixel format
    pub input_format: PixelFormat,
    /// Output quality (1-100 for JPEG, bitrate kbps for H264)
    pub quality: u32,
    /// Target frame rate
    pub fps: u32,
    /// Keyframe interval (for H264)
    pub gop_size: u32,
}

impl Default for EncoderConfig {
    fn default() -> (r: EncoderConfig)
        ensures
            r == (EncoderConfig {
                resolution: Resolution { width: 1920, height: 1080 },
                input_format: PixelFormat::Yuyv,
                quality: 80,
                fps: 30,
                gop_size: 30,
            }),
    {
        EncoderConfig {
            resolution: Resolution::HD1080(),
            input_format: PixelFormat::Yuyv,
            quality: 80,
            fps: 30,
            gop_size: 30,
        }
    }
}

impl EncoderConfig {
    /// JPEG: YUYV input, every frame a keyframe.
    pub fn jpeg(resolution: Resolution, quality: u32) -> (r: EncoderConfig)
        ensures
            r == (EncoderConfig { resolution, input_format: PixelFormat::Yuyv, quality, fps: 30, gop_size: 1 }),
    {
        EncoderConfig { resolution, input_format: PixelFormat::Yuyv, quality, fps: 30, gop_size: 1 }
    }

    /// H.264: YUYV input, the bitrate as quality, 30 fps, one-second GOP.
    pub fn h264(resolution: Resolution, bitrate_kbps: u32) -> (r: EncoderConfig)
        ensures
            r == (EncoderConfig {
                resolution,
                input_format: PixelFormat::Yuyv,
                quality: bitrate_kbps,
                fps: 30,
                gop_size: 30,
            }),
    {
        EncoderConfig {
            resolution,
            input_format: PixelFormat::Yuyv,
            quality: bitrate_kbps,
            fps: 30,
            gop_size: 30,
        }
    }
}

/// Encoded output format.
#[derive(Debug, Clone, Copy, PartialEq, Eq, Structural)]
pub enum EncodedFormat {
    Jpeg,
    H264,
    H265,
    Vp8,
    Vp9,
    Av1,
}

pub open spec fn spec_encoded_format_name(format: EncodedFormat) -> Seq<char> {
    match format {
        EncodedFormat::Jpeg => "JPEG"@,
        EncodedFormat::H264 => "H.264"@,
        EncodedFormat::H265 => "H.265"@,
        EncodedFormat::Vp8 => "VP8"@,
        EncodedFormat::Vp9 => "VP9"@,
        EncodedFormat::Av1 => "AV1"@,
    }
}

impl EncodedFormat {
    /// Human-readable name.
    pub fn name(&self) -> (r: &'static str)
        ensures
            r@ == spec_encoded_format_name(*self),
    {
        match self {
            EncodedFormat::Jpeg => "JPEG",
            EncodedFormat::H264 => "H.264",
            EncodedFormat::H265 => "H.265",
            EncodedFormat::Vp8 => "VP8",
            EncodedFormat::Vp9 => "VP9",
            EncodedFormat::Av1 => "AV1",
        }
    }
}

// ---------------------------------------------------------------------------
// WebRTC codec types
// ---------------------------------------------------------------------------

/// Video codecs offered over WebRTC.
#[derive(Debug, Clone, Copy, PartialEq, Eq, Hash, Structural)]
pub enum VideoCodecType {
    /// H.264/AVC - widely supported, good compression
    H264,
    /// VP8 - royalty-free, good browser support
    VP8,
    /// VP9 - better compression than VP8
    VP9,
    /// H.265/HEVC - best compression, limited browser support
    H265,
}

pub open spec fn spec_sdp_name(codec: VideoCodecType) -> Seq<char> {
    match codec {
        VideoCodecType::H264 => "H264"@,
        VideoCodecType::VP8 => "VP8"@,
        VideoCodecType::VP9 => "VP9"@,
        VideoCodecType::H265 => "H265"@,
    }
}

pub open spec fn spec_payload_type(codec: VideoCodecType) -> u8 {
    match codec {
        VideoCodecType::H264 => 96,
        VideoCodecType::VP8 => 97,
        VideoCodecType::VP9 => 98,
        VideoCodecType::H265 => 99,
    }
}

impl VideoCodecType {
    /// The codec name in SDP.
    pub fn sdp_name(&self) -> (r: &'static str)
        ensures
            r@ == spec_sdp_name(*self),
    {
        match self {
            VideoCodecType::H264 => "H264",
            VideoCodecType::VP8 => "VP8",
            VideoCodecType::VP9 => "VP9",
            VideoCodecType::H265 => "H265",
        }
    }

    /// The default RTP payload type: 96 to 99 in the order H264, VP8, VP9, H265.
    pub fn default_payload_type(&self) -> (r: u8)
        ensures
            r == spec_payload_type(*self),
    {
        match self {
            VideoCodecType::H264 => 96,
            VideoCodecType::VP8 => 97,
            VideoCodecType::VP9 => 98,
            VideoCodecType::H265 => 99,
        }
    }

    /// The RTP clock rate, 90 kHz for every video codec.
    pub fn clock_rate(&self) -> (r: u32)
        ensures
            r == 90000,
    {
        90000
    }

    /// The MIME type: `video/` and the SDP name.
    pub fn mime_type(&self) -> (r: &'static str)
        ensures
            r@ == "video/"@ + spec_sdp_name(*self),
    {
        proof {
            reveal_strlit("video/");
            reveal_strlit("H264");
            reveal_strlit("VP8");
            reveal_strlit("VP9");
            reveal_strlit("H265");
            reveal_strlit("video/H264");
            reveal_strlit("video/VP8");
            reveal_strlit("video/VP9");
            reveal_strlit("video/H265");
        }
        match self {
            VideoCodecType::H264 => "video/H264",
            VideoCodecType::VP8 => "video/VP8",
            VideoCodecType::VP9 => "video/VP9",
            VideoCodecType::H265 => "video/H265",
        }
    }
}

/// The codec a factory offers first among those it supports, in the order
/// H264, VP8, VP9, H265.
pub open spec fn spec_best_codec(supported: Seq<VideoCodecType>) -> Option<VideoCodecType> {
    if supported.contains(VideoCodecType::H264) {
        Some(VideoCodecType::H264)
    } else if supported.contains(VideoCodecType::VP8) {
        Some(VideoCodecType::VP8)
    } else if supported.contains(VideoCodecType::VP9) {
        Some(VideoCodecType::VP9)
    } else if supported.contains(VideoCodecType::H265) {
        Some(VideoCodecType::H265)
    } else {
        None
    }
}

/// Whether `codec` is among the codecs a factory supports.
pub fn is_codec_supported(supported: &[VideoCodecType], codec: VideoCodecType) -> (r: bool)
    ensures
        r == supported@.contains(codec),
{
    let mut i: usize = 0;
    while i < supported.len()
        invariant
            0 <= i <= supported@.len(),
            forall|j: int| 0 <= j < i ==> supported@[j] != codec,
        decreases supported@.len() - i,
    {
        if supported[i] == codec {
            assert(supported@[i as int] == codec);
            return true;
        }
        i = i + 1;
    }
    false
}

/// The best codec a factory supports: H264, else VP8, else VP9, else H265.
pub fn best_codec(supported: &[VideoCodecType]) -> (r: Option<VideoCodecType>)
    ensures
        r == spec_best_codec(supported@),
{
    if is_codec_supported(supported, VideoCodecType::H264) {
        Some(VideoCodecType::H264)
    } else if is_codec_supported(supported, VideoCodecType::VP8) {
        Some(VideoCodecType::VP8)
    } else if is_codec_supported(supported, VideoCodecType::VP9) {
        Some(VideoCodecType::VP9)
    } else if is_codec_supported(supported, VideoCodecType::H265) {
        Some(VideoCodecType::H265)
    } else {
        None
    }
}

/// Encoded video frame for WebRTC transmission.
#[derive(Debug, Clone)]
pub struct CodecFrame {
    /// Encoded data (Annex B for H264/H265, raw for VP8/VP9)
    pub data: Vec<u8>,
    /// Presentation timestamp in milliseconds
    pub pts_ms: i64,
    /// Whether this is a keyframe
    pub is_keyframe: bool,
    /// Codec of the data
    pub codec: VideoCodecType,
    /// Frame sequence number
    pub sequence: u64,
    /// Frame duration, in milliseconds: one second over the frame rate
    pub duration_ms: u64,
}

/// What every constructor of a codec frame promises.
pub open spec fn is_codec_frame(
    r: CodecFrame,
    codec: VideoCodecType,
    data: Seq<u8>,
    pts_ms: i64,
    is_keyframe: bool,
    sequence: u64,
    fps: u32,
) -> bool {
    &&& r.data@ == data
    &&& r.pts_ms == pts_ms
    &&& r.is_keyframe == is_keyframe
    &&& r.codec == codec
    &&& r.sequence == sequence
    &&& r.duration_ms == 1000int / (fps as int)
}

impl CodecFrame {
    fn of_codec(
        codec: VideoCodecType,
        data: Vec<u8>,
        pts_ms: i64,
        is_keyframe: bool,
        sequence: u64,
        fps: u32,
    ) -> (r: CodecFrame)
        requires
            fps > 0,
        ensures
            is_codec_frame(r, codec, data@, pts_ms, is_keyframe, sequence, fps),
    {
        CodecFrame { data, pts_ms, is_keyframe, codec, sequence, duration_ms: 1000 / (fps as u64) }
    }

    /// An H.264 frame at `fps` frames per second.
    pub fn h264(data: Vec<u8>, pts_ms: i64, is_keyframe: bool, sequence: u64, fps: u32) -> (r:
        CodecFrame)
        requires
            fps > 0,
        ensures
            is_codec_frame(r, VideoCodecType::H264, data@, pts_ms, is_keyframe, sequence, fps),
    {
        Self::of_codec(VideoCodecType::H264, data, pts_ms, is_keyframe, sequence, fps)
    }

    /// A VP8 frame at `fps` frames per second.
    pub fn vp8(data: Vec<u8>, pts_ms: i64, is_keyframe: bool, sequence: u64, fps: u32) -> (r:
        CodecFrame)
        requires
            fps > 0,
        ensures
            is_codec_frame(r, VideoCodecType::VP8, data@, pts_ms, is_keyframe, sequence, fps),
    {
        Self::of_codec(VideoCodecType::VP8, data, pts_ms, is_keyframe, sequence, fps)
    }

    /// A VP9 frame at `fps` frames per second.
    pub fn vp9(data: Vec<u8>, pts_ms: i64, is_keyframe: bool, sequence: u64, fps: u32) -> (r:
        CodecFrame)
        requires
            fps > 0,
        ensures
            is_codec_frame(r, VideoCodecType::VP9, data@, pts_ms, is_keyframe, sequence, fps),
    {
        Self::of_codec(VideoCodecType::VP9, data, pts_ms, is_keyframe, sequence, fps)
    }

    /// An H.265 frame at `fps` frames per second.
    pub fn h265(data: Vec<u8>, pts_ms: i64, is_keyframe: bool, sequence: u64, fps: u32) -> (r:
        CodecFrame)
        requires
            fps > 0,
        ensures
            is_codec_frame(r, VideoCodecType::H265, data@, pts_ms, is_keyframe, sequence, fps),
    {
        Self::of_codec(VideoCodecType::H265, data, pts_ms, is_keyframe, sequence, fps)
    }

    /// Frame size in bytes.
    pub fn len(&self) -> (r: usize)
        ensures
            r == self.data@.len(),
    {
        self.data.len()
    }

    /// Whether the frame holds no data.
    pub fn is_empty(&self) -> (r: bool)
        ensures
            r == (self.data@.len() == 0),
    {
        self.data.len() == 0
    }
}

/// Video codec configuration.
#[derive(Debug, Clone)]
pub struct VideoCodecConfig {
    /// Codec type
    pub codec: VideoCodecType,
    /// Target resolution
    pub resolution: Resolution,
    /// Target bitrate in kbps
    pub bitrate_kbps: u32,
    /// Target FPS
    pub fps: u32,
    /// GOP size (keyframe interval in frames)
    pub gop_size: u32,
    /// Profile (codec-specific)
    pub profile: Option<String>,
    /// Level (codec-specific)
    pub level: Option<String>,
}

pub open spec fn opt_str_view(o: Option<String>) -> Option<Seq<char>> {
    match o {
        Some(s) => Some(s@),
        None => None,
    }
}

/// A configuration of `codec` with a one-second GOP and the given profile and level.
pub open spec fn is_codec_config(
    r: VideoCodecConfig,
    codec: VideoCodecType,
    resolution: Resolution,
    bitrate_kbps: u32,
    fps: u32,
    profile: Option<Seq<char>>,
    level: Option<Seq<char>>,
) -> bool {
    &&& r.codec == codec
    &&& r.resolution == resolution
    &&& r.bitrate_kbps == bitrate_kbps
    &&& r.fps == fps
    &&& r.gop_size == fps
    &&& opt_str_view(r.profile) == profile
    &&& opt_str_view(r.level) == level
}

impl Default for VideoCodecConfig {
    /// H.264 at 720p, 2 Mbps, 30 fps, one-second GOP, no profile or level.
    fn default() -> (r: VideoCodecConfig)
        ensures
            is_codec_config(
                r,
                VideoCodecType::H264,
                Resolution { width: 1280, height: 720 },
                2000,
                30,
                None,
                None,
            ),
    {
        VideoCodecConfig {
            codec: VideoCodecType::H264,
            resolution: Resolution::HD720(),
            bitrate_kbps: 2000,
            fps: 30,
            gop_size: 30,
            profile: None,
            level: None,
        }
    }
}

impl VideoCodecConfig {
    /// H.264, baseline profile, level 3.1.
    pub fn h264(resolution: Resolution, bitrate_kbps: u32, fps: u32) -> (r: VideoCodecConfig)
        ensures
            is_codec_config(
                r,
                VideoCodecType::H264,
                resolution,
                bitrate_kbps,
                fps,
                Some("baseline"@),
                Some("3.1"@),
            ),
    {
        VideoCodecConfig {
            codec: VideoCodecType::H264,
            resolution,
            bitrate_kbps,
            fps,
            gop_size: fps,
            profile: Some(String::from_str("baseline")),
            level: Some(String::from_str("3.1")),
        }
    }

    /// VP8, no profile or level.
    pub fn vp8(resolution: Resolution, bitrate_kbps: u32, fps: u32) -> (r: VideoCodecConfig)
        ensures
            is_codec_config(r, VideoCodecType::VP8, resolution, bitrate_kbps, fps, None, None),
    {
        VideoCodecConfig {
            codec: VideoCodecType::VP8,
            resolution,
            bitrate_kbps,
            fps,
            gop_size: fps,
            profile: None,
            level: None,
        }
    }

    /// VP9, no profile or level.
    pub fn vp9(resolution: Resolution, bitrate_kbps: u32, fps: u32) -> (r: VideoCodecConfig)
        ensures
            is_codec_config(r, VideoCodecType::VP9, resolution, bitrate_kbps, fps, None, None),
    {
        VideoCodecConfig {
            codec: VideoCodecType::VP9,
            resolution,
            bitrate_kbps,
            fps,
            gop_size: fps,
            profile: None,
            level: None,
        }
    }

    /// H.265, main profile, level 4.0.
    pub fn h265(resolution: Resolution, bitrate_kbps: u32, fps: u32) -> (r: VideoCodecConfig)
        ensures
            is_codec_config(
                r,
                VideoCodecType::H265,
                resolution,
                bitrate_kbps,
                fps,
                Some("main"@),
                Some("4.0"@),
            ),
    {
        VideoCodecConfig {
            codec: VideoCodecType::H265,
            resolution,
            bitrate_kbps,
            fps,
            gop_size: fps,
            profile: Some(String::from_str("main")),
            level: Some(String::from_str("4.0")),
        }
    }
}

// ---------------------------------------------------------------------------
// Choosing an encoder among those the probe reports
// ---------------------------------------------------------------------------

/// Index of the first probed codec of `format` that `pred` accepts;
/// `s.len()` when there is none.
pub open spec fn first_codec_where(
    s: Seq<CodecInfo>,
    format: DataFormat,
    pred: spec_fn(Seq<char>) -> bool,
) -> int
    decreases s.len(),
{
    if s.len() == 0 {
        0
    } else if s[0].format == format && pred(s[0].name@) {
        0
    } else {
        1 + first_codec_where(s.drop_first(), format, pred)
    }
}

pub open spec fn any_name() -> spec_fn(Seq<char>) -> bool {
    |n: Seq<char>| true
}

pub proof fn lemma_first_codec_where(s: Seq<CodecInfo>, format: DataFormat, pred: spec_fn(Seq<char>) -> bool)
    ensures
        0 <= first_codec_where(s, format, pred) <= s.len(),
        first_codec_where(s, format, pred) < s.len() ==> {
            let i = first_codec_where(s, format, pred);
            s[i].format == format && pred(s[i].name@)
        },
        forall|j: int|
            0 <= j < first_codec_where(s, format, pred) ==> !(s[j].format == format && pred(
                s[j].name@,
            )),
    decreases s.len(),
{
    if s.len() > 0 && !(s[0].format == format && pred(s[0].name@)) {
        lemma_first_codec_where(s.drop_first(), format, pred);
        assert forall|j: int| 0 <= j < first_codec_where(s, format, pred) implies !(s[j].format
            == format && pred(s[j].name@)) by {
            if j > 0 {
                assert(s[j] == s.drop_first()[j - 1]);
            }
        }
    }
}

/// Index of the first probed codec of `format` whose name `pred` accepts, by a loop.
fn find_codec(
    encoders: &[CodecInfo],
    format: DataFormat,
    pred: Ghost<spec_fn(Seq<char>) -> bool>,
    exclude: Option<&str>,
    require: Option<&str>,
) -> (r: usize)
    requires
        forall|n: Seq<char>| #[trigger] pred@(n) == ((match exclude {
            Some(x) => !seq_contains(n, x@),
            None => true,
        }) && (match require {
            Some(x) => seq_contains(n, x@),
            None => true,
        })),
    ensures
        r == first_codec_where(encoders@, format, pred@),
{
    let mut i: usize = 0;
    proof {
        lemma_first_codec_where(encoders@, format, pred@);
    }
    while i < encoders.len()
        invariant
            0 <= i <= encoders@.len(),
            i <= first_codec_where(encoders@, format, pred@),
            0 <= first_codec_where(encoders@, format, pred@) <= encoders@.len(),
            first_codec_where(encoders@, format, pred@) < encoders@.len() ==> {
                let k = first_codec_where(encoders@, format, pred@);
                encoders@[k].format == format && pred@(encoders@[k].name@)
            },
            forall|j: int|
                0 <= j < first_codec_where(encoders@, format, pred@) ==> !(encoders@[j].format
                    == format && pred@(encoders@[j].name@)),
            forall|n: Seq<char>| #[trigger] pred@(n) == ((match exclude {
                Some(x) => !seq_contains(n, x@),
                None => true,
            }) && (match require {
                Some(x) => seq_contains(n, x@),
                None => true,
            })),
        decreases encoders@.len() - i,
    {
        let c = &encoders[i];
        let ok_exclude = match exclude {
            Some(x) => !str_contains(c.name.as_str(), x),
            None => true,
        };
        let ok_require = match require {
            Some(x) => str_contains(c.name.as_str(), x),
            None => true,
        };
        if c.format == format && ok_exclude && ok_require {
            assert(pred@(encoders@[i as int].name@));
            return i;
        }
        assert(!(encoders@[i as int].format == format && pred@(encoders@[i as int].name@)));
        i = i + 1;
    }
    i
}

// ---------------------------------------------------------------------------
// H.264
// ---------------------------------------------------------------------------

/// H.264 encoder kind, told by the codec's name.
#[derive(Debug, Clone, Copy, PartialEq, Eq, Structural)]
pub enum H264EncoderType {
    /// NVIDIA NVENC
    Nvenc,
    /// Intel Quick Sync (QSV)
    Qsv,
    /// AMD AMF
    Amf,
    /// VAAPI (Linux generic)
    Vaapi,
    /// RKMPP (Rockchip)
    Rkmpp,
    /// V4L2 M2M (ARM generic)
    V4l2M2m,
    /// Software encoding (libx264/openh264)
    Software,
    /// No encoder available
    Unavailable,
}

impl Default for H264EncoderType {
    fn default() -> (r: H264EncoderType)
        ensures
            r == H264EncoderType::Unavailable,
    {
        H264EncoderType::Unavailable
    }
}

/// The H.264 kind of a codec name: the first of nvenc, qsv, amf, vaapi,
/// rkmpp, v4l2m2m found in it, else software.
pub open spec fn spec_h264_type_of_name(n: Seq<char>) -> H264EncoderType {
    if seq_contains(n, "nvenc"@) {
        H264EncoderType::Nvenc
    } else if seq_contains(n, "qsv"@) {
        H264EncoderType::Qsv
    } else if seq_contains(n, "amf"@) {
        H264EncoderType::Amf
    } else if seq_contains(n, "vaapi"@) {
        H264EncoderType::Vaapi
    } else if seq_contains(n, "rkmpp"@) {
        H264EncoderType::Rkmpp
    } else if seq_contains(n, "v4l2m2m"@) {
        H264EncoderType::V4l2M2m
    } else {
        H264EncoderType::Software
    }
}

pub open spec fn spec_h264_type_name(t: H264EncoderType) -> Seq<char> {
    match t {
        H264EncoderType::Nvenc => "NVENC"@,
        H264EncoderType::Qsv => "QSV"@,
        H264EncoderType::Amf => "AMF"@,
        H264EncoderType::Vaapi => "VAAPI"@,
        H264EncoderType::Rkmpp => "RKMPP"@,
        H264EncoderType::V4l2M2m => "V4L2 M2M"@,
        H264EncoderType::Software => "Software"@,
        H264EncoderType::Unavailable => "None"@,
    }
}

impl H264EncoderType {
    /// The display name of the kind.
    pub fn name(&self) -> (r: &'static str)
        ensures
            r@ == spec_h264_type_name(*self),
    {
        match self {
            H264EncoderType::Nvenc => "NVENC",
            H264EncoderType::Qsv => "QSV",
            H264EncoderType::Amf => "AMF",
            H264EncoderType::Vaapi => "VAAPI",
            H264EncoderType::Rkmpp => "RKMPP",
            H264EncoderType::V4l2M2m => "V4L2 M2M",
            H264EncoderType::Software => "Software",
            H264EncoderType::Unavailable => "None",
        }
    }
}

/// The H.264 encoder kind of an FFmpeg codec name.
pub fn codec_name_to_type(name: &str) -> (r: H264EncoderType)
    ensures
        r == spec_h264_type_of_name(name@),
{
    if str_contains(name, "nvenc") {
        H264EncoderType::Nvenc
    } else if str_contains(name, "qsv") {
        H264EncoderType::Qsv
    } else if str_contains(name, "amf") {
        H264EncoderType::Amf
    } else if str_contains(name, "vaapi") {
        H264EncoderType::Vaapi
    } else if str_contains(name, "rkmpp") {
        H264EncoderType::Rkmpp
    } else if str_contains(name, "v4l2m2m") {
        H264EncoderType::V4l2M2m
    } else {
        H264EncoderType::Software
    }
}

/// Input pixel format for the H.264 encoder.
#[derive(Debug, Clone, Copy, PartialEq, Eq, Structural)]
pub enum H264InputFormat {
    /// YUV420P (I420) - planar Y, U, V
    Yuv420p,
    /// NV12 - Y plane + interleaved UV plane (optimal for VAAPI)
    Nv12,
    /// NV21 - Y plane + interleaved VU plane
    Nv21,
    /// NV16 - Y plane + interleaved UV plane (4:2:2)
    Nv16,
    /// NV24 - Y plane + interleaved UV plane (4:4:4)
    Nv24,
    /// YUYV422 - packed YUV 4:2:2 format
    Yuyv422,
    /// RGB24 - packed RGB format
    Rgb24,
    /// BGR24 - packed BGR format
    Bgr24,
}

impl Default for H264InputFormat {
    fn default() -> (r: H264InputFormat)
        ensures
            r == H264InputFormat::Nv12,
    {
        H264InputFormat::Nv12
    }
}

/// The capture pixel format that an encoder input format takes as it is;
/// NV21 has none among the capture formats.
pub open spec fn spec_input_pixel_format(f: H264InputFormat) -> Option<PixelFormat> {
    match f {
        H264InputFormat::Nv12 => Some(PixelFormat::Nv12),
        H264InputFormat::Nv21 => None,
        H264InputFormat::Nv16 => Some(PixelFormat::Nv16),
        H264InputFormat::Nv24 => Some(PixelFormat::Nv24),
        H264InputFormat::Yuv420p => Some(PixelFormat::Yuv420),
        H264InputFormat::Yuyv422 => Some(PixelFormat::Yuyv),
        H264InputFormat::Rgb24 => Some(PixelFormat::Rgb24),
        H264InputFormat::Bgr24 => Some(PixelFormat::Bgr24),
    }
}

impl H264InputFormat {
    /// Whether frames of `format` can be fed to an encoder configured for
    /// this input format.
    pub fn supports_format(&self, format: PixelFormat) -> (r: bool)
        ensures
            r == (spec_input_pixel_format(*self) == Some(format)),
    {
        match self {
            H264InputFormat::Nv12 => format == PixelFormat::Nv12,
            H264InputFormat::Nv21 => false,
            H264InputFormat::Nv16 => format == PixelFormat::Nv16,
            H264InputFormat::Nv24 => format == PixelFormat::Nv24,
            H264InputFormat::Yuv420p => format == PixelFormat::Yuv420,
            H264InputFormat::Yuyv422 => format == PixelFormat::Yuyv,
            H264InputFormat::Rgb24 => format == PixelFormat::Rgb24,
            H264InputFormat::Bgr24 => format == PixelFormat::Bgr24,
        }
    }
}

/// H.264 encoder configuration.
#[derive(Debug, Clone, Copy, PartialEq, Eq, Structural)]
pub struct H264Config {
    /// Base encoder config
    pub base: EncoderConfig,
    /// Target bitrate in kbps
    pub bitrate_kbps: u32,
    /// GOP size (keyframe interval)
    pub gop_size: u32,
    /// Frame rate
    pub fps: u32,
    /// Input pixel format
    pub input_format: H264InputFormat,
}

/// An H.264 configuration over `EncoderConfig::h264` at 30 fps.
pub open spec fn spec_h264_config(
    resolution: Resolution,
    bitrate_kbps: u32,
    gop_size: u32,
    input_format: H264InputFormat,
) -> H264Config {
    H264Config {
        base: EncoderConfig {
            resolution,
            input_format: PixelFormat::Yuyv,
            quality: bitrate_kbps,
            fps: 30,
            gop_size: 30,
        },
        bitrate_kbps,
        gop_size,
        fps: 30,
        input_format,
    }
}

impl Default for H264Config {
    /// 1 Mbps, 30 fps, one-second GOP, NV12 input, over the default base.
    fn default() -> (r: H264Config)
        ensures
            r == (H264Config {
                base: EncoderConfig {
                    resolution: Resolution { width: 1920, height: 1080 },
                    input_format: PixelFormat::Yuyv,
                    quality: 80,
                    fps: 30,
                    gop_size: 30,
                },
                bitrate_kbps: 1000,
                gop_size: 30,
                fps: 30,
                input_format: H264InputFormat::Nv12,
            }),
    {
        H264Config {
            base: EncoderConfig::default(),
            bitrate_kbps: 1000,
            gop_size: 30,
            fps: 30,
            input_format: H264InputFormat::Nv12,
        }
    }
}

impl H264Config {
    /// Low latency with NV12 input.
    pub fn low_latency(resolution: Resolution, bitrate_kbps: u32) -> (r: H264Config)
        ensures
            r == spec_h264_config(resolution, bitrate_kbps, 30, H264InputFormat::Nv12),
    {
        H264Config {
            base: EncoderConfig::h264(resolution, bitrate_kbps),
            bitrate_kbps,
            gop_size: 30,
            fps: 30,
            input_format: H264InputFormat::Nv12,
        }
    }

    /// Low latency with YUV420P input.
    pub fn low_latency_yuv420p(resolution: Resolution, bitrate_kbps: u32) -> (r: H264Config)
        ensures
            r == spec_h264_config(resolution, bitrate_kbps, 30, H264InputFormat::Yuv420p),
    {
        H264Config {
            base: EncoderConfig::h264(resolution, bitrate_kbps),
            bitrate_kbps,
            gop_size: 30,
            fps: 30,
            input_format: H264InputFormat::Yuv420p,
        }
    }

    /// Low latency with YUYV422 input.
    pub fn low_latency_yuyv422(resolution: Resolution, bitrate_kbps: u32) -> (r: H264Config)
        ensures
            r == spec_h264_config(resolution, bitrate_kbps, 30, H264InputFormat::Yuyv422),
    {
        H264Config {
            base: EncoderConfig::h264(resolution, bitrate_kbps),
            bitrate_kbps,
            gop_size: 30,
            fps: 30,
            input_format: H264InputFormat::Yuyv422,
        }
    }

    /// Quality streaming: a two-second GOP, NV12 input.
    pub fn quality(resolution: Resolution, bitrate_kbps: u32) -> (r: H264Config)
        ensures
            r == spec_h264_config(resolution, bitrate_kbps, 60, H264InputFormat::Nv12),
    {
        H264Config {
            base: EncoderConfig::h264(resolution, bitrate_kbps),
            bitrate_kbps,
            gop_size: 60,
            fps: 30,
            input_format: H264InputFormat::Nv12,
        }
    }

    /// The same configuration with another input format.
    pub fn with_input_format(self, format: H264InputFormat) -> (r: H264Config)
        ensures
            r == (H264Config { input_format: format, ..self }),
    {
        H264Config { input_format: format, ..self }
    }
}

/// The H.264 encoder to use among the probed codecs: the first that
/// produces H.264, with its kind; `Unavailable` and no name when none does.
pub fn detect_best_encoder(encoders: &[CodecInfo]) -> (r: (H264EncoderType, Option<String>))
    ensures
        ({
            let i = first_codec_where(encoders@, DataFormat::H264, any_name());
            if i < encoders@.len() {
                &&& r.0 == spec_h264_type_of_name(encoders@[i].name@)
                &&& r.1 matches Some(n) && n@ == encoders@[i].name@
            } else {
                r.0 == H264EncoderType::Unavailable && r.1 is None
            }
        }),
{
    let i = find_codec(encoders, DataFormat::H264, Ghost(any_name()), None, None);
    if i < encoders.len() {
        let name = encoders[i].name.clone();
        (codec_name_to_type(name.as_str()), Some(name))
    } else {
        (H264EncoderType::Unavailable, None)
    }
}

/// Whether the data handed to an encoder fills the buffer it was made for;
/// the error names both lengths.
pub fn check_encode_input(data_len: usize, required: i32) -> (r: Result<(), String>)
    ensures
        (data_len as int) < (required as int) <==> r is Err,
        r matches Err(m) ==> m@ == "Frame data too small: "@ + decimal(data_len as nat) + " < "@
            + decimal(required as nat),
{
    if required > 0 && data_len < required as usize {
        let mut m = String::from_str("Frame data too small: ");
        push_decimal(&mut m, data_len as u64);
        m.append(" < ");
        push_decimal(&mut m, required as u64);
        Err(m)
    } else {
        Ok(())
    }
}

/// The presentation time in milliseconds of frame `sequence` at `fps`.
pub fn pts_ms_for_sequence(sequence: u64, fps: u32) -> (r: i64)
    requires
        fps > 0,
        sequence * 1000 <= u64::MAX,
    ensures
        r as int == ((sequence * 1000) / (fps as int)) as i64 as int,
{
    ((sequence * 1000) / (fps as u64)) as i64
}

/// The frame an encoder hands back for one input: the first of its output
/// packets, a key frame when its key flag is 1, stamped with its own
/// presentation time; an error when the encoder gave nothing.
pub fn frame_from_packets(
    packets: Vec<HwEncodeFrame>,
    format: EncodedFormat,
    resolution: Resolution,
    sequence: u64,
    nothing_message: &str,
) -> (r: Result<EncodedFrame, String>)
    ensures
        packets@.len() == 0 <==> r is Err,
        r matches Err(m) ==> m@ == nothing_message@,
        r matches Ok(f) ==> {
            &&& f.data@ == packets@[0].data@
            &&& f.format == format
            &&& f.resolution == resolution
            &&& f.key_frame == (packets@[0].key == 1)
            &&& f.sequence == sequence
            &&& f.pts == packets@[0].pts as u64
            &&& f.dts == packets@[0].pts as u64
        },
{
    let mut packets = packets;
    if packets.len() == 0 {
        return Err(String::from_str(nothing_message));
    }
    let first = packets.remove(0);
    let key_frame = first.key == 1;
    let pts = first.pts as u64;
    Ok(EncodedFrame { data: first.data, format, resolution, key_frame, sequence, pts, dts: pts })
}

// ---------------------------------------------------------------------------
// H.265
// ---------------------------------------------------------------------------

/// H.265 encoder kind.
#[derive(Debug, Clone, Copy, PartialEq, Eq, Structural)]
pub enum H265EncoderType {
    /// NVIDIA NVENC
    Nvenc,
    /// Intel Quick Sync (QSV)
    Qsv,
    /// AMD AMF
    Amf,
    /// VAAPI (Linux generic)
    Vaapi,
    /// RKMPP (Rockchip)
    Rkmpp,
    /// V4L2 M2M (ARM generic)
    V4l2M2m,
    /// Software encoder (libx265)
    Software,
    /// No encoder available
    Unavailable,
}

impl Default for H265EncoderType {
    fn default() -> (r: H265EncoderType)
        ensures
            r == H265EncoderType::Unavailable,
    {
        H265EncoderType::Unavailable
    }
}

pub open spec fn spec_h265_type_name(t: H265EncoderType) -> Seq<char> {
    match t {
        H265EncoderType::Nvenc => "NVENC"@,
        H265EncoderType::Qsv => "QSV"@,
        H265EncoderType::Amf => "AMF"@,
        H265EncoderType::Vaapi => "VAAPI"@,
        H265EncoderType::Rkmpp => "RKMPP"@,
        H265EncoderType::V4l2M2m => "V4L2 M2M"@,
        H265EncoderType::Software => "Software"@,
        H265EncoderType::Unavailable => "None"@,
    }
}

/// The H.265 kind of a backend.
pub open spec fn spec_h265_type_of_backend(b: EncoderBackend) -> H265EncoderType {
    match b {
        EncoderBackend::Nvenc => H265EncoderType::Nvenc,
        EncoderBackend::Qsv => H265EncoderType::Qsv,
        EncoderBackend::Amf => H265EncoderType::Amf,
        EncoderBackend::Vaapi => H265EncoderType::Vaapi,
        EncoderBackend::Rkmpp => H265EncoderType::Rkmpp,
        EncoderBackend::V4l2m2m => H265EncoderType::V4l2M2m,
        EncoderBackend::Software => H265EncoderType::Software,
    }
}

/// The H.265 kind of a codec name, as the encoder choice tells it: the
/// first of nvenc, qsv, amf, vaapi, rkmpp, v4l2m2m found in it, else software.
pub open spec fn spec_h265_type_of_name(n: Seq<char>) -> H265EncoderType {
    if seq_contains(n, "nvenc"@) {
        H265EncoderType::Nvenc
    } else if seq_contains(n, "qsv"@) {
        H265EncoderType::Qsv
    } else if seq_contains(n, "amf"@) {
        H265EncoderType::Amf
    } else if seq_contains(n, "vaapi"@) {
        H265EncoderType::Vaapi
    } else if seq_contains(n, "rkmpp"@) {
        H265EncoderType::Rkmpp
    } else if seq_contains(n, "v4l2m2m"@) {
        H265EncoderType::V4l2M2m
    } else {
        H265EncoderType::Software
    }
}

impl H265EncoderType {
    /// The display name of the kind.
    pub fn name(&self) -> (r: &'static str)
        ensures
            r@ == spec_h265_type_name(*self),
    {
        match self {
            H265EncoderType::Nvenc => "NVENC",
            H265EncoderType::Qsv => "QSV",
            H265EncoderType::Amf => "AMF",
            H265EncoderType::Vaapi => "VAAPI",
            H265EncoderType::Rkmpp => "RKMPP",
            H265EncoderType::V4l2M2m => "V4L2 M2M",
            H265EncoderType::Software => "Software",
            H265EncoderType::Unavailable => "None",
        }
    }
}

impl From<EncoderBackend> for H265EncoderType {
    fn from(backend: EncoderBackend) -> (r: H265EncoderType) {
        match backend {
            EncoderBackend::Nvenc => H265EncoderType::Nvenc,
            EncoderBackend::Qsv => H265EncoderType::Qsv,
            EncoderBackend::Amf => H265EncoderType::Amf,
            EncoderBackend::Vaapi => H265EncoderType::Vaapi,
            EncoderBackend::Rkmpp => H265EncoderType::Rkmpp,
            EncoderBackend::V4l2m2m => H265EncoderType::V4l2M2m,
            EncoderBackend::Software => H265EncoderType::Software,
        }
    }
}

impl vstd::std_specs::convert::FromSpecImpl<EncoderBackend> for H265EncoderType {
    open spec fn obeys_from_spec() -> bool {
        true
    }

    open spec fn from_spec(backend: EncoderBackend) -> H265EncoderType {
        spec_h265_type_of_backend(backend)
    }
}

/// Input pixel format for the H.265 encoder.
#[derive(Debug, Clone, Copy, PartialEq, Eq, Structural)]
pub enum H265InputFormat {
    /// YUV420P (I420) - planar Y, U, V
    Yuv420p,
    /// NV12 - Y plane + interleaved UV plane
    Nv12,
    /// NV21 - Y plane + interleaved VU plane
    Nv21,
    /// NV16 - Y plane + interleaved UV plane (4:2:2)
    Nv16,
    /// NV24 - Y plane + interleaved UV plane (4:4:4)
    Nv24,
    /// YUYV422 - packed YUV 4:2:2 format
    Yuyv422,
    /// RGB24 - packed RGB format
    Rgb24,
    /// BGR24 - packed BGR format
    Bgr24,
}

impl Default for H265InputFormat {
    fn default() -> (r: H265InputFormat)
        ensures
            r == H265InputFormat::Nv12,
    {
        H265InputFormat::Nv12
    }
}

pub open spec fn spec_h265_input_pixel_format(f: H265InputFormat) -> Option<PixelFormat> {
    match f {
        H265InputFormat::Nv12 => Some(PixelFormat::Nv12),
        H265InputFormat::Nv21 => None,
        H265InputFormat::Nv16 => Some(PixelFormat::Nv16),
        H265InputFormat::Nv24 => Some(PixelFormat::Nv24),
        H265InputFormat::Yuv420p => Some(PixelFormat::Yuv420),
        H265InputFormat::Yuyv422 => Some(PixelFormat::Yuyv),
        H265InputFormat::Rgb24 => Some(PixelFormat::Rgb24),
        H265InputFormat::Bgr24 => Some(PixelFormat::Bgr24),
    }
}

impl H265InputFormat {
    /// Whether frames of `format` can be fed to an encoder configured for
    /// this input format.
    pub fn supports_format(&self, format: PixelFormat) -> (r: bool)
        ensures
            r == (spec_h265_input_pixel_format(*self) == Some(format)),
    {
        match self {
            H265InputFormat::Nv12 => format == PixelFormat::Nv12,
            H265InputFormat::Nv21 => false,
            H265InputFormat::Nv16 => format == PixelFormat::Nv16,
            H265InputFormat::Nv24 => format == PixelFormat::Nv24,
            H265InputFormat::Yuv420p => format == PixelFormat::Yuv420,
            H265InputFormat::Yuyv422 => format == PixelFormat::Yuyv,
            H265InputFormat::Rgb24 => format == PixelFormat::Rgb24,
            H265InputFormat::Bgr24 => format == PixelFormat::Bgr24,
        }
    }
}

/// The input format an H.265 encoder actually takes: libx265 needs
/// YUV420P; hardware encoders take the configured format.
pub fn h265_input_for_codec(codec_name: &str, requested: H265InputFormat) -> (r: H265InputFormat)
    ensures
        r == (if seq_contains(codec_name@, "libx265"@) {
            H265InputFormat::Yuv420p
        } else {
            requested
        }),
{
    if str_contains(codec_name, "libx265") {
        H265InputFormat::Yuv420p
    } else {
        requested
    }
}

/// H.265 encoder configuration.
#[derive(Debug, Clone, Copy, PartialEq, Eq, Structural)]
pub struct H265Config {
    /// Base encoder config
    pub base: EncoderConfig,
    /// Target bitrate in kbps
    pub bitrate_kbps: u32,
    /// GOP size (keyframe interval)
    pub gop_size: u32,
    /// Frame rate
    pub fps: u32,
    /// Input pixel format
    pub input_format: H265InputFormat,
}

/// An H.265 configuration at 30 fps whose base shares its GOP.
pub open spec fn spec_h265_config(
    resolution: Resolution,
    bitrate_kbps: u32,
    gop_size: u32,
    base_format: PixelFormat,
    input_format: H265InputFormat,
) -> H265Config {
    H265Config {
        base: EncoderConfig {
            resolution,
            input_format: base_format,
            quality: bitrate_kbps,
            fps: 30,
            gop_size,
        },
        bitrate_kbps,
        gop_size,
        fps: 30,
        input_format,
    }
}

impl Default for H265Config {
    /// 8 Mbps, 30 fps, one-second GOP, NV12 input, over the default base.
    fn default() -> (r: H265Config)
        ensures
            r == (H265Config {
                base: EncoderConfig {
                    resolution: Resolution { width: 1920, height: 1080 },
                    input_format: PixelFormat::Yuyv,
                    quality: 80,
                    fps: 30,
                    gop_size: 30,
                },
                bitrate_kbps: 8000,
                gop_size: 30,
                fps: 30,
                input_format: H265InputFormat::Nv12,
            }),
    {
        H265Config {
            base: EncoderConfig::default(),
            bitrate_kbps: 8000,
            gop_size: 30,
            fps: 30,
            input_format: H265InputFormat::Nv12,
        }
    }
}

impl H265Config {
    /// Low latency with NV12 input.
    pub fn low_latency(resolution: Resolution, bitrate_kbps: u32) -> (r: H265Config)
        ensures
            r == spec_h265_config(resolution, bitrate_kbps, 30, PixelFormat::Nv12, H265InputFormat::Nv12),
    {
        H265Config {
            base: EncoderConfig {
                resolution,
                input_format: PixelFormat::Nv12,
                quality: bitrate_kbps,
                fps: 30,
                gop_size: 30,
            },
            bitrate_kbps,
            gop_size: 30,
            fps: 30,
            input_format: H265InputFormat::Nv12,
        }
    }

    /// Low latency with YUYV422 input.
    pub fn low_latency_yuyv422(resolution: Resolution, bitrate_kbps: u32) -> (r: H265Config)
        ensures
            r == spec_h265_config(resolution, bitrate_kbps, 30, PixelFormat::Yuyv, H265InputFormat::Yuyv422),
    {
        H265Config {
            base: EncoderConfig {
                resolution,
                input_format: PixelFormat::Yuyv,
                quality: bitrate_kbps,
                fps: 30,
                gop_size: 30,
            },
            bitrate_kbps,
            gop_size: 30,
            fps: 30,
            input_format: H265InputFormat::Yuyv422,
        }
    }

    /// Quality streaming: a two-second GOP, NV12 input.
    pub fn quality(resolution: Resolution, bitrate_kbps: u32) -> (r: H265Config)
        ensures
            r == spec_h265_config(resolution, bitrate_kbps, 60, PixelFormat::Nv12, H265InputFormat::Nv12),
    {
        H265Config {
            base: EncoderConfig {
                resolution,
                input_format: PixelFormat::Nv12,
                quality: bitrate_kbps,
                fps: 30,
                gop_size: 60,
            },
            bitrate_kbps,
            gop_size: 60,
            fps: 30,
            input_format: H265InputFormat::Nv12,
        }
    }

    /// The same configuration with another input format.
    pub fn with_input_format(self, format: H265InputFormat) -> (r: H265Config)
        ensures
            r == (H265Config { input_format: format, ..self }),
    {
        H265Config { input_format: format, ..self }
    }
}

pub open spec fn not_libx265() -> spec_fn(Seq<char>) -> bool {
    |n: Seq<char>| !seq_contains(n, "libx265"@)
}

/// The H.265 encoder to use among the probed codecs: the first H.265 codec
/// that is not libx265, else the first H.265 codec; `Unavailable` and no
/// name when there is none.
pub open spec fn spec_best_h265_index(s: Seq<CodecInfo>) -> int {
    let hw = first_codec_where(s, DataFormat::H265, not_libx265());
    if hw < s.len() {
        hw
    } else {
        first_codec_where(s, DataFormat::H265, any_name())
    }
}

/// Hardware is preferred: when some probed H.265 codec is not libx265, the
/// one chosen is an H.265 codec that is not libx265 either, and no such codec
/// comes before it.
pub proof fn lemma_h265_prefers_hardware(s: Seq<CodecInfo>, k: int)
    requires
        0 <= k < s.len(),
        s[k].format == DataFormat::H265,
        !seq_contains(s[k].name@, "libx265"@),
    ensures
        0 <= spec_best_h265_index(s) <= k,
        s[spec_best_h265_index(s)].format == DataFormat::H265,
        !seq_contains(s[spec_best_h265_index(s)].name@, "libx265"@),
{
    lemma_first_codec_where(s, DataFormat::H265, not_libx265());
    let p = not_libx265();
    assert(p(s[k].name@));
    if first_codec_where(s, DataFormat::H265, p) > k {
        assert(!(s[k].format == DataFormat::H265 && p(s[k].name@)));
    }
}

/// The H.265 encoder to use among the probed codecs, with its kind:
/// hardware preferred, libx265 as the fallback.
pub fn detect_best_h265_encoder(encoders: &[CodecInfo]) -> (r: (H265EncoderType, Option<String>))
    ensures
        ({
            let i = spec_best_h265_index(encoders@);
            if i < encoders@.len() {
                &&& r.0 == spec_h265_type_of_name(encoders@[i].name@)
                &&& r.1 matches Some(n) && n@ == encoders@[i].name@
            } else {
                r.0 == H265EncoderType::Unavailable && r.1 is None
            }
        }),
{
    let hw = find_codec(encoders, DataFormat::H265, Ghost(not_libx265()), Some("libx265"), None);
    let i = if hw < encoders.len() {
        hw
    } else {
        find_codec(encoders, DataFormat::H265, Ghost(any_name()), None, None)
    };
    if i < encoders.len() {
        let name = encoders[i].name.clone();
        let n = name.as_str();
        let t = if str_contains(n, "nvenc") {
            H265EncoderType::Nvenc
        } else if str_contains(n, "qsv") {
            H265EncoderType::Qsv
        } else if str_contains(n, "amf") {
            H265EncoderType::Amf
        } else if str_contains(n, "vaapi") {
            H265EncoderType::Vaapi
        } else if str_contains(n, "rkmpp") {
            H265EncoderType::Rkmpp
        } else if str_contains(n, "v4l2m2m") {
            H265EncoderType::V4l2M2m
        } else {
            H265EncoderType::Software
        };
        (t, Some(name))
    } else {
        (H265EncoderType::Unavailable, None)
    }
}

/// Whether H.265 can be encoded in hardware, by the registry.
pub fn is_h265_available(registry: &EncoderRegistry) -> (r: bool)
    ensures
        r == (first_eligible(registry.encoders(VideoEncoderType::H265), true) < registry.encoders(
            VideoEncoderType::H265,
        ).len()),
{
    registry.is_format_available(VideoEncoderType::H265, true)
}

/// The codec a new H.265 encoder is made with: the one the detection picks
/// among the probed codecs; an error when there is none.
pub fn select_h265_codec(encoders: &[CodecInfo]) -> (r: Result<String, String>)
    ensures
        ({
            let i = spec_best_h265_index(encoders@);
            if i < encoders@.len() {
                r matches Ok(n) && n@ == encoders@[i].name@
            } else {
                r matches Err(m) && m@
                    == "No H.265 encoder available. Please ensure FFmpeg is built with libx265 support."@
            }
        }),
{
    let (t, name) = detect_best_h265_encoder(encoders);
    match name {
        Some(n) => Ok(n),
        None => Err(
            String::from_str(
                "No H.265 encoder available. Please ensure FFmpeg is built with libx265 support.",
            ),
        ),
    }
}

/// The codec a new H.264 encoder is made with: the first H.264 codec among
/// the probed codecs; an error when there is none.
pub fn select_h264_codec(encoders: &[CodecInfo]) -> (r: Result<String, String>)
    ensures
        ({
            let i = first_codec_where(encoders@, DataFormat::H264, any_name());
            if i < encoders@.len() {
                r matches Ok(n) && n@ == encoders@[i].name@
            } else {
                r matches Err(m) && m@ == "No H.264 encoder available"@
            }
        }),
{
    let (t, name) = detect_best_encoder(encoders);
    match name {
        Some(n) => Ok(n),
        None => Err(String::from_str("No H.264 encoder available")),
    }
}

// ---------------------------------------------------------------------------
// VP9
// ---------------------------------------------------------------------------

/// VP9 encoder kind.
#[derive(Debug, Clone, Copy, PartialEq, Eq, Structural)]
pub enum VP9EncoderType {
    /// VAAPI (Intel on Linux)
    Vaapi,
    /// Software encoder (libvpx-vp9)
    Software,
    /// No encoder available
    Unavailable,
}

impl Default for VP9EncoderType {
    fn default() -> (r: VP9EncoderType)
        ensures
            r == VP9EncoderType::Unavailable,
    {
        VP9EncoderType::Unavailable
    }
}

pub open spec fn spec_vp9_type_name(t: VP9EncoderType) -> Seq<char> {
    match t {
        VP9EncoderType::Vaapi => "VAAPI"@,
        VP9EncoderType::Software => "Software"@,
        VP9EncoderType::Unavailable => "None"@,
    }
}

/// The VP9 kind of a backend: VAAPI and software have one, the rest none.
pub open spec fn spec_vp9_type_of_backend(b: EncoderBackend) -> VP9EncoderType {
    match b {
        EncoderBackend::Vaapi => VP9EncoderType::Vaapi,
        EncoderBackend::Software => VP9EncoderType::Software,
        _ => VP9EncoderType::Unavailable,
    }
}

impl VP9EncoderType {
    /// The display name of the kind.
    pub fn name(&self) -> (r: &'static str)
        ensures
            r@ == spec_vp9_type_name(*self),
    {
        match self {
            VP9EncoderType::Vaapi => "VAAPI",
            VP9EncoderType::Software => "Software",
            VP9EncoderType::Unavailable => "None",
        }
    }
}

impl From<EncoderBackend> for VP9EncoderType {
    fn from(backend: EncoderBackend) -> (r: VP9EncoderType) {
        match backend {
            EncoderBackend::Vaapi => VP9EncoderType::Vaapi,
            EncoderBackend::Software => VP9EncoderType::Software,
            _ => VP9EncoderType::Unavailable,
        }
    }
}

impl vstd::std_specs::convert::FromSpecImpl<EncoderBackend> for VP9EncoderType {
    open spec fn obeys_from_spec() -> bool {
        true
    }

    open spec fn from_spec(backend: EncoderBackend) -> VP9EncoderType {
        spec_vp9_type_of_backend(backend)
    }
}

/// Input pixel format for the VP9 encoder.
#[derive(Debug, Clone, Copy, PartialEq, Eq, Structural)]
pub enum VP9InputFormat {
    /// YUV420P (I420) - planar Y, U, V
    Yuv420p,
    /// NV12 - Y plane + interleaved UV plane
    Nv12,
}

impl Default for VP9InputFormat {
    fn default() -> (r: VP9InputFormat)
        ensures
            r == VP9InputFormat::Nv12,
    {
        VP9InputFormat::Nv12
    }
}

/// The input format a VP9 encoder actually takes: libvpx needs YUV420P;
/// hardware encoders take the configured format.
pub fn vp9_input_for_codec(codec_name: &str, requested: VP9InputFormat) -> (r: VP9InputFormat)
    ensures
        r == (if seq_contains(codec_name@, "libvpx"@) {
            VP9InputFormat::Yuv420p
        } else {
            requested
        }),
{
    if str_contains(codec_name, "libvpx") {
        VP9InputFormat::Yuv420p
    } else {
        requested
    }
}

/// VP9 encoder configuration.
#[derive(Debug, Clone, Copy, PartialEq, Eq, Structural)]
pub struct VP9Config {
    /// Base encoder config
    pub base: EncoderConfig,
    /// Target bitrate in kbps
    pub bitrate_kbps: u32,
    /// GOP size (keyframe interval)
    pub gop_size: u32,
    /// Frame rate
    pub fps: u32,
    /// Input pixel format
    pub input_format: VP9InputFormat,
}

impl Default for VP9Config {
    /// 8 Mbps, 30 fps, one-second GOP, NV12 input, over the default base.
    fn default() -> (r: VP9Config)
        ensures
            r == (VP9Config {
                base: EncoderConfig {
                    resolution: Resolution { width: 1920, height: 1080 },
                    input_format: PixelFormat::Yuyv,
                    quality: 80,
                    fps: 30,
                    gop_size: 30,
                },
                bitrate_kbps: 8000,
                gop_size: 30,
                fps: 30,
                input_format: VP9InputFormat::Nv12,
            }),
    {
        VP9Config {
            base: EncoderConfig::default(),
            bitrate_kbps: 8000,
            gop_size: 30,
            fps: 30,
            input_format: VP9InputFormat::Nv12,
        }
    }
}

impl VP9Config {
    /// Low latency with NV12 input.
    pub fn low_latency(resolution: Resolution, bitrate_kbps: u32) -> (r: VP9Config)
        ensures
            r == (VP9Config {
                base: EncoderConfig {
                    resolution,
                    input_format: PixelFormat::Nv12,
                    quality: bitrate_kbps,
                    fps: 30,
                    gop_size: 30,
                },
                bitrate_kbps,
                gop_size: 30,
                fps: 30,
                input_format: VP9InputFormat::Nv12,
            }),
    {
        VP9Config {
            base: EncoderConfig {
                resolution,
                input_format: PixelFormat::Nv12,
                quality: bitrate_kbps,
                fps: 30,
                gop_size: 30,
            },
            bitrate_kbps,
            gop_size: 30,
            fps: 30,
            input_format: VP9InputFormat::Nv12,
        }
    }

    /// The same configuration with another input format.
    pub fn with_input_format(self, format: VP9InputFormat) -> (r: VP9Config)
        ensures
            r == (VP9Config { input_format: format, ..self }),
    {
        VP9Config { input_format: format, ..self }
    }
}

pub open spec fn is_vaapi() -> spec_fn(Seq<char>) -> bool {
    |n: Seq<char>| seq_contains(n, "vaapi"@)
}

/// The VP9 encoder to use among the probed codecs: the first VAAPI VP9
/// codec, else the first VP9 codec.
pub open spec fn spec_best_vp9_index(s: Seq<CodecInfo>) -> int {
    let hw = first_codec_where(s, DataFormat::VP9, is_vaapi());
    if hw < s.len() {
        hw
    } else {
        first_codec_where(s, DataFormat::VP9, any_name())
    }
}

/// VAAPI is preferred: when some probed VP9 codec is a VAAPI one, the one
/// chosen is a VAAPI VP9 codec, and no such codec comes before it.
pub proof fn lemma_vp9_prefers_vaapi(s: Seq<CodecInfo>, k: int)
    requires
        0 <= k < s.len(),
        s[k].format == DataFormat::VP9,
        seq_contains(s[k].name@, "vaapi"@),
    ensures
        0 <= spec_best_vp9_index(s) <= k,
        s[spec_best_vp9_index(s)].format == DataFormat::VP9,
        seq_contains(s[spec_best_vp9_index(s)].name@, "vaapi"@),
{
    lemma_first_codec_where(s, DataFormat::VP9, is_vaapi());
    let p = is_vaapi();
    assert(p(s[k].name@));
    if first_codec_where(s, DataFormat::VP9, p) > k {
        assert(!(s[k].format == DataFormat::VP9 && p(s[k].name@)));
    }
}

/// The VP9 encoder to use among the probed codecs, with its kind: VAAPI
/// preferred, libvpx as the fallback; `Unavailable` and no name when there
/// is none.
pub fn detect_best_vp9_encoder(encoders: &[CodecInfo]) -> (r: (VP9EncoderType, Option<String>))
    ensures
        ({
            let i = spec_best_vp9_index(encoders@);
            if i < encoders@.len() {
                &&& r.0 == (if seq_contains(encoders@[i].name@, "vaapi"@) {
                    VP9EncoderType::Vaapi
                } else {
                    VP9EncoderType::Software
                })
                &&& r.1 matches Some(n) && n@ == encoders@[i].name@
            } else {
                r.0 == VP9EncoderType::Unavailable && r.1 is None
            }
        }),
{
    let hw = find_codec(encoders, DataFormat::VP9, Ghost(is_vaapi()), None, Some("vaapi"));
    let i = if hw < encoders.len() {
        hw
    } else {
        find_codec(encoders, DataFormat::VP9, Ghost(any_name()), None, None)
    };
    if i < encoders.len() {
        let name = encoders[i].name.clone();
        let t = if str_contains(name.as_str(), "vaapi") {
            VP9EncoderType::Vaapi
        } else {
            VP9EncoderType::Software
        };
        (t, Some(name))
    } else {
        (VP9EncoderType::Unavailable, None)
    }
}

/// Whether VP9 can be encoded in hardware, by the registry.
pub fn is_vp9_available(registry: &EncoderRegistry) -> (r: bool)
    ensures
        r == (first_eligible(registry.encoders(VideoEncoderType::VP9), true) < registry.encoders(
            VideoEncoderType::VP9,
        ).len()),
{
    registry.is_format_available(VideoEncoderType::VP9, true)
}

/// The codec a new VP9 encoder is made with: the one the detection picks
/// among the probed codecs; an error when there is none.
pub fn select_vp9_codec(encoders: &[CodecInfo]) -> (r: Result<String, String>)
    ensures
        ({
            let i = spec_best_vp9_index(encoders@);
            if i < encoders@.len() {
                r matches Ok(n) && n@ == encoders@[i].name@
            } else {
                r matches Err(m) && m@
                    == "No VP9 encoder available. Please ensure FFmpeg is built with libvpx support."@
            }
        }),
{
    let (t, name) = detect_best_vp9_encoder(encoders);
    match name {
        Some(n) => Ok(n),
        None => Err(
            String::from_str(
                "No VP9 encoder available. Please ensure FFmpeg is built with libvpx support.",
            ),
        ),
    }
}

/// Encoded frame output. The moment of encoding is stamped by the caller
/// that owns a clock.
#[derive(Debug, Clone)]
pub struct EncodedFrame {
    /// Encoded data
    pub data: Vec<u8>,
    /// Output format (JPEG, H264, etc.)
    pub format: EncodedFormat,
    /// Resolution
    pub resolution: Resolution,
    /// Whether this is a key frame
    pub key_frame: bool,
    /// Frame sequence number
    pub sequence: u64,
    /// Presentation timestamp (for video sync)
    pub pts: u64,
    /// Decode timestamp (for B-frames)
    pub dts: u64,
}

impl EncodedFrame {
    /// A JPEG frame: always a key frame, with both timestamps at the sequence number.
    pub fn jpeg(data: Vec<u8>, resolution: Resolution, sequence: u64) -> (r: EncodedFrame)
        ensures
            r.data@ == data@,
            r.format == EncodedFormat::Jpeg,
            r.resolution == resolution,
            r.key_frame,
            r.sequence == sequence,
            r.pts == sequence,
            r.dts == sequence,
    {
        EncodedFrame {
            data,
            format: EncodedFormat::Jpeg,
            resolution,
            key_frame: true,
            sequence,
            pts: sequence,
            dts: sequence,
        }
    }

    /// An H.264 frame with the given key flag and timestamps.
    pub fn h264(
        data: Vec<u8>,
        resolution: Resolution,
        key_frame: bool,
        sequence: u64,
        pts: u64,
        dts: u64,
    ) -> (r: EncodedFrame)
        ensures
            r.data@ == data@,
            r.format == EncodedFormat::H264,
            r.resolution == resolution,
            r.key_frame == key_frame,
            r.sequence == sequence,
            r.pts == pts,
            r.dts == dts,
    {
        EncodedFrame { data, format: EncodedFormat::H264, resolution, key_frame, sequence, pts, dts }
    }

    pub fn len(&self) -> (r: usize)
        ensures
            r == self.data@.len(),
    {
        self.data.len()
    }

    pub fn is_empty(&self) -> (r: bool)
        ensures
            r == (self.data@.len() == 0),
    {
        self.data.len() == 0
    }
}

/// An encoded frame as the hardware encoder hands it out.
#[derive(Debug, Clone)]
pub struct HwEncodeFrame {
    pub data: Vec<u8>,
    pub pts: i64,
    pub key: i32,
}

} // verus!
