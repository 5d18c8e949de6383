//! Configuration of the H.264 WebRTC pipeline, and the choices it makes
//! when built: the encoder settings and the conversion to NV12.
use vstd::prelude::*;
use vstd::string::StringExecFns;
use crate::convert::{nv12_buffer_fits, Nv12Converter};
use crate::encoder::{EncoderConfig, H264Config, H264InputFormat};
use crate::format::{spec_format_name, PixelFormat, Resolution};
use crate::text::string_of;

verus! {

/// H264 pipeline configuration
#[derive(Debug, Clone)]
pub struct H264PipelineConfig {
    /// Input resolution
    pub resolution: Resolution,
    /// Input pixel format (YUYV, NV12, etc.)
    pub input_format: PixelFormat,
    /// Target bitrate in kbps
    pub bitrate_kbps: u32,
    /// Target FPS
    pub fps: u32,
    /// GOP size (keyframe interval in frames)
    pub gop_size: u32,
    /// Track ID for WebRTC
    pub track_id: String,
    /// Stream ID for WebRTC
    pub stream_id: String,
}

/// The default settings: 720p YUYV at 8 Mbps, 30 fps, one-second GOP.
pub open spec fn is_default_pipeline_config(c: H264PipelineConfig) -> bool {
    &&& c.resolution == (Resolution { width: 1280, height: 720 })
    &&& c.input_format == PixelFormat::Yuyv
    &&& c.bitrate_kbps == 8000
    &&& c.fps == 30
    &&& c.gop_size == 30
    &&& c.track_id@ == "video0"@
    &&& c.stream_id@ == "one-kvm-stream"@
}

impl Default for H264PipelineConfig {
    fn default() -> (r: H264PipelineConfig)
        ensures
            is_default_pipeline_config(r),
    {
        H264PipelineConfig {
            resolution: Resolution::HD720(),
            input_format: PixelFormat::Yuyv,
            bitrate_kbps: 8000,
            fps: 30,
            gop_size: 30,
            track_id: String::from_str("video0"),
            stream_id: String::from_str("one-kvm-stream"),
        }
    }
}

/// The encoder settings of a pipeline: NV12 input, the pipeline's bitrate,
/// GOP and frame rate.
pub fn pipeline_encoder_config(config: &H264PipelineConfig) -> (r: H264Config)
    ensures
        r.base == (EncoderConfig {
            resolution: config.resolution,
            input_format: PixelFormat::Yuyv,
            quality: config.bitrate_kbps,
            fps: 30,
            gop_size: 30,
        }),
        r.bitrate_kbps == config.bitrate_kbps,
        r.gop_size == config.gop_size,
        r.fps == config.fps,
        r.input_format == H264InputFormat::Nv12,
{
    H264Config {
        base: EncoderConfig::h264(config.resolution, config.bitrate_kbps),
        bitrate_kbps: config.bitrate_kbps,
        gop_size: config.gop_size,
        fps: config.fps,
        input_format: H264InputFormat::Nv12,
    }
}

/// The NV12 conversion a pipeline needs: none for NV12 input; YUYV, RGB24
/// and BGR24 are converted; JPEG input and the rest are refused.
pub fn pipeline_nv12_converter(config: &H264PipelineConfig) -> (r: Result<
    Option<Nv12Converter>,
    String,
>)
    requires
        nv12_buffer_fits(config.resolution),
    ensures
        match config.input_format {
            PixelFormat::Nv12 => r matches Ok(None),
            PixelFormat::Yuyv | PixelFormat::Rgb24 | PixelFormat::Bgr24 => r matches Ok(Some(c))
                && c.spec_src() == config.input_format && c.spec_resolution() == config.resolution,
            PixelFormat::Mjpeg | PixelFormat::Jpeg => r matches Err(m) && m@
                == "MJPEG input format not supported in this build"@,
            _ => r matches Err(m) && m@ == "Unsupported input format for H264 pipeline: "@
                + spec_format_name(config.input_format),
        },
{
    match config.input_format {
        PixelFormat::Nv12 => Ok(None),
        PixelFormat::Yuyv => Ok(Some(Nv12Converter::yuyv_to_nv12(config.resolution))),
        PixelFormat::Rgb24 => Ok(Some(Nv12Converter::rgb24_to_nv12(config.resolution))),
        PixelFormat::Bgr24 => Ok(Some(Nv12Converter::bgr24_to_nv12(config.resolution))),
        PixelFormat::Mjpeg | PixelFormat::Jpeg => Err(
            String::from_str("MJPEG input format not supported in this build"),
        ),
        _ => {
            let mut m = String::from_str("Unsupported input format for H264 pipeline: ");
            m.append(config.input_format.name());
            Err(m)
        },
    }
}

/// Builder for H264 pipeline configuration
pub struct H264PipelineBuilder {
    pub config: H264PipelineConfig,
}

impl Default for H264PipelineBuilder {
    fn default() -> (r: H264PipelineBuilder)
        ensures
            is_default_pipeline_config(r.config),
    {
        H264PipelineBuilder::new()
    }
}

impl H264PipelineBuilder {
    /// A builder holding the default configuration.
    pub fn new() -> (r: H264PipelineBuilder)
        ensures
            is_default_pipeline_config(r.config),
    {
        H264PipelineBuilder { config: H264PipelineConfig::default() }
    }

    pub fn resolution(self, resolution: Resolution) -> (r: H264PipelineBuilder)
        ensures
            r.config == (H264PipelineConfig { resolution, ..self.config }),
    {
        let mut b = self;
        b.config.resolution = resolution;
        b
    }

    pub fn input_format(self, format: PixelFormat) -> (r: H264PipelineBuilder)
        ensures
            r.config == (H264PipelineConfig { input_format: format, ..self.config }),
    {
        let mut b = self;
        b.config.input_format = format;
        b
    }

    pub fn bitrate_kbps(self, bitrate: u32) -> (r: H264PipelineBuilder)
        ensures
            r.config == (H264PipelineConfig { bitrate_kbps: bitrate, ..self.config }),
    {
        let mut b = self;
        b.config.bitrate_kbps = bitrate;
        b
    }

    pub fn fps(self, fps: u32) -> (r: H264PipelineBuilder)
        ensures
            r.config == (H264PipelineConfig { fps, ..self.config }),
    {
        let mut b = self;
        b.config.fps = fps;
        b
    }

    pub fn gop_size(self, gop: u32) -> (r: H264PipelineBuilder)
        ensures
            r.config == (H264PipelineConfig { gop_size: gop, ..self.config }),
    {
        let mut b = self;
        b.config.gop_size = gop;
        b
    }

    pub fn track_id(self, id: &str) -> (r: H264PipelineBuilder)
        ensures
            r.config.track_id@ == id@,
            r.config == (H264PipelineConfig { track_id: r.config.track_id, ..self.config }),
    {
        let mut b = self;
        b.config.track_id = string_of(id);
        b
    }

    pub fn stream_id(self, id: &str) -> (r: H264PipelineBuilder)
        ensures
            r.config.stream_id@ == id@,
            r.config == (H264PipelineConfig { stream_id: r.config.stream_id, ..self.config }),
    {
        let mut b = self;
        b.config.stream_id = string_of(id);
        b
    }
}

} // verus!
