//! The decisions of the video stream manager: which mode switch requests
//! start a switch, and how modes and codecs are named in its events.
use vstd::prelude::*;
use vstd::string::StringExecFns;
use crate::codec_constraints::{spec_codec_id, StreamMode};
use crate::encoder::VideoCodecType;
use crate::format::{PixelFormat, Resolution};

verus! {

/// Video stream manager configuration
#[derive(Debug, Clone)]
pub struct StreamManagerConfig {
    /// Initial streaming mode
    pub mode: StreamMode,
    /// Video device path
    pub device: Option<String>,
    /// Video format
    pub format: PixelFormat,
    /// Resolution
    pub resolution: Resolution,
    /// FPS
    pub fps: u32,
}

impl Default for StreamManagerConfig {
    fn default() -> (r: StreamManagerConfig)
        ensures
            r.mode == StreamMode::Mjpeg,
            r.device is None,
            r.format == PixelFormat::Mjpeg,
            r.resolution == (Resolution { width: 1920, height: 1080 }),
            r.fps == 30,
    {
        StreamManagerConfig {
            mode: StreamMode::Mjpeg,
            device: None,
            format: PixelFormat::Mjpeg,
            resolution: Resolution::HD1080(),
            fps: 30,
        }
    }
}

/// Result of a mode switch request.
#[derive(Debug, Clone)]
pub struct ModeSwitchTransaction {
    /// Whether this request started a new switch.
    pub accepted: bool,
    /// Whether a switch is currently in progress after handling this request.
    pub switching: bool,
    /// Transition ID if a switch is/was in progress.
    pub transition_id: Option<String>,
}

/// The name of a codec in stream events.
pub fn codec_to_string(codec: VideoCodecType) -> (r: String)
    ensures
        r@ == spec_codec_id(codec),
{
    match codec {
        VideoCodecType::H264 => String::from_str("h264"),
        VideoCodecType::H265 => String::from_str("h265"),
        VideoCodecType::VP8 => String::from_str("vp8"),
        VideoCodecType::VP9 => String::from_str("vp9"),
    }
}

pub open spec fn spec_mode_name(mode: StreamMode, webrtc_codec: VideoCodecType) -> Seq<char> {
    match mode {
        StreamMode::Mjpeg => "mjpeg"@,
        StreamMode::WebRTC => spec_codec_id(webrtc_codec),
    }
}

/// The name of a mode in stream events: `mjpeg`, or the WebRTC codec.
pub fn mode_to_string(mode: StreamMode, webrtc_codec: VideoCodecType) -> (r: String)
    ensures
        r@ == spec_mode_name(mode, webrtc_codec),
{
    match mode {
        StreamMode::Mjpeg => String::from_str("mjpeg"),
        StreamMode::WebRTC => codec_to_string(webrtc_codec),
    }
}

pub open spec fn opt_view(o: Option<String>) -> Option<Seq<char>> {
    match o {
        Some(s) => Some(s@),
        None => None,
    }
}

/// Answers a request to switch from `current` to `requested`. The same mode
/// starts nothing; while a switch is under way the request is refused with
/// that switch's ID; otherwise a switch starts under `fresh_id`. The second
/// result says whether to start it.
pub fn begin_mode_switch(
    current: StreamMode,
    requested: StreamMode,
    already_switching: bool,
    current_transition: Option<String>,
    fresh_id: String,
) -> (r: (ModeSwitchTransaction, bool))
    ensures
        r.1 == (current != requested && !already_switching),
        if current == requested {
            &&& !r.0.accepted
            &&& !r.0.switching
            &&& r.0.transition_id is None
        } else if already_switching {
            &&& !r.0.accepted
            &&& r.0.switching
            &&& opt_view(r.0.transition_id) == opt_view(current_transition)
        } else {
            &&& r.0.accepted
            &&& r.0.switching
            &&& opt_view(r.0.transition_id) == Some(fresh_id@)
        },
{
    if current == requested {
        return (ModeSwitchTransaction { accepted: false, switching: false, transition_id: None }, false);
    }
    if already_switching {
        return (
            ModeSwitchTransaction {
                accepted: false,
                switching: true,
                transition_id: current_transition,
            },
            false,
        );
    }
    (ModeSwitchTransaction { accepted: true, switching: true, transition_id: Some(fresh_id) }, true)
}

/// What a mode switch does, decided before any service is touched.
#[derive(Debug, Clone)]
pub struct ModeSwitchPlan {
    /// The new mode's name in the mode-change event.
    pub mode: String,
    /// The previous mode's name in the mode-change event.
    pub previous_mode: String,
    /// The MJPEG streamer is stopped (leaving MJPEG); else the WebRTC
    /// sessions are closed (leaving WebRTC).
    pub stop_mjpeg: bool,
    /// Entering MJPEG on a device that offers MJPEG while capturing
    /// another format: capture is reconfigured to MJPEG first.
    pub switch_to_mjpeg_format: bool,
    /// Entering WebRTC with capture not yet set up: it is initialised first.
    pub init_capture: bool,
}

/// The plan for switching from `current` to `new`. `webrtc_codec` names the
/// WebRTC mode in the event; `capture` is the current capture format and the
/// formats the current device offers, when there is a device; `uninitialized`
/// says whether capture has not been set up yet.
pub fn plan_mode_switch(
    current: StreamMode,
    new: StreamMode,
    webrtc_codec: VideoCodecType,
    capture: Option<(PixelFormat, &[PixelFormat])>,
    uninitialized: bool,
) -> (r: ModeSwitchPlan)
    ensures
        r.mode@ == spec_mode_name(new, webrtc_codec),
        r.previous_mode@ == spec_mode_name(current, webrtc_codec),
        r.stop_mjpeg == (current == StreamMode::Mjpeg),
        r.switch_to_mjpeg_format == (new == StreamMode::Mjpeg && match capture {
            Some((format, offered)) => format != PixelFormat::Mjpeg && offered@.contains(
                PixelFormat::Mjpeg,
            ),
            None => false,
        }),
        r.init_capture == (new == StreamMode::WebRTC && uninitialized),
{
    let switch_to_mjpeg_format = match new {
        StreamMode::Mjpeg => match capture {
            Some((format, offered)) => format != PixelFormat::Mjpeg
                && crate::format::slice_has_format(offered, PixelFormat::Mjpeg),
            None => false,
        },
        StreamMode::WebRTC => false,
    };
    ModeSwitchPlan {
        mode: mode_to_string(new, webrtc_codec),
        previous_mode: mode_to_string(current, webrtc_codec),
        stop_mjpeg: current == StreamMode::Mjpeg,
        switch_to_mjpeg_format,
        init_capture: new == StreamMode::WebRTC && uninitialized,
    }
}

} // verus!
