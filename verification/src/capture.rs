//! Capture configuration, capture states, and the decisions of the capture
//! loop: what each dequeued frame or read error does to the capturer.
use vstd::prelude::*;
use crate::format::{PixelFormat, Resolution};
use crate::text::{seq_contains, str_contains, string_of};

verus! {

/// Capture buffers requested by default.
pub const DEFAULT_BUFFER_COUNT: u32 = 2;

/// Capture timeout by default, in seconds.
pub const DEFAULT_TIMEOUT: u64 = 2;

/// Frames smaller than this many bytes are dropped.
pub const MIN_FRAME_SIZE: usize = 128;

/// Video capturer configuration
#[derive(Debug, Clone)]
pub struct CaptureConfig {
    /// Device path
    pub device_path: String,
    /// Desired resolution
    pub resolution: Resolution,
    /// Desired pixel format
    pub format: PixelFormat,
    /// Desired frame rate (0 = max available)
    pub fps: u32,
    /// Number of capture buffers
    pub buffer_count: u32,
    /// Capture timeout, in seconds
    pub timeout_secs: u64,
    /// JPEG quality (1-100, for MJPEG sources with hardware quality control)
    pub jpeg_quality: u8,
}

/// The settings of a default configuration, but for the device path.
pub open spec fn has_default_settings(c: CaptureConfig) -> bool {
    &&& c.resolution == Resolution { width: 1920, height: 1080 }
    &&& c.format == PixelFormat::Mjpeg
    &&& c.fps == 30
    &&& c.buffer_count == DEFAULT_BUFFER_COUNT
    &&& c.timeout_secs == DEFAULT_TIMEOUT
    &&& c.jpeg_quality == 80
}

impl Default for CaptureConfig {
    fn default() -> (r: CaptureConfig)
        ensures
            r.device_path@ == "/dev/video0"@,
            has_default_settings(r),
    {
        CaptureConfig::for_device("/dev/video0")
    }
}

impl CaptureConfig {
    /// The default configuration for the device at `path`.
    pub fn for_device(path: &str) -> (r: CaptureConfig)
        ensures
            r.device_path@ == path@,
            has_default_settings(r),
    {
        CaptureConfig {
            device_path: string_of(path),
            resolution: Resolution::HD1080(),
            format: PixelFormat::Mjpeg,
            fps: 30,
            buffer_count: DEFAULT_BUFFER_COUNT,
            timeout_secs: DEFAULT_TIMEOUT,
            jpeg_quality: 80,
        }
    }

    /// The same configuration at `width` x `height`.
    pub fn with_resolution(self, width: u32, height: u32) -> (r: CaptureConfig)
        ensures
            r == (CaptureConfig { resolution: Resolution { width, height }, ..self }),
    {
        let mut c = self;
        c.resolution = Resolution::new(width, height);
        c
    }

    /// The same configuration in `format`.
    pub fn with_format(self, format: PixelFormat) -> (r: CaptureConfig)
        ensures
            r == (CaptureConfig { format, ..self }),
    {
        let mut c = self;
        c.format = format;
        c
    }

    /// The same configuration at `fps` frames per second.
    pub fn with_fps(self, fps: u32) -> (r: CaptureConfig)
        ensures
            r == (CaptureConfig { fps, ..self }),
    {
        let mut c = self;
        c.fps = fps;
        c
    }
}

/// Video capturer state
#[derive(Debug, Clone, Copy, PartialEq, Eq, Structural)]
pub enum CaptureState {
    /// Not started
    Stopped,
    /// Starting (initializing device)
    Starting,
    /// Running and capturing
    Running,
    /// No signal from source
    NoSignal,
    /// Error occurred
    Error,
    /// Device was lost (disconnected)
    DeviceLost,
}

/// What the capture loop observed on one read.
#[derive(Debug, Clone, Copy, PartialEq, Eq, Structural)]
pub enum CaptureEvent {
    /// A frame with this many bytes used.
    Frame { bytes_used: usize },
    /// A read error: whether it timed out, and its OS error number.
    ReadError { timed_out: bool, raw_os_error: Option<i32> },
}

/// What the capture loop does next.
#[derive(Debug, Clone, Copy, PartialEq, Eq, Structural)]
pub enum CaptureAction {
    /// Count the frame towards the frame rate, and read on.
    AcceptFrame,
    /// Drop the frame, and read on.
    DropFrame,
    /// Wait 100 ms, then read on.
    WaitAndRetry,
    /// Log the error (rate-limited), and read on.
    LogAndContinue,
    /// Stop: the device is gone.
    DeviceLost,
}

/// One decision of the capture loop: the state to publish, if any, and
/// what to do.
#[derive(Debug, Clone, Copy, PartialEq, Eq, Structural)]
pub struct CaptureStep {
    pub publish: Option<CaptureState>,
    pub action: CaptureAction,
}

/// ENXIO, ENODEV, EIO, EPIPE and ESHUTDOWN mean the device was removed.
pub open spec fn spec_capture_device_lost(raw_os_error: Option<i32>) -> bool {
    match raw_os_error {
        Some(e) => e == 6 || e == 19 || e == 5 || e == 32 || e == 108,
        None => false,
    }
}

pub open spec fn spec_capture_step(current: CaptureState, event: CaptureEvent) -> CaptureStep {
    match event {
        CaptureEvent::ReadError { timed_out, raw_os_error } => if timed_out {
            CaptureStep {
                publish: Some(CaptureState::NoSignal),
                action: CaptureAction::WaitAndRetry,
            }
        } else if spec_capture_device_lost(raw_os_error) {
            CaptureStep { publish: None, action: CaptureAction::DeviceLost }
        } else {
            CaptureStep { publish: None, action: CaptureAction::LogAndContinue }
        },
        CaptureEvent::Frame { bytes_used } => if bytes_used < MIN_FRAME_SIZE {
            CaptureStep { publish: None, action: CaptureAction::DropFrame }
        } else if current == CaptureState::NoSignal {
            CaptureStep { publish: Some(CaptureState::Running), action: CaptureAction::AcceptFrame }
        } else {
            CaptureStep { publish: None, action: CaptureAction::AcceptFrame }
        },
    }
}

/// Decides what the capture loop does with `event` while in `current`:
/// a timeout reports no signal and waits; an error that means the device
/// was removed stops the loop; other errors are logged; a frame under the
/// minimum size is dropped; a good frame ends a no-signal spell.
pub fn capture_step(current: CaptureState, event: CaptureEvent) -> (r: CaptureStep)
    ensures
        r == spec_capture_step(current, event),
{
    match event {
        CaptureEvent::ReadError { timed_out, raw_os_error } => {
            if timed_out {
                return CaptureStep {
                    publish: Some(CaptureState::NoSignal),
                    action: CaptureAction::WaitAndRetry,
                };
            }
            let lost = match raw_os_error {
                Some(e) => e == 6 || e == 19 || e == 5 || e == 32 || e == 108,
                None => false,
            };
            if lost {
                CaptureStep { publish: None, action: CaptureAction::DeviceLost }
            } else {
                CaptureStep { publish: None, action: CaptureAction::LogAndContinue }
            }
        },
        CaptureEvent::Frame { bytes_used } => {
            if bytes_used < MIN_FRAME_SIZE {
                CaptureStep { publish: None, action: CaptureAction::DropFrame }
            } else if current == CaptureState::NoSignal {
                CaptureStep {
                    publish: Some(CaptureState::Running),
                    action: CaptureAction::AcceptFrame,
                }
            } else {
                CaptureStep { publish: None, action: CaptureAction::AcceptFrame }
            }
        },
    }
}

/// Tries at opening a device that reports itself busy.
pub const OPEN_ATTEMPTS: u32 = 5;

/// An open error worth retrying: the message says the device is busy or
/// short of a resource.
pub fn is_busy_open_error(message: &str) -> (r: bool)
    ensures
        r == (seq_contains(message@, "busy"@) || seq_contains(message@, "resource"@)),
{
    str_contains(message, "busy") || str_contains(message, "resource")
}

/// The state the capturer ends in: stopped after a clean end, lost when the
/// device went away, in error otherwise.
pub fn final_capture_state(ok: bool, device_lost: bool) -> (r: CaptureState)
    ensures
        r == (if ok {
            CaptureState::Stopped
        } else if device_lost {
            CaptureState::DeviceLost
        } else {
            CaptureState::Error
        }),
{
    if ok {
        CaptureState::Stopped
    } else if device_lost {
        CaptureState::DeviceLost
    } else {
        CaptureState::Error
    }
}

/// A JPEG frame of at least 125 bytes that starts with SOI (FF D8) and ends
/// with EOI (FF D9), or with the padding D9 00 or 00 00.
pub open spec fn spec_is_valid_jpeg(data: Seq<u8>) -> bool {
    let n = data.len();
    &&& n >= 125
    &&& data[0] == 0xFF && data[1] == 0xD8
    &&& ((data[n - 2] == 0xFF && data[n - 1] == 0xD9) || (data[n - 2] == 0xD9 && data[n - 1]
        == 0x00) || (data[n - 2] == 0x00 && data[n - 1] == 0x00))
}

/// Validates JPEG frame data by its size and markers.
pub fn is_valid_jpeg(data: &[u8]) -> (r: bool)
    ensures
        r == spec_is_valid_jpeg(data@),
{
    if data.len() < 125 {
        return false;
    }
    if !(data[0] == 0xFF && data[1] == 0xD8) {
        return false;
    }
    let end = data.len();
    let a = data[end - 2];
    let b = data[end - 1];
    (a == 0xFF && b == 0xD9) || (a == 0xD9 && b == 0x00) || (a == 0x00 && b == 0x00)
}

/// Frame grabber for one-shot capture
pub struct FrameGrabber {
    device_path: String,
}

impl FrameGrabber {
    pub closed spec fn spec_device_path(&self) -> Seq<char> {
        self.device_path@
    }

    /// A grabber for the device at `device_path`.
    pub fn new(device_path: &str) -> (r: FrameGrabber)
        ensures
            r.spec_device_path() == device_path@,
    {
        FrameGrabber { device_path: string_of(device_path) }
    }

    /// The device this grabber captures from.
    pub fn device_path(&self) -> (r: &str)
        ensures
            r@ == self.spec_device_path(),
    {
        self.device_path.as_str()
    }
}

/// Attempts at a single frame before a one-shot capture gives up.
pub const GRAB_ATTEMPTS: u32 = 5;


/// What one try of a one-shot capture gave.
#[derive(Debug, Clone, Copy, PartialEq, Eq, Structural)]
pub enum GrabOutcome {
    /// A frame with this many bytes used.
    Frame { bytes_used: usize },
    /// A read error.
    ReadError,
}

/// What a one-shot capture does after a try.
#[derive(Debug, Clone, Copy, PartialEq, Eq, Structural)]
pub enum GrabDecision {
    /// Return the frame.
    Return,
    /// Try again.
    Retry,
    /// Give up with the read error.
    FailWithError,
    /// Give up: no valid frame came.
    FailNoFrame,
}

pub open spec fn spec_grab_decision(attempt: u32, outcome: GrabOutcome) -> GrabDecision {
    match outcome {
        GrabOutcome::Frame { bytes_used } => if bytes_used >= MIN_FRAME_SIZE {
            GrabDecision::Return
        } else if attempt + 1 >= GRAB_ATTEMPTS {
            GrabDecision::FailNoFrame
        } else {
            GrabDecision::Retry
        },
        GrabOutcome::ReadError => if attempt + 1 == GRAB_ATTEMPTS {
            GrabDecision::FailWithError
        } else if attempt + 1 > GRAB_ATTEMPTS {
            GrabDecision::FailNoFrame
        } else {
            GrabDecision::Retry
        },
    }
}

/// Decides after try `attempt` (from 0) of a one-shot capture: a frame of
/// at least the minimum size is returned; a read error on the last try is
/// reported; after the last try without a valid frame the capture fails.
pub fn grab_decision(attempt: u32, outcome: GrabOutcome) -> (r: GrabDecision)
    ensures
        r == spec_grab_decision(attempt, outcome),
{
    match outcome {
        GrabOutcome::Frame { bytes_used } => {
            if bytes_used >= MIN_FRAME_SIZE {
                GrabDecision::Return
            } else if attempt >= GRAB_ATTEMPTS - 1 {
                GrabDecision::FailNoFrame
            } else {
                GrabDecision::Retry
            }
        },
        GrabOutcome::ReadError => {
            if attempt == GRAB_ATTEMPTS - 1 {
                GrabDecision::FailWithError
            } else if attempt > GRAB_ATTEMPTS - 1 {
                GrabDecision::FailNoFrame
            } else {
                GrabDecision::Retry
            }
        },
    }
}

} // verus!
