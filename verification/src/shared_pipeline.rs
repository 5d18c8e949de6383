//! The decisions of the shared encoding pipeline that feeds every WebRTC
//! session: its configuration, its lifecycle, which state notifications
//! reach listeners, how MJPEG decoding is spread over workers, and how
//! encoding errors are grouped for logging.
use vstd::prelude::*;
use vstd::string::StringExecFns;
use crate::capture_status::{classify_capture_io_error, spec_classify_errno, CaptureIoErrorKind};
use crate::device::VideoControlMode;
use crate::format::{is_compressed_format, PixelFormat, Resolution};
use crate::registry::{EncoderBackend, VideoEncoderType};
use crate::signal::{spec_signal_name, SignalStatus};
use crate::h264_bitstream::{extract_profile_level_id, spec_extract_profile_level_id};
use crate::text::{seq_contains, str_contains, str_eq};

verus! {

/// Bitrate preset of the shared pipeline.
#[derive(Debug, Clone, Copy, PartialEq, Eq, Structural)]
pub enum BitratePreset {
    Speed,
    Balanced,
    Custom(u32),
}

/// Shared video pipeline configuration
#[derive(Debug, Clone, Copy, PartialEq, Eq, Structural)]
pub struct SharedVideoPipelineConfig {
    /// Whether the capture mode is configured by the client or follows HDMI.
    pub control_mode: VideoControlMode,
    /// Input resolution
    pub resolution: Resolution,
    /// Input pixel format
    pub input_format: PixelFormat,
    /// Output codec type
    pub output_codec: VideoEncoderType,
    /// Bitrate preset
    pub bitrate_preset: BitratePreset,
    /// Target FPS
    pub fps: u32,
    /// Encoder backend (None = auto select best available)
    pub encoder_backend: Option<EncoderBackend>,
}

/// The default configuration: client-configured 720p YUYV to H.264 at the
/// balanced preset, 30 fps, any backend.
pub open spec fn spec_default_pipeline_config() -> SharedVideoPipelineConfig {
    SharedVideoPipelineConfig {
        control_mode: VideoControlMode::Configurable,
        resolution: Resolution { width: 1280, height: 720 },
        input_format: PixelFormat::Yuyv,
        output_codec: VideoEncoderType::H264,
        bitrate_preset: BitratePreset::Balanced,
        fps: 30,
        encoder_backend: None,
    }
}

impl Default for SharedVideoPipelineConfig {
    fn default() -> (r: SharedVideoPipelineConfig)
        ensures
            r == spec_default_pipeline_config(),
    {
        SharedVideoPipelineConfig {
            control_mode: VideoControlMode::Configurable,
            resolution: Resolution::HD720(),
            input_format: PixelFormat::Yuyv,
            output_codec: VideoEncoderType::H264,
            bitrate_preset: BitratePreset::Balanced,
            fps: 30,
            encoder_backend: None,
        }
    }
}

/// The default configuration with this resolution, codec and preset.
pub open spec fn spec_codec_config(
    resolution: Resolution,
    codec: VideoEncoderType,
    preset: BitratePreset,
) -> SharedVideoPipelineConfig {
    SharedVideoPipelineConfig {
        resolution,
        output_codec: codec,
        bitrate_preset: preset,
        ..spec_default_pipeline_config()
    }
}

impl SharedVideoPipelineConfig {
    fn for_codec(resolution: Resolution, codec: VideoEncoderType, preset: BitratePreset) -> (r:
        SharedVideoPipelineConfig)
        ensures
            r == spec_codec_config(resolution, codec, preset),
    {
        let mut c = SharedVideoPipelineConfig::default();
        c.resolution = resolution;
        c.output_codec = codec;
        c.bitrate_preset = preset;
        c
    }

    /// H.264 at `resolution` with `preset`.
    pub fn h264(resolution: Resolution, preset: BitratePreset) -> (r: SharedVideoPipelineConfig)
        ensures
            r == spec_codec_config(resolution, VideoEncoderType::H264, preset),
    {
        Self::for_codec(resolution, VideoEncoderType::H264, preset)
    }

    /// H.265 at `resolution` with `preset`.
    pub fn h265(resolution: Resolution, preset: BitratePreset) -> (r: SharedVideoPipelineConfig)
        ensures
            r == spec_codec_config(resolution, VideoEncoderType::H265, preset),
    {
        Self::for_codec(resolution, VideoEncoderType::H265, preset)
    }

    /// VP8 at `resolution` with `preset`.
    pub fn vp8(resolution: Resolution, preset: BitratePreset) -> (r: SharedVideoPipelineConfig)
        ensures
            r == spec_codec_config(resolution, VideoEncoderType::VP8, preset),
    {
        Self::for_codec(resolution, VideoEncoderType::VP8, preset)
    }

    /// VP9 at `resolution` with `preset`.
    pub fn vp9(resolution: Resolution, preset: BitratePreset) -> (r: SharedVideoPipelineConfig)
        ensures
            r == spec_codec_config(resolution, VideoEncoderType::VP9, preset),
    {
        Self::for_codec(resolution, VideoEncoderType::VP9, preset)
    }
}

/// The geometry the pipeline streams with.
#[derive(Debug, Clone, Copy, PartialEq, Eq, Structural)]
pub struct PipelineAppliedConfig {
    pub resolution: Resolution,
    pub format: PixelFormat,
    pub fps: u32,
}

/// A state change the pipeline reports to its listener.
#[derive(Debug, Clone, Copy)]
pub struct PipelineStateNotification {
    pub state: &'static str,
    pub reason: Option<&'static str>,
    pub next_retry_ms: Option<u64>,
    pub applied_config: Option<PipelineAppliedConfig>,
}

pub open spec fn opt_str_view(o: Option<&'static str>) -> Option<Seq<char>> {
    match o {
        Some(s) => Some(s@),
        None => None,
    }
}

/// Two notifications say the same: equal texts, retry delay and geometry.
pub open spec fn same_notification(a: PipelineStateNotification, b: PipelineStateNotification) -> bool {
    &&& a.state@ == b.state@
    &&& opt_str_view(a.reason) == opt_str_view(b.reason)
    &&& a.next_retry_ms == b.next_retry_ms
    &&& a.applied_config == b.applied_config
}

impl PipelineStateNotification {
    /// Streaming with this geometry.
    pub fn streaming(resolution: Resolution, format: PixelFormat, fps: u32) -> (r:
        PipelineStateNotification)
        ensures
            r.state@ == "streaming"@,
            r.reason is None,
            r.next_retry_ms is None,
            r.applied_config == Some(PipelineAppliedConfig { resolution, format, fps }),
    {
        PipelineStateNotification {
            state: "streaming",
            reason: None,
            next_retry_ms: None,
            applied_config: Some(PipelineAppliedConfig { resolution, format, fps }),
        }
    }

    /// No signal, for the reason `status` names, retrying after the delay.
    pub fn no_signal(status: SignalStatus, next_retry_ms: Option<u64>) -> (r:
        PipelineStateNotification)
        ensures
            r.state@ == "no_signal"@,
            opt_str_view(r.reason) == Some(spec_signal_name(status)),
            r.next_retry_ms == next_retry_ms,
            r.applied_config is None,
    {
        PipelineStateNotification {
            state: "no_signal",
            reason: Some(status.as_str()),
            next_retry_ms,
            applied_config: None,
        }
    }

    /// Whether `self` and `other` say the same.
    pub fn same_as(&self, other: &PipelineStateNotification) -> (r: bool)
        ensures
            r == same_notification(*self, *other),
    {
        if !str_eq(self.state, other.state) {
            return false;
        }
        let reasons = match (self.reason, other.reason) {
            (None, None) => true,
            (Some(a), Some(b)) => str_eq(a, b),
            _ => false,
        };
        reasons && self.next_retry_ms == other.next_retry_ms && self.applied_config
            == other.applied_config
    }
}

/// Passes a notification on only when it differs from the last one passed.
pub struct StateNotificationFilter {
    last: Option<PipelineStateNotification>,
}

impl StateNotificationFilter {
    pub closed spec fn spec_last(&self) -> Option<PipelineStateNotification> {
        self.last
    }

    /// A filter that has passed nothing yet.
    pub fn new() -> (r: StateNotificationFilter)
        ensures
            r.spec_last() is None,
    {
        StateNotificationFilter { last: None }
    }

    /// Forgets the last notification, as a restart of the pipeline does.
    pub fn reset(&mut self)
        ensures
            final(self).spec_last() is None,
    {
        self.last = None;
    }

    /// Whether to emit `n`: it differs from the last one emitted. An emitted
    /// notification becomes the last one.
    pub fn should_emit(&mut self, n: PipelineStateNotification) -> (r: bool)
        ensures
            r == spec_should_emit(old(self).spec_last(), n),
            final(self).spec_last() == spec_last_after(old(self).spec_last(), n),
    {
        let repeat = match &self.last {
            Some(last) => last.same_as(&n),
            None => false,
        };
        if repeat {
            false
        } else {
            self.last = Some(n);
            true
        }
    }
}

/// Whether a filter whose last emission is `last` emits `n`.
pub open spec fn spec_should_emit(
    last: Option<PipelineStateNotification>,
    n: PipelineStateNotification,
) -> bool {
    match last {
        Some(l) => !same_notification(l, n),
        None => true,
    }
}

/// The filter's last emission after it is offered `n`.
pub open spec fn spec_last_after(
    last: Option<PipelineStateNotification>,
    n: PipelineStateNotification,
) -> Option<PipelineStateNotification> {
    if spec_should_emit(last, n) {
        Some(n)
    } else {
        last
    }
}

/// The same notification offered twice in a row is emitted at most once:
/// whatever the filter held, the second offer is suppressed.
pub proof fn lemma_repeat_is_suppressed(
    last: Option<PipelineStateNotification>,
    n: PipelineStateNotification,
)
    ensures
        !spec_should_emit(spec_last_after(last, n), n),
{
}

/// Where the pipeline stands: running while the run flag is set; stopping
/// while the capture thread has not yet signalled its end; stopped after.
#[derive(Debug, Clone, Copy, PartialEq, Eq, Structural)]
pub enum PipelineLifecycle {
    Running,
    Stopping,
    Stopped,
}

/// The lifecycle from the stop-request flag and the capture thread's
/// running signal.
pub fn lifecycle_of(running_flag: bool, running: bool) -> (r: PipelineLifecycle)
    ensures
        r == if running_flag {
            PipelineLifecycle::Running
        } else if running {
            PipelineLifecycle::Stopping
        } else {
            PipelineLifecycle::Stopped
        },
{
    if running_flag {
        PipelineLifecycle::Running
    } else if running {
        PipelineLifecycle::Stopping
    } else {
        PipelineLifecycle::Stopped
    }
}

/// One MJPEG decode worker per available CPU, and at least one.
pub fn mjpeg_decode_worker_count(available_parallelism: usize) -> (r: usize)
    ensures
        r == if available_parallelism < 1 {
            1
        } else {
            available_parallelism
        },
{
    if available_parallelism < 1 {
        1
    } else {
        available_parallelism
    }
}

/// Whether a decoded frame of `sequence` replaces the latest frame: only
/// when it is newer than the one published.
pub fn should_publish_decoded(latest_sequence: Option<u64>, sequence: u64) -> (r: bool)
    ensures
        r == match latest_sequence {
            Some(l) => l < sequence,
            None => true,
        },
{
    match latest_sequence {
        Some(l) => l < sequence,
        None => true,
    }
}

pub open spec fn spec_encode_error_key(m: Seq<char>) -> Seq<char> {
    if seq_contains(m, "FFmpeg HW encode failed"@) {
        if seq_contains(m, "avcodec_send_packet failed"@) && seq_contains(m, "ret=-11"@) {
            "encode_ffmpeg_hw_send_packet_eagain"@
        } else if seq_contains(m, "avcodec_send_frame failed"@) && seq_contains(m, "ret=-11"@) {
            "encode_ffmpeg_hw_send_frame_eagain"@
        } else if seq_contains(m, "avcodec_receive_packet failed"@) && seq_contains(
            m,
            "ret=-11"@,
        ) {
            "encode_ffmpeg_hw_receive_packet_eagain"@
        } else if seq_contains(m, "Resource temporarily unavailable"@) {
            "encode_ffmpeg_hw_eagain"@
        } else if seq_contains(m, "avcodec_send_packet failed"@) {
            "encode_ffmpeg_hw_send_packet"@
        } else if seq_contains(m, "avcodec_send_frame failed"@) {
            "encode_ffmpeg_hw_send_frame"@
        } else if seq_contains(m, "avcodec_receive_packet failed"@) {
            "encode_ffmpeg_hw_receive_packet"@
        } else {
            "encode_ffmpeg_hw"@
        }
    } else {
        "encode_"@ + m
    }
}

/// The key under which an encoding error is rate-limited in the log: the
/// FFmpeg hardware failures by the call that failed and whether it only
/// asked to try again; any other error by its message.
pub fn classify_encode_error(message: &str) -> (r: String)
    ensures
        r@ == spec_encode_error_key(message@),
{
    if str_contains(message, "FFmpeg HW encode failed") {
        let eagain = str_contains(message, "ret=-11");
        let send_packet = str_contains(message, "avcodec_send_packet failed");
        let send_frame = str_contains(message, "avcodec_send_frame failed");
        let receive_packet = str_contains(message, "avcodec_receive_packet failed");
        if send_packet && eagain {
            String::from_str("encode_ffmpeg_hw_send_packet_eagain")
        } else if send_frame && eagain {
            String::from_str("encode_ffmpeg_hw_send_frame_eagain")
        } else if receive_packet && eagain {
            String::from_str("encode_ffmpeg_hw_receive_packet_eagain")
        } else if str_contains(message, "Resource temporarily unavailable") {
            String::from_str("encode_ffmpeg_hw_eagain")
        } else if send_packet {
            String::from_str("encode_ffmpeg_hw_send_packet")
        } else if send_frame {
            String::from_str("encode_ffmpeg_hw_send_frame")
        } else if receive_packet {
            String::from_str("encode_ffmpeg_hw_receive_packet")
        } else {
            String::from_str("encode_ffmpeg_hw")
        }
    } else {
        let mut key = String::from_str("encode_");
        key.append(message);
        key
    }
}


/// Frames smaller than this many bytes are skipped.
pub const MIN_CAPTURE_FRAME_SIZE: usize = 128;

/// A frame was dequeued with `bytes_used` bytes: the timeout count starts
/// again at zero, and the frame is published only if it is not shorter than
/// `MIN_CAPTURE_FRAME_SIZE` (a short frame is skipped without a word).
pub fn frame_received_step(bytes_used: usize) -> (r: (u32, bool))
    ensures
        r == (0u32, bytes_used >= MIN_CAPTURE_FRAME_SIZE),
{
    (0, bytes_used >= MIN_CAPTURE_FRAME_SIZE)
}

/// Consecutive timeouts after which a configurable device's stream is
/// closed and opened again.
pub const CAPTURE_TIMEOUT_SOFT_RESTART_THRESHOLD: u32 = 3;

/// How long to wait before the next try.
#[derive(Debug, Clone, Copy, PartialEq, Eq, Structural)]
pub enum RetryDelay {
    /// The recovery policy's delay for this attempt number.
    Policy(u32),
    /// A fixed delay, in milliseconds.
    FixedMs(u64),
}

/// A no-signal report: its reason and when the next try comes.
#[derive(Debug, Clone, Copy, PartialEq, Eq, Structural)]
pub struct NoSignalReport {
    pub status: SignalStatus,
    pub delay: RetryDelay,
}

/// What reading from the capture stream gave.
#[derive(Debug, Clone, Copy, PartialEq, Eq, Structural)]
pub enum CaptureReadEvent {
    /// The driver reported a source change.
    SourceChanged,
    /// Nothing to read yet.
    WouldBlock,
    /// The read timed out.
    TimedOut,
    /// Another I/O error, by its OS error number.
    Io { raw_os_error: Option<i32> },
}

/// What the capture loop does after a failed read.
#[derive(Debug, Clone, Copy, PartialEq, Eq, Structural)]
pub enum CaptureReadAction {
    /// Read again.
    Continue,
    /// Close the stream; the next turn opens it again.
    Reopen,
    /// Log the error (rate-limited), and read again.
    LogError,
    /// Record the device as lost and stop.
    DeviceLost,
}

/// One decision after a failed read: the new count of consecutive
/// timeouts, the report to send, and what to do.
#[derive(Debug, Clone, Copy, PartialEq, Eq, Structural)]
pub struct CaptureReadStep {
    pub consecutive_timeouts: u32,
    pub report: Option<NoSignalReport>,
    pub action: CaptureReadAction,
}

pub open spec fn sat_inc(n: u32) -> u32 {
    if n == u32::MAX {
        n
    } else {
        (n + 1) as u32
    }
}

pub open spec fn spec_read_step(
    mode: VideoControlMode,
    timeouts: u32,
    event: CaptureReadEvent,
) -> CaptureReadStep {
    match event {
        CaptureReadEvent::SourceChanged => CaptureReadStep {
            consecutive_timeouts: 0,
            report: if mode == VideoControlMode::SourceFollowing {
                Some(NoSignalReport { status: SignalStatus::NoSignal, delay: RetryDelay::Policy(1) })
            } else {
                None
            },
            action: CaptureReadAction::Reopen,
        },
        CaptureReadEvent::WouldBlock => CaptureReadStep {
            consecutive_timeouts: timeouts,
            report: None,
            action: CaptureReadAction::Continue,
        },
        CaptureReadEvent::TimedOut => {
            let t = sat_inc(timeouts);
            if mode == VideoControlMode::SourceFollowing {
                CaptureReadStep {
                    consecutive_timeouts: t,
                    report: Some(
                        NoSignalReport { status: SignalStatus::NoSignal, delay: RetryDelay::Policy(t) },
                    ),
                    action: CaptureReadAction::Reopen,
                }
            } else if t >= CAPTURE_TIMEOUT_SOFT_RESTART_THRESHOLD {
                CaptureReadStep {
                    consecutive_timeouts: t,
                    report: Some(
                        NoSignalReport {
                            status: SignalStatus::UvcCaptureStall,
                            delay: RetryDelay::FixedMs(2000),
                        },
                    ),
                    action: CaptureReadAction::Reopen,
                }
            } else {
                CaptureReadStep {
                    consecutive_timeouts: t,
                    report: None,
                    action: CaptureReadAction::Continue,
                }
            }
        },
        CaptureReadEvent::Io { raw_os_error } => match spec_classify_errno(raw_os_error) {
            CaptureIoErrorKind::TransientSignal { status } => CaptureReadStep {
                consecutive_timeouts: 0,
                report: if status == Some(SignalStatus::UvcUsbError) {
                    Some(
                        NoSignalReport {
                            status: SignalStatus::UvcUsbError,
                            delay: RetryDelay::FixedMs(2000),
                        },
                    )
                } else {
                    None
                },
                action: CaptureReadAction::Reopen,
            },
            CaptureIoErrorKind::DeviceLost => CaptureReadStep {
                consecutive_timeouts: 0,
                report: None,
                action: CaptureReadAction::DeviceLost,
            },
            CaptureIoErrorKind::Other => CaptureReadStep {
                consecutive_timeouts: 0,
                report: None,
                action: CaptureReadAction::LogError,
            },
        },
    }
}

/// Decides what the shared capture loop does after a failed read. A source
/// change drops the stream (and, on a source-following device, reports no
/// signal); a timeout counts up, and on a source-following device, or after
/// three in a row on a configurable one, drops the stream and reports; a
/// transient I/O error drops the stream; a lost device stops the loop; any
/// other error is logged.
pub fn capture_read_step(mode: VideoControlMode, timeouts: u32, event: CaptureReadEvent) -> (r:
    CaptureReadStep)
    ensures
        r == spec_read_step(mode, timeouts, event),
{
    match event {
        CaptureReadEvent::SourceChanged => {
            let report = if mode == VideoControlMode::SourceFollowing {
                Some(NoSignalReport { status: SignalStatus::NoSignal, delay: RetryDelay::Policy(1) })
            } else {
                None
            };
            CaptureReadStep { consecutive_timeouts: 0, report, action: CaptureReadAction::Reopen }
        },
        CaptureReadEvent::WouldBlock => CaptureReadStep {
            consecutive_timeouts: timeouts,
            report: None,
            action: CaptureReadAction::Continue,
        },
        CaptureReadEvent::TimedOut => {
            let t = timeouts.saturating_add(1);
            if mode == VideoControlMode::SourceFollowing {
                CaptureReadStep {
                    consecutive_timeouts: t,
                    report: Some(
                        NoSignalReport { status: SignalStatus::NoSignal, delay: RetryDelay::Policy(t) },
                    ),
                    action: CaptureReadAction::Reopen,
                }
            } else if t >= CAPTURE_TIMEOUT_SOFT_RESTART_THRESHOLD {
                CaptureReadStep {
                    consecutive_timeouts: t,
                    report: Some(
                        NoSignalReport {
                            status: SignalStatus::UvcCaptureStall,
                            delay: RetryDelay::FixedMs(2000),
                        },
                    ),
                    action: CaptureReadAction::Reopen,
                }
            } else {
                CaptureReadStep {
                    consecutive_timeouts: t,
                    report: None,
                    action: CaptureReadAction::Continue,
                }
            }
        },
        CaptureReadEvent::Io { raw_os_error } => match classify_capture_io_error(raw_os_error) {
            CaptureIoErrorKind::TransientSignal { status } => {
                let report = if status == Some(SignalStatus::UvcUsbError) {
                    Some(
                        NoSignalReport {
                            status: SignalStatus::UvcUsbError,
                            delay: RetryDelay::FixedMs(2000),
                        },
                    )
                } else {
                    None
                };
                CaptureReadStep { consecutive_timeouts: 0, report, action: CaptureReadAction::Reopen }
            },
            CaptureIoErrorKind::DeviceLost => CaptureReadStep {
                consecutive_timeouts: 0,
                report: None,
                action: CaptureReadAction::DeviceLost,
            },
            CaptureIoErrorKind::Other => CaptureReadStep {
                consecutive_timeouts: 0,
                report: None,
                action: CaptureReadAction::LogError,
            },
        },
    }
}

/// A capture geometry: resolution and pixel format.
pub type Geometry = (Resolution, PixelFormat);

/// Whether a newly opened stream can feed the running encoder. Before any
/// stream was open the encoder is sized to the configured geometry; after,
/// to the first stream's. A stream of another geometry stops the pipeline
/// so that the encoder is rebuilt.
pub fn opened_geometry_fits(initial: Option<Geometry>, configured: Geometry, opened: Geometry) -> (r:
    bool)
    ensures
        r == match initial {
            None => opened == configured,
            Some(g) => opened == g,
        },
{
    match initial {
        None => opened.0 == configured.0 && opened.1 == configured.1,
        Some(g) => opened.0 == g.0 && opened.1 == g.1,
    }
}

/// What the capture loop does when opening the stream found no signal.
#[derive(Debug, Clone, Copy, PartialEq, Eq, Structural)]
pub struct NoSignalOpenStep {
    pub consecutive_timeouts: u32,
    /// The report to send before waiting; `None` when the loop gives up.
    pub report: Option<NoSignalReport>,
}

/// Counts the failed open; gives up where the recovery policy allows no
/// more tries (`may_retry`, asked with the new count), else reports the
/// status with the policy's delay for the new count.
pub fn no_signal_open_step(timeouts: u32, status: SignalStatus, may_retry: bool) -> (r:
    NoSignalOpenStep)
    ensures
        r.consecutive_timeouts == sat_inc(timeouts),
        r.report == if may_retry {
            Some(NoSignalReport { status, delay: RetryDelay::Policy(sat_inc(timeouts)) })
        } else {
            None
        },
{
    let t = timeouts.saturating_add(1);
    if may_retry {
        NoSignalOpenStep {
            consecutive_timeouts: t,
            report: Some(NoSignalReport { status, delay: RetryDelay::Policy(t) }),
        }
    } else {
        NoSignalOpenStep { consecutive_timeouts: t, report: None }
    }
}


/// The `profile-level-id` to publish after an encoded H.264 packet: the one
/// the packet's last SPS carries, where there is one and it differs from
/// the one published (`current`); otherwise nothing.
pub fn profile_level_id_update(current: Option<&str>, data: &[u8]) -> (r: Option<String>)
    ensures
        match spec_extract_profile_level_id(data@) {
            None => r is None,
            Some(id) => match current {
                Some(c) => if c@ == id {
                    r is None
                } else {
                    r matches Some(s) && s@ == id
                },
                None => r matches Some(s) && s@ == id,
            },
        },
{
    let extracted = extract_profile_level_id(data);
    match extracted {
        None => None,
        Some(id) => match current {
            Some(c) => {
                if str_eq(c, id.as_str()) {
                    None
                } else {
                    Some(id)
                }
            },
            None => Some(id),
        },
    }
}

/// Seconds without subscribers after which the capture loop stops itself.
pub const AUTO_STOP_GRACE_PERIOD_SECS: u64 = 3;

/// What the capture loop does about its subscribers on one turn.
#[derive(Debug, Clone, Copy, PartialEq, Eq, Structural)]
pub enum SubscriberAction {
    /// Someone is listening: go on capturing.
    Capture,
    /// Nobody listens yet within the grace period: wait a little and look again.
    Wait,
    /// Nobody listened for the whole grace period: stop the pipeline.
    Stop,
}

/// One turn of the auto-stop rule, at `now_ms` on a monotonic clock.
/// `since_ms` is when the subscribers were last seen gone (`None` while
/// someone listens); the result is the new value of it and the action.
/// The timer starts when the last subscriber leaves, is reset when one
/// comes back, and stops the pipeline once the grace period has passed.
pub fn subscriber_step(since_ms: Option<u64>, subscriber_count: usize, now_ms: u64) -> (r: (
    Option<u64>,
    SubscriberAction,
))
    ensures
        subscriber_count > 0 ==> r == (None::<u64>, SubscriberAction::Capture),
        subscriber_count == 0 ==> {
            let start = match since_ms {
                Some(t) => t,
                None => now_ms,
            };
            &&& r.0 == Some(start)
            &&& r.1 == if now_ms >= start && now_ms - start >= AUTO_STOP_GRACE_PERIOD_SECS
                * 1000 {
                SubscriberAction::Stop
            } else {
                SubscriberAction::Wait
            }
        },
{
    if subscriber_count > 0 {
        return (None, SubscriberAction::Capture);
    }
    let start = match since_ms {
        Some(t) => t,
        None => now_ms,
    };
    if now_ms >= start && now_ms - start >= AUTO_STOP_GRACE_PERIOD_SECS * 1000 {
        (Some(start), SubscriberAction::Stop)
    } else {
        (Some(start), SubscriberAction::Wait)
    }
}

// ---------------------------------------------------------------------------
// The RKMPP zero-copy capture path
// ---------------------------------------------------------------------------

/// What the DMA capture loop remembers between turns.
#[derive(Debug, Clone, Copy, PartialEq, Eq, Structural)]
pub struct DmaLoopState {
    /// The zero-copy encoder may still be used; cleared for good by its first failure.
    pub allow_dma: bool,
    /// The open capture encodes through the zero-copy encoder.
    pub using_dma: bool,
    /// Consecutive failed capture turns, for the retry delay.
    pub failures: u32,
}

/// What one turn of the DMA capture loop brought.
#[derive(Debug, Clone, Copy, PartialEq, Eq, Structural)]
pub enum DmaTurnEvent {
    /// Frames were encoded.
    Encoded,
    /// The encoder failed on a frame.
    EncodeFailed,
    /// Changing the active encoder's bitrate failed.
    ReconfigureFailed,
    /// No frame was ready yet.
    WouldBlock,
    /// The driver handed a frame in a layout the zero-copy encoder cannot take.
    InvalidLayout,
    /// Capture failed: whether the device is gone, the signal status to report,
    /// and whether the source changed (no wait before reopening then).
    CaptureFailed { device_lost: bool, status: SignalStatus, source_changed: bool },
}

/// What the loop does after a turn.
#[derive(Debug, Clone, Copy, PartialEq, Eq, Structural)]
pub enum DmaTurnAction {
    /// Publish the frames and report streaming.
    Publish,
    /// Go on without a word.
    Continue,
    /// Log the error (throttled) and go on.
    LogError,
    /// Replace the zero-copy encoder by the copying one and ask for a keyframe.
    FallBackToCopy,
    /// End the worker with the error.
    Fail,
    /// The device is gone: report it and stop.
    DeviceLost,
    /// Close the capture, report no signal with the retry delay of
    /// `failures`, and wait for a source change unless `wait` is false.
    Reopen { status: SignalStatus, failures: u32, wait: bool },
}

/// The start of the DMA loop: zero-copy allowed and in use, no failures.
pub open spec fn spec_dma_start() -> DmaLoopState {
    DmaLoopState { allow_dma: true, using_dma: true, failures: 0 }
}

/// One turn of the DMA loop, as a function of the state and what happened.
pub open spec fn spec_dma_turn(state: DmaLoopState, event: DmaTurnEvent) -> (DmaLoopState, DmaTurnAction) {
    let fallback = DmaLoopState { allow_dma: false, using_dma: false, failures: state.failures };
    match event {
        DmaTurnEvent::Encoded => (DmaLoopState { failures: 0, ..state }, DmaTurnAction::Publish),
        DmaTurnEvent::EncodeFailed => if state.using_dma {
            (fallback, DmaTurnAction::FallBackToCopy)
        } else {
            (state, DmaTurnAction::LogError)
        },
        DmaTurnEvent::ReconfigureFailed => if state.using_dma {
            (fallback, DmaTurnAction::FallBackToCopy)
        } else {
            (state, DmaTurnAction::Fail)
        },
        DmaTurnEvent::WouldBlock => (state, DmaTurnAction::Continue),
        DmaTurnEvent::InvalidLayout => if state.allow_dma {
            (fallback, DmaTurnAction::FallBackToCopy)
        } else {
            (
                DmaLoopState { failures: sat_inc(state.failures), using_dma: false, ..state },
                DmaTurnAction::Reopen { status: SignalStatus::NoSignal, failures: sat_inc(state.failures), wait: true },
            )
        },
        DmaTurnEvent::CaptureFailed { device_lost, status, source_changed } => if device_lost {
            (state, DmaTurnAction::DeviceLost)
        } else {
            (
                DmaLoopState { failures: sat_inc(state.failures), using_dma: false, ..state },
                DmaTurnAction::Reopen { status, failures: sat_inc(state.failures), wait: !source_changed },
            )
        },
    }
}

/// Reopening the capture, as a function of the state and how it went.
pub open spec fn spec_dma_reopen(state: DmaLoopState, opened: bool, supports_dmabuf: bool, prepare_ok: bool) -> DmaLoopState {
    if opened {
        DmaLoopState {
            allow_dma: state.allow_dma && (!supports_dmabuf || prepare_ok),
            using_dma: state.allow_dma && supports_dmabuf && prepare_ok,
            failures: state.failures,
        }
    } else {
        DmaLoopState { failures: sat_inc(state.failures), ..state }
    }
}

/// One turn of the DMA capture loop: success resets the failure count; any
/// failure of the zero-copy encoder (an encode error, a failed bitrate
/// change, a frame layout it cannot take) moves to the copying encoder for
/// the rest of the pipeline's life; a failed bitrate change on the copying
/// encoder ends the worker; a lost device stops the loop; other
/// capture failures reopen after the policy's delay.
pub fn dma_turn_step(state: DmaLoopState, event: DmaTurnEvent) -> (r: (DmaLoopState, DmaTurnAction))
    ensures
        r == spec_dma_turn(state, event),
{
    let fallback = DmaLoopState { allow_dma: false, using_dma: false, failures: state.failures };
    match event {
        DmaTurnEvent::Encoded => (DmaLoopState { failures: 0, ..state }, DmaTurnAction::Publish),
        DmaTurnEvent::EncodeFailed => if state.using_dma {
            (fallback, DmaTurnAction::FallBackToCopy)
        } else {
            (state, DmaTurnAction::LogError)
        },
        DmaTurnEvent::ReconfigureFailed => if state.using_dma {
            (fallback, DmaTurnAction::FallBackToCopy)
        } else {
            (state, DmaTurnAction::Fail)
        },
        DmaTurnEvent::WouldBlock => (state, DmaTurnAction::Continue),
        DmaTurnEvent::InvalidLayout => if state.allow_dma {
            (fallback, DmaTurnAction::FallBackToCopy)
        } else {
            let failures = state.failures.saturating_add(1);
            (
                DmaLoopState { failures, using_dma: false, ..state },
                DmaTurnAction::Reopen { status: SignalStatus::NoSignal, failures, wait: true },
            )
        },
        DmaTurnEvent::CaptureFailed { device_lost, status, source_changed } => if device_lost {
            (state, DmaTurnAction::DeviceLost)
        } else {
            let failures = state.failures.saturating_add(1);
            (
                DmaLoopState { failures, using_dma: false, ..state },
                DmaTurnAction::Reopen { status, failures, wait: !source_changed },
            )
        },
    }
}

/// What reopening the capture decides: the zero-copy encoder is used when it
/// is still allowed and the stream supports DMA buffers; if preparing it
/// fails, the copying encoder is used and zero-copy is given up. A failed
/// open for want of a signal counts as a failure.
pub fn dma_reopen_step(state: DmaLoopState, opened: bool, supports_dmabuf: bool, prepare_ok: bool) -> (r:
    DmaLoopState)
    ensures
        r == spec_dma_reopen(state, opened, supports_dmabuf, prepare_ok),
{
    if !opened {
        return DmaLoopState { failures: state.failures.saturating_add(1), ..state };
    }
    if state.allow_dma && supports_dmabuf {
        if prepare_ok {
            DmaLoopState { allow_dma: true, using_dma: true, failures: state.failures }
        } else {
            DmaLoopState { allow_dma: false, using_dma: false, failures: state.failures }
        }
    } else {
        DmaLoopState { using_dma: false, ..state }
    }
}

/// Whether a reopened stream is worth preparing the zero-copy encoder on:
/// zero-copy is still allowed and the stream supports DMA buffers.
pub fn dma_should_prepare(state: DmaLoopState, supports_dmabuf: bool) -> (r: bool)
    ensures
        r == (state.allow_dma && supports_dmabuf),
{
    state.allow_dma && supports_dmabuf
}

/// Once zero-copy is given up, no turn of the loop takes it up again.
pub proof fn lemma_dma_fallback_is_final(state: DmaLoopState, event: DmaTurnEvent, opened: bool, supports: bool, prepare_ok: bool)
    requires
        !state.allow_dma,
    ensures
        !spec_dma_turn(state, event).0.allow_dma,
        !spec_dma_turn(state, event).0.using_dma || state.using_dma,
        !spec_dma_reopen(state, opened, supports, prepare_ok).allow_dma,
        !spec_dma_reopen(state, opened, supports, prepare_ok).using_dma || (!opened && state.using_dma),
{
}

// ---------------------------------------------------------------------------
// Encoding one frame
// ---------------------------------------------------------------------------

/// `a - b`, held to the range of `i64`.
pub open spec fn spec_sat_sub_i64(a: i64, b: i64) -> i64 {
    if a - b > i64::MAX {
        i64::MAX
    } else if a - b < i64::MIN {
        i64::MIN
    } else {
        (a - b) as i64
    }
}

/// Division by 1000 rounding towards zero, as integer division does.
pub open spec fn spec_div1000_trunc(x: i64) -> i64 {
    if x >= 0 {
        (x / 1000) as i64
    } else {
        (-((-x) / 1000)) as i64
    }
}

/// The presentation time of a frame encoded at `current_us` microseconds of
/// a monotonic clock, and the pipeline's start time after it: the first
/// frame (start 0) starts the clock and is at 0 ms; later frames are at the
/// time elapsed since the start, in whole milliseconds.
pub fn pipeline_pts_ms(start_us: i64, current_us: i64) -> (r: (i64, i64))
    ensures
        r == if start_us == 0 {
            (0i64, current_us)
        } else {
            (spec_div1000_trunc(spec_sat_sub_i64(current_us, start_us)), start_us)
        },
{
    if start_us == 0 {
        return (0, current_us);
    }
    let diff: i128 = current_us as i128 - start_us as i128;
    let d: i64 = if diff > i64::MAX as i128 {
        i64::MAX
    } else if diff < i64::MIN as i128 {
        i64::MIN
    } else {
        diff as i64
    };
    let pts: i64 = if d >= 0 {
        d / 1000
    } else {
        let m: i64 = if d == i64::MIN { i64::MAX } else { -d };
        proof {
            if d == i64::MIN {
                assert((-(d as int)) / 1000 == (i64::MAX as int) / 1000) by (nonlinear_arith)
                    requires d == i64::MIN;
            }
        }
        -(m / 1000)
    };
    (pts, start_us)
}

/// Which bytes of a frame go to the encoder.
#[derive(Debug, Clone, Copy, PartialEq, Eq, Structural)]
pub enum EncodeFeed {
    /// The captured MJPEG, to the hardware MJPEG-to-H.26x pipeline.
    HwPipeline,
    /// The frame decoded from MJPEG.
    Decoded,
    /// The captured frame, its rows packed first when they are strided.
    Captured,
}

/// Which conversion runs before the encoder.
#[derive(Debug, Clone, Copy, PartialEq, Eq, Structural)]
pub enum EncodeConversion {
    /// The frame goes to the encoder as it is.
    Direct,
    ToYuv420p,
    ToNv12,
}

/// How one frame is encoded.
#[derive(Debug, Clone, Copy, PartialEq, Eq, Structural)]
pub struct EncodePlan {
    pub feed: EncodeFeed,
    pub conversion: EncodeConversion,
    /// A pending keyframe request is consumed and passed to the encoder.
    pub request_keyframe: bool,
}

/// The plan for one frame: the hardware pipeline takes MJPEG only and
/// converts nothing; otherwise compressed frames are decoded first and the
/// others fed as captured; an encoder that needs YUV420P gets it through its
/// converter when there is one, else the frame as it is; the others get NV12
/// through the NV12 converter when there is one. A pending keyframe request
/// always goes to the encoder.
pub open spec fn spec_encode_plan(
    input: PixelFormat,
    hw_pipeline: bool,
    needs_yuv420p: bool,
    has_yuv420p_conv: bool,
    has_nv12_conv: bool,
    keyframe_requested: bool,
) -> Result<EncodePlan, Seq<char>> {
    if hw_pipeline {
        if input != PixelFormat::Mjpeg {
            Err("FFmpeg HW pipeline requires MJPEG input"@)
        } else {
            Ok(
                EncodePlan {
                    feed: EncodeFeed::HwPipeline,
                    conversion: EncodeConversion::Direct,
                    request_keyframe: keyframe_requested,
                },
            )
        }
    } else {
        Ok(
            EncodePlan {
                feed: if is_compressed_format(input) {
                    EncodeFeed::Decoded
                } else {
                    EncodeFeed::Captured
                },
                conversion: if needs_yuv420p {
                    if has_yuv420p_conv {
                        EncodeConversion::ToYuv420p
                    } else {
                        EncodeConversion::Direct
                    }
                } else if has_nv12_conv {
                    EncodeConversion::ToNv12
                } else {
                    EncodeConversion::Direct
                },
                request_keyframe: keyframe_requested,
            },
        )
    }
}

/// Plans the encoding of one frame; see `spec_encode_plan`.
pub fn encode_frame_plan(
    input: PixelFormat,
    hw_pipeline: bool,
    needs_yuv420p: bool,
    has_yuv420p_conv: bool,
    has_nv12_conv: bool,
    keyframe_requested: bool,
) -> (r: Result<EncodePlan, String>)
    ensures
        match (r, spec_encode_plan(
            input,
            hw_pipeline,
            needs_yuv420p,
            has_yuv420p_conv,
            has_nv12_conv,
            keyframe_requested,
        )) {
            (Ok(p), Ok(q)) => p == q,
            (Err(m), Err(n)) => m@ == n,
            _ => false,
        },
{
    if hw_pipeline {
        if input != PixelFormat::Mjpeg {
            return Err(String::from_str("FFmpeg HW pipeline requires MJPEG input"));
        }
        return Ok(
            EncodePlan {
                feed: EncodeFeed::HwPipeline,
                conversion: EncodeConversion::Direct,
                request_keyframe: keyframe_requested,
            },
        );
    }
    let feed = if input == PixelFormat::Mjpeg || input == PixelFormat::Jpeg {
        EncodeFeed::Decoded
    } else {
        EncodeFeed::Captured
    };
    let conversion = if needs_yuv420p {
        if has_yuv420p_conv {
            EncodeConversion::ToYuv420p
        } else {
            EncodeConversion::Direct
        }
    } else if has_nv12_conv {
        EncodeConversion::ToNv12
    } else {
        EncodeConversion::Direct
    };
    Ok(EncodePlan { feed, conversion, request_keyframe: keyframe_requested })
}

} // verus!
