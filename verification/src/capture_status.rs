//! Classification of capture errors: lost devices, transient signal loss,
//! and the keys under which repeated errors are logged.
use vstd::prelude::*;
use crate::device::VideoControlMode;
use crate::signal::{spec_signal_from_name, SignalStatus};
use crate::text::{concat_str, seq_contains, str_contains, string_of};

verus! {

/// What a capture I/O error means for the capture loop.
#[derive(Debug, Clone, Copy, PartialEq, Eq, Structural)]
pub enum CaptureIoErrorKind {
    DeviceLost,
    TransientSignal { status: Option<SignalStatus> },
    Other,
}

/// The status named by a capture error kind; unknown names mean no signal.
pub fn signal_status_from_capture_kind(kind: &str) -> (r: SignalStatus)
    ensures
        r == match spec_signal_from_name(kind@) {
            Some(s) => s,
            None => SignalStatus::NoSignal,
        },
{
    match SignalStatus::from_str(kind) {
        Some(s) => s,
        None => SignalStatus::NoSignal,
    }
}

/// The meaning of an OS error number: ENXIO (6), ENODEV (19) and ESHUTDOWN
/// (108) lose the device; EIO (5) and EPIPE (32) are transient; EPROTO (71)
/// is a transient UVC USB error; anything else, or no number, is other.
pub open spec fn spec_classify_errno(raw_os_error: Option<i32>) -> CaptureIoErrorKind {
    match raw_os_error {
        Some(6) | Some(19) | Some(108) => CaptureIoErrorKind::DeviceLost,
        Some(5) | Some(32) => CaptureIoErrorKind::TransientSignal { status: None },
        Some(71) => CaptureIoErrorKind::TransientSignal { status: Some(SignalStatus::UvcUsbError) },
        _ => CaptureIoErrorKind::Other,
    }
}

/// Classifies a capture I/O error by its OS error number.
pub fn classify_capture_io_error(raw_os_error: Option<i32>) -> (r: CaptureIoErrorKind)
    ensures
        r == spec_classify_errno(raw_os_error),
{
    match raw_os_error {
        Some(6) | Some(19) | Some(108) => CaptureIoErrorKind::DeviceLost,
        Some(5) | Some(32) => CaptureIoErrorKind::TransientSignal { status: None },
        Some(71) => CaptureIoErrorKind::TransientSignal { status: Some(SignalStatus::UvcUsbError) },
        _ => CaptureIoErrorKind::Other,
    }
}

/// The signal status to report while recovering from a capture error: a
/// timeout on a configurable (USB) device is a capture stall; otherwise the
/// status a transient error names, else no signal.
pub fn capture_recovery_status(
    control_mode: VideoControlMode,
    timed_out: bool,
    raw_os_error: Option<i32>,
) -> (r: SignalStatus)
    ensures
        r == if control_mode == VideoControlMode::Configurable && timed_out {
            SignalStatus::UvcCaptureStall
        } else {
            match spec_classify_errno(raw_os_error) {
                CaptureIoErrorKind::TransientSignal { status: Some(s) } => s,
                _ => SignalStatus::NoSignal,
            }
        },
{
    if control_mode == VideoControlMode::Configurable && timed_out {
        return SignalStatus::UvcCaptureStall;
    }
    match classify_capture_io_error(raw_os_error) {
        CaptureIoErrorKind::TransientSignal { status: Some(status) } => status,
        _ => SignalStatus::NoSignal,
    }
}

/// The message says the device node is gone.
pub open spec fn spec_is_device_lost_message(m: Seq<char>) -> bool {
    seq_contains(m, "No such file or directory"@) || seq_contains(m, "No such device"@)
        || seq_contains(m, "os error 2"@) || seq_contains(m, "ENODEV"@) || seq_contains(
        m,
        "ENXIO"@,
    ) || seq_contains(m, "ESHUTDOWN"@)
}

/// Whether an error message says the device node is gone.
pub fn is_device_lost_message(message: &str) -> (r: bool)
    ensures
        r == spec_is_device_lost_message(message@),
{
    str_contains(message, "No such file or directory") || str_contains(message, "No such device")
        || str_contains(message, "os error 2") || str_contains(message, "ENODEV") || str_contains(
        message,
        "ENXIO",
    ) || str_contains(message, "ESHUTDOWN")
}

/// The log-throttling key of a capture error, from its message and the name
/// of its I/O error kind.
pub open spec fn spec_capture_error_log_key(message: Seq<char>, kind_name: Seq<char>) -> Seq<char> {
    if seq_contains(message, "dqbuf failed"@) && seq_contains(message, "EINVAL"@) {
        "capture_dqbuf_einval"@
    } else if seq_contains(message, "dqbuf failed"@) {
        "capture_dqbuf"@
    } else {
        "capture_"@ + kind_name
    }
}

/// The key under which a capture error is logged: DQBUF failures get their
/// own keys, anything else is keyed by its I/O error kind.
pub fn capture_error_log_key(message: &str, kind_name: &str) -> (r: String)
    ensures
        r@ == spec_capture_error_log_key(message@, kind_name@),
{
    if str_contains(message, "dqbuf failed") && str_contains(message, "EINVAL") {
        string_of("capture_dqbuf_einval")
    } else if str_contains(message, "dqbuf failed") {
        string_of("capture_dqbuf")
    } else {
        concat_str("capture_", kind_name)
    }
}


/// Why opening a capture stream failed, as the retry loop sees it.
#[derive(Debug, Clone, PartialEq, Eq)]
pub enum CaptureOpenFailure {
    /// No signal, with the status its kind names.
    NoSignal(SignalStatus),
    /// The device is gone; the error message.
    DeviceLost(String),
    /// Anything else.
    Fatal,
}

/// Classifies a failed open: a no-signal error by its kind (`no_signal_kind`,
/// where the error is one), else a message saying the device is gone, else
/// fatal.
pub fn classify_open_failure(no_signal_kind: Option<&str>, message: &str) -> (r: CaptureOpenFailure)
    ensures
        match no_signal_kind {
            Some(kind) => r == CaptureOpenFailure::NoSignal(match spec_signal_from_name(kind@) {
                Some(s) => s,
                None => SignalStatus::NoSignal,
            }),
            None => if spec_is_device_lost_message(message@) {
                r matches CaptureOpenFailure::DeviceLost(m) && m@ == message@
            } else {
                r == CaptureOpenFailure::Fatal
            },
        },
{
    match no_signal_kind {
        Some(kind) => CaptureOpenFailure::NoSignal(signal_status_from_capture_kind(kind)),
        None => {
            if is_device_lost_message(message) {
                CaptureOpenFailure::DeviceLost(string_of(message))
            } else {
                CaptureOpenFailure::Fatal
            }
        },
    }
}

} // verus!
