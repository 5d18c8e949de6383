//! Video signal status classification.
use vstd::prelude::*;
use crate::text::str_eq;

verus! {

/// Fine-grained signal status reported by CSI/HDMI bridge devices.
///
/// Only `rk_hdmirx` / `rkcif` / tc358743-class bridges can distinguish these
/// via the errno of their DV-timings query; USB UVC devices always report
/// success until they fail with a generic timeout.
#[derive(Debug, Clone, Copy, PartialEq, Eq, Structural)]
pub enum SignalStatus {
    /// HDMI cable physically disconnected (`ENOLINK`).
    NoCable,
    /// TMDS signal present but timings cannot be locked (`ENOLCK`).
    NoSync,
    /// Timings outside of hardware capability (`ERANGE`).
    OutOfRange,
    /// Generic "no usable source" (fallback for EINVAL / EIO / unknown errnos).
    NoSignal,
    /// UVC/USB isochronous protocol error (kernel status -71 / userspace EPROTO).
    UvcUsbError,
    /// UVC capture stalled (repeated DQBUF timeouts).
    UvcCaptureStall,
}

/// The wire name of each status.
pub open spec fn spec_signal_name(s: SignalStatus) -> Seq<char> {
    match s {
        SignalStatus::NoCable => "no_cable"@,
        SignalStatus::NoSync => "no_sync"@,
        SignalStatus::OutOfRange => "out_of_range"@,
        SignalStatus::NoSignal => "no_signal"@,
        SignalStatus::UvcUsbError => "uvc_usb_error"@,
        SignalStatus::UvcCaptureStall => "uvc_capture_stall"@,
    }
}

/// The status whose wire name is `s`.
pub open spec fn spec_signal_from_name(s: Seq<char>) -> Option<SignalStatus> {
    if s == "no_cable"@ {
        Some(SignalStatus::NoCable)
    } else if s == "no_sync"@ {
        Some(SignalStatus::NoSync)
    } else if s == "out_of_range"@ {
        Some(SignalStatus::OutOfRange)
    } else if s == "no_signal"@ {
        Some(SignalStatus::NoSignal)
    } else if s == "uvc_usb_error"@ {
        Some(SignalStatus::UvcUsbError)
    } else if s == "uvc_capture_stall"@ {
        Some(SignalStatus::UvcCaptureStall)
    } else {
        None
    }
}

impl SignalStatus {
    /// The wire name.
    pub fn as_str(self) -> (r: &'static str)
        ensures
            r@ == spec_signal_name(self),
    {
        match self {
            SignalStatus::NoCable => "no_cable",
            SignalStatus::NoSync => "no_sync",
            SignalStatus::OutOfRange => "out_of_range",
            SignalStatus::NoSignal => "no_signal",
            SignalStatus::UvcUsbError => "uvc_usb_error",
            SignalStatus::UvcCaptureStall => "uvc_capture_stall",
        }
    }

    /// The status with this wire name.
    pub fn from_str(s: &str) -> (r: Option<SignalStatus>)
        ensures
            r == spec_signal_from_name(s@),
    {
        if str_eq(s, "no_cable") {
            Some(SignalStatus::NoCable)
        } else if str_eq(s, "no_sync") {
            Some(SignalStatus::NoSync)
        } else if str_eq(s, "out_of_range") {
            Some(SignalStatus::OutOfRange)
        } else if str_eq(s, "no_signal") {
            Some(SignalStatus::NoSignal)
        } else if str_eq(s, "uvc_usb_error") {
            Some(SignalStatus::UvcUsbError)
        } else if str_eq(s, "uvc_capture_stall") {
            Some(SignalStatus::UvcCaptureStall)
        } else {
            None
        }
    }
}

/// Reading back a status's wire name gives the status.
pub proof fn lemma_signal_name_round_trip(s: SignalStatus)
    ensures
        spec_signal_from_name(spec_signal_name(s)) == Some(s),
{
    reveal_strlit("no_cable");
    reveal_strlit("no_sync");
    reveal_strlit("out_of_range");
    reveal_strlit("no_signal");
    reveal_strlit("uvc_usb_error");
    reveal_strlit("uvc_capture_stall");
    let n = spec_signal_name(s);
    if s != SignalStatus::NoCable {
        assert(n != "no_cable"@) by {
            if n.len() == 8 {
                assert(n[3] != "no_cable"@[3] || n[4] != "no_cable"@[4] || n[5] != "no_cable"@[5]);
            }
        }
    }
    if s != SignalStatus::NoSync {
        assert(n != "no_sync"@) by {
            if n.len() == 7 {
                assert(n[3] != "no_sync"@[3]);
            }
        }
    }
    if s != SignalStatus::OutOfRange {
        assert(n != "out_of_range"@) by {
            if n.len() == 12 {
                assert(n[0] != "out_of_range"@[0]);
            }
        }
    }
    if s != SignalStatus::NoSignal {
        assert(n != "no_signal"@) by {
            if n.len() == 9 {
                assert(n[3] != "no_signal"@[3]);
            }
        }
    }
    if s != SignalStatus::UvcUsbError {
        assert(n != "uvc_usb_error"@) by {
            if n.len() == 13 {
                assert(n[0] != "uvc_usb_error"@[0]);
            }
        }
    }
}

} // verus!
