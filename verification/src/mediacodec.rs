//! The bookkeeping of the Android MediaCodec MJPEG decoder: a decoder that
//! may hold frames back, and gives up once three inputs in a row produced
//! nothing.
use vstd::prelude::*;
use vstd::string::StringExecFns;
use crate::text::{decimal, push_decimal};

verus! {

/// FFmpeg's "try again" error code (`-EAGAIN`).
pub const DECODE_EAGAIN: i32 = -11;

/// Inputs in a row without output before the decoder is declared stuck.
pub const MAX_PENDING_FRAMES: u32 = 3;

/// What a call of the decoder gave.
#[derive(Debug, Clone, Copy, PartialEq, Eq, Structural)]
pub enum MediaCodecDecodeResult {
    /// This many decoded frames.
    Frames(usize),
    /// An FFmpeg error code.
    Failed(i32),
}

/// The decimal form of a signed number.
pub open spec fn signed_decimal(n: i32) -> Seq<char> {
    if n < 0 {
        "-"@ + decimal((-(n as int)) as nat)
    } else {
        decimal(n as nat)
    }
}

fn push_signed_decimal(out: &mut String, n: i32)
    ensures
        final(out)@ == old(out)@ + signed_decimal(n),
{
    if n < 0 {
        out.append("-");
        let magnitude: u64 = (0i64 - (n as i64)) as u64;
        push_decimal(out, magnitude);
        proof {
            reveal_strlit("-");
            assert(final(out)@ =~= old(out)@ + signed_decimal(n));
        }
    } else {
        push_decimal(out, n as u64);
    }
}

pub open spec fn produced_nothing(result: MediaCodecDecodeResult) -> bool {
    result == MediaCodecDecodeResult::Failed(DECODE_EAGAIN) || result
        == MediaCodecDecodeResult::Frames(0)
}

/// Counts the inputs in a row that produced no frame.
pub struct MediaCodecPending {
    pending_frames: u32,
}

impl MediaCodecPending {
    pub closed spec fn spec_pending(&self) -> u32 {
        self.pending_frames
    }

    pub fn new() -> (r: MediaCodecPending)
        ensures
            r.spec_pending() == 0,
    {
        MediaCodecPending { pending_frames: 0 }
    }

    /// Inputs in a row that produced no frame.
    pub fn pending_frames(&self) -> (r: u32)
        ensures
            r == self.spec_pending(),
    {
        self.pending_frames
    }

    /// Accounts for one call of the decoder. Output resets the count and
    /// passes; "try again" or no frame counts one more input and asks for
    /// more while at most three are pending, after that reports the decoder
    /// stuck; any other failure is reported with its code.
    pub fn record(&mut self, result: MediaCodecDecodeResult) -> (r: Result<(), String>)
        requires
            produced_nothing(result) ==> old(self).spec_pending() < u32::MAX,
        ensures
            produced_nothing(result) ==> {
                &&& final(self).spec_pending() == old(self).spec_pending() + 1
                &&& r matches Err(m)
                &&& m@ == if final(self).spec_pending() <= MAX_PENDING_FRAMES {
                    "mjpeg_mediacodec decode needs more input"@
                } else {
                    "mjpeg_mediacodec decoder did not output after 3 frames"@
                }
            },
            (!produced_nothing(result) && result is Failed) ==> {
                &&& final(self).spec_pending() == old(self).spec_pending()
                &&& r matches Err(m)
                &&& m@ == "mjpeg_mediacodec decode failed: "@ + signed_decimal(result->Failed_0)
            },
            (!produced_nothing(result) && result is Frames) ==> {
                &&& final(self).spec_pending() == 0
                &&& r is Ok
            },
    {
        let nothing = match result {
            MediaCodecDecodeResult::Failed(e) => e == DECODE_EAGAIN,
            MediaCodecDecodeResult::Frames(n) => n == 0,
        };
        if nothing {
            self.pending_frames = self.pending_frames + 1;
            if self.pending_frames <= MAX_PENDING_FRAMES {
                return Err(String::from_str("mjpeg_mediacodec decode needs more input"));
            }
            return Err(String::from_str("mjpeg_mediacodec decoder did not output after 3 frames"));
        }
        match result {
            MediaCodecDecodeResult::Failed(e) => {
                let mut m = String::from_str("mjpeg_mediacodec decode failed: ");
                push_signed_decimal(&mut m, e);
                Err(m)
            },
            MediaCodecDecodeResult::Frames(_) => {
                self.pending_frames = 0;
                Ok(())
            },
        }
    }
}

} // verus!
