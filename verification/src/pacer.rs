//! Encoder pacing: counts the frames offered to the encoder. It lets every
//! frame through and never throttles.
use vstd::prelude::*;

verus! {

/// Encoder pacing statistics
#[derive(Debug, Clone, Copy, PartialEq, Eq, Structural)]
pub struct PacerStats {
    /// Total frames processed
    pub frames_processed: u64,
    /// Frames skipped (always 0)
    pub frames_skipped: u64,
    /// Keyframes processed
    pub keyframes_processed: u64,
}

impl Default for PacerStats {
    fn default() -> (r: PacerStats)
        ensures
            r == (PacerStats { frames_processed: 0, frames_skipped: 0, keyframes_processed: 0 }),
    {
        PacerStats { frames_processed: 0, frames_skipped: 0, keyframes_processed: 0 }
    }
}

/// Encoder pacer: a pass-through with counters that wrap like the
/// process-wide atomic counters they stand for.
pub struct EncoderPacer {
    frames_processed: u64,
    keyframes_processed: u64,
}

impl EncoderPacer {
    pub closed spec fn spec_frames(&self) -> u64 {
        self.frames_processed
    }

    pub closed spec fn spec_keyframes(&self) -> u64 {
        self.keyframes_processed
    }

    /// A pacer with no frames counted; the in-flight limit is not used.
    pub fn new(_max_in_flight: usize) -> (r: EncoderPacer)
        ensures
            r.spec_frames() == 0,
            r.spec_keyframes() == 0,
    {
        EncoderPacer { frames_processed: 0, keyframes_processed: 0 }
    }

    /// Counts a frame (and a keyframe) and lets it through.
    pub fn should_encode(&mut self, is_keyframe: bool) -> (r: bool)
        ensures
            r,
            final(self).spec_frames() == (old(self).spec_frames() + 1) % 0x1_0000_0000_0000_0000,
            final(self).spec_keyframes() == if is_keyframe {
                ((old(self).spec_keyframes() + 1) % 0x1_0000_0000_0000_0000) as u64
            } else {
                old(self).spec_keyframes()
            },
    {
        self.frames_processed = self.frames_processed.wrapping_add(1);
        if is_keyframe {
            self.keyframes_processed = self.keyframes_processed.wrapping_add(1);
        }
        true
    }

    /// Reports receiver lag; nothing is done with it.
    pub fn report_lag(&self, _frames_lagged: u64) {
    }

    /// Never throttles.
    pub fn is_throttling(&self) -> (r: bool)
        ensures
            !r,
    {
        false
    }

    /// The counters, with no frame skipped.
    pub fn stats(&self) -> (r: PacerStats)
        ensures
            r.frames_processed == self.spec_frames(),
            r.frames_skipped == 0,
            r.keyframes_processed == self.spec_keyframes(),
    {
        PacerStats {
            frames_processed: self.frames_processed,
            frames_skipped: 0,
            keyframes_processed: self.keyframes_processed,
        }
    }

    /// No frame is ever in flight.
    pub fn in_flight(&self) -> (r: usize)
        ensures
            r == 0,
    {
        0
    }
}

} // verus!
