use vstd::prelude::*;

verus! {

/// Frames smaller than this are treated as incomplete or noise.
pub const MIN_CAPTURE_FRAME_SIZE: usize = 128;

/// After startup, the JPEG header is validated every this many frames.
pub const JPEG_VALIDATE_INTERVAL: u64 = 30;

/// Every MJPEG frame is validated during the first this many frames.
pub const STARTUP_JPEG_VALIDATE_FRAMES: u64 = 3;

/// Whether the frame with the given validation counter gets its JPEG header checked.
pub open spec fn spec_should_validate_jpeg_frame(validate_counter: u64) -> bool {
    validate_counter <= STARTUP_JPEG_VALIDATE_FRAMES
        || validate_counter % JPEG_VALIDATE_INTERVAL == 0
}

pub fn should_validate_jpeg_frame(validate_counter: u64) -> (r: bool)
    ensures
        r == spec_should_validate_jpeg_frame(validate_counter),
{
    validate_counter <= STARTUP_JPEG_VALIDATE_FRAMES
        || validate_counter % JPEG_VALIDATE_INTERVAL == 0
}

} // verus!
