//! Conservative eligibility checks for handing a captured buffer straight to
//! a linear hardware input, without copying it first.
use vstd::prelude::*;
use crate::text::{seq_starts_with, str_eq, str_starts_with};

verus! {

/// What is known of a captured buffer's layout.
pub struct DmaCaptureLayout<'a> {
    pub native_hdmi: bool,
    pub driver: &'a str,
    pub bus_info: &'a str,
    pub configurable_usb: bool,
    pub single_planar: bool,
    pub fourcc: [u8; 4],
    pub width: u32,
    pub height: u32,
    pub stride: u32,
}

/// Whether the four-character code `f` spells `a b c d`.
pub open spec fn fourcc_is(f: [u8; 4], a: u8, b: u8, c: u8, d: u8) -> bool {
    f@ == seq![a, b, c, d]
}

fn fourcc_matches(f: &[u8; 4], a: u8, b: u8, c: u8, d: u8) -> (r: bool)
    ensures
        r == fourcc_is(*f, a, b, c, d),
{
    let r = f[0] == a && f[1] == b && f[2] == c && f[3] == d;
    proof {
        if r {
            assert(f@ =~= seq![a, b, c, d]);
        } else if f@ == seq![a, b, c, d] {
            assert(f@[0] == a && f@[1] == b && f@[2] == c && f@[3] == d);
        }
    }
    r
}

pub open spec fn is_nv12(f: [u8; 4]) -> bool {
    fourcc_is(f, 78, 86, 49, 50)
}

pub open spec fn is_bgr3(f: [u8; 4]) -> bool {
    fourcc_is(f, 66, 71, 82, 51)
}

pub open spec fn is_rgb3(f: [u8; 4]) -> bool {
    fourcc_is(f, 82, 71, 66, 51)
}

pub open spec fn is_yuyv(f: [u8; 4]) -> bool {
    fourcc_is(f, 89, 85, 89, 86)
}

pub open spec fn is_mjpg(f: [u8; 4]) -> bool {
    fourcc_is(f, 77, 74, 80, 71)
}

/// Even, non-zero dimensions of at most 8192.
pub open spec fn geometry_ok(width: u32, height: u32) -> bool {
    &&& 0 < width <= 8192
    &&& 0 < height <= 8192
    &&& width % 2 == 0
    &&& height % 2 == 0
}

impl<'a> DmaCaptureLayout<'a> {
    /// A configurable single-planar UVC capture on a USB bus.
    pub open spec fn usb_eligible(&self) -> bool {
        &&& self.configurable_usb
        &&& self.single_planar
        &&& self.driver@ == "uvcvideo"@
        &&& seq_starts_with(self.bus_info@, "usb-"@)
    }

    /// The bytes in one row of pixels, where the format is accepted.
    pub open spec fn row_bytes(&self) -> Option<int> {
        if self.native_hdmi {
            if is_nv12(self.fourcc) {
                Some(self.width as int)
            } else if is_bgr3(self.fourcc) {
                Some(3 * self.width)
            } else {
                None
            }
        } else if self.usb_eligible() && self.stride % 16 == 0 {
            if is_yuyv(self.fourcc) {
                Some(2 * self.width)
            } else if is_nv12(self.fourcc) {
                Some(self.width as int)
            } else if is_rgb3(self.fourcc) {
                Some(3 * self.width)
            } else {
                None
            }
        } else {
            None
        }
    }

    /// Minimum readable bytes of the buffer, where it may be used in place.
    pub open spec fn spec_minimum_bytes(&self) -> Option<int> {
        if !geometry_ok(self.width, self.height) {
            None
        } else if !self.native_hdmi && self.usb_eligible() && is_mjpg(self.fourcc) {
            Some(4)
        } else {
            match self.row_bytes() {
                None => None,
                Some(row) => {
                    let size = self.stride * self.height;
                    if self.stride < row || size > usize::MAX {
                        None
                    } else if is_nv12(self.fourcc) {
                        if 3 * size > usize::MAX {
                            None
                        } else {
                            Some(3 * size / 2)
                        }
                    } else {
                        Some(size)
                    }
                },
            }
        }
    }

    /// Minimum readable bytes, not the driver's page-aligned allocation size.
    /// A compressed frame has no byte stride: only a small payload is owed.
    pub fn minimum_bytes(&self) -> (r: Option<usize>)
        ensures
            match r {
                None => self.spec_minimum_bytes() is None,
                Some(n) => self.spec_minimum_bytes() == Some(n as int),
            },
    {
        if self.width == 0 || self.height == 0 || self.width > 8192 || self.height > 8192
            || self.width % 2 != 0 || self.height % 2 != 0 {
            return None;
        }
        let nv12 = fourcc_matches(&self.fourcc, 78, 86, 49, 50);
        let bytes_per_row: u32;
        if self.native_hdmi {
            if nv12 {
                bytes_per_row = self.width;
            } else if fourcc_matches(&self.fourcc, 66, 71, 82, 51) {
                bytes_per_row = self.width * 3;
            } else {
                return None;
            }
        } else if self.configurable_usb && self.single_planar && str_eq(self.driver, "uvcvideo")
            && str_starts_with(self.bus_info, "usb-") {
            if fourcc_matches(&self.fourcc, 77, 74, 80, 71) {
                return Some(4);
            }
            if self.stride % 16 != 0 {
                return None;
            }
            if fourcc_matches(&self.fourcc, 89, 85, 89, 86) {
                bytes_per_row = self.width * 2;
            } else if nv12 {
                bytes_per_row = self.width;
            } else if fourcc_matches(&self.fourcc, 82, 71, 66, 51) {
                bytes_per_row = self.width * 3;
            } else {
                return None;
            }
        } else {
            return None;
        }
        if self.stride < bytes_per_row {
            return None;
        }
        let size = match (self.stride as usize).checked_mul(self.height as usize) {
            Some(s) => s,
            None => return None,
        };
        if nv12 {
            match size.checked_mul(3) {
                Some(t) => Some(t / 2),
                None => None,
            }
        } else {
            Some(size)
        }
    }
}

/// Whether a dequeued payload may be handed on. A compressed packet is
/// bounded by what was used, with 64 readable bytes of headroom inside the
/// buffer; a raw frame must fill exactly the expected size.
pub open spec fn spec_valid_payload(
    compressed: bool,
    used: usize,
    capacity: usize,
    expected: Option<usize>,
) -> bool {
    if compressed {
        used >= 4 && used + 64 <= capacity
    } else {
        used > 0 && expected == Some(used) && used <= capacity
    }
}

/// An MJPEG DMA packet has a bounded payload, not stride * height bytes.
/// The decoder receives only `used`, never the allocation size.
pub fn valid_payload(compressed: bool, used: usize, capacity: usize, expected: Option<usize>) -> (r:
    bool)
    ensures
        r == spec_valid_payload(compressed, used, capacity, expected),
{
    if compressed {
        used >= 4 && match used.checked_add(64) {
            Some(end) => end <= capacity,
            None => false,
        }
    } else {
        used > 0 && match expected {
            Some(e) => e == used,
            None => false,
        } && used <= capacity
    }
}

} // verus!
