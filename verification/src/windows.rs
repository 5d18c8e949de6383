//! The DirectShow (Windows) capture back end's own rules: how a source
//! change is recognised, which bridge context it has, and how a lost device
//! is found again.
use vstd::prelude::*;
use crate::bridge::CsiBridgeKind;
use vstd::string::StringExecFns;
use crate::format::PixelFormat;
use crate::text::{
    chars_contain, chars_of, eq_ignore_ascii_case, lower_ascii, lower_ascii_chars, seq_contains,
    seq_starts_with, spec_trim, str_eq, str_eq_ignore_ascii_case, str_starts_with, string_from_chars,
    string_of, trim_chars, decimal, push_decimal,
};

verus! {

/// The message of the inner error that DirectShow capture raises when the
/// source changes its format.
pub const SOURCE_CHANGED_MARKER: &'static str = "dshow_source_changed";

/// Whether a capture error is a source change: its inner error's message is
/// exactly the marker. `inner_message` is that message, where the error
/// carries an inner error.
pub fn is_source_changed_error(inner_message: Option<&str>) -> (r: bool)
    ensures
        r == match inner_message {
            Some(m) => m@ == SOURCE_CHANGED_MARKER@,
            None => false,
        },
{
    match inner_message {
        Some(m) => str_eq(m, SOURCE_CHANGED_MARKER),
        None => false,
    }
}

/// What a dequeued frame used.
#[derive(Debug, Clone, Copy, PartialEq, Eq, Structural)]
pub struct CaptureMeta {
    pub bytes_used: usize,
    pub sequence: u64,
}

/// The bridge behind a capture node; DirectShow devices have none.
#[derive(Debug, Clone)]
pub struct BridgeContext {
    pub subdev_path: Option<String>,
    pub kind: Option<CsiBridgeKind>,
}

impl Default for BridgeContext {
    fn default() -> (r: BridgeContext)
        ensures
            r.subdev_path is None,
            r.kind is None,
    {
        BridgeContext { subdev_path: None, kind: None }
    }
}

impl BridgeContext {
    pub fn from_parts(subdev_path: Option<String>, kind: Option<CsiBridgeKind>) -> (r:
        BridgeContext)
        ensures
            r.subdev_path == subdev_path,
            r.kind == kind,
    {
        BridgeContext { subdev_path, kind }
    }

    /// DirectShow exposes no bridge subdevice.
    pub fn has_subdev(&self) -> (r: bool)
        ensures
            !r,
    {
        false
    }
}

/// DirectShow records no bridge kind.
pub fn parse_bridge_kind(value: Option<&str>) -> (r: Option<CsiBridgeKind>)
    ensures
        r is None,
{
    None
}

/// What is remembered of a device to find it again after it was lost.
#[derive(Debug, Clone)]
pub struct VideoDeviceRecoveryHint {
    pub path: String,
    pub name: String,
    pub driver: String,
    pub bus_info: String,
    pub card: String,
    pub is_capture_card: bool,
}

impl VideoDeviceRecoveryHint {
    /// The hint for a device with these identifiers.
    pub fn from_identity(
        path: &str,
        name: &str,
        driver: &str,
        bus_info: &str,
        card: &str,
        is_capture_card: bool,
    ) -> (r: VideoDeviceRecoveryHint)
        ensures
            r.path@ == path@,
            r.name@ == name@,
            r.driver@ == driver@,
            r.bus_info@ == bus_info@,
            r.card@ == card@,
            r.is_capture_card == is_capture_card,
    {
        VideoDeviceRecoveryHint {
            path: string_of(path),
            name: string_of(name),
            driver: string_of(driver),
            bus_info: string_of(bus_info),
            card: string_of(card),
            is_capture_card,
        }
    }
}

/// A device, by path and bus, as enumeration lists it.
pub struct DeviceIdentity {
    pub path: String,
    pub bus_info: String,
}

/// Whether `d` is the device the hint remembers: same path or same bus.
pub open spec fn matches_hint(d: DeviceIdentity, hint: VideoDeviceRecoveryHint) -> bool {
    d.path@ == hint.path@ || d.bus_info@ == hint.bus_info@
}

/// The index of the first device that matches the hint.
pub fn select_recovery_device(devices: &[DeviceIdentity], hint: &VideoDeviceRecoveryHint) -> (r:
    Option<usize>)
    ensures
        match r {
            Some(i) => i < devices@.len() && matches_hint(devices@[i as int], *hint) && forall|
                j: int,
            | 0 <= j < i ==> !matches_hint(#[trigger] devices@[j], *hint),
            None => forall|j: int|
                0 <= j < devices@.len() ==> !matches_hint(#[trigger] devices@[j], *hint),
        },
{
    let mut i: usize = 0;
    while i < devices.len()
        invariant
            i <= devices@.len(),
            forall|j: int| 0 <= j < i ==> !matches_hint(#[trigger] devices@[j], *hint),
        decreases devices@.len() - i,
    {
        let d = &devices[i];
        if str_eq(d.path.as_str(), hint.path.as_str()) || str_eq(
            d.bus_info.as_str(),
            hint.bus_info.as_str(),
        ) {
            return Some(i);
        }
        i = i + 1;
    }
    None
}


/// The path prefix of DirectShow devices.
pub const DIRECTSHOW_DEVICE_PREFIX: &'static str = "dshow:";

/// The DirectShow name in a device path: what follows the prefix.
pub fn directshow_display_name_from_path(path: &str) -> (r: Option<String>)
    ensures
        match r {
            Some(n) => seq_starts_with(path@, DIRECTSHOW_DEVICE_PREFIX@) && n@ == path@.skip(
                DIRECTSHOW_DEVICE_PREFIX@.len() as int,
            ),
            None => !seq_starts_with(path@, DIRECTSHOW_DEVICE_PREFIX@),
        },
{
    if !str_starts_with(path, DIRECTSHOW_DEVICE_PREFIX) {
        return None;
    }
    let cs = chars_of(path);
    let prefix = chars_of(DIRECTSHOW_DEVICE_PREFIX);
    let mut rest: Vec<char> = Vec::new();
    let mut i: usize = prefix.len();
    while i < cs.len()
        invariant
            prefix@ == DIRECTSHOW_DEVICE_PREFIX@,
            cs@ == path@,
            prefix@.len() <= i <= cs@.len(),
            rest@ == cs@.subrange(prefix@.len() as int, i as int),
        decreases cs.len() - i,
    {
        rest.push(cs[i]);
        i = i + 1;
    }
    proof {
        assert(rest@ =~= path@.skip(DIRECTSHOW_DEVICE_PREFIX@.len() as int));
    }
    Some(string_from_chars(&rest))
}

/// Whether a configured path asks for the best device: `auto`, in any case.
pub fn is_auto_device_path(path: &str) -> (r: bool)
    ensures
        r == eq_ignore_ascii_case(path@, "auto"@),
{
    str_eq_ignore_ascii_case(path, "auto")
}

/// The name of the device at `index`: its own name, or a numbered one when
/// that is blank.
pub fn directshow_device_name(index: usize, name: &str) -> (r: String)
    requires
        index < u64::MAX,
    ensures
        r@ == if spec_trim(name@).len() == 0 {
            "Windows Capture Device "@ + decimal((index + 1) as nat)
        } else {
            name@
        },
{
    let trimmed = trim_chars(name);
    if trimmed.len() == 0 {
        let mut s = String::from_str("Windows Capture Device ");
        push_decimal(&mut s, (index as u64) + 1);
        s
    } else {
        string_of(name)
    }
}

pub open spec fn spec_keyword_points(h: Seq<char>) -> int {
    (if seq_contains(h, "capture"@) { 10int } else { 0int }) + (if seq_contains(h, "hdmi"@) {
        10int
    } else {
        0int
    }) + (if seq_contains(h, "uvc"@) { 10int } else { 0int }) + (if seq_contains(h, "video"@) {
        10int
    } else {
        0int
    }) + (if seq_contains(h, "usb"@) { 10int } else { 0int })
}

/// The priority of a DirectShow device: 50, 25 more when it offers MJPEG,
/// and 10 more for each of `capture`, `hdmi`, `uvc`, `video`, `usb` in its
/// lower-cased name and identifier (joined by a space).
pub fn score_capture_device(name: &str, device_id: &str, formats: &[PixelFormat]) -> (r: u32)
    ensures
        r == 50 + (if formats@.contains(PixelFormat::Mjpeg) { 25int } else { 0int })
            + spec_keyword_points(lower_ascii(name@ + " "@ + device_id@)),
{
    let mut hay = lower_ascii_chars(name);
    let space = lower_ascii_chars(" ");
    let id = lower_ascii_chars(device_id);
    let ghost h0 = hay@;
    let mut k: usize = 0;
    while k < space.len()
        invariant
            k <= space@.len(),
            hay@ == h0 + space@.take(k as int),
        decreases space.len() - k,
    {
        hay.push(space[k]);
        k = k + 1;
    }
    let ghost h1 = hay@;
    k = 0;
    while k < id.len()
        invariant
            k <= id@.len(),
            hay@ == h1 + id@.take(k as int),
        decreases id.len() - k,
    {
        hay.push(id[k]);
        k = k + 1;
    }
    proof {
        reveal_strlit(" ");
        assert(space@.take(space@.len() as int) =~= space@);
        assert(id@.take(id@.len() as int) =~= id@);
        assert(hay@ =~= lower_ascii(name@ + " "@ + device_id@));
    }
    let mut score: u32 = 50;
    let mut j: usize = 0;
    let mut has_mjpeg = false;
    while j < formats.len()
        invariant
            j <= formats@.len(),
            has_mjpeg == formats@.take(j as int).contains(PixelFormat::Mjpeg),
        decreases formats.len() - j,
    {
        let ghost prev = formats@.take(j as int);
        let ghost next = formats@.take(j as int + 1);
        proof {
            assert(next =~= prev.push(formats@[j as int]));
            if prev.contains(PixelFormat::Mjpeg) {
                let i = choose|i: int| 0 <= i < prev.len() && prev[i] == PixelFormat::Mjpeg;
                assert(next[i] == PixelFormat::Mjpeg);
            }
            if next.contains(PixelFormat::Mjpeg) && formats@[j as int] != PixelFormat::Mjpeg {
                let i = choose|i: int| 0 <= i < next.len() && next[i] == PixelFormat::Mjpeg;
                assert(i < j);
                assert(prev[i] == PixelFormat::Mjpeg);
            }
            if formats@[j as int] == PixelFormat::Mjpeg {
                assert(next[j as int] == PixelFormat::Mjpeg);
            }
        }
        if formats[j] == PixelFormat::Mjpeg {
            has_mjpeg = true;
        }
        j = j + 1;
    }
    proof {
        assert(formats@.take(formats@.len() as int) =~= formats@);
    }
    if has_mjpeg {
        score = score + 25;
    }
    if chars_contain(&hay, &chars_of("capture")) {
        score = score + 10;
    }
    if chars_contain(&hay, &chars_of("hdmi")) {
        score = score + 10;
    }
    if chars_contain(&hay, &chars_of("uvc")) {
        score = score + 10;
    }
    if chars_contain(&hay, &chars_of("video")) {
        score = score + 10;
    }
    if chars_contain(&hay, &chars_of("usb")) {
        score = score + 10;
    }
    score
}

} // verus!
