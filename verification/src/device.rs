//! Capture devices: how a driver is driven, and which of its reported
//! properties the capture path trusts.
use vstd::prelude::*;
use crate::format::{PixelFormat, Resolution};
use crate::bridge::CsiBridgeKind;
use crate::ordering::{is_permutation_of_positions, stable_order_desc, stably_descending};
use crate::format::{parse_pixel_format, spec_format_from_upper, spec_priority};
use crate::text::{
    chars_of, eq_ignore_ascii_case, lower_ascii, lower_ascii_chars, lower_ascii_contains,
    seq_contains, seq_starts_with, spec_parse_u32, str_contains, str_eq, str_eq_ignore_ascii_case,
    string_from_chars, to_lowercase, unicode_lowercase, unicode_uppercase, upper_ascii,
    upper_ascii_chars,
};
use vstd::string::StringExecFns;

verus! {

/// Whether the capture mode is chosen by the client or follows the HDMI source.
#[derive(Debug, Clone, Copy, PartialEq, Eq, Structural)]
pub enum VideoControlMode {
    Configurable,
    SourceFollowing,
}

/// State of the video input of a source-following device.
#[derive(Debug, Clone, Copy, PartialEq, Eq, Structural)]
pub enum VideoInputState {
    Locked,
    NoSignal,
    Unavailable,
}

/// The capture configuration settled on for a device.
#[derive(Debug, Clone, Copy, PartialEq, Eq, Structural)]
pub struct ResolvedVideoInputConfig {
    pub format: PixelFormat,
    pub resolution: Resolution,
    pub fps: u32,
}

/// Device capabilities.
#[derive(Debug, Clone, Copy, PartialEq, Eq, Structural)]
pub struct DeviceCapabilities {
    pub video_capture: bool,
    pub video_capture_mplane: bool,
    pub video_output: bool,
    pub streaming: bool,
    pub read_write: bool,
}

impl Default for DeviceCapabilities {
    fn default() -> (r: DeviceCapabilities)
        ensures
            !r.video_capture && !r.video_capture_mplane && !r.video_output && !r.streaming
                && !r.read_write,
    {
        DeviceCapabilities {
            video_capture: false,
            video_capture_mplane: false,
            video_output: false,
            streaming: false,
            read_write: false,
        }
    }
}

/// The driver or card names the Rockchip native HDMI receiver.
pub open spec fn spec_is_rk_hdmirx(driver: Seq<char>, card: Seq<char>) -> bool {
    eq_ignore_ascii_case(driver, "rk_hdmirx"@) || eq_ignore_ascii_case(driver, "snps_hdmirx"@)
        || eq_ignore_ascii_case(card, "rk_hdmirx"@) || eq_ignore_ascii_case(card, "snps_hdmirx"@)
}

/// The driver is the Rockchip camera interface.
pub open spec fn spec_is_rkcif(driver: Seq<char>) -> bool {
    seq_starts_with(lower_ascii(driver), "rkcif"@)
}

/// Whether driver or card is the Rockchip native HDMI receiver.
pub fn is_rk_hdmirx_driver(driver: &str, card: &str) -> (r: bool)
    ensures
        r == spec_is_rk_hdmirx(driver@, card@),
{
    str_eq_ignore_ascii_case(driver, "rk_hdmirx") || str_eq_ignore_ascii_case(driver, "snps_hdmirx")
        || str_eq_ignore_ascii_case(card, "rk_hdmirx") || str_eq_ignore_ascii_case(
        card,
        "snps_hdmirx",
    )
}

/// Whether the driver is the Rockchip camera interface (any `rkcif*` name).
pub fn is_rkcif_driver(driver: &str) -> (r: bool)
    ensures
        r == spec_is_rkcif(driver@),
{
    let lower = lower_ascii_chars(driver);
    let pat = crate::text::chars_of("rkcif");
    if pat.len() > lower.len() {
        return false;
    }
    crate::text::matches_at(&lower, &pat, 0)
}

/// Source-following for the CSI/HDMI bridges, configurable for everything else.
pub open spec fn spec_control_mode(driver: Seq<char>, card: Seq<char>) -> VideoControlMode {
    if spec_is_rkcif(driver) || spec_is_rk_hdmirx(driver, card) {
        VideoControlMode::SourceFollowing
    } else {
        VideoControlMode::Configurable
    }
}

/// How a device with this driver and card is driven.
pub fn control_mode(driver: &str, card: &str) -> (r: VideoControlMode)
    ensures
        r == spec_control_mode(driver@, card@),
{
    if is_rkcif_driver(driver) || is_rk_hdmirx_driver(driver, card) {
        VideoControlMode::SourceFollowing
    } else {
        VideoControlMode::Configurable
    }
}

// ---------------------------------------------------------------------------
// sysfs pre-filter
// ---------------------------------------------------------------------------

/// Index of the first newline at or after `i`, or the length.
pub open spec fn next_newline(s: Seq<char>, i: int) -> int
    decreases s.len() - i,
{
    if i < 0 || i >= s.len() {
        s.len() as int
    } else if s[i] == '\n' {
        i
    } else {
        next_newline(s, i + 1)
    }
}

/// The line running from `i` to `e`, without the carriage return of a
/// CR-LF ending.
pub open spec fn line_text(s: Seq<char>, i: int, e: int) -> Seq<char> {
    if e < s.len() && e > i && s[e - 1] == '\r' {
        s.subrange(i, e - 1)
    } else {
        s.subrange(i, e)
    }
}

/// The rest of the first line from `i` on that starts with `prefix`.
pub open spec fn value_after_prefix(s: Seq<char>, prefix: Seq<char>, i: int) -> Option<Seq<char>>
    decreases s.len() - i,
{
    if i < 0 || i >= s.len() {
        None
    } else {
        let e = next_newline(s, i);
        proof {
            lemma_next_newline(s, i);
        }
        let line = line_text(s, i, e);
        if seq_starts_with(line, prefix) {
            Some(line.skip(prefix.len() as int))
        } else if e >= s.len() {
            None
        } else {
            value_after_prefix(s, prefix, e + 1)
        }
    }
}

/// The value of `KEY=value` in a uevent file (key matched in ASCII upper
/// case), lower-cased.
pub open spec fn spec_uevent_value(content: Seq<char>, key: Seq<char>) -> Option<Seq<char>> {
    match value_after_prefix(content, upper_ascii(key) + "="@, 0) {
        Some(v) => Some(unicode_lowercase(v)),
        None => None,
    }
}

pub proof fn lemma_next_newline(s: Seq<char>, i: int)
    requires
        0 <= i <= s.len(),
    ensures
        i <= next_newline(s, i) <= s.len(),
        next_newline(s, i) < s.len() ==> s[next_newline(s, i)] == '\n',
    decreases s.len() - i,
{
    if i < s.len() && s[i] != '\n' {
        lemma_next_newline(s, i + 1);
    }
}

/// The value of a `KEY=value` line of a uevent file, lower-cased.
pub fn extract_uevent_value(content: &str, key: &str) -> (r: Option<String>)
    ensures
        match spec_uevent_value(content@, key@) {
            Some(v) => r matches Some(x) && x@ == v,
            None => r is None,
        },
{
    let mut prefix = upper_ascii_chars(key);
    prefix.push('=');
    proof {
        reveal_strlit("=");
        assert(prefix@ =~= upper_ascii(key@) + "="@);
    }
    let cs = chars_of(content);
    let n = cs.len();
    let mut i: usize = 0;
    while i < n
        invariant
            cs@ == content@,
            n == content@.len(),
            i <= n,
            prefix@ == upper_ascii(key@) + "="@,
            value_after_prefix(content@, prefix@, i as int) == value_after_prefix(
                content@,
                prefix@,
                0,
            ),
        decreases n - i,
    {
        let mut e: usize = i;
        proof {
            lemma_next_newline(content@, i as int);
        }
        while e < n && cs[e] != '\n'
            invariant
                cs@ == content@,
                n == content@.len(),
                i <= e <= n,
                next_newline(content@, e as int) == next_newline(content@, i as int),
            decreases n - e,
        {
            e = e + 1;
        }
        let line_end = if e < n && e > i && cs[e - 1] == '\r' {
            e - 1
        } else {
            e
        };
        let ghost line = line_text(content@, i as int, e as int);
        assert(line == content@.subrange(i as int, line_end as int));
        let mut starts = line_end - i >= prefix.len();
        let mut k: usize = 0;
        while starts && k < prefix.len()
            invariant
                cs@ == content@,
                n == content@.len(),
                i <= line_end <= n,
                line == content@.subrange(i as int, line_end as int),
                starts ==> line_end - i >= prefix@.len(),
                k <= prefix@.len(),
                starts ==> forall|j: int| 0 <= j < k ==> line[j] == prefix@[j],
                !starts ==> !seq_starts_with(line, prefix@),
            decreases prefix.len() - k,
        {
            if cs[i + k] != prefix[k] {
                starts = false;
                assert(line[k as int] != prefix@[k as int]);
                assert(!seq_starts_with(line, prefix@)) by {
                    if seq_starts_with(line, prefix@) {
                        assert(line.subrange(0, prefix@.len() as int)[k as int] == line[k as int]);
                    }
                }
                k = prefix.len();
            } else {
                k = k + 1;
            }
        }
        if starts {
            assert(line.subrange(0, prefix@.len() as int) =~= prefix@);
            let mut value: Vec<char> = Vec::new();
            let mut j: usize = i + prefix.len();
            while j < line_end
                invariant
                    cs@ == content@,
                    n == content@.len(),
                    i + prefix@.len() <= j <= line_end <= n,
                    value@ == content@.subrange(i + prefix@.len(), j as int),
                decreases line_end - j,
            {
                value.push(cs[j]);
                j = j + 1;
                assert(value@ =~= content@.subrange(i + prefix@.len(), j as int));
            }
            assert(value@ =~= line.skip(prefix@.len() as int));
            let v = string_from_chars(&value);
            return Some(to_lowercase(v.as_str()));
        }
        if e >= n {
            return None;
        }
        i = e + 1;
    }
    None
}

/// Some pattern occurs in `s`.
pub open spec fn contains_any(s: Seq<char>, pats: Seq<Seq<char>>) -> bool {
    exists|k: int| 0 <= k < pats.len() && seq_contains(s, #[trigger] pats[k])
}

fn str_contains_any(s: &str, pats: &[&str]) -> (r: bool)
    ensures
        r == contains_any(s@, pats@.map_values(|p: &str| p@)),
{
    let ghost ps = pats@.map_values(|p: &str| p@);
    let mut k: usize = 0;
    while k < pats.len()
        invariant
            k <= pats@.len(),
            ps == pats@.map_values(|p: &str| p@),
            forall|j: int| 0 <= j < k ==> !seq_contains(s@, #[trigger] ps[j]),
        decreases pats.len() - k,
    {
        if str_contains(s, pats[k]) {
            assert(ps[k as int] == pats@[k as int]@);
            return true;
        }
        k = k + 1;
    }
    false
}

/// File-name markers of codec nodes.
pub open spec fn filename_skip_hints() -> Seq<Seq<char>> {
    seq!["-enc"@, "-dec"@, "-codec"@, "-m2m"@, "-vepu"@, "-vdpu"@]
}

/// sysfs names that suggest a capture device.
pub open spec fn capture_name_hints() -> Seq<Seq<char>> {
    seq![
        "capture"@,
        "hdmi"@,
        "usb"@,
        "uvc"@,
        "ms2109"@,
        "ms2130"@,
        "macrosilicon"@,
        "tc358743"@,
        "grabber"@,
        "rkcif"@,
        "rk_hdmirx"@,
    ]
}

/// Drivers that are capture devices.
pub open spec fn capture_driver_hints() -> Seq<Seq<char>> {
    seq!["uvcvideo"@, "tc358743"@, "rkcif"@, "rk_hdmirx"@]
}

/// Drivers that never are.
pub open spec fn skip_driver_hints() -> Seq<Seq<char>> {
    seq!["rkvenc"@, "rkvdec"@, "vepu"@, "vdpu"@, "hantro"@, "mpp_"@, "rockchip-vpu"@]
}

/// sysfs names of nodes that are not capture queues.
pub open spec fn skip_name_hints() -> Seq<Seq<char>> {
    seq![
        "codec"@,
        "decoder"@,
        "encoder"@,
        "isp"@,
        "mem2mem"@,
        "m2m"@,
        "vbi"@,
        "radio"@,
        "metadata"@,
        "output"@,
        "rkisp-statistics"@,
        "rkisp-input-params"@,
        "rkisp_rawrd"@,
        "rkisp_rawwr"@,
    ]
}

/// Whether a `/dev/video*` node is worth probing, from its file name,
/// whether it has a sysfs entry, and that entry's `name` and
/// `device/uevent` contents: codec nodes by file name, nodes without a
/// sysfs entry, codec drivers, and nodes whose name marks them as
/// non-capture (unless something marks them as capture) are skipped.
pub open spec fn spec_sysfs_maybe_capture(
    file_name: Option<Seq<char>>,
    sysfs_exists: bool,
    sysfs_name: Seq<char>,
    uevent: Seq<char>,
) -> bool {
    match file_name {
        None => true,
        Some(name) => {
            let name_lower = lower_ascii(name);
            let n = unicode_lowercase(sysfs_name);
            let driver = spec_uevent_value(unicode_lowercase(uevent), "driver"@);
            let maybe_capture = contains_any(n, capture_name_hints()) || (driver matches Some(
                d,
            ) && contains_any(d, capture_driver_hints()));
            if contains_any(name_lower, filename_skip_hints()) {
                false
            } else if !sysfs_exists {
                false
            } else if driver matches Some(d) && contains_any(d, skip_driver_hints()) {
                false
            } else if contains_any(n, skip_name_hints()) && !maybe_capture {
                false
            } else {
                true
            }
        },
    }
}

/// Decides whether a video node may be a capture device, from what sysfs
/// says of it (see `spec_sysfs_maybe_capture`).
pub fn sysfs_maybe_capture(
    file_name: Option<&str>,
    sysfs_exists: bool,
    sysfs_name: &str,
    uevent: &str,
) -> (r: bool)
    ensures
        r == spec_sysfs_maybe_capture(
            match file_name {
                Some(f) => Some(f@),
                None => None,
            },
            sysfs_exists,
            sysfs_name@,
            uevent@,
        ),
{
    let name = match file_name {
        Some(name) => name,
        None => return true,
    };
    let lower_name = string_from_chars(&lower_ascii_chars(name));
    let filename_skip: [&str; 6] = ["-enc", "-dec", "-codec", "-m2m", "-vepu", "-vdpu"];
    proof {
        reveal_strlit("-enc");
        reveal_strlit("-dec");
        reveal_strlit("-codec");
        reveal_strlit("-m2m");
        reveal_strlit("-vepu");
        reveal_strlit("-vdpu");
        assert(filename_skip@.map_values(|p: &str| p@) =~= filename_skip_hints());
    }
    if str_contains_any(lower_name.as_str(), &filename_skip) {
        return false;
    }
    if !sysfs_exists {
        return false;
    }
    let n = to_lowercase(sysfs_name);
    let u = to_lowercase(uevent);
    let driver = extract_uevent_value(u.as_str(), "driver");
    let capture_hints: [&str; 11] = [
        "capture",
        "hdmi",
        "usb",
        "uvc",
        "ms2109",
        "ms2130",
        "macrosilicon",
        "tc358743",
        "grabber",
        "rkcif",
        "rk_hdmirx",
    ];
    let driver_hints: [&str; 4] = ["uvcvideo", "tc358743", "rkcif", "rk_hdmirx"];
    let driver_skip: [&str; 7] = [
        "rkvenc",
        "rkvdec",
        "vepu",
        "vdpu",
        "hantro",
        "mpp_",
        "rockchip-vpu",
    ];
    let skip_hints: [&str; 14] = [
        "codec",
        "decoder",
        "encoder",
        "isp",
        "mem2mem",
        "m2m",
        "vbi",
        "radio",
        "metadata",
        "output",
        "rkisp-statistics",
        "rkisp-input-params",
        "rkisp_rawrd",
        "rkisp_rawwr",
    ];
    assert(capture_hints@.map_values(|p: &str| p@) =~= capture_name_hints());
    assert(driver_hints@.map_values(|p: &str| p@) =~= capture_driver_hints());
    assert(driver_skip@.map_values(|p: &str| p@) =~= skip_driver_hints());
    assert(skip_hints@.map_values(|p: &str| p@) =~= skip_name_hints());
    let mut maybe_capture = str_contains_any(n.as_str(), &capture_hints);
    match &driver {
        Some(d) => {
            if str_contains_any(d.as_str(), &driver_hints) {
                maybe_capture = true;
            }
            if str_contains_any(d.as_str(), &driver_skip) {
                return false;
            }
        },
        None => {},
    }
    if str_contains_any(n.as_str(), &skip_hints) && !maybe_capture {
        return false;
    }
    true
}

// ---------------------------------------------------------------------------
// Capture-card detection and device priority
// ---------------------------------------------------------------------------

/// A pixel format a device offers and the resolutions it lists for it.
#[derive(Debug, Clone)]
pub struct FormatSummary {
    pub format: PixelFormat,
    pub resolutions: Vec<Resolution>,
}

/// Card or driver names of HDMI capture hardware.
pub open spec fn capture_card_patterns() -> Seq<Seq<char>> {
    seq![
        "hdmi"@,
        "capture"@,
        "grabber"@,
        "usb3"@,
        "ms2109"@,
        "ms2130"@,
        "macrosilicon"@,
        "tc358743"@,
        "uvc"@,
        "rkcif"@,
        "rk_hdmirx"@,
    ]
}

/// Some format is MJPEG.
pub open spec fn offers_mjpeg(formats: Seq<FormatSummary>) -> bool {
    exists|k: int| 0 <= k < formats.len() && (#[trigger] formats[k]).format == PixelFormat::Mjpeg
}

/// Some format lists a resolution of at least 1920x1080.
pub open spec fn offers_1080p(formats: Seq<FormatSummary>) -> bool {
    exists|k: int, j: int|
        0 <= k < formats.len() && 0 <= j < formats[k].resolutions@.len() && (
        #[trigger] formats[k].resolutions@[j]).width >= 1920 && formats[k].resolutions@[j].height
            >= 1080
}

/// A capture card by name, or a device offering MJPEG and 1080p.
pub open spec fn spec_detect_capture_card(card: Seq<char>, driver: Seq<char>, formats: Seq<FormatSummary>) -> bool {
    contains_any(unicode_lowercase(card), capture_card_patterns()) || contains_any(
        unicode_lowercase(driver),
        capture_card_patterns(),
    ) || (offers_mjpeg(formats) && offers_1080p(formats))
}

fn any_mjpeg(formats: &[FormatSummary]) -> (r: bool)
    ensures
        r == offers_mjpeg(formats@),
{
    let mut k: usize = 0;
    while k < formats.len()
        invariant
            k <= formats@.len(),
            forall|j: int| 0 <= j < k ==> (#[trigger] formats@[j]).format != PixelFormat::Mjpeg,
        decreases formats.len() - k,
    {
        if formats[k].format == PixelFormat::Mjpeg {
            return true;
        }
        k = k + 1;
    }
    false
}

fn any_1080p(formats: &[FormatSummary]) -> (r: bool)
    ensures
        r == offers_1080p(formats@),
{
    let mut k: usize = 0;
    while k < formats.len()
        invariant
            k <= formats@.len(),
            forall|a: int, j: int|
                0 <= a < k && 0 <= j < formats@[a].resolutions@.len() ==> !((
                #[trigger] formats@[a].resolutions@[j]).width >= 1920
                    && formats@[a].resolutions@[j].height >= 1080),
        decreases formats.len() - k,
    {
        let rs = &formats[k].resolutions;
        let mut j: usize = 0;
        while j < rs.len()
            invariant
                k < formats@.len(),
                rs@ == formats@[k as int].resolutions@,
                j <= rs@.len(),
                forall|b: int| 0 <= b < j ==> !((#[trigger] rs@[b]).width >= 1920 && rs@[b].height >= 1080),
            decreases rs.len() - j,
        {
            if rs[j].width >= 1920 && rs[j].height >= 1080 {
                assert(formats@[k as int].resolutions@[j as int] == rs@[j as int]);
                return true;
            }
            j = j + 1;
        }
        k = k + 1;
    }
    false
}

/// Whether a device is likely an HDMI capture card.
pub fn detect_capture_card(card: &str, driver: &str, formats: &[FormatSummary]) -> (r: bool)
    ensures
        r == spec_detect_capture_card(card@, driver@, formats@),
{
    let card_lower = to_lowercase(card);
    let driver_lower = to_lowercase(driver);
    let patterns: [&str; 11] = [
        "hdmi",
        "capture",
        "grabber",
        "usb3",
        "ms2109",
        "ms2130",
        "macrosilicon",
        "tc358743",
        "uvc",
        "rkcif",
        "rk_hdmirx",
    ];
    assert(patterns@.map_values(|p: &str| p@) =~= capture_card_patterns());
    if str_contains_any(card_lower.as_str(), &patterns) || str_contains_any(
        driver_lower.as_str(),
        &patterns,
    ) {
        return true;
    }
    any_mjpeg(formats) && any_1080p(formats)
}

/// The largest area among resolutions.
pub open spec fn max_area_of(rs: Seq<Resolution>) -> nat
    decreases rs.len(),
{
    if rs.len() == 0 {
        0
    } else {
        let rest = max_area_of(rs.drop_last());
        let a = (rs.last().width * rs.last().height) as nat;
        if a > rest {
            a
        } else {
            rest
        }
    }
}

/// The largest area among all formats' resolutions.
pub open spec fn max_area(formats: Seq<FormatSummary>) -> nat
    decreases formats.len(),
{
    if formats.len() == 0 {
        0
    } else {
        let rest = max_area(formats.drop_last());
        let a = max_area_of(formats.last().resolutions@);
        if a > rest {
            a
        } else {
            rest
        }
    }
}

/// Every listed area fits in 32 bits.
pub open spec fn areas_fit(formats: Seq<FormatSummary>) -> bool {
    forall|k: int, j: int|
        0 <= k < formats.len() && 0 <= j < formats[k].resolutions@.len() ==> (
        #[trigger] formats[k].resolutions@[j]).width * formats[k].resolutions@[j].height
            <= u32::MAX
}

/// A device's selection priority: 1000 for a capture card, 100 for MJPEG,
/// one per 100000 pixels of its largest mode, 50 for a known good driver.
pub open spec fn spec_device_priority(driver: Seq<char>, formats: Seq<FormatSummary>, is_capture_card: bool) -> nat {
    (if is_capture_card {
        1000nat
    } else {
        0nat
    }) + (if offers_mjpeg(formats) {
        100nat
    } else {
        0nat
    }) + max_area(formats) / 100000 + (if seq_contains(driver, "uvcvideo"@) || seq_contains(
        driver,
        "tc358743"@,
    ) {
        50nat
    } else {
        0nat
    })
}

proof fn lemma_max_area_of_bound(rs: Seq<Resolution>)
    requires
        forall|j: int| 0 <= j < rs.len() ==> (#[trigger] rs[j]).width * rs[j].height <= u32::MAX,
    ensures
        max_area_of(rs) <= u32::MAX,
    decreases rs.len(),
{
    if rs.len() > 0 {
        assert(rs.last() == rs[rs.len() - 1]);
        lemma_max_area_of_bound(rs.drop_last());
    }
}

proof fn lemma_max_area_bound(fs: Seq<FormatSummary>)
    requires
        areas_fit(fs),
    ensures
        max_area(fs) <= u32::MAX,
    decreases fs.len(),
{
    if fs.len() > 0 {
        let rs = fs.last().resolutions@;
        assert(fs.last() == fs[fs.len() - 1]);
        assert forall|j: int| 0 <= j < rs.len() implies (#[trigger] rs[j]).width * rs[j].height <= u32::MAX by {
            assert(fs[fs.len() - 1].resolutions@[j] == rs[j]);
        }
        lemma_max_area_of_bound(rs);
        assert(areas_fit(fs.drop_last())) by {
            assert forall|k: int, j: int|
                0 <= k < fs.drop_last().len() && 0 <= j < fs.drop_last()[k].resolutions@.len() implies (
                #[trigger] fs.drop_last()[k].resolutions@[j]).width * fs.drop_last()[k].resolutions@[j].height
                    <= u32::MAX by {
                assert(fs.drop_last()[k] == fs[k]);
            }
        }
        lemma_max_area_bound(fs.drop_last());
    }
}

/// A device's priority score for selection (higher is better).
pub fn calculate_priority(driver: &str, formats: &[FormatSummary], is_capture_card: bool) -> (r: u32)
    requires
        areas_fit(formats@),
    ensures
        r == spec_device_priority(driver@, formats@, is_capture_card),
{
    let mut priority: u32 = 0;
    if is_capture_card {
        priority = priority + 1000;
    }
    if any_mjpeg(formats) {
        priority = priority + 100;
    }
    let mut max_resolution: u32 = 0;
    let mut k: usize = 0;
    while k < formats.len()
        invariant
            k <= formats@.len(),
            areas_fit(formats@),
            max_resolution == max_area(formats@.take(k as int)),
        decreases formats.len() - k,
    {
        let rs = &formats[k].resolutions;
        let mut best: u32 = 0;
        let mut j: usize = 0;
        while j < rs.len()
            invariant
                k < formats@.len(),
                areas_fit(formats@),
                rs@ == formats@[k as int].resolutions@,
                j <= rs@.len(),
                best == max_area_of(rs@.take(j as int)),
            decreases rs.len() - j,
        {
            assert(formats@[k as int].resolutions@[j as int] == rs@[j as int]);
            let a = rs[j].width * rs[j].height;
            assert(rs@.take(j + 1).drop_last() =~= rs@.take(j as int));
            assert(rs@.take(j + 1).last() == rs@[j as int]);
            if a > best {
                best = a;
            }
            j = j + 1;
        }
        assert(rs@.take(j as int) =~= rs@);
        assert(formats@.take(k + 1).drop_last() =~= formats@.take(k as int));
        assert(formats@.take(k + 1).last() == formats@[k as int]);
        if best > max_resolution {
            max_resolution = best;
        }
        k = k + 1;
    }
    assert(formats@.take(k as int) =~= formats@);
    priority = priority + max_resolution / 100000;
    if str_contains(driver, "uvcvideo") || str_contains(driver, "tc358743") {
        priority = priority + 50;
    }
    priority
}

// ---------------------------------------------------------------------------
// Bridge kind names, node names, and de-duplication
// ---------------------------------------------------------------------------

/// The name a bridge kind is recorded under.
pub open spec fn spec_bridge_kind_name(k: CsiBridgeKind) -> Seq<char> {
    match k {
        CsiBridgeKind::Rk628 => "rk628"@,
        CsiBridgeKind::RkHdmirx => "rkhdmirx"@,
        CsiBridgeKind::Tc358743 => "tc358743"@,
        CsiBridgeKind::Unknown => "unknown"@,
    }
}

/// The bridge kind a recorded name stands for.
pub open spec fn spec_parse_bridge_kind(name: Option<Seq<char>>) -> Option<CsiBridgeKind> {
    match name {
        None => None,
        Some(n) => if n == "rk628"@ {
            Some(CsiBridgeKind::Rk628)
        } else if n == "rkhdmirx"@ {
            Some(CsiBridgeKind::RkHdmirx)
        } else if n == "tc358743"@ {
            Some(CsiBridgeKind::Tc358743)
        } else if n == "unknown"@ {
            Some(CsiBridgeKind::Unknown)
        } else {
            None
        },
    }
}

/// The name under which a bridge kind is recorded in device information:
/// its debug name in lower case.
pub fn bridge_kind_name(kind: CsiBridgeKind) -> (r: &'static str)
    ensures
        r@ == spec_bridge_kind_name(kind),
{
    match kind {
        CsiBridgeKind::Rk628 => "rk628",
        CsiBridgeKind::RkHdmirx => "rkhdmirx",
        CsiBridgeKind::Tc358743 => "tc358743",
        CsiBridgeKind::Unknown => "unknown",
    }
}

/// Reads back a recorded bridge kind.
pub fn parse_bridge_kind(kind: Option<&str>) -> (r: Option<CsiBridgeKind>)
    ensures
        r == spec_parse_bridge_kind(
            match kind {
                Some(k) => Some(k@),
                None => None,
            },
        ),
{
    let k = match kind {
        Some(k) => k,
        None => return None,
    };
    if str_eq(k, "rk628") {
        Some(CsiBridgeKind::Rk628)
    } else if str_eq(k, "rkhdmirx") {
        Some(CsiBridgeKind::RkHdmirx)
    } else if str_eq(k, "tc358743") {
        Some(CsiBridgeKind::Tc358743)
    } else if str_eq(k, "unknown") {
        Some(CsiBridgeKind::Unknown)
    } else {
        None
    }
}

/// Reading back a recorded bridge kind gives the kind.
pub proof fn lemma_bridge_kind_round_trip(kind: CsiBridgeKind)
    ensures
        spec_parse_bridge_kind(Some(spec_bridge_kind_name(kind))) == Some(kind),
{
    reveal_strlit("rk628");
    reveal_strlit("rkhdmirx");
    reveal_strlit("tc358743");
    reveal_strlit("unknown");
    let n = spec_bridge_kind_name(kind);
    if kind != CsiBridgeKind::Rk628 {
        assert(n != "rk628"@) by {
            if n.len() == 5 {
                assert(n[1] != "rk628"@[1]);
            }
        }
    }
    if kind != CsiBridgeKind::RkHdmirx {
        assert(n != "rkhdmirx"@) by {
            if n.len() == 8 {
                assert(n[0] != "rkhdmirx"@[0]);
            }
        }
    }
    if kind != CsiBridgeKind::Tc358743 {
        assert(n != "tc358743"@) by {
            if n.len() == 8 {
                assert(n[0] != "tc358743"@[0]);
            }
        }
    }
}

/// The number of a `videoN` node name.
pub open spec fn spec_video_index(name: Seq<char>) -> Option<u32> {
    if seq_starts_with(name, "video"@) {
        spec_parse_u32(name.skip(5))
    } else {
        None
    }
}

/// The number of a `/dev/videoN` node, from its file name.
pub fn video_index(name: &str) -> (r: Option<u32>)
    ensures
        r == spec_video_index(name@),
{
    if !crate::text::str_starts_with(name, "video") {
        return None;
    }
    proof {
        reveal_strlit("video");
    }
    let cs = chars_of(name);
    let mut rest: Vec<char> = Vec::new();
    let mut i: usize = 5;
    while i < cs.len()
        invariant
            cs@ == name@,
            5 <= i <= cs@.len(),
            rest@ == name@.subrange(5, i as int),
        decreases cs.len() - i,
    {
        rest.push(cs[i]);
        i = i + 1;
        assert(rest@ =~= name@.subrange(5, i as int));
    }
    assert(rest@ =~= name@.skip(5));
    crate::text::parse_u32_chars(&rest)
}

/// The driver is `rkcif` (any driver name containing it).
pub open spec fn is_rkcif_candidate(driver: Option<Seq<char>>) -> bool {
    driver matches Some(d) && seq_contains(d, "rkcif"@)
}

/// The key `video_index` sorts candidates by: the node number, or the
/// largest number when there is none.
pub open spec fn candidate_key(index: Option<u32>) -> u32 {
    match index {
        Some(i) => i,
        None => u32::MAX,
    }
}

/// Among candidate nodes, the positions to probe: every non-`rkcif` node in
/// order, then the first `rkcif` node of lowest video number, since `rkcif`
/// registers many queues for one pipeline.
pub fn collapse_rkcif_probe_candidates(drivers: &[Option<String>], indices: &[Option<u32>]) -> (r:
    Vec<usize>)
    requires
        drivers@.len() == indices@.len(),
    ensures
        ({
            &&& forall|k: int| 0 <= k < r@.len() ==> r@[k] < drivers@.len()
            &&& forall|p: int|
                0 <= p < drivers@.len() && !is_rkcif_candidate(opt_view(drivers@[p])) ==> r@.contains(
                    p as usize,
                )
            &&& forall|a: int, b: int| 0 <= a < b < r@.len() ==> r@[a] < r@[b] || (is_rkcif_candidate(
                opt_view(drivers@[r@[b] as int]),
            ) && b == r@.len() - 1)
            &&& (exists|p: int| 0 <= p < drivers@.len() && is_rkcif_candidate(opt_view(drivers@[p])))
                <==> (r@.len() > 0 && is_rkcif_candidate(opt_view(drivers@[r@.last() as int])))
            &&& forall|k: int|
                0 <= k < r@.len() - 1 ==> !is_rkcif_candidate(opt_view(drivers@[r@[k] as int]))
            &&& r@.len() > 0 && is_rkcif_candidate(opt_view(drivers@[r@.last() as int])) ==> {
                let m = r@.last() as int;
                forall|p: int|
                    0 <= p < drivers@.len() && is_rkcif_candidate(opt_view(drivers@[p])) ==> (
                    candidate_key(indices@[m]) < candidate_key(indices@[p]) || (candidate_key(
                        indices@[m],
                    ) == candidate_key(indices@[p]) && m <= p))
            }
        }),
{
    let mut r: Vec<usize> = Vec::new();
    let mut best: Option<usize> = None;
    let mut i: usize = 0;
    while i < drivers.len()
        invariant
            drivers@.len() == indices@.len(),
            i <= drivers@.len(),
            forall|k: int| 0 <= k < r@.len() ==> r@[k] < i,
            forall|a: int, b: int| 0 <= a < b < r@.len() ==> r@[a] < r@[b],
            forall|k: int| 0 <= k < r@.len() ==> !is_rkcif_candidate(opt_view(drivers@[r@[k] as int])),
            forall|p: int|
                0 <= p < i && !is_rkcif_candidate(opt_view(drivers@[p])) ==> r@.contains(p as usize),
            match best {
                None => forall|p: int| 0 <= p < i ==> !is_rkcif_candidate(opt_view(drivers@[p])),
                Some(m) => m < i && is_rkcif_candidate(opt_view(drivers@[m as int])) && forall|p: int|
                    0 <= p < i && is_rkcif_candidate(opt_view(drivers@[p])) ==> (candidate_key(
                        indices@[m as int],
                    ) < candidate_key(indices@[p]) || (candidate_key(indices@[m as int])
                        == candidate_key(indices@[p]) && m <= p)),
            },
        decreases drivers.len() - i,
    {
        let is_rk = match &drivers[i] {
            Some(d) => str_contains(d.as_str(), "rkcif"),
            None => false,
        };
        assert(is_rk == is_rkcif_candidate(opt_view(drivers@[i as int])));
        if is_rk {
            let key = match indices[i] {
                Some(v) => v,
                None => u32::MAX,
            };
            match best {
                None => {
                    best = Some(i);
                },
                Some(m) => {
                    let best_key = match indices[m] {
                        Some(v) => v,
                        None => u32::MAX,
                    };
                    if key < best_key {
                        best = Some(i);
                    }
                },
            }
        } else {
            let ghost before = r@;
            r.push(i);
            assert forall|p: int| 0 <= p < i + 1 && !is_rkcif_candidate(opt_view(drivers@[p])) implies r@.contains(p as usize) by {
                if p < i {
                    let k = choose|k: int| 0 <= k < before.len() && before[k] == p as usize;
                    assert(r@[k] == p as usize);
                } else {
                    assert(r@[r@.len() - 1] == i);
                }
            }
        }
        i = i + 1;
    }
    let ghost plain = r@;
    match best {
        Some(m) => {
            r.push(m);
        },
        None => {},
    }
    proof {
        assert forall|p: int|
            0 <= p < drivers@.len() && !is_rkcif_candidate(opt_view(drivers@[p])) implies r@.contains(
                p as usize,
            ) by {
            let k = choose|k: int| 0 <= k < plain.len() && plain[k] == p as usize;
            assert(r@[k] == p as usize);
        }
        if exists|p: int| 0 <= p < drivers@.len() && is_rkcif_candidate(opt_view(drivers@[p])) {
            assert(best is Some);
        }
        if r@.len() > 0 && is_rkcif_candidate(opt_view(drivers@[r@.last() as int])) {
            assert(best is Some);
        }
        assert forall|k: int| 0 <= k < r@.len() - 1 implies !is_rkcif_candidate(
            opt_view(drivers@[r@[k] as int]),
        ) by {
            if best is Some {
                assert(r@[k] == plain[k]);
            } else {
                assert(r@[k] == plain[k]);
                assert(!is_rkcif_candidate(opt_view(drivers@[plain[k] as int])));
            }
        }
    }
    r
}

/// The string view of an optional string.
pub open spec fn opt_view(o: Option<String>) -> Option<Seq<char>> {
    match o {
        Some(s) => Some(s@),
        None => None,
    }
}

/// Which devices survive de-duplication: an `rkcif` node with a bus is kept
/// only if no earlier device has the same driver and bus, since `rkcif`
/// exposes many nodes for one capture pipeline; every other device is kept.
pub fn dedup_platform_subdevices(drivers: &[String], bus_infos: &[String]) -> (keep: Vec<bool>)
    requires
        drivers@.len() == bus_infos@.len(),
    ensures
        keep@.len() == drivers@.len(),
        forall|i: int|
            0 <= i < keep@.len() ==> (#[trigger] keep@[i] == (!(spec_is_rkcif(drivers@[i]@)
                && bus_infos@[i]@.len() > 0) || forall|j: int|
                0 <= j < i ==> !(drivers@[j]@ == drivers@[i]@ && bus_infos@[j]@ == bus_infos@[i]@))),
{
    let mut keep: Vec<bool> = Vec::new();
    let mut i: usize = 0;
    while i < drivers.len()
        invariant
            drivers@.len() == bus_infos@.len(),
            i <= drivers@.len(),
            keep@.len() == i,
            forall|k: int|
                0 <= k < i ==> (#[trigger] keep@[k] == (!(spec_is_rkcif(drivers@[k]@)
                    && bus_infos@[k]@.len() > 0) || forall|j: int|
                    0 <= j < k ==> !(drivers@[j]@ == drivers@[k]@ && bus_infos@[j]@
                        == bus_infos@[k]@))),
        decreases drivers.len() - i,
    {
        let d = drivers[i].as_str();
        let b = bus_infos[i].as_str();
        let mut k = true;
        let candidate = is_rkcif_driver(d) && !b.is_empty();
        if candidate {
            let mut j: usize = 0;
            while j < i
                invariant
                    i < drivers@.len(),
                    drivers@.len() == bus_infos@.len(),
                    d@ == drivers@[i as int]@,
                    b@ == bus_infos@[i as int]@,
                    j <= i,
                    k == forall|m: int|
                        0 <= m < j ==> !(drivers@[m]@ == drivers@[i as int]@ && bus_infos@[m]@
                            == bus_infos@[i as int]@),
                decreases i - j,
            {
                if str_eq(drivers[j].as_str(), d) && str_eq(bus_infos[j].as_str(), b) {
                    k = false;
                }
                j = j + 1;
            }
        }
        proof {
            if !candidate {
                assert(!(spec_is_rkcif(drivers@[i as int]@) && bus_infos@[i as int]@.len() > 0));
            }
        }
        keep.push(k);
        i = i + 1;
    }
    keep
}

/// The positions of `kept` whose resolution differs from the one before.
pub open spec fn drop_repeats(dims: Seq<Resolution>, sorted: Seq<usize>) -> Seq<usize>
    decreases sorted.len(),
{
    if sorted.len() == 0 {
        Seq::empty()
    } else {
        let rest = drop_repeats(dims, sorted.drop_last());
        if sorted.len() >= 2 && dims[sorted.last() as int] == dims[sorted[sorted.len() - 2] as int] {
            rest
        } else {
            rest.push(sorted.last())
        }
    }
}

/// The area of each resolution.
pub open spec fn areas(dims: Seq<Resolution>) -> Seq<u64> {
    dims.map_values(|d: Resolution| (d.width * d.height) as u64)
}

/// The positions of listed resolutions in the order they are offered:
/// largest area first (a stable sort), with a resolution that repeats the
/// one before it dropped.
pub fn order_resolutions(dims: &[Resolution]) -> (r: Vec<usize>)
    requires
        forall|k: int| 0 <= k < dims@.len() ==> (#[trigger] dims@[k]).width * dims@[k].height
            <= u32::MAX,
    ensures
        exists|sorted: Seq<usize>|
            is_permutation_of_positions(sorted, dims@.len()) && stably_descending(
                areas(dims@),
                sorted,
            ) && r@ == #[trigger] drop_repeats(dims@, sorted),
{
    let mut keys: Vec<u64> = Vec::new();
    let mut i: usize = 0;
    while i < dims.len()
        invariant
            i <= dims@.len(),
            keys@ == areas(dims@).take(i as int),
            forall|k: int| 0 <= k < dims@.len() ==> (#[trigger] dims@[k]).width * dims@[k].height
                <= u32::MAX,
        decreases dims.len() - i,
    {
        let a = dims[i].width * dims[i].height;
        keys.push(a as u64);
        i = i + 1;
        assert(keys@ =~= areas(dims@).take(i as int));
    }
    assert(keys@ =~= areas(dims@));
    let sorted = stable_order_desc(keys.as_slice());
    let mut r: Vec<usize> = Vec::new();
    let mut k: usize = 0;
    while k < sorted.len()
        invariant
            k <= sorted@.len(),
            is_permutation_of_positions(sorted@, dims@.len()),
            r@ == drop_repeats(dims@, sorted@.take(k as int)),
        decreases sorted.len() - k,
    {
        let p = sorted[k];
        assert(sorted@.take(k + 1).drop_last() =~= sorted@.take(k as int));
        assert(sorted@.take(k + 1).last() == p);
        if k >= 1 {
            assert(sorted@.take(k + 1)[k - 1] == sorted@[k - 1]);
        }
        if k >= 1 && dims[p].width == dims[sorted[k - 1]].width && dims[p].height
            == dims[sorted[k - 1]].height {
        } else {
            r.push(p);
        }
        k = k + 1;
    }
    assert(sorted@.take(k as int) =~= sorted@);
    r
}

/// The positions of listed formats, highest priority first, equal
/// priorities in their listed order.
pub fn order_formats(formats: &[PixelFormat]) -> (r: Vec<usize>)
    ensures
        is_permutation_of_positions(r@, formats@.len()),
        stably_descending(formats@.map_values(|f: PixelFormat| spec_priority(f) as u64), r@),
{
    let mut keys: Vec<u64> = Vec::new();
    let mut i: usize = 0;
    while i < formats.len()
        invariant
            i <= formats@.len(),
            keys@ == formats@.map_values(|f: PixelFormat| spec_priority(f) as u64).take(i as int),
        decreases formats.len() - i,
    {
        keys.push(formats[i].priority() as u64);
        i = i + 1;
        assert(keys@ =~= formats@.map_values(|f: PixelFormat| spec_priority(f) as u64).take(
            i as int,
        ));
    }
    assert(keys@ =~= formats@.map_values(|f: PixelFormat| spec_priority(f) as u64));
    stable_order_desc(keys.as_slice())
}

// ---------------------------------------------------------------------------
// Input configuration of source-following devices
// ---------------------------------------------------------------------------

/// The mode a locked source-following input reports: its format name, size
/// and frame rate, rounded to a whole number by the reader of the timings.
#[derive(Debug, Clone)]
pub struct LockedInputMode {
    pub format: String,
    pub width: u32,
    pub height: u32,
    pub fps: u32,
}

/// A frame rate held to 1..=120 frames per second.
pub open spec fn spec_clamp_fps(fps: u32) -> u32 {
    if fps < 1 {
        1
    } else if fps > 120 {
        120
    } else {
        fps
    }
}

/// The configuration to capture with: what was requested, except that a
/// source-following device uses the mode its locked input reports (when its
/// format name parses, its frame rate held to 1..=120), and never a format it
/// does not enumerate (its first enumerated one instead).
pub open spec fn spec_resolve_input(
    control_mode: VideoControlMode,
    locked: Option<LockedInputMode>,
    formats: Seq<PixelFormat>,
    requested: ResolvedVideoInputConfig,
) -> ResolvedVideoInputConfig {
    if control_mode != VideoControlMode::SourceFollowing {
        requested
    } else {
        let from_input = match locked {
            Some(m) => match spec_format_from_upper(unicode_uppercase(m.format@)) {
                Some(f) => ResolvedVideoInputConfig {
                    format: f,
                    resolution: Resolution { width: m.width, height: m.height },
                    fps: spec_clamp_fps(m.fps),
                },
                None => requested,
            },
            None => requested,
        };
        if formats.len() > 0 && !formats.contains(from_input.format) {
            ResolvedVideoInputConfig { format: formats[0], ..from_input }
        } else {
            from_input
        }
    }
}

/// Holds a frame rate to 1..=120 frames per second.
pub fn clamp_fps(fps: u32) -> (r: u32)
    ensures
        r == spec_clamp_fps(fps),
{
    if fps < 1 {
        1
    } else if fps > 120 {
        120
    } else {
        fps
    }
}

/// Settles the capture configuration for a device.
pub fn resolve_video_input_config(
    control_mode: VideoControlMode,
    locked: Option<&LockedInputMode>,
    formats: &[PixelFormat],
    requested_format: PixelFormat,
    requested_resolution: Resolution,
    requested_fps: u32,
) -> (r: ResolvedVideoInputConfig)
    ensures
        r == spec_resolve_input(
            control_mode,
            match locked {
                Some(m) => Some(*m),
                None => None,
            },
            formats@,
            ResolvedVideoInputConfig {
                format: requested_format,
                resolution: requested_resolution,
                fps: requested_fps,
            },
        ),
{
    let mut resolved = ResolvedVideoInputConfig {
        format: requested_format,
        resolution: requested_resolution,
        fps: requested_fps,
    };
    if control_mode == VideoControlMode::SourceFollowing {
        match locked {
            Some(m) => match parse_pixel_format(m.format.as_str()) {
                Ok(format) => {
                    resolved = ResolvedVideoInputConfig {
                        format,
                        resolution: Resolution::new(m.width, m.height),
                        fps: clamp_fps(m.fps),
                    };
                },
                Err(_) => {},
            },
            None => {},
        }
        if formats.len() > 0 && !crate::format::slice_has_format(formats, resolved.format) {
            resolved.format = formats[0];
        }
    }
    resolved
}

/// Whether DV timings read on the video node show a signal: a mode larger
/// than 64x64.
pub fn video_node_has_signal(dv_mode: Option<(u32, u32)>) -> (r: bool)
    ensures
        r == (dv_mode matches Some((w, h)) && w > 64 && h > 64),
{
    match dv_mode {
        Some((w, h)) => w > 64 && h > 64,
        None => false,
    }
}

/// Whether a device with this driver and card is a CSI/HDMI bridge, whose
/// paired subdevice is looked up and whose formats all take the source mode.
pub fn uses_bridge_probe(driver: &str, card: &str) -> (r: bool)
    ensures
        r == (spec_is_rkcif(driver@) || spec_is_rk_hdmirx(driver@, card@)),
{
    is_rkcif_driver(driver) || is_rk_hdmirx_driver(driver, card)
}

/// One answer of a driver enumeration (frame sizes or frame intervals).
#[derive(Debug, Clone, Copy, PartialEq, Eq, Structural)]
pub enum EnumAnswer {
    /// A discrete entry.
    Discrete,
    /// A step-wise range, which is not trusted.
    StepWise,
    /// The end of the list (`EINVAL`).
    End,
    /// The driver does not support the enumeration (`ENOTTY`, `ENOSYS`, `EOPNOTSUPP`).
    Unsupported,
    /// Any other error.
    Failed,
}

/// What the enumeration loop does next.
#[derive(Debug, Clone, Copy, PartialEq, Eq, Structural)]
pub enum EnumStep {
    /// Keep the entry and ask for the next one.
    Take,
    /// Stop; fall back to the current active mode when asked.
    Stop { fallback_to_current_mode: bool },
}

/// The decision for one answer of a frame-size enumeration, given whether
/// anything was found so far: a discrete entry is taken; a step-wise range
/// or an unsupported enumeration stops, falling back to the current mode
/// when nothing was found; the end of the list or an error stops.
pub fn frame_size_step(found_any: bool, answer: EnumAnswer) -> (r: EnumStep)
    ensures
        r == match answer {
            EnumAnswer::Discrete => EnumStep::Take,
            EnumAnswer::StepWise | EnumAnswer::Unsupported => EnumStep::Stop {
                fallback_to_current_mode: !found_any,
            },
            EnumAnswer::End | EnumAnswer::Failed => EnumStep::Stop { fallback_to_current_mode: false },
        },
{
    match answer {
        EnumAnswer::Discrete => EnumStep::Take,
        EnumAnswer::StepWise | EnumAnswer::Unsupported => EnumStep::Stop {
            fallback_to_current_mode: !found_any,
        },
        EnumAnswer::End | EnumAnswer::Failed => EnumStep::Stop { fallback_to_current_mode: false },
    }
}

/// The decision for one answer of a frame-interval enumeration: discrete
/// and step-wise entries are both taken; an unsupported enumeration stops,
/// falling back to the current mode when nothing was found; the end of the
/// list or an error stops.
pub fn frame_interval_step(found_any: bool, answer: EnumAnswer) -> (r: EnumStep)
    ensures
        r == match answer {
            EnumAnswer::Discrete | EnumAnswer::StepWise => EnumStep::Take,
            EnumAnswer::Unsupported => EnumStep::Stop { fallback_to_current_mode: !found_any },
            EnumAnswer::End | EnumAnswer::Failed => EnumStep::Stop { fallback_to_current_mode: false },
        },
{
    match answer {
        EnumAnswer::Discrete | EnumAnswer::StepWise => EnumStep::Take,
        EnumAnswer::Unsupported => EnumStep::Stop { fallback_to_current_mode: !found_any },
        EnumAnswer::End | EnumAnswer::Failed => EnumStep::Stop { fallback_to_current_mode: false },
    }
}

} // verus!
