//! CSI/HDMI bridges: recognising the bridge chip behind a capture node,
//! reading what its DV-timings query means, and the RK628 "fake VGA" filter
//! that must run before a capture is started.
use vstd::prelude::*;
use crate::signal::SignalStatus;
use crate::text::{
    all_digits, chars_of, lower_ascii, lower_ascii_contains, parse_u32_chars, seq_contains,
    seq_starts_with, spec_parse_u32, spec_trim, str_starts_with, trim_chars,
};

verus! {

/// The bridge chip family.
#[derive(Debug, Clone, Copy, PartialEq, Eq, Structural)]
pub enum CsiBridgeKind {
    Rk628,
    RkHdmirx,
    Tc358743,
    Unknown,
}

/// The bridge a subdevice name belongs to, by ASCII-case-insensitive markers.
pub open spec fn spec_kind_from_subdev_name(name: Seq<char>) -> Option<CsiBridgeKind> {
    let l = lower_ascii(name);
    if seq_contains(l, "rk628"@) {
        Some(CsiBridgeKind::Rk628)
    } else if seq_contains(l, "hdmirx"@) || seq_contains(l, "hdmi-rx"@) {
        Some(CsiBridgeKind::RkHdmirx)
    } else if seq_contains(l, "tc358743"@) || seq_contains(l, "tc358746"@) {
        Some(CsiBridgeKind::Tc358743)
    } else {
        None
    }
}

impl CsiBridgeKind {
    /// The bridge a subdevice name belongs to.
    pub fn from_subdev_name(name: &str) -> (r: Option<CsiBridgeKind>)
        ensures
            r == spec_kind_from_subdev_name(name@),
    {
        if lower_ascii_contains(name, "rk628") {
            Some(CsiBridgeKind::Rk628)
        } else if lower_ascii_contains(name, "hdmirx") || lower_ascii_contains(name, "hdmi-rx") {
            Some(CsiBridgeKind::RkHdmirx)
        } else if lower_ascii_contains(name, "tc358743") || lower_ascii_contains(name, "tc358746") {
            Some(CsiBridgeKind::Tc358743)
        } else {
            None
        }
    }

    /// Only the RK628 reports a synthetic mode while it has no signal.
    pub fn has_no_signal_fingerprint(self) -> (r: bool)
        ensures
            r == (self == CsiBridgeKind::Rk628),
    {
        matches!(self, CsiBridgeKind::Rk628)
    }
}

/// The integer fields of a BT.656/1120 DV timings record.
#[derive(Debug, Clone, Copy, PartialEq, Eq, Structural)]
pub struct BtTimings {
    pub width: u32,
    pub height: u32,
    pub interlaced: u32,
    pub pixelclock: u64,
    pub hfrontporch: u32,
    pub hsync: u32,
    pub hbackporch: u32,
    pub vfrontporch: u32,
    pub vsync: u32,
    pub vbackporch: u32,
    pub il_vfrontporch: u32,
    pub il_vsync: u32,
    pub il_vbackporch: u32,
    pub flags: u32,
    pub cea861_vic: u8,
}

/// The timings carry a CEA-861 VIC.
pub const V4L2_DV_FL_HAS_CEA861_VIC: u32 = 0x80;

/// DMT 640x480 at 25.175 MHz (within 50 kHz) with CEA VIC 1: the mode the
/// RK628 reports while it is not locked to a source.
pub open spec fn spec_rk628_fingerprint(bt: BtTimings) -> bool {
    &&& bt.width == 640
    &&& bt.height == 480
    &&& -50_000 < bt.pixelclock - 25_175_000 < 50_000
    &&& bt.flags & V4L2_DV_FL_HAS_CEA861_VIC != 0
    &&& bt.cea861_vic == 1
}

/// Whether the timings are the RK628's no-signal mode.
pub fn is_rk628_no_signal_fingerprint(bt: &BtTimings) -> (r: bool)
    ensures
        r == spec_rk628_fingerprint(*bt),
{
    if bt.width != 640 || bt.height != 480 {
        return false;
    }
    let pclk_matches = if bt.pixelclock >= 25_175_000 {
        bt.pixelclock - 25_175_000 < 50_000
    } else {
        25_175_000 - bt.pixelclock < 50_000
    };
    let has_vic_flag = bt.flags & V4L2_DV_FL_HAS_CEA861_VIC != 0;
    pclk_matches && has_vic_flag && bt.cea861_vic == 1
}

/// A locked source mode.
#[derive(Debug, Clone, Copy, PartialEq, Eq, Structural)]
pub struct DvTimingsMode {
    pub width: u32,
    pub height: u32,
    pub pixelclock: u64,
    pub bt: BtTimings,
}

/// What a DV-timings probe found.
#[derive(Debug, Clone, Copy, PartialEq, Eq, Structural)]
pub enum ProbeResult {
    Locked(DvTimingsMode),
    NoCable,
    NoSync,
    OutOfRange,
    NoSignal,
    Unavailable,
}

impl ProbeResult {
    /// The signal status of an unlocked probe; `None` when locked or unavailable.
    pub fn as_status(&self) -> (r: Option<SignalStatus>)
        ensures
            r == match *self {
                ProbeResult::Locked(_) => None,
                ProbeResult::NoCable => Some(SignalStatus::NoCable),
                ProbeResult::NoSync => Some(SignalStatus::NoSync),
                ProbeResult::OutOfRange => Some(SignalStatus::OutOfRange),
                ProbeResult::NoSignal => Some(SignalStatus::NoSignal),
                ProbeResult::Unavailable => None,
            },
    {
        match self {
            ProbeResult::Locked(_) => None,
            ProbeResult::NoCable => Some(SignalStatus::NoCable),
            ProbeResult::NoSync => Some(SignalStatus::NoSync),
            ProbeResult::OutOfRange => Some(SignalStatus::OutOfRange),
            ProbeResult::NoSignal => Some(SignalStatus::NoSignal),
            ProbeResult::Unavailable => None,
        }
    }

    /// Whether the probe locked onto a source.
    pub fn is_locked(&self) -> (r: bool)
        ensures
            r == (*self is Locked),
    {
        matches!(self, ProbeResult::Locked(_))
    }
}

/// How a DV-timings query failed.
#[derive(Debug, Clone, Copy, PartialEq, Eq, Structural)]
pub enum QueryDvTimingsError {
    /// No cable (`ENOLINK`).
    NoLink,
    /// Signal present but unstable (`ENOLCK`).
    UnstableSignal,
    /// The node does not support the query.
    Unsupported,
    /// Any other errno.
    IoctlError(i32),
}

pub const ERANGE: i32 = 34;
pub const EIO: i32 = 5;
pub const EREMOTEIO: i32 = 121;
pub const ETIMEDOUT: i32 = 110;
pub const ENOTTY: i32 = 25;
pub const EINVAL: i32 = 22;
pub const ENOSYS: i32 = 38;
pub const EOPNOTSUPP: i32 = 95;

/// The errno says the node has no DV-timings support.
pub open spec fn is_unsupported_errno(e: i32) -> bool {
    e == ENOTTY || e == EINVAL || e == ENOSYS || e == EOPNOTSUPP
}

/// What a failed query means: no cable, no sync (also I/O errors and
/// timeouts), out of range, unavailable on a node of unknown kind that does
/// not support the query, otherwise no signal.
pub open spec fn spec_classify_query_error(error: QueryDvTimingsError, kind: CsiBridgeKind) -> ProbeResult {
    match error {
        QueryDvTimingsError::NoLink => ProbeResult::NoCable,
        QueryDvTimingsError::UnstableSignal => ProbeResult::NoSync,
        QueryDvTimingsError::IoctlError(e) => if e == ERANGE {
            ProbeResult::OutOfRange
        } else if e == EIO || e == EREMOTEIO || e == ETIMEDOUT {
            ProbeResult::NoSync
        } else if is_unsupported_errno(e) && kind == CsiBridgeKind::Unknown {
            ProbeResult::Unavailable
        } else {
            ProbeResult::NoSignal
        },
        QueryDvTimingsError::Unsupported => if kind == CsiBridgeKind::Unknown {
            ProbeResult::Unavailable
        } else {
            ProbeResult::NoSignal
        },
    }
}

/// What a failed DV-timings query means for the signal.
pub fn classify_query_error(error: &QueryDvTimingsError, kind: CsiBridgeKind) -> (r: ProbeResult)
    ensures
        r == spec_classify_query_error(*error, kind),
{
    match error {
        QueryDvTimingsError::NoLink => ProbeResult::NoCable,
        QueryDvTimingsError::UnstableSignal => ProbeResult::NoSync,
        QueryDvTimingsError::IoctlError(e) => {
            let e = *e;
            if e == ERANGE {
                ProbeResult::OutOfRange
            } else if e == EIO || e == EREMOTEIO || e == ETIMEDOUT {
                ProbeResult::NoSync
            } else if (e == ENOTTY || e == EINVAL || e == ENOSYS || e == EOPNOTSUPP) && kind
                == CsiBridgeKind::Unknown {
                ProbeResult::Unavailable
            } else {
                ProbeResult::NoSignal
            }
        },
        QueryDvTimingsError::Unsupported => {
            if kind == CsiBridgeKind::Unknown {
                ProbeResult::Unavailable
            } else {
                ProbeResult::NoSignal
            }
        },
    }
}

/// What successful timings mean: anything but BT.656/1120 timings, a mode of
/// 64 pixels or less in either direction, or the RK628 fingerprint on an
/// RK628 is no signal; otherwise the source is locked.
pub open spec fn spec_classify_timings(is_bt_656_1120: bool, bt: BtTimings, kind: CsiBridgeKind) -> ProbeResult {
    if !is_bt_656_1120 {
        ProbeResult::NoSignal
    } else if bt.width <= 64 || bt.height <= 64 {
        ProbeResult::NoSignal
    } else if kind == CsiBridgeKind::Rk628 && spec_rk628_fingerprint(bt) {
        ProbeResult::NoSignal
    } else {
        ProbeResult::Locked(
            DvTimingsMode { width: bt.width, height: bt.height, pixelclock: bt.pixelclock, bt },
        )
    }
}

/// What the timings a DV query returned mean for the signal.
pub fn classify_timings(is_bt_656_1120: bool, bt: BtTimings, kind: CsiBridgeKind) -> (r: ProbeResult)
    ensures
        r == spec_classify_timings(is_bt_656_1120, bt, kind),
{
    if !is_bt_656_1120 {
        return ProbeResult::NoSignal;
    }
    if bt.width == 0 || bt.height == 0 || bt.width <= 64 || bt.height <= 64 {
        return ProbeResult::NoSignal;
    }
    if kind.has_no_signal_fingerprint() && is_rk628_no_signal_fingerprint(&bt) {
        return ProbeResult::NoSignal;
    }
    ProbeResult::Locked(
        DvTimingsMode { width: bt.width, height: bt.height, pixelclock: bt.pixelclock, bt },
    )
}

// ---------------------------------------------------------------------------
// Media-controller graphs
// ---------------------------------------------------------------------------

/// The number of a `/dev/mediaN` node name: `media` followed by one or more
/// decimal digits that fit in 32 bits.
pub open spec fn spec_media_device_index(name: Seq<char>) -> Option<u32> {
    let suffix = name.skip(5);
    if seq_starts_with(name, "media"@) && suffix.len() > 0 && all_digits(suffix) {
        spec_parse_u32(suffix)
    } else {
        None
    }
}

/// The index of a media controller node name, if it is one.
pub fn media_device_index(name: &str) -> (r: Option<u32>)
    ensures
        r == spec_media_device_index(name@),
{
    if !str_starts_with(name, "media") {
        return None;
    }
    proof {
        reveal_strlit("media");
    }
    let cs = chars_of(name);
    let mut suffix: Vec<char> = Vec::new();
    let mut i: usize = 5;
    while i < cs.len()
        invariant
            cs@ == name@,
            5 <= i <= cs@.len(),
            suffix@ == name@.subrange(5, i as int),
            all_digits(suffix@),
        decreases cs.len() - i,
    {
        let c = cs[i];
        if !('0' <= c && c <= '9') {
            assert(name@.skip(5)[i - 5] == c);
            return None;
        }
        suffix.push(c);
        i = i + 1;
        assert(suffix@ =~= name@.subrange(5, i as int));
    }
    assert(suffix@ =~= name@.skip(5));
    if suffix.len() == 0 {
        return None;
    }
    parse_u32_chars(&suffix)
}

/// Index of the first `:` in `s`, or `s.len()`.
pub open spec fn first_colon(s: Seq<char>, i: int) -> int
    decreases s.len() - i,
{
    if i < 0 || i >= s.len() {
        s.len() as int
    } else if s[i] == ':' {
        i
    } else {
        first_colon(s, i + 1)
    }
}

/// A sysfs `dev` value: `major:minor` around optional whitespace.
pub open spec fn spec_parse_device_numbers(value: Seq<char>) -> Option<(u32, u32)> {
    let t = spec_trim(value);
    let c = first_colon(t, 0);
    if c >= t.len() {
        None
    } else {
        match (spec_parse_u32(t.take(c)), spec_parse_u32(t.skip(c + 1))) {
            (Some(major), Some(minor)) => Some((major, minor)),
            _ => None,
        }
    }
}

proof fn lemma_first_colon(s: Seq<char>, i: int)
    requires
        0 <= i <= s.len(),
    ensures
        i <= first_colon(s, i) <= s.len(),
        first_colon(s, i) < s.len() ==> s[first_colon(s, i)] == ':',
    decreases s.len() - i,
{
    if i < s.len() && s[i] != ':' {
        lemma_first_colon(s, i + 1);
    }
}

/// The device numbers in a sysfs `dev` value.
pub fn parse_device_numbers(value: &str) -> (r: Option<(u32, u32)>)
    ensures
        r == spec_parse_device_numbers(value@),
{
    let t = trim_chars(value);
    let ghost ts = t@;
    proof {
        lemma_first_colon(ts, 0);
    }
    let mut c: usize = 0;
    while c < t.len() && t[c] != ':'
        invariant
            t@ == ts,
            c <= ts.len(),
            first_colon(ts, c as int) == first_colon(ts, 0),
        decreases t.len() - c,
    {
        c = c + 1;
    }
    if c >= t.len() {
        return None;
    }
    let mut left: Vec<char> = Vec::new();
    let mut i: usize = 0;
    while i < c
        invariant
            t@ == ts,
            i <= c < ts.len(),
            left@ == ts.take(i as int),
        decreases c - i,
    {
        left.push(t[i]);
        i = i + 1;
        assert(left@ =~= ts.take(i as int));
    }
    let mut right: Vec<char> = Vec::new();
    let mut j: usize = c + 1;
    while j < t.len()
        invariant
            t@ == ts,
            c + 1 <= j <= ts.len(),
            right@ == ts.subrange(c + 1, j as int),
        decreases t.len() - j,
    {
        right.push(t[j]);
        j = j + 1;
        assert(right@ =~= ts.subrange(c + 1, j as int));
    }
    assert(right@ =~= ts.skip(c + 1));
    match (parse_u32_chars(&left), parse_u32_chars(&right)) {
        (Some(major), Some(minor)) => Some((major, minor)),
        _ => None,
    }
}

/// An entity of a media-controller graph.
#[derive(Debug, Clone)]
pub struct MediaGraphEntity {
    pub id: u32,
    pub name: String,
    pub major: u32,
    pub minor: u32,
    pub pads: u16,
    pub links: u16,
}

/// An enabled data link: media flows from `source` to `sink`.
#[derive(Debug, Clone, Copy, PartialEq, Eq, Structural)]
pub struct MediaGraphLink {
    pub source: u32,
    pub sink: u32,
}

/// The entities and links of one media controller.
#[derive(Debug, Clone)]
pub struct MediaGraph {
    pub path: String,
    pub entities: Vec<MediaGraphEntity>,
    pub links: Vec<MediaGraphLink>,
}

/// Some link feeds `to` into `from`: one step towards the sources.
pub open spec fn upstream_step(links: Seq<MediaGraphLink>, from: u32, to: u32) -> bool {
    exists|k: int| 0 <= k < links.len() && (#[trigger] links[k]).sink == from && links[k].source == to
}

/// `p` walks from its first entity towards the sources, one link at a time.
pub open spec fn is_upstream_path(links: Seq<MediaGraphLink>, p: Seq<u32>) -> bool {
    &&& p.len() >= 1
    &&& forall|i: int| 0 <= i < p.len() - 1 ==> upstream_step(links, #[trigger] p[i], p[i + 1])
}

/// `v` feeds `start`, directly or through other entities.
pub open spec fn reachable_upstream(links: Seq<MediaGraphLink>, start: u32, v: u32) -> bool {
    exists|p: Seq<u32>| #[trigger]
        is_upstream_path(links, p) && p[0] == start && p.last() == v
}

/// Index of the last entity with this id (the one a lookup by id finds).
pub open spec fn entity_index_by_id(entities: Seq<MediaGraphEntity>, id: u32) -> Option<int>
    decreases entities.len(),
{
    if entities.len() == 0 {
        None
    } else if entities.last().id == id {
        Some(entities.len() - 1)
    } else {
        entity_index_by_id(entities.drop_last(), id)
    }
}

/// Index of the first entity with these device numbers.
pub open spec fn entity_index_by_device(entities: Seq<MediaGraphEntity>, dev: (u32, u32)) -> Option<
    int,
>
    decreases entities.len(),
{
    if entities.len() == 0 {
        None
    } else {
        match entity_index_by_device(entities.drop_last(), dev) {
            Some(i) => Some(i),
            None => if (entities.last().major, entities.last().minor) == dev {
                Some(entities.len() - 1)
            } else {
                None
            },
        }
    }
}

/// A device node whose name marks a known bridge.
pub open spec fn is_bridge_entity(e: MediaGraphEntity) -> bool {
    (e.major != 0 || e.minor != 0) && spec_kind_from_subdev_name(e.name@) is Some
}

/// The entity registered under `id` is a bridge device node.
pub open spec fn bridge_at(entities: Seq<MediaGraphEntity>, id: u32) -> bool {
    match entity_index_by_id(entities, id) {
        Some(i) => is_bridge_entity(entities[i]),
        None => false,
    }
}

proof fn lemma_entity_index_by_id(entities: Seq<MediaGraphEntity>, id: u32)
    ensures
        match entity_index_by_id(entities, id) {
            Some(i) => 0 <= i < entities.len() && entities[i].id == id && forall|j: int|
                i < j < entities.len() ==> entities[j].id != id,
            None => forall|j: int| 0 <= j < entities.len() ==> entities[j].id != id,
        },
    decreases entities.len(),
{
    if entities.len() > 0 && entities.last().id != id {
        lemma_entity_index_by_id(entities.drop_last(), id);
        assert forall|j: int| 0 <= j < entities.len() - 1 implies entities[j]
            == entities.drop_last()[j] by {}
    }
}

proof fn lemma_entity_index_by_device(entities: Seq<MediaGraphEntity>, dev: (u32, u32))
    ensures
        match entity_index_by_device(entities, dev) {
            Some(i) => 0 <= i < entities.len() && (entities[i].major, entities[i].minor) == dev
                && forall|j: int| 0 <= j < i ==> (entities[j].major, entities[j].minor) != dev,
            None => forall|j: int|
                0 <= j < entities.len() ==> (entities[j].major, entities[j].minor) != dev,
        },
    decreases entities.len(),
{
    if entities.len() > 0 {
        lemma_entity_index_by_device(entities.drop_last(), dev);
        assert forall|j: int| 0 <= j < entities.len() - 1 implies entities[j]
            == entities.drop_last()[j] by {}
    }
}

fn find_by_device(entities: &[MediaGraphEntity], dev: (u32, u32)) -> (r: Option<usize>)
    ensures
        match r {
            Some(i) => entity_index_by_device(entities@, dev) == Some(i as int) && i < entities@.len(),
            None => entity_index_by_device(entities@, dev) is None,
        },
{
    proof {
        lemma_entity_index_by_device(entities@, dev);
    }
    let mut i: usize = 0;
    while i < entities.len()
        invariant
            i <= entities@.len(),
            forall|j: int| 0 <= j < i ==> (entities@[j].major, entities@[j].minor) != dev,
            match entity_index_by_device(entities@, dev) {
                Some(k) => 0 <= k < entities@.len() && (entities@[k].major, entities@[k].minor)
                    == dev && forall|j: int|
                    0 <= j < k ==> (entities@[j].major, entities@[j].minor) != dev,
                None => forall|j: int|
                    0 <= j < entities@.len() ==> (entities@[j].major, entities@[j].minor) != dev,
            },
        decreases entities.len() - i,
    {
        if entities[i].major == dev.0 && entities[i].minor == dev.1 {
            return Some(i);
        }
        i = i + 1;
    }
    None
}

fn find_last_by_id(entities: &[MediaGraphEntity], id: u32) -> (r: Option<usize>)
    ensures
        match r {
            Some(i) => entity_index_by_id(entities@, id) == Some(i as int) && i < entities@.len(),
            None => entity_index_by_id(entities@, id) is None,
        },
{
    proof {
        lemma_entity_index_by_id(entities@, id);
    }
    let mut i: usize = entities.len();
    while i > 0
        invariant
            i <= entities@.len(),
            forall|j: int| i <= j < entities@.len() ==> entities@[j].id != id,
            match entity_index_by_id(entities@, id) {
                Some(k) => 0 <= k < entities@.len() && entities@[k].id == id && forall|j: int|
                    k < j < entities@.len() ==> entities@[j].id != id,
                None => forall|j: int| 0 <= j < entities@.len() ==> entities@[j].id != id,
            },
        decreases i,
    {
        if entities[i - 1].id == id {
            return Some(i - 1);
        }
        i = i - 1;
    }
    None
}

/// Strictly increasing.
pub open spec fn strictly_sorted(v: Seq<u32>) -> bool {
    forall|i: int, j: int| 0 <= i < j < v.len() ==> v[i] < v[j]
}

/// Some link among the first `k` feeds `y` into `id`.
pub open spec fn feeds_within(links: Seq<MediaGraphLink>, id: u32, k: int, y: u32) -> bool {
    exists|j: int| 0 <= j < k && (#[trigger] links[j]).sink == id && links[j].source == y
}

proof fn lemma_feeds_step(links: Seq<MediaGraphLink>, id: u32, k: int, y: u32)
    requires
        0 <= k < links.len(),
    ensures
        feeds_within(links, id, k + 1, y) <==> (feeds_within(links, id, k, y) || (links[k].sink
            == id && links[k].source == y)),
{
    if feeds_within(links, id, k + 1, y) {
        let j = choose|j: int| 0 <= j < k + 1 && (#[trigger] links[j]).sink == id && links[j].source == y;
        if j < k {
            assert(feeds_within(links, id, k, y));
        }
    }
    if feeds_within(links, id, k, y) {
        let j = choose|j: int| 0 <= j < k && (#[trigger] links[j]).sink == id && links[j].source == y;
        assert(0 <= j < k + 1 && links[j].sink == id && links[j].source == y);
    }
    if links[k].sink == id && links[k].source == y {
        assert(0 <= k < k + 1 && links[k].sink == id && links[k].source == y);
    }
}

/// The entities that feed `id` directly, in ascending order, each once.
fn upstream_of(links: &[MediaGraphLink], id: u32) -> (r: Vec<u32>)
    ensures
        strictly_sorted(r@),
        forall|x: u32| r@.contains(x) <==> upstream_step(links@, id, x),
{
    let mut r: Vec<u32> = Vec::new();
    assert forall|x: u32| feeds_within(links@, id, links@.len() as int, x) <==> upstream_step(links@, id, x) by {}
    let mut k: usize = 0;
    while k < links.len()
        invariant
            k <= links@.len(),
            strictly_sorted(r@),
            forall|x: u32| r@.contains(x) <==> feeds_within(links@, id, k as int, x),
        decreases links.len() - k,
    {
        let l = links[k];
        let ghost before = r@;
        if l.sink == id {
            let x = l.source;
            let mut pos: usize = 0;
            while pos < r.len() && r[pos] < x
                invariant
                    pos <= r@.len(),
                    r@ == before,
                    forall|j: int| 0 <= j < pos ==> r@[j] < x,
                decreases r.len() - pos,
            {
                pos = pos + 1;
            }
            if pos < r.len() && r[pos] == x {
            } else {
                r.insert(pos, x);
                assert(r@ =~= before.take(pos as int) + seq![x] + before.skip(pos as int));
                assert forall|i: int, j: int| 0 <= i < j < r@.len() implies r@[i] < r@[j] by {
                    if j < pos {
                    } else if i < pos && j == pos {
                    } else if i < pos {
                        assert(r@[j] == before[j - 1]);
                    } else if i == pos {
                        assert(r@[j] == before[j - 1]);
                        assert(before[pos as int] > x);
                        assert(before[pos as int] <= before[j - 1]);
                    } else {
                        assert(r@[i] == before[i - 1] && r@[j] == before[j - 1]);
                    }
                }
            }
            assert forall|y: u32| r@.contains(y) <==> (before.contains(y) || y == x) by {
                if r@.contains(y) {
                    let i = choose|i: int| 0 <= i < r@.len() && r@[i] == y;
                    if i < pos {
                        assert(before[i] == y);
                    } else if i > pos && r@.len() > before.len() {
                        assert(before[i - 1] == y);
                    } else if r@.len() == before.len() {
                        assert(before[i] == y);
                    }
                }
                if before.contains(y) {
                    let i = choose|i: int| 0 <= i < before.len() && before[i] == y;
                    if r@.len() > before.len() {
                        if i < pos {
                            assert(r@[i] == y);
                        } else {
                            assert(r@[i + 1] == y);
                        }
                    } else {
                        assert(r@[i] == y);
                    }
                }
                if y == x {
                    assert(r@[pos as int] == x);
                }
            }
        }
        assert(l.sink == id ==> forall|y: u32| r@.contains(y) <==> (before.contains(y) || y == l.source));
        assert(l.sink != id ==> r@ == before);
        assert forall|y: u32| r@.contains(y) <==> feeds_within(links@, id, k + 1, y) by {
            lemma_feeds_step(links@, id, k as int, y);
            assert(links@[k as int] == l);
            assert(before.contains(y) <==> feeds_within(links@, id, k as int, y));
            if l.sink == id {
                assert(r@.contains(y) <==> (before.contains(y) || y == l.source));
            } else {
                assert(r@ == before);
            }
        }
        k = k + 1;
    }
    r
}

proof fn lemma_path_extend(links: Seq<MediaGraphLink>, start: u32, u: u32, x: u32)
    requires
        reachable_upstream(links, start, u),
        upstream_step(links, u, x),
    ensures
        reachable_upstream(links, start, x),
{
    let p = choose|p: Seq<u32>| #[trigger] is_upstream_path(links, p) && p[0] == start && p.last() == u;
    let q = p.push(x);
    assert forall|i: int| 0 <= i < q.len() - 1 implies upstream_step(links, #[trigger] q[i], q[i + 1]) by {
        if i < p.len() - 1 {
            assert(q[i] == p[i] && q[i + 1] == p[i + 1]);
        } else {
            assert(q[i] == u && q[i + 1] == x);
        }
    }
    assert(is_upstream_path(links, q) && q[0] == start && q.last() == x);
}

proof fn lemma_start_reachable(links: Seq<MediaGraphLink>, start: u32)
    ensures
        reachable_upstream(links, start, start),
{
    let p = seq![start];
    assert(is_upstream_path(links, p) && p[0] == start && p.last() == start);
}

proof fn lemma_path_in_set(links: Seq<MediaGraphLink>, set: Seq<u32>, p: Seq<u32>, i: int)
    requires
        is_upstream_path(links, p),
        set.contains(p[0]),
        forall|u: u32, x: u32| set.contains(u) && upstream_step(links, u, x) ==> set.contains(x),
        0 <= i < p.len(),
    ensures
        set.contains(p[i]),
    decreases i,
{
    if i > 0 {
        lemma_path_in_set(links, set, p, i - 1);
        assert(upstream_step(links, p[i - 1], p[i]));
    }
}

/// A set of entities that holds `start` and every entity feeding one of its
/// members holds everything reachable from `start`.
proof fn lemma_closed_holds_reachable(links: Seq<MediaGraphLink>, set: Seq<u32>, start: u32, v: u32)
    requires
        set.contains(start),
        forall|u: u32, x: u32| set.contains(u) && upstream_step(links, u, x) ==> set.contains(x),
        reachable_upstream(links, start, v),
    ensures
        set.contains(v),
{
    let p = choose|p: Seq<u32>| #[trigger] is_upstream_path(links, p) && p[0] == start && p.last() == v;
    lemma_path_in_set(links, set, p, p.len() - 1);
}

/// Two strictly increasing sequences with the same members are equal.
proof fn lemma_sorted_same_members(a: Seq<u32>, b: Seq<u32>)
    requires
        strictly_sorted(a),
        strictly_sorted(b),
        forall|x: u32| a.contains(x) <==> b.contains(x),
    ensures
        a == b,
    decreases a.len(),
{
    if a.len() == 0 {
        if b.len() > 0 {
            assert(b.contains(b[0]));
        }
        assert(a =~= b);
    } else {
        assert(a.contains(a[0]));
        assert(b.len() > 0);
        assert(b.contains(b[0]));
        let ia = choose|i: int| 0 <= i < a.len() && a[i] == b[0];
        let ib = choose|i: int| 0 <= i < b.len() && b[i] == a[0];
        assert(a[0] <= a[ia]);
        assert(b[0] <= b[ib]);
        assert(a[0] == b[0]);
        let a1 = a.drop_first();
        let b1 = b.drop_first();
        assert forall|x: u32| a1.contains(x) <==> b1.contains(x) by {
            if a1.contains(x) {
                let i = choose|i: int| 0 <= i < a1.len() && a1[i] == x;
                assert(a[i + 1] == x);
                assert(a.contains(x));
                assert(x != a[0]);
                let j = choose|j: int| 0 <= j < b.len() && b[j] == x;
                assert(j != 0);
                assert(b1[j - 1] == x);
            }
            if b1.contains(x) {
                let i = choose|i: int| 0 <= i < b1.len() && b1[i] == x;
                assert(b[i + 1] == x);
                assert(b.contains(x));
                assert(x != b[0]);
                let j = choose|j: int| 0 <= j < a.len() && a[j] == x;
                assert(j != 0);
                assert(a1[j - 1] == x);
            }
        }
        lemma_sorted_same_members(a1, b1);
        assert(a =~= seq![a[0]] + a1);
        assert(b =~= seq![b[0]] + b1);
    }
}

/// The entities feeding `id` directly, ascending, each once.
pub open spec fn upstream_list(links: Seq<MediaGraphLink>, id: u32) -> Seq<u32> {
    choose|s: Seq<u32>|
        strictly_sorted(s) && forall|x: u32| #[trigger] s.contains(x) <==> upstream_step(links, id, x)
}

/// `order` with those of `nbrs` it does not hold yet appended, in order.
pub open spec fn append_new(order: Seq<u32>, nbrs: Seq<u32>) -> Seq<u32>
    decreases nbrs.len(),
{
    if nbrs.len() == 0 {
        order
    } else {
        let acc = append_new(order, nbrs.drop_last());
        if acc.contains(nbrs.last()) {
            acc
        } else {
            acc.push(nbrs.last())
        }
    }
}

/// The breadth-first visiting order towards the sources from `sid` after
/// `n` entities have been visited: each visited entity appends the entities
/// feeding it, ascending, that were not queued yet.
pub open spec fn bfs_state(links: Seq<MediaGraphLink>, sid: u32, n: nat) -> Seq<u32>
    decreases n,
{
    if n == 0 {
        seq![sid]
    } else {
        let o = bfs_state(links, sid, (n - 1) as nat);
        if n - 1 < o.len() {
            append_new(o, upstream_list(links, o[n - 1]))
        } else {
            o
        }
    }
}

/// The `k`-th entity the breadth-first search visits, when it gets that far.
pub open spec fn bfs_visits(links: Seq<MediaGraphLink>, sid: u32, k: nat, v: u32) -> bool {
    k < bfs_state(links, sid, k).len() && bfs_state(links, sid, k)[k as int] == v
}

/// The bridge found is the first bridge device node in breadth-first order
/// towards the sources from the capture node (neighbours taken in ascending id).
pub open spec fn first_bridge_in_bfs(
    entities: Seq<MediaGraphEntity>,
    links: Seq<MediaGraphLink>,
    dev: (u32, u32),
    e: MediaGraphEntity,
) -> bool {
    &&& entity_index_by_device(entities, dev) matches Some(s)
    &&& exists|k: nat|
        {
            &&& k >= 1
            &&& #[trigger] bfs_visits(links, entities[s].id, k, e.id)
            &&& forall|j: nat, u: u32|
                1 <= j < k && #[trigger] bfs_visits(links, entities[s].id, j, u) ==> !bridge_at(
                    entities,
                    u,
                )
        }
}

/// The bridge chip connected to the capture node `video_device` in a media
/// graph, searched only towards link sources from that node: `None` when no
/// entity has the node's device numbers or no bridge device node feeds it.
/// `e`, the entity registered under id `v`, is a bridge device node of kind
/// `kind` that feeds the capture node with device numbers `dev`, directly or
/// through other entities.
pub open spec fn bridge_via(
    entities: Seq<MediaGraphEntity>,
    links: Seq<MediaGraphLink>,
    dev: (u32, u32),
    v: u32,
    e: MediaGraphEntity,
    kind: CsiBridgeKind,
) -> bool {
    &&& entity_index_by_device(entities, dev) matches Some(s)
    &&& v != entities[s].id
    &&& reachable_upstream(links, entities[s].id, v)
    &&& entity_index_by_id(entities, v) matches Some(i)
    &&& e == entities[i]
    &&& is_bridge_entity(e)
    &&& spec_kind_from_subdev_name(e.name@) == Some(kind)
}

/// `e` is a bridge device node of kind `kind` feeding the capture node.
pub open spec fn bridge_found(
    entities: Seq<MediaGraphEntity>,
    links: Seq<MediaGraphLink>,
    dev: (u32, u32),
    e: MediaGraphEntity,
    kind: CsiBridgeKind,
) -> bool {
    exists|v: u32| #[trigger] bridge_via(entities, links, dev, v, e, kind)
}

/// No bridge device node feeds the capture node with device numbers `dev`
/// (vacuously so when no entity has them).
pub open spec fn no_bridge_connected(
    entities: Seq<MediaGraphEntity>,
    links: Seq<MediaGraphLink>,
    dev: (u32, u32),
) -> bool {
    entity_index_by_device(entities, dev) matches Some(s) ==> forall|v: u32|
        v != entities[s].id && #[trigger] reachable_upstream(links, entities[s].id, v) ==> !bridge_at(
            entities,
            v,
        )
}

#[verifier::spinoff_prover]
pub fn connected_bridge_entity<'a>(
    entities: &'a [MediaGraphEntity],
    links: &[MediaGraphLink],
    video_device: (u32, u32),
) -> (r: Option<(&'a MediaGraphEntity, CsiBridgeKind)>)
    ensures
        entity_index_by_device(entities@, video_device) is None ==> r is None,
        r matches Some(res) ==> bridge_found(entities@, links@, video_device, *res.0, res.1),
        r matches Some(res) ==> first_bridge_in_bfs(entities@, links@, video_device, *res.0),
        r is None ==> no_bridge_connected(entities@, links@, video_device),
{
    let s = match find_by_device(entities, video_device) {
        Some(s) => s,
        None => {
            assert(no_bridge_connected(entities@, links@, video_device));
            return None;
        },
    };
    let sid = entities[s].id;
    let ghost ls = links@;
    let ghost bound = ls.map_values(|l: MediaGraphLink| l.source).push(sid);
    let mut order: Vec<u32> = Vec::new();
    order.push(sid);
    proof {
        lemma_start_reachable(ls, sid);
        assert(bound[bound.len() - 1] == sid);
        assert(order@[0] == sid);
    }
    let mut head: usize = 0;
    while head < order.len()
        invariant
            ls == links@,
            bound == ls.map_values(|l: MediaGraphLink| l.source).push(sid),
            entity_index_by_device(entities@, video_device) == Some(s as int),
            s < entities@.len(),
            sid == entities@[s as int].id,
            head <= order@.len(),
            order@.len() >= 1,
            order@[0] == sid,
            order@.no_duplicates(),
            forall|k: int| 0 <= k < order@.len() ==> bound.contains(#[trigger] order@[k]),
            forall|k: int| 0 <= k < order@.len() ==> reachable_upstream(ls, sid, #[trigger] order@[k]),
            forall|k: int, x: u32|
                0 <= k < head && #[trigger] upstream_step(ls, order@[k], x) ==> order@.contains(x),
            forall|k: int| 0 <= k < head && #[trigger] order@[k] != sid ==> !bridge_at(entities@, order@[k]),
            order@ == bfs_state(ls, sid, head as nat),
            forall|j: nat| j < head ==> #[trigger] bfs_visits(ls, sid, j, order@[j as int]),
        decreases bound.len() - head,
    {
        proof {
            order@.unique_seq_to_set();
            bound.lemma_cardinality_of_set();
            assert(order@.to_set().subset_of(bound.to_set())) by {
                assert forall|x: u32| order@.to_set().contains(x) implies bound.to_set().contains(x) by {
                    assert(order@.contains(x));
                    let k = choose|k: int| 0 <= k < order@.len() && order@[k] == x;
                    assert(bound.contains(order@[k]));
                }
            }
            vstd::set_lib::lemma_len_subset(order@.to_set(), bound.to_set());
        }
        let id = order[head];
        if id != sid {
            match find_last_by_id(entities, id) {
                Some(i) => {
                    let e = &entities[i];
                    if e.major != 0 || e.minor != 0 {
                        match CsiBridgeKind::from_subdev_name(e.name.as_str()) {
                            Some(kind) => {
                                proof {
                                    assert(reachable_upstream(links@, sid, id));
                                    assert(entity_index_by_id(entities@, id) == Some(i as int));
                                    assert(*e == entities@[i as int]);
                                    assert(is_bridge_entity(*e));
                                }
                                proof {
                                    let ss = s as int;
                                    assert(sid == entities@[ss].id);
                                    assert(reachable_upstream(links@, entities@[ss].id, id));
                                    assert(id != entities@[ss].id);
                                    assert(entity_index_by_id(entities@, id) == Some(i as int));
                                    assert(*e == entities@[i as int]);
                                    assert(spec_kind_from_subdev_name(e.name@) == Some(kind));
                                    assert(is_bridge_entity(*e));
                                    assert(entity_index_by_device(entities@, video_device) == Some(ss));
                                    assert(bridge_via(entities@, links@, video_device, id, *e, kind));
                                    assert(bridge_found(entities@, links@, video_device, *e, kind));
                                    lemma_entity_index_by_id(entities@, id);
                                    assert(e.id == id);
                                    assert(head >= 1) by {
                                        if head == 0 {
                                            assert(order@[0] == sid);
                                        }
                                    }
                                    assert(bfs_visits(ls, sid, head as nat, id));
                                    assert forall|j: nat, u: u32|
                                        1 <= j < head as nat && #[trigger] bfs_visits(ls, sid, j, u) implies !bridge_at(
                                        entities@,
                                        u,
                                    ) by {
                                        assert(bfs_visits(ls, sid, j, order@[j as int]));
                                        assert(u == order@[j as int]);
                                        assert(order@[j as int] != sid) by {
                                            assert(order@[0] == sid);
                                        }
                                    }
                                    assert(first_bridge_in_bfs(entities@, links@, video_device, *e));
                                }
                                return Some((e, kind));
                            },
                            None => {},
                        }
                    }
                },
                None => {},
            }
        }
        let neighbors = upstream_of(links, id);
        let ghost before = order@;
        proof {
            assert(strictly_sorted(neighbors@) && forall|x: u32| #[trigger] neighbors@.contains(x) <==> upstream_step(ls, id, x));
            let ul = upstream_list(ls, id);
            assert(strictly_sorted(ul) && forall|x: u32| #[trigger] ul.contains(x) <==> upstream_step(ls, id, x));
            lemma_sorted_same_members(neighbors@, ul);
            assert(neighbors@.take(0) =~= Seq::<u32>::empty());
        }
        let mut n: usize = 0;
        while n < neighbors.len()
            invariant
                ls == links@,
                bound == ls.map_values(|l: MediaGraphLink| l.source).push(sid),
                head < before.len(),
                before[head as int] == id,
                order@.len() >= before.len(),
                order@.take(before.len() as int) == before,
                n <= neighbors@.len(),
                strictly_sorted(neighbors@),
                forall|x: u32| neighbors@.contains(x) <==> upstream_step(ls, id, x),
                order@.no_duplicates(),
                forall|k: int| 0 <= k < order@.len() ==> bound.contains(#[trigger] order@[k]),
                forall|k: int| 0 <= k < order@.len() ==> reachable_upstream(ls, sid, #[trigger] order@[k]),
                forall|j: int| 0 <= j < n ==> order@.contains(#[trigger] neighbors@[j]),
                reachable_upstream(ls, sid, id),
                order@ == append_new(before, neighbors@.take(n as int)),
            decreases neighbors.len() - n,
        {
            let x = neighbors[n];
            assert(neighbors@.contains(x));
            let ghost acc = order@;
            assert(neighbors@.take(n + 1).drop_last() =~= neighbors@.take(n as int));
            assert(neighbors@.take(n + 1).last() == x);
            assert(upstream_step(ls, id, x));
            let mut seen = false;
            let mut q: usize = 0;
            while q < order.len()
                invariant
                    q <= order@.len(),
                    seen == exists|j: int| 0 <= j < q && order@[j] == x,
                decreases order.len() - q,
            {
                if order[q] == x {
                    seen = true;
                }
                q = q + 1;
            }
            if !seen {
                let ghost pre = order@;
                order.push(x);
                proof {
                    lemma_path_extend(ls, sid, id, x);
                    let kk = choose|kk: int| 0 <= kk < ls.len() && (#[trigger] ls[kk]).sink == id && ls[kk].source == x;
                    assert(ls.map_values(|l: MediaGraphLink| l.source)[kk] == x);
                    assert(bound[kk] == x);
                    assert forall|a: int, b: int| 0 <= a < b < order@.len() implies order@[a] != order@[b] by {
                        if b == order@.len() - 1 {
                            assert(order@[a] == pre[a]);
                        } else {
                            assert(order@[a] == pre[a] && order@[b] == pre[b]);
                        }
                    }
                    assert forall|k: int| 0 <= k < order@.len() implies bound.contains(#[trigger] order@[k]) by {
                        if k < pre.len() {
                            assert(order@[k] == pre[k]);
                        }
                    }
                    assert forall|k: int| 0 <= k < order@.len() implies reachable_upstream(ls, sid, #[trigger] order@[k]) by {
                        if k < pre.len() {
                            assert(order@[k] == pre[k]);
                        }
                    }
                    assert forall|j: int| 0 <= j <= n implies order@.contains(#[trigger] neighbors@[j]) by {
                        if j < n {
                            let m = choose|m: int| 0 <= m < pre.len() && pre[m] == neighbors@[j];
                            assert(order@[m] == neighbors@[j]);
                        } else {
                            assert(order@[order@.len() - 1] == x);
                        }
                    }
                    assert(order@.take(before.len() as int) =~= before);
                }
            } else {
                proof {
                    let j = choose|j: int| 0 <= j < q && order@[j] == x;
                    assert(order@.contains(x));
                }
            }
            n = n + 1;
        }
        proof {
            assert forall|k: int, x: u32|
                0 <= k < head + 1 && #[trigger] upstream_step(ls, order@[k], x) implies order@.contains(x) by {
                assert(order@[k] == before[k]);
                if k < head {
                    assert(before.contains(x));
                    let m = choose|m: int| 0 <= m < before.len() && before[m] == x;
                    assert(order@[m] == x);
                } else {
                    assert(neighbors@.contains(x));
                    let j = choose|j: int| 0 <= j < neighbors@.len() && neighbors@[j] == x;
                    assert(order@.contains(neighbors@[j]));
                }
            }
            assert(neighbors@.take(neighbors@.len() as int) =~= neighbors@);
            assert(neighbors@ == upstream_list(ls, id));
            assert(before == bfs_state(ls, sid, head as nat));
            assert(order@ == bfs_state(ls, sid, (head + 1) as nat));
            assert forall|j: nat| j < head + 1 implies #[trigger] bfs_visits(ls, sid, j, order@[j as int]) by {
                assert(order@[j as int] == before[j as int]);
                if j < head {
                    assert(bfs_visits(ls, sid, j, before[j as int]));
                }
            }
            assert forall|k: int| 0 <= k < head + 1 && #[trigger] order@[k] != sid implies !bridge_at(entities@, order@[k]) by {
                assert(order@[k] == before[k]);
                if k == head {
                    lemma_entity_index_by_id(entities@, id);
                }
            }
        }
        head = head + 1;
    }
    proof {
        assert forall|v: u32| v != sid && #[trigger] reachable_upstream(ls, sid, v) implies !bridge_at(
            entities@,
            v,
        ) by {
            assert(order@.contains(sid)) by {
                assert(order@[0] == sid);
            }
            assert forall|u: u32, x: u32| order@.contains(u) && upstream_step(ls, u, x) implies order@.contains(x) by {
                let k = choose|k: int| 0 <= k < order@.len() && order@[k] == u;
                assert(upstream_step(ls, order@[k], x));
            }
            lemma_closed_holds_reachable(ls, order@, sid, v);
            let k = choose|k: int| 0 <= k < order@.len() && order@[k] == v;
            assert(order@[k] != sid);
        }
        assert(forall|v: u32| v != sid && #[trigger] reachable_upstream(links@, sid, v) ==> !bridge_at(entities@, v));
        assert(no_bridge_connected(entities@, links@, video_device));
    }
    None
}

/// The bridge feeding the capture node `video_device`, searched in each
/// media controller in turn: the first controller in which one is found, the
/// path of that controller, and the bridge.
pub fn connected_bridge_in_media_graphs<'a>(
    graphs: &'a [MediaGraph],
    video_device: (u32, u32),
) -> (r: Option<(&'a str, &'a MediaGraphEntity, CsiBridgeKind)>)
    ensures
        r matches Some(res) ==> exists|g: int|
            0 <= g < graphs@.len() && res.0@ == (#[trigger] graphs@[g]).path@ && bridge_found(
                graphs@[g].entities@,
                graphs@[g].links@,
                video_device,
                *res.1,
                res.2,
            ) && forall|h: int|
                0 <= h < g ==> no_bridge_connected(
                    #[trigger] graphs@[h].entities@,
                    graphs@[h].links@,
                    video_device,
                ),
        r is None ==> forall|h: int|
            0 <= h < graphs@.len() ==> no_bridge_connected(
                #[trigger] graphs@[h].entities@,
                graphs@[h].links@,
                video_device,
            ),
{
    let mut g: usize = 0;
    while g < graphs.len()
        invariant
            g <= graphs@.len(),
            forall|h: int|
                0 <= h < g ==> no_bridge_connected(
                    #[trigger] graphs@[h].entities@,
                    graphs@[h].links@,
                    video_device,
                ),
        decreases graphs.len() - g,
    {
        let graph = &graphs[g];
        match connected_bridge_entity(graph.entities.as_slice(), graph.links.as_slice(), video_device) {
            Some((entity, kind)) => {
                let path = graph.path.as_str();
                assert(graphs@[g as int].path@ == path@);
                return Some((path, entity, kind));
            },
            None => {},
        }
        g = g + 1;
    }
    None
}

/// Some graph has an entity with these device numbers.
pub open spec fn graphs_contain_device(graphs: Seq<MediaGraph>, dev: (u32, u32)) -> bool {
    exists|g: int, k: int|
        0 <= g < graphs.len() && 0 <= k < graphs[g].entities@.len() && (
        #[trigger] graphs[g].entities@[k]).major == dev.0 && graphs[g].entities@[k].minor == dev.1
}

/// Whether some media graph contains the capture node.
pub fn graph_contains_video(graphs: &[MediaGraph], dev: (u32, u32)) -> (r: bool)
    ensures
        r == graphs_contain_device(graphs@, dev),
{
    let mut g: usize = 0;
    while g < graphs.len()
        invariant
            g <= graphs@.len(),
            forall|h: int, k: int|
                0 <= h < g && 0 <= k < graphs@[h].entities@.len() ==> !((
                #[trigger] graphs@[h].entities@[k]).major == dev.0 && graphs@[h].entities@[k].minor
                    == dev.1),
        decreases graphs.len() - g,
    {
        let entities = &graphs[g].entities;
        let mut k: usize = 0;
        while k < entities.len()
            invariant
                g < graphs@.len(),
                entities@ == graphs@[g as int].entities@,
                k <= entities@.len(),
                forall|j: int|
                    0 <= j < k ==> !((#[trigger] entities@[j]).major == dev.0 && entities@[j].minor
                        == dev.1),
            decreases entities.len() - k,
        {
            if entities[k].major == dev.0 && entities[k].minor == dev.1 {
                assert(graphs@[g as int].entities@[k as int] == entities@[k as int]);
                return true;
            }
            k = k + 1;
        }
        g = g + 1;
    }
    false
}

/// Whether a device node name is a V4L2 subdevice (`v4l-subdev*`).
pub fn is_subdev_node_name(name: &str) -> (r: bool)
    ensures
        r == seq_starts_with(name@, "v4l-subdev"@),
{
    str_starts_with(name, "v4l-subdev")
}

/// The link is enabled (bit 0).
pub const MEDIA_LNK_FL_ENABLED: u32 = 1;

/// The link-type field (bits 28..31).
pub const MEDIA_LNK_FL_LINK_TYPE: u32 = 0xf000_0000;

/// The link type of a data link.
pub const MEDIA_LNK_FL_DATA_LINK: u32 = 0;

/// A link as the kernel reports it: source entity, sink entity and flags.
#[derive(Debug, Clone, Copy, PartialEq, Eq, Structural)]
pub struct RawMediaLink {
    pub source: u32,
    pub sink: u32,
    pub flags: u32,
}

/// An enabled data link.
pub open spec fn is_enabled_data_link(l: RawMediaLink) -> bool {
    l.flags & MEDIA_LNK_FL_ENABLED != 0 && l.flags & MEDIA_LNK_FL_LINK_TYPE == MEDIA_LNK_FL_DATA_LINK
}

/// `a` comes before `b` ordered by source, then sink.
pub open spec fn link_lt(a: MediaGraphLink, b: MediaGraphLink) -> bool {
    a.source < b.source || (a.source == b.source && a.sink < b.sink)
}

/// The enabled data links of a graph, each pair once, ordered by source
/// then sink.
pub fn collect_data_links(raw: &[RawMediaLink]) -> (r: Vec<MediaGraphLink>)
    ensures
        forall|i: int, j: int| 0 <= i < j < r@.len() ==> link_lt(r@[i], r@[j]),
        forall|l: MediaGraphLink|
            r@.contains(l) <==> exists|k: int|
                0 <= k < raw@.len() && is_enabled_data_link(#[trigger] raw@[k]) && raw@[k].source
                    == l.source && raw@[k].sink == l.sink,
{
    let mut r: Vec<MediaGraphLink> = Vec::new();
    let mut k: usize = 0;
    while k < raw.len()
        invariant
            k <= raw@.len(),
            forall|i: int, j: int| 0 <= i < j < r@.len() ==> link_lt(r@[i], r@[j]),
            forall|l: MediaGraphLink|
                r@.contains(l) <==> exists|m: int|
                    0 <= m < k && is_enabled_data_link(#[trigger] raw@[m]) && raw@[m].source
                        == l.source && raw@[m].sink == l.sink,
        decreases raw.len() - k,
    {
        let rl = raw[k];
        let ghost before = r@;
        let ghost k0 = k as int;
        let enabled = rl.flags & MEDIA_LNK_FL_ENABLED != 0 && rl.flags & MEDIA_LNK_FL_LINK_TYPE
            == MEDIA_LNK_FL_DATA_LINK;
        if enabled {
            let x = MediaGraphLink { source: rl.source, sink: rl.sink };
            let mut pos: usize = 0;
            while pos < r.len() && (r[pos].source < x.source || (r[pos].source == x.source
                && r[pos].sink < x.sink))
                invariant
                    pos <= r@.len(),
                    r@ == before,
                    forall|j: int| 0 <= j < pos ==> link_lt(r@[j], x),
                decreases r.len() - pos,
            {
                pos = pos + 1;
            }
            if pos < r.len() && r[pos].source == x.source && r[pos].sink == x.sink {
            } else {
                r.insert(pos, x);
                assert(r@ =~= before.take(pos as int) + seq![x] + before.skip(pos as int));
                assert forall|i: int, j: int| 0 <= i < j < r@.len() implies link_lt(r@[i], r@[j]) by {
                    if j < pos {
                    } else if i < pos && j == pos {
                    } else if i < pos {
                        assert(r@[j] == before[j - 1]);
                    } else if i == pos {
                        assert(r@[j] == before[j - 1]);
                        assert(!link_lt(before[pos as int], x));
                        assert(before[pos as int] != x);
                        if j - 1 > pos {
                            assert(link_lt(before[pos as int], before[j - 1]));
                        }
                    } else {
                        assert(r@[i] == before[i - 1] && r@[j] == before[j - 1]);
                    }
                }
            }
            assert forall|y: MediaGraphLink| r@.contains(y) <==> (before.contains(y) || y == x) by {
                if r@.contains(y) {
                    let i = choose|i: int| 0 <= i < r@.len() && r@[i] == y;
                    if r@.len() > before.len() {
                        if i < pos {
                            assert(before[i] == y);
                        } else if i > pos {
                            assert(before[i - 1] == y);
                        }
                    } else {
                        assert(before[i] == y);
                    }
                }
                if before.contains(y) {
                    let i = choose|i: int| 0 <= i < before.len() && before[i] == y;
                    if r@.len() > before.len() {
                        if i < pos {
                            assert(r@[i] == y);
                        } else {
                            assert(r@[i + 1] == y);
                        }
                    } else {
                        assert(r@[i] == y);
                    }
                }
                if y == x {
                    if r@.len() > before.len() {
                        assert(r@[pos as int] == x);
                    } else {
                        assert(r@[pos as int] == x);
                    }
                }
            }
        }
        assert(enabled == is_enabled_data_link(rl));
        k = k + 1;
        assert forall|l: MediaGraphLink|
            r@.contains(l) <==> exists|m: int|
                0 <= m < k && is_enabled_data_link(#[trigger] raw@[m]) && raw@[m].source == l.source
                    && raw@[m].sink == l.sink by {
            assert(raw@[k0] == rl);
            assert(before.contains(l) <==> exists|m: int|
                0 <= m < k0 && is_enabled_data_link(#[trigger] raw@[m]) && raw@[m].source == l.source
                    && raw@[m].sink == l.sink);
            if exists|m: int|
                0 <= m < k && is_enabled_data_link(#[trigger] raw@[m]) && raw@[m].source == l.source
                    && raw@[m].sink == l.sink {
                let m = choose|m: int|
                    0 <= m < k && is_enabled_data_link(#[trigger] raw@[m]) && raw@[m].source
                        == l.source && raw@[m].sink == l.sink;
                if m < k0 {
                    assert(before.contains(l));
                }
            }
            if r@.contains(l) && !before.contains(l) {
                assert(0 <= k0 < k && is_enabled_data_link(raw@[k0]) && raw@[k0].source == l.source
                    && raw@[k0].sink == l.sink);
            }
        }
    }
    r
}

/// The most entities a media graph is read with.
pub const MAX_MEDIA_ENTITIES: usize = 4096;

/// The check made after each entity the kernel reports: enumeration must
/// move to a new id and stay under the entity limit.
pub fn check_entity_advance(previous_id: u32, new_id: u32, entities_so_far: usize) -> (r: Result<
    (),
    String,
>)
    ensures
        r is Ok <==> (new_id != previous_id && entities_so_far < MAX_MEDIA_ENTITIES),
        r matches Err(e) ==> e@ == "media entity enumeration did not advance"@,
{
    if new_id == previous_id || entities_so_far >= MAX_MEDIA_ENTITIES {
        return Err(crate::text::string_of("media entity enumeration did not advance"));
    }
    Ok(())
}

/// What `String::from_utf8_lossy` makes of the bytes.
pub uninterp spec fn utf8_lossy_decode(b: Seq<u8>) -> Seq<char>;

/// Calls `String::from_utf8_lossy`, which decodes UTF-8 and replaces each
/// invalid sequence with U+FFFD; the result is named, not spelled out.
#[verifier::external_body]
fn utf8_lossy(bytes: &[u8]) -> (r: String)
    ensures
        r@ == utf8_lossy_decode(bytes@),
{
    String::from_utf8_lossy(bytes).into_owned()
}

/// Index of the first zero byte, or the length.
pub open spec fn first_nul(b: Seq<u8>, i: int) -> int
    decreases b.len() - i,
{
    if i < 0 || i >= b.len() {
        b.len() as int
    } else if b[i] == 0 {
        i
    } else {
        first_nul(b, i + 1)
    }
}

proof fn lemma_first_nul(b: Seq<u8>, i: int)
    requires
        0 <= i <= b.len(),
    ensures
        i <= first_nul(b, i) <= b.len(),
    decreases b.len() - i,
{
    if i < b.len() && b[i] != 0 {
        lemma_first_nul(b, i + 1);
    }
}

/// An entity's name from its fixed-size, NUL-padded name field.
pub fn entity_name(raw: &[u8]) -> (r: String)
    ensures
        r@ == utf8_lossy_decode(raw@.take(first_nul(raw@, 0))),
{
    proof {
        lemma_first_nul(raw@, 0);
    }
    let mut n: usize = 0;
    while n < raw.len() && raw[n] != 0
        invariant
            n <= raw@.len(),
            first_nul(raw@, n as int) == first_nul(raw@, 0),
        decreases raw.len() - n,
    {
        n = n + 1;
    }
    let name = &raw[0..n];
    assert(name@ =~= raw@.take(n as int));
    utf8_lossy(name)
}

} // verus!
