//! Encoder registry: which encoders exist for each output format, best first.
use vstd::prelude::*;
use crate::text::{
    all_ascii, lower_ascii, seq_contains, str_contains, str_eq, to_lowercase, unicode_lowercase,
};

verus! {

/// Video encoder output format.
#[derive(Debug, Clone, Copy, PartialEq, Eq, Hash, Structural)]
pub enum VideoEncoderType {
    /// H.264/AVC
    H264,
    /// H.265/HEVC
    H265,
    /// VP8
    VP8,
    /// VP9
    VP9,
}

/// The compressed formats that the FFmpeg encoder probe reports.
#[derive(Debug, Clone, Copy, PartialEq, Eq, Hash, Structural)]
pub enum DataFormat {
    H264,
    H265,
    VP8,
    VP9,
    AV1,
}

/// The four output formats, in the order they are offered.
pub open spec fn spec_ordered() -> Seq<VideoEncoderType> {
    seq![VideoEncoderType::H264, VideoEncoderType::H265, VideoEncoderType::VP8, VideoEncoderType::VP9]
}

/// The encoder format of a probed data format; AV1 has none.
pub open spec fn spec_from_data_format(f: DataFormat) -> Option<VideoEncoderType> {
    match f {
        DataFormat::H264 => Some(VideoEncoderType::H264),
        DataFormat::H265 => Some(VideoEncoderType::H265),
        DataFormat::VP8 => Some(VideoEncoderType::VP8),
        DataFormat::VP9 => Some(VideoEncoderType::VP9),
        DataFormat::AV1 => None,
    }
}

/// The probe's data format for an encoder format.
pub open spec fn spec_to_data_format(f: VideoEncoderType) -> DataFormat {
    match f {
        VideoEncoderType::H264 => DataFormat::H264,
        VideoEncoderType::H265 => DataFormat::H265,
        VideoEncoderType::VP8 => DataFormat::VP8,
        VideoEncoderType::VP9 => DataFormat::VP9,
    }
}

pub open spec fn spec_codec_prefix(f: VideoEncoderType) -> Seq<char> {
    match f {
        VideoEncoderType::H264 => "h264"@,
        VideoEncoderType::H265 => "hevc"@,
        VideoEncoderType::VP8 => "vp8"@,
        VideoEncoderType::VP9 => "vp9"@,
    }
}

pub open spec fn spec_encoder_type_name(f: VideoEncoderType) -> Seq<char> {
    match f {
        VideoEncoderType::H264 => "H.264"@,
        VideoEncoderType::H265 => "H.265/HEVC"@,
        VideoEncoderType::VP8 => "VP8"@,
        VideoEncoderType::VP9 => "VP9"@,
    }
}

impl VideoEncoderType {
    /// H264, H265, VP8, VP9.
    pub fn ordered() -> (r: [VideoEncoderType; 4])
        ensures
            r@ == spec_ordered(),
    {
        let r = [VideoEncoderType::H264, VideoEncoderType::H265, VideoEncoderType::VP8, VideoEncoderType::VP9];
        assert(r@ =~= spec_ordered());
        r
    }

    /// The probe's data format for this encoder format.
    pub fn to_data_format(&self) -> (r: DataFormat)
        ensures
            r == spec_to_data_format(*self),
    {
        match self {
            VideoEncoderType::H264 => DataFormat::H264,
            VideoEncoderType::H265 => DataFormat::H265,
            VideoEncoderType::VP8 => DataFormat::VP8,
            VideoEncoderType::VP9 => DataFormat::VP9,
        }
    }

    /// The encoder format of a probed data format.
    pub fn from_data_format(format: DataFormat) -> (r: Option<VideoEncoderType>)
        ensures
            r == spec_from_data_format(format),
    {
        match format {
            DataFormat::H264 => Some(VideoEncoderType::H264),
            DataFormat::H265 => Some(VideoEncoderType::H265),
            DataFormat::VP8 => Some(VideoEncoderType::VP8),
            DataFormat::VP9 => Some(VideoEncoderType::VP9),
            DataFormat::AV1 => None,
        }
    }

    /// FFmpeg codec name prefix.
    pub fn codec_prefix(&self) -> (r: &'static str)
        ensures
            r@ == spec_codec_prefix(*self),
    {
        match self {
            VideoEncoderType::H264 => "h264",
            VideoEncoderType::H265 => "hevc",
            VideoEncoderType::VP8 => "vp8",
            VideoEncoderType::VP9 => "vp9",
        }
    }

    /// Human-readable name.
    pub fn display_name(&self) -> (r: &'static str)
        ensures
            r@ == spec_encoder_type_name(*self),
    {
        match self {
            VideoEncoderType::H264 => "H.264",
            VideoEncoderType::H265 => "H.265/HEVC",
            VideoEncoderType::VP8 => "VP8",
            VideoEncoderType::VP9 => "VP9",
        }
    }
}

/// Encoder backend type.
#[derive(Debug, Clone, Copy, PartialEq, Eq, Hash, Structural)]
pub enum EncoderBackend {
    /// Intel/AMD/NVIDIA VAAPI (Linux)
    Vaapi,
    /// NVIDIA NVENC
    Nvenc,
    /// Intel Quick Sync Video
    Qsv,
    /// AMD AMF
    Amf,
    /// Rockchip MPP
    Rkmpp,
    /// V4L2 Memory-to-Memory (ARM)
    V4l2m2m,
    /// Software encoding (libx264, libx265, libvpx)
    Software,
}

/// The backend that an FFmpeg codec name belongs to: the first of these
/// markers found in it, else software.
pub open spec fn spec_backend_from_codec_name(n: Seq<char>) -> EncoderBackend {
    if seq_contains(n, "vaapi"@) {
        EncoderBackend::Vaapi
    } else if seq_contains(n, "nvenc"@) {
        EncoderBackend::Nvenc
    } else if seq_contains(n, "qsv"@) {
        EncoderBackend::Qsv
    } else if seq_contains(n, "amf"@) {
        EncoderBackend::Amf
    } else if seq_contains(n, "rkmpp"@) {
        EncoderBackend::Rkmpp
    } else if seq_contains(n, "v4l2m2m"@) {
        EncoderBackend::V4l2m2m
    } else {
        EncoderBackend::Software
    }
}

pub open spec fn spec_is_hardware(b: EncoderBackend) -> bool {
    b != EncoderBackend::Software
}

pub open spec fn spec_backend_name(b: EncoderBackend) -> Seq<char> {
    match b {
        EncoderBackend::Vaapi => "VAAPI"@,
        EncoderBackend::Nvenc => "NVENC"@,
        EncoderBackend::Qsv => "QSV"@,
        EncoderBackend::Amf => "AMF"@,
        EncoderBackend::Rkmpp => "RKMPP"@,
        EncoderBackend::V4l2m2m => "V4L2 M2M"@,
        EncoderBackend::Software => "Software"@,
    }
}

/// The backend named by a lower-case spelling.
pub open spec fn spec_backend_from_lower(l: Seq<char>) -> Option<EncoderBackend> {
    if l == "vaapi"@ {
        Some(EncoderBackend::Vaapi)
    } else if l == "nvenc"@ {
        Some(EncoderBackend::Nvenc)
    } else if l == "qsv"@ {
        Some(EncoderBackend::Qsv)
    } else if l == "amf"@ {
        Some(EncoderBackend::Amf)
    } else if l == "rkmpp"@ {
        Some(EncoderBackend::Rkmpp)
    } else if l == "v4l2m2m"@ || l == "v4l2"@ {
        Some(EncoderBackend::V4l2m2m)
    } else if l == "software"@ || l == "cpu"@ {
        Some(EncoderBackend::Software)
    } else {
        None
    }
}

/// The lower-case name of a hardware backend, as it appears inside FFmpeg
/// codec names and as a configuration names it; empty for software.
pub open spec fn backend_marker(b: EncoderBackend) -> Seq<char> {
    match b {
        EncoderBackend::Vaapi => "vaapi"@,
        EncoderBackend::Nvenc => "nvenc"@,
        EncoderBackend::Qsv => "qsv"@,
        EncoderBackend::Amf => "amf"@,
        EncoderBackend::Rkmpp => "rkmpp"@,
        EncoderBackend::V4l2m2m => "v4l2m2m"@,
        EncoderBackend::Software => Seq::empty(),
    }
}

/// The order in which codec-name markers are looked for: VAAPI first, then
/// NVENC, QSV, AMF, RKMPP and V4L2 M2M; software comes last.
pub open spec fn backend_rank(b: EncoderBackend) -> int {
    match b {
        EncoderBackend::Vaapi => 0,
        EncoderBackend::Nvenc => 1,
        EncoderBackend::Qsv => 2,
        EncoderBackend::Amf => 3,
        EncoderBackend::Rkmpp => 4,
        EncoderBackend::V4l2m2m => 5,
        EncoderBackend::Software => 6,
    }
}

/// Where a codec name holds several markers, the first in rank order wins:
/// the backend found holds its marker and no marker of a backend ranked
/// before it; a name holding no marker is software.
pub proof fn lemma_backend_detection_first_marker(n: Seq<char>, b: EncoderBackend)
    ensures
        backend_rank(b) < backend_rank(spec_backend_from_codec_name(n)) ==> !seq_contains(
            n,
            backend_marker(b),
        ),
        spec_backend_from_codec_name(n) == EncoderBackend::Software ==> (b
            != EncoderBackend::Software ==> !seq_contains(n, backend_marker(b))),
{
}

/// Backend detection agrees with the names of the backends:
/// - the marker of each hardware backend is the name a configuration gives it;
/// - a codec name that holds any hardware backend's marker is never taken
///   for software, and the backend found is a hardware one;
/// - a hardware backend is found only in a name holding its marker.
pub proof fn lemma_backend_detection_follows_markers(n: Seq<char>, b: EncoderBackend)
    ensures
        b != EncoderBackend::Software ==> spec_backend_from_lower(backend_marker(b)) == Some(b),
        b != EncoderBackend::Software && seq_contains(n, backend_marker(b)) ==> {
            &&& spec_backend_from_codec_name(n) != EncoderBackend::Software
            &&& spec_is_hardware(spec_backend_from_codec_name(n))
        },
        spec_backend_from_codec_name(n) != EncoderBackend::Software ==> seq_contains(
            n,
            backend_marker(spec_backend_from_codec_name(n)),
        ),
{
    reveal_strlit("vaapi");
    reveal_strlit("nvenc");
    reveal_strlit("qsv");
    reveal_strlit("amf");
    reveal_strlit("rkmpp");
    reveal_strlit("v4l2m2m");
    reveal_strlit("v4l2");
    reveal_strlit("software");
    reveal_strlit("cpu");
    let m = backend_marker(b);
    if b != EncoderBackend::Software {
        match b {
            EncoderBackend::Vaapi => {
                assert(m.len() == 5 && m[0] == 'v');
            },
            EncoderBackend::Nvenc => {
                assert(m != "vaapi"@) by { assert(m[0] != "vaapi"@[0]); }
            },
            EncoderBackend::Qsv => {
                assert(m != "vaapi"@) by { assert(m[0] != "vaapi"@[0]); }
                assert(m != "nvenc"@) by { assert(m[0] != "nvenc"@[0]); }
            },
            EncoderBackend::Amf => {
                assert(m != "vaapi"@) by { assert(m[0] != "vaapi"@[0]); }
                assert(m != "nvenc"@) by { assert(m[0] != "nvenc"@[0]); }
                assert(m != "qsv"@) by { assert(m[0] != "qsv"@[0]); }
            },
            EncoderBackend::Rkmpp => {
                assert(m != "vaapi"@) by { assert(m[0] != "vaapi"@[0]); }
                assert(m != "nvenc"@) by { assert(m[0] != "nvenc"@[0]); }
                assert(m != "qsv"@) by { assert(m[0] != "qsv"@[0]); }
                assert(m != "amf"@) by { assert(m[0] != "amf"@[0]); }
            },
            EncoderBackend::V4l2m2m => {
                assert(m != "vaapi"@) by { assert(m[1] != "vaapi"@[1]); }
                assert(m != "nvenc"@) by { assert(m[0] != "nvenc"@[0]); }
                assert(m != "qsv"@) by { assert(m[0] != "qsv"@[0]); }
                assert(m != "amf"@) by { assert(m[0] != "amf"@[0]); }
                assert(m != "rkmpp"@) by { assert(m[0] != "rkmpp"@[0]); }
            },
            EncoderBackend::Software => {},
        }
    }
}

impl EncoderBackend {
    /// The backend an FFmpeg codec name belongs to.
    pub fn from_codec_name(name: &str) -> (r: EncoderBackend)
        ensures
            r == spec_backend_from_codec_name(name@),
    {
        if str_contains(name, "vaapi") {
            EncoderBackend::Vaapi
        } else if str_contains(name, "nvenc") {
            EncoderBackend::Nvenc
        } else if str_contains(name, "qsv") {
            EncoderBackend::Qsv
        } else if str_contains(name, "amf") {
            EncoderBackend::Amf
        } else if str_contains(name, "rkmpp") {
            EncoderBackend::Rkmpp
        } else if str_contains(name, "v4l2m2m") {
            EncoderBackend::V4l2m2m
        } else {
            EncoderBackend::Software
        }
    }

    /// Every backend but software is hardware.
    pub fn is_hardware(&self) -> (r: bool)
        ensures
            r == spec_is_hardware(*self),
    {
        !matches!(self, EncoderBackend::Software)
    }

    /// Human-readable name.
    pub fn display_name(&self) -> (r: &'static str)
        ensures
            r@ == spec_backend_name(*self),
    {
        match self {
            EncoderBackend::Vaapi => "VAAPI",
            EncoderBackend::Nvenc => "NVENC",
            EncoderBackend::Qsv => "QSV",
            EncoderBackend::Amf => "AMF",
            EncoderBackend::Rkmpp => "RKMPP",
            EncoderBackend::V4l2m2m => "V4L2 M2M",
            EncoderBackend::Software => "Software",
        }
    }

    /// Parses a backend name, case-insensitively.
    pub fn from_str(s: &str) -> (r: Option<EncoderBackend>)
        ensures
            r == spec_backend_from_lower(unicode_lowercase(s@)),
            all_ascii(s@) ==> r == spec_backend_from_lower(lower_ascii(s@)),
    {
        let lower = to_lowercase(s);
        let l = lower.as_str();
        if str_eq(l, "vaapi") {
            Some(EncoderBackend::Vaapi)
        } else if str_eq(l, "nvenc") {
            Some(EncoderBackend::Nvenc)
        } else if str_eq(l, "qsv") {
            Some(EncoderBackend::Qsv)
        } else if str_eq(l, "amf") {
            Some(EncoderBackend::Amf)
        } else if str_eq(l, "rkmpp") {
            Some(EncoderBackend::Rkmpp)
        } else if str_eq(l, "v4l2m2m") || str_eq(l, "v4l2") {
            Some(EncoderBackend::V4l2m2m)
        } else if str_eq(l, "software") || str_eq(l, "cpu") {
            Some(EncoderBackend::Software)
        } else {
            None
        }
    }
}

/// One encoder that the FFmpeg probe reported: its codec name, the format it
/// produces and its priority (lower is better).
#[derive(Debug, Clone)]
pub struct CodecInfo {
    pub name: String,
    pub format: DataFormat,
    pub priority: i32,
}

/// Information about an available encoder.
#[derive(Debug, Clone)]
pub struct AvailableEncoder {
    /// Encoder format type
    pub format: VideoEncoderType,
    /// FFmpeg codec name (e.g., "h264_vaapi", "hevc_nvenc")
    pub codec_name: String,
    /// Backend type
    pub backend: EncoderBackend,
    /// Priority (lower is better)
    pub priority: i32,
    /// Whether this is a hardware encoder
    pub is_hardware: bool,
}

/// The registry entry for a probed codec, when its format is one we encode.
pub open spec fn spec_available_from(info: CodecInfo) -> Option<AvailableEncoder> {
    match spec_from_data_format(info.format) {
        Some(f) => Some(
            AvailableEncoder {
                format: f,
                codec_name: info.name,
                backend: spec_backend_from_codec_name(info.name@),
                priority: info.priority,
                is_hardware: spec_is_hardware(spec_backend_from_codec_name(info.name@)),
            },
        ),
        None => None,
    }
}

impl AvailableEncoder {
    /// The registry entry for a probed codec; `None` for formats we do not encode.
    pub fn from_codec_info(info: &CodecInfo) -> (r: Option<AvailableEncoder>)
        ensures
            r == spec_available_from(*info),
    {
        let format = match VideoEncoderType::from_data_format(info.format) {
            Some(f) => f,
            None => return None,
        };
        let backend = EncoderBackend::from_codec_name(info.name.as_str());
        let is_hardware = backend.is_hardware();
        Some(
            AvailableEncoder {
                format,
                codec_name: info.name.clone(),
                backend,
                priority: info.priority,
                is_hardware,
            },
        )
    }
}

// ---------------------------------------------------------------------------
// Ordering by priority
// ---------------------------------------------------------------------------

/// `e` placed after every leading entry whose priority is not greater than its own.
pub open spec fn insert_by_priority(s: Seq<AvailableEncoder>, e: AvailableEncoder) -> Seq<
    AvailableEncoder,
>
    decreases s.len(),
{
    if s.len() == 0 {
        seq![e]
    } else if s[0].priority > e.priority {
        seq![e] + s
    } else {
        seq![s[0]] + insert_by_priority(s.drop_first(), e)
    }
}

/// Stable sort by priority, lowest first: each entry in turn is inserted
/// after all earlier entries of equal or lower priority.
pub open spec fn sort_by_priority(s: Seq<AvailableEncoder>) -> Seq<AvailableEncoder>
    decreases s.len(),
{
    if s.len() == 0 {
        s
    } else {
        insert_by_priority(sort_by_priority(s.drop_last()), s.last())
    }
}

/// Priorities never decrease along the sequence.
pub open spec fn priority_sorted(s: Seq<AvailableEncoder>) -> bool {
    forall|i: int, j: int| 0 <= i <= j < s.len() ==> s[i].priority <= s[j].priority
}

/// Index of the first entry whose priority exceeds `p`; `s.len()` when none does.
pub open spec fn first_above(s: Seq<AvailableEncoder>, p: i32) -> int
    decreases s.len(),
{
    if s.len() == 0 {
        0
    } else if s[0].priority > p {
        0
    } else {
        1 + first_above(s.drop_first(), p)
    }
}

proof fn lemma_insert_at(s: Seq<AvailableEncoder>, e: AvailableEncoder)
    ensures
        0 <= first_above(s, e.priority) <= s.len(),
        insert_by_priority(s, e) == s.take(first_above(s, e.priority)) + seq![e] + s.skip(
            first_above(s, e.priority),
        ),
        forall|k: int| 0 <= k < first_above(s, e.priority) ==> s[k].priority <= e.priority,
        first_above(s, e.priority) < s.len() ==> s[first_above(s, e.priority)].priority
            > e.priority,
    decreases s.len(),
{
    if s.len() == 0 {
        assert(s.take(0) + seq![e] + s.skip(0) =~= seq![e]);
    } else if s[0].priority > e.priority {
        assert(s.take(0) + seq![e] + s.skip(0) =~= seq![e] + s);
    } else {
        let t = s.drop_first();
        lemma_insert_at(t, e);
        let i = first_above(t, e.priority);
        assert(s.take(i + 1) + seq![e] + s.skip(i + 1) =~= seq![s[0]] + (t.take(i) + seq![e]
            + t.skip(i)));
        assert forall|k: int| 0 <= k < i + 1 implies s[k].priority <= e.priority by {
            if k > 0 {
                assert(s[k] == t[k - 1]);
            }
        }
    }
}

/// Inserting keeps a sorted sequence sorted and adds exactly `e`.
pub proof fn lemma_insert_by_priority(s: Seq<AvailableEncoder>, e: AvailableEncoder)
    requires
        priority_sorted(s),
    ensures
        priority_sorted(insert_by_priority(s, e)),
        insert_by_priority(s, e).to_multiset() == s.to_multiset().insert(e),
        insert_by_priority(s, e).len() == s.len() + 1,
{
    lemma_insert_at(s, e);
    let i = first_above(s, e.priority);
    let r = insert_by_priority(s, e);
    assert forall|a: int, b: int| 0 <= a <= b < r.len() implies r[a].priority <= r[b].priority by {
        if a < i && b > i {
            assert(r[b] == s[b - 1]);
        }
        if a > i {
            assert(r[a] == s[a - 1] && r[b] == s[b - 1]);
        }
        if a == i && b > i {
            assert(r[b] == s[b - 1]);
            assert(s[i].priority <= s[b - 1].priority);
        }
    }
    vstd::seq_lib::lemma_multiset_commutative(s.take(i), seq![e] + s.skip(i));
    vstd::seq_lib::lemma_multiset_commutative(seq![e], s.skip(i));
    vstd::seq_lib::lemma_multiset_commutative(s.take(i), s.skip(i));
    assert(s.take(i) + seq![e] + s.skip(i) =~= s.take(i) + (seq![e] + s.skip(i)));
    assert(s.take(i) + s.skip(i) =~= s);
    assert(seq![e].to_multiset() =~= vstd::multiset::Multiset::empty().insert(e)) by {
        broadcast use vstd::seq_lib::group_to_multiset_ensures;
        assert(seq![e] =~= Seq::<AvailableEncoder>::empty().push(e));
    }
}

/// The priority sort orders by priority and keeps every entry.
pub proof fn lemma_sort_by_priority(s: Seq<AvailableEncoder>)
    ensures
        priority_sorted(sort_by_priority(s)),
        sort_by_priority(s).to_multiset() == s.to_multiset(),
        sort_by_priority(s).len() == s.len(),
    decreases s.len(),
{
    broadcast use vstd::seq_lib::group_to_multiset_ensures;
    if s.len() > 0 {
        lemma_sort_by_priority(s.drop_last());
        lemma_insert_by_priority(sort_by_priority(s.drop_last()), s.last());
        assert(s.drop_last().push(s.last()) =~= s);
    }
}

/// Stable insertion into a vector kept in priority order.
fn insert_sorted(v: &mut Vec<AvailableEncoder>, e: AvailableEncoder)
    ensures
        final(v)@ == insert_by_priority(old(v)@, e),
{
    proof {
        lemma_insert_at(v@, e);
    }
    let mut i: usize = 0;
    while i < v.len() && v[i].priority <= e.priority
        invariant
            i <= v@.len(),
            forall|k: int| 0 <= k < i ==> v@[k].priority <= e.priority,
            0 <= first_above(v@, e.priority) <= v@.len(),
            forall|k: int| 0 <= k < first_above(v@, e.priority) ==> v@[k].priority <= e.priority,
            first_above(v@, e.priority) < v@.len() ==> v@[first_above(v@, e.priority)].priority
                > e.priority,
        decreases v.len() - i,
    {
        i = i + 1;
    }
    assert(i == first_above(v@, e.priority));
    let ghost before = v@;
    v.insert(i, e);
    assert(v@ =~= before.take(i as int) + seq![e] + before.skip(i as int));
}

/// Sorts entries by priority, lowest first, keeping the order of ties.
fn sort_encoders(v: Vec<AvailableEncoder>) -> (r: Vec<AvailableEncoder>)
    ensures
        r@ == sort_by_priority(v@),
{
    let mut r: Vec<AvailableEncoder> = Vec::new();
    let mut rest = v;
    let ghost all = rest@;
    let n0 = rest.len();
    assert(all.len() == n0);
    let mut k: usize = 0;
    while rest.len() > 0
        invariant
            k + rest@.len() == all.len(),
            all.len() <= usize::MAX,
            rest@ == all.skip(k as int),
            r@ == sort_by_priority(all.take(k as int)),
        decreases rest.len(),
    {
        let e = rest.remove(0);
        assert(all.take(k + 1).drop_last() =~= all.take(k as int));
        assert(all.take(k + 1).last() == e);
        insert_sorted(&mut r, e);
        k = k + 1;
        assert(rest@ =~= all.skip(k as int));
    }
    assert(all.take(k as int) =~= all);
    r
}

// ---------------------------------------------------------------------------
// The registry
// ---------------------------------------------------------------------------

/// The software encoder registered for a format when no software encoder was probed.
pub open spec fn software_fallback_name(f: VideoEncoderType) -> Seq<char> {
    match f {
        VideoEncoderType::H264 => "libx264"@,
        VideoEncoderType::H265 => "libx265"@,
        VideoEncoderType::VP8 => "libvpx"@,
        VideoEncoderType::VP9 => "libvpx-vp9"@,
    }
}

/// Some entry is a software encoder.
pub open spec fn has_software(s: Seq<AvailableEncoder>) -> bool {
    exists|i: int| 0 <= i < s.len() && !(#[trigger] s[i]).is_hardware
}

/// The probed entries of format `f`, in probe order.
pub open spec fn detected_of(infos: Seq<CodecInfo>, f: VideoEncoderType) -> Seq<AvailableEncoder>
    decreases infos.len(),
{
    if infos.len() == 0 {
        Seq::empty()
    } else {
        let rest = detected_of(infos.drop_last(), f);
        match spec_available_from(infos.last()) {
            Some(e) => if e.format == f {
                rest.push(e)
            } else {
                rest
            },
            None => rest,
        }
    }
}

/// Whether `e` is the software fallback entry for `f`.
pub open spec fn is_software_fallback(e: AvailableEncoder, f: VideoEncoderType) -> bool {
    &&& e.format == f
    &&& e.codec_name@ == software_fallback_name(f)
    &&& e.backend == EncoderBackend::Software
    &&& e.priority == 100
    &&& !e.is_hardware
}

/// The entries registered for `f` after a probe that reported `infos`: the
/// probed ones sorted by priority, then a software fallback unless a
/// software encoder was among them.
pub open spec fn registered_for(
    infos: Seq<CodecInfo>,
    f: VideoEncoderType,
    result: Seq<AvailableEncoder>,
) -> bool {
    let sorted = sort_by_priority(detected_of(infos, f));
    if has_software(sorted) {
        result == sorted
    } else {
        result.len() == sorted.len() + 1 && result.take(sorted.len() as int) == sorted
            && is_software_fallback(result.last(), f)
    }
}

/// Encoders available on this machine, grouped by output format, each group
/// best first.
pub struct EncoderRegistry {
    h264: Vec<AvailableEncoder>,
    h265: Vec<AvailableEncoder>,
    vp8: Vec<AvailableEncoder>,
    vp9: Vec<AvailableEncoder>,
    detection_resolution: (u32, u32),
}

impl EncoderRegistry {
    /// The encoders registered for `f`, best first.
    pub closed spec fn encoders(&self, f: VideoEncoderType) -> Seq<AvailableEncoder> {
        match f {
            VideoEncoderType::H264 => self.h264@,
            VideoEncoderType::H265 => self.h265@,
            VideoEncoderType::VP8 => self.vp8@,
            VideoEncoderType::VP9 => self.vp9@,
        }
    }

    /// The resolution of the last probe; (0, 0) before any.
    pub closed spec fn spec_detection_resolution(&self) -> (u32, u32) {
        self.detection_resolution
    }

    fn list(&self, f: VideoEncoderType) -> (r: &Vec<AvailableEncoder>)
        ensures
            r@ == self.encoders(f),
    {
        match f {
            VideoEncoderType::H264 => &self.h264,
            VideoEncoderType::H265 => &self.h265,
            VideoEncoderType::VP8 => &self.vp8,
            VideoEncoderType::VP9 => &self.vp9,
        }
    }

    /// An empty registry.
    pub fn new() -> (r: EncoderRegistry)
        ensures
            forall|f: VideoEncoderType| #[trigger] r.encoders(f).len() == 0,
            r.spec_detection_resolution() == (0u32, 0u32),
    {
        EncoderRegistry {
            h264: Vec::new(),
            h265: Vec::new(),
            vp8: Vec::new(),
            vp9: Vec::new(),
            detection_resolution: (0, 0),
        }
    }

    /// Replaces the registry's contents with the encoders a probe at
    /// `width`x`height` reported: each format's entries sorted by priority,
    /// plus a software fallback where the probe found no software encoder.
    pub fn register_detected(&mut self, width: u32, height: u32, detected: &[CodecInfo])
        ensures
            forall|f: VideoEncoderType|
                registered_for(detected@, f, #[trigger] final(self).encoders(f)),
            final(self).spec_detection_resolution() == (width, height),
    {
        let mut h264: Vec<AvailableEncoder> = Vec::new();
        let mut h265: Vec<AvailableEncoder> = Vec::new();
        let mut vp8: Vec<AvailableEncoder> = Vec::new();
        let mut vp9: Vec<AvailableEncoder> = Vec::new();
        let mut k: usize = 0;
        while k < detected.len()
            invariant
                k <= detected@.len(),
                h264@ == detected_of(detected@.take(k as int), VideoEncoderType::H264),
                h265@ == detected_of(detected@.take(k as int), VideoEncoderType::H265),
                vp8@ == detected_of(detected@.take(k as int), VideoEncoderType::VP8),
                vp9@ == detected_of(detected@.take(k as int), VideoEncoderType::VP9),
            decreases detected.len() - k,
        {
            assert(detected@.take(k + 1).drop_last() =~= detected@.take(k as int));
            assert(detected@.take(k + 1).last() == detected@[k as int]);
            match AvailableEncoder::from_codec_info(&detected[k]) {
                Some(e) => match e.format {
                    VideoEncoderType::H264 => h264.push(e),
                    VideoEncoderType::H265 => h265.push(e),
                    VideoEncoderType::VP8 => vp8.push(e),
                    VideoEncoderType::VP9 => vp9.push(e),
                },
                None => {},
            }
            k = k + 1;
        }
        assert(detected@.take(k as int) =~= detected@);
        self.h264 = with_software_fallback(sort_encoders(h264), VideoEncoderType::H264);
        self.h265 = with_software_fallback(sort_encoders(h265), VideoEncoderType::H265);
        self.vp8 = with_software_fallback(sort_encoders(vp8), VideoEncoderType::VP8);
        self.vp9 = with_software_fallback(sort_encoders(vp9), VideoEncoderType::VP9);
        self.detection_resolution = (width, height);
    }
}

impl EncoderRegistry {
    /// Makes sure every format can be encoded in software: a format whose
    /// entries hold no software encoder gets the software fallback appended;
    /// the others are left as they are. A second call changes nothing.
    pub fn register_software_fallbacks(&mut self)
        ensures
            forall|f: VideoEncoderType|
                #![trigger final(self).encoders(f)]
                {
                    &&& has_software(old(self).encoders(f)) ==> final(self).encoders(f) == old(
                        self,
                    ).encoders(f)
                    &&& !has_software(old(self).encoders(f)) ==> {
                        &&& final(self).encoders(f).len() == old(self).encoders(f).len() + 1
                        &&& final(self).encoders(f).take(old(self).encoders(f).len() as int) == old(
                            self,
                        ).encoders(f)
                        &&& is_software_fallback(final(self).encoders(f).last(), f)
                    }
                    &&& has_software(final(self).encoders(f))
                },
            final(self).spec_detection_resolution() == old(self).spec_detection_resolution(),
    {
        let mut v: Vec<AvailableEncoder> = Vec::new();
        std::mem::swap(&mut v, &mut self.h264);
        self.h264 = with_software_fallback(v, VideoEncoderType::H264);
        let mut v: Vec<AvailableEncoder> = Vec::new();
        std::mem::swap(&mut v, &mut self.h265);
        self.h265 = with_software_fallback(v, VideoEncoderType::H265);
        let mut v: Vec<AvailableEncoder> = Vec::new();
        std::mem::swap(&mut v, &mut self.vp8);
        self.vp8 = with_software_fallback(v, VideoEncoderType::VP8);
        let mut v: Vec<AvailableEncoder> = Vec::new();
        std::mem::swap(&mut v, &mut self.vp9);
        self.vp9 = with_software_fallback(v, VideoEncoderType::VP9);
    }
}

/// Appends the software fallback for `f` unless a software encoder is present.
fn with_software_fallback(v: Vec<AvailableEncoder>, f: VideoEncoderType) -> (r: Vec<
    AvailableEncoder,
>)
    ensures
        has_software(v@) ==> r@ == v@,
        !has_software(v@) ==> r@.len() == v@.len() + 1 && r@.take(v@.len() as int) == v@
            && is_software_fallback(r@.last(), f),
{
    let mut i: usize = 0;
    while i < v.len()
        invariant
            i <= v@.len(),
            forall|j: int| 0 <= j < i ==> (#[trigger] v@[j]).is_hardware,
        decreases v.len() - i,
    {
        if !v[i].is_hardware {
            return v;
        }
        i = i + 1;
    }
    let name = match f {
        VideoEncoderType::H264 => "libx264",
        VideoEncoderType::H265 => "libx265",
        VideoEncoderType::VP8 => "libvpx",
        VideoEncoderType::VP9 => "libvpx-vp9",
    };
    let mut r = v;
    let ghost before = r@;
    r.push(
        AvailableEncoder {
            format: f,
            codec_name: crate::text::string_of(name),
            backend: EncoderBackend::Software,
            priority: 100,
            is_hardware: false,
        },
    );
    assert(r@.take(before.len() as int) =~= before);
    r
}

/// Index of the first entry eligible under `hardware_only`; `s.len()` when none is.
pub open spec fn first_eligible(s: Seq<AvailableEncoder>, hardware_only: bool) -> int
    decreases s.len(),
{
    if s.len() == 0 {
        0
    } else if !hardware_only || s[0].is_hardware {
        0
    } else {
        1 + first_eligible(s.drop_first(), hardware_only)
    }
}

/// Index of the first entry of `backend`; `s.len()` when none is.
pub open spec fn first_of_backend(s: Seq<AvailableEncoder>, backend: EncoderBackend) -> int
    decreases s.len(),
{
    if s.len() == 0 {
        0
    } else if s[0].backend == backend {
        0
    } else {
        1 + first_of_backend(s.drop_first(), backend)
    }
}

/// Some entry is a hardware encoder.
pub open spec fn has_hardware(s: Seq<AvailableEncoder>) -> bool {
    exists|i: int| 0 <= i < s.len() && (#[trigger] s[i]).is_hardware
}

/// Some entry belongs to `backend`.
pub open spec fn has_backend(s: Seq<AvailableEncoder>, backend: EncoderBackend) -> bool {
    exists|i: int| 0 <= i < s.len() && (#[trigger] s[i]).backend == backend
}

/// The formats of `fs`, in order, whose entries satisfy `hardware_only`.
pub open spec fn formats_with(
    reg: EncoderRegistry,
    fs: Seq<VideoEncoderType>,
    hardware_only: bool,
) -> Seq<VideoEncoderType>
    decreases fs.len(),
{
    if fs.len() == 0 {
        Seq::empty()
    } else {
        let rest = formats_with(reg, fs.drop_last(), hardware_only);
        let enc = reg.encoders(fs.last());
        if (hardware_only && has_hardware(enc)) || (!hardware_only && enc.len() > 0) {
            rest.push(fs.last())
        } else {
            rest
        }
    }
}

/// The formats of `fs`, in order, that have an entry of `backend`.
pub open spec fn formats_of_backend(
    reg: EncoderRegistry,
    fs: Seq<VideoEncoderType>,
    backend: EncoderBackend,
) -> Seq<VideoEncoderType>
    decreases fs.len(),
{
    if fs.len() == 0 {
        Seq::empty()
    } else {
        let rest = formats_of_backend(reg, fs.drop_last(), backend);
        if has_backend(reg.encoders(fs.last()), backend) {
            rest.push(fs.last())
        } else {
            rest
        }
    }
}

proof fn lemma_first_eligible(s: Seq<AvailableEncoder>, hardware_only: bool)
    ensures
        0 <= first_eligible(s, hardware_only) <= s.len(),
        forall|k: int|
            0 <= k < first_eligible(s, hardware_only) ==> hardware_only && !(
            #[trigger] s[k]).is_hardware,
        first_eligible(s, hardware_only) < s.len() ==> (!hardware_only || s[first_eligible(
            s,
            hardware_only,
        )].is_hardware),
    decreases s.len(),
{
    if s.len() > 0 && !(!hardware_only || s[0].is_hardware) {
        lemma_first_eligible(s.drop_first(), hardware_only);
        assert forall|k: int| 0 <= k < first_eligible(s, hardware_only) implies hardware_only && !(
        #[trigger] s[k]).is_hardware by {
            if k > 0 {
                assert(s[k] == s.drop_first()[k - 1]);
            }
        }
    }
}

proof fn lemma_first_of_backend(s: Seq<AvailableEncoder>, backend: EncoderBackend)
    ensures
        0 <= first_of_backend(s, backend) <= s.len(),
        forall|k: int| 0 <= k < first_of_backend(s, backend) ==> (#[trigger] s[k]).backend != backend,
        first_of_backend(s, backend) < s.len() ==> s[first_of_backend(s, backend)].backend
            == backend,
    decreases s.len(),
{
    if s.len() > 0 && s[0].backend != backend {
        lemma_first_of_backend(s.drop_first(), backend);
        assert forall|k: int| 0 <= k < first_of_backend(s, backend) implies (#[trigger] s[k]).backend
            != backend by {
            if k > 0 {
                assert(s[k] == s.drop_first()[k - 1]);
            }
        }
    }
}

impl EncoderRegistry {
    /// The first registered encoder for `format` (hardware only, if asked).
    pub fn best_encoder(&self, format: VideoEncoderType, hardware_only: bool) -> (r: Option<
        &AvailableEncoder,
    >)
        ensures
            ({
                let s = self.encoders(format);
                let i = first_eligible(s, hardware_only);
                &&& r is Some <==> i < s.len()
                &&& r matches Some(e) ==> *e == s[i]
            }),
    {
        let v = self.list(format);
        proof {
            lemma_first_eligible(v@, hardware_only);
        }
        let mut i: usize = 0;
        while i < v.len()
            invariant
                v@ == self.encoders(format),
                i <= first_eligible(v@, hardware_only),
                0 <= first_eligible(v@, hardware_only) <= v@.len(),
                forall|k: int|
                    0 <= k < first_eligible(v@, hardware_only) ==> hardware_only && !(
                    #[trigger] v@[k]).is_hardware,
                first_eligible(v@, hardware_only) < v@.len() ==> (!hardware_only || v@[first_eligible(
                    v@,
                    hardware_only,
                )].is_hardware),
            decreases v.len() - i,
        {
            if !hardware_only || v[i].is_hardware {
                return Some(&v[i]);
            }
            i = i + 1;
        }
        None
    }

    /// The first registered encoder for `format`.
    pub fn best_available_encoder(&self, format: VideoEncoderType) -> (r: Option<&AvailableEncoder>)
        ensures
            r is Some <==> self.encoders(format).len() > 0,
            r matches Some(e) ==> *e == self.encoders(format)[0],
    {
        self.best_encoder(format, false)
    }

    /// All encoders registered for `format`, best first.
    pub fn encoders_for_format(&self, format: VideoEncoderType) -> (r: &[AvailableEncoder])
        ensures
            r@ == self.encoders(format),
    {
        self.list(format).as_slice()
    }

    /// The formats with a registered encoder (a hardware one, if asked), in
    /// the order H264, H265, VP8, VP9.
    pub fn available_formats(&self, hardware_only: bool) -> (r: Vec<VideoEncoderType>)
        ensures
            r@ == formats_with(*self, spec_ordered(), hardware_only),
    {
        let all = VideoEncoderType::ordered();
        let mut r: Vec<VideoEncoderType> = Vec::new();
        let mut k: usize = 0;
        while k < 4
            invariant
                all@ == spec_ordered(),
                k <= 4,
                r@ == formats_with(*self, spec_ordered().take(k as int), hardware_only),
            decreases 4 - k,
        {
            let f = all[k];
            assert(spec_ordered().take(k + 1).drop_last() =~= spec_ordered().take(k as int));
            assert(spec_ordered().take(k + 1).last() == f);
            let v = self.list(f);
            let keep = if hardware_only {
                any_hardware(v)
            } else {
                v.len() > 0
            };
            if keep {
                r.push(f);
            }
            k = k + 1;
        }
        assert(spec_ordered().take(4) =~= spec_ordered());
        r
    }

    /// Whether `format` has an encoder (a hardware one, if asked).
    pub fn is_format_available(&self, format: VideoEncoderType, hardware_only: bool) -> (r: bool)
        ensures
            r == (first_eligible(self.encoders(format), hardware_only) < self.encoders(
                format,
            ).len()),
    {
        self.best_encoder(format, hardware_only).is_some()
    }

    /// Whether `format` has any encoder.
    pub fn is_codec_available(&self, format: VideoEncoderType) -> (r: bool)
        ensures
            r == (self.encoders(format).len() > 0),
    {
        self.best_available_encoder(format).is_some()
    }

    /// The formats a user can pick, in the order H264, H265, VP8, VP9.
    pub fn selectable_formats(&self) -> (r: Vec<VideoEncoderType>)
        ensures
            r@ == formats_with(*self, spec_ordered(), false),
    {
        self.available_formats(false)
    }

    /// The resolution of the last probe.
    pub fn detection_resolution(&self) -> (r: (u32, u32))
        ensures
            r == self.spec_detection_resolution(),
    {
        self.detection_resolution
    }

    /// The formats that have an encoder of `backend`, in the order H264, H265, VP8, VP9.
    pub fn formats_for_backend(&self, backend: EncoderBackend) -> (r: Vec<VideoEncoderType>)
        ensures
            r@ == formats_of_backend(*self, spec_ordered(), backend),
    {
        let all = VideoEncoderType::ordered();
        let mut r: Vec<VideoEncoderType> = Vec::new();
        let mut k: usize = 0;
        while k < 4
            invariant
                all@ == spec_ordered(),
                k <= 4,
                r@ == formats_of_backend(*self, spec_ordered().take(k as int), backend),
            decreases 4 - k,
        {
            let f = all[k];
            assert(spec_ordered().take(k + 1).drop_last() =~= spec_ordered().take(k as int));
            assert(spec_ordered().take(k + 1).last() == f);
            if any_of_backend(self.list(f), backend) {
                r.push(f);
            }
            k = k + 1;
        }
        assert(spec_ordered().take(4) =~= spec_ordered());
        r
    }

    /// The first registered encoder of `format` from `backend`.
    pub fn encoder_with_backend(&self, format: VideoEncoderType, backend: EncoderBackend) -> (r:
        Option<&AvailableEncoder>)
        ensures
            ({
                let s = self.encoders(format);
                let i = first_of_backend(s, backend);
                &&& r is Some <==> i < s.len()
                &&& r matches Some(e) ==> *e == s[i]
            }),
    {
        let v = self.list(format);
        proof {
            lemma_first_of_backend(v@, backend);
        }
        let mut i: usize = 0;
        while i < v.len()
            invariant
                v@ == self.encoders(format),
                i <= first_of_backend(v@, backend),
                0 <= first_of_backend(v@, backend) <= v@.len(),
                forall|k: int|
                    0 <= k < first_of_backend(v@, backend) ==> (#[trigger] v@[k]).backend != backend,
                first_of_backend(v@, backend) < v@.len() ==> v@[first_of_backend(
                    v@,
                    backend,
                )].backend == backend,
            decreases v.len() - i,
        {
            if v[i].backend == backend {
                return Some(&v[i]);
            }
            i = i + 1;
        }
        None
    }
}

fn any_hardware(v: &Vec<AvailableEncoder>) -> (r: bool)
    ensures
        r == has_hardware(v@),
{
    let mut i: usize = 0;
    while i < v.len()
        invariant
            i <= v@.len(),
            forall|j: int| 0 <= j < i ==> !(#[trigger] v@[j]).is_hardware,
        decreases v.len() - i,
    {
        if v[i].is_hardware {
            return true;
        }
        i = i + 1;
    }
    false
}

fn any_of_backend(v: &Vec<AvailableEncoder>, backend: EncoderBackend) -> (r: bool)
    ensures
        r == has_backend(v@, backend),
{
    let mut i: usize = 0;
    while i < v.len()
        invariant
            i <= v@.len(),
            forall|j: int| 0 <= j < i ==> (#[trigger] v@[j]).backend != backend,
        decreases v.len() - i,
    {
        if v[i].backend == backend {
            return true;
        }
        i = i + 1;
    }
    false
}

/// The entries of `s` from `backend`, in order.
pub open spec fn entries_of_backend(s: Seq<AvailableEncoder>, backend: EncoderBackend) -> Seq<
    AvailableEncoder,
>
    decreases s.len(),
{
    if s.len() == 0 {
        Seq::empty()
    } else {
        let rest = entries_of_backend(s.drop_last(), backend);
        if s.last().backend == backend {
            rest.push(s.last())
        } else {
            rest
        }
    }
}

/// The entries behind a sequence of references.
pub open spec fn deref_all(s: Seq<&AvailableEncoder>) -> Seq<AvailableEncoder> {
    s.map_values(|x: &AvailableEncoder| *x)
}

/// Some format has an entry of `b`.
pub open spec fn registry_has_backend(reg: EncoderRegistry, b: EncoderBackend) -> bool {
    exists|f: VideoEncoderType| has_backend(#[trigger] reg.encoders(f), b)
}

/// All backends, hardware ones first.
pub open spec fn spec_all_backends() -> Seq<EncoderBackend> {
    seq![
        EncoderBackend::Vaapi,
        EncoderBackend::Nvenc,
        EncoderBackend::Qsv,
        EncoderBackend::Amf,
        EncoderBackend::Rkmpp,
        EncoderBackend::V4l2m2m,
        EncoderBackend::Software,
    ]
}

fn all_backends() -> (r: [EncoderBackend; 7])
    ensures
        r@ == spec_all_backends(),
{
    let r = [
        EncoderBackend::Vaapi,
        EncoderBackend::Nvenc,
        EncoderBackend::Qsv,
        EncoderBackend::Amf,
        EncoderBackend::Rkmpp,
        EncoderBackend::V4l2m2m,
        EncoderBackend::Software,
    ];
    assert(r@ =~= spec_all_backends());
    r
}

/// The backends of `bs`, in order, that some registered encoder uses.
pub open spec fn backends_present(reg: EncoderRegistry, bs: Seq<EncoderBackend>) -> Seq<
    EncoderBackend,
>
    decreases bs.len(),
{
    if bs.len() == 0 {
        Seq::empty()
    } else {
        let rest = backends_present(reg, bs.drop_last());
        if registry_has_backend(reg, bs.last()) {
            rest.push(bs.last())
        } else {
            rest
        }
    }
}

/// The groups of `s` by the backends of `bs`, in order, leaving out empty ones.
pub open spec fn groups_by_backend(s: Seq<AvailableEncoder>, bs: Seq<EncoderBackend>) -> Seq<
    (EncoderBackend, Seq<AvailableEncoder>),
>
    decreases bs.len(),
{
    if bs.len() == 0 {
        Seq::empty()
    } else {
        let rest = groups_by_backend(s, bs.drop_last());
        let g = entries_of_backend(s, bs.last());
        if g.len() > 0 {
            rest.push((bs.last(), g))
        } else {
            rest
        }
    }
}

/// The groups as returned, seen through their references.
pub open spec fn deref_groups(r: Seq<(EncoderBackend, Vec<&AvailableEncoder>)>) -> Seq<
    (EncoderBackend, Seq<AvailableEncoder>),
> {
    r.map_values(|g: (EncoderBackend, Vec<&AvailableEncoder>)| (g.0, deref_all(g.1@)))
}

/// The backends registered encoders use, across all formats.
pub proof fn lemma_registry_has_backend(reg: EncoderRegistry, b: EncoderBackend)
    ensures
        registry_has_backend(reg, b) <==> (has_backend(reg.encoders(VideoEncoderType::H264), b)
            || has_backend(reg.encoders(VideoEncoderType::H265), b) || has_backend(
            reg.encoders(VideoEncoderType::VP8),
            b,
        ) || has_backend(reg.encoders(VideoEncoderType::VP9), b)),
{
    if registry_has_backend(reg, b) {
        let f = choose|f: VideoEncoderType| has_backend(#[trigger] reg.encoders(f), b);
        match f {
            VideoEncoderType::H264 => {},
            VideoEncoderType::H265 => {},
            VideoEncoderType::VP8 => {},
            VideoEncoderType::VP9 => {},
        }
    }
    if has_backend(reg.encoders(VideoEncoderType::H264), b) {
        assert(has_backend(reg.encoders(VideoEncoderType::H264), b));
    }
    if has_backend(reg.encoders(VideoEncoderType::H265), b) {
        assert(has_backend(reg.encoders(VideoEncoderType::H265), b));
    }
    if has_backend(reg.encoders(VideoEncoderType::VP8), b) {
        assert(has_backend(reg.encoders(VideoEncoderType::VP8), b));
    }
    if has_backend(reg.encoders(VideoEncoderType::VP9), b) {
        assert(has_backend(reg.encoders(VideoEncoderType::VP9), b));
    }
}

fn entries_with_backend(v: &Vec<AvailableEncoder>, b: EncoderBackend) -> (r: Vec<
    &AvailableEncoder,
>)
    ensures
        deref_all(r@) == entries_of_backend(v@, b),
{
    let mut r: Vec<&AvailableEncoder> = Vec::new();
    let mut i: usize = 0;
    while i < v.len()
        invariant
            i <= v@.len(),
            deref_all(r@) == entries_of_backend(v@.take(i as int), b),
        decreases v.len() - i,
    {
        assert(v@.take(i + 1).drop_last() =~= v@.take(i as int));
        assert(v@.take(i + 1).last() == v@[i as int]);
        let ghost before = r@;
        if v[i].backend == b {
            r.push(&v[i]);
            assert(deref_all(r@) =~= deref_all(before).push(v@[i as int]));
        }
        i = i + 1;
    }
    assert(v@.take(i as int) =~= v@);
    r
}

impl EncoderRegistry {
    /// The backends that some registered encoder uses, in the order VAAPI,
    /// NVENC, QSV, AMF, RKMPP, V4L2 M2M, software: hardware ones first.
    pub fn available_backends(&self) -> (r: Vec<EncoderBackend>)
        ensures
            r@ == backends_present(*self, spec_all_backends()),
    {
        let all = all_backends();
        let mut r: Vec<EncoderBackend> = Vec::new();
        let mut k: usize = 0;
        while k < 7
            invariant
                all@ == spec_all_backends(),
                k <= 7,
                r@ == backends_present(*self, spec_all_backends().take(k as int)),
            decreases 7 - k,
        {
            let b = all[k];
            assert(spec_all_backends().take(k + 1).drop_last() =~= spec_all_backends().take(
                k as int,
            ));
            assert(spec_all_backends().take(k + 1).last() == b);
            proof {
                lemma_registry_has_backend(*self, b);
            }
            if any_of_backend(&self.h264, b) || any_of_backend(&self.h265, b) || any_of_backend(
                &self.vp8,
                b,
            ) || any_of_backend(&self.vp9, b) {
                r.push(b);
            }
            k = k + 1;
        }
        assert(spec_all_backends().take(7) =~= spec_all_backends());
        r
    }

    /// The encoders of `format` grouped by backend, in the order VAAPI, NVENC,
    /// QSV, AMF, RKMPP, V4L2 M2M, software; each group in registry order,
    /// and no empty group.
    pub fn encoders_by_backend(&self, format: VideoEncoderType) -> (r: Vec<
        (EncoderBackend, Vec<&AvailableEncoder>),
    >)
        ensures
            deref_groups(r@) == groups_by_backend(self.encoders(format), spec_all_backends()),
    {
        let v = self.list(format);
        let all = all_backends();
        let mut r: Vec<(EncoderBackend, Vec<&AvailableEncoder>)> = Vec::new();
        let mut k: usize = 0;
        while k < 7
            invariant
                all@ == spec_all_backends(),
                v@ == self.encoders(format),
                k <= 7,
                deref_groups(r@) == groups_by_backend(v@, spec_all_backends().take(k as int)),
            decreases 7 - k,
        {
            let b = all[k];
            assert(spec_all_backends().take(k + 1).drop_last() =~= spec_all_backends().take(
                k as int,
            ));
            assert(spec_all_backends().take(k + 1).last() == b);
            let g = entries_with_backend(v, b);
            let ghost before = r@;
            if g.len() > 0 {
                r.push((b, g));
                assert(deref_groups(r@) =~= deref_groups(before).push(
                    (b, entries_of_backend(v@, b)),
                ));
            }
            k = k + 1;
        }
        assert(spec_all_backends().take(7) =~= spec_all_backends());
        r
    }
}

proof fn lemma_no_backend_entries(s: Seq<AvailableEncoder>, b: EncoderBackend)
    requires
        !has_backend(s, b),
    ensures
        entries_of_backend(s, b).len() == 0,
    decreases s.len(),
{
    if s.len() > 0 {
        assert(!has_backend(s.drop_last(), b)) by {
            if has_backend(s.drop_last(), b) {
                let j = choose|j: int| 0 <= j < s.drop_last().len() && (#[trigger] s.drop_last()[j]).backend == b;
                assert(s[j] == s.drop_last()[j]);
            }
        }
        lemma_no_backend_entries(s.drop_last(), b);
        assert(s[s.len() - 1].backend != b);
    }
}

impl Default for EncoderRegistry {
    fn default() -> (r: EncoderRegistry)
        ensures
            forall|f: VideoEncoderType| #[trigger] r.encoders(f).len() == 0,
            r.spec_detection_resolution() == (0u32, 0u32),
    {
        EncoderRegistry::new()
    }
}

} // verus!
