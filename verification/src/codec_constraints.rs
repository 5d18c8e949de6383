//! Which codecs the streaming front ends may use while a third-party service
//! (RustDesk, RTSP, VNC) holds the encoder to one codec.
use vstd::prelude::*;
use vstd::string::StringExecFns;
use crate::encoder::VideoCodecType;
use crate::registry::VideoEncoderType;

verus! {

/// The codec a RustDesk session is configured with.
#[derive(Debug, Clone, Copy, PartialEq, Eq, Structural)]
pub enum RustDeskCodec {
    H264,
    H265,
}

/// The codec an RTSP stream is configured with.
#[derive(Debug, Clone, Copy, PartialEq, Eq, Structural)]
pub enum RtspCodec {
    H264,
    H265,
}

/// The encoding a VNC session is configured with.
#[derive(Debug, Clone, Copy, PartialEq, Eq, Structural)]
pub enum VncEncoding {
    TightJpeg,
    H264,
}

/// The streaming mode of the web front end.
#[derive(Debug, Clone, Copy, PartialEq, Eq, Structural)]
pub enum StreamMode {
    Mjpeg,
    WebRTC,
}

/// The parts of the application settings that lock a codec.
#[derive(Debug, Clone, Copy, PartialEq, Eq, Structural)]
pub struct ThirdPartyConfig {
    pub rustdesk_enabled: bool,
    pub rustdesk_codec: RustDeskCodec,
    pub rtsp_enabled: bool,
    pub rtsp_codec: RtspCodec,
    pub vnc_enabled: bool,
    pub vnc_encoding: VncEncoding,
}

/// What the web front ends may offer.
#[derive(Debug, Clone)]
pub struct StreamCodecConstraints {
    pub rustdesk_enabled: bool,
    pub rtsp_enabled: bool,
    pub vnc_enabled: bool,
    pub allowed_webrtc_codecs: Vec<VideoCodecType>,
    pub allow_mjpeg: bool,
    pub locked_codec: Option<VideoCodecType>,
    pub reason: String,
}

/// What enforcing the constraints did.
#[derive(Debug, Clone)]
pub struct ConstraintEnforcementResult {
    pub changed: bool,
    pub message: Option<String>,
}

/// The codec a third-party service holds the encoder to.
#[derive(Debug, Clone, Copy, PartialEq, Eq, Structural)]
pub enum ThirdPartyCodecLock {
    H26x(VideoCodecType),
    Mjpeg,
}

pub open spec fn spec_codec_id(codec: VideoCodecType) -> Seq<char> {
    match codec {
        VideoCodecType::H264 => "h264"@,
        VideoCodecType::H265 => "h265"@,
        VideoCodecType::VP8 => "vp8"@,
        VideoCodecType::VP9 => "vp9"@,
    }
}

pub open spec fn spec_encoder_codec_id(codec: VideoEncoderType) -> Seq<char> {
    match codec {
        VideoEncoderType::H264 => "h264"@,
        VideoEncoderType::H265 => "h265"@,
        VideoEncoderType::VP8 => "vp8"@,
        VideoEncoderType::VP9 => "vp9"@,
    }
}

pub open spec fn spec_video_to_encoder(codec: VideoCodecType) -> VideoEncoderType {
    match codec {
        VideoCodecType::H264 => VideoEncoderType::H264,
        VideoCodecType::H265 => VideoEncoderType::H265,
        VideoCodecType::VP8 => VideoEncoderType::VP8,
        VideoCodecType::VP9 => VideoEncoderType::VP9,
    }
}

pub open spec fn spec_encoder_to_video(codec: VideoEncoderType) -> VideoCodecType {
    match codec {
        VideoEncoderType::H264 => VideoCodecType::H264,
        VideoEncoderType::H265 => VideoCodecType::H265,
        VideoEncoderType::VP8 => VideoCodecType::VP8,
        VideoEncoderType::VP9 => VideoCodecType::VP9,
    }
}

/// The identifier of a codec in the web API.
pub fn codec_to_id(codec: VideoCodecType) -> (r: &'static str)
    ensures
        r@ == spec_codec_id(codec),
{
    match codec {
        VideoCodecType::H264 => "h264",
        VideoCodecType::H265 => "h265",
        VideoCodecType::VP8 => "vp8",
        VideoCodecType::VP9 => "vp9",
    }
}

/// The identifier of an encoder output format in the web API.
pub fn encoder_codec_to_id(codec: VideoEncoderType) -> (r: &'static str)
    ensures
        r@ == spec_encoder_codec_id(codec),
{
    match codec {
        VideoEncoderType::H264 => "h264",
        VideoEncoderType::H265 => "h265",
        VideoEncoderType::VP8 => "vp8",
        VideoEncoderType::VP9 => "vp9",
    }
}

pub fn video_codec_to_encoder_codec(codec: VideoCodecType) -> (r: VideoEncoderType)
    ensures
        r == spec_video_to_encoder(codec),
{
    match codec {
        VideoCodecType::H264 => VideoEncoderType::H264,
        VideoCodecType::H265 => VideoEncoderType::H265,
        VideoCodecType::VP8 => VideoEncoderType::VP8,
        VideoCodecType::VP9 => VideoEncoderType::VP9,
    }
}

pub fn encoder_codec_to_video_codec(codec: VideoEncoderType) -> (r: VideoCodecType)
    ensures
        r == spec_encoder_to_video(codec),
{
    match codec {
        VideoEncoderType::H264 => VideoCodecType::H264,
        VideoEncoderType::H265 => VideoCodecType::H265,
        VideoEncoderType::VP8 => VideoCodecType::VP8,
        VideoEncoderType::VP9 => VideoCodecType::VP9,
    }
}

/// Converting a WebRTC codec to an encoder format and back is the identity,
/// both ways round, and both name a codec by the same identifier.
pub proof fn lemma_codec_conversions_round_trip(v: VideoCodecType, e: VideoEncoderType)
    ensures
        spec_encoder_to_video(spec_video_to_encoder(v)) == v,
        spec_video_to_encoder(spec_encoder_to_video(e)) == e,
        spec_encoder_codec_id(spec_video_to_encoder(v)) == spec_codec_id(v),
{
}

pub open spec fn spec_rustdesk_codec(codec: RustDeskCodec) -> VideoCodecType {
    match codec {
        RustDeskCodec::H264 => VideoCodecType::H264,
        RustDeskCodec::H265 => VideoCodecType::H265,
    }
}

pub open spec fn spec_rtsp_codec(codec: RtspCodec) -> VideoCodecType {
    match codec {
        RtspCodec::H264 => VideoCodecType::H264,
        RtspCodec::H265 => VideoCodecType::H265,
    }
}

pub open spec fn spec_vnc_codec(encoding: VncEncoding) -> Option<VideoCodecType> {
    match encoding {
        VncEncoding::TightJpeg => None,
        VncEncoding::H264 => Some(VideoCodecType::H264),
    }
}

pub fn rustdesk_codec_to_video(codec: RustDeskCodec) -> (r: VideoCodecType)
    ensures
        r == spec_rustdesk_codec(codec),
{
    match codec {
        RustDeskCodec::H264 => VideoCodecType::H264,
        RustDeskCodec::H265 => VideoCodecType::H265,
    }
}

pub fn rtsp_codec_to_video_codec(codec: RtspCodec) -> (r: VideoCodecType)
    ensures
        r == spec_rtsp_codec(codec),
{
    match codec {
        RtspCodec::H264 => VideoCodecType::H264,
        RtspCodec::H265 => VideoCodecType::H265,
    }
}

pub fn vnc_encoding_to_video_codec(encoding: VncEncoding) -> (r: Option<VideoCodecType>)
    ensures
        r == spec_vnc_codec(encoding),
{
    match encoding {
        VncEncoding::TightJpeg => None,
        VncEncoding::H264 => Some(VideoCodecType::H264),
    }
}

pub open spec fn spec_lock_label(lock: ThirdPartyCodecLock) -> Seq<char> {
    match lock {
        ThirdPartyCodecLock::H26x(codec) => spec_codec_id(codec),
        ThirdPartyCodecLock::Mjpeg => "mjpeg"@,
    }
}

impl ThirdPartyCodecLock {
    fn label(self) -> (r: &'static str)
        ensures
            r@ == spec_lock_label(self),
    {
        match self {
            ThirdPartyCodecLock::H26x(codec) => codec_to_id(codec),
            ThirdPartyCodecLock::Mjpeg => "mjpeg",
        }
    }

    fn compatible_with(self, other: Self) -> (r: bool)
        ensures
            r == (self == other),
    {
        self == other
    }
}

/// A service that holds a lock, by its display name, and the lock it holds.
pub type SourceLock = (Seq<char>, ThirdPartyCodecLock);

pub open spec fn spec_vnc_lock(encoding: VncEncoding) -> ThirdPartyCodecLock {
    match encoding {
        VncEncoding::TightJpeg => ThirdPartyCodecLock::Mjpeg,
        VncEncoding::H264 => ThirdPartyCodecLock::H26x(VideoCodecType::H264),
    }
}

/// The locks held, in the order RustDesk, RTSP, VNC, each only when enabled.
pub open spec fn spec_locks(c: ThirdPartyConfig) -> Seq<SourceLock> {
    let a: Seq<SourceLock> = if c.rustdesk_enabled {
        seq![("RustDesk"@, ThirdPartyCodecLock::H26x(spec_rustdesk_codec(c.rustdesk_codec)))]
    } else {
        seq![]
    };
    let b: Seq<SourceLock> = if c.rtsp_enabled {
        seq![("RTSP"@, ThirdPartyCodecLock::H26x(spec_rtsp_codec(c.rtsp_codec)))]
    } else {
        seq![]
    };
    let v: Seq<SourceLock> = if c.vnc_enabled {
        seq![("VNC"@, spec_vnc_lock(c.vnc_encoding))]
    } else {
        seq![]
    };
    a + b + v
}

/// The names of the services, joined by `/`.
pub open spec fn spec_join_sources(s: Seq<SourceLock>) -> Seq<char>
    decreases s.len(),
{
    if s.len() == 0 {
        Seq::empty()
    } else if s.len() == 1 {
        s[0].0
    } else {
        spec_join_sources(s.drop_last()) + "/"@ + s.last().0
    }
}

pub open spec fn spec_lock_reason(s: Seq<SourceLock>) -> Seq<char> {
    spec_join_sources(s) + " enabled with codec lock ("@ + spec_lock_label(s[0].1) + ")"@
}

pub open spec fn spec_conflict_message(item: SourceLock, first: SourceLock) -> Seq<char> {
    item.0 + " codec "@ + spec_lock_label(item.1) + " conflicts with "@ + first.0 + " codec "@
        + spec_lock_label(first.1)
        + "; choose a compatible codec or stop the running service first"@
}

pub open spec fn spec_api_ids(c: StreamCodecConstraints) -> Seq<Seq<char>> {
    let head: Seq<Seq<char>> = if c.allow_mjpeg {
        seq!["mjpeg"@]
    } else {
        seq![]
    };
    head + c.allowed_webrtc_codecs@.map_values(|codec: VideoCodecType| spec_codec_id(codec))
}

pub open spec fn spec_preferred(c: StreamCodecConstraints) -> VideoCodecType {
    match c.locked_codec {
        Some(codec) => codec,
        None => if c.allowed_webrtc_codecs@.len() > 0 {
            c.allowed_webrtc_codecs@[0]
        } else {
            VideoCodecType::H264
        },
    }
}

/// No service holds a lock: every codec and MJPEG are allowed.
pub open spec fn is_unrestricted(r: StreamCodecConstraints) -> bool {
    &&& !r.rustdesk_enabled
    &&& !r.rtsp_enabled
    &&& !r.vnc_enabled
    &&& r.allowed_webrtc_codecs@ == seq![
        VideoCodecType::H264,
        VideoCodecType::H265,
        VideoCodecType::VP8,
        VideoCodecType::VP9,
    ]
    &&& r.allow_mjpeg
    &&& r.locked_codec is None
    &&& r.reason@ == "No codec lock active"@
}

struct ThirdPartySourceLock {
    source: &'static str,
    lock: ThirdPartyCodecLock,
}

spec fn lock_views(v: Seq<ThirdPartySourceLock>) -> Seq<SourceLock> {
    v.map_values(|l: ThirdPartySourceLock| (l.source@, l.lock))
}

fn third_party_locks(config: &ThirdPartyConfig) -> (r: Vec<ThirdPartySourceLock>)
    ensures
        lock_views(r@) == spec_locks(*config),
{
    let mut locks: Vec<ThirdPartySourceLock> = Vec::new();
    if config.rustdesk_enabled {
        locks.push(
            ThirdPartySourceLock {
                source: "RustDesk",
                lock: ThirdPartyCodecLock::H26x(rustdesk_codec_to_video(config.rustdesk_codec)),
            },
        );
    }
    if config.rtsp_enabled {
        locks.push(
            ThirdPartySourceLock {
                source: "RTSP",
                lock: ThirdPartyCodecLock::H26x(rtsp_codec_to_video_codec(config.rtsp_codec)),
            },
        );
    }
    if config.vnc_enabled {
        let lock = match config.vnc_encoding {
            VncEncoding::TightJpeg => ThirdPartyCodecLock::Mjpeg,
            VncEncoding::H264 => ThirdPartyCodecLock::H26x(VideoCodecType::H264),
        };
        locks.push(ThirdPartySourceLock { source: "VNC", lock });
    }
    proof {
        assert(lock_views(locks@) =~= spec_locks(*config));
    }
    locks
}

fn join_sources(locks: &Vec<ThirdPartySourceLock>) -> (r: String)
    ensures
        r@ == spec_join_sources(lock_views(locks@)),
{
    let mut out = String::new();
    let mut i: usize = 0;
    while i < locks.len()
        invariant
            i <= locks.len(),
            out@ == spec_join_sources(lock_views(locks@.take(i as int))),
        decreases locks.len() - i,
    {
        proof {
            let next = lock_views(locks@.take(i as int + 1));
            assert(next.drop_last() =~= lock_views(locks@.take(i as int)));
        }
        if i > 0 {
            out.append("/");
        }
        out.append(locks[i].source);
        proof {
            reveal_strlit("/");
            let next = lock_views(locks@.take(i as int + 1));
            if i == 0 {
                assert(out@ =~= next[0].0);
            } else {
                assert(out@ =~= spec_join_sources(next.drop_last()) + "/"@ + next.last().0);
            }
        }
        i = i + 1;
    }
    proof {
        assert(locks@.take(locks@.len() as int) =~= locks@);
    }
    out
}

fn codec_vec(codec: VideoCodecType) -> (r: Vec<VideoCodecType>)
    ensures
        r@ == seq![codec],
{
    let mut v: Vec<VideoCodecType> = Vec::new();
    v.push(codec);
    v
}

impl StreamCodecConstraints {
    pub fn unrestricted() -> (r: StreamCodecConstraints)
        ensures
            is_unrestricted(r),
    {
        let mut codecs: Vec<VideoCodecType> = Vec::new();
        codecs.push(VideoCodecType::H264);
        codecs.push(VideoCodecType::H265);
        codecs.push(VideoCodecType::VP8);
        codecs.push(VideoCodecType::VP9);
        proof {
            assert(codecs@ =~= seq![
                VideoCodecType::H264,
                VideoCodecType::H265,
                VideoCodecType::VP8,
                VideoCodecType::VP9,
            ]);
        }
        StreamCodecConstraints {
            rustdesk_enabled: false,
            rtsp_enabled: false,
            vnc_enabled: false,
            allowed_webrtc_codecs: codecs,
            allow_mjpeg: true,
            locked_codec: None,
            reason: String::from_str("No codec lock active"),
        }
    }

    /// The constraints that the enabled services impose: the first lock, in
    /// the order RustDesk, RTSP, VNC, decides; an H.264/H.265 lock allows
    /// only that codec over WebRTC and no MJPEG, an MJPEG lock only MJPEG.
    pub fn from_config(config: &ThirdPartyConfig) -> (r: StreamCodecConstraints)
        ensures
            ({
                let locks = spec_locks(*config);
                if locks.len() == 0 {
                    is_unrestricted(r)
                } else {
                    &&& r.rustdesk_enabled == config.rustdesk_enabled
                    &&& r.rtsp_enabled == config.rtsp_enabled
                    &&& r.vnc_enabled == config.vnc_enabled
                    &&& r.reason@ == spec_lock_reason(locks)
                    &&& match locks[0].1 {
                        ThirdPartyCodecLock::H26x(codec) => {
                            &&& r.allowed_webrtc_codecs@ == seq![codec]
                            &&& !r.allow_mjpeg
                            &&& r.locked_codec == Some(codec)
                        },
                        ThirdPartyCodecLock::Mjpeg => {
                            &&& r.allowed_webrtc_codecs@.len() == 0
                            &&& r.allow_mjpeg
                            &&& r.locked_codec is None
                        },
                    }
                }
            }),
    {
        let locks = third_party_locks(config);
        if locks.len() == 0 {
            return Self::unrestricted();
        }
        let first_lock = locks[0].lock;
        let mut reason = join_sources(&locks);
        reason.append(" enabled with codec lock (");
        reason.append(first_lock.label());
        reason.append(")");
        proof {
            assert(lock_views(locks@)[0].1 == first_lock);
        }
        match first_lock {
            ThirdPartyCodecLock::H26x(codec) => StreamCodecConstraints {
                rustdesk_enabled: config.rustdesk_enabled,
                rtsp_enabled: config.rtsp_enabled,
                vnc_enabled: config.vnc_enabled,
                allowed_webrtc_codecs: codec_vec(codec),
                allow_mjpeg: false,
                locked_codec: Some(codec),
                reason,
            },
            ThirdPartyCodecLock::Mjpeg => StreamCodecConstraints {
                rustdesk_enabled: config.rustdesk_enabled,
                rtsp_enabled: config.rtsp_enabled,
                vnc_enabled: config.vnc_enabled,
                allowed_webrtc_codecs: Vec::new(),
                allow_mjpeg: true,
                locked_codec: None,
                reason,
            },
        }
    }

    pub fn is_mjpeg_allowed(&self) -> (r: bool)
        ensures
            r == self.allow_mjpeg,
    {
        self.allow_mjpeg
    }

    pub fn is_webrtc_codec_allowed(&self, codec: VideoCodecType) -> (r: bool)
        ensures
            r == self.allowed_webrtc_codecs@.contains(codec),
    {
        let mut i: usize = 0;
        while i < self.allowed_webrtc_codecs.len()
            invariant
                i <= self.allowed_webrtc_codecs.len(),
                forall|j: int| 0 <= j < i ==> self.allowed_webrtc_codecs@[j] != codec,
            decreases self.allowed_webrtc_codecs.len() - i,
        {
            if self.allowed_webrtc_codecs[i] == codec {
                return true;
            }
            i = i + 1;
        }
        false
    }

    /// The locked codec, else the first allowed one, else H.264.
    pub fn preferred_webrtc_codec(&self) -> (r: VideoCodecType)
        ensures
            r == spec_preferred(*self),
    {
        if let Some(codec) = self.locked_codec {
            return codec;
        }
        if self.allowed_webrtc_codecs.len() > 0 {
            self.allowed_webrtc_codecs[0]
        } else {
            VideoCodecType::H264
        }
    }

    /// The identifiers the web API offers: `mjpeg` first where allowed, then
    /// the allowed WebRTC codecs in order.
    pub fn allowed_codecs_for_api(&self) -> (r: Vec<&'static str>)
        ensures
            r@.len() == spec_api_ids(*self).len(),
            forall|i: int| 0 <= i < r@.len() ==> (#[trigger] r@[i])@ == spec_api_ids(*self)[i],
    {
        let mut codecs: Vec<&'static str> = Vec::new();
        if self.allow_mjpeg {
            codecs.push("mjpeg");
        }
        let ghost head_len = codecs@.len();
        let mut i: usize = 0;
        while i < self.allowed_webrtc_codecs.len()
            invariant
                i <= self.allowed_webrtc_codecs.len(),
                head_len == (if self.allow_mjpeg { 1int } else { 0int }),
                codecs@.len() == head_len + i,
                forall|j: int|
                    0 <= j < codecs@.len() ==> (#[trigger] codecs@[j])@ == spec_api_ids(
                        *self,
                    )[j],
            decreases self.allowed_webrtc_codecs.len() - i,
        {
            codecs.push(codec_to_id(self.allowed_webrtc_codecs[i]));
            i = i + 1;
        }
        codecs
    }
}

/// Whether every enabled service holds the same lock; where one does not,
/// the error names the first such service and the first service.
pub fn validate_third_party_codec_compatibility(config: &ThirdPartyConfig) -> (r: Result<(), String>)
    ensures
        ({
            let locks = spec_locks(*config);
            match r {
                Ok(()) => forall|i: int| 1 <= i < locks.len() ==> #[trigger] locks[i].1 == locks[0].1,
                Err(msg) => exists|k: int|
                    1 <= k < locks.len() && #[trigger] locks[k].1 != locks[0].1 && (forall|j: int|
                        1 <= j < k ==> #[trigger] locks[j].1 == locks[0].1) && msg@
                        == spec_conflict_message(locks[k], locks[0]),
            }
        }),
{
    let locks = third_party_locks(config);
    let ghost lv = lock_views(locks@);
    if locks.len() == 0 {
        return Ok(());
    }
    let mut i: usize = 1;
    while i < locks.len()
        invariant
            1 <= i <= locks.len(),
            lv == lock_views(locks@),
            lv == spec_locks(*config),
            forall|j: int| 1 <= j < i ==> #[trigger] lv[j].1 == lv[0].1,
        decreases locks.len() - i,
    {
        if !locks[0].lock.compatible_with(locks[i].lock) {
            let mut msg = String::from_str(locks[i].source);
            msg.append(" codec ");
            msg.append(locks[i].lock.label());
            msg.append(" conflicts with ");
            msg.append(locks[0].source);
            msg.append(" codec ");
            msg.append(locks[0].lock.label());
            msg.append("; choose a compatible codec or stop the running service first");
            proof {
                assert(lv[i as int].1 != lv[0].1);
                assert(msg@ =~= spec_conflict_message(lv[i as int], lv[0]));
            }
            return Err(msg);
        }
        i = i + 1;
    }
    Ok(())
}

/// What the stream manager must do to bring the running stream within the
/// constraints.
#[derive(Debug, Clone, Copy, PartialEq, Eq, Structural)]
pub enum ConstraintAction {
    /// Nothing to change.
    Keep,
    /// Set the codec, then switch from MJPEG to WebRTC.
    SwitchToWebRtc(VideoCodecType),
    /// Switch from WebRTC to MJPEG.
    SwitchToMjpeg,
    /// Stay on WebRTC and change the codec.
    ChangeCodec(VideoCodecType),
}

pub open spec fn spec_plan_action(
    mode: StreamMode,
    current_codec: VideoCodecType,
    c: StreamCodecConstraints,
) -> ConstraintAction {
    if mode == StreamMode::Mjpeg {
        if !c.allow_mjpeg {
            ConstraintAction::SwitchToWebRtc(spec_preferred(c))
        } else {
            ConstraintAction::Keep
        }
    } else if c.allow_mjpeg && c.allowed_webrtc_codecs@.len() == 0 {
        ConstraintAction::SwitchToMjpeg
    } else if !c.allowed_webrtc_codecs@.contains(current_codec) {
        ConstraintAction::ChangeCodec(spec_preferred(c))
    } else {
        ConstraintAction::Keep
    }
}

pub open spec fn spec_plan_message(
    mode: StreamMode,
    current_codec: VideoCodecType,
    c: StreamCodecConstraints,
) -> Option<Seq<char>> {
    match spec_plan_action(mode, current_codec, c) {
        ConstraintAction::Keep => None,
        ConstraintAction::SwitchToWebRtc(codec) => Some(
            "Auto-switched from MJPEG to "@ + spec_codec_id(codec) + " due to codec lock"@,
        ),
        ConstraintAction::SwitchToMjpeg => Some(
            "Auto-switched from WebRTC to MJPEG due to codec lock"@,
        ),
        ConstraintAction::ChangeCodec(codec) => Some(
            "Auto-switched codec from "@ + spec_codec_id(current_codec) + " to "@ + spec_codec_id(
                codec,
            ) + " due to codec lock"@,
        ),
    }
}

/// Decides how to enforce `constraints` on a stream running in `mode` with
/// `current_codec`, and what to report once the action has been carried out.
pub fn plan_constraint_enforcement(
    mode: StreamMode,
    current_codec: VideoCodecType,
    constraints: &StreamCodecConstraints,
) -> (r: (ConstraintAction, ConstraintEnforcementResult))
    ensures
        r.0 == spec_plan_action(mode, current_codec, *constraints),
        r.1.changed == (r.0 != ConstraintAction::Keep),
        match (r.1.message, spec_plan_message(mode, current_codec, *constraints)) {
            (None, None) => true,
            (Some(m), Some(s)) => m@ == s,
            _ => false,
        },
{
    if mode == StreamMode::Mjpeg {
        if !constraints.allow_mjpeg {
            let target = constraints.preferred_webrtc_codec();
            let mut msg = String::from_str("Auto-switched from MJPEG to ");
            msg.append(codec_to_id(target));
            msg.append(" due to codec lock");
            return (
                ConstraintAction::SwitchToWebRtc(target),
                ConstraintEnforcementResult { changed: true, message: Some(msg) },
            );
        }
        return (ConstraintAction::Keep, ConstraintEnforcementResult { changed: false, message: None });
    }
    if constraints.allow_mjpeg && constraints.allowed_webrtc_codecs.len() == 0 {
        let msg = String::from_str("Auto-switched from WebRTC to MJPEG due to codec lock");
        return (
            ConstraintAction::SwitchToMjpeg,
            ConstraintEnforcementResult { changed: true, message: Some(msg) },
        );
    }
    if !constraints.is_webrtc_codec_allowed(current_codec) {
        let target = constraints.preferred_webrtc_codec();
        let mut msg = String::from_str("Auto-switched codec from ");
        msg.append(codec_to_id(current_codec));
        msg.append(" to ");
        msg.append(codec_to_id(target));
        msg.append(" due to codec lock");
        return (
            ConstraintAction::ChangeCodec(target),
            ConstraintEnforcementResult { changed: true, message: Some(msg) },
        );
    }
    (ConstraintAction::Keep, ConstraintEnforcementResult { changed: false, message: None })
}

} // verus!
