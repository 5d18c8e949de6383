use kvm_video::codec_constraints::{
    codec_to_id, encoder_codec_to_id, encoder_codec_to_video_codec, plan_constraint_enforcement,
    rtsp_codec_to_video_codec, rustdesk_codec_to_video, validate_third_party_codec_compatibility,
    video_codec_to_encoder_codec, vnc_encoding_to_video_codec, ConstraintAction, RtspCodec,
    RustDeskCodec, StreamCodecConstraints, StreamMode, ThirdPartyConfig, VncEncoding,
};
use kvm_video::encoder::{
    best_codec, check_encode_input, codec_name_to_type, detect_best_encoder,
    detect_best_h265_encoder, detect_best_vp9_encoder, frame_from_packets, h265_input_for_codec,
    is_h265_available, is_vp9_available, pts_ms_for_sequence, select_h264_codec,
    select_h265_codec, select_vp9_codec, vp9_input_for_codec, EncodedFormat, EncodedFrame,
    H264Config, H264EncoderType, H264InputFormat, H265Config, H265EncoderType, H265InputFormat,
    HwEncodeFrame, VP9Config, VP9EncoderType, VP9InputFormat, VideoCodecConfig, VideoCodecType,
};
use kvm_video::encoder_selection::{
    backend_debug_name, encoder_input_plan, h264_direct_input_format, h264_encoder_input,
    h265_direct_input_format, h265_encoder_input, pipeline_input_format, select_pipeline_encoder,
    EncoderInputPlan,
};
use kvm_video::format::PixelFormat;
use kvm_video::format::Resolution;
use kvm_video::h264_bitstream::{is_keyframe, parse_profile_level_id_from_sps, strip_aud_nal_units};
use kvm_video::h265_bitstream::{
    extract_vps_sps_pps, has_vps_sps_pps, is_keyframe as h265_is_keyframe, nal_units,
};
use kvm_video::registry::{CodecInfo, DataFormat, EncoderBackend, EncoderRegistry, VideoEncoderType};
use kvm_video::stream_manager::{begin_mode_switch, codec_to_string, mode_to_string, plan_mode_switch};

#[test]
fn detects_h264_keyframes() {
    let idr_frame = vec![0x00, 0x00, 0x00, 0x01, 0x65];
    assert!(is_keyframe(&idr_frame));

    let idr_frame_3 = vec![0x00, 0x00, 0x01, 0x65];
    assert!(is_keyframe(&idr_frame_3));

    let p_frame = vec![0x00, 0x00, 0x00, 0x01, 0x41];
    assert!(!is_keyframe(&p_frame));

    let sps = vec![0x00, 0x00, 0x00, 0x01, 0x67];
    assert!(!is_keyframe(&sps));

    let multi_nal = vec![
        0x00, 0x00, 0x00, 0x01, 0x67, 0x42, 0x00, 0x1f, 0x00, 0x00, 0x00, 0x01, 0x68, 0xce, 0x38,
        0x80, 0x00, 0x00, 0x00, 0x01, 0x65, 0x88, 0x84,
    ];
    assert!(is_keyframe(&multi_nal));
}

#[test]
fn parses_profile_level_id_from_sps() {
    assert_eq!(
        parse_profile_level_id_from_sps(&[0x67, 0x42, 0x40, 0x2a]),
        Some("42402a".to_string())
    );
}

#[test]
fn detects_irap_but_not_trail_frame() {
    assert!(h265_is_keyframe(&[0, 0, 0, 1, 19 << 1, 1, 0xaa]));
    assert!(h265_is_keyframe(&[0, 0, 1, 21 << 1, 1, 0xbb]));
    assert!(!h265_is_keyframe(&[0, 0, 0, 1, 1 << 1, 1, 0xcc]));
}

#[test]
fn extracts_parameter_sets() {
    let data = [
        0,
        0,
        0,
        1,
        32 << 1,
        1,
        0xaa,
        0,
        0,
        1,
        33 << 1,
        1,
        0xbb,
        0,
        0,
        0,
        1,
        34 << 1,
        1,
        0xcc,
    ];
    let (vps, sps, pps) = extract_vps_sps_pps(&data);
    assert_eq!(vps.unwrap(), [32 << 1, 1, 0xaa]);
    assert_eq!(sps.unwrap(), [33 << 1, 1, 0xbb]);
    assert_eq!(pps.unwrap(), [34 << 1, 1, 0xcc]);
    assert!(has_vps_sps_pps(&data));
}

#[test]
fn test_video_encoder_type_display() {
    assert_eq!(VideoEncoderType::H264.display_name(), "H.264");
    assert_eq!(VideoEncoderType::H265.display_name(), "H.265/HEVC");
    assert_eq!(VideoEncoderType::VP8.display_name(), "VP8");
    assert_eq!(VideoEncoderType::VP9.display_name(), "VP9");
}

#[test]
fn test_encoder_backend_detection() {
    assert_eq!(
        EncoderBackend::from_codec_name("h264_vaapi"),
        EncoderBackend::Vaapi
    );
    assert_eq!(
        EncoderBackend::from_codec_name("hevc_nvenc"),
        EncoderBackend::Nvenc
    );
    assert_eq!(
        EncoderBackend::from_codec_name("h264_qsv"),
        EncoderBackend::Qsv
    );
    assert_eq!(
        EncoderBackend::from_codec_name("libx264"),
        EncoderBackend::Software
    );
}

#[test]
fn test_codec_ordering() {
    assert_eq!(
        VideoEncoderType::ordered(),
        [
            VideoEncoderType::H264,
            VideoEncoderType::H265,
            VideoEncoderType::VP8,
            VideoEncoderType::VP9,
        ]
    );
}

#[test]
fn test_codec_type_properties() {
    assert_eq!(VideoCodecType::H264.sdp_name(), "H264");
    assert_eq!(VideoCodecType::H264.default_payload_type(), 96);
    assert_eq!(VideoCodecType::H264.clock_rate(), 90000);
    assert_eq!(VideoCodecType::H264.mime_type(), "video/H264");
}

#[test]
fn test_codec_config_default() {
    let config = VideoCodecConfig::default();
    assert_eq!(config.codec, VideoCodecType::H264);
    assert_eq!(config.bitrate_kbps, 2000);
    assert_eq!(config.fps, 30);
}

#[test]
fn test_codec_config_h264() {
    let config = VideoCodecConfig::h264(Resolution::HD1080(), 4000, 60);
    assert_eq!(config.codec, VideoCodecType::H264);
    assert_eq!(config.bitrate_kbps, 4000);
    assert_eq!(config.fps, 60);
    assert_eq!(config.gop_size, 60);
}

fn probed_codecs() -> Vec<CodecInfo> {
    vec![
        CodecInfo { name: "libx265".to_string(), format: DataFormat::H265, priority: 10 },
        CodecInfo { name: "hevc_vaapi".to_string(), format: DataFormat::H265, priority: 0 },
        CodecInfo { name: "vp9_vaapi".to_string(), format: DataFormat::VP9, priority: 0 },
    ]
}

#[test]
fn test_detect_encoder() {
    let (encoder_type, codec_name) = detect_best_encoder(&probed_codecs());
    println!("Detected encoder: {:?} ({:?})", encoder_type, codec_name);
}

#[test]
fn test_detect_h265_encoder() {
    let (encoder_type, codec_name) = detect_best_h265_encoder(&probed_codecs());
    println!(
        "Detected H.265 encoder: {:?} ({:?})",
        encoder_type, codec_name
    );
}

#[test]
fn test_h265_availability() {
    let mut registry = EncoderRegistry::new();
    registry.register_detected(1280, 720, &probed_codecs());
    let available = is_h265_available(&registry);
    println!("H.265 hardware encoding available: {}", available);
}

#[test]
fn test_detect_vp9_encoder() {
    let (encoder_type, codec_name) = detect_best_vp9_encoder(&probed_codecs());
    println!("Detected VP9 encoder: {:?} ({:?})", encoder_type, codec_name);
}

#[test]
fn test_vp9_availability() {
    let mut registry = EncoderRegistry::new();
    registry.register_detected(1280, 720, &probed_codecs());
    let available = is_vp9_available(&registry);
    println!("VP9 hardware encoding available: {}", available);
}

#[test]
fn hardware_encoders_are_preferred_once_registered() {
    let mut registry = EncoderRegistry::new();
    registry.register_detected(1280, 720, &probed_codecs());
    assert!(is_h265_available(&registry));
    assert!(is_vp9_available(&registry));
    let empty = EncoderRegistry::new();
    assert!(!is_h265_available(&empty));
    let (_, name) = detect_best_h265_encoder(&probed_codecs());
    assert_eq!(name.as_deref(), Some("hevc_vaapi"));
}

#[test]
fn test_codec_to_string() {
    assert_eq!(codec_to_string(VideoCodecType::H264), "h264");
    assert_eq!(codec_to_string(VideoCodecType::H265), "h265");
    assert_eq!(codec_to_string(VideoCodecType::VP8), "vp8");
    assert_eq!(codec_to_string(VideoCodecType::VP9), "vp9");
}

#[test]
fn mode_names_and_switch_requests() {
    assert_eq!(mode_to_string(StreamMode::Mjpeg, VideoCodecType::VP9), "mjpeg");
    assert_eq!(mode_to_string(StreamMode::WebRTC, VideoCodecType::VP9), "vp9");

    let (t, start) = begin_mode_switch(StreamMode::Mjpeg, StreamMode::Mjpeg, false, None, "id-1".to_string());
    assert!(!t.accepted && !t.switching && t.transition_id.is_none() && !start);

    let (t, start) = begin_mode_switch(
        StreamMode::Mjpeg,
        StreamMode::WebRTC,
        true,
        Some("running".to_string()),
        "id-2".to_string(),
    );
    assert!(!t.accepted && t.switching && !start);
    assert_eq!(t.transition_id.as_deref(), Some("running"));

    let (t, start) = begin_mode_switch(StreamMode::WebRTC, StreamMode::Mjpeg, false, None, "id-3".to_string());
    assert!(t.accepted && t.switching && start);
    assert_eq!(t.transition_id.as_deref(), Some("id-3"));
}

fn services(rustdesk: bool, rtsp: bool, vnc: bool) -> ThirdPartyConfig {
    ThirdPartyConfig {
        rustdesk_enabled: rustdesk,
        rustdesk_codec: RustDeskCodec::H265,
        rtsp_enabled: rtsp,
        rtsp_codec: RtspCodec::H264,
        vnc_enabled: vnc,
        vnc_encoding: VncEncoding::TightJpeg,
    }
}

#[test]
fn codec_ids_and_conversions() {
    assert_eq!(codec_to_id(VideoCodecType::VP8), "vp8");
    assert_eq!(encoder_codec_to_id(VideoEncoderType::H265), "h265");
    for codec in [VideoCodecType::H264, VideoCodecType::H265, VideoCodecType::VP8, VideoCodecType::VP9] {
        let e = video_codec_to_encoder_codec(codec);
        assert_eq!(encoder_codec_to_video_codec(e), codec);
        assert_eq!(encoder_codec_to_id(e), codec_to_id(codec));
    }
    assert_eq!(rustdesk_codec_to_video(RustDeskCodec::H265), VideoCodecType::H265);
    assert_eq!(rtsp_codec_to_video_codec(RtspCodec::H264), VideoCodecType::H264);
    assert_eq!(vnc_encoding_to_video_codec(VncEncoding::TightJpeg), None);
    assert_eq!(vnc_encoding_to_video_codec(VncEncoding::H264), Some(VideoCodecType::H264));
}

#[test]
fn no_service_means_no_lock() {
    let c = StreamCodecConstraints::from_config(&services(false, false, false));
    assert!(c.is_mjpeg_allowed());
    assert_eq!(c.allowed_webrtc_codecs.len(), 4);
    assert_eq!(c.locked_codec, None);
    assert_eq!(c.reason, "No codec lock active");
    assert_eq!(c.allowed_codecs_for_api(), vec!["mjpeg", "h264", "h265", "vp8", "vp9"]);
    assert_eq!(c.preferred_webrtc_codec(), VideoCodecType::H264);
}

#[test]
fn first_service_decides_the_lock() {
    let c = StreamCodecConstraints::from_config(&services(true, true, false));
    assert!(!c.is_mjpeg_allowed());
    assert_eq!(c.locked_codec, Some(VideoCodecType::H265));
    assert_eq!(c.reason, "RustDesk/RTSP enabled with codec lock (h265)");
    assert!(c.is_webrtc_codec_allowed(VideoCodecType::H265));
    assert!(!c.is_webrtc_codec_allowed(VideoCodecType::H264));
    assert_eq!(c.allowed_codecs_for_api(), vec!["h265"]);

    let m = StreamCodecConstraints::from_config(&services(false, false, true));
    assert!(m.is_mjpeg_allowed());
    assert!(m.allowed_webrtc_codecs.is_empty());
    assert_eq!(m.reason, "VNC enabled with codec lock (mjpeg)");
}

#[test]
fn conflicting_services_are_refused() {
    assert_eq!(validate_third_party_codec_compatibility(&services(false, true, false)), Ok(()));
    let err = validate_third_party_codec_compatibility(&services(true, true, true)).unwrap_err();
    assert_eq!(
        err,
        "RTSP codec h264 conflicts with RustDesk codec h265; choose a compatible codec or stop the running service first"
    );
    let mut same = services(true, true, false);
    same.rtsp_codec = RtspCodec::H265;
    assert_eq!(validate_third_party_codec_compatibility(&same), Ok(()));
}

#[test]
fn enforcement_plans_follow_the_constraints() {
    let locked = StreamCodecConstraints::from_config(&services(true, false, false));
    let (action, result) = plan_constraint_enforcement(StreamMode::Mjpeg, VideoCodecType::H264, &locked);
    assert_eq!(action, ConstraintAction::SwitchToWebRtc(VideoCodecType::H265));
    assert!(result.changed);
    assert_eq!(result.message.as_deref(), Some("Auto-switched from MJPEG to h265 due to codec lock"));

    let (action, result) = plan_constraint_enforcement(StreamMode::WebRTC, VideoCodecType::VP8, &locked);
    assert_eq!(action, ConstraintAction::ChangeCodec(VideoCodecType::H265));
    assert_eq!(
        result.message.as_deref(),
        Some("Auto-switched codec from vp8 to h265 due to codec lock")
    );

    let mjpeg_only = StreamCodecConstraints::from_config(&services(false, false, true));
    let (action, result) = plan_constraint_enforcement(StreamMode::WebRTC, VideoCodecType::H264, &mjpeg_only);
    assert_eq!(action, ConstraintAction::SwitchToMjpeg);
    assert_eq!(result.message.as_deref(), Some("Auto-switched from WebRTC to MJPEG due to codec lock"));

    let free = StreamCodecConstraints::unrestricted();
    let (action, result) = plan_constraint_enforcement(StreamMode::WebRTC, VideoCodecType::VP9, &free);
    assert_eq!(action, ConstraintAction::Keep);
    assert!(!result.changed);
    assert!(result.message.is_none());
}

#[test]
fn encoder_choice_among_probed_codecs() {
    let codecs = probed_codecs();
    let (t, name) = detect_best_h265_encoder(&codecs);
    assert_eq!(t, H265EncoderType::Vaapi);
    assert_eq!(name.as_deref(), Some("hevc_vaapi"));
    let only_software = vec![CodecInfo { name: "libx265".to_string(), format: DataFormat::H265, priority: 10 }];
    let (t, name) = detect_best_h265_encoder(&only_software);
    assert_eq!(t, H265EncoderType::Software);
    assert_eq!(name.as_deref(), Some("libx265"));
    let (t, name) = detect_best_vp9_encoder(&codecs);
    assert_eq!(t, VP9EncoderType::Vaapi);
    assert_eq!(name.as_deref(), Some("vp9_vaapi"));
    let (t, name) = detect_best_encoder(&codecs);
    assert_eq!(t, H264EncoderType::Unavailable);
    assert!(name.is_none());
    let with_h264 = vec![
        CodecInfo { name: "hevc_nvenc".to_string(), format: DataFormat::H265, priority: 0 },
        CodecInfo { name: "h264_nvenc".to_string(), format: DataFormat::H264, priority: 0 },
        CodecInfo { name: "h264_vaapi".to_string(), format: DataFormat::H264, priority: 0 },
    ];
    let (t, name) = detect_best_encoder(&with_h264);
    assert_eq!(t, H264EncoderType::Nvenc);
    assert_eq!(name.as_deref(), Some("h264_nvenc"));
    assert_eq!(select_h264_codec(&with_h264), Ok("h264_nvenc".to_string()));
    assert_eq!(select_h264_codec(&codecs), Err("No H.264 encoder available".to_string()));
    assert_eq!(select_h265_codec(&codecs), Ok("hevc_vaapi".to_string()));
    assert_eq!(
        select_vp9_codec(&with_h264),
        Err("No VP9 encoder available. Please ensure FFmpeg is built with libvpx support.".to_string())
    );
    assert_eq!(
        select_h265_codec(&[]),
        Err("No H.265 encoder available. Please ensure FFmpeg is built with libx265 support.".to_string())
    );
    assert_eq!(codec_name_to_type("h264_v4l2m2m"), H264EncoderType::V4l2M2m);
    assert_eq!(codec_name_to_type("libx264"), H264EncoderType::Software);
    assert_eq!(H264EncoderType::default().name(), "None");
    assert_eq!(H265EncoderType::from(EncoderBackend::Rkmpp), H265EncoderType::Rkmpp);
    assert_eq!(VP9EncoderType::from(EncoderBackend::Nvenc), VP9EncoderType::Unavailable);
}

#[test]
fn software_encoders_take_yuv420p() {
    assert_eq!(h265_input_for_codec("libx265", H265InputFormat::Nv12), H265InputFormat::Yuv420p);
    assert_eq!(h265_input_for_codec("hevc_rkmpp", H265InputFormat::Yuyv422), H265InputFormat::Yuyv422);
    assert_eq!(vp9_input_for_codec("libvpx-vp9", VP9InputFormat::Nv12), VP9InputFormat::Yuv420p);
    assert_eq!(vp9_input_for_codec("vp9_vaapi", VP9InputFormat::Nv12), VP9InputFormat::Nv12);
    assert!(H264InputFormat::Yuyv422.supports_format(PixelFormat::Yuyv));
    assert!(!H264InputFormat::Nv21.supports_format(PixelFormat::Nv12));
    assert!(H265InputFormat::Yuv420p.supports_format(PixelFormat::Yuv420));
}

#[test]
fn encoder_configs() {
    let c = H264Config::quality(Resolution::HD720(), 3000);
    assert_eq!(c.gop_size, 60);
    assert_eq!(c.base.quality, 3000);
    assert_eq!(c.input_format, H264InputFormat::Nv12);
    let c = H264Config::low_latency_yuyv422(Resolution::HD720(), 3000).with_input_format(H264InputFormat::Rgb24);
    assert_eq!(c.input_format, H264InputFormat::Rgb24);
    assert_eq!(H264Config::default().bitrate_kbps, 1000);
    let c = H265Config::low_latency_yuyv422(Resolution::HD1080(), 5000);
    assert_eq!(c.base.input_format, PixelFormat::Yuyv);
    assert_eq!(c.input_format, H265InputFormat::Yuyv422);
    assert_eq!(H265Config::quality(Resolution::HD1080(), 5000).base.gop_size, 60);
    assert_eq!(H265Config::default().bitrate_kbps, 8000);
    assert_eq!(VP9Config::low_latency(Resolution::HD720(), 1500).base.input_format, PixelFormat::Nv12);
    assert_eq!(VP9Config::default().input_format, VP9InputFormat::Nv12);
    let v = VideoCodecConfig::h265(Resolution::HD720(), 1000, 25);
    assert_eq!(v.profile.as_deref(), Some("main"));
    assert_eq!(v.level.as_deref(), Some("4.0"));
    assert_eq!(v.gop_size, 25);
    assert!(VideoCodecConfig::vp8(Resolution::HD720(), 1000, 25).profile.is_none());
}

#[test]
fn codec_type_names_and_best_codec() {
    assert_eq!(VideoCodecType::H265.mime_type(), "video/H265");
    assert_eq!(VideoCodecType::VP9.default_payload_type(), 98);
    assert_eq!(best_codec(&[VideoCodecType::H265, VideoCodecType::VP9]), Some(VideoCodecType::VP9));
    assert_eq!(best_codec(&[VideoCodecType::H265, VideoCodecType::H264]), Some(VideoCodecType::H264));
    assert_eq!(best_codec(&[]), None);
    assert_eq!(EncodedFormat::H265.name(), "H.265");
}

#[test]
fn encoder_output_becomes_one_frame() {
    assert_eq!(check_encode_input(10, 12), Err("Frame data too small: 10 < 12".to_string()));
    assert_eq!(check_encode_input(12, 12), Ok(()));
    assert_eq!(pts_ms_for_sequence(3, 30), 100);
    let packets = vec![
        HwEncodeFrame { data: vec![1, 2, 3], pts: 40, key: 1 },
        HwEncodeFrame { data: vec![4], pts: 80, key: 0 },
    ];
    let f = frame_from_packets(packets, EncodedFormat::H265, Resolution::HD720(), 7, "none").unwrap();
    assert_eq!(f.data, vec![1, 2, 3]);
    assert!(f.key_frame);
    assert_eq!((f.sequence, f.pts, f.dts), (7, 40, 40));
    assert_eq!(f.format, EncodedFormat::H265);
    assert_eq!(
        frame_from_packets(Vec::new(), EncodedFormat::H264, Resolution::HD720(), 1, "Encoder returned no frames").unwrap_err(),
        "Encoder returned no frames"
    );
    let j = EncodedFrame::jpeg(vec![0xff, 0xd8], Resolution::HD720(), 5);
    assert!(j.key_frame);
    assert_eq!((j.pts, j.dts, j.len()), (5, 5, 2));
    let h = EncodedFrame::h264(Vec::new(), Resolution::HD720(), false, 2, 3, 4);
    assert!(h.is_empty());
    assert_eq!(h.format, EncodedFormat::H264);
}

fn rkmpp_codecs() -> Vec<CodecInfo> {
    vec![
        CodecInfo { name: "h264_rkmpp".to_string(), format: DataFormat::H264, priority: 0 },
        CodecInfo { name: "hevc_vaapi".to_string(), format: DataFormat::H265, priority: 0 },
        CodecInfo { name: "vp8_vaapi".to_string(), format: DataFormat::VP8, priority: 0 },
    ]
}

#[test]
fn pipeline_encoder_selection() {
    let mut registry = EncoderRegistry::new();
    registry.register_detected(1280, 720, &rkmpp_codecs());

    let sel = select_pipeline_encoder(&registry, VideoEncoderType::H264, PixelFormat::Yuyv, None).unwrap();
    assert_eq!(sel.codec_name, "h264_rkmpp");
    assert!(sel.rkmpp_direct && sel.yuyv_direct);

    let sel = select_pipeline_encoder(&registry, VideoEncoderType::H264, PixelFormat::Mjpeg, Some(EncoderBackend::Software)).unwrap();
    assert_eq!(sel.codec_name, "libx264");
    assert!(!sel.rkmpp_direct && !sel.yuyv_direct);

    let sel = select_pipeline_encoder(&registry, VideoEncoderType::H264, PixelFormat::Nv12, Some(EncoderBackend::Software)).unwrap();
    assert_eq!(sel.codec_name, "h264_rkmpp");
    assert!(sel.rkmpp_direct && !sel.yuyv_direct);

    assert_eq!(
        select_pipeline_encoder(&registry, VideoEncoderType::H265, PixelFormat::Nv12, None).unwrap_err(),
        "RKMPP backend not available for H.265"
    );
    let sel = select_pipeline_encoder(&registry, VideoEncoderType::H265, PixelFormat::Mjpeg, None).unwrap();
    assert_eq!(sel.codec_name, "hevc_vaapi");
    assert_eq!(
        select_pipeline_encoder(&registry, VideoEncoderType::VP8, PixelFormat::Yuyv, Some(EncoderBackend::Nvenc)).unwrap_err(),
        "Backend Nvenc does not support VP8"
    );
    let sel = select_pipeline_encoder(&registry, VideoEncoderType::VP9, PixelFormat::Yuyv, None).unwrap();
    assert_eq!(sel.codec_name, "libvpx-vp9");

    let empty = EncoderRegistry::new();
    assert_eq!(
        select_pipeline_encoder(&empty, VideoEncoderType::VP9, PixelFormat::Yuyv, None).unwrap_err(),
        "No VP9 encoder available"
    );
    assert_eq!(
        select_pipeline_encoder(&empty, VideoEncoderType::H264, PixelFormat::Yuyv, Some(EncoderBackend::V4l2m2m)).unwrap_err(),
        "Backend V4l2m2m does not support H.264"
    );
}

#[test]
fn encoder_input_formats_for_codecs() {
    assert_eq!(pipeline_input_format(PixelFormat::Mjpeg), PixelFormat::Rgb24);
    assert_eq!(pipeline_input_format(PixelFormat::Nv16), PixelFormat::Nv16);
    assert_eq!(h264_direct_input_format("h264_rkmpp", PixelFormat::Yuyv), Some(H264InputFormat::Yuyv422));
    assert_eq!(h264_direct_input_format("libx264", PixelFormat::Yuyv), None);
    assert_eq!(h264_encoder_input("libx264", PixelFormat::Yuyv), H264InputFormat::Yuv420p);
    assert_eq!(h264_encoder_input("h264_vaapi", PixelFormat::Yuv420), H264InputFormat::Nv12);
    assert_eq!(h265_direct_input_format("libx265", PixelFormat::Yuv420), Some(H265InputFormat::Yuv420p));
    assert_eq!(h265_encoder_input("hevc_rkmpp", PixelFormat::Bgr24), H265InputFormat::Bgr24);
    assert_eq!(h265_encoder_input("hevc_nvenc", PixelFormat::Bgr24), H265InputFormat::Nv12);
    assert_eq!(
        encoder_input_plan("libx264", PixelFormat::Nv12),
        EncoderInputPlan { direct: true, needs_yuv420p: false }
    );
    assert_eq!(
        encoder_input_plan("libx264", PixelFormat::Rgb24),
        EncoderInputPlan { direct: false, needs_yuv420p: true }
    );
    assert_eq!(
        encoder_input_plan("libvpx-vp9", PixelFormat::Nv12),
        EncoderInputPlan { direct: false, needs_yuv420p: true }
    );
    assert_eq!(
        encoder_input_plan("h264_rkmpp", PixelFormat::Rgb24),
        EncoderInputPlan { direct: true, needs_yuv420p: false }
    );
    assert_eq!(backend_debug_name(EncoderBackend::Qsv), "Qsv");
}

#[test]
fn software_fallbacks_are_registered_once() {
    let mut registry = EncoderRegistry::new();
    registry.register_software_fallbacks();
    assert_eq!(registry.encoders_for_format(VideoEncoderType::H265).len(), 1);
    assert_eq!(registry.encoders_for_format(VideoEncoderType::VP8)[0].codec_name, "libvpx");
    registry.register_software_fallbacks();
    assert_eq!(registry.encoders_for_format(VideoEncoderType::H265).len(), 1);
    assert_eq!(EncoderBackend::from_str("RKMPP"), Some(EncoderBackend::Rkmpp));
    assert_eq!(EncoderBackend::from_str("Cpu"), Some(EncoderBackend::Software));
}

#[test]
fn mode_switch_plans() {
    let offered = [PixelFormat::Yuyv, PixelFormat::Mjpeg];
    let plan = plan_mode_switch(StreamMode::WebRTC, StreamMode::Mjpeg, VideoCodecType::H265, Some((PixelFormat::Yuyv, &offered)), false);
    assert_eq!(plan.mode, "mjpeg");
    assert_eq!(plan.previous_mode, "h265");
    assert!(!plan.stop_mjpeg && plan.switch_to_mjpeg_format && !plan.init_capture);
    let plan = plan_mode_switch(StreamMode::WebRTC, StreamMode::Mjpeg, VideoCodecType::H265, Some((PixelFormat::Mjpeg, &offered)), false);
    assert!(!plan.switch_to_mjpeg_format);
    let plan = plan_mode_switch(StreamMode::WebRTC, StreamMode::Mjpeg, VideoCodecType::H265, Some((PixelFormat::Yuyv, &[PixelFormat::Yuyv])), true);
    assert!(!plan.switch_to_mjpeg_format && !plan.init_capture);
    let plan = plan_mode_switch(StreamMode::Mjpeg, StreamMode::WebRTC, VideoCodecType::VP8, None, true);
    assert_eq!(plan.mode, "vp8");
    assert!(plan.stop_mjpeg && plan.init_capture && !plan.switch_to_mjpeg_format);
}

#[test]
fn stripping_aud_twice_changes_nothing() {
    let d = vec![0, 0, 0, 1, 0x09, 0xf0, 0, 0, 0, 1, 0x67, 0x42, 0, 0, 1, 0x65, 0x88];
    let once = strip_aud_nal_units(&d);
    assert_eq!(once, vec![0, 0, 0, 1, 0x67, 0x42, 0, 0, 1, 0x65, 0x88]);
    assert_eq!(strip_aud_nal_units(&once), once);
    let only_aud = vec![0, 0, 0, 1, 0x09, 0xf0];
    assert_eq!(strip_aud_nal_units(&only_aud), only_aud);
    // A unit ending in a zero before a four-byte start code, then a dropped
    // unit, then a three-byte start code: the boundary moves, the bytes do not.
    let d = vec![0, 0, 1, 0x67, 0x00, 0, 0, 0, 1, 0x09, 0xf0, 0, 0, 1, 0x65, 0x88];
    let once = strip_aud_nal_units(&d);
    assert_eq!(once, vec![0, 0, 1, 0x67, 0x00, 0, 0, 1, 0x65, 0x88]);
    assert_eq!(strip_aud_nal_units(&once), once);
    assert!(strip_aud_nal_units(&[]).is_empty());
}

#[test]
fn h265_unit_walk_visits_trimmed_units_in_order() {
    // VPS, then a one-byte unit (too short), then an IDR with trailing zeros.
    let data = vec![
        0, 0, 0, 1, 0x40, 0x01, 0xaa, 0, 0,
        0, 0, 1, 0x26,
        0, 0, 1, 0x26, 0x01, 0xbb, 0, 0,
    ];
    let units = nal_units(&data);
    assert_eq!(units, vec![(32, 4, 7), (19, 16, 19)]);
    assert!(nal_units(&[1, 2, 3, 0, 0]).is_empty());
    assert!(nal_units(&[]).is_empty());
}
