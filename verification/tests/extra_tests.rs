use kvm_video::capture::{grab_decision, GrabDecision, GrabOutcome};
use kvm_video::capture_status::{classify_open_failure, CaptureOpenFailure};
use kvm_video::encoder::{CodecFrame, VideoCodecType};
use kvm_video::format::{parse_pixel_format, PixelFormat, Resolution};
use kvm_video::frame::FrameBufferPool;
use kvm_video::convert::{check_libyuv_input, software_input_fits, ConversionRoute};
use kvm_video::mediacodec::{MediaCodecDecodeResult, MediaCodecPending};
use kvm_video::registry::{CodecInfo, DataFormat, EncoderBackend, EncoderRegistry};
use kvm_video::self_check::{
    build_hardware_self_check_runtime_error, run_hardware_self_check, self_check_jobs,
    SmokeTestOutcome,
};
use kvm_video::signal::SignalStatus;
use kvm_video::windows::{
    directshow_device_name, directshow_display_name_from_path, is_auto_device_path,
    score_capture_device, select_recovery_device, DeviceIdentity, VideoDeviceRecoveryHint,
};

use kvm_video::bridge::entity_name;
use kvm_video::jpeg::{
    check_jpeg_input, i420_buffer_len, jpeg_input_for, jpeg_quality_setting, jpeg_supports_format,
    unsupported_jpeg_input_message, JpegInput,
};
use kvm_video::shared_pipeline::profile_level_id_update;

#[test]
fn test_codec_frame_creation() {
    let data = vec![0x00, 0x00, 0x00, 0x01, 0x65];
    let frame = CodecFrame::h264(data.clone(), 1000, true, 1, 30);

    assert_eq!(frame.codec, VideoCodecType::H264);
    assert!(frame.is_keyframe);
    assert_eq!(frame.pts_ms, 1000);
    assert_eq!(frame.sequence, 1);
    assert_eq!(frame.len(), 5);
    assert_eq!(frame.duration_ms, 33);
    assert_eq!(CodecFrame::vp9(Vec::new(), 0, false, 2, 60).duration_ms, 16);
    assert!(CodecFrame::h265(Vec::new(), 0, false, 2, 1).is_empty());
}

#[test]
fn one_shot_capture_gives_up_after_five_tries() {
    assert_eq!(grab_decision(0, GrabOutcome::Frame { bytes_used: 128 }), GrabDecision::Return);
    assert_eq!(grab_decision(0, GrabOutcome::Frame { bytes_used: 127 }), GrabDecision::Retry);
    assert_eq!(grab_decision(4, GrabOutcome::Frame { bytes_used: 127 }), GrabDecision::FailNoFrame);
    assert_eq!(grab_decision(3, GrabOutcome::ReadError), GrabDecision::Retry);
    assert_eq!(grab_decision(4, GrabOutcome::ReadError), GrabDecision::FailWithError);
}

#[test]
fn open_failures_are_classified() {
    assert_eq!(
        classify_open_failure(Some("no_cable"), "ignored"),
        CaptureOpenFailure::NoSignal(SignalStatus::NoCable)
    );
    assert_eq!(
        classify_open_failure(Some("strange"), "ignored"),
        CaptureOpenFailure::NoSignal(SignalStatus::NoSignal)
    );
    assert_eq!(
        classify_open_failure(None, "open failed: No such device"),
        CaptureOpenFailure::DeviceLost("open failed: No such device".to_string())
    );
    assert_eq!(classify_open_failure(None, "permission denied"), CaptureOpenFailure::Fatal);
}

#[test]
fn mediacodec_gives_up_after_three_silent_inputs() {
    let mut pending = MediaCodecPending::new();
    for _ in 0..3 {
        assert_eq!(
            pending.record(MediaCodecDecodeResult::Failed(-11)),
            Err("mjpeg_mediacodec decode needs more input".to_string())
        );
    }
    assert_eq!(
        pending.record(MediaCodecDecodeResult::Frames(0)),
        Err("mjpeg_mediacodec decoder did not output after 3 frames".to_string())
    );
    assert_eq!(pending.pending_frames(), 4);
    assert_eq!(
        pending.record(MediaCodecDecodeResult::Failed(-22)),
        Err("mjpeg_mediacodec decode failed: -22".to_string())
    );
    assert_eq!(pending.record(MediaCodecDecodeResult::Frames(2)), Ok(()));
    assert_eq!(pending.pending_frames(), 0);
}

#[test]
fn directshow_names_and_scores() {
    assert_eq!(directshow_display_name_from_path("dshow:USB Video"), Some("USB Video".to_string()));
    assert_eq!(directshow_display_name_from_path("/dev/video0"), None);
    assert!(is_auto_device_path("AUTO"));
    assert!(!is_auto_device_path("autox"));
    assert_eq!(directshow_device_name(0, "  "), "Windows Capture Device 1");
    assert_eq!(directshow_device_name(4, "Cam"), "Cam");
    assert_eq!(score_capture_device("USB Capture HDMI", "dshow:USB Capture HDMI", &[PixelFormat::Mjpeg]), 105);
    assert_eq!(score_capture_device("Webcam", "dshow:Webcam", &[PixelFormat::Yuyv]), 50);
}

#[test]
fn recovery_finds_the_device_by_path_or_bus() {
    let hint = VideoDeviceRecoveryHint::from_identity("/dev/video2", "cam", "uvcvideo", "usb-1.2", "Cam", true);
    let devices = vec![
        DeviceIdentity { path: "/dev/video0".to_string(), bus_info: "usb-1.1".to_string() },
        DeviceIdentity { path: "/dev/video4".to_string(), bus_info: "usb-1.2".to_string() },
        DeviceIdentity { path: "/dev/video2".to_string(), bus_info: "usb-9".to_string() },
    ];
    assert_eq!(select_recovery_device(&devices, &hint), Some(1));
    assert_eq!(select_recovery_device(&devices[..1], &hint), None);
}

#[test]
fn self_check_table_reports_outcomes_where_encoders_exist() {
    let mut registry = EncoderRegistry::new();
    registry.register_detected(
        1280,
        720,
        &[CodecInfo { name: "h264_vaapi".to_string(), format: DataFormat::H264, priority: 0 }],
    );
    let jobs = self_check_jobs(&registry);
    assert_eq!(jobs.len(), 16);
    assert!(jobs[0].is_some());
    assert!(jobs[1].is_none());
    assert_eq!(jobs[4].as_ref().unwrap().resolution.width, 1920);
    let outcomes: Vec<Option<SmokeTestOutcome>> = jobs
        .iter()
        .map(|j| j.as_ref().map(|_| SmokeTestOutcome { ok: true, elapsed_ms: 12 }))
        .collect();
    let table = run_hardware_self_check(&registry, &outcomes);
    assert_eq!(table.current_hardware_encoder, "VAAPI");
    assert_eq!(table.codecs.len(), 4);
    assert_eq!(table.codecs[1].name, "H.265");
    assert_eq!(table.rows[2].resolution_label, "2K");
    assert!(table.rows[3].cells[0].ok);
    assert_eq!(table.rows[3].cells[0].elapsed_ms, Some(12));
    assert!(!table.rows[3].cells[1].ok);
    assert_eq!(table.rows[3].cells[1].elapsed_ms, None);

    let failed = build_hardware_self_check_runtime_error();
    assert_eq!(failed.current_hardware_encoder, "None");
    assert!(failed.rows.iter().all(|r| r.cells.iter().all(|c| !c.ok && c.elapsed_ms.is_none())));
}

#[test]
fn names_parse_case_insensitively() {
    assert_eq!(parse_pixel_format("mjpg"), Ok(PixelFormat::Mjpeg));
    assert_eq!(parse_pixel_format("Yuv420"), Ok(PixelFormat::Yuv420));
    assert_eq!(parse_pixel_format("gray"), Ok(PixelFormat::Grey));
    assert_eq!(parse_pixel_format("h264"), Err("Unknown pixel format: h264".to_string()));
    for f in PixelFormat::all() {
        assert_eq!(parse_pixel_format(f.name()), Ok(f));
    }
    assert_eq!(EncoderBackend::from_str("VAAPI"), Some(EncoderBackend::Vaapi));
    assert_eq!(EncoderBackend::from_str("Software"), Some(EncoderBackend::Software));
    assert_eq!(EncoderBackend::from_str("gpu"), None);
}

#[test]
fn entity_names_stop_at_nul_and_replace_bad_bytes() {
    assert_eq!(entity_name(b"rk628-csi\0garbage"), "rk628-csi");
    assert_eq!(entity_name(&[b'a', 0xff, b'b']), "a\u{fffd}b");
    assert_eq!(entity_name(b""), "");
}

#[test]
fn test_i420_buffer_size() {
    // 1920x1080 I420 = 1920*1080 + 960*540 + 960*540 = 3110400 bytes
    assert_eq!(i420_buffer_len(Resolution::HD1080()), 1920 * 1080 * 3 / 2);
}

#[test]
fn jpeg_inputs_and_sizes() {
    assert_eq!(jpeg_input_for(PixelFormat::Yvyu), Some(JpegInput::Yuyv));
    assert!(jpeg_supports_format(PixelFormat::Bgr24));
    assert!(!jpeg_supports_format(PixelFormat::Mjpeg));
    assert_eq!(
        unsupported_jpeg_input_message(PixelFormat::Nv16),
        "Unsupported input format for JPEG: NV16"
    );
    let res = Resolution::new(4, 2);
    assert_eq!(check_jpeg_input(JpegInput::Yuyv, res, 16), Ok(()));
    assert_eq!(
        check_jpeg_input(JpegInput::Yuyv, res, 15),
        Err("YUYV data too small: 15 < 16".to_string())
    );
    assert_eq!(
        check_jpeg_input(JpegInput::Nv12, res, 11),
        Err("NV12 data too small: 11 < 12".to_string())
    );
    assert_eq!(
        check_jpeg_input(JpegInput::Bgr24, res, 0),
        Err("BGR data too small: 0 < 24".to_string())
    );
    assert_eq!(jpeg_quality_setting(80), 80);
    assert_eq!(jpeg_quality_setting(250), 100);
}

#[test]
fn profile_level_id_is_published_once() {
    let sps = [0, 0, 0, 1, 0x67, 0x42, 0x40, 0x2a, 0x11];
    assert_eq!(profile_level_id_update(None, &sps), Some("42402a".to_string()));
    assert_eq!(profile_level_id_update(Some("42402a"), &sps), None);
    assert_eq!(profile_level_id_update(Some("42e01f"), &sps), Some("42402a".to_string()));
    assert_eq!(profile_level_id_update(None, &[0, 0, 0, 1, 0x65, 0x88]), None);
}

#[test]
fn buffer_pool_keeps_at_most_its_limit() {
    let mut pool = FrameBufferPool::new(0);
    let a = pool.take(16);
    assert!(a.is_empty());
    assert!(a.capacity() >= 16);
    let mut b = pool.take(8);
    b.extend_from_slice(&[1, 2, 3]);
    pool.put(a);
    pool.put(b);
    let c = pool.take(4);
    assert!(c.is_empty());
    let d = pool.take(64);
    assert!(d.is_empty());
    assert!(d.capacity() >= 64);
}

#[test]
fn test_pixel_format_conversion() {
    let format = PixelFormat::Mjpeg;
    let fourcc = format.fourcc_code();
    let back = PixelFormat::from_fourcc_code(fourcc);
    assert_eq!(back, Some(format));
}

#[test]
fn conversion_inputs_are_checked_against_the_frame_size() {
    let r = Resolution::new(4, 3);
    assert_eq!(check_libyuv_input(ConversionRoute::LibyuvYuyv, r, 23), Err("Input buffer too small: 23".to_string()));
    assert_eq!(check_libyuv_input(ConversionRoute::LibyuvYuyv, r, 24), Ok(()));
    assert!(check_libyuv_input(ConversionRoute::LibyuvNv12, r, 19).is_err());
    assert_eq!(check_libyuv_input(ConversionRoute::LibyuvNv12, r, 20), Ok(()));
    assert!(check_libyuv_input(ConversionRoute::LibyuvBgr24, r, 35).is_err());
    assert_eq!(check_libyuv_input(ConversionRoute::Copy, r, 0), Ok(()));
    let even = Resolution::new(4, 2);
    assert!(software_input_fits(ConversionRoute::SoftwareYvyu, even, 12, 16));
    assert!(!software_input_fits(ConversionRoute::SoftwareYvyu, even, 12, 15));
    assert!(!software_input_fits(ConversionRoute::SoftwareYvyu, r, 18, 100));
    assert!(software_input_fits(ConversionRoute::SoftwareYvu420, even, 12, 12));
    assert!(!software_input_fits(ConversionRoute::SoftwareYvu420, even, 12, 13));
    assert!(software_input_fits(ConversionRoute::LibyuvYuyv, r, 18, 0));
}
