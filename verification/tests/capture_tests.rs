use kvm_video::capture::{
    capture_step, final_capture_state, is_busy_open_error, is_valid_jpeg, CaptureAction,
    CaptureConfig, CaptureEvent, CaptureState, FrameGrabber,
};
use kvm_video::capture_limits::should_validate_jpeg_frame;
use kvm_video::capture_status::{
    capture_error_log_key, capture_recovery_status, signal_status_from_capture_kind,
};
use kvm_video::device::VideoControlMode;
use kvm_video::dmabuf_layout::{valid_payload, DmaCaptureLayout};
use kvm_video::format::{PixelFormat, Resolution};
use kvm_video::signal::SignalStatus;
use kvm_video::windows::{is_source_changed_error, BridgeContext, CaptureMeta};

#[test]
fn test_valid_jpeg() {
    // Valid JPEG header and footer
    let mut data = vec![0xFF, 0xD8]; // SOI
    data.extend(vec![0u8; 200]); // Content
    data.extend([0xFF, 0xD9]); // EOI

    assert!(is_valid_jpeg(&data));

    // Invalid - too small
    assert!(!is_valid_jpeg(&[0xFF, 0xD8, 0xFF, 0xD9]));

    // Invalid - wrong header
    let mut bad = vec![0x00, 0x00];
    bad.extend(vec![0u8; 200]);
    assert!(!is_valid_jpeg(&bad));
}

#[test]
fn jpeg_end_marker_padding_is_accepted() {
    let mut data = vec![0xFF, 0xD8];
    data.extend(vec![7u8; 121]);
    data.extend([0xD9, 0x00]);
    assert_eq!(data.len(), 125);
    assert!(is_valid_jpeg(&data));
    let n = data.len();
    data[n - 2] = 0x00;
    assert!(is_valid_jpeg(&data));
    data[n - 1] = 0x01;
    assert!(!is_valid_jpeg(&data));
    data.pop();
    assert!(!is_valid_jpeg(&data));
}

fn usb() -> DmaCaptureLayout<'static> {
    DmaCaptureLayout {
        native_hdmi: false,
        driver: "uvcvideo",
        bus_info: "usb-fc880000.usb-1.1",
        configurable_usb: true,
        single_planar: true,
        fourcc: *b"YUYV",
        width: 1920,
        height: 1080,
        stride: 3840,
    }
}

#[test]
fn usb_yuyv_uses_byte_stride_and_supports_padding() {
    let mut layout = usb();
    assert_eq!(layout.minimum_bytes(), Some(4_147_200));
    layout.width = 640;
    layout.height = 480;
    layout.stride = 1280;
    assert_eq!(layout.minimum_bytes(), Some(614_400));
    layout.stride = 1296;
    assert_eq!(layout.minimum_bytes(), Some(622_080));
}

#[test]
fn usb_requires_correct_driver_bus_queue_and_control_mode() {
    let mut layout = usb();
    layout.driver = "rkcif";
    assert_eq!(layout.minimum_bytes(), None);
    layout = usb();
    layout.bus_info = "platform:hdmi";
    assert_eq!(layout.minimum_bytes(), None);
    layout = usb();
    layout.single_planar = false;
    assert_eq!(layout.minimum_bytes(), None);
    layout = usb();
    layout.configurable_usb = false;
    assert_eq!(layout.minimum_bytes(), None);
}

#[test]
fn unverified_usb_formats_stay_on_copy_path() {
    for fourcc in [
        *b"H264", *b"NV21", *b"NV16", *b"NV24", *b"BGR3", *b"YU12", *b"UYVY", *b"YVYU", *b"BAD!",
    ] {
        let mut layout = usb();
        layout.fourcc = fourcc;
        assert_eq!(layout.minimum_bytes(), None, "{fourcc:?}");
    }
}

#[test]
fn usb_nv12_rgb_and_mjpeg_layouts() {
    let mut layout = usb();
    layout.fourcc = *b"NV12";
    layout.stride = 1920;
    assert_eq!(layout.minimum_bytes(), Some(3_110_400));
    layout.fourcc = *b"RGB3";
    layout.stride = 5760;
    assert_eq!(layout.minimum_bytes(), Some(6_220_800));
    layout.stride = 1920;
    assert_eq!(layout.minimum_bytes(), None);
    layout.fourcc = *b"MJPG";
    layout.stride = 0;
    assert_eq!(layout.minimum_bytes(), Some(4));
}

#[test]
fn compressed_payload_is_bounded_and_not_allocation_size() {
    assert!(valid_payload(true, 63163, 4147200, None));
    for used in [0, 3, 4147200, usize::MAX] {
        assert!(!valid_payload(true, used, 4147200, None));
    }
    assert!(valid_payload(true, 4, 68, None));
    assert!(!valid_payload(true, 4, 67, None));
    assert!(valid_payload(false, 614400, 614400, Some(614400)));
    assert!(!valid_payload(false, 614399, 614400, Some(614400)));
    assert!(!valid_payload(false, 614400, 614399, Some(614400)));
}

#[test]
fn malformed_geometry_or_stride_is_rejected() {
    for (w, h, stride) in [
        (0, 1080, 3840),
        (1920, 0, 3840),
        (1919, 1080, 3840),
        (1920, 1079, 3840),
        (8194, 1080, 16384),
        (1920, 8194, 3840),
        (1920, 1080, 0),
        (1920, 1080, 1920),
        (1920, 1080, 3841),
        (u32::MAX, u32::MAX, u32::MAX),
    ] {
        let mut layout = usb();
        layout.width = w;
        layout.height = h;
        layout.stride = stride;
        assert_eq!(layout.minimum_bytes(), None);
    }
}

#[test]
fn native_hdmi_formats_are_preserved_but_not_expanded() {
    let mut layout = usb();
    layout.native_hdmi = true;
    layout.single_planar = false;
    layout.fourcc = *b"BGR3";
    layout.stride = 5760;
    assert_eq!(layout.minimum_bytes(), Some(6_220_800));
    layout.fourcc = *b"NV12";
    layout.stride = 1920;
    assert_eq!(layout.minimum_bytes(), Some(3_110_400));
    layout.fourcc = *b"YUYV";
    layout.stride = 3840;
    assert_eq!(layout.minimum_bytes(), None);
}

#[test]
fn native_hdmi_ignores_the_usb_stride_alignment() {
    let mut layout = usb();
    layout.native_hdmi = true;
    layout.fourcc = *b"NV12";
    layout.stride = 1928;
    assert_eq!(layout.minimum_bytes(), Some(1928 * 1080 * 3 / 2));
    layout.stride = 1919;
    assert_eq!(layout.minimum_bytes(), None);
}

#[test]
fn recovery_distinguishes_uvc_stalls_from_hdmi_signal_loss() {
    assert_eq!(
        capture_recovery_status(VideoControlMode::Configurable, true, None),
        SignalStatus::UvcCaptureStall
    );
    assert_eq!(
        capture_recovery_status(VideoControlMode::SourceFollowing, true, None),
        SignalStatus::NoSignal
    );
    assert_eq!(
        capture_recovery_status(VideoControlMode::Configurable, false, Some(71)),
        SignalStatus::UvcUsbError
    );
    assert_eq!(
        capture_recovery_status(VideoControlMode::SourceFollowing, false, Some(5)),
        SignalStatus::NoSignal
    );
}

#[test]
fn maps_known_signal_status_strings() {
    assert_eq!(
        signal_status_from_capture_kind("out_of_range"),
        SignalStatus::OutOfRange
    );
    assert_eq!(
        signal_status_from_capture_kind("unknown"),
        SignalStatus::NoSignal
    );
}

#[test]
fn classifies_source_change_log_keys() {
    assert_eq!(
        capture_error_log_key("dqbuf failed: EINVAL", "Other"),
        "capture_dqbuf_einval"
    );
    assert_eq!(
        capture_error_log_key("capture timeout", "TimedOut"),
        "capture_TimedOut"
    );
}

#[test]
fn jpeg_validation_policy_startup_then_interval() {
    assert!(should_validate_jpeg_frame(1));
    assert!(should_validate_jpeg_frame(2));
    assert!(should_validate_jpeg_frame(3));
    assert!(!should_validate_jpeg_frame(4));
    assert!(should_validate_jpeg_frame(30));
}

#[test]
fn capture_config_builders_change_one_setting() {
    let config = CaptureConfig::for_device("/dev/video3")
        .with_resolution(1280, 720)
        .with_format(PixelFormat::Yuyv)
        .with_fps(60);
    assert_eq!(config.device_path, "/dev/video3");
    assert_eq!(config.resolution, Resolution::new(1280, 720));
    assert_eq!(config.format, PixelFormat::Yuyv);
    assert_eq!(config.fps, 60);
    assert_eq!(config.buffer_count, 2);
    assert_eq!(config.timeout_secs, 2);
    assert_eq!(config.jpeg_quality, 80);
    let default = CaptureConfig::default();
    assert_eq!(default.device_path, "/dev/video0");
    assert_eq!(default.resolution, Resolution::HD1080());
    assert_eq!(default.format, PixelFormat::Mjpeg);
    assert_eq!(default.fps, 30);
}

#[test]
fn capture_loop_decisions() {
    let timeout = CaptureEvent::ReadError { timed_out: true, raw_os_error: None };
    let step = capture_step(CaptureState::Running, timeout);
    assert_eq!(step.publish, Some(CaptureState::NoSignal));
    assert_eq!(step.action, CaptureAction::WaitAndRetry);

    for errno in [6, 19, 5, 32, 108] {
        let lost = CaptureEvent::ReadError { timed_out: false, raw_os_error: Some(errno) };
        assert_eq!(capture_step(CaptureState::Running, lost).action, CaptureAction::DeviceLost);
    }
    let other = CaptureEvent::ReadError { timed_out: false, raw_os_error: Some(71) };
    assert_eq!(capture_step(CaptureState::Running, other).action, CaptureAction::LogAndContinue);

    let small = CaptureEvent::Frame { bytes_used: 127 };
    assert_eq!(capture_step(CaptureState::NoSignal, small).action, CaptureAction::DropFrame);
    assert_eq!(capture_step(CaptureState::NoSignal, small).publish, None);

    let good = CaptureEvent::Frame { bytes_used: 128 };
    let step = capture_step(CaptureState::NoSignal, good);
    assert_eq!(step.publish, Some(CaptureState::Running));
    assert_eq!(step.action, CaptureAction::AcceptFrame);
    assert_eq!(capture_step(CaptureState::Running, good).publish, None);
}

#[test]
fn capture_open_retries_and_final_state() {
    assert!(is_busy_open_error("Device or resource busy"));
    assert!(is_busy_open_error("no resource left"));
    assert!(!is_busy_open_error("No such device"));
    assert_eq!(final_capture_state(true, false), CaptureState::Stopped);
    assert_eq!(final_capture_state(false, true), CaptureState::DeviceLost);
    assert_eq!(final_capture_state(false, false), CaptureState::Error);
}

#[test]
fn frame_grabber_remembers_its_device() {
    let grabber = FrameGrabber::new("/dev/video7");
    assert_eq!(grabber.device_path(), "/dev/video7");
}

#[test]
fn windows_source_change_marker() {
    assert!(is_source_changed_error(Some("dshow_source_changed")));
    assert!(!is_source_changed_error(Some("dshow_source_changed ")));
    assert!(!is_source_changed_error(None));
    let ctx = BridgeContext::from_parts(Some("/dev/v4l-subdev0".to_string()), None);
    assert!(!ctx.has_subdev());
    assert_eq!(ctx.subdev_path.as_deref(), Some("/dev/v4l-subdev0"));
    let meta = CaptureMeta { bytes_used: 10, sequence: 3 };
    assert_eq!(meta.bytes_used, 10);
}
