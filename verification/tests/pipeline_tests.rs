use kvm_video::convert::{
    yuv420p_buffer_size, yuyv_buffer_size, ConversionRoute, Nv12Buffer, Nv12Converter,
    PixelConverter, Yuv420pBuffer,
};
use kvm_video::decoded::{MjpegVaapiDecoder, MjpegVaapiDecoderConfig};
use kvm_video::device::VideoControlMode;
use kvm_video::format::{PixelFormat, Resolution};
use kvm_video::frame::{FrameMeta, VideoFrame};
use kvm_video::h264_bitstream;
use kvm_video::h264_pipeline::{
    pipeline_encoder_config, pipeline_nv12_converter, H264PipelineBuilder, H264PipelineConfig,
};
use kvm_video::h265_bitstream;
use kvm_video::pacer::EncoderPacer;
use kvm_video::pipeline::ParameterSetCache;
use kvm_video::registry::VideoEncoderType;
use kvm_video::shared_pipeline::{
    capture_read_step, classify_encode_error, lifecycle_of, mjpeg_decode_worker_count,
    no_signal_open_step, opened_geometry_fits, should_publish_decoded, BitratePreset,
    CaptureReadAction, CaptureReadEvent, PipelineLifecycle, PipelineStateNotification,
    RetryDelay, SharedVideoPipelineConfig, StateNotificationFilter, subscriber_step, SubscriberAction,
    dma_reopen_step, dma_should_prepare, dma_turn_step, DmaLoopState, encode_frame_plan,
    frame_received_step, pipeline_pts_ms, EncodeConversion, EncodeFeed, EncodePlan, DmaTurnAction, DmaTurnEvent,
};
use kvm_video::signal::SignalStatus;

#[test]
fn test_decoder_creation() {
    let config = MjpegVaapiDecoderConfig::default();
    match MjpegVaapiDecoder::new(config) {
        Ok(decoder) => {
            println!("Decoder created, hwaccel: {}", decoder.is_hwaccel_active());
        }
        Err(e) => {
            println!("Failed to create decoder: {}", e);
        }
    }
}

#[test]
fn test_yuv420p_buffer_creation() {
    let buffer = Yuv420pBuffer::new(Resolution::HD720());
    assert_eq!(buffer.len(), 1280 * 720 * 3 / 2);
    assert_eq!(buffer.y_plane().len(), 1280 * 720);
    assert_eq!(buffer.u_plane().len(), 1280 * 720 / 4);
    assert_eq!(buffer.v_plane().len(), 1280 * 720 / 4);
}

#[test]
fn test_nv12_buffer_creation() {
    let buffer = Nv12Buffer::new(Resolution::HD720());
    assert_eq!(buffer.len(), 1280 * 720 * 3 / 2);
    assert_eq!(buffer.y_plane().len(), 1280 * 720);
    assert_eq!(buffer.uv_plane().len(), 1280 * 720 / 2);
}

#[test]
fn plane_writes_land_in_their_plane() {
    let mut buffer = Yuv420pBuffer::new(Resolution::new(4, 4));
    buffer.u_plane_mut().fill(1);
    buffer.v_plane_mut().fill(2);
    buffer.y_plane_mut()[0] = 9;
    assert_eq!(buffer.as_bytes()[..16].iter().filter(|b| **b == 0).count(), 15);
    assert_eq!(buffer.u_plane(), &[1, 1, 1, 1]);
    assert_eq!(buffer.v_plane(), &[2, 2, 2, 2]);
    assert_eq!(buffer.y_plane()[0], 9);
    assert_eq!(buffer.resolution(), Resolution::new(4, 4));
    assert!(!buffer.is_empty());
}

#[test]
fn buffer_sizes() {
    assert_eq!(yuv420p_buffer_size(Resolution::HD1080()), 1920 * 1080 * 3 / 2);
    assert_eq!(yuyv_buffer_size(Resolution::HD1080()), 1920 * 1080 * 2);
}

#[test]
fn yvyu_software_conversion_takes_luma_and_averages_chroma() {
    let mut converter = PixelConverter::yvyu_to_yuv420p(Resolution::new(4, 2));
    assert_eq!(converter.route(), ConversionRoute::SoftwareYvyu);
    // Row 0: Y V Y U groups; row 1 likewise.
    let input = vec![
        10, 100, 11, 200, 12, 101, 13, 201, // row 0
        20, 102, 21, 202, 22, 103, 23, 203, // row 1
    ];
    assert_eq!(converter.convert_without_simd(&input), Some(Ok(())));
    assert_eq!(converter.output_len(), 12);
    assert_eq!(
        converter.output_bytes(),
        &[10, 11, 12, 13, 20, 21, 22, 23, 201, 202, 101, 102]
    );
}

#[test]
fn yvu420_software_conversion_swaps_the_chroma_planes() {
    let mut converter = PixelConverter::yvu420_to_yuv420p(Resolution::new(4, 2));
    let input = vec![1, 2, 3, 4, 5, 6, 7, 8, 90, 91, 80, 81];
    assert_eq!(converter.convert_without_simd(&input), Some(Ok(())));
    assert_eq!(converter.output_bytes(), &[1, 2, 3, 4, 5, 6, 7, 8, 80, 81, 90, 91]);
}

#[test]
fn simd_routes_are_left_to_libyuv() {
    let mut converter = PixelConverter::yuyv_to_yuv420p(Resolution::new(4, 4));
    assert_eq!(converter.route(), ConversionRoute::LibyuvYuyv);
    assert_eq!(converter.convert_without_simd(&[0u8; 32]), None);
    assert_eq!(PixelConverter::bgr24_to_yuv420p(Resolution::new(2, 2)).route(), ConversionRoute::LibyuvBgr24);
    let nv12 = Nv12Converter::rgb24_to_nv12(Resolution::new(2, 2));
    assert_eq!(nv12.route(), ConversionRoute::LibyuvRgb24);
    assert_eq!(nv12.output_len(), 6);
    assert_eq!(nv12.resolution(), Resolution::new(2, 2));
}

#[test]
fn test_pipeline_config_default() {
    let config = H264PipelineConfig::default();
    assert_eq!(config.resolution, Resolution::HD720());
    assert_eq!(config.bitrate_kbps, 8000);
    assert_eq!(config.fps, 30);
    assert_eq!(config.gop_size, 30);
}

#[test]
fn test_pipeline_builder() {
    let builder = H264PipelineBuilder::new()
        .resolution(Resolution::HD1080())
        .bitrate_kbps(4000)
        .fps(60)
        .input_format(PixelFormat::Yuyv);

    assert_eq!(builder.config.resolution, Resolution::HD1080());
    assert_eq!(builder.config.bitrate_kbps, 4000);
    assert_eq!(builder.config.fps, 60);
    assert_eq!(builder.config.input_format, PixelFormat::Yuyv);
}

#[test]
fn pipeline_build_choices() {
    let mut config = H264PipelineConfig::default();
    let encoder = pipeline_encoder_config(&config);
    assert_eq!(encoder.bitrate_kbps, 8000);
    assert_eq!(encoder.gop_size, 30);
    assert!(matches!(pipeline_nv12_converter(&config), Ok(Some(_))));
    config.input_format = PixelFormat::Nv12;
    assert!(matches!(pipeline_nv12_converter(&config), Ok(None)));
    config.input_format = PixelFormat::Mjpeg;
    assert_eq!(
        pipeline_nv12_converter(&config).err().as_deref(),
        Some("MJPEG input format not supported in this build")
    );
    config.input_format = PixelFormat::Grey;
    assert_eq!(
        pipeline_nv12_converter(&config).err().as_deref(),
        Some("Unsupported input format for H264 pipeline: GREY")
    );
}

#[test]
fn shared_test_pipeline_config() {
    let h264 = SharedVideoPipelineConfig::h264(Resolution::HD1080(), BitratePreset::Balanced);
    assert_eq!(h264.output_codec, VideoEncoderType::H264);

    let h265 = SharedVideoPipelineConfig::h265(Resolution::HD720(), BitratePreset::Speed);
    assert_eq!(h265.output_codec, VideoEncoderType::H265);
}

#[test]
fn shared_video_pipeline_test_pipeline_config() {
    let h264 = SharedVideoPipelineConfig::h264(Resolution::HD1080(), BitratePreset::Balanced);
    assert_eq!(h264.output_codec, VideoEncoderType::H264);

    let h265 = SharedVideoPipelineConfig::h265(Resolution::HD720(), BitratePreset::Speed);
    assert_eq!(h265.output_codec, VideoEncoderType::H265);
}

#[test]
fn mjpeg_workers_match_available_cpu_count() {
    assert_eq!(mjpeg_decode_worker_count(1), 1);
    assert_eq!(mjpeg_decode_worker_count(2), 2);
    assert_eq!(mjpeg_decode_worker_count(4), 4);
    assert_eq!(mjpeg_decode_worker_count(64), 64);
}

#[test]
fn no_parallelism_still_gets_one_worker() {
    assert_eq!(mjpeg_decode_worker_count(0), 1);
}

#[test]
fn h264_keyframe_requires_idr_and_parameter_sets() {
    let mut pipeline = ParameterSetCache::new();

    let predicted = vec![0, 0, 0, 1, 0x41, 0xc0];
    let (_, key) = pipeline.inspect_and_parameterize_packet(VideoEncoderType::H264, predicted, true);
    assert!(!key, "a driver flag must not turn a P-frame into a keyframe");

    let parameter_sets = vec![0, 0, 0, 1, 0x67, 0x42, 0x40, 0x1f, 0, 0, 0, 1, 0x68, 0xce];
    let (_, key) =
        pipeline.inspect_and_parameterize_packet(VideoEncoderType::H264, parameter_sets, false);
    assert!(!key, "parameter sets alone are not a keyframe");

    let idr = vec![0, 0, 0, 1, 0x65, 0x88];
    let (_, key) = pipeline.inspect_and_parameterize_packet(VideoEncoderType::H264, idr, false);
    assert!(!key, "an IDR without a driver key flag is not trusted");

    let idr = vec![0, 0, 0, 1, 0x65, 0x88];
    let (bootstrap, key) = pipeline.inspect_and_parameterize_packet(VideoEncoderType::H264, idr, true);
    assert!(key, "matching driver metadata and IDR payload should bootstrap");
    assert!(h264_bitstream::has_sps_pps(&bootstrap));
    assert!(h264_bitstream::is_keyframe(&bootstrap));
}

#[test]
fn h265_keyframe_requires_irap_and_parameter_sets() {
    let mut pipeline = ParameterSetCache::new();

    let trail = vec![0, 0, 0, 1, 1 << 1, 1, 0xaa];
    let (_, key) = pipeline.inspect_and_parameterize_packet(VideoEncoderType::H265, trail, true);
    assert!(!key, "a driver flag must not turn a trailing frame into a keyframe");

    let parameter_sets = vec![
        0,
        0,
        0,
        1,
        32 << 1,
        1,
        0xaa,
        0,
        0,
        0,
        1,
        33 << 1,
        1,
        0xbb,
        0,
        0,
        0,
        1,
        34 << 1,
        1,
        0xcc,
    ];
    let (_, key) =
        pipeline.inspect_and_parameterize_packet(VideoEncoderType::H265, parameter_sets, false);
    assert!(!key, "parameter sets alone are not a keyframe");

    let irap = vec![0, 0, 0, 1, 19 << 1, 1, 0xdd];
    let (_, key) = pipeline.inspect_and_parameterize_packet(VideoEncoderType::H265, irap, false);
    assert!(!key, "an IRAP without a driver key flag is not trusted");

    let irap = vec![0, 0, 0, 1, 19 << 1, 1, 0xdd];
    let (bootstrap, key) = pipeline.inspect_and_parameterize_packet(VideoEncoderType::H265, irap, true);
    assert!(key, "matching driver metadata and IRAP payload should bootstrap");
    assert!(h265_bitstream::has_vps_sps_pps(&bootstrap));
    assert!(h265_bitstream::is_keyframe(&bootstrap));
}

#[test]
fn idr_without_any_parameter_set_is_not_a_keyframe() {
    let mut cache = ParameterSetCache::new();
    let idr = vec![0, 0, 0, 1, 0x65, 0x88];
    let (out, key) = cache.inspect_and_parameterize_packet(VideoEncoderType::H264, idr.clone(), true);
    assert!(!key);
    assert_eq!(out, idr);
    let vp8 = vec![1, 2, 3];
    let (out, key) = cache.inspect_and_parameterize_packet(VideoEncoderType::VP8, vp8.clone(), true);
    assert!(key);
    assert_eq!(out, vp8);
}

#[test]
fn lifecycle_follows_flag_then_worker() {
    assert_eq!(lifecycle_of(true, true), PipelineLifecycle::Running);
    assert_eq!(lifecycle_of(false, true), PipelineLifecycle::Stopping);
    assert_eq!(lifecycle_of(false, false), PipelineLifecycle::Stopped);
}

#[test]
fn repeated_notifications_are_emitted_once() {
    let mut filter = StateNotificationFilter::new();
    let streaming = PipelineStateNotification::streaming(Resolution::HD720(), PixelFormat::Nv12, 30);
    let no_signal = PipelineStateNotification::no_signal(SignalStatus::NoCable, Some(500));
    assert!(filter.should_emit(streaming));
    assert!(!filter.should_emit(streaming));
    assert!(filter.should_emit(no_signal));
    assert!(!filter.should_emit(no_signal));
    assert_eq!(no_signal.reason, Some("no_cable"));
    assert!(filter.should_emit(streaming));
    filter.reset();
    assert!(filter.should_emit(streaming));
}

#[test]
fn decoded_frames_publish_only_when_newer() {
    assert!(should_publish_decoded(None, 0));
    assert!(should_publish_decoded(Some(4), 5));
    assert!(!should_publish_decoded(Some(5), 5));
    assert!(!should_publish_decoded(Some(6), 5));
}

#[test]
fn encode_errors_are_grouped_by_failing_call() {
    assert_eq!(
        classify_encode_error("FFmpeg HW encode failed: avcodec_send_frame failed ret=-11"),
        "encode_ffmpeg_hw_send_frame_eagain"
    );
    assert_eq!(
        classify_encode_error("FFmpeg HW encode failed: avcodec_receive_packet failed ret=-22"),
        "encode_ffmpeg_hw_receive_packet"
    );
    assert_eq!(
        classify_encode_error("FFmpeg HW encode failed: Resource temporarily unavailable"),
        "encode_ffmpeg_hw_eagain"
    );
    assert_eq!(classify_encode_error("FFmpeg HW encode failed"), "encode_ffmpeg_hw");
    assert_eq!(classify_encode_error("boom"), "encode_boom");
}

#[test]
fn shared_capture_loop_decisions() {
    let sf = VideoControlMode::SourceFollowing;
    let cfg = VideoControlMode::Configurable;
    let step = capture_read_step(sf, 0, CaptureReadEvent::TimedOut);
    assert_eq!(step.consecutive_timeouts, 1);
    assert_eq!(step.action, CaptureReadAction::Reopen);
    assert_eq!(step.report.unwrap().delay, RetryDelay::Policy(1));

    let step = capture_read_step(cfg, 1, CaptureReadEvent::TimedOut);
    assert_eq!(step.consecutive_timeouts, 2);
    assert_eq!(step.action, CaptureReadAction::Continue);
    let step = capture_read_step(cfg, 2, CaptureReadEvent::TimedOut);
    assert_eq!(step.action, CaptureReadAction::Reopen);
    assert_eq!(step.report.unwrap().status, SignalStatus::UvcCaptureStall);
    assert_eq!(step.report.unwrap().delay, RetryDelay::FixedMs(2000));

    let step = capture_read_step(cfg, 2, CaptureReadEvent::Io { raw_os_error: Some(71) });
    assert_eq!(step.consecutive_timeouts, 0);
    assert_eq!(step.action, CaptureReadAction::Reopen);
    assert_eq!(step.report.unwrap().status, SignalStatus::UvcUsbError);
    let step = capture_read_step(cfg, 2, CaptureReadEvent::Io { raw_os_error: Some(19) });
    assert_eq!(step.action, CaptureReadAction::DeviceLost);
    let step = capture_read_step(cfg, 2, CaptureReadEvent::Io { raw_os_error: Some(22) });
    assert_eq!(step.action, CaptureReadAction::LogError);
    let step = capture_read_step(cfg, 2, CaptureReadEvent::WouldBlock);
    assert_eq!(step.consecutive_timeouts, 2);
    assert_eq!(step.action, CaptureReadAction::Continue);
    let step = capture_read_step(cfg, 2, CaptureReadEvent::SourceChanged);
    assert!(step.report.is_none());
    assert_eq!(step.action, CaptureReadAction::Reopen);

    let open = no_signal_open_step(u32::MAX, SignalStatus::NoSync, true);
    assert_eq!(open.consecutive_timeouts, u32::MAX);
    assert_eq!(open.report.unwrap().delay, RetryDelay::Policy(u32::MAX));
    assert!(no_signal_open_step(3, SignalStatus::NoSync, false).report.is_none());

    let hd = (Resolution::HD720(), PixelFormat::Nv12);
    let fhd = (Resolution::HD1080(), PixelFormat::Nv12);
    assert!(opened_geometry_fits(None, hd, hd));
    assert!(!opened_geometry_fits(None, hd, fhd));
    assert!(opened_geometry_fits(Some(fhd), hd, fhd));
    assert!(!opened_geometry_fits(Some(fhd), fhd, hd));
}

#[test]
fn equal_frames_hash_equally() {
    let a = VideoFrame::from_vec(vec![1, 2, 3], Resolution::new(1, 1), PixelFormat::Grey, 1, 7);
    let b = VideoFrame::from_vec(vec![1, 2, 3], Resolution::new(1, 1), PixelFormat::Grey, 1, 8);
    let c = VideoFrame::from_vec(vec![1, 2, 4], Resolution::new(1, 1), PixelFormat::Grey, 1, 9);
    assert_eq!(a.get_hash(), b.get_hash());
    assert_ne!(a.get_hash(), c.get_hash());
    assert_eq!(a.get_hash(), xxhash_rust::xxh64::xxh64(&[1, 2, 3], 0));
    let meta = FrameMeta::of(&a);
    assert_eq!(meta.size, 3);
    assert_eq!(meta.sequence, 7);
    assert!(meta.online && meta.key_frame);
    let offline = VideoFrame::offline(Resolution::HD720(), PixelFormat::Mjpeg);
    assert!(offline.is_empty() && !offline.online);
    assert!(!offline.is_valid_jpeg());
}

#[test]
fn pacer_counts_and_never_throttles() {
    let mut pacer = EncoderPacer::new(4);
    assert!(pacer.should_encode(true));
    assert!(pacer.should_encode(false));
    let stats = pacer.stats();
    assert_eq!(stats.frames_processed, 2);
    assert_eq!(stats.keyframes_processed, 1);
    assert_eq!(stats.frames_skipped, 0);
    assert!(!pacer.is_throttling());
    assert_eq!(pacer.in_flight(), 0);
}

#[test]
fn idle_pipeline_stops_after_grace_period() {
    let (since, action) = subscriber_step(None, 0, 1_000);
    assert_eq!((since, action), (Some(1_000), SubscriberAction::Wait));
    let (since, action) = subscriber_step(since, 0, 3_999);
    assert_eq!((since, action), (Some(1_000), SubscriberAction::Wait));
    let (since, action) = subscriber_step(since, 2, 3_999);
    assert_eq!((since, action), (None, SubscriberAction::Capture));
    let (since, action) = subscriber_step(since, 0, 5_000);
    assert_eq!(action, SubscriberAction::Wait);
    let (_, action) = subscriber_step(since, 0, 8_000);
    assert_eq!(action, SubscriberAction::Stop);
}

#[test]
fn dma_path_falls_back_to_copy_for_good() {
    let start = DmaLoopState { allow_dma: true, using_dma: true, failures: 2 };
    let (s, a) = dma_turn_step(start, DmaTurnEvent::Encoded);
    assert_eq!((s.failures, a), (0, DmaTurnAction::Publish));
    let (s, a) = dma_turn_step(s, DmaTurnEvent::InvalidLayout);
    assert_eq!(a, DmaTurnAction::FallBackToCopy);
    assert!(!s.allow_dma && !s.using_dma);
    let (s2, a) = dma_turn_step(s, DmaTurnEvent::EncodeFailed);
    assert_eq!((s2, a), (s, DmaTurnAction::LogError));
    let (s2, a) = dma_turn_step(s, DmaTurnEvent::ReconfigureFailed);
    assert_eq!((s2, a), (s, DmaTurnAction::Fail));
    let (_, a) = dma_turn_step(start, DmaTurnEvent::ReconfigureFailed);
    assert_eq!(a, DmaTurnAction::FallBackToCopy);
    assert!(dma_should_prepare(start, true));
    assert!(!dma_should_prepare(s, true));
    let (s3, a) = dma_turn_step(s, DmaTurnEvent::InvalidLayout);
    assert_eq!(a, DmaTurnAction::Reopen { status: SignalStatus::NoSignal, failures: 1, wait: true });
    let reopened = dma_reopen_step(s3, true, true, true);
    assert!(!reopened.using_dma);
    let (_, a) = dma_turn_step(
        start,
        DmaTurnEvent::CaptureFailed { device_lost: false, status: SignalStatus::NoCable, source_changed: true },
    );
    assert_eq!(a, DmaTurnAction::Reopen { status: SignalStatus::NoCable, failures: 3, wait: false });
    let (_, a) = dma_turn_step(
        start,
        DmaTurnEvent::CaptureFailed { device_lost: true, status: SignalStatus::NoSignal, source_changed: false },
    );
    assert_eq!(a, DmaTurnAction::DeviceLost);
    let r = dma_reopen_step(DmaLoopState { allow_dma: true, using_dma: false, failures: 4 }, true, true, false);
    assert_eq!(r, DmaLoopState { allow_dma: false, using_dma: false, failures: 4 });
    let r = dma_reopen_step(start, false, true, true);
    assert_eq!(r.failures, 3);
}

#[test]
fn encode_plans_and_timestamps() {
    assert_eq!(pipeline_pts_ms(0, 5_000_000), (0, 5_000_000));
    assert_eq!(pipeline_pts_ms(5_000_000, 5_033_400), (33, 5_000_000));
    assert_eq!(pipeline_pts_ms(5_000_000, 4_998_500), (-1, 5_000_000));
    assert_eq!(pipeline_pts_ms(i64::MIN + 1, i64::MAX).0, i64::MAX / 1000);
    assert_eq!(
        encode_frame_plan(PixelFormat::Yuyv, true, false, false, false, true),
        Err("FFmpeg HW pipeline requires MJPEG input".to_string())
    );
    assert_eq!(
        encode_frame_plan(PixelFormat::Mjpeg, true, true, true, true, true),
        Ok(EncodePlan { feed: EncodeFeed::HwPipeline, conversion: EncodeConversion::Direct, request_keyframe: true })
    );
    assert_eq!(
        encode_frame_plan(PixelFormat::Mjpeg, false, true, true, true, false),
        Ok(EncodePlan { feed: EncodeFeed::Decoded, conversion: EncodeConversion::ToYuv420p, request_keyframe: false })
    );
    assert_eq!(
        encode_frame_plan(PixelFormat::Yuyv, false, true, false, true, false).unwrap().conversion,
        EncodeConversion::Direct
    );
    let plan = encode_frame_plan(PixelFormat::Yuyv, false, false, false, true, true).unwrap();
    assert_eq!((plan.feed, plan.conversion, plan.request_keyframe), (EncodeFeed::Captured, EncodeConversion::ToNv12, true));
    assert_eq!(frame_received_step(127), (0, false));
    assert_eq!(frame_received_step(128), (0, true));
}
