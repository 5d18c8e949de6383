use kvm_video::bridge::{
    classify_query_error, connected_bridge_entity, connected_bridge_in_media_graphs,
    is_rk628_no_signal_fingerprint, media_device_index, BtTimings, CsiBridgeKind, MediaGraph,
    MediaGraphEntity, MediaGraphLink, ProbeResult, QueryDvTimingsError,
    V4L2_DV_FL_HAS_CEA861_VIC,
};
use kvm_video::device::{
    control_mode, is_rk_hdmirx_driver, resolve_video_input_config, LockedInputMode, VideoControlMode,
};
use kvm_video::format::PixelFormat;
use kvm_video::format::Resolution;

fn media_graph(
    path: &str,
    entities: Vec<MediaGraphEntity>,
    links: Vec<MediaGraphLink>,
) -> MediaGraph {
    MediaGraph {
        path: path.to_string(),
        entities,
        links,
    }
}

fn graph_entity(id: u32, name: &str, device: (u32, u32)) -> MediaGraphEntity {
    MediaGraphEntity {
        id,
        name: name.to_string(),
        major: device.0,
        minor: device.1,
        pads: 0,
        links: 0,
    }
}

fn graph_link(source: u32, sink: u32) -> MediaGraphLink {
    MediaGraphLink { source, sink }
}

fn zeroed_bt() -> BtTimings {
    BtTimings {
        width: 0,
        height: 0,
        interlaced: 0,
        pixelclock: 0,
        hfrontporch: 0,
        hsync: 0,
        hbackporch: 0,
        vfrontporch: 0,
        vsync: 0,
        vbackporch: 0,
        il_vfrontporch: 0,
        il_vsync: 0,
        il_vbackporch: 0,
        flags: 0,
        cea861_vic: 0,
    }
}

#[test]
fn media_device_names_require_a_numeric_suffix() {
    assert_eq!(media_device_index("media0"), Some(0));
    assert_eq!(media_device_index("media12"), Some(12));
    assert_eq!(media_device_index("media"), None);
    assert_eq!(media_device_index("media-controller"), None);
    assert_eq!(media_device_index("video0"), None);
}

#[test]
fn media_graph_finds_only_the_connected_rk628() {
    // video0 <- mipi-csi2 <- dphy <- RK628; a second RK628 is not connected.
    let entities = vec![
        graph_entity(1, "stream_cif_mipi_id0", (81, 0)),
        graph_entity(45, "rockchip-mipi-csi2", (0, 0)),
        graph_entity(58, "rockchip-csi2-dphy0", (0, 0)),
        graph_entity(63, "m00_b_rk628-csi 3-0050", (81, 16)),
        graph_entity(90, "other-rk628-csi 7-0050", (81, 19)),
    ];
    let links = vec![graph_link(63, 58), graph_link(58, 45), graph_link(45, 1)];

    let (entity, kind) = connected_bridge_entity(&entities, &links, (81, 0)).unwrap();
    assert_eq!(entity.id, 63);
    assert_eq!(kind, CsiBridgeKind::Rk628);
}

#[test]
fn media_graph_search_only_walks_towards_link_sources() {
    let entities = vec![
        graph_entity(1, "stream_cif_mipi_id0", (81, 0)),
        graph_entity(20, "rockchip-mipi-csi2", (0, 0)),
        graph_entity(63, "unrelated-rk628-csi 7-0050", (81, 19)),
    ];
    // Entity 63 is downstream of 20 and must not be reached.
    let links = vec![graph_link(20, 1), graph_link(20, 63)];

    assert!(connected_bridge_entity(&entities, &links, (81, 0)).is_none());
}

#[test]
fn media_graphs_select_the_controller_containing_the_video_node() {
    let graphs = vec![
        media_graph(
            "/dev/media0",
            vec![
                graph_entity(1, "other-video", (81, 4)),
                graph_entity(63, "wrong-rk628-csi", (81, 16)),
            ],
            vec![graph_link(63, 1)],
        ),
        media_graph(
            "/dev/media1",
            vec![
                graph_entity(10, "stream_cif_mipi_id0", (81, 0)),
                graph_entity(75, "tc358743 2-000f", (81, 20)),
            ],
            vec![graph_link(75, 10)],
        ),
    ];

    let (path, entity, kind) = connected_bridge_in_media_graphs(&graphs, (81, 0)).unwrap();
    assert_eq!(path, "/dev/media1");
    assert_eq!(entity.id, 75);
    assert_eq!(kind, CsiBridgeKind::Tc358743);
}

#[test]
fn media_graph_does_not_attach_an_unrelated_rk628_to_native_hdmirx() {
    let entities = vec![
        graph_entity(1, "rk_hdmirx", (81, 11)),
        graph_entity(63, "m00_b_rk628-csi 3-0050", (81, 16)),
    ];

    assert!(connected_bridge_entity(&entities, &[], (81, 11)).is_none());
}

#[test]
fn media_graph_leaves_usb_capture_without_a_csi_bridge() {
    let entities = vec![
        graph_entity(1, "USB Video: USB Video", (81, 12)),
        graph_entity(8, "Processing 2", (0, 0)),
        graph_entity(11, "Input 1", (0, 0)),
    ];
    let links = vec![graph_link(11, 8), graph_link(8, 1)];

    assert!(connected_bridge_entity(&entities, &links, (81, 12)).is_none());
}

#[test]
fn bridge_rk628_fingerprint_matches_vga() {
    let mut bt = zeroed_bt();
    bt.width = 640;
    bt.height = 480;
    bt.pixelclock = 25_175_000;
    bt.flags = V4L2_DV_FL_HAS_CEA861_VIC;
    bt.cea861_vic = 1;
    assert!(is_rk628_no_signal_fingerprint(&bt));
}

#[test]
fn bridge_rk628_fingerprint_rejects_real_1080p() {
    let mut bt = zeroed_bt();
    bt.width = 1920;
    bt.height = 1080;
    bt.pixelclock = 148_500_000;
    bt.flags = V4L2_DV_FL_HAS_CEA861_VIC;
    bt.cea861_vic = 16;
    assert!(!is_rk628_no_signal_fingerprint(&bt));
}

#[test]
fn bridge_rk628_fingerprint_rejects_real_vga_without_vic() {
    let mut bt = zeroed_bt();
    bt.width = 640;
    bt.height = 480;
    bt.pixelclock = 25_175_000;
    bt.flags = 0;
    bt.cea861_vic = 0;
    assert!(!is_rk628_no_signal_fingerprint(&bt));
}

#[test]
fn csi_bridge_rk628_fingerprint_matches_vga() {
    let mut bt = zeroed_bt();
    bt.width = 640;
    bt.height = 480;
    bt.pixelclock = 25_175_000;
    bt.flags = V4L2_DV_FL_HAS_CEA861_VIC;
    bt.cea861_vic = 1;
    assert!(is_rk628_no_signal_fingerprint(&bt));
}

#[test]
fn csi_bridge_rk628_fingerprint_rejects_real_1080p() {
    let mut bt = zeroed_bt();
    bt.width = 1920;
    bt.height = 1080;
    bt.pixelclock = 148_500_000;
    bt.flags = V4L2_DV_FL_HAS_CEA861_VIC;
    bt.cea861_vic = 16;
    assert!(!is_rk628_no_signal_fingerprint(&bt));
}

#[test]
fn csi_bridge_rk628_fingerprint_rejects_real_vga_without_vic() {
    let mut bt = zeroed_bt();
    bt.width = 640;
    bt.height = 480;
    bt.pixelclock = 25_175_000;
    bt.flags = 0;
    bt.cea861_vic = 0;
    assert!(!is_rk628_no_signal_fingerprint(&bt));
}

#[test]
fn rk628_fingerprint_tolerates_a_small_clock_error() {
    let mut bt = zeroed_bt();
    bt.width = 640;
    bt.height = 480;
    bt.pixelclock = 25_175_000 + 49_999;
    bt.flags = V4L2_DV_FL_HAS_CEA861_VIC;
    bt.cea861_vic = 1;
    assert!(is_rk628_no_signal_fingerprint(&bt));
    bt.pixelclock = 25_175_000 - 50_000;
    assert!(!is_rk628_no_signal_fingerprint(&bt));
}

#[test]
fn bridge_from_subdev_name_recognises_known_bridges() {
    assert_eq!(
        CsiBridgeKind::from_subdev_name("rk628-csi-v4l2 9-0051"),
        Some(CsiBridgeKind::Rk628)
    );
    assert_eq!(
        CsiBridgeKind::from_subdev_name("rk-hdmirx-ctrl"),
        Some(CsiBridgeKind::RkHdmirx)
    );
    assert_eq!(
        CsiBridgeKind::from_subdev_name("tc358743 2-000f"),
        Some(CsiBridgeKind::Tc358743)
    );
    assert_eq!(CsiBridgeKind::from_subdev_name("mystery"), None);
}

#[test]
fn csi_bridge_from_subdev_name_recognises_known_bridges() {
    assert_eq!(
        CsiBridgeKind::from_subdev_name("rk628-csi-v4l2 9-0051"),
        Some(CsiBridgeKind::Rk628)
    );
    assert_eq!(
        CsiBridgeKind::from_subdev_name("rk-hdmirx-ctrl"),
        Some(CsiBridgeKind::RkHdmirx)
    );
    assert_eq!(
        CsiBridgeKind::from_subdev_name("tc358743 2-000f"),
        Some(CsiBridgeKind::Tc358743)
    );
    assert_eq!(CsiBridgeKind::from_subdev_name("mystery"), None);
}

#[test]
fn query_errno_mapping_distinguishes_signal_loss_from_unsupported_nodes() {
    assert!(matches!(
        classify_query_error(&QueryDvTimingsError::NoLink, CsiBridgeKind::RkHdmirx),
        ProbeResult::NoCable
    ));
    assert!(matches!(
        classify_query_error(
            &QueryDvTimingsError::UnstableSignal,
            CsiBridgeKind::RkHdmirx
        ),
        ProbeResult::NoSync
    ));
    assert!(matches!(
        classify_query_error(&QueryDvTimingsError::Unsupported, CsiBridgeKind::RkHdmirx),
        ProbeResult::NoSignal
    ));
    assert!(matches!(
        classify_query_error(&QueryDvTimingsError::Unsupported, CsiBridgeKind::Unknown),
        ProbeResult::Unavailable
    ));
}

#[test]
fn recognizes_vendor_and_upstream_native_hdmirx_names() {
    assert!(is_rk_hdmirx_driver("rk_hdmirx", "rk_hdmirx"));
    assert!(is_rk_hdmirx_driver("snps_hdmirx", "Synopsys HDMI RX"));
    assert!(is_rk_hdmirx_driver("other", "SNPS_HDMIRX"));
    assert!(!is_rk_hdmirx_driver("rkcif", "stream_cif_mipi_id0"));
}

#[test]
fn classifies_source_following_drivers_in_one_place() {
    assert_eq!(
        control_mode("rkcif", "stream_cif_mipi_id0"),
        VideoControlMode::SourceFollowing
    );
    assert_eq!(
        control_mode("rkcif-mipi", "capture"),
        VideoControlMode::SourceFollowing
    );
    assert_eq!(
        control_mode("rk_hdmirx", "capture"),
        VideoControlMode::SourceFollowing
    );
    assert_eq!(
        control_mode("uvcvideo", "USB Capture"),
        VideoControlMode::Configurable
    );
}

#[test]
fn test_resolution() {
    let res = Resolution::HD1080();
    assert_eq!(res.width, 1920);
    assert_eq!(res.height, 1080);
    assert!(res.is_valid());
}

/// The mode a locked input reports, its frame rate rounded as the status
/// reader does.
fn locked(format: PixelFormat, width: u32, height: u32, fps: f64) -> LockedInputMode {
    LockedInputMode {
        format: format.name().to_string(),
        width,
        height,
        fps: fps.round() as u32,
    }
}

#[test]
fn source_following_uses_locked_hardware_mode_and_exact_fps_rounding() {
    let mode = locked(PixelFormat::Nv12, 1920, 1080, 59.94);
    let resolved = resolve_video_input_config(
        VideoControlMode::SourceFollowing,
        Some(&mode),
        &[],
        PixelFormat::Mjpeg,
        Resolution::new(3840, 2160),
        15,
    );
    assert_eq!(resolved.format, PixelFormat::Nv12);
    assert_eq!(resolved.resolution, Resolution::new(1920, 1080));
    assert_eq!(resolved.fps, 60);
}

#[test]
fn no_signal_keeps_fallback_and_configurable_keeps_request() {
    for mode in [VideoControlMode::SourceFollowing, VideoControlMode::Configurable] {
        let resolved = resolve_video_input_config(
            mode,
            None,
            &[],
            PixelFormat::Yuyv,
            Resolution::new(1280, 720),
            30,
        );
        assert_eq!(resolved.format, PixelFormat::Yuyv);
        assert_eq!(resolved.resolution, Resolution::new(1280, 720));
        assert_eq!(resolved.fps, 30);
    }
}

#[test]
fn source_following_replaces_unenumerated_default_format_without_signal() {
    let resolved = resolve_video_input_config(
        VideoControlMode::SourceFollowing,
        None,
        &[PixelFormat::Nv12, PixelFormat::Yuyv],
        PixelFormat::Mjpeg,
        Resolution::new(1920, 1080),
        30,
    );
    assert_eq!(resolved.format, PixelFormat::Nv12);
    assert_eq!(resolved.resolution, Resolution::new(1920, 1080));
    assert_eq!(resolved.fps, 30);
}

#[test]
fn source_following_replaces_stale_active_format_but_keeps_input_mode() {
    let mode = locked(PixelFormat::Mjpeg, 1280, 720, 59.94);
    let resolved = resolve_video_input_config(
        VideoControlMode::SourceFollowing,
        Some(&mode),
        &[PixelFormat::Nv12, PixelFormat::Yuyv],
        PixelFormat::Mjpeg,
        Resolution::new(1920, 1080),
        30,
    );
    assert_eq!(resolved.format, PixelFormat::Nv12);
    assert_eq!(resolved.resolution, Resolution::new(1280, 720));
    assert_eq!(resolved.fps, 60);
}

#[test]
fn nearest_bridge_wins_in_breadth_first_order() {
    // video0 <- 5 (bridge 9 behind it) and video0 <- 7 (a bridge itself):
    // 7 is one hop away, 9 two, so 7 is found.
    let entities = vec![
        graph_entity(1, "stream_cif_mipi_id0", (81, 0)),
        graph_entity(5, "rockchip-mipi-csi2", (0, 0)),
        graph_entity(7, "m01_b_rk628-csi 4-0050", (81, 17)),
        graph_entity(9, "m00_b_rk628-csi 3-0050", (81, 16)),
    ];
    let links = vec![graph_link(9, 5), graph_link(7, 1), graph_link(5, 1)];
    let (entity, _) = connected_bridge_entity(&entities, &links, (81, 0)).unwrap();
    assert_eq!(entity.id, 7);

    // Two bridges at the same distance: the lower id is visited first.
    let entities = vec![
        graph_entity(1, "stream_cif_mipi_id0", (81, 0)),
        graph_entity(8, "m01_b_rk628-csi 4-0050", (81, 17)),
        graph_entity(6, "m00_b_rk628-csi 3-0050", (81, 16)),
    ];
    let links = vec![graph_link(8, 1), graph_link(6, 1)];
    let (entity, _) = connected_bridge_entity(&entities, &links, (81, 0)).unwrap();
    assert_eq!(entity.id, 6);
}

#[test]
fn locked_frame_rate_is_held_to_one_to_one_hundred_twenty() {
    for (fps, expected) in [(500.0, 120), (0.2, 1), (120.4, 120), (29.97, 30)] {
        let mode = locked(PixelFormat::Nv12, 1920, 1080, fps);
        let resolved = resolve_video_input_config(
            VideoControlMode::SourceFollowing,
            Some(&mode),
            &[],
            PixelFormat::Mjpeg,
            Resolution::new(1280, 720),
            30,
        );
        assert_eq!(resolved.fps, expected);
    }
}
