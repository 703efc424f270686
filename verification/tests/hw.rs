use eztopaz::config::{default_profiles, find_profile, ScreenTarget, ScreenTargetKind};
use eztopaz::error::Error;
use eztopaz::ffmpeg::args::Transport;
use eztopaz::ffmpeg::hw::{
    build_direct_args, direct_capture_input_args, direct_video_filter, direct_video_input_args,
    hw_upload_chain, hw_upload_filter, init_hw_device_args, parse_direct_input, DirectSource,
    HwBackend,
};
use eztopaz::ipc_types::StreamSettings;

#[test]
fn pipe_transports_need_no_upload_filter() {
    assert_eq!(hw_upload_filter("h264_nvenc", &Transport::PipeBgra), None);
    assert_eq!(hw_upload_filter("h264_nvenc", &Transport::PipeNv12), None);
}

#[test]
fn hwdirect_emits_upload_chain() {
    assert_eq!(
        hw_upload_filter("h264_nvenc", &Transport::HwDirect),
        Some("hwupload_cuda".into())
    );
    assert_eq!(
        hw_upload_filter("h264_qsv", &Transport::HwDirect),
        Some("hwupload=extra_hw_frames=64".into())
    );
    assert_eq!(hw_upload_filter("libx264", &Transport::HwDirect), None);
}

#[test]
fn backend_mapping() {
    assert_eq!(HwBackend::for_encoder("h264_nvenc"), HwBackend::Cuda);
    assert_eq!(HwBackend::for_encoder("h264_qsv"), HwBackend::Qsv);
    assert_eq!(HwBackend::for_encoder("libx264"), HwBackend::NoDevice);
}

#[test]
fn no_device_init_by_default() {
    assert!(init_hw_device_args(&HwBackend::NoDevice).is_empty());
    assert!(!init_hw_device_args(&HwBackend::Cuda).is_empty());
}

#[test]
fn direct_capture_inputs_shape() {
    let dda = direct_capture_input_args(&DirectSource::DdagrabFullscreen, 60);
    assert_eq!(dda[0], "-f");
    assert!(dda.join(" ").contains("ddagrab"));
    let gfx = direct_capture_input_args(&DirectSource::GfxCaptureWindow, 30);
    assert!(gfx.join(" ").contains("gfxcapture"));
}

#[test]
fn vaapi_chain_normalizes_on_gpu() {
    assert_eq!(
        hw_upload_filter("h264_vaapi", &Transport::HwDirect),
        Some("format=nv12,hwupload,scale_vaapi=format=nv12".into())
    );
}

fn direct_cfg(screen_kind: ScreenTargetKind, id: &str, direct: Option<&str>) -> StreamSettings {
    StreamSettings {
        stream_key: "test-key-123".into(),
        screen: ScreenTarget { kind: screen_kind, id: id.into() },
        direct_input: direct.map(|s| s.to_string()),
        ..Default::default()
    }
}

#[test]
fn parse_direct_input_gates_experimental() {
    assert_eq!(parse_direct_input(Some("ddagrab")), Some(DirectSource::DdagrabFullscreen));
    assert_eq!(parse_direct_input(Some("gfxcapture")), None);
    assert_eq!(parse_direct_input(None), None);
}

#[test]
fn direct_video_input_binds_display() {
    let profiles = default_profiles();
    let p = find_profile(&profiles, "mid").unwrap();
    let args = direct_video_input_args(
        p,
        &direct_cfg(ScreenTargetKind::Display, "display:1", None).screen,
        &DirectSource::DdagrabFullscreen,
    )
    .unwrap()
    .join(" ");
    assert!(args.contains("ddagrab=output_idx=1:framerate=30"), "{args}");
    // window targets rejected
    assert!(direct_video_input_args(
        p,
        &direct_cfg(ScreenTargetKind::Window, "window:123", None).screen,
        &DirectSource::DdagrabFullscreen,
    )
    .is_err());
}

#[test]
fn build_direct_args_shape() {
    let profiles = default_profiles();
    let p = find_profile(&profiles, "mid").unwrap(); // 1280x720@30
    let cfg = direct_cfg(ScreenTargetKind::Display, "display:0", Some("ddagrab"));
    let argv = build_direct_args(p, "h264_nvenc", &cfg, "aud").unwrap().join(" ");
    assert!(argv.contains("-init_hw_device d3d11va=d3d11:0"), "{argv}");
    assert!(argv.contains("ddagrab=output_idx=0:framerate=30"), "{argv}");
    assert!(argv.contains("scale_d3d11=1280:720:format=nv12"), "{argv}");
    assert!(argv.contains("-c:v h264_nvenc"), "{argv}");
    assert!(argv.contains("f32le"), "{argv}");
    assert!(!argv.contains("rawvideo"), "{argv}");
    assert!(argv.ends_with("rtmp://topaz.chat/live/test-key-123"), "{argv}");
}

#[test]
fn build_direct_args_rejects_non_nvenc_and_unset() {
    let profiles = default_profiles();
    let p = find_profile(&profiles, "mid").unwrap();
    let cfg = direct_cfg(ScreenTargetKind::Display, "display:0", Some("ddagrab"));
    assert!(build_direct_args(p, "libx264", &cfg, "aud").is_err());
    let unset = direct_cfg(ScreenTargetKind::Display, "display:0", None);
    assert!(build_direct_args(p, "h264_nvenc", &unset, "aud").is_err());
}

#[test]
fn direct_errors_carry_messages() {
    let profiles = default_profiles();
    let p = find_profile(&profiles, "mid").unwrap();
    let gfx = direct_cfg(ScreenTargetKind::Display, "display:0", Some("gfxcapture"));
    match build_direct_args(p, "h264_nvenc", &gfx, "aud") {
        Err(Error::Config(m)) => assert_eq!(
            m,
            "unsupported direct_input: Some(\"gfxcapture\") (only \"ddagrab\" is wired)"
        ),
        other => panic!("unexpected: {other:?}"),
    }
    let unset = direct_cfg(ScreenTargetKind::Display, "display:0", None);
    match build_direct_args(p, "h264_nvenc", &unset, "aud") {
        Err(Error::Config(m)) => {
            assert_eq!(m, "unsupported direct_input: None (only \"ddagrab\" is wired)")
        }
        other => panic!("unexpected: {other:?}"),
    }
    let cfg = direct_cfg(ScreenTargetKind::Display, "display:0", Some("ddagrab"));
    match build_direct_args(p, "h264_qsv", &cfg, "aud") {
        Err(Error::EncoderNotAvailable(m)) => assert_eq!(
            m,
            "h264_qsv has no direct-input path (use h264_nvenc or the pipe path)"
        ),
        other => panic!("unexpected: {other:?}"),
    }
    let win = direct_cfg(ScreenTargetKind::Window, "window:7", Some("ddagrab"));
    assert!(matches!(build_direct_args(p, "h264_nvenc", &win, "aud"), Err(Error::Config(_))));
    match direct_video_input_args(p, &gfx.screen, &DirectSource::GfxCaptureWindow) {
        Err(Error::Config(m)) => assert_eq!(m, "gfxcapture direct input is experimental"),
        other => panic!("unexpected: {other:?}"),
    }
}

#[test]
fn display_index_parsing() {
    let profiles = default_profiles();
    let p = find_profile(&profiles, "high").unwrap();
    let input = |id: &str| {
        direct_video_input_args(
            p,
            &ScreenTarget { kind: ScreenTargetKind::Display, id: id.into() },
            &DirectSource::DdagrabFullscreen,
        )
        .unwrap()
        .last()
        .unwrap()
        .clone()
    };
    assert_eq!(input("display:12"), "ddagrab=output_idx=12:framerate=60");
    assert_eq!(input("display:+3"), "ddagrab=output_idx=3:framerate=60");
    assert_eq!(input("a:b:7"), "ddagrab=output_idx=7:framerate=60");
    assert_eq!(input("5"), "ddagrab=output_idx=5:framerate=60");
    assert_eq!(input("display:"), "ddagrab=output_idx=0:framerate=60");
    assert_eq!(input("display:x1"), "ddagrab=output_idx=0:framerate=60");
    assert_eq!(input("display:99999999999999999999999"), "ddagrab=output_idx=0:framerate=60");
}

#[test]
fn upload_chains_and_filters() {
    assert_eq!(hw_upload_chain(&HwBackend::D3d12va), Some("hwupload".to_string()));
    assert_eq!(hw_upload_chain(&HwBackend::NoDevice), None);
    assert!(init_hw_device_args(&HwBackend::Amf).is_empty());
    assert_eq!(
        init_hw_device_args(&HwBackend::Vaapi),
        vec!["-init_hw_device".to_string(), "vaapi=va:/dev/dri/renderD128".to_string()]
    );
    let profiles = default_profiles();
    assert_eq!(
        direct_video_filter(find_profile(&profiles, "low").unwrap()),
        "scale_d3d11=854:480:format=nv12"
    );
}
