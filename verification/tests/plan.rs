use eztopaz::config::default_profiles;
use eztopaz::error::Error;
use eztopaz::ffmpeg::args::Transport;
use eztopaz::ffmpeg::pipes::{audio_pipe_path, video_pipe_path};
use eztopaz::ffmpeg::start::{build_plan, StartPlan};
use eztopaz::ffmpeg::supervisor::{retry_backoff_ms, MAX_RETRIES};
use eztopaz::ipc_types::StreamSettings;
use eztopaz::ffmpeg::start::preview_profile;

fn cfg(key: &str, profile_id: &str, encoder: &str) -> StreamSettings {
    StreamSettings {
        stream_key: key.into(),
        profile_id: profile_id.into(),
        encoder_override: encoder.into(),
        ..Default::default()
    }
}

fn plan(c: &StreamSettings, usable: &[String]) -> Result<StartPlan, Error> {
    build_plan(c, &default_profiles(), usable, false, true)
}

#[test]
fn plan_builds_for_libx264() {
    let plan = plan(&cfg("test-key-123", "mid", "auto"), &[]).unwrap();
    assert_eq!(plan.encoder, "libx264"); // no usable HW in empty list
    assert!(plan.ffmpeg_args.last().unwrap().ends_with("rtmp://topaz.chat/live/test-key-123"));
}

#[test]
fn plan_picks_nvenc_when_usable() {
    let usable = vec!["h264_nvenc".to_string()];
    let plan = plan(&cfg("k3y", "high", "auto"), &usable).unwrap();
    assert_eq!(plan.encoder, "h264_nvenc");
}

#[test]
fn hw_direct_opt_in_selects_hwdirect_transport() {
    let mut c = cfg("k3y", "mid", "h264_nvenc");
    c.hw_direct = true;
    let p = plan(&c, &["h264_nvenc".to_string()]).unwrap();
    assert_eq!(p.transport, Transport::HwDirect);
    assert!(p.ffmpeg_args.contains(&"-init_hw_device".to_string()));
    // default stays on implicit-upload pipe
    let plain = plan(&cfg("k3y", "mid", "h264_nvenc"), &[]).unwrap();
    assert_eq!(plain.transport, Transport::PipeNv12);
}

#[test]
fn manual_override_is_respected() {
    let p = plan(&cfg("k3y", "mid", "libx264"), &[]).unwrap();
    assert_eq!(p.encoder, "libx264");
}

#[test]
fn invalid_key_rejected() {
    assert!(plan(&cfg("x", "mid", "auto"), &[]).is_err());
    assert!(plan(&cfg("bad key!", "mid", "auto"), &[]).is_err());
}

#[test]
fn unknown_profile_rejected() {
    assert!(plan(&cfg("k3y", "nope", "auto"), &[]).is_err());
}

#[test]
fn unknown_encoder_rejected() {
    assert!(plan(&cfg("k3y", "mid", "h264_magic"), &[]).is_err());
}

#[test]
fn plan_errors_name_the_cause() {
    assert!(matches!(plan(&cfg("x", "mid", "auto"), &[]), Err(Error::StreamKey(k)) if k == "x"));
    match plan(&cfg("k3y", "nope", "auto"), &[]) {
        Err(Error::Config(m)) => assert_eq!(m, "unknown profile: nope"),
        other => panic!("unexpected: {other:?}"),
    }
    assert!(matches!(
        plan(&cfg("k3y", "mid", "h264_magic"), &[]),
        Err(Error::EncoderNotAvailable(e)) if e == "h264_magic"
    ));
    let mut table = default_profiles();
    table[3].1.v_kbps = 2500;
    assert!(matches!(
        build_plan(&cfg("k3y", "mid", "auto"), &table, &[], false, true),
        Err(Error::BitrateOver { v_kbps: 2500, a_kbps: 192 })
    ));
}

#[test]
fn plan_pipes_and_empty_override() {
    let p = build_plan(&cfg("k3y", "low", ""), &default_profiles(), &[], true, false).unwrap();
    assert_eq!(p.encoder, "libx264");
    assert_eq!(p.video_pipe, r"\\.\pipe\ezTopaz_video");
    assert_eq!(p.audio_pipe, r"\\.\pipe\ezTopaz_audio");
    assert_eq!(p.transport, Transport::PipeBgra);
    let i = p.ffmpeg_args.iter().position(|a| a == "-i").unwrap();
    assert_eq!(p.ffmpeg_args[i + 1], r"\\.\pipe\ezTopaz_video");
    let vulkan = plan(&cfg("k3y", "mid", "h264_vulkan"), &[]).unwrap();
    assert_eq!(vulkan.encoder, "h264_vulkan");
    assert_eq!(vulkan.transport, Transport::PipeNv12);
}

#[test]
fn paths_match_platform() {
    let windows = std::path::MAIN_SEPARATOR == '\\';
    if windows {
        assert!(video_pipe_path(windows).starts_with(r"\\.\pipe\"));
    } else {
        assert!(video_pipe_path(windows).starts_with("/tmp/"));
        assert!(audio_pipe_path(windows).starts_with("/tmp/"));
    }
    assert_eq!(video_pipe_path(false), "/tmp/ezTopaz_video.pipe");
    assert_eq!(audio_pipe_path(false), "/tmp/ezTopaz_audio.pipe");
    assert_eq!(audio_pipe_path(true), r"\\.\pipe\ezTopaz_audio");
}

#[test]
fn backoff_is_exponential_capped() {
    assert_eq!(retry_backoff_ms(0), 1000);
    assert_eq!(retry_backoff_ms(1), 2000);
    assert_eq!(retry_backoff_ms(2), 4000);
    assert_eq!(retry_backoff_ms(9), 16000); // capped at shift 4
}

#[test]
fn backoff_never_shrinks() {
    let mut prev = 0;
    for r in 0..=MAX_RETRIES + 10 {
        let ms = retry_backoff_ms(r);
        assert!(ms >= prev && ms <= 16000);
        prev = ms;
    }
    assert_eq!(retry_backoff_ms(3), 8000);
    assert_eq!(retry_backoff_ms(u32::MAX), 16000);
}

#[test]
fn preview_profile_keeps_rates() {
    let table = default_profiles();
    let high = &table.iter().find(|(id, _)| id == "high").unwrap().1;
    let p = preview_profile(high);
    assert_eq!((p.w, p.h, p.fps), (640, 360, 1));
    assert_eq!((p.v_kbps, p.a_kbps, p.name.as_str()), (2000, 320, "profile.high"));
}
