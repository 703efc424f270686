use eztopaz::config::{default_profiles, find_profile, Profile, MAX_AUDIO_KBPS, MAX_VIDEO_KBPS};
use eztopaz::error::Error;
use eztopaz::ffmpeg::args::{
    build_ffmpeg_args, build_ffmpeg_args_with_transport, output_pix_fmt, preset_and_rc,
    transport_for_encoder, transport_for_plan, Transport,
};

fn profile(id: &str) -> Profile {
    find_profile(&default_profiles(), id).unwrap().clone()
}

fn build(id: &str, enc: &str) -> Vec<String> {
    build_ffmpeg_args(&profile(id), enc, "rtmp://topaz.chat/live", "test-key-123", "vid", "aud")
        .unwrap()
}

fn find<'a>(args: &'a [String], flag: &str) -> &'a str {
    let i = args.iter().position(|a| a == flag).unwrap_or_else(|| panic!("no {flag}"));
    &args[i + 1]
}

#[test]
fn nvenc_args() {
    let args = build("high", "h264_nvenc"); // 720p60 2000k
    assert_eq!(find(&args, "-c:v"), "h264_nvenc");
    assert_eq!(find(&args, "-preset"), "p1");
    assert_eq!(find(&args, "-rc"), "cbr");
    assert_eq!(find(&args, "-g"), "120"); // 60fps * 2s
    assert_eq!(find(&args, "-bufsize"), "4000k");
    assert_eq!(find(&args, "-s"), "1280x720");
    assert_eq!(find(&args, "-r"), "60");
    assert!(args.contains(&"flv".to_string()));
    assert!(args.last().unwrap().ends_with("rtmp://topaz.chat/live/test-key-123"));
}

#[test]
fn x264_args() {
    let args = build("mid", "libx264"); // 720p30 1500k
    assert_eq!(find(&args, "-preset"), "veryfast");
    assert_eq!(find(&args, "-rc-lookahead"), "0");
    assert_eq!(find(&args, "-g"), "60"); // 30fps * 2s
    assert!(!args.contains(&"-rc".to_string())); // x264: no -rc, ABR via maxrate/bufsize
}

#[test]
fn vaapi_has_no_preset() {
    let args = build("mid", "h264_vaapi");
    assert!(!args.contains(&"-preset".to_string()));
}

#[test]
fn audio_pipe_is_f32le_48k_stereo() {
    let args = build("mid", "libx264");
    assert_eq!(find(&args, "-f"), "rawvideo"); // first -f (video)
    let i = args.iter().position(|a| a == "f32le").unwrap();
    assert!(i > 0);
    assert_eq!(find(&args, "-ar"), "48000");
    assert_eq!(find(&args, "-ac"), "2");
}

#[test]
fn ingest_url_trailing_slash_trimmed() {
    let args = build_ffmpeg_args(
        &profile("mid"),
        "libx264",
        "rtmp://custom.example/live/",
        "k",
        "v",
        "a",
    )
    .unwrap();
    assert!(args.last().unwrap().ends_with("rtmp://custom.example/live/k"));
}

#[test]
fn bitrate_guard_blocks_over_limit() {
    let mut p = profile("mid");
    p.v_kbps = MAX_VIDEO_KBPS + 1;
    let err = build_ffmpeg_args(&p, "libx264", "rtmp://x", "k", "v", "a").unwrap_err();
    assert!(matches!(err, Error::BitrateOver { .. }));

    let mut p = profile("mid");
    p.a_kbps = MAX_AUDIO_KBPS + 1;
    assert!(build_ffmpeg_args(&p, "libx264", "rtmp://x", "k", "v", "a").is_err());
}

#[test]
fn pipe_robustness_flags() {
    let args = build("mid", "libx264");
    assert_eq!(find(&args, "-thread_queue_size"), "1024");
    assert!(args.contains(&"512".to_string()));
    assert_eq!(find(&args, "-probesize"), "32");
    assert_eq!(find(&args, "-analyzeduration"), "0");
    assert_eq!(find(&args, "-fflags"), "nobuffer");
}

#[test]
fn strict_gop_no_scenecut() {
    let args = build("mid", "libx264"); // gop 60
    assert_eq!(find(&args, "-g"), "60");
    assert_eq!(find(&args, "-keyint_min"), "60");
    assert_eq!(find(&args, "-sc_threshold"), "0");
}

#[test]
fn swscale_and_cfr_and_muxer_flags() {
    let args = build("mid", "libx264");
    assert_eq!(find(&args, "-sws_flags"), "fast_bilinear");
    assert_eq!(find(&args, "-fps_mode"), "cfr");
    assert_eq!(find(&args, "-flvflags"), "no_duration_filesize");
    assert_eq!(find(&args, "-flush_packets"), "1");
}

#[test]
fn nvenc_low_latency_flags() {
    let args = build("high", "h264_nvenc");
    assert_eq!(find(&args, "-tune"), "ll");
    assert_eq!(find(&args, "-rc-lookahead"), "0");
    assert_eq!(find(&args, "-no-scenecut"), "1");
    assert_eq!(find(&args, "-forced-idr"), "1");
}

#[test]
fn x264_sliced_threads_no_full_zerolatency() {
    let args = build("mid", "libx264");
    let params = find(&args, "-x264-params");
    assert!(params.contains("sliced-threads=1"));
    assert!(params.contains("sync-lookahead=0"));
    assert!(params.contains("scenecut=0"));
    // full `-tune zerolatency` is banned (gray-screen regression)
    assert!(!args.contains(&"zerolatency".to_string()));
}

#[test]
fn qsv_and_amf_low_latency() {
    let qsv = build("mid", "h264_qsv");
    assert_eq!(find(&qsv, "-async_depth"), "1");
    let amf = build("mid", "h264_amf");
    assert_eq!(find(&amf, "-usage"), "lowlatency");
}

#[test]
fn nv12_transport_uses_nv12_for_hw() {
    let p = profile("mid");
    let hw = build_ffmpeg_args_with_transport(
        &p,
        "h264_nvenc",
        "rtmp://topaz.chat/live",
        "test-key-123",
        "vid",
        "aud",
        &Transport::PipeNv12,
    )
    .unwrap();
    assert_eq!(find(&hw, "-pix_fmt"), "nv12"); // input
    let out_pix = hw
        .windows(2)
        .find(|w| w[0] == "-pix_fmt" && (w[1] == "nv12" || w[1] == "yuv420p"))
        .unwrap()[1]
        .clone();
    assert_eq!(out_pix, "nv12");
    // x264 stays on yuv420p even with nv12 input
    let sw = build_ffmpeg_args_with_transport(
        &p,
        "libx264",
        "rtmp://topaz.chat/live",
        "test-key-123",
        "vid",
        "aud",
        &Transport::PipeNv12,
    )
    .unwrap();
    let pix_fmts: Vec<&str> = sw
        .iter()
        .enumerate()
        .filter(|(_, a)| a.as_str() == "-pix_fmt")
        .map(|(i, _)| sw[i + 1].as_str())
        .collect();
    assert_eq!(pix_fmts, vec!["nv12", "yuv420p"]);
}

#[test]
fn full_argv_for_mid_x264_is_exact() {
    let args = build_ffmpeg_args(&profile("mid"), "libx264", "rtmp://h/live//", "key", "V", "A")
        .unwrap();
    let expected = [
        "-hide_banner", "-loglevel", "info", "-progress", "pipe:1",
        "-fflags", "nobuffer", "-probesize", "32", "-analyzeduration", "0",
        "-thread_queue_size", "1024", "-f", "rawvideo", "-pix_fmt", "bgra", "-s", "1280x720",
        "-r", "30", "-i", "V",
        "-thread_queue_size", "512", "-f", "f32le", "-ar", "48000", "-ac", "2", "-i", "A",
        "-c:v", "libx264", "-pix_fmt", "yuv420p", "-profile:v", "high", "-bf", "0",
        "-g", "60", "-keyint_min", "60", "-sc_threshold", "0", "-sws_flags", "fast_bilinear",
        "-fps_mode", "cfr", "-b:v", "1500k", "-maxrate", "1500k", "-bufsize", "3000k",
        "-preset", "veryfast", "-rc-lookahead", "0", "-x264-params",
        "sliced-threads=1:sync-lookahead=0:scenecut=0",
        "-c:a", "aac", "-b:a", "192k", "-ac", "2", "-ar", "48000",
        "-flvflags", "no_duration_filesize", "-flush_packets", "1", "-f", "flv",
        "rtmp://h/live/key",
    ];
    assert_eq!(args, expected.iter().map(|s| s.to_string()).collect::<Vec<_>>());
}

#[test]
fn hw_direct_transport_inits_device_and_uploads() {
    let args = build_ffmpeg_args_with_transport(
        &profile("mid"),
        "h264_nvenc",
        "rtmp://x",
        "k",
        "v",
        "a",
        &Transport::HwDirect,
    )
    .unwrap();
    assert_eq!(&args[5..7], &["-init_hw_device".to_string(), "cuda=cu:0".to_string()]);
    assert_eq!(find(&args, "-vf"), "hwupload_cuda");
    assert_eq!(find(&args, "-pix_fmt"), "nv12");
}

#[test]
fn transports_and_pixel_formats() {
    assert_eq!(transport_for_encoder("h264_vulkan"), Transport::PipeNv12);
    assert_eq!(transport_for_encoder("libx264"), Transport::PipeBgra);
    assert_eq!(transport_for_plan("h264_nvenc", true), Transport::HwDirect);
    assert_eq!(transport_for_plan("libx264", true), Transport::PipeBgra);
    assert_eq!(transport_for_plan("h264_qsv", false), Transport::PipeNv12);
    assert_eq!(output_pix_fmt("h264_amf", &Transport::PipeBgra), "yuv420p");
    assert_eq!(output_pix_fmt("h264_amf", &Transport::HwDirect), "nv12");
    assert_eq!(output_pix_fmt("libx264", &Transport::PipeNv12), "yuv420p");
    let (preset, rc) = preset_and_rc("h264_amf");
    assert_eq!(preset, Some("speed"));
    assert_eq!(rc, &["-usage", "lowlatency"]);
    let (preset, rc) = preset_and_rc("h264_vulkan");
    assert_eq!(preset, None);
    assert!(rc.is_empty());
}

#[test]
fn plain_builder_equals_bgra_pipe_builder() {
    let p = profile("high");
    let a = build_ffmpeg_args(&p, "libx264", "rtmp://x/live/", "k3y", "/tmp/v", "/tmp/a").unwrap();
    let b = build_ffmpeg_args_with_transport(&p, "libx264", "rtmp://x/live/", "k3y", "/tmp/v", "/tmp/a", &Transport::PipeBgra).unwrap();
    assert_eq!(a, b);
    let mut over = p.clone();
    over.v_kbps = MAX_VIDEO_KBPS + 1;
    let e1 = build_ffmpeg_args(&over, "libx264", "u", "k", "v", "a").unwrap_err();
    let e2 = build_ffmpeg_args_with_transport(&over, "libx264", "u", "k", "v", "a", &Transport::PipeBgra).unwrap_err();
    assert!(matches!((e1, e2), (Error::BitrateOver { v_kbps: x, .. }, Error::BitrateOver { v_kbps: y, .. }) if x == y));
}

#[test]
fn default_profile_ids_are_unique() {
    let t = default_profiles();
    for i in 0..t.len() {
        for j in i + 1..t.len() {
            assert_ne!(t[i].0, t[j].0);
        }
    }
}
