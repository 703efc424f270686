use eztopaz::ffmpeg::probe::{parse_encoders, probe_best_in, test_encode_args};
use eztopaz::ffmpeg::probe::candidates_to_test;
use eztopaz::ffmpeg::probe::{encoder_report, missing_ffmpeg_report};
use eztopaz::ffmpeg::probe::{cached_encoders, EncoderCacheFile};
use eztopaz::ipc_types::EncoderInfo;

const SAMPLE: &str = "\
ffmpeg version 8.0 Copyright (c) 2000-2026 the FFmpeg developers
Hyper fast Audio and Video encoder
usage: ffmpeg [options] [[infile options] -i infile]... {[outfile options] outfile}...

Video encoders:
 A..... = Supported
 V..... = Supported
 V....D libx264              libx264 H.264 / AVC / MPEG-4 AVC / MPEG-4 part 10
 V....D libx264rgb           libx264 H.264, 4:2:0, 4:2:2, 4:4:4
 V....D h264_nvenc           NVIDIA NVENC H.264 encoder (codec h264)
 V....D h264_qsv             QuickSync H.264 Encoder
 V....D h264_amf             AMD AMF H.264 Encoder
 V....D h264_vaapi           VAAPI H.264 Encoder
 V....D h264_vulkan          Vulkan H.264 Encoder
 V....D mpeg4                MPEG-4 part 2.
------------------
Text encoders:
";

#[test]
fn parses_encoder_names() {
    let enc = parse_encoders(SAMPLE);
    for name in ["libx264", "h264_nvenc", "h264_qsv", "h264_amf", "h264_vaapi", "h264_vulkan"] {
        assert!(enc.iter().any(|e| e == name), "missing {name}");
    }
    assert!(!enc.iter().any(|e| e == "usage:"), "should not pick non-encoder lines");
}

#[test]
fn auto_priority() {
    let all: Vec<String> = ["h264_nvenc", "h264_qsv", "h264_amf", "h264_vaapi"]
        .iter()
        .map(|s| s.to_string())
        .collect();
    assert_eq!(probe_best_in(&all, true, true), "h264_nvenc");

    let no_nvenc = all[1..].to_vec();
    assert_eq!(probe_best_in(&no_nvenc, true, true), "h264_qsv");

    // amf is windows-only, vaapi is linux-only
    let amf_only: Vec<String> = ["h264_amf"].iter().map(|s| s.to_string()).collect();
    assert_eq!(probe_best_in(&amf_only, true, false), "h264_amf");
    assert_eq!(probe_best_in(&amf_only, false, false), "libx264");

    let vaapi_only: Vec<String> = ["h264_vaapi"].iter().map(|s| s.to_string()).collect();
    assert_eq!(probe_best_in(&vaapi_only, false, true), "h264_vaapi");
    assert_eq!(probe_best_in(&vaapi_only, true, false), "libx264");

    // vulkan never selected in auto (manual only)
    let vulkan_only: Vec<String> = ["h264_vulkan"].iter().map(|s| s.to_string()).collect();
    assert_eq!(probe_best_in(&vulkan_only, true, true), "libx264");

    assert_eq!(probe_best_in(&[], true, true), "libx264");
}

#[test]
fn test_encode_args_shape() {
    let args = test_encode_args("h264_nvenc");
    assert_eq!(args[2], "-i");
    assert!(args.iter().any(|a| a == "h264_nvenc"));
}

#[test]
fn parse_encoders_exact_list() {
    let enc = parse_encoders(SAMPLE);
    assert_eq!(
        enc,
        vec![
            "libx264", "libx264rgb", "h264_nvenc", "h264_qsv", "h264_amf", "h264_vaapi",
            "h264_vulkan", "mpeg4",
        ]
    );
}

#[test]
fn parse_encoders_lines_and_duplicates() {
    let out = "\tV.S... dup  x\r\n V..... dup other\nno flags here\n  ABC\n";
    assert_eq!(parse_encoders(out), vec!["dup"]);
    assert!(parse_encoders("").is_empty());
    assert!(parse_encoders(" V.....   \n").is_empty());
    let legend = " V..... = Video\n A..... = Audio\n V....D libx264              libx264 H.264\n";
    assert_eq!(parse_encoders(legend), vec!["libx264"]);
}

#[test]
fn candidates_follow_priority_and_listing() {
    let listed: Vec<String> = ["libx264", "h264_vaapi", "h264_nvenc", "h264_vulkan"]
        .iter()
        .map(|s| s.to_string())
        .collect();
    assert_eq!(candidates_to_test(&listed), vec!["h264_nvenc", "h264_vaapi"]);
    assert!(candidates_to_test(&[]).is_empty());
}

#[test]
fn report_lists_results_then_libx264() {
    let r = encoder_report(&[("h264_nvenc", true), ("h264_qsv", false)]);
    assert_eq!(r.len(), 3);
    assert_eq!((r[0].name.as_str(), r[0].usable, r[0].reason.clone()), ("h264_nvenc", true, None));
    assert_eq!(r[1].name, "h264_qsv");
    assert!(!r[1].usable);
    assert_eq!(r[1].reason.as_deref(), Some("1-frame encode test failed (driver missing?)"));
    assert_eq!((r[2].name.as_str(), r[2].usable), ("libx264", true));
    let m = missing_ffmpeg_report();
    assert_eq!(m.len(), 1);
    assert_eq!(m[0].reason.as_deref(), Some("ffmpeg binary not found"));
    assert!(!m[0].usable);
}

#[test]
fn cache_hit_only_for_same_binary() {
    let enc = vec![EncoderInfo { name: "h264_nvenc".into(), usable: true, reason: None }];
    let file = EncoderCacheFile {
        ffmpeg: "/opt/ffmpeg".into(),
        version: "ffmpeg version 8.0".into(),
        mtime: 100,
        size: 4,
        encoders: enc.clone(),
    };
    assert_eq!(cached_encoders(file.clone(), "/opt/ffmpeg", "ffmpeg version 8.0", 100, 4), Some(enc));
    assert_eq!(cached_encoders(file.clone(), "/opt/ffmpeg", "ffmpeg version 9.0", 100, 4), None);
    assert_eq!(cached_encoders(file.clone(), "/opt/ffmpeg", "ffmpeg version 8.0", 101, 4), None);
    assert_eq!(cached_encoders(file.clone(), "/opt/ffmpeg", "ffmpeg version 8.0", 100, 15), None);
    assert_eq!(cached_encoders(file, "/usr/bin/ffmpeg", "ffmpeg version 8.0", 100, 4), None);
}
