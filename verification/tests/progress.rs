use eztopaz::ffmpeg::progress::{apply_line, parse_progress_line, ProgressCounters, ProgressField};

fn bitrate_of(f: &Option<ProgressField>) -> Option<f64> {
    match f {
        Some(ProgressField::Bitrate(Some(t))) => t.parse::<f64>().ok(),
        _ => None,
    }
}

#[test]
fn parses_progress_lines() {
    let mut st = ProgressCounters { is_live: true, ..Default::default() };
    let mut bitrate_kbps = 0.0f64;

    assert!(apply_line(&mut st, "frame=1234").is_some());
    let f = apply_line(&mut st, "bitrate=1536.2kbits/s");
    assert!(f.is_some());
    if let Some(b) = bitrate_of(&f) {
        bitrate_kbps = b;
    }
    assert_eq!(bitrate_kbps, 1536.2);
    assert!(apply_line(&mut st, "drop_frames=7").is_some());
    assert_eq!(st.dropped_frames, 7);
    assert!(apply_line(&mut st, "out_time_us=62000000").is_some());
    assert_eq!(st.duration_sec, 62);
    assert!(apply_line(&mut st, "progress=continue").is_some());
    assert!(st.is_live);

    assert!(apply_line(&mut st, "ffmpeg version 8.0").is_none(), "non-progress lines ignored");
    assert!(apply_line(&mut st, "no equals sign here").is_none());

    assert!(apply_line(&mut st, "progress=end").is_some());
    assert!(!st.is_live);
}

#[test]
fn bitrate_na_is_ignored() {
    let mut st = ProgressCounters::default();
    let f = apply_line(&mut st, "bitrate=N/A");
    assert!(f.is_some());
    assert_eq!(f, Some(ProgressField::Bitrate(None)));
    let bitrate_kbps = bitrate_of(&f).unwrap_or(0.0);
    assert_eq!(bitrate_kbps, 0.0);
    assert_eq!(st, ProgressCounters::default());
}

#[test]
fn parse_line_snapshot() {
    let f = parse_progress_line("bitrate=2000.0kbits/s");
    assert_eq!(bitrate_of(&f).unwrap(), 2000.0);
    assert!(parse_progress_line("garbage").is_none());
}

#[test]
fn values_are_trimmed_and_keys_exact() {
    assert_eq!(
        parse_progress_line("bitrate=  812.5 kbits/s \r"),
        Some(ProgressField::Bitrate(Some("812.5".to_string())))
    );
    assert_eq!(parse_progress_line("drop_frames= 12\t"), Some(ProgressField::DropFrames(Some(12))));
    assert_eq!(parse_progress_line(" drop_frames=12"), None, "keys are not trimmed");
    assert_eq!(parse_progress_line("drop_frames=+3"), Some(ProgressField::DropFrames(Some(3))));
    assert_eq!(parse_progress_line("drop_frames=-3"), Some(ProgressField::DropFrames(None)));
    assert_eq!(parse_progress_line("out_time_us=N/A"), Some(ProgressField::OutTimeUs(None)));
    assert_eq!(
        parse_progress_line("out_time_us=18446744073709551615"),
        Some(ProgressField::OutTimeUs(Some(u64::MAX)))
    );
    assert_eq!(
        parse_progress_line("out_time_us=18446744073709551616"),
        Some(ProgressField::OutTimeUs(None))
    );
    assert_eq!(parse_progress_line("progress=end"), Some(ProgressField::Progress(false)));
    assert_eq!(parse_progress_line("progress= end "), Some(ProgressField::Progress(false)));
    assert_eq!(parse_progress_line("progress=ended"), Some(ProgressField::Progress(true)));
    assert_eq!(parse_progress_line("speed=1.0x"), None);
    assert_eq!(parse_progress_line("a=b=c"), None);
}

#[test]
fn unparsable_counts_keep_old_values() {
    let mut st = ProgressCounters { dropped_frames: 5, duration_sec: 9, is_live: true };
    assert!(apply_line(&mut st, "drop_frames=oops").is_some());
    assert!(apply_line(&mut st, "out_time_us=").is_some());
    assert_eq!(st, ProgressCounters { dropped_frames: 5, duration_sec: 9, is_live: true });
    assert!(apply_line(&mut st, "out_time_us=1999999").is_some());
    assert_eq!(st.duration_sec, 1);
}
