use eztopaz::config::{
    default_profiles, find_profile, validate_bitrate, validate_stream_key, MAX_AUDIO_KBPS,
    MAX_VIDEO_KBPS,
};
use eztopaz::error::Error;

#[test]
fn defaults_are_within_limits() {
    for (id, p) in default_profiles() {
        assert!(validate_bitrate(p.v_kbps, p.a_kbps).is_ok(), "{id}");
        assert_eq!(p.gop(), p.fps * 2, "{id} GOP=2s");
    }
}

#[test]
fn bitrate_guard_rejects_over_limit() {
    assert!(matches!(
        validate_bitrate(2001, 192),
        Err(Error::BitrateOver { v_kbps: 2001, a_kbps: 192 })
    ));
    assert!(matches!(
        validate_bitrate(1500, 321),
        Err(Error::BitrateOver { v_kbps: 1500, a_kbps: 321 })
    ));
}

#[test]
fn stream_key_validation() {
    assert!(validate_stream_key("my-event-123").is_ok());
    assert!(validate_stream_key("ab").is_err()); // < 3
    assert!(validate_stream_key(&"a".repeat(65)).is_err()); // > 64
    assert!(validate_stream_key("bad key!").is_err());
    assert!(validate_stream_key("ok_key-1").is_ok());
}

#[test]
fn bitrate_limits_are_inclusive() {
    assert!(validate_bitrate(MAX_VIDEO_KBPS, MAX_AUDIO_KBPS).is_ok());
    assert!(validate_bitrate(0, 0).is_ok());
    assert!(validate_bitrate(MAX_VIDEO_KBPS + 1, 0).is_err());
    assert!(validate_bitrate(0, MAX_AUDIO_KBPS + 1).is_err());
}

#[test]
fn stream_key_edges_and_error_payload() {
    assert!(validate_stream_key("abc").is_ok());
    assert!(validate_stream_key(&"Z".repeat(64)).is_ok());
    assert!(validate_stream_key("").is_err());
    assert!(validate_stream_key("ключ-123").is_err()); // non-ASCII letters
    match validate_stream_key("bad key!") {
        Err(Error::StreamKey(k)) => assert_eq!(k, "bad key!"),
        other => panic!("unexpected: {other:?}"),
    }
}

#[test]
fn default_profile_table_values() {
    let table = default_profiles();
    let ids: Vec<&str> = table.iter().map(|(id, _)| id.as_str()).collect();
    assert_eq!(ids, vec!["1080p", "high", "low", "mid"]);
    let mid = find_profile(&table, "mid").unwrap();
    assert_eq!((mid.w, mid.h, mid.fps, mid.v_kbps, mid.a_kbps), (1280, 720, 30, 1500, 192));
    assert_eq!(mid.encoder, "auto");
    assert_eq!(mid.warn, None);
    let full = find_profile(&table, "1080p").unwrap();
    assert_eq!(full.warn.as_deref(), Some("warn.topaz1080p"));
    assert_eq!(find_profile(&table, "high").unwrap().gop(), 120);
    assert!(find_profile(&table, "nope").is_none());
}
