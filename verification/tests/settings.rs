use eztopaz::config::{
    config_dir_from, config_path, default_locale, default_profiles, has_prefix, validate_settings,
    Profile,
};

fn profile(v: u32, a: u32) -> Profile {
    Profile {
        name: "p".into(),
        w: 1280,
        h: 720,
        fps: 30,
        v_kbps: v,
        a_kbps: a,
        encoder: "auto".into(),
        warn: None,
    }
}

#[test]
fn settings_accept_defaults_with_rtmp_url() {
    assert_eq!(validate_settings(&default_profiles(), "rtmp://topaz.chat/live"), Ok(()));
}

#[test]
fn settings_reject_first_profile_over_limits() {
    let table = vec![
        ("a".to_string(), profile(1500, 192)),
        ("b".to_string(), profile(2500, 192)),
        ("c".to_string(), profile(1500, 400)),
    ];
    assert_eq!(
        validate_settings(&table, "rtmp://x/live"),
        Err("b: video 2500/audio 192kbps exceeds limits (2000k/320k)".to_string())
    );
}

#[test]
fn settings_reject_non_rtmp_url() {
    assert_eq!(
        validate_settings(&default_profiles(), "https://topaz.chat/live"),
        Err("ingest URL must start with rtmp://".to_string())
    );
    assert!(has_prefix("rtmp://", "rtmp://"));
    assert!(!has_prefix("rtmp:/", "rtmp://"));
}

#[test]
fn config_dir_follows_platform_and_environment() {
    assert_eq!(
        config_dir_from(true, Some("C:\\Users\\u\\AppData\\Roaming"), None, None),
        vec!["C:\\Users\\u\\AppData\\Roaming".to_string(), "ezTopaz".to_string()]
    );
    assert_eq!(config_dir_from(true, None, Some("/x"), Some("/h")), vec![".".to_string()]);
    assert_eq!(
        config_dir_from(false, Some("ignored"), Some("/xdg"), Some("/home/u")),
        vec!["/xdg".to_string(), "ezTopaz".to_string()]
    );
    assert_eq!(
        config_dir_from(false, None, None, Some("/home/u")),
        vec!["/home/u".to_string(), ".config".to_string(), "ezTopaz".to_string()]
    );
    assert_eq!(
        config_path(false, None, None, None),
        vec![".".to_string(), "ezTopaz".to_string(), "profiles.json".to_string()]
    );
}

#[test]
fn locale_follows_lang() {
    assert_eq!(default_locale("ja_JP.UTF-8"), "ja");
    assert_eq!(default_locale("JA"), "ja");
    assert_eq!(default_locale("en_US.UTF-8"), "en");
    assert_eq!(default_locale("j"), "en");
    assert_eq!(default_locale(""), "en");
}
