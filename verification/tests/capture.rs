use eztopaz::capture::{err, linux, windows, CaptureError};
use eztopaz::ipc_types::StreamSettings;
use eztopaz::capture::linux::audio_source_specs;
use eztopaz::capture::MIC_ID;
use eztopaz::capture::linux::pw_app_entry;
use eztopaz::capture::linux::{default_inputs, portal_target};
use eztopaz::config::ScreenTargetKind;
use eztopaz::capture::win32::{audio_legs, leg_source_id, AudioLeg};
use eztopaz::capture::win32::{device_entry, display_entry, image_base_name, session_apps, target_index, window_entry};
use eztopaz::capture::frame::readback_rows;
use eztopaz::capture::frame::{png_data_url, preview_due, preview_frame, preview_of_png, profile_frame, PREVIEW_H, PREVIEW_W};

#[test]
fn stub_backends_report_unavailable() {
    assert!(matches!(windows::list_displays(), Err(CaptureError::NotAvailable)));
    assert!(matches!(windows::list_windows(), Err(CaptureError::NotAvailable)));
    assert!(matches!(windows::list_audio_devices(), Err(CaptureError::NotAvailable)));
    assert!(linux::list_displays().unwrap().is_empty());
}

#[test]
fn failure_keeps_message() {
    assert!(matches!(err("boom".to_string()), CaptureError::Failed(m) if m == "boom"));
}

#[test]
fn stream_settings_defaults() {
    let s = StreamSettings::default();
    assert_eq!(s.ingest_url, "rtmp://topaz.chat/live");
    assert_eq!(s.profile_id, "mid");
    assert_eq!(s.encoder_override, "auto");
    assert!(s.stream_key.is_empty());
    assert!(!s.hw_direct);
    assert_eq!(s.direct_input, None);
}

#[test]
fn linux_audio_streams_follow_selection() {
    let s = audio_source_specs("system", true, "default", &["pw:42".to_string()]);
    assert_eq!(s.len(), 2);
    assert_eq!((s[0].id.as_str(), s[0].target.clone(), s[0].capture_sink), ("system", None, true));
    assert_eq!((s[1].id.as_str(), s[1].target.clone(), s[1].capture_sink), (MIC_ID, None, false));

    let apps = vec!["pw:42".to_string(), "pw:".to_string(), "plain".to_string()];
    let s = audio_source_specs("apps", true, "alsa_input.usb", &apps);
    assert_eq!(s.len(), 3);
    assert_eq!(s[0].target.as_deref(), Some("alsa_input.usb"));
    assert_eq!((s[1].id.as_str(), s[1].target.as_deref()), ("pw:42", Some("42")));
    assert_eq!((s[2].id.as_str(), s[2].target.as_deref()), ("plain", Some("plain")));
    assert!(audio_source_specs("apps", false, "default", &[]).is_empty());
}

#[test]
fn pipewire_nodes_become_apps() {
    let a = pw_app_entry(77, Some("Stream/Output/Audio"), Some("Firefox"), Some("firefox")).unwrap();
    assert_eq!((a.id.as_str(), a.label.as_str()), ("pw:77", "Firefox"));
    let b = pw_app_entry(8, Some("Stream/Output/Audio"), None, Some("mpv")).unwrap();
    assert_eq!(b.label, "mpv");
    let c = pw_app_entry(9, Some("Stream/Output/Audio"), None, None).unwrap();
    assert_eq!(c.label, "unknown");
    assert!(pw_app_entry(10, Some("Audio/Sink"), Some("x"), None).is_none());
    assert!(pw_app_entry(11, None, Some("x"), None).is_none());
}

#[test]
fn portal_target_and_default_inputs() {
    let t = portal_target(57, true);
    assert_eq!((t.kind, t.id.as_str()), (ScreenTargetKind::Display, "portal:57"));
    assert_eq!(portal_target(3, false).kind, ScreenTargetKind::Window);
    let d = default_inputs();
    assert_eq!(d.len(), 1);
    assert_eq!((d[0].id.as_str(), d[0].label.as_str(), d[0].is_default), ("default", "Default Microphone", true));
}

#[test]
fn windows_audio_legs_follow_selection() {
    let apps = vec!["pid:1234".to_string(), "pid:x".to_string(), "chrome:0042".to_string()];
    let legs = audio_legs("apps", true, &apps);
    assert_eq!(legs, vec![AudioLeg::Mic, AudioLeg::Process(1234), AudioLeg::Process(42)]);
    assert_eq!(audio_legs("system", false, &apps), vec![AudioLeg::System]);
    assert_eq!(leg_source_id(&AudioLeg::Process(42)), "pid:42");
    assert_eq!(leg_source_id(&AudioLeg::System), "system");
    assert_eq!(leg_source_id(&AudioLeg::Mic), eztopaz::capture::MIC_ID);
}

#[test]
fn windows_names_for_ui() {
    assert_eq!(image_base_name("C:\\Program Files\\Mozilla\\firefox.exe"), "firefox");
    assert_eq!(image_base_name("C:/tools/app.exe.exe"), "app");
    assert_eq!(image_base_name("noext"), "noext");
    assert_eq!(image_base_name("dir\\"), "");

    let d = display_entry(1, "", 1920, 1080);
    assert_eq!((d.id.as_str(), d.label.as_str(), d.w, d.h), ("monitor:1", "Monitor 1", 1920, 1080));
    assert_eq!(display_entry(0, "\\\\.\\DISPLAY1", 1, 1).label, "\\\\.\\DISPLAY1");

    let w = window_entry(4660, "  Editor  ", Some("code")).unwrap();
    assert_eq!((w.id.as_str(), w.title.as_str(), w.app.as_str()), ("hwnd:4660", "Editor", "code"));
    assert!(window_entry(1, " \t ", None).is_none());
    assert_eq!(window_entry(2, "x", None).unwrap().app, "");

    let apps = session_apps(&[
        (0, Some("System".to_string())),
        (10, None),
        (10, Some("late".to_string())),
        (20, Some("spotify".to_string())),
        (20, Some("again".to_string())),
    ]);
    assert_eq!(apps.len(), 1);
    assert_eq!((apps[0].id.as_str(), apps[0].label.as_str()), ("pid:20", "spotify"));

    assert_eq!(target_index("monitor:2"), 2);
    assert_eq!(target_index("hwnd:65538"), 65538);
    assert_eq!(target_index("monitor:x"), 0);
}

#[test]
fn readback_drops_row_padding() {
    // 2x2 pixels, rows 12 bytes apart (4 bytes of padding each)
    let mut src = Vec::new();
    for row in 0..2u8 {
        for i in 0..8u8 {
            src.push(row * 100 + i);
        }
        src.extend_from_slice(&[0xEE; 4]);
    }
    let out = readback_rows(&src, 2, 2, 12);
    assert_eq!(out.len(), 16);
    assert_eq!(&out[..8], &[0, 1, 2, 3, 4, 5, 6, 7]);
    assert_eq!(&out[8..], &[100, 101, 102, 103, 104, 105, 106, 107]);
    assert!(readback_rows(&[], 5, 0, 0).is_empty());
}

#[test]
fn preview_is_a_png_data_url_at_one_fps() {
    assert!(preview_due(0, 1_000_000_000));
    assert!(!preview_due(500, 1_000_000_000));
    assert!(!preview_due(10, 5));
    assert_eq!(png_data_url("QUJD"), "data:image/png;base64,QUJD");

    let frame = vec![0x80u8; 64 * 36 * 4];
    let p = preview_frame(&frame, 64, 36).expect("preview");
    assert_eq!((p.w, p.h), (PREVIEW_W, PREVIEW_H));
    assert!(p.data_url.starts_with("data:image/png;base64,iVBORw0KGgo"), "PNG signature in base64");

    let f = profile_frame(&[1, 2, 3, 4], 0, 0, 2, 2);
    assert_eq!(f, vec![1, 2, 3, 255, 1, 2, 3, 255, 1, 2, 3, 255, 1, 2, 3, 255]);
}

#[test]
fn default_endpoint_is_marked() {
    let d = device_entry("{0.0.1}".to_string(), "Speakers".to_string(), Some("{0.0.1}"));
    assert!(d.is_default);
    assert_eq!((d.id.as_str(), d.label.as_str()), ("{0.0.1}", "Speakers"));
    assert!(!device_entry("{0.0.2}".to_string(), "Mic".to_string(), Some("{0.0.1}")).is_default);
    assert!(!device_entry("{0.0.2}".to_string(), "Mic".to_string(), None).is_default);
}

#[test]
fn preview_text_is_standard_base64() {
    assert_eq!(preview_of_png(b"hello").data_url, "data:image/png;base64,aGVsbG8=");
    assert_eq!(preview_of_png(b"ab").data_url, "data:image/png;base64,YWI=");
    assert_eq!(preview_of_png(b"").data_url, "data:image/png;base64,");
    assert_eq!(preview_of_png(&[0xfb, 0xff, 0xbf]).data_url, "data:image/png;base64,+/+/");
}

#[test]
fn audio_selection_without_source_is_refused() {
    match eztopaz::capture::linux::selected_audio_sources("apps", false, "default", &[]) {
        Err(CaptureError::Failed(m)) => assert_eq!(m, "音声ソースが選択されていません"),
        other => panic!("unexpected {other:?}"),
    }
    let ok = eztopaz::capture::linux::selected_audio_sources("system", false, "default", &[]).unwrap();
    assert_eq!(ok.len(), 1);
}
