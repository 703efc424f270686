//! Values exchanged with the user interface.

use crate::config::ScreenTarget;
use crate::text::owned;
use vstd::prelude::*;

verus! {

/// The part of a start-stream request that the start logic reads: where to
/// send, with which key, from which target, in which profile and with which
/// encoder.
#[derive(Debug, Clone, PartialEq)]
pub struct StreamSettings {
    pub ingest_url: String,
    pub stream_key: String,
    pub screen: ScreenTarget,
    pub profile_id: String,
    /// `"auto"` (or empty) picks the best verified encoder.
    pub encoder_override: String,
    /// Opt-in explicit device init + GPU upload (`Transport::HwDirect`).
    pub hw_direct: bool,
    /// Device video input instead of the video pipe (only `"ddagrab"`).
    pub direct_input: Option<String>,
}

impl Default for StreamSettings {
    fn default() -> (r: Self)
        ensures
            r.ingest_url@ == "rtmp://topaz.chat/live"@,
            r.stream_key@ == Seq::<char>::empty(),
            r.screen.kind == crate::config::ScreenTargetKind::Display,
            r.screen.id@ == Seq::<char>::empty(),
            r.profile_id@ == "mid"@,
            r.encoder_override@ == "auto"@,
            !r.hw_direct,
            r.direct_input is None,
    {
        StreamSettings {
            ingest_url: owned("rtmp://topaz.chat/live"),
            stream_key: String::new(),
            screen: ScreenTarget { kind: crate::config::ScreenTargetKind::Display, id: String::new() },
            profile_id: owned("mid"),
            encoder_override: owned("auto"),
            hw_direct: false,
            direct_input: None,
        }
    }
}

/// A preview image for the UI (`data:image/png;base64,...`).
#[derive(Debug, Clone, PartialEq)]
pub struct PreviewFrame {
    pub data_url: String,
    pub w: u32,
    pub h: u32,
}

/// One log line shown in the UI.
#[derive(Debug, Clone, PartialEq)]
pub struct LogLine {
    pub level: String,
    pub msg: String,
}

/// An error event for the UI.
#[derive(Debug, Clone, PartialEq)]
pub struct StreamError {
    pub code: String,
    pub msg: String,
}

/// A capturable display.
#[derive(Debug, Clone, PartialEq)]
pub struct Display {
    pub id: String,
    pub label: String,
    pub w: u32,
    pub h: u32,
}

/// A capturable window.
#[derive(Debug, Clone, PartialEq)]
pub struct WindowInfo {
    pub id: String,
    pub title: String,
    pub app: String,
}

/// Audio endpoints and per-application audio streams.
#[derive(Debug, Clone, PartialEq, Default)]
pub struct AudioDevices {
    pub inputs: Vec<DeviceInfo>,
    pub outputs: Vec<DeviceInfo>,
    pub apps: Vec<AppAudio>,
}

/// An audio endpoint.
#[derive(Debug, Clone, PartialEq, Default)]
pub struct DeviceInfo {
    pub id: String,
    pub label: String,
    pub is_default: bool,
}

/// An application producing audio.
#[derive(Debug, Clone, PartialEq, Default)]
pub struct AppAudio {
    pub id: String,
    pub label: String,
}

/// The result of probing one encoder.
#[derive(Debug, Clone, PartialEq)]
pub struct EncoderInfo {
    pub name: String,
    pub usable: bool,
    pub reason: Option<String>,
}

} // verus!
