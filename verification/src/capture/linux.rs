//! Portal (Wayland) capture: the OS picker is the only selection surface.

use crate::capture::{CaptureError, MIC_ID};
use crate::config::{ScreenTarget, ScreenTargetKind};
use crate::ipc_types::{AppAudio, DeviceInfo, Display};
use crate::text::{after_last, after_last_char, concat, decimal, decimal_string, owned, str_eq,
    string_of};
use vstd::prelude::*;

verus! {

/// Displays offered by the app itself: none, the portal picker selects.
pub fn list_displays() -> (r: Result<Vec<Display>, CaptureError>)
    ensures
        r matches Ok(v) && v@.len() == 0,
{
    Ok(Vec::new())
}

/// One PipeWire capture stream: the mixer source id it feeds, the node it
/// targets (the default one when none) and whether it captures a sink's
/// monitor.
#[derive(Debug, Clone, PartialEq)]
pub struct AudioSourceSpec {
    pub id: String,
    pub target: Option<String>,
    pub capture_sink: bool,
}

/// An [`AudioSourceSpec`] with its text taken as characters.
pub open spec fn spec_view(s: AudioSourceSpec) -> (Seq<char>, Option<Seq<char>>, bool) {
    (
        s.id@,
        match s.target {
            Some(t) => Some(t@),
            None => None,
        },
        s.capture_sink,
    )
}

/// The streams for the selected applications: each one's node is the part
/// of its id after the last `:`; ids without a node are skipped.
pub open spec fn app_streams(apps: Seq<Seq<char>>) -> Seq<(Seq<char>, Option<Seq<char>>, bool)>
    decreases apps.len(),
{
    if apps.len() == 0 {
        seq![]
    } else {
        let rest = app_streams(apps.drop_last());
        let node = after_last(apps.last(), ':');
        if node.len() == 0 {
            rest
        } else {
            rest.push((apps.last(), Some(node), false))
        }
    }
}

/// The capture streams of an audio selection: the default sink's monitor in
/// `"system"` mode, the microphone when enabled (its device as target unless
/// it is `"default"`), and in `"apps"` mode one stream per application.
pub open spec fn source_specs(
    mode: Seq<char>,
    mic_enabled: bool,
    mic_device: Seq<char>,
    apps: Seq<Seq<char>>,
) -> Seq<(Seq<char>, Option<Seq<char>>, bool)> {
    (if mode == "system"@ {
        seq![("system"@, None::<Seq<char>>, true)]
    } else {
        seq![]
    }) + (if mic_enabled {
        seq![
            (
                MIC_ID@,
                if mic_device == "default"@ {
                    None
                } else {
                    Some(mic_device)
                },
                false,
            ),
        ]
    } else {
        seq![]
    }) + (if mode == "apps"@ {
        app_streams(apps)
    } else {
        seq![]
    })
}

fn push_spec(specs: &mut Vec<AudioSourceSpec>, s: AudioSourceSpec)
    ensures
        final(specs)@.map_values(|x: AudioSourceSpec| spec_view(x)) == old(specs)@.map_values(
            |x: AudioSourceSpec| spec_view(x),
        ).push(spec_view(s)),
{
    let ghost before = specs@;
    specs.push(s);
    assert(specs@.map_values(|x: AudioSourceSpec| spec_view(x)) =~= before.map_values(
        |x: AudioSourceSpec| spec_view(x),
    ).push(spec_view(s)));
}

/// The PipeWire capture streams for an audio selection.
pub fn audio_source_specs(mode: &str, mic_enabled: bool, mic_device: &str, apps: &[String]) -> (r: Vec<
    AudioSourceSpec,
>)
    ensures
        r@.map_values(|x: AudioSourceSpec| spec_view(x)) == source_specs(
            mode@,
            mic_enabled,
            mic_device@,
            crate::text::views(apps@),
        ),
{
    let mut specs: Vec<AudioSourceSpec> = Vec::new();
    let system = str_eq(mode, "system");
    if system {
        push_spec(
            &mut specs,
            AudioSourceSpec { id: owned("system"), target: None, capture_sink: true },
        );
    }
    let ghost first = specs@.map_values(|x: AudioSourceSpec| spec_view(x));
    if mic_enabled {
        let target = if str_eq(mic_device, "default") {
            None
        } else {
            Some(owned(mic_device))
        };
        push_spec(&mut specs, AudioSourceSpec { id: owned(MIC_ID), target, capture_sink: false });
    }
    let ghost second = specs@.map_values(|x: AudioSourceSpec| spec_view(x));
    if str_eq(mode, "apps") {
        let mut i: usize = 0;
        while i < apps.len()
            invariant
                i <= apps@.len(),
                specs@.map_values(|x: AudioSourceSpec| spec_view(x)) == second + app_streams(
                    crate::text::views(apps@).take(i as int),
                ),
            decreases apps@.len() - i,
        {
            let ghost v = crate::text::views(apps@);
            assert(v.take(i + 1).drop_last() == v.take(i as int));
            assert(v.take(i + 1).last() == apps@[i as int]@);
            let node = after_last_char(apps[i].as_str(), ':');
            if node.len() > 0 {
                push_spec(
                    &mut specs,
                    AudioSourceSpec {
                        id: apps[i].clone(),
                        target: Some(string_of(&node)),
                        capture_sink: false,
                    },
                );
            }
            i = i + 1;
        }
        assert(crate::text::views(apps@).take(apps@.len() as int) == crate::text::views(apps@));
    }
    specs
}

/// The application entry for a PipeWire node, if it is an audio output
/// stream (`media.class` of `"Stream/Output/Audio"`): id `pw:<node>`,
/// labelled by its description, else its binary, else `"unknown"`.
pub open spec fn pw_app(node: u32, class: Option<Seq<char>>, description: Option<Seq<char>>, binary: Option<
    Seq<char>,
>) -> Option<(Seq<char>, Seq<char>)> {
    if class == Some("Stream/Output/Audio"@) {
        Some(
            (
                "pw:"@ + decimal(node as nat),
                match description {
                    Some(d) => d,
                    None => match binary {
                        Some(b) => b,
                        None => "unknown"@,
                    },
                },
            ),
        )
    } else {
        None
    }
}

/// The application entry for a PipeWire node with these properties.
pub fn pw_app_entry(node: u32, class: Option<&str>, description: Option<&str>, binary: Option<&str>) -> (r:
    Option<AppAudio>)
    ensures
        match pw_app(
            node,
            match class {
                Some(c) => Some(c@),
                None => None,
            },
            match description {
                Some(d) => Some(d@),
                None => None,
            },
            match binary {
                Some(b) => Some(b@),
                None => None,
            },
        ) {
            Some((id, label)) => r matches Some(a) && a.id@ == id && a.label@ == label,
            None => r is None,
        },
{
    let is_output = match class {
        Some(c) => str_eq(c, "Stream/Output/Audio"),
        None => false,
    };
    if !is_output {
        return None;
    }
    let label = match description {
        Some(d) => owned(d),
        None => match binary {
            Some(b) => owned(b),
            None => owned("unknown"),
        },
    };
    let id = concat(owned("pw:"), decimal_string(node as u64).as_str());
    Some(AppAudio { id, label })
}

/// The microphone list: only the default device.
pub fn default_inputs() -> (r: Vec<DeviceInfo>)
    ensures
        r@.len() == 1,
        r@[0].id@ == "default"@,
        r@[0].label@ == "Default Microphone"@,
        r@[0].is_default,
{
    let mut r: Vec<DeviceInfo> = Vec::new();
    r.push(DeviceInfo { id: owned("default"), label: owned("Default Microphone"), is_default: true });
    r
}

/// The target the portal picker chose: a display for a monitor stream, a
/// window otherwise, with id `portal:<node>`.
pub fn portal_target(node: u32, is_monitor: bool) -> (r: ScreenTarget)
    ensures
        r.kind == (if is_monitor {
            ScreenTargetKind::Display
        } else {
            ScreenTargetKind::Window
        }),
        r.id@ == "portal:"@ + decimal(node as nat),
{
    let kind = if is_monitor {
        ScreenTargetKind::Display
    } else {
        ScreenTargetKind::Window
    };
    ScreenTarget { kind, id: concat(owned("portal:"), decimal_string(node as u64).as_str()) }
}

/// The message refusing an audio selection without any source.
pub open spec fn no_source_message() -> Seq<char> {
    "音声ソースが選択されていません"@
}

/// The capture streams to start for an audio selection; refused when the
/// selection names no source at all.
pub fn selected_audio_sources(mode: &str, mic_enabled: bool, mic_device: &str, apps: &[String]) -> (r:
    Result<Vec<AudioSourceSpec>, CaptureError>)
    ensures
        match r {
            Ok(v) => v@.map_values(|x: AudioSourceSpec| spec_view(x)) == source_specs(
                mode@,
                mic_enabled,
                mic_device@,
                crate::text::views(apps@),
            ) && v@.len() > 0,
            Err(e) => source_specs(mode@, mic_enabled, mic_device@, crate::text::views(apps@)).len()
                == 0 && (e matches CaptureError::Failed(m) && m@ == no_source_message()),
        },
{
    let specs = audio_source_specs(mode, mic_enabled, mic_device, apps);
    if specs.len() == 0 {
        return Err(CaptureError::Failed(owned("音声ソースが選択されていません")));
    }
    Ok(specs)
}

} // verus!
