//! Pure start-stream preparation: validation -> encoder choice -> pipe paths
//! -> ffmpeg argv. Creating the pipes is left to the caller.

use crate::config::{lookup, spec_gop, valid_stream_key, validate_stream_key, within_limits, find_profile, Profile};
use crate::error::{is_any_config_error, is_bitrate_error, is_config_error, is_encoder_error, is_key_error, Error, Result};
use crate::ffmpeg::args::{build_ffmpeg_args_with_transport, ffmpeg_args, plan_transport, transport_for_plan, Transport};
use crate::ffmpeg::pipes::{audio_path, audio_pipe_path, video_path, video_pipe_path};
use crate::ffmpeg::probe::{best_encoder, probe_best_in, MANUAL_ENCODERS};
use crate::ipc_types::StreamSettings;
use crate::text::{concat, owned, str_eq, str_in, str_views, views};
use vstd::prelude::*;

verus! {

/// Everything needed to launch ffmpeg for one session.
#[derive(Debug, Clone)]
pub struct StartPlan {
    pub ffmpeg_args: Vec<String>,
    pub video_pipe: String,
    pub audio_pipe: String,
    pub encoder: String,
    pub transport: Transport,
}

/// The encoders a user may pick by hand.
pub open spec fn manual_encoders() -> Seq<Seq<char>> {
    seq!["auto"@, "libx264"@, "h264_nvenc"@, "h264_qsv"@, "h264_amf"@, "h264_vaapi"@, "h264_vulkan"@]
}

/// The encoder a request ends up with: the best verified one for `"auto"`
/// (or an empty override), the override itself when it is a known encoder,
/// none otherwise.
pub open spec fn chosen_encoder(
    encoder_override: Seq<char>,
    usable: Seq<Seq<char>>,
    is_windows: bool,
    is_linux: bool,
) -> Option<Seq<char>> {
    if encoder_override == "auto"@ || encoder_override.len() == 0 {
        Some(best_encoder(usable, is_windows, is_linux))
    } else if manual_encoders().contains(encoder_override) {
        Some(encoder_override)
    } else {
        None
    }
}

/// Plan construction: key check, profile lookup, encoder choice, transport,
/// pipe paths, argv. No filesystem side effects.
pub fn build_plan(
    cfg: &StreamSettings,
    profiles: &[(String, Profile)],
    usable_encoders: &[String],
    is_windows: bool,
    is_linux: bool,
) -> (r: Result<StartPlan>)
    requires
        match lookup(profiles@, cfg.profile_id@) {
            Some(p) => within_limits(p.v_kbps, p.a_kbps) ==> spec_gop(p.fps) <= u32::MAX,
            None => true,
        },
    ensures
        r is Ok <==> valid_stream_key(cfg.stream_key@) && lookup(profiles@, cfg.profile_id@) is Some
            && chosen_encoder(cfg.encoder_override@, views(usable_encoders@), is_windows, is_linux)
            is Some && within_limits(
            lookup(profiles@, cfg.profile_id@)->0.v_kbps,
            lookup(profiles@, cfg.profile_id@)->0.a_kbps,
        ),
        !valid_stream_key(cfg.stream_key@) ==> is_key_error(r, cfg.stream_key@),
        valid_stream_key(cfg.stream_key@) && lookup(profiles@, cfg.profile_id@) is None
            ==> is_config_error(r, "unknown profile: "@ + cfg.profile_id@),
        valid_stream_key(cfg.stream_key@) && lookup(profiles@, cfg.profile_id@) is Some
            && chosen_encoder(cfg.encoder_override@, views(usable_encoders@), is_windows, is_linux)
            is None ==> is_encoder_error(r, cfg.encoder_override@),
        valid_stream_key(cfg.stream_key@) && lookup(profiles@, cfg.profile_id@) is Some
            && chosen_encoder(cfg.encoder_override@, views(usable_encoders@), is_windows, is_linux)
            is Some && !within_limits(
            lookup(profiles@, cfg.profile_id@)->0.v_kbps,
            lookup(profiles@, cfg.profile_id@)->0.a_kbps,
        ) ==> is_bitrate_error(
            r,
            lookup(profiles@, cfg.profile_id@)->0.v_kbps,
            lookup(profiles@, cfg.profile_id@)->0.a_kbps,
        ),
        r matches Ok(plan) ==> {
            let p = lookup(profiles@, cfg.profile_id@)->0;
            let enc = chosen_encoder(
                cfg.encoder_override@,
                views(usable_encoders@),
                is_windows,
                is_linux,
            )->0;
            &&& plan.encoder@ == enc
            &&& plan.video_pipe@ == video_path(is_windows)
            &&& plan.audio_pipe@ == audio_path(is_windows)
            &&& plan.transport == plan_transport(enc, cfg.hw_direct)
            &&& views(plan.ffmpeg_args@) == ffmpeg_args(
                p,
                enc,
                cfg.ingest_url@,
                cfg.stream_key@,
                video_path(is_windows),
                audio_path(is_windows),
                plan.transport,
            )
        },
{
    validate_stream_key(cfg.stream_key.as_str())?;
    let profile = match find_profile(profiles, cfg.profile_id.as_str()) {
        Some(p) => p,
        None => {
            return Err(Error::Config(concat(owned("unknown profile: "), cfg.profile_id.as_str())));
        },
    };
    let ov = cfg.encoder_override.as_str();
    let encoder = if str_eq(ov, "auto") || ov.is_empty() {
        owned(probe_best_in(usable_encoders, is_windows, is_linux))
    } else {
        let manual: &[&str] = &MANUAL_ENCODERS;
        assert(str_views(manual@) =~= manual_encoders());
        if !str_in(ov, manual) {
            return Err(Error::EncoderNotAvailable(owned(ov)));
        }
        owned(ov)
    };
    let video_pipe = video_pipe_path(is_windows);
    let audio_pipe = audio_pipe_path(is_windows);
    let transport = transport_for_plan(encoder.as_str(), cfg.hw_direct);
    let ffmpeg_args = build_ffmpeg_args_with_transport(
        profile,
        encoder.as_str(),
        cfg.ingest_url.as_str(),
        cfg.stream_key.as_str(),
        video_pipe.as_str(),
        audio_pipe.as_str(),
        &transport,
    )?;
    Ok(StartPlan { ffmpeg_args, video_pipe, audio_pipe, encoder, transport })
}

/// The profile of the capture-only preview: 640x360 at 1 fps, everything
/// else as in `p`.
pub fn preview_profile(p: &Profile) -> (r: Profile)
    ensures
        r.w == 640 && r.h == 360 && r.fps == 1,
        r.name@ == p.name@,
        r.v_kbps == p.v_kbps && r.a_kbps == p.a_kbps,
        r.encoder@ == p.encoder@,
        crate::config::opt_view(r.warn) == crate::config::opt_view(p.warn),
{
    Profile {
        name: p.name.clone(),
        w: 640,
        h: 360,
        fps: 1,
        v_kbps: p.v_kbps,
        a_kbps: p.a_kbps,
        encoder: p.encoder.clone(),
        warn: match &p.warn {
            Some(w) => Some(w.clone()),
            None => None,
        },
    }
}

/// The automatic encoder choice (override `"auto"`) follows the priority
/// NVENC, QSV, AMF (Windows only), VAAPI (Linux only), else libx264, over
/// the encoders that passed the functional test; it never names an encoder
/// that did not pass, nor AMF off Windows or VAAPI off Linux.
pub proof fn lemma_auto_choice_by_platform(usable: Seq<Seq<char>>, is_windows: bool, is_linux: bool)
    ensures
        ({
            let c = chosen_encoder("auto"@, usable, is_windows, is_linux);
            &&& c is Some
            &&& usable.contains("h264_nvenc"@) ==> c == Some("h264_nvenc"@)
            &&& !usable.contains("h264_nvenc"@) && usable.contains("h264_qsv"@) ==> c == Some(
                "h264_qsv"@,
            )
            &&& !usable.contains("h264_nvenc"@) && !usable.contains("h264_qsv"@) && is_windows
                && usable.contains("h264_amf"@) ==> c == Some("h264_amf"@)
            &&& !usable.contains("h264_nvenc"@) && !usable.contains("h264_qsv"@) && !(is_windows
                && usable.contains("h264_amf"@)) && is_linux && usable.contains("h264_vaapi"@) ==> c
                == Some("h264_vaapi"@)
            &&& c == Some("h264_amf"@) ==> is_windows
            &&& c == Some("h264_vaapi"@) ==> is_linux
            &&& c->0 == "libx264"@ || usable.contains(c->0)
        }),
{
    reveal_strlit("auto");
    reveal_strlit("libx264");
    reveal_strlit("h264_nvenc");
    reveal_strlit("h264_qsv");
    reveal_strlit("h264_amf");
    reveal_strlit("h264_vaapi");
    assert("libx264"@.len() == 7 && "h264_vaapi"@.len() == 10 && "h264_nvenc"@.len() == 10);
    assert("h264_qsv"@.len() == 8 && "h264_amf"@.len() == 8);
    assert("h264_amf"@[5] != "h264_qsv"@[5]);
    assert("h264_vaapi"@[5] != "h264_nvenc"@[5]);
}

} // verus!
