//! Hardware upload / zero-copy helpers.
//!
//! The default pipe path stays on the CPU (no filter). `HwDirect` (explicit
//! `-init_hw_device` plus an upload filter) and the `ddagrab` direct input are
//! opt-in.

use crate::config::{spec_gop, within_limits, Profile, ScreenTarget, ScreenTargetKind};
use crate::error::{
    is_any_config_error, is_bitrate_error, is_config_error, is_encoder_error, Error, Result,
};
use crate::ffmpeg::args::{
    audio_input, encoder_output, global_args, pipe_audio_input_args, encoder_output_args,
    Transport,
};
use crate::ipc_types::StreamSettings;
use crate::text::{
    after_last, after_last_char, append_args, concat, decimal, decimal_string, owned,
    parse_usize, parse_usize_chars, push_arg, push_char, push_lit, push_str, str_eq, views,
};
use vstd::prelude::*;

verus! {

/// GPU backend for the zero-copy path.
#[derive(Debug, Clone, Copy, PartialEq, Eq, Default, Structural)]
pub enum HwBackend {
    #[default]
    NoDevice,
    Cuda,
    D3d11va,
    D3d12va,
    Vaapi,
    Vulkan,
    Qsv,
    Amf,
}

/// Encoder -> preferred backend.
pub open spec fn backend_for(encoder: Seq<char>) -> HwBackend {
    if encoder == "h264_nvenc"@ {
        HwBackend::Cuda
    } else if encoder == "h264_qsv"@ {
        HwBackend::Qsv
    } else if encoder == "h264_vaapi"@ {
        HwBackend::Vaapi
    } else if encoder == "h264_amf"@ {
        HwBackend::Amf
    } else if encoder == "h264_vulkan"@ {
        HwBackend::Vulkan
    } else {
        HwBackend::NoDevice
    }
}

impl HwBackend {
    /// Encoder -> preferred backend for the zero-copy path.
    pub fn for_encoder(encoder: &str) -> (b: Self)
        ensures
            b == backend_for(encoder@),
    {
        if str_eq(encoder, "h264_nvenc") {
            HwBackend::Cuda
        } else if str_eq(encoder, "h264_qsv") {
            HwBackend::Qsv
        } else if str_eq(encoder, "h264_vaapi") {
            HwBackend::Vaapi
        } else if str_eq(encoder, "h264_amf") {
            HwBackend::Amf
        } else if str_eq(encoder, "h264_vulkan") {
            HwBackend::Vulkan
        } else {
            HwBackend::NoDevice
        }
    }
}

/// The explicit upload filter chain of a backend.
pub open spec fn upload_chain(backend: HwBackend) -> Option<Seq<char>> {
    match backend {
        HwBackend::NoDevice => None,
        HwBackend::Cuda => Some("hwupload_cuda"@),
        HwBackend::D3d11va | HwBackend::D3d12va => Some("hwupload"@),
        HwBackend::Vaapi => Some("format=nv12,hwupload,scale_vaapi=format=nv12"@),
        HwBackend::Vulkan => Some("hwupload"@),
        HwBackend::Qsv => Some("hwupload=extra_hw_frames=64"@),
        HwBackend::Amf => Some("hwupload"@),
    }
}

/// The view of an optional owned string.
pub open spec fn opt_str_view(o: Option<String>) -> Option<Seq<char>> {
    match o {
        Some(s) => Some(s@),
        None => None,
    }
}

/// Explicit upload chain per backend. Frames are already profile-sized, so
/// there is no GPU scaling, except VAAPI where `scale_vaapi` normalizes the
/// uploaded frames to `nv12`.
pub fn hw_upload_chain(backend: &HwBackend) -> (r: Option<String>)
    ensures
        opt_str_view(r) == upload_chain(*backend),
{
    match backend {
        HwBackend::NoDevice => None,
        HwBackend::Cuda => Some(owned("hwupload_cuda")),
        HwBackend::D3d11va | HwBackend::D3d12va => Some(owned("hwupload")),
        HwBackend::Vaapi => Some(owned("format=nv12,hwupload,scale_vaapi=format=nv12")),
        HwBackend::Vulkan => Some(owned("hwupload")),
        HwBackend::Qsv => Some(owned("hwupload=extra_hw_frames=64")),
        HwBackend::Amf => Some(owned("hwupload")),
    }
}

/// The `-vf` upload filter for a transport: none for the pipe transports,
/// the backend's chain for `HwDirect`.
pub open spec fn upload_filter(encoder: Seq<char>, transport: Transport) -> Option<Seq<char>> {
    if transport != Transport::HwDirect {
        None
    } else {
        upload_chain(backend_for(encoder))
    }
}

/// Optional `-vf hwupload*` chain for a transport.
pub fn hw_upload_filter(encoder: &str, transport: &Transport) -> (r: Option<String>)
    ensures
        opt_str_view(r) == upload_filter(encoder@, *transport),
{
    if *transport != Transport::HwDirect {
        return None;
    }
    hw_upload_chain(&HwBackend::for_encoder(encoder))
}

/// The `-init_hw_device` argv prefix of a backend (empty: no device init).
pub open spec fn init_device_args(backend: HwBackend) -> Seq<Seq<char>> {
    match backend {
        HwBackend::NoDevice => seq![],
        HwBackend::Cuda => seq!["-init_hw_device"@, "cuda=cu:0"@],
        HwBackend::D3d11va => seq!["-init_hw_device"@, "d3d11va=d3d11:0"@],
        HwBackend::D3d12va => seq!["-init_hw_device"@, "d3d12va=d3d12:0"@],
        HwBackend::Vaapi => seq!["-init_hw_device"@, "vaapi=va:/dev/dri/renderD128"@],
        HwBackend::Vulkan => seq!["-init_hw_device"@, "vulkan=vk:0"@],
        HwBackend::Qsv => seq!["-init_hw_device"@, "qsv=qs:0"@],
        HwBackend::Amf => seq![],
    }
}

/// `-init_hw_device` argv prefix for the direct-capture path.
pub fn init_hw_device_args(backend: &HwBackend) -> (r: Vec<String>)
    ensures
        views(r@) == init_device_args(*backend),
{
    let mut r: Vec<String> = Vec::new();
    match backend {
        HwBackend::NoDevice => {},
        HwBackend::Cuda => {
            push_lit(&mut r, "-init_hw_device");
            push_lit(&mut r, "cuda=cu:0");
        },
        HwBackend::D3d11va => {
            push_lit(&mut r, "-init_hw_device");
            push_lit(&mut r, "d3d11va=d3d11:0");
        },
        HwBackend::D3d12va => {
            push_lit(&mut r, "-init_hw_device");
            push_lit(&mut r, "d3d12va=d3d12:0");
        },
        HwBackend::Vaapi => {
            push_lit(&mut r, "-init_hw_device");
            push_lit(&mut r, "vaapi=va:/dev/dri/renderD128");
        },
        HwBackend::Vulkan => {
            push_lit(&mut r, "-init_hw_device");
            push_lit(&mut r, "vulkan=vk:0");
        },
        HwBackend::Qsv => {
            push_lit(&mut r, "-init_hw_device");
            push_lit(&mut r, "qsv=qs:0");
        },
        HwBackend::Amf => {},
    }
    assert(views(r@) =~= init_device_args(*backend));
    r
}


/// Direct device video input: `ddagrab` captures a whole output on the GPU
/// (fullscreen targets only); `gfxcapture` stays experimental and is not
/// selectable.
#[derive(Debug, Clone, Copy, PartialEq, Eq, Structural)]
pub enum DirectSource {
    DdagrabFullscreen,
    GfxCaptureWindow,
}

/// The direct source selected by a `direct_input` string: only `"ddagrab"`.
pub open spec fn direct_source_of(s: Option<Seq<char>>) -> Option<DirectSource> {
    match s {
        Some(x) => if x == "ddagrab"@ {
            Some(DirectSource::DdagrabFullscreen)
        } else {
            None
        },
        None => None,
    }
}

/// `direct_input` selection: anything but `"ddagrab"` (including
/// `"gfxcapture"`) yields `None`, so the caller falls back to the pipe path.
pub fn parse_direct_input(s: Option<&str>) -> (r: Option<DirectSource>)
    ensures
        r == direct_source_of(
            match s {
                Some(x) => Some(x@),
                None => None,
            },
        ),
{
    match s {
        Some(x) => if str_eq(x, "ddagrab") {
            Some(DirectSource::DdagrabFullscreen)
        } else {
            None
        },
        None => None,
    }
}

/// The lavfi source name of a direct source.
pub open spec fn source_name(source: DirectSource) -> Seq<char> {
    match source {
        DirectSource::DdagrabFullscreen => "ddagrab"@,
        DirectSource::GfxCaptureWindow => "gfxcapture"@,
    }
}

/// `-f lavfi -i <source>=framerate=<fps>`.
pub open spec fn capture_input(source: DirectSource, fps: u32) -> Seq<Seq<char>> {
    seq!["-f"@, "lavfi"@, "-i"@, source_name(source) + "=framerate="@ + decimal(fps as nat)]
}

/// Plain lavfi input options of a direct source at `fps`.
pub fn direct_capture_input_args(source: &DirectSource, fps: u32) -> (r: Vec<String>)
    ensures
        views(r@) == capture_input(*source, fps),
{
    let mut r: Vec<String> = Vec::new();
    push_lit(&mut r, "-f");
    push_lit(&mut r, "lavfi");
    push_lit(&mut r, "-i");
    let mut input = match source {
        DirectSource::DdagrabFullscreen => owned("ddagrab"),
        DirectSource::GfxCaptureWindow => owned("gfxcapture"),
    };
    push_str(&mut input, "=framerate=");
    let f = decimal_string(fps as u64);
    push_str(&mut input, f.as_str());
    push_arg(&mut r, input);
    r
}

/// The output index of a display target id `"display:<N>"`: the number after
/// the last `:`, 0 when it does not parse.
pub open spec fn display_index(id: Seq<char>) -> nat {
    match parse_usize(after_last(id, ':')) {
        Some(n) => n,
        None => 0,
    }
}

/// The ddagrab input bound to a display at `fps`.
pub open spec fn ddagrab_input(idx: nat, fps: u32) -> Seq<char> {
    "ddagrab=output_idx="@ + decimal(idx) + ":framerate="@ + decimal(fps as nat)
}

/// Low-latency lavfi input options around a device input.
pub open spec fn direct_input_options(input: Seq<char>) -> Seq<Seq<char>> {
    seq![
        "-fflags"@,
        "nobuffer"@,
        "-probesize"@,
        "32"@,
        "-analyzeduration"@,
        "0"@,
        "-thread_queue_size"@,
        "1024"@,
        "-f"@,
        "lavfi"@,
        "-i"@,
        input,
    ]
}

/// Fullscreen ddagrab input bound to the selected display. Window targets
/// are refused (ddagrab is output based), and so is the experimental
/// gfxcapture source.
pub fn direct_video_input_args(profile: &Profile, screen: &ScreenTarget, source: &DirectSource) -> (r:
    Result<Vec<String>>)
    ensures
        r is Ok <==> screen.kind == ScreenTargetKind::Display && *source
            == DirectSource::DdagrabFullscreen,
        screen.kind != ScreenTargetKind::Display ==> is_config_error(
            r,
            "direct input (ddagrab) supports fullscreen displays only; use the pipe path for windows"@,
        ),
        screen.kind == ScreenTargetKind::Display && *source == DirectSource::GfxCaptureWindow
            ==> is_config_error(r, "gfxcapture direct input is experimental"@),
        r matches Ok(a) ==> views(a@) == direct_input_options(
            ddagrab_input(display_index(screen.id@), profile.fps),
        ),
{
    if screen.kind != ScreenTargetKind::Display {
        return Err(
            Error::Config(
                owned(
                    "direct input (ddagrab) supports fullscreen displays only; use the pipe path for windows",
                ),
            ),
        );
    }
    let tail = after_last_char(screen.id.as_str(), ':');
    let idx: usize = match parse_usize_chars(&tail) {
        Some(n) => n,
        None => 0,
    };
    let input = match source {
        DirectSource::DdagrabFullscreen => {
            let mut s = owned("ddagrab=output_idx=");
            let i = decimal_string(idx as u64);
            push_str(&mut s, i.as_str());
            push_str(&mut s, ":framerate=");
            let f = decimal_string(profile.fps as u64);
            push_str(&mut s, f.as_str());
            s
        },
        DirectSource::GfxCaptureWindow => {
            return Err(Error::Config(owned("gfxcapture direct input is experimental")));
        },
    };
    let mut r: Vec<String> = Vec::new();
    push_lit(&mut r, "-fflags");
    push_lit(&mut r, "nobuffer");
    push_lit(&mut r, "-probesize");
    push_lit(&mut r, "32");
    push_lit(&mut r, "-analyzeduration");
    push_lit(&mut r, "0");
    push_lit(&mut r, "-thread_queue_size");
    push_lit(&mut r, "1024");
    push_lit(&mut r, "-f");
    push_lit(&mut r, "lavfi");
    push_lit(&mut r, "-i");
    push_arg(&mut r, input);
    Ok(r)
}

/// GPU scale + format for ddagrab D3D11 frames: profile size, `nv12`.
pub open spec fn direct_filter(p: Profile) -> Seq<char> {
    "scale_d3d11="@ + decimal(p.w as nat) + ":"@ + decimal(p.h as nat) + ":format=nv12"@
}

/// The GPU scale filter for the direct-input session.
pub fn direct_video_filter(profile: &Profile) -> (r: String)
    ensures
        r@ == direct_filter(*profile),
{
    let mut s = owned("scale_d3d11=");
    let w = decimal_string(profile.w as u64);
    push_str(&mut s, w.as_str());
    push_str(&mut s, ":");
    let h = decimal_string(profile.h as u64);
    push_str(&mut s, h.as_str());
    push_str(&mut s, ":format=nv12");
    s
}

/// What `{:?}` prints for an optional string.
pub uninterp spec fn debug_text(o: Option<Seq<char>>) -> Seq<char>;

/// The `Debug` rendering of an optional string (std `format!("{:?}", ..)`):
/// the contract names the result; of its characters it only says that `None`
/// prints as the variant's name (the quoting and escaping of a `Some` string
/// are not restated).
#[verifier::external_body]
fn debug_option_string(o: &Option<String>) -> (r: String)
    ensures
        r@ == debug_text(opt_str_view(*o)),
        o is None ==> r@ == "None"@,
{
    format!("{:?}", o)
}

/// The direct-input selection of a request.
pub open spec fn requested_source(cfg: StreamSettings) -> Option<DirectSource> {
    direct_source_of(opt_str_view(cfg.direct_input))
}

/// The full argv of a direct-input session: device video in, the mixed
/// f32le audio still via its pipe, same encoder/muxer block as the pipe path.
pub open spec fn direct_args(p: Profile, encoder: Seq<char>, cfg: StreamSettings, audio_pipe: Seq<char>) -> Seq<
    Seq<char>,
> {
    global_args() + init_device_args(HwBackend::D3d11va) + direct_input_options(
        ddagrab_input(display_index(cfg.screen.id@), p.fps),
    ) + audio_input(audio_pipe) + encoder_output(
        p,
        encoder,
        cfg.ingest_url@,
        cfg.stream_key@,
        Transport::HwDirect,
        Some(direct_filter(p)),
    )
}

/// Full ffmpeg argv for the direct-input session. Only `h264_nvenc` is
/// accepted (D3D11 frames need an encoder that takes them).
pub fn build_direct_args(profile: &Profile, encoder: &str, cfg: &StreamSettings, audio_pipe: &str) -> (r:
    Result<Vec<String>>)
    requires
        within_limits(profile.v_kbps, profile.a_kbps) ==> spec_gop(profile.fps) <= u32::MAX,
    ensures
        r is Ok <==> requested_source(*cfg) == Some(DirectSource::DdagrabFullscreen) && encoder@
            == "h264_nvenc"@ && cfg.screen.kind == ScreenTargetKind::Display && within_limits(
            profile.v_kbps,
            profile.a_kbps,
        ),
        requested_source(*cfg) is None ==> is_config_error(
            r,
            "unsupported direct_input: "@ + debug_text(opt_str_view(cfg.direct_input))
                + " (only \"ddagrab\" is wired)"@,
        ),
        requested_source(*cfg) is Some && encoder@ != "h264_nvenc"@ ==> is_encoder_error(
            r,
            encoder@ + " has no direct-input path (use h264_nvenc or the pipe path)"@,
        ),
        requested_source(*cfg) is Some && encoder@ == "h264_nvenc"@ && cfg.screen.kind
            != ScreenTargetKind::Display ==> is_any_config_error(r),
        requested_source(*cfg) is Some && encoder@ == "h264_nvenc"@ && cfg.screen.kind
            == ScreenTargetKind::Display && !within_limits(profile.v_kbps, profile.a_kbps)
            ==> is_bitrate_error(r, profile.v_kbps, profile.a_kbps),
        r matches Ok(a) ==> views(a@) == direct_args(*profile, encoder@, *cfg, audio_pipe@),
{
    let requested = match &cfg.direct_input {
        Some(s) => Some(s.as_str()),
        None => None,
    };
    let source = match parse_direct_input(requested) {
        Some(src) => src,
        None => {
            let mut m = owned("unsupported direct_input: ");
            let d = debug_option_string(&cfg.direct_input);
            push_str(&mut m, d.as_str());
            push_str(&mut m, " (only \"ddagrab\" is wired)");
            return Err(Error::Config(m));
        },
    };
    if !str_eq(encoder, "h264_nvenc") {
        let m = concat(owned(encoder), " has no direct-input path (use h264_nvenc or the pipe path)");
        return Err(Error::EncoderNotAvailable(m));
    }
    let transport = Transport::HwDirect;
    let mut argv: Vec<String> = Vec::new();
    push_lit(&mut argv, "-hide_banner");
    push_lit(&mut argv, "-loglevel");
    push_lit(&mut argv, "info");
    push_lit(&mut argv, "-progress");
    push_lit(&mut argv, "pipe:1");
    append_args(&mut argv, init_hw_device_args(&HwBackend::D3d11va));
    let video = direct_video_input_args(profile, &cfg.screen, &source)?;
    append_args(&mut argv, video);
    append_args(&mut argv, pipe_audio_input_args(audio_pipe));
    let out = encoder_output_args(
        profile,
        encoder,
        cfg.ingest_url.as_str(),
        cfg.stream_key.as_str(),
        &transport,
        Some(direct_video_filter(profile)),
    )?;
    append_args(&mut argv, out);
    Ok(argv)
}
} // verus!
