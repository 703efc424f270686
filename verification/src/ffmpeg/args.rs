//! ffmpeg command-line construction.

use crate::config::{spec_gop, validate_bitrate, within_limits, Profile};
use crate::error::{Error, Result};
use crate::ffmpeg::hw::{
    backend_for, hw_upload_filter, init_device_args, init_hw_device_args, opt_str_view,
    upload_filter, HwBackend,
};
use crate::text::{
    append_args, decimal, decimal_string, push_arg, push_char, push_lit, push_str, str_eq,
    str_views, trim_end, trim_end_char, views,
};
use vstd::prelude::*;

verus! {

/// Video transport into ffmpeg. `PipeBgra` sends `w*h*4`-byte BGRA frames;
/// `PipeNv12` sends `w*h*3/2`-byte NV12 frames so hardware encoders skip the
/// BGRA->YUV conversion; `HwDirect` additionally initializes the encoder's
/// device and uploads the frames explicitly.
#[derive(Debug, Clone, Copy, PartialEq, Eq, Structural)]
pub enum Transport {
    PipeBgra,
    PipeNv12,
    HwDirect,
}

/// Encoder preset of the per-encoder table.
pub open spec fn spec_preset(encoder: Seq<char>) -> Option<Seq<char>> {
    if encoder == "h264_nvenc"@ {
        Some("p1"@)
    } else if encoder == "libx264"@ {
        Some("veryfast"@)
    } else if encoder == "h264_qsv"@ {
        Some("veryfast"@)
    } else if encoder == "h264_amf"@ {
        Some("speed"@)
    } else {
        None
    }
}

/// Rate-control / low-latency flags of the per-encoder table.
pub open spec fn spec_rc(encoder: Seq<char>) -> Seq<Seq<char>> {
    if encoder == "h264_nvenc"@ {
        seq![
            "-rc"@, "cbr"@, "-tune"@, "ll"@, "-rc-lookahead"@, "0"@, "-no-scenecut"@, "1"@,
            "-forced-idr"@, "1"@, "-delay"@, "0"@,
        ]
    } else if encoder == "libx264"@ {
        seq!["-rc-lookahead"@, "0"@, "-x264-params"@, "sliced-threads=1:sync-lookahead=0:scenecut=0"@]
    } else if encoder == "h264_qsv"@ {
        seq!["-async_depth"@, "1"@]
    } else if encoder == "h264_amf"@ {
        seq!["-usage"@, "lowlatency"@]
    } else {
        seq![]
    }
}

/// Per-encoder `-preset` and rate-control / low-latency flags.
pub fn preset_and_rc(encoder: &str) -> (r: (Option<&'static str>, &'static [&'static str]))
    ensures
        match r.0 {
            Some(p) => spec_preset(encoder@) == Some(p@),
            None => spec_preset(encoder@) is None,
        },
        str_views(r.1@) == spec_rc(encoder@),
{
    if str_eq(encoder, "h264_nvenc") {
        let rc: &'static [&'static str] = &[
            "-rc",
            "cbr",
            "-tune",
            "ll",
            "-rc-lookahead",
            "0",
            "-no-scenecut",
            "1",
            "-forced-idr",
            "1",
            "-delay",
            "0",
        ];
        assert(str_views(rc@) =~= spec_rc(encoder@));
        (Some("p1"), rc)
    } else if str_eq(encoder, "libx264") {
        let rc: &'static [&'static str] = &[
            "-rc-lookahead",
            "0",
            "-x264-params",
            "sliced-threads=1:sync-lookahead=0:scenecut=0",
        ];
        assert(str_views(rc@) =~= spec_rc(encoder@));
        (Some("veryfast"), rc)
    } else if str_eq(encoder, "h264_qsv") {
        let rc: &'static [&'static str] = &["-async_depth", "1"];
        assert(str_views(rc@) =~= spec_rc(encoder@));
        (Some("veryfast"), rc)
    } else if str_eq(encoder, "h264_amf") {
        let rc: &'static [&'static str] = &["-usage", "lowlatency"];
        assert(str_views(rc@) =~= spec_rc(encoder@));
        (Some("speed"), rc)
    } else {
        // vaapi / vulkan: no preset
        let rc: &'static [&'static str] = &[];
        assert(str_views(rc@) =~= spec_rc(encoder@));
        (None, rc)
    }
}


pub const LIMITS_NOTE: &'static str = "Topaz limits: video <= 2000kbps, audio <= 320kbps";

/// Pixel format of the frames written to the video pipe.
pub open spec fn input_pix(t: Transport) -> Seq<char> {
    match t {
        Transport::PipeBgra => "bgra"@,
        Transport::PipeNv12 | Transport::HwDirect => "nv12"@,
    }
}

/// Input format of the video pipe.
pub open spec fn frame_desc(t: Transport) -> Seq<char> {
    "rawvideo"@
}

impl Transport {
    fn input_pix_fmt(self) -> (r: &'static str)
        ensures
            r@ == input_pix(self),
    {
        match self {
            Transport::PipeBgra => "bgra",
            Transport::PipeNv12 | Transport::HwDirect => "nv12",
        }
    }

    fn input_frame_desc(self) -> (r: &'static str)
        ensures
            r@ == frame_desc(self),
    {
        match self {
            Transport::PipeBgra => "rawvideo",
            Transport::PipeNv12 | Transport::HwDirect => "rawvideo",
        }
    }
}

/// Output pixel format: hardware encoders take `nv12` from the NV12
/// transports; software and the BGRA pipe stay on `yuv420p`.
pub open spec fn out_pix(encoder: Seq<char>, t: Transport) -> Seq<char> {
    match t {
        Transport::PipeNv12 | Transport::HwDirect => if encoder == "libx264"@ {
            "yuv420p"@
        } else {
            "nv12"@
        },
        Transport::PipeBgra => "yuv420p"@,
    }
}

/// Output pixel format for `encoder` fed by `transport`.
pub fn output_pix_fmt(encoder: &str, transport: &Transport) -> (r: &'static str)
    ensures
        r@ == out_pix(encoder@, *transport),
{
    match *transport {
        Transport::PipeNv12 | Transport::HwDirect => if str_eq(encoder, "libx264") {
            "yuv420p"
        } else {
            "nv12"
        },
        Transport::PipeBgra => "yuv420p",
    }
}

/// The hardware encoders: they get the NV12 pipe.
pub open spec fn is_hw_encoder(encoder: Seq<char>) -> bool {
    encoder == "h264_nvenc"@ || encoder == "h264_qsv"@ || encoder == "h264_amf"@ || encoder
        == "h264_vaapi"@ || encoder == "h264_vulkan"@
}

/// Transport chosen for an encoder.
pub open spec fn transport_for(encoder: Seq<char>) -> Transport {
    if is_hw_encoder(encoder) {
        Transport::PipeNv12
    } else {
        Transport::PipeBgra
    }
}

/// Hardware encoders get NV12 pipes (GPU-friendly, 3/8 of the BGRA
/// bandwidth); software keeps BGRA.
pub fn transport_for_encoder(encoder: &str) -> (t: Transport)
    ensures
        t == transport_for(encoder@),
{
    if str_eq(encoder, "h264_nvenc") || str_eq(encoder, "h264_qsv") || str_eq(encoder, "h264_amf")
        || str_eq(encoder, "h264_vaapi") || str_eq(encoder, "h264_vulkan") {
        Transport::PipeNv12
    } else {
        Transport::PipeBgra
    }
}

/// Transport of a start plan: the opt-in `HwDirect` path where the encoder
/// has a device backend, the encoder's pipe transport otherwise.
pub open spec fn plan_transport(encoder: Seq<char>, hw_direct: bool) -> Transport {
    if hw_direct && backend_for(encoder) != HwBackend::NoDevice {
        Transport::HwDirect
    } else {
        transport_for(encoder)
    }
}

/// Transport for a start plan (`hw_direct` is the user's opt-in).
pub fn transport_for_plan(encoder: &str, hw_direct: bool) -> (t: Transport)
    ensures
        t == plan_transport(encoder@, hw_direct),
{
    if hw_direct && HwBackend::for_encoder(encoder) != HwBackend::NoDevice {
        Transport::HwDirect
    } else {
        transport_for_encoder(encoder)
    }
}

/// `"<w>x<h>"`.
pub open spec fn size_arg(w: u32, h: u32) -> Seq<char> {
    decimal(w as nat) + seq!['x'] + decimal(h as nat)
}

/// `"<n>k"`.
pub open spec fn kbps_arg(n: int) -> Seq<char> {
    decimal(n as nat).push('k')
}

/// The RTMP target: the ingest URL without trailing slashes, `/`, the key.
pub open spec fn url_arg(ingest_url: Seq<char>, stream_key: Seq<char>) -> Seq<char> {
    trim_end_char(ingest_url, '/') + seq!['/'] + stream_key
}

/// Global options: quiet banner, progress on stdout.
pub open spec fn global_args() -> Seq<Seq<char>> {
    seq!["-hide_banner"@, "-loglevel"@, "info"@, "-progress"@, "pipe:1"@]
}

/// Video pipe input options (low-latency probing on the pipe).
pub open spec fn video_input(p: Profile, video_pipe: Seq<char>, t: Transport) -> Seq<Seq<char>> {
    seq![
        "-fflags"@,
        "nobuffer"@,
        "-probesize"@,
        "32"@,
        "-analyzeduration"@,
        "0"@,
        "-thread_queue_size"@,
        "1024"@,
        "-f"@,
        frame_desc(t),
        "-pix_fmt"@,
        input_pix(t),
        "-s"@,
        size_arg(p.w, p.h),
        "-r"@,
        decimal(p.fps as nat),
        "-i"@,
        video_pipe,
    ]
}

/// Audio pipe input options: f32le, 48 kHz, stereo.
pub open spec fn audio_input(audio_pipe: Seq<char>) -> Seq<Seq<char>> {
    seq![
        "-thread_queue_size"@,
        "512"@,
        "-f"@,
        "f32le"@,
        "-ar"@,
        "48000"@,
        "-ac"@,
        "2"@,
        "-i"@,
        audio_pipe,
    ]
}

/// `-preset <p>` where the encoder has a preset.
pub open spec fn preset_args(encoder: Seq<char>) -> Seq<Seq<char>> {
    match spec_preset(encoder) {
        Some(p) => seq!["-preset"@, p],
        None => seq![],
    }
}

/// `-vf <f>` where there is a video filter.
pub open spec fn filter_args(filter: Option<Seq<char>>) -> Seq<Seq<char>> {
    match filter {
        Some(f) => seq!["-vf"@, f],
        None => seq![],
    }
}

/// Video encoder options: strict two-second GOP, CBR-like rate control.
pub open spec fn video_encode(p: Profile, encoder: Seq<char>, t: Transport) -> Seq<Seq<char>> {
    seq![
        "-c:v"@,
        encoder,
        "-pix_fmt"@,
        out_pix(encoder, t),
        "-profile:v"@,
        "high"@,
        "-bf"@,
        "0"@,
        "-g"@,
        decimal(spec_gop(p.fps) as nat),
        "-keyint_min"@,
        decimal(spec_gop(p.fps) as nat),
        "-sc_threshold"@,
        "0"@,
        "-sws_flags"@,
        "fast_bilinear"@,
        "-fps_mode"@,
        "cfr"@,
        "-b:v"@,
        kbps_arg(p.v_kbps as int),
        "-maxrate"@,
        kbps_arg(p.v_kbps as int),
        "-bufsize"@,
        kbps_arg(p.v_kbps * 2),
    ]
}

/// Audio encoder and FLV muxer options, then the RTMP target.
pub open spec fn mux_output(p: Profile, ingest_url: Seq<char>, stream_key: Seq<char>) -> Seq<
    Seq<char>,
> {
    seq![
        "-c:a"@,
        "aac"@,
        "-b:a"@,
        kbps_arg(p.a_kbps as int),
        "-ac"@,
        "2"@,
        "-ar"@,
        "48000"@,
        "-flvflags"@,
        "no_duration_filesize"@,
        "-flush_packets"@,
        "1"@,
        "-f"@,
        "flv"@,
        url_arg(ingest_url, stream_key),
    ]
}

/// Everything after the inputs: encoder, preset, rate control, video
/// filter, audio encoder, muxer and target.
pub open spec fn encoder_output(
    p: Profile,
    encoder: Seq<char>,
    ingest_url: Seq<char>,
    stream_key: Seq<char>,
    t: Transport,
    filter: Option<Seq<char>>,
) -> Seq<Seq<char>> {
    video_encode(p, encoder, t) + preset_args(encoder) + spec_rc(encoder) + filter_args(filter)
        + mux_output(p, ingest_url, stream_key)
}

/// `-init_hw_device` for the `HwDirect` transport, nothing otherwise.
pub open spec fn device_args(encoder: Seq<char>, t: Transport) -> Seq<Seq<char>> {
    if t == Transport::HwDirect {
        init_device_args(backend_for(encoder))
    } else {
        seq![]
    }
}

/// The full ffmpeg argv for the pipe transports.
pub open spec fn ffmpeg_args(
    p: Profile,
    encoder: Seq<char>,
    ingest_url: Seq<char>,
    stream_key: Seq<char>,
    video_pipe: Seq<char>,
    audio_pipe: Seq<char>,
    t: Transport,
) -> Seq<Seq<char>> {
    global_args() + device_args(encoder, t) + video_input(p, video_pipe, t) + audio_input(
        audio_pipe,
    ) + encoder_output(p, encoder, ingest_url, stream_key, t, upload_filter(encoder, t))
}

fn size_string(w: u32, h: u32) -> (s: String)
    ensures
        s@ == size_arg(w, h),
{
    let mut s = decimal_string(w as u64);
    push_char(&mut s, 'x');
    let hs = decimal_string(h as u64);
    push_str(&mut s, hs.as_str());
    s
}

fn kbps_string(n: u64) -> (s: String)
    ensures
        s@ == kbps_arg(n as int),
{
    let mut s = decimal_string(n);
    push_char(&mut s, 'k');
    s
}

fn url_string(ingest_url: &str, stream_key: &str) -> (s: String)
    ensures
        s@ == url_arg(ingest_url@, stream_key@),
{
    let mut s = trim_end(ingest_url, '/');
    push_char(&mut s, '/');
    push_str(&mut s, stream_key);
    s
}

fn global_arg_list() -> (r: Vec<String>)
    ensures
        views(r@) == global_args(),
{
    let mut r: Vec<String> = Vec::new();
    push_lit(&mut r, "-hide_banner");
    push_lit(&mut r, "-loglevel");
    push_lit(&mut r, "info");
    push_lit(&mut r, "-progress");
    push_lit(&mut r, "pipe:1");
    r
}

/// Video pipe input options for `profile`-sized frames over `transport`.
pub fn pipe_video_input_args(profile: &Profile, video_pipe: &str, transport: &Transport) -> (r: Vec<
    String,
>)
    ensures
        views(r@) == video_input(*profile, video_pipe@, *transport),
{
    let mut r: Vec<String> = Vec::new();
    push_lit(&mut r, "-fflags");
    push_lit(&mut r, "nobuffer");
    push_lit(&mut r, "-probesize");
    push_lit(&mut r, "32");
    push_lit(&mut r, "-analyzeduration");
    push_lit(&mut r, "0");
    push_lit(&mut r, "-thread_queue_size");
    push_lit(&mut r, "1024");
    push_lit(&mut r, "-f");
    push_lit(&mut r, transport.input_frame_desc());
    push_lit(&mut r, "-pix_fmt");
    push_lit(&mut r, transport.input_pix_fmt());
    push_lit(&mut r, "-s");
    push_arg(&mut r, size_string(profile.w, profile.h));
    push_lit(&mut r, "-r");
    push_arg(&mut r, decimal_string(profile.fps as u64));
    push_lit(&mut r, "-i");
    push_lit(&mut r, video_pipe);
    r
}

/// Audio pipe input options (mixed f32le, 48 kHz, stereo).
pub fn pipe_audio_input_args(audio_pipe: &str) -> (r: Vec<String>)
    ensures
        views(r@) == audio_input(audio_pipe@),
{
    let mut r: Vec<String> = Vec::new();
    push_lit(&mut r, "-thread_queue_size");
    push_lit(&mut r, "512");
    push_lit(&mut r, "-f");
    push_lit(&mut r, "f32le");
    push_lit(&mut r, "-ar");
    push_lit(&mut r, "48000");
    push_lit(&mut r, "-ac");
    push_lit(&mut r, "2");
    push_lit(&mut r, "-i");
    push_lit(&mut r, audio_pipe);
    r
}

fn video_encode_args(profile: &Profile, encoder: &str, transport: &Transport) -> (r: Vec<String>)
    requires
        within_limits(profile.v_kbps, profile.a_kbps),
        spec_gop(profile.fps) <= u32::MAX,
    ensures
        views(r@) == video_encode(*profile, encoder@, *transport),
{
    let gop = profile.gop();
    let mut r: Vec<String> = Vec::new();
    push_lit(&mut r, "-c:v");
    push_lit(&mut r, encoder);
    push_lit(&mut r, "-pix_fmt");
    push_lit(&mut r, output_pix_fmt(encoder, transport));
    push_lit(&mut r, "-profile:v");
    push_lit(&mut r, "high");
    push_lit(&mut r, "-bf");
    push_lit(&mut r, "0");
    push_lit(&mut r, "-g");
    push_arg(&mut r, decimal_string(gop as u64));
    push_lit(&mut r, "-keyint_min");
    push_arg(&mut r, decimal_string(gop as u64));
    push_lit(&mut r, "-sc_threshold");
    push_lit(&mut r, "0");
    push_lit(&mut r, "-sws_flags");
    push_lit(&mut r, "fast_bilinear");
    push_lit(&mut r, "-fps_mode");
    push_lit(&mut r, "cfr");
    push_lit(&mut r, "-b:v");
    push_arg(&mut r, kbps_string(profile.v_kbps as u64));
    push_lit(&mut r, "-maxrate");
    push_arg(&mut r, kbps_string(profile.v_kbps as u64));
    push_lit(&mut r, "-bufsize");
    push_arg(&mut r, kbps_string(profile.v_kbps as u64 * 2));
    r
}

fn mux_output_args(profile: &Profile, ingest_url: &str, stream_key: &str) -> (r: Vec<String>)
    ensures
        views(r@) == mux_output(*profile, ingest_url@, stream_key@),
{
    let mut r: Vec<String> = Vec::new();
    push_lit(&mut r, "-c:a");
    push_lit(&mut r, "aac");
    push_lit(&mut r, "-b:a");
    push_arg(&mut r, kbps_string(profile.a_kbps as u64));
    push_lit(&mut r, "-ac");
    push_lit(&mut r, "2");
    push_lit(&mut r, "-ar");
    push_lit(&mut r, "48000");
    push_lit(&mut r, "-flvflags");
    push_lit(&mut r, "no_duration_filesize");
    push_lit(&mut r, "-flush_packets");
    push_lit(&mut r, "1");
    push_lit(&mut r, "-f");
    push_lit(&mut r, "flv");
    push_arg(&mut r, url_string(ingest_url, stream_key));
    r
}

/// Encoder, rate control, optional video filter, audio encoder, muxer and
/// target, after the bitrate guard.
pub fn encoder_output_args(
    profile: &Profile,
    encoder: &str,
    ingest_url: &str,
    stream_key: &str,
    transport: &Transport,
    video_filter: Option<String>,
) -> (r: Result<Vec<String>>)
    requires
        within_limits(profile.v_kbps, profile.a_kbps) ==> spec_gop(profile.fps) <= u32::MAX,
    ensures
        r is Ok <==> within_limits(profile.v_kbps, profile.a_kbps),
        r matches Err(e) ==> e == (Error::BitrateOver {
            v_kbps: profile.v_kbps,
            a_kbps: profile.a_kbps,
        }),
        r matches Ok(a) ==> views(a@) == encoder_output(
            *profile,
            encoder@,
            ingest_url@,
            stream_key@,
            *transport,
            opt_str_view(video_filter),
        ),
{
    validate_bitrate(profile.v_kbps, profile.a_kbps)?;
    let mut r = video_encode_args(profile, encoder, transport);
    let (preset, rc) = preset_and_rc(encoder);
    if let Some(p) = preset {
        push_lit(&mut r, "-preset");
        push_lit(&mut r, p);
    }
    let ghost base = views(r@);
    let mut i: usize = 0;
    while i < rc.len()
        invariant
            i <= rc@.len(),
            views(r@) == base + str_views(rc@).take(i as int),
        decreases rc@.len() - i,
    {
        push_lit(&mut r, rc[i]);
        i = i + 1;
        assert(str_views(rc@).take(i as int) == str_views(rc@).take(i - 1).push(rc@[i - 1]@));
    }
    assert(str_views(rc@).take(rc@.len() as int) == str_views(rc@));
    if let Some(f) = video_filter {
        push_lit(&mut r, "-vf");
        push_arg(&mut r, f);
    }
    append_args(&mut r, mux_output_args(profile, ingest_url, stream_key));
    Ok(r)
}

/// The full ffmpeg argv: video = rawvideo pipe in the transport's pixel
/// format, audio = f32le pipe, H.264 with a strict 2 s GOP to FLV/RTMP at
/// `<ingest_url without trailing '/'>/<stream_key>`. Bitrates over the Topaz
/// limits are refused.
/// What building a command line gives: the argv of `ffmpeg_args` when the
/// bitrates are within the Topaz limits, the bitrate error otherwise.
pub open spec fn builds_argv(
    r: Result<Vec<String>>,
    p: Profile,
    encoder: Seq<char>,
    ingest_url: Seq<char>,
    stream_key: Seq<char>,
    video_pipe: Seq<char>,
    audio_pipe: Seq<char>,
    t: Transport,
) -> bool {
    &&& r is Ok <==> within_limits(p.v_kbps, p.a_kbps)
    &&& r matches Err(e) ==> e == (Error::BitrateOver { v_kbps: p.v_kbps, a_kbps: p.a_kbps })
    &&& r matches Ok(a) ==> views(a@) == ffmpeg_args(
        p,
        encoder,
        ingest_url,
        stream_key,
        video_pipe,
        audio_pipe,
        t,
    )
}

#[allow(clippy::too_many_arguments)]
pub fn build_ffmpeg_args_with_transport(
    profile: &Profile,
    encoder: &str,
    ingest_url: &str,
    stream_key: &str,
    video_pipe: &str,
    audio_pipe: &str,
    transport: &Transport,
) -> (r: Result<Vec<String>>)
    requires
        within_limits(profile.v_kbps, profile.a_kbps) ==> spec_gop(profile.fps) <= u32::MAX,
    ensures
        builds_argv(r, *profile, encoder@, ingest_url@, stream_key@, video_pipe@, audio_pipe@, *transport),
{
    validate_bitrate(profile.v_kbps, profile.a_kbps)?;
    let mut args = global_arg_list();
    if *transport == Transport::HwDirect {
        append_args(&mut args, init_hw_device_args(&HwBackend::for_encoder(encoder)));
    } else {
        assert(views(args@) + seq![] == views(args@));
    }
    append_args(&mut args, pipe_video_input_args(profile, video_pipe, transport));
    append_args(&mut args, pipe_audio_input_args(audio_pipe));
    let out = encoder_output_args(
        profile,
        encoder,
        ingest_url,
        stream_key,
        transport,
        hw_upload_filter(encoder, transport),
    )?;
    append_args(&mut args, out);
    Ok(args)
}

/// The full ffmpeg argv over the BGRA pipe transport.
pub fn build_ffmpeg_args(
    profile: &Profile,
    encoder: &str,
    ingest_url: &str,
    stream_key: &str,
    video_pipe: &str,
    audio_pipe: &str,
) -> (r: Result<Vec<String>>)
    requires
        within_limits(profile.v_kbps, profile.a_kbps) ==> spec_gop(profile.fps) <= u32::MAX,
    ensures
        builds_argv(
            r,
            *profile,
            encoder@,
            ingest_url@,
            stream_key@,
            video_pipe@,
            audio_pipe@,
            Transport::PipeBgra,
        ),
{
    build_ffmpeg_args_with_transport(
        profile,
        encoder,
        ingest_url,
        stream_key,
        video_pipe,
        audio_pipe,
        &Transport::PipeBgra,
    )
}

/// The stream always goes to the ingest URL (without trailing slashes) and
/// the key: the last argument of every command line.
pub proof fn lemma_argv_ends_with_destination(
    p: Profile,
    encoder: Seq<char>,
    ingest_url: Seq<char>,
    stream_key: Seq<char>,
    video_pipe: Seq<char>,
    audio_pipe: Seq<char>,
    t: Transport,
)
    ensures
        ffmpeg_args(p, encoder, ingest_url, stream_key, video_pipe, audio_pipe, t).last() == url_arg(
            ingest_url,
            stream_key,
        ),
{
}

/// Without the opt-in `HwDirect` transport no hardware device is set up and
/// no upload filter is added.
pub proof fn lemma_device_only_for_hw_direct(encoder: Seq<char>, t: Transport)
    requires
        t != Transport::HwDirect,
    ensures
        device_args(encoder, t) == Seq::<Seq<char>>::empty(),
        upload_filter(encoder, t) is None,
{
}

/// `HwDirect` is only ever planned on request.
pub proof fn lemma_hw_direct_is_opt_in(encoder: Seq<char>)
    ensures
        plan_transport(encoder, false) != Transport::HwDirect,
{
}

/// `build_ffmpeg_args` is `build_ffmpeg_args_with_transport` on the BGRA
/// pipe: for the same inputs both succeed or both fail, with the same argv
/// or the same error.
pub proof fn lemma_plain_builder_is_bgra_pipe(
    r1: Result<Vec<String>>,
    r2: Result<Vec<String>>,
    p: Profile,
    encoder: Seq<char>,
    ingest_url: Seq<char>,
    stream_key: Seq<char>,
    video_pipe: Seq<char>,
    audio_pipe: Seq<char>,
)
    requires
        builds_argv(r1, p, encoder, ingest_url, stream_key, video_pipe, audio_pipe, Transport::PipeBgra),
        builds_argv(r2, p, encoder, ingest_url, stream_key, video_pipe, audio_pipe, Transport::PipeBgra),
    ensures
        r1 is Ok <==> r2 is Ok,
        r1 is Ok ==> views(r1->Ok_0@) == views(r2->Ok_0@),
        r1 is Err ==> r1->Err_0 == r2->Err_0,
{
}

/// The output pixel format: on the NV12 transports every encoder but
/// libx264 takes `nv12` directly (in particular every hardware encoder),
/// libx264 gets `yuv420p`; on the BGRA pipe every encoder gets `yuv420p`.
pub proof fn lemma_output_pix_fmt(encoder: Seq<char>, t: Transport)
    ensures
        t != Transport::PipeBgra && encoder != "libx264"@ ==> out_pix(encoder, t) == "nv12"@,
        t != Transport::PipeBgra && is_hw_encoder(encoder) ==> out_pix(encoder, t) == "nv12"@,
        encoder == "libx264"@ || t == Transport::PipeBgra ==> out_pix(encoder, t) == "yuv420p"@,
{
    reveal_strlit("libx264");
    reveal_strlit("h264_nvenc");
    reveal_strlit("h264_qsv");
    reveal_strlit("h264_amf");
    reveal_strlit("h264_vaapi");
    reveal_strlit("h264_vulkan");
    assert("libx264"@.len() == 7);
    assert("h264_nvenc"@.len() == 10 && "h264_qsv"@.len() == 8 && "h264_amf"@.len() == 8);
    assert("h264_vaapi"@.len() == 10 && "h264_vulkan"@.len() == 11);
}

/// On the NV12 pipe the built command line encodes with the requested
/// encoder and declares its output pixel format right after it: `nv12` for
/// every encoder but libx264, `yuv420p` for libx264; on the BGRA pipe always
/// `yuv420p`.
pub proof fn lemma_argv_output_pix_fmt(
    r: Result<Vec<String>>,
    p: Profile,
    encoder: Seq<char>,
    ingest_url: Seq<char>,
    stream_key: Seq<char>,
    video_pipe: Seq<char>,
    audio_pipe: Seq<char>,
    t: Transport,
)
    requires
        t != Transport::HwDirect,
        builds_argv(r, p, encoder, ingest_url, stream_key, video_pipe, audio_pipe, t),
        r is Ok,
    ensures
        views(r->Ok_0@)[33] == "-c:v"@,
        views(r->Ok_0@)[34] == encoder,
        views(r->Ok_0@)[35] == "-pix_fmt"@,
        t == Transport::PipeNv12 && encoder != "libx264"@ ==> views(r->Ok_0@)[36] == "nv12"@,
        encoder == "libx264"@ || t == Transport::PipeBgra ==> views(r->Ok_0@)[36] == "yuv420p"@,
{
    let a = ffmpeg_args(p, encoder, ingest_url, stream_key, video_pipe, audio_pipe, t);
    let head = global_args() + device_args(encoder, t) + video_input(p, video_pipe, t) + audio_input(
        audio_pipe,
    );
    assert(device_args(encoder, t) == Seq::<Seq<char>>::empty());
    assert(head.len() == 33);
    let out = encoder_output(p, encoder, ingest_url, stream_key, t, upload_filter(encoder, t));
    assert(a == head + out);
    assert(out[0] == "-c:v"@ && out[1] == encoder && out[2] == "-pix_fmt"@ && out[3] == out_pix(
        encoder,
        t,
    ));
    assert(a[33] == out[0] && a[34] == out[1] && a[35] == out[2] && a[36] == out[3]);
    lemma_output_pix_fmt(encoder, t);
}

} // verus!
