//! Named-pipe locations for the ffmpeg video/audio inputs.
//!
//! Unix: FIFOs under `/tmp`. Windows: named-pipe servers under `\\.\pipe\`.

use crate::text::owned;
use vstd::prelude::*;

verus! {

/// The video pipe path on the given platform.
pub open spec fn video_path(windows: bool) -> Seq<char> {
    if windows {
        "\\\\.\\pipe\\ezTopaz_video"@
    } else {
        "/tmp/ezTopaz_video.pipe"@
    }
}

/// The audio pipe path on the given platform.
pub open spec fn audio_path(windows: bool) -> Seq<char> {
    if windows {
        "\\\\.\\pipe\\ezTopaz_audio"@
    } else {
        "/tmp/ezTopaz_audio.pipe"@
    }
}

/// The video pipe path (`windows`: whether the target is Windows).
pub fn video_pipe_path(windows: bool) -> (r: String)
    ensures
        r@ == video_path(windows),
{
    if windows {
        owned("\\\\.\\pipe\\ezTopaz_video")
    } else {
        owned("/tmp/ezTopaz_video.pipe")
    }
}

/// The audio pipe path (`windows`: whether the target is Windows).
pub fn audio_pipe_path(windows: bool) -> (r: String)
    ensures
        r@ == audio_path(windows),
{
    if windows {
        owned("\\\\.\\pipe\\ezTopaz_audio")
    } else {
        owned("/tmp/ezTopaz_audio.pipe")
    }
}

} // verus!
