//! The library's error type.

use vstd::prelude::*;

verus! {

/// Why an operation of the library was refused.
#[derive(Debug)]
pub enum Error {
    /// A configuration value is unusable (unknown profile, bad target, ...).
    Config(String),
    /// A bitrate is over the Topaz hard limits (video 2000k, audio 320k).
    BitrateOver { v_kbps: u32, a_kbps: u32 },
    /// The requested encoder is not one the application knows.
    EncoderNotAvailable(String),
    /// The stream key does not have the accepted shape.
    StreamKey(String),
    /// ffmpeg could not be driven.
    Ffmpeg(String),
    /// A captured frame or capture backend is unusable.
    Capture(String),
    /// A feature that this build does not provide.
    NotImplemented(&'static str),
}

pub type Result<T> = std::result::Result<T, Error>;

/// `r` is a configuration error with message `msg`.
pub open spec fn is_config_error<T>(r: Result<T>, msg: Seq<char>) -> bool {
    match r {
        Err(Error::Config(m)) => m@ == msg,
        _ => false,
    }
}

/// `r` is a configuration error.
pub open spec fn is_any_config_error<T>(r: Result<T>) -> bool {
    match r {
        Err(Error::Config(_)) => true,
        _ => false,
    }
}

/// `r` is an unavailable-encoder error with message `msg`.
pub open spec fn is_encoder_error<T>(r: Result<T>, msg: Seq<char>) -> bool {
    match r {
        Err(Error::EncoderNotAvailable(m)) => m@ == msg,
        _ => false,
    }
}

/// `r` is a stream-key error carrying `key`.
pub open spec fn is_key_error<T>(r: Result<T>, key: Seq<char>) -> bool {
    match r {
        Err(Error::StreamKey(k)) => k@ == key,
        _ => false,
    }
}

/// `r` is the bitrate error for these bitrates.
pub open spec fn is_bitrate_error<T>(r: Result<T>, v_kbps: u32, a_kbps: u32) -> bool {
    match r {
        Err(Error::BitrateOver { v_kbps: v, a_kbps: a }) => v == v_kbps && a == a_kbps,
        _ => false,
    }
}

} // verus!
