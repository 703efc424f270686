//! Core logic of a lightweight RTMP streamer that drives an ffmpeg sidecar:
//! profiles and the Topaz limits, ffmpeg command lines, encoder discovery,
//! progress parsing and the retry policy, frame pacing, scaling and pixel
//! conversion, and what the capture backends compute around the platform
//! calls.

pub mod config;
pub mod error;
pub mod text;
pub mod ffmpeg;
pub mod ipc_types;
pub mod video;
pub mod capture;
