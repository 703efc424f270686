//! Everything that talks to ffmpeg: command lines, hardware upload, encoder
//! discovery, start plans and the retry policy.

pub mod args;
pub mod hw;
pub mod probe;
pub mod progress;
pub mod pipes;
pub mod start;
pub mod supervisor;
