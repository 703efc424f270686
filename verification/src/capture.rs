//! Capture backend surface that does not depend on a platform API.

pub mod frame;
pub mod linux;
pub mod win32;
pub mod windows;

use vstd::prelude::*;

verus! {

/// The mixer's source id of the microphone.
pub const MIC_ID: &'static str = "mic";

/// Why a capture request failed.
#[derive(Debug)]
pub enum CaptureError {
    /// This build has no capture backend.
    NotAvailable,
    /// An X11 session was detected; a Wayland session is required.
    X11NotSupported,
    /// The backend reported a failure.
    Failed(String),
}

/// A backend failure with its message.
pub fn err(msg: String) -> (e: CaptureError)
    ensures
        e matches CaptureError::Failed(m) && m@ == msg@,
{
    CaptureError::Failed(msg)
}

} // verus!
