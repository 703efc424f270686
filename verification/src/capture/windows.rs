//! Enumeration entry points of a build without the Windows capture backend.

use crate::capture::CaptureError;
use crate::ipc_types::{AudioDevices, Display, WindowInfo};
use vstd::prelude::*;

verus! {

/// No backend in this build.
pub fn list_displays() -> (r: Result<Vec<Display>, CaptureError>)
    ensures
        r matches Err(e) && e is NotAvailable,
{
    Err(CaptureError::NotAvailable)
}

/// No backend in this build.
pub fn list_windows() -> (r: Result<Vec<WindowInfo>, CaptureError>)
    ensures
        r matches Err(e) && e is NotAvailable,
{
    Err(CaptureError::NotAvailable)
}

/// No backend in this build.
pub fn list_audio_devices() -> (r: Result<AudioDevices, CaptureError>)
    ensures
        r matches Err(e) && e is NotAvailable,
{
    Err(CaptureError::NotAvailable)
}

} // verus!
