//! The PulseAudio backend, which is not there yet.

use crate::error::AresError;
use vstd::prelude::*;

verus! {

/// The PulseAudio backend.
#[derive(Debug, Default)]
pub struct PulseAudioBackend;

impl PulseAudioBackend {
    /// The backend.
    pub fn new() -> (r: Self)
        ensures
            r == PulseAudioBackend,
    {
        PulseAudioBackend
    }

    /// Whether the backend can be started.
    pub fn is_available() -> (r: bool)
        ensures
            !r,
    {
        false
    }

    /// Starting the backend fails.
    pub fn start(&self) -> (r: Result<(), AresError>)
        ensures
            r is Err,
            r->Err_0 is Backend,
            r->Err_0.text() == "PulseAudio fallback is not implemented in stage 1"@,
    {
        Err(AresError::backend("PulseAudio fallback is not implemented in stage 1"))
    }
}

} // verus!
