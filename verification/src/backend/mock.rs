//! The backend that plays made-up audio.

use vstd::prelude::*;

verus! {

/// The backend that plays made-up audio.
#[derive(Debug, Default)]
pub struct MockBackend;

impl MockBackend {
    /// The backend.
    pub fn new() -> (r: Self)
        ensures
            r == MockBackend,
    {
        MockBackend
    }
}

} // verus!
