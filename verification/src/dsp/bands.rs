//! The frequency bands.

use vstd::prelude::*;

verus! {

/// The number of frequency bands.
pub const DEFAULT_BAND_COUNT: usize = 64;

} // verus!
