//! What a spectrum is computed from.

use vstd::prelude::*;

verus! {

/// The number of samples of one analysed frame.
pub const DEFAULT_FFT_FRAME_SIZE: usize = 4096;

/// The number of samples from one frame to the next.
pub const DEFAULT_FFT_HOP_SIZE: usize = 1024;

/// What a spectrum is computed from.
#[derive(Debug, Clone, Copy)]
pub struct FftPlan {
    pub sample_rate: u32,
    pub frame_size: usize,
}

impl FftPlan {
    /// A plan for frames of that size.
    pub fn new(sample_rate: u32, frame_size: usize) -> (r: Self)
        ensures
            r.sample_rate == sample_rate,
            r.frame_size == frame_size,
    {
        FftPlan { sample_rate, frame_size }
    }
}

} // verus!
