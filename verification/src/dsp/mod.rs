//! The parts of the analysis that need no sample arithmetic: how samples are cut into frames, and
//! which bins of a spectrum belong to which band.

pub mod analyzer;
pub mod bands;
pub mod fft;
