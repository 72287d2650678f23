//! Decision logic of a local audio analysis library.

pub mod api;
pub mod backend;
pub mod dsp;
pub mod error;
pub mod spans;
pub mod state;
pub mod text;
