//! Dual-source audio capture core: fixed-point sample normalisation
//! (downmix and linear-interpolation resampling), the recording session
//! state machine with its shared sample buffer, and the coordinator rules
//! that sit around it.
use vstd::prelude::*;

pub mod dsp;
pub mod text;
pub mod capture;
pub mod stats;
pub mod models;
pub mod host;
pub mod transcription;
pub mod state;

verus! {

} // verus!
