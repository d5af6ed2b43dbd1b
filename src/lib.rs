//! Sample-clocked audio building blocks: oscillators, noise, an ADSR
//! envelope, a metronome, a bounded sample queue and a radix-2 FFT.
//!
//! Amplitudes are fixed point: an integer value of [`UNITY`] stands for 1.0,
//! so every waveform, gain and energy computation here is exact and proved.
use vstd::prelude::*;

pub mod decoder;
pub mod envelope;
pub mod fft;
pub mod metronome;
pub mod noise;
pub mod oscillator;
pub mod queue;
pub mod synth;
pub mod time_signature;
pub mod utils;

verus! {

/// The fixed-point value that stands for an amplitude or gain of 1.0.
pub const UNITY: u32 = 1_000_000;

} // verus!
