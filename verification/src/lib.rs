//! Polyphonic synthesizer voice engine in fixed-point arithmetic.
//!
//! The per-sample signal path (ADSR envelope, pitch glide, waveform
//! oscillator, voice allocation and block mixing) is written over scaled
//! integers so that every range invariant and transition rule is checked:
//! envelope and gain levels are millionths of full scale, frequencies are
//! millihertz, oscillator phase is a 32-bit fraction of one turn, and
//! samples are scaled by 2^20.


pub mod units;
pub mod tuning;
pub mod waveform;
pub mod envelope;
pub mod glide;
pub mod mixer;
pub mod voice;
pub mod transpose;
pub mod render;
pub mod synth;

pub use envelope::Adsr;
pub use synth::SynthNode;
pub use transpose::MidiTransposeNode;
pub use tuning::midi_to_freq;
pub use voice::Voice;
pub use waveform::Waveform;

