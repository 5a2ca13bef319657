//! One polyphonic voice slot: the full synthesis state of one note.

use vstd::prelude::*;
use crate::units::ENV_ONE;
use crate::units::FREQ_CAP_MILLIHZ;

verus! {

/// One voice: a key identity, allocation and gate flags, the glided
/// frequency pair (millihertz), the envelope level (millionths), the
/// oscillator phase (32-bit turn fraction) and the note-on velocity
/// (raw MIDI, 0..=127).
#[derive(Clone, Copy, PartialEq, Eq, Structural, Debug)]
pub struct Voice {
    pub note: u8,
    pub active: bool,
    pub key_down: bool,
    pub gate: bool,
    pub freq_target: u64,
    pub freq_current: u64,
    pub env: u32,
    pub phase: u32,
    pub velocity: u8,
}

impl Voice {
    /// The ranges every voice keeps: levels within full scale,
    /// frequencies within the key range, velocity a MIDI data byte,
    /// and a silent envelope whenever the slot is free.
    pub open spec fn valid(self) -> bool {
        &&& self.env <= ENV_ONE
        &&& self.freq_target <= FREQ_CAP_MILLIHZ
        &&& self.freq_current <= FREQ_CAP_MILLIHZ
        &&& self.velocity <= 127
        &&& !self.active ==> self.env == 0
    }

    /// The value of a freshly constructed, silent, unallocated voice.
    pub open spec fn inactive_spec() -> Voice {
        Voice {
            note: 0,
            active: false,
            key_down: false,
            gate: false,
            freq_target: 0,
            freq_current: 0,
            env: 0,
            phase: 0,
            velocity: 0,
        }
    }

    /// A silent, unallocated voice.
    pub fn new() -> (v: Voice)
        ensures
            v == Voice::inactive_spec(),
            v.valid(),
    {
        Voice {
            note: 0,
            active: false,
            key_down: false,
            gate: false,
            freq_target: 0,
            freq_current: 0,
            env: 0,
            phase: 0,
            velocity: 0,
        }
    }
}

} // verus!
