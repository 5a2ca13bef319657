//! Waveform oscillator: map a phase accumulator to a bipolar sample.
//!
//! Phase is a 32-bit fraction of one turn (`0` is phase zero, `1 << 31`
//! is half a turn). Samples are scaled by `AMP_ONE`, so full scale is
//! `[-AMP_ONE, AMP_ONE]`. The ramp shapes keep the engine's historical
//! mappings: the sawtooth rises straight from -1 at phase zero to +1 at
//! the end of the turn, the triangle rises from -1 to +1 over the first
//! half turn and falls back over the second, and the square is +1
//! strictly inside the first half turn and -1 elsewhere (phase zero
//! itself, where a sine is not yet positive, gives -1). The sine shape
//! is a per-half-turn parabola: exact at its zero crossings and peaks,
//! within full scale everywhere.

use vstd::prelude::*;
use crate::units::AMP_ONE;
use crate::units::PHASE_HALF;

verus! {

/// Waveform selector for the oscillator.
#[derive(Clone, Copy, PartialEq, Eq, Structural, Debug)]
pub enum Waveform {
    Sine,
    Square,
    Sawtooth,
    Triangle,
}

/// Parabolic half-turn arch: 0 at both ends of a half turn, `AMP_ONE` at
/// the quarter-turn peak, for `0 <= x < PHASE_HALF`.
pub open spec fn arch_val(x: int) -> int {
    (x * (PHASE_HALF - x)) / 1_099_511_627_776
}

/// The sample a waveform yields at a phase, scaled by `AMP_ONE`.
pub open spec fn wave_val(w: Waveform, phase: u32) -> int {
    match w {
        Waveform::Sine => if phase < PHASE_HALF {
            arch_val(phase as int)
        } else {
            -arch_val(phase - PHASE_HALF)
        },
        Waveform::Square => if 0 < phase && phase < PHASE_HALF {
            AMP_ONE as int
        } else {
            -(AMP_ONE as int)
        },
        Waveform::Sawtooth => (phase as int) / 2048 - AMP_ONE,
        Waveform::Triangle => if phase < PHASE_HALF {
            (phase as int) / 1024 - AMP_ONE
        } else {
            3 * (AMP_ONE as int) - (phase as int) / 1024
        },
    }
}

/// The parabolic arch stays within `[0, AMP_ONE]` over a half turn.
pub proof fn lemma_arch_val_bounds(x: int)
    requires
        0 <= x < PHASE_HALF,
    ensures
        0 <= arch_val(x) <= AMP_ONE,
{
    assert(0 <= x * (PHASE_HALF - x) <= 1152921504606846976) by (nonlinear_arith)
        requires
            0 <= x < PHASE_HALF,
    ;
    assert(1152921504606846976int / 1_099_511_627_776 == AMP_ONE);
    vstd::arithmetic::div_mod::lemma_div_is_ordered(
        x * (PHASE_HALF - x),
        1152921504606846976,
        1_099_511_627_776,
    );
}

/// Every waveform's sample lies within full scale.
pub proof fn lemma_wave_val_bounds(w: Waveform, phase: u32)
    ensures
        -(AMP_ONE as int) <= wave_val(w, phase) <= AMP_ONE,
{
    match w {
        Waveform::Sine => {
            if phase < PHASE_HALF {
                lemma_arch_val_bounds(phase as int);
            } else {
                lemma_arch_val_bounds(phase - PHASE_HALF);
            }
        },
        Waveform::Square => {},
        Waveform::Sawtooth => {},
        Waveform::Triangle => {},
    }
}

fn arch_sample(x: u32) -> (v: i64)
    requires
        x < PHASE_HALF,
    ensures
        v == arch_val(x as int),
        0 <= v <= AMP_ONE,
{
    proof {
        lemma_arch_val_bounds(x as int);
    }
    let p: u64 = (x as u64) * (2_147_483_648u64 - x as u64);
    (p / 1_099_511_627_776) as i64
}

/// The oscillator proper: the sample waveform `w` yields at `phase`.
pub fn wave_sample(w: Waveform, phase: u32) -> (v: i64)
    ensures
        v == wave_val(w, phase),
        -(AMP_ONE as int) <= v <= AMP_ONE,
{
    proof {
        lemma_wave_val_bounds(w, phase);
    }
    match w {
        Waveform::Sine => {
            if phase < 2_147_483_648u32 {
                arch_sample(phase)
            } else {
                -arch_sample(phase - 2_147_483_648u32)
            }
        },
        Waveform::Square => {
            if 0 < phase && phase < 2_147_483_648u32 {
                AMP_ONE
            } else {
                -AMP_ONE
            }
        },
        Waveform::Sawtooth => (phase / 2048) as i64 - AMP_ONE,
        Waveform::Triangle => {
            if phase < 2_147_483_648u32 {
                (phase / 1024) as i64 - AMP_ONE
            } else {
                3 * AMP_ONE - (phase / 1024) as i64
            }
        },
    }
}

/// Map a waveform selector code to a waveform; unknown codes fall back
/// to a sine.
pub open spec fn waveform_of_code(code: u32) -> Waveform {
    if code == 1 {
        Waveform::Square
    } else if code == 2 {
        Waveform::Sawtooth
    } else if code == 3 {
        Waveform::Triangle
    } else {
        Waveform::Sine
    }
}

} // verus!
