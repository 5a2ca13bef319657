//! Fixed-point scales and machine limits shared by the whole engine.

use vstd::prelude::*;

verus! {

/// Full scale of an envelope level: 1.0 in millionths.
pub const ENV_ONE: u32 = 1_000_000;

/// Full scale of the master gain: 1.0 in millionths.
pub const GAIN_ONE: u32 = 1_000_000;

/// Full scale of the smoothed mix gain: 1.0 in millionths.
pub const MIX_ONE: u32 = 1_000_000;

/// Full scale of a bipolar sample: 1.0 is 2^20.
pub const AMP_ONE: i64 = 1_048_576;

/// One full oscillator turn: phase accumulators live in `[0, PHASE_TURN)`.
pub const PHASE_TURN: u64 = 4_294_967_296;

/// Half an oscillator turn (the point where bipolar shapes change sign).
pub const PHASE_HALF: u64 = 2_147_483_648;

/// Highest frequency the engine ever stores, in millihertz
/// (the top of the 128-key equal-tempered range).
pub const FREQ_CAP_MILLIHZ: u64 = 12_544_000;

/// Frequency floor applied when a voice starts a glide, in millihertz (20 Hz).
pub const GLIDE_FLOOR_MILLIHZ: u64 = 20_000;

/// Longest envelope time constant kept, in microseconds (1e12 us, about
/// eleven days: a defensive cap so per-sample step arithmetic cannot
/// overflow 64 bits).
pub const TIME_CAP_US: u64 = 1_000_000_000_000;

/// Longest glide time constant, in microseconds (the widest
/// millisecond setting, converted).
pub const GLIDE_CAP_US: u64 = 4_294_967_295_000;

/// Lowest accepted sample rate, in Hz.
pub const RATE_MIN: u32 = 1;

/// Highest accepted sample rate, in Hz.
pub const RATE_MAX: u32 = 1_000_000;

} // verus!
