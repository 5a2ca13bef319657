//! Block-mixer normalization gain, smoothed by a one-pole low-pass.
//!
//! The mixer divides the voice sum by the number of sounding voices, but
//! never applies that division in one jump: the gain (millionths) moves
//! toward the `1 / voices` target by the remaining distance times
//! `dt / (tau + dt)`, with a 5 ms time constant. A nonzero move is
//! rounded up to one millionth, so the gain reaches a steady target in
//! finitely many samples.

use vstd::prelude::*;
use crate::units::MIX_ONE;
use crate::units::RATE_MAX;
use crate::units::RATE_MIN;
use vstd::arithmetic::div_mod::lemma_div_pos_is_pos;
use vstd::arithmetic::div_mod::lemma_fundamental_div_mod;
use vstd::arithmetic::div_mod::lemma_mod_bound;

verus! {

/// The normalization target for `count` sounding voices: `1 / count`,
/// or full scale when nothing sounds.
pub open spec fn mix_target_spec(count: int) -> int {
    if count > 0 {
        (MIX_ONE as int) / count
    } else {
        MIX_ONE as int
    }
}

/// One smoothing move over a remaining distance `dist`: the distance
/// times `num / den` (the one-pole coefficient `dt / (tau + dt)`),
/// rounded up to one millionth.
pub open spec fn smooth_move(dist: int, num: int, den: int) -> int {
    let mv = dist * num / den;
    if mv < 1 {
        1
    } else {
        mv
    }
}

/// The mix-gain transition rule, one sample at sample rate `rate`:
/// `num` nanoseconds pass per sample, against a 5 ms time constant.
pub open spec fn mix_step_spec(mix: int, target: int, rate: u32) -> int {
    let num = 1_000_000_000int / (rate as int);
    let den = 5_000_000 + num;
    if mix == target {
        target
    } else if mix < target {
        mix + smooth_move(target - mix, num, den)
    } else {
        mix - smooth_move(mix - target, num, den)
    }
}

proof fn lemma_smooth_move_in_range(dist: int, num: int, den: int)
    requires
        1 <= dist,
        1 <= num < den,
    ensures
        1 <= smooth_move(dist, num, den) <= dist,
{
    let mv = dist * num / den;
    lemma_fundamental_div_mod(dist * num, den);
    lemma_mod_bound(dist * num, den);
    assert(dist * num >= 1) by (nonlinear_arith)
        requires
            dist >= 1,
            num >= 1,
    ;
    lemma_div_pos_is_pos(dist * num, den);
    let rem = (dist * num) % den;
    assert(mv < dist) by (nonlinear_arith)
        requires
            dist * num == den * mv + rem,
            0 <= rem < den,
            num < den,
            1 <= dist,
            0 <= mv,
    ;
}

/// Law: one smoothing step keeps the gain between its old value and the
/// target and, unless it is already there, strictly shrinks the
/// remaining distance; the move itself never exceeds the one-pole step
/// bound `dist * dt / (tau + dt)` rounded up to a millionth.
pub proof fn lemma_mix_step_approaches(mix: int, target: int, rate: u32)
    requires
        RATE_MIN <= rate <= RATE_MAX,
    ensures
        mix <= target ==> mix <= mix_step_spec(mix, target, rate) <= target,
        target <= mix ==> target <= mix_step_spec(mix, target, rate) <= mix,
        mix != target ==> (if target >= mix_step_spec(mix, target, rate) {
            target - mix_step_spec(mix, target, rate)
        } else {
            mix_step_spec(mix, target, rate) - target
        }) < (if target >= mix {
            target - mix
        } else {
            mix - target
        }),
        mix != target ==> (if mix_step_spec(mix, target, rate) >= mix {
            mix_step_spec(mix, target, rate) - mix
        } else {
            mix - mix_step_spec(mix, target, rate)
        }) <= (if target >= mix {
            target - mix
        } else {
            mix - target
        }) * (1_000_000_000int / (rate as int)) / (5_000_000 + 1_000_000_000int / (rate as int)) + 1,
{
    let num = 1_000_000_000int / (rate as int);
    vstd::arithmetic::div_mod::lemma_div_is_ordered_by_denominator(
        1_000_000_000,
        rate as int,
        RATE_MAX as int,
    );
    vstd::arithmetic::div_mod::lemma_div_is_ordered_by_denominator(1_000_000_000, 1, rate as int);
    assert(1000 <= num <= 1_000_000_000);
    if mix < target {
        lemma_smooth_move_in_range(target - mix, num, 5_000_000 + num);
    } else if target < mix {
        lemma_smooth_move_in_range(mix - target, num, 5_000_000 + num);
    }
}

/// The gain after `n` smoothing steps toward a fixed target.
pub open spec fn mix_after(mix: int, target: int, rate: u32, n: nat) -> int
    decreases n,
{
    if n == 0 {
        mix
    } else {
        mix_after(mix_step_spec(mix, target, rate), target, rate, (n - 1) as nat)
    }
}

/// Law: toward a steady target the smoothed gain converges exactly —
/// after at least as many samples as the gain is millionths away, it
/// equals the target (in particular, `1 / voices` for a steady voice
/// count, and full scale when the engine is idle).
pub proof fn lemma_mix_converges(mix: int, target: int, rate: u32, n: nat)
    requires
        RATE_MIN <= rate <= RATE_MAX,
        n >= (if target >= mix {
            target - mix
        } else {
            mix - target
        }),
    ensures
        mix_after(mix, target, rate, n) == target,
    decreases n,
{
    if mix == target {
        if n > 0 {
            lemma_mix_converges(target, target, rate, (n - 1) as nat);
        }
    } else {
        lemma_mix_step_approaches(mix, target, rate);
        lemma_mix_converges(mix_step_spec(mix, target, rate), target, rate, (n - 1) as nat);
    }
}

/// Advance the smoothed mix gain one sample toward `target`.
pub fn mix_step(mix: u32, target: u32, rate: u32) -> (r: u32)
    requires
        mix <= MIX_ONE,
        target <= MIX_ONE,
        RATE_MIN <= rate <= RATE_MAX,
    ensures
        r == mix_step_spec(mix as int, target as int, rate),
        r <= MIX_ONE,
{
    proof {
        lemma_mix_step_approaches(mix as int, target as int, rate);
        vstd::arithmetic::div_mod::lemma_div_is_ordered_by_denominator(1_000_000_000, 1, rate as int);
    }
    let num: u64 = 1_000_000_000 / rate as u64;
    let den: u64 = 5_000_000 + num;
    if mix == target {
        target
    } else if mix < target {
        let d: u64 = (target - mix) as u64;
        proof {
            vstd::arithmetic::mul::lemma_mul_upper_bound(
                d as int,
                MIX_ONE as int,
                num as int,
                1_000_000_000,
            );
        }
        let mv: u64 = d * num / den;
        let step: u64 = if mv < 1 {
            1
        } else {
            mv
        };
        mix + step as u32
    } else {
        let d: u64 = (mix - target) as u64;
        proof {
            vstd::arithmetic::mul::lemma_mul_upper_bound(
                d as int,
                MIX_ONE as int,
                num as int,
                1_000_000_000,
            );
        }
        let mv: u64 = d * num / den;
        let step: u64 = if mv < 1 {
            1
        } else {
            mv
        };
        mix - step as u32
    }
}

/// Compute the normalization target for `count` sounding voices.
pub fn mix_target(count: usize) -> (t: u32)
    ensures
        t == mix_target_spec(count as int),
        t <= MIX_ONE,
{
    if count > 0 {
        proof {
            lemma_div_pos_is_pos(MIX_ONE as int, count as int);
            vstd::arithmetic::div_mod::lemma_div_is_ordered_by_denominator(
                MIX_ONE as int,
                1,
                count as int,
            );
        }
        (MIX_ONE as usize / count) as u32
    } else {
        MIX_ONE
    }
}

} // verus!
