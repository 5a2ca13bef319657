//! Pitch glide: a one-pole exponential approach of the sounding
//! frequency toward its target, one step per sample.
//!
//! Frequencies are millihertz. Each sample the frequency moves by the
//! remaining distance times `dt / glide_time` (never more than the whole
//! distance); with no glide time, or a step that covers the distance, it
//! snaps to the target. A nonzero move is rounded up to one millihertz,
//! so the approach always makes progress and reaches the target in
//! finitely many samples.

use vstd::prelude::*;
use crate::units::FREQ_CAP_MILLIHZ;
use crate::units::GLIDE_CAP_US;
use crate::units::RATE_MAX;
use crate::units::RATE_MIN;
use vstd::arithmetic::div_mod::lemma_div_pos_is_pos;
use vstd::arithmetic::div_mod::lemma_fundamental_div_mod;
use vstd::arithmetic::div_mod::lemma_mod_bound;
use vstd::arithmetic::mul::lemma_mul_upper_bound;

verus! {

/// One glide step: `den = glide_us * rate` is the glide time in
/// microsecond-samples; a step moves `dist * 1_000_000 / den` millihertz
/// (the remaining distance times `dt / glide_time`), at least one.
pub open spec fn glide_move(dist: int, den: int) -> int {
    let mv = dist * 1_000_000 / den;
    if mv < 1 {
        1
    } else {
        mv
    }
}

/// The glide transition rule, one sample at sample rate `rate`.
pub open spec fn glide_step_spec(cur: int, tgt: int, glide_us: int, rate: u32) -> int {
    let den = glide_us * rate;
    if den <= 1_000_000 {
        tgt
    } else if cur == tgt {
        tgt
    } else if cur < tgt {
        cur + glide_move(tgt - cur, den)
    } else {
        cur - glide_move(cur - tgt, den)
    }
}

proof fn lemma_move_keeps_distance(dist: int, den: int)
    requires
        1 <= dist,
        1_000_000 < den,
    ensures
        1 <= glide_move(dist, den) <= dist,
{
    let mv = dist * 1_000_000 / den;
    lemma_fundamental_div_mod(dist * 1_000_000, den);
    lemma_mod_bound(dist * 1_000_000, den);
    assert(dist * 1_000_000 >= 1_000_000) by (nonlinear_arith)
        requires
            dist >= 1,
    ;
    lemma_div_pos_is_pos(dist * 1_000_000, den);
    let rem = (dist * 1_000_000) % den;
    assert(mv < dist) by (nonlinear_arith)
        requires
            dist * 1_000_000 == den * mv + rem,
            0 <= rem < den,
            1_000_000 < den,
            1 <= dist,
            0 <= mv,
    ;
}

/// Advance a glided frequency one sample.
///
/// The result follows the transition rule exactly; in particular it
/// stays between the old frequency and the target, snaps to the target
/// when glide is off, and otherwise strictly shrinks the remaining
/// distance until it reaches the target.
pub fn glide_step(cur: u64, tgt: u64, glide_us: u64, rate: u32) -> (r: u64)
    requires
        cur <= FREQ_CAP_MILLIHZ,
        tgt <= FREQ_CAP_MILLIHZ,
        glide_us <= GLIDE_CAP_US,
        RATE_MIN <= rate <= RATE_MAX,
    ensures
        r == glide_step_spec(cur as int, tgt as int, glide_us as int, rate),
        cur <= tgt ==> cur <= r <= tgt,
        tgt <= cur ==> tgt <= r <= cur,
        r <= FREQ_CAP_MILLIHZ,
        glide_us == 0 ==> r == tgt,
        r == tgt || (if tgt >= r {
            tgt - r
        } else {
            r - tgt
        }) < (if tgt >= cur {
            tgt - cur
        } else {
            cur - tgt
        }),
{
    proof {
        lemma_mul_upper_bound(glide_us as int, GLIDE_CAP_US as int, rate as int, RATE_MAX as int);
    }
    let den: u64 = glide_us * rate as u64;
    if den <= 1_000_000 {
        tgt
    } else if cur == tgt {
        tgt
    } else if cur < tgt {
        let d: u64 = tgt - cur;
        proof {
            lemma_move_keeps_distance(d as int, den as int);
        }
        let mv: u64 = d * 1_000_000 / den;
        let step: u64 = if mv < 1 {
            1
        } else {
            mv
        };
        cur + step
    } else {
        let d: u64 = cur - tgt;
        proof {
            lemma_move_keeps_distance(d as int, den as int);
        }
        let mv: u64 = d * 1_000_000 / den;
        let step: u64 = if mv < 1 {
            1
        } else {
            mv
        };
        cur - step
    }
}

} // verus!
