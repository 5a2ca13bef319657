//! ADSR envelope generator: one level update per sample.
//!
//! The level lives in `[0, ENV_ONE]` (millionths of full scale). Each
//! sample, a gated voice first ramps up toward full scale (attack), then
//! down toward the sustain level (decay), and holds there; an ungated
//! voice ramps down toward zero (release). A zero time constant makes
//! its phase instantaneous. Ramp steps are rounded up to one millionth,
//! so every phase finishes in finitely many samples.

use vstd::prelude::*;
use crate::units::ENV_ONE;
use crate::units::RATE_MAX;
use crate::units::RATE_MIN;
use crate::units::TIME_CAP_US;
use vstd::arithmetic::mul::lemma_mul_upper_bound;

verus! {

/// The envelope's timing constants: attack, decay and release lengths in
/// microseconds, and the sustain level in millionths of full scale.
#[derive(Clone, Copy, PartialEq, Eq, Structural, Debug)]
pub struct Adsr {
    pub attack_us: u64,
    pub decay_us: u64,
    pub sustain: u32,
    pub release_us: u64,
}

impl Adsr {
    /// The constants the setters keep: times within the defensive cap,
    /// sustain within full scale.
    pub open spec fn valid(self) -> bool {
        &&& self.attack_us <= TIME_CAP_US
        &&& self.decay_us <= TIME_CAP_US
        &&& self.release_us <= TIME_CAP_US
        &&& self.sustain <= ENV_ONE
    }
}

/// Quotient rounded up (for positive divisors).
pub open spec fn ceil_div(num: int, den: int) -> int {
    (num + den - 1) / den
}

/// Millionths gained per sample in attack: the full range over
/// `attack_us * rate` microsecond-samples, rounded up.
pub open spec fn attack_step(a: Adsr, rate: u32) -> int {
    ceil_div(1_000_000_000_000, a.attack_us * rate)
}

/// Millionths lost per sample in decay: the range above sustain over
/// `decay_us * rate`, rounded up.
pub open spec fn decay_step(a: Adsr, rate: u32) -> int {
    ceil_div((ENV_ONE - a.sustain) * 1_000_000, a.decay_us * rate)
}

/// Millionths lost per sample in release.
pub open spec fn release_step(a: Adsr, rate: u32) -> int {
    ceil_div(1_000_000_000_000, a.release_us * rate)
}

/// The envelope transition rule, one sample at sample rate `rate`.
pub open spec fn env_step_spec(env: int, gate: bool, a: Adsr, rate: u32) -> int {
    if gate {
        if env < ENV_ONE {
            if a.attack_us == 0 {
                ENV_ONE as int
            } else if env + attack_step(a, rate) >= ENV_ONE {
                ENV_ONE as int
            } else {
                env + attack_step(a, rate)
            }
        } else if env > a.sustain {
            if a.decay_us == 0 {
                a.sustain as int
            } else if env - decay_step(a, rate) <= a.sustain {
                a.sustain as int
            } else {
                env - decay_step(a, rate)
            }
        } else {
            env
        }
    } else {
        if a.release_us == 0 {
            0
        } else if env - release_step(a, rate) <= 0 {
            0
        } else {
            env - release_step(a, rate)
        }
    }
}

proof fn lemma_time_product_bounds(us: u64, rate: u32)
    requires
        1 <= us <= TIME_CAP_US,
        RATE_MIN <= rate <= RATE_MAX,
    ensures
        1 <= us * rate <= 1_000_000_000_000_000_000,
{
    lemma_mul_upper_bound(us as int, TIME_CAP_US as int, rate as int, RATE_MAX as int);
    assert(1 <= us * rate) by (nonlinear_arith)
        requires
            1 <= us,
            1 <= rate,
    ;
}

proof fn lemma_ceil_div_pos(num: int, den: int)
    requires
        num >= 1,
        den >= 1,
    ensures
        ceil_div(num, den) >= 1,
{
    vstd::arithmetic::div_mod::lemma_div_is_ordered(den, num + den - 1, den);
    assert(den / den == 1) by (nonlinear_arith)
        requires
            den >= 1,
    ;
}

/// Law: one step never leaves `[0, ENV_ONE]`, for any gate value and
/// any valid timing constants.
pub proof fn lemma_env_step_in_range(env: int, gate: bool, a: Adsr, rate: u32)
    requires
        0 <= env <= ENV_ONE,
        a.valid(),
        RATE_MIN <= rate <= RATE_MAX,
    ensures
        0 <= env_step_spec(env, gate, a, rate) <= ENV_ONE,
{
    if gate {
        if env < ENV_ONE && a.attack_us != 0 {
            lemma_time_product_bounds(a.attack_us, rate);
            lemma_ceil_div_pos(1_000_000_000_000, a.attack_us * rate);
        } else if env >= ENV_ONE && env > a.sustain && a.decay_us != 0 {
            lemma_time_product_bounds(a.decay_us, rate);
            vstd::arithmetic::div_mod::lemma_div_pos_is_pos(
                (ENV_ONE - a.sustain) * 1_000_000 + a.decay_us * rate - 1,
                a.decay_us * rate,
            );
        }
    } else {
        if a.release_us != 0 {
            lemma_time_product_bounds(a.release_us, rate);
            vstd::arithmetic::div_mod::lemma_div_pos_is_pos(
                1_000_000_000_000 + a.release_us * rate - 1,
                a.release_us * rate,
            );
        }
    }
}

/// The level after a run of samples whose gate values are `gates`,
/// applied in order.
pub open spec fn env_after(env: int, gates: Seq<bool>, a: Adsr, rate: u32) -> int
    decreases gates.len(),
{
    if gates.len() == 0 {
        env
    } else {
        env_after(env_step_spec(env, gates[0], a, rate), gates.drop_first(), a, rate)
    }
}

/// Law: the envelope never leaves `[0, ENV_ONE]` under any sequence of
/// gate toggles and any valid constants.
pub proof fn lemma_env_never_leaves_range(env: int, gates: Seq<bool>, a: Adsr, rate: u32)
    requires
        0 <= env <= ENV_ONE,
        a.valid(),
        RATE_MIN <= rate <= RATE_MAX,
    ensures
        0 <= env_after(env, gates, a, rate) <= ENV_ONE,
    decreases gates.len(),
{
    if gates.len() > 0 {
        lemma_env_step_in_range(env, gates[0], a, rate);
        lemma_env_never_leaves_range(
            env_step_spec(env, gates[0], a, rate),
            gates.drop_first(),
            a,
            rate,
        );
    }
}

/// Advance an envelope level one sample.
///
/// Besides following the transition rule exactly, the contract pins the
/// instantaneous cases: a zero attack while gated snaps a rising level
/// straight to full scale, and a zero release while ungated snaps any
/// level straight to zero.
pub fn env_step(env: u32, gate: bool, a: &Adsr, rate: u32) -> (r: u32)
    requires
        env <= ENV_ONE,
        a.valid(),
        RATE_MIN <= rate <= RATE_MAX,
    ensures
        r == env_step_spec(env as int, gate, *a, rate),
        r <= ENV_ONE,
        gate && a.attack_us == 0 && env < ENV_ONE ==> r == ENV_ONE,
        !gate && a.release_us == 0 ==> r == 0,
        !gate ==> r <= env,
{
    proof {
        lemma_env_step_in_range(env as int, gate, *a, rate);
    }
    if gate {
        if env < ENV_ONE {
            if a.attack_us == 0 {
                ENV_ONE
            } else {
                proof {
                    lemma_time_product_bounds(a.attack_us, rate);
                }
                let den: u64 = a.attack_us * rate as u64;
                let step: u64 = (1_000_000_000_000u64 + den - 1) / den;
                let lifted: u64 = env as u64 + step;
                if lifted >= ENV_ONE as u64 {
                    ENV_ONE
                } else {
                    lifted as u32
                }
            }
        } else if env > a.sustain {
            if a.decay_us == 0 {
                a.sustain
            } else {
                proof {
                    lemma_time_product_bounds(a.decay_us, rate);
                }
                let den: u64 = a.decay_us * rate as u64;
                let span: u64 = (ENV_ONE - a.sustain) as u64 * 1_000_000;
                let step: u64 = (span + den - 1) / den;
                if step >= (env - a.sustain) as u64 {
                    a.sustain
                } else {
                    env - step as u32
                }
            }
        } else {
            env
        }
    } else {
        if a.release_us == 0 {
            0
        } else {
            proof {
                lemma_time_product_bounds(a.release_us, rate);
            }
            let den: u64 = a.release_us * rate as u64;
            let step: u64 = (1_000_000_000_000u64 + den - 1) / den;
            if step >= env as u64 {
                0
            } else {
                env - step as u32
            }
        }
    }
}

} // verus!
