//! The per-sample render model: what one tick of the engine does to
//! every voice, what each voice contributes to the block mix, and what
//! a whole run of samples produces.
//!
//! Each sample, every sounding voice glides its frequency, advances its
//! envelope (a voice whose gate is down and whose envelope reaches zero
//! frees its slot), yields its oscillator sample scaled by envelope and
//! velocity, and advances its phase. The voice sum is then scaled by
//! the master gain and the smoothed normalization gain, and clamped to
//! full scale.

use vstd::prelude::*;
use crate::envelope::Adsr;
use crate::envelope::env_step_spec;
use crate::envelope::lemma_env_step_in_range;
use crate::glide::glide_step_spec;
use crate::mixer::mix_step_spec;
use crate::mixer::mix_target_spec;
use crate::units::AMP_ONE;
use crate::units::ENV_ONE;
use crate::units::GAIN_ONE;
use crate::units::GLIDE_CAP_US;
use crate::units::PHASE_TURN;
use crate::units::RATE_MAX;
use crate::units::RATE_MIN;
use crate::voice::Voice;
use crate::waveform::Waveform;
use crate::waveform::lemma_wave_val_bounds;
use crate::waveform::wave_val;
use vstd::arithmetic::div_mod::lemma_div_by_multiple;
use vstd::arithmetic::div_mod::lemma_div_is_ordered;
use vstd::arithmetic::div_mod::lemma_div_pos_is_pos;
use vstd::arithmetic::mul::lemma_mul_upper_bound;

verus! {

/// The timbre parameters one render tick reads (they never change
/// during a render call).
#[derive(Clone, Copy, PartialEq, Eq, Structural)]
pub struct RenderParams {
    pub waveform: Waveform,
    pub adsr: Adsr,
    pub glide_us: u64,
    pub gain: u32,
    pub sample_rate: u32,
}

impl RenderParams {
    /// The parameter ranges the pool's well-formedness keeps.
    pub open spec fn valid(self) -> bool {
        &&& RATE_MIN <= self.sample_rate <= RATE_MAX
        &&& self.adsr.valid()
        &&& self.glide_us <= GLIDE_CAP_US
        &&& self.gain <= GAIN_ONE
    }
}

/// A slot the render loop passes over: unallocated and silent.
pub open spec fn skip_voice(v: Voice) -> bool {
    !v.active && v.env == 0
}

/// A phase accumulator advanced by one sample of frequency `freq`
/// millihertz: `freq / 1000` turns per second, as a 32-bit turn
/// fraction, wrapped.
pub open spec fn phase_advanced(phase: u32, freq: int, rate: int) -> int {
    (phase + (freq * (PHASE_TURN as int)) / (rate * 1000)) % (PHASE_TURN as int)
}

/// One render tick of a single voice: glide, envelope (freeing the
/// slot when an ungated envelope reaches zero), phase advance.
pub open spec fn ticked_voice(p: RenderParams, v: Voice) -> Voice {
    if skip_voice(v) {
        v
    } else {
        let f = glide_step_spec(
            v.freq_current as int,
            v.freq_target as int,
            p.glide_us as int,
            p.sample_rate,
        );
        let e = env_step_spec(v.env as int, v.gate, p.adsr, p.sample_rate);
        Voice {
            freq_current: f as u64,
            env: e as u32,
            active: if !v.gate && e == 0 {
                false
            } else {
                v.active
            },
            phase: phase_advanced(v.phase, f, p.sample_rate as int) as u32,
            ..v
        }
    }
}

/// What one voice adds to the sample sum this tick: its oscillator
/// sample (at the phase before the advance) scaled by its envelope
/// (after this tick's update) and its velocity.
pub open spec fn voice_out(p: RenderParams, v: Voice) -> int {
    if skip_voice(v) {
        0
    } else {
        let e = env_step_spec(v.env as int, v.gate, p.adsr, p.sample_rate);
        let w = wave_val(p.waveform, v.phase);
        if w >= 0 {
            w * e * v.velocity / 127_000_000
        } else {
            -((-w) * e * v.velocity / 127_000_000)
        }
    }
}

/// Whether a voice counts toward normalization this tick: it was not
/// skipped, and after its update it is still allocated or still
/// carries envelope energy.
pub open spec fn counted_voice(p: RenderParams, v: Voice) -> bool {
    !skip_voice(v) && (ticked_voice(p, v).active || ticked_voice(p, v).env > 0)
}

/// One render tick applied to every voice slot.
pub open spec fn ticked_seq(p: RenderParams, vs: Seq<Voice>) -> Seq<Voice> {
    vs.map_values(|v: Voice| ticked_voice(p, v))
}

/// The sample sum over the voice slots.
pub open spec fn acc_of(p: RenderParams, vs: Seq<Voice>) -> int
    decreases vs.len(),
{
    if vs.len() == 0 {
        0
    } else {
        acc_of(p, vs.drop_last()) + voice_out(p, vs.last())
    }
}

/// How many voices count toward normalization this tick.
pub open spec fn count_of(p: RenderParams, vs: Seq<Voice>) -> int
    decreases vs.len(),
{
    if vs.len() == 0 {
        0
    } else {
        count_of(p, vs.drop_last()) + if counted_voice(p, vs.last()) {
            1int
        } else {
            0int
        }
    }
}

/// The output sample built from a voice sum: scaled by the master gain
/// and the smoothed mix gain (both millionths), clamped to full scale.
pub open spec fn out_sample_spec(acc: int, gain: int, mix: int) -> int {
    let m0 = if acc >= 0 {
        acc
    } else {
        -acc
    };
    let m1 = m0 * gain / 1_000_000;
    let m2 = m1 * mix / 1_000_000;
    let m3 = if m2 > AMP_ONE {
        AMP_ONE as int
    } else {
        m2
    };
    if acc >= 0 {
        m3
    } else {
        -m3
    }
}

/// The engine state — voice slots and mix gain — after `n` render
/// ticks.
pub open spec fn render_n(p: RenderParams, vs: Seq<Voice>, mix: int, n: nat) -> (Seq<Voice>, int)
    decreases n,
{
    if n == 0 {
        (vs, mix)
    } else {
        let prev = render_n(p, vs, mix, (n - 1) as nat);
        (
            ticked_seq(p, prev.0),
            mix_step_spec(prev.1, mix_target_spec(count_of(p, prev.0)), p.sample_rate),
        )
    }
}

/// The output sample the engine writes on tick `j` (counting from 0) of
/// a render that starts from voices `vs` and mix gain `mix`.
pub open spec fn sample_n(p: RenderParams, vs: Seq<Voice>, mix: int, j: nat) -> int {
    let st = render_n(p, vs, mix, j);
    out_sample_spec(
        acc_of(p, st.0),
        p.gain as int,
        mix_step_spec(st.1, mix_target_spec(count_of(p, st.0)), p.sample_rate),
    )
}

/// One voice's contribution stays within one full-scale sample.
pub proof fn lemma_voice_out_bounds(p: RenderParams, v: Voice)
    requires
        p.valid(),
        v.valid(),
    ensures
        -(AMP_ONE as int) <= voice_out(p, v) <= AMP_ONE,
{
    if !skip_voice(v) {
        let e = env_step_spec(v.env as int, v.gate, p.adsr, p.sample_rate);
        let w = wave_val(p.waveform, v.phase);
        lemma_env_step_in_range(v.env as int, v.gate, p.adsr, p.sample_rate);
        lemma_wave_val_bounds(p.waveform, v.phase);
        let wm = if w >= 0 {
            w
        } else {
            -w
        };
        lemma_mul_upper_bound(wm, AMP_ONE as int, e, ENV_ONE as int);
        assert(wm * e >= 0) by (nonlinear_arith)
            requires
                wm >= 0,
                e >= 0,
        ;
        lemma_mul_upper_bound(wm * e, AMP_ONE * (ENV_ONE as int), v.velocity as int, 127);
        assert(wm * e * v.velocity >= 0) by (nonlinear_arith)
            requires
                wm * e >= 0,
                v.velocity >= 0,
        ;
        lemma_div_is_ordered(
            wm * e * v.velocity,
            (AMP_ONE as int) * 127_000_000,
            127_000_000,
        );
        lemma_div_by_multiple(AMP_ONE as int, 127_000_000);
        assert((AMP_ONE as int) * (ENV_ONE as int) * 127 == (AMP_ONE as int) * 127_000_000);
        lemma_div_pos_is_pos(wm * e * v.velocity, 127_000_000);
    }
}

/// A counted-voice total never exceeds the number of slots.
pub proof fn lemma_count_of_bounds(p: RenderParams, vs: Seq<Voice>)
    ensures
        0 <= count_of(p, vs) <= vs.len(),
    decreases vs.len(),
{
    if vs.len() > 0 {
        lemma_count_of_bounds(p, vs.drop_last());
    }
}

/// The output sample stays within full scale for any voice sum.
pub proof fn lemma_out_sample_bounds(acc: int, gain: int, mix: int)
    requires
        0 <= gain,
        0 <= mix,
    ensures
        -(AMP_ONE as int) <= out_sample_spec(acc, gain, mix) <= AMP_ONE,
{
    let m0 = if acc >= 0 {
        acc
    } else {
        -acc
    };
    assert(m0 * gain >= 0) by (nonlinear_arith)
        requires
            m0 >= 0,
            gain >= 0,
    ;
    lemma_div_pos_is_pos(m0 * gain, 1_000_000);
    let m1 = m0 * gain / 1_000_000;
    assert(m1 * mix >= 0) by (nonlinear_arith)
        requires
            m1 >= 0,
            mix >= 0,
    ;
    lemma_div_pos_is_pos(m1 * mix, 1_000_000);
}

} // verus!
