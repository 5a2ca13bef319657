//! The polyphonic voice pool: note dispatch, voice stealing, pedal
//! semantics, shared timbre parameters, and the per-sample render path.

use vstd::prelude::*;
use vstd::pervasive::VecAdditionalExecFns;
use crate::envelope::Adsr;
use crate::envelope::env_step;
use crate::glide::glide_step;
use crate::mixer::mix_step;
use crate::mixer::mix_step_spec;
use crate::mixer::mix_target;
use crate::mixer::mix_target_spec;
use crate::tuning::midi_to_freq;
use crate::tuning::note_freq_millihz;
use crate::units::AMP_ONE;
use crate::units::ENV_ONE;
use crate::units::GAIN_ONE;
use crate::units::GLIDE_CAP_US;
use crate::units::GLIDE_FLOOR_MILLIHZ;
use crate::units::MIX_ONE;
use crate::units::RATE_MAX;
use crate::units::RATE_MIN;
use crate::units::TIME_CAP_US;
use crate::render::RenderParams;
use crate::render::acc_of;
use crate::render::count_of;
use crate::render::counted_voice;
use crate::render::lemma_count_of_bounds;
use crate::render::lemma_out_sample_bounds;
use crate::render::lemma_voice_out_bounds;
use crate::render::out_sample_spec;
use crate::render::render_n;
use crate::render::sample_n;
use crate::render::skip_voice;
use crate::render::ticked_seq;
use crate::render::ticked_voice;
use crate::render::voice_out;
use vstd::arithmetic::mul::lemma_mul_upper_bound;
use crate::voice::Voice;
use crate::waveform::Waveform;
use crate::waveform::waveform_of_code;
use crate::waveform::wave_sample;

verus! {

/// The polyphonic synthesizer: a fixed-capacity pool of voices plus the
/// timbre parameters they share.
pub struct SynthNode {
    pub sample_rate: u32,
    pub waveform: Waveform,
    pub gain: u32,
    pub adsr: Adsr,
    pub glide_us: u64,
    pub max_voices: usize,
    pub voices: Vec<Voice>,
    pub mix_gain: u32,
    pub sustain_pedal: bool,
}

/// A MIDI velocity byte clamped into its seven-bit range.
pub open spec fn clamped_velocity(velocity: u8) -> u8 {
    if velocity > 127 {
        127
    } else {
        velocity
    }
}

/// Whether voice `v` is an active holder of key `note`.
pub open spec fn holds_note(v: Voice, note: u8) -> bool {
    v.active && v.note == note
}

/// Whether some voice in `vs` actively holds `note`.
pub open spec fn any_holding(vs: Seq<Voice>, note: u8) -> bool {
    exists|i: int| 0 <= i < vs.len() && holds_note(vs[i], note)
}

/// Whether some slot in `vs` is free.
pub open spec fn any_free(vs: Seq<Voice>) -> bool {
    exists|i: int| 0 <= i < vs.len() && !vs[i].active
}

/// `i` is the first slot of `vs` actively holding `note`.
pub open spec fn is_first_holding(vs: Seq<Voice>, note: u8, i: int) -> bool {
    &&& 0 <= i < vs.len()
    &&& holds_note(vs[i], note)
    &&& forall|j: int| 0 <= j < i ==> !holds_note(vs[j], note)
}

/// `i` is the first free slot of `vs`.
pub open spec fn is_first_free(vs: Seq<Voice>, i: int) -> bool {
    &&& 0 <= i < vs.len()
    &&& !vs[i].active
    &&& forall|j: int| 0 <= j < i ==> vs[j].active
}

/// `i` is the slot of `vs` with the lowest envelope level, the first
/// such slot when several tie.
pub open spec fn is_quietest(vs: Seq<Voice>, i: int) -> bool {
    &&& 0 <= i < vs.len()
    &&& forall|j: int| 0 <= j < vs.len() ==> vs[i].env <= #[trigger] vs[j].env
    &&& forall|j: int| 0 <= j < i ==> vs[i].env < #[trigger] vs[j].env
}

/// A voice retriggered in place by a repeated note-on for the key it
/// already holds: gate raised, envelope restarted from zero, frequency
/// target renewed (snapped when glide is off), velocity renewed. Its
/// phase keeps running.
pub open spec fn retriggered(v: Voice, freq: u64, vel: u8, glide_us: u64) -> Voice {
    Voice {
        key_down: true,
        gate: true,
        freq_target: freq,
        freq_current: if glide_us == 0 {
            freq
        } else {
            v.freq_current
        },
        env: 0,
        velocity: vel,
        ..v
    }
}

/// A slot claimed for a fresh note: everything reset, the starting
/// frequency snapped to the target when glide is off, otherwise the
/// slot's previous frequency floored at 20 Hz.
pub open spec fn started(v: Voice, note: u8, freq: u64, vel: u8, glide_us: u64) -> Voice {
    Voice {
        note: note,
        active: true,
        key_down: true,
        gate: true,
        freq_target: freq,
        freq_current: if glide_us == 0 {
            freq
        } else if v.freq_current < GLIDE_FLOOR_MILLIHZ {
            GLIDE_FLOOR_MILLIHZ
        } else {
            v.freq_current
        },
        env: 0,
        phase: 0,
        velocity: vel,
    }
}

/// What a note-off for `note` does to one voice: an active holder of
/// the key loses `key_down`, and loses its gate unless the sustain
/// pedal is held; other voices are untouched.
pub open spec fn released(v: Voice, note: u8, pedal: bool) -> Voice {
    if holds_note(v, note) {
        Voice {
            key_down: false,
            gate: if pedal {
                v.gate
            } else {
                false
            },
            ..v
        }
    } else {
        v
    }
}

/// What a pedal change to `down` does to one voice: on the release
/// transition, every voice whose key is up loses its gate; any other
/// change leaves voices untouched.
pub open spec fn pedal_changed(v: Voice, was: bool, down: bool) -> Voice {
    if was == down {
        v
    } else if !down && !v.key_down {
        Voice { gate: false, ..v }
    } else {
        v
    }
}

/// How many slots of `vs` are allocated to a note.
pub open spec fn count_active(vs: Seq<Voice>) -> int
    decreases vs.len(),
{
    if vs.len() == 0 {
        0
    } else {
        count_active(vs.drop_last()) + if vs.last().active {
            1int
        } else {
            0int
        }
    }
}

/// Replacing a slot by a voice with the same allocation flag leaves the
/// active count unchanged.
pub proof fn lemma_update_same_active_count(vs: Seq<Voice>, i: int, v: Voice)
    requires
        0 <= i < vs.len(),
        v.active == vs[i].active,
    ensures
        count_active(vs.update(i, v)) == count_active(vs),
    decreases vs.len(),
{
    let vs2 = vs.update(i, v);
    if i == vs.len() - 1 {
        assert(vs2.drop_last() =~= vs.drop_last());
    } else {
        assert(vs2.drop_last() =~= vs.drop_last().update(i, v));
        lemma_update_same_active_count(vs.drop_last(), i, v);
    }
}

/// Law: a repeated note-on for a key that is already sounding
/// retriggers that voice in place — the count of active slots does not
/// change, because the retriggered voice keeps its allocation flag.
pub proof fn lemma_retrigger_keeps_active_count(
    vs: Seq<Voice>,
    note: u8,
    i: int,
    freq: u64,
    vel: u8,
    glide_us: u64,
)
    requires
        is_first_holding(vs, note, i),
    ensures
        count_active(vs.update(i, retriggered(vs[i], freq, vel, glide_us))) == count_active(vs),
{
    lemma_update_same_active_count(vs, i, retriggered(vs[i], freq, vel, glide_us));
}

impl SynthNode {
    /// What every control and render call preserves: parameters within
    /// their clamped ranges, the pool exactly at its capacity with every
    /// voice valid, and no key held by two active voices at once.
    pub open spec fn wf(self) -> bool {
        &&& RATE_MIN <= self.sample_rate <= RATE_MAX
        &&& self.gain <= GAIN_ONE
        &&& self.adsr.valid()
        &&& self.glide_us <= GLIDE_CAP_US
        &&& 1 <= self.max_voices <= 32
        &&& self.voices@.len() == self.max_voices
        &&& forall|i: int| 0 <= i < self.voices@.len() ==> (#[trigger] self.voices@[i]).valid()
        &&& self.mix_gain <= MIX_ONE
        &&& forall|i: int, j: int|
            0 <= i < j < self.voices@.len() && self.voices@[i].active && self.voices@[j].active
                ==> (#[trigger] self.voices@[i]).note != (#[trigger] self.voices@[j]).note
    }

    /// A fresh engine at the given sample rate (clamped to the machine
    /// range): eight silent voices, sawtooth, half gain, a soft default
    /// envelope, no glide, pedal up, mix gain at full scale.
    pub fn new(sample_rate: u32) -> (s: SynthNode)
        ensures
            s.wf(),
            s.sample_rate == (if sample_rate < RATE_MIN {
                RATE_MIN
            } else if sample_rate > RATE_MAX {
                RATE_MAX
            } else {
                sample_rate
            }),
            s.waveform == Waveform::Sawtooth,
            s.gain == 500_000,
            s.adsr == (Adsr { attack_us: 5_000, decay_us: 120_000, sustain: 700_000, release_us: 120_000 }),
            s.glide_us == 0,
            s.max_voices == 8,
            s.voices@.len() == 8,
            forall|i: int| 0 <= i < 8 ==> s.voices@[i] == Voice::inactive_spec(),
            s.mix_gain == MIX_ONE,
            !s.sustain_pedal,
    {
        let rate: u32 = if sample_rate < RATE_MIN {
            RATE_MIN
        } else if sample_rate > RATE_MAX {
            RATE_MAX
        } else {
            sample_rate
        };
        let mut voices: Vec<Voice> = Vec::new();
        let mut i: usize = 0;
        while i < 8
            invariant
                i <= 8,
                voices@.len() == i,
                forall|k: int| 0 <= k < i ==> voices@[k] == Voice::inactive_spec(),
            decreases 8 - i,
        {
            voices.push(Voice::new());
            i = i + 1;
        }
        SynthNode {
            sample_rate: rate,
            waveform: Waveform::Sawtooth,
            gain: 500_000,
            adsr: Adsr { attack_us: 5_000, decay_us: 120_000, sustain: 700_000, release_us: 120_000 },
            glide_us: 0,
            max_voices: 8,
            voices: voices,
            mix_gain: MIX_ONE,
            sustain_pedal: false,
        }
    }

    /// Select the waveform by its code (0 sine, 1 square, 2 sawtooth,
    /// 3 triangle; anything else falls back to sine).
    pub fn set_waveform(&mut self, waveform: u32)
        requires
            old(self).wf(),
        ensures
            final(self).wf(),
            final(self).waveform == waveform_of_code(waveform),
            *final(self) == (SynthNode { waveform: final(self).waveform, ..*old(self) }),
    {
        self.waveform = if waveform == 1 {
            Waveform::Square
        } else if waveform == 2 {
            Waveform::Sawtooth
        } else if waveform == 3 {
            Waveform::Triangle
        } else {
            Waveform::Sine
        };
    }

    /// Set the envelope constants: attack, decay and release in
    /// microseconds (held at the defensive cap), sustain in millionths
    /// of full scale (clamped to full scale).
    pub fn set_adsr(&mut self, attack_us: u64, decay_us: u64, sustain: u32, release_us: u64)
        requires
            old(self).wf(),
        ensures
            final(self).wf(),
            final(self).adsr == (Adsr {
                attack_us: if attack_us > TIME_CAP_US {
                    TIME_CAP_US
                } else {
                    attack_us
                },
                decay_us: if decay_us > TIME_CAP_US {
                    TIME_CAP_US
                } else {
                    decay_us
                },
                sustain: if sustain > ENV_ONE {
                    ENV_ONE
                } else {
                    sustain
                },
                release_us: if release_us > TIME_CAP_US {
                    TIME_CAP_US
                } else {
                    release_us
                },
            }),
            *final(self) == (SynthNode { adsr: final(self).adsr, ..*old(self) }),
    {
        self.adsr = Adsr {
            attack_us: if attack_us > TIME_CAP_US {
                TIME_CAP_US
            } else {
                attack_us
            },
            decay_us: if decay_us > TIME_CAP_US {
                TIME_CAP_US
            } else {
                decay_us
            },
            sustain: if sustain > ENV_ONE {
                ENV_ONE
            } else {
                sustain
            },
            release_us: if release_us > TIME_CAP_US {
                TIME_CAP_US
            } else {
                release_us
            },
        };
    }

    /// Set the glide time constant in milliseconds.
    pub fn set_glide(&mut self, time_ms: u32)
        requires
            old(self).wf(),
        ensures
            final(self).wf(),
            final(self).glide_us == time_ms * 1000,
            *final(self) == (SynthNode { glide_us: final(self).glide_us, ..*old(self) }),
    {
        self.glide_us = time_ms as u64 * 1000;
    }

    /// Set the master gain in millionths of full scale (clamped).
    pub fn set_gain(&mut self, gain: u32)
        requires
            old(self).wf(),
        ensures
            final(self).wf(),
            final(self).gain == (if gain > GAIN_ONE {
                GAIN_ONE
            } else {
                gain
            }),
            *final(self) == (SynthNode { gain: final(self).gain, ..*old(self) }),
    {
        self.gain = if gain > GAIN_ONE {
            GAIN_ONE
        } else {
            gain
        };
    }

    /// Start (or retrigger) the key `note` at the given velocity.
    ///
    /// If an active voice already holds the key, that voice — the first
    /// such slot — is retriggered in place, so the key never sounds
    /// twice and the count of active voices does not change. Otherwise
    /// the first free slot is claimed; and when every slot is busy, the
    /// slot with the lowest envelope level (the quietest, ties broken
    /// by slot order) is stolen and restarted.
    pub fn note_on(&mut self, note: u8, velocity: u8)
        requires
            old(self).wf(),
        ensures
            final(self).wf(),
            final(self).voices@.len() == old(self).voices@.len(),
            any_holding(old(self).voices@, note) ==> exists|i: int|
                #[trigger] is_first_holding(old(self).voices@, note, i)
                    && final(self).voices@ == old(self).voices@.update(
                    i,
                    retriggered(
                        old(self).voices@[i],
                        note_freq_millihz(note) as u64,
                        clamped_velocity(velocity),
                        old(self).glide_us,
                    ),
                ),
            !any_holding(old(self).voices@, note) && any_free(old(self).voices@) ==> exists|i: int|
                #[trigger] is_first_free(old(self).voices@, i)
                    && final(self).voices@ == old(self).voices@.update(
                    i,
                    started(
                        old(self).voices@[i],
                        note,
                        note_freq_millihz(note) as u64,
                        clamped_velocity(velocity),
                        old(self).glide_us,
                    ),
                ),
            !any_holding(old(self).voices@, note) && !any_free(old(self).voices@) ==> exists|i: int|
                #[trigger] is_quietest(old(self).voices@, i)
                    && final(self).voices@ == old(self).voices@.update(
                    i,
                    started(
                        old(self).voices@[i],
                        note,
                        note_freq_millihz(note) as u64,
                        clamped_velocity(velocity),
                        old(self).glide_us,
                    ),
                ),
            *final(self) == (SynthNode { voices: final(self).voices, ..*old(self) }),
    {
        let freq: u64 = midi_to_freq(note);
        let vel: u8 = if velocity > 127 {
            127
        } else {
            velocity
        };
        let n: usize = self.voices.len();

        // Reuse the voice already holding this key, if any.
        let mut i: usize = 0;
        while i < n && !(self.voices[i].active && self.voices[i].note == note)
            invariant
                old(self).wf(),
                *self == *old(self),
                i <= n,
                n == old(self).voices@.len(),
                forall|k: int| 0 <= k < i ==> !holds_note(#[trigger] old(self).voices@[k], note),
            decreases n - i,
        {
            i = i + 1;
        }
        if i < n {
            let v = self.voices[i];
            let mut v2 = v;
            v2.key_down = true;
            v2.gate = true;
            v2.freq_target = freq;
            if self.glide_us == 0 {
                v2.freq_current = freq;
            }
            v2.env = 0;
            v2.velocity = vel;
            self.voices.set(i, v2);
            proof {
                let ov = old(self).voices@;
                assert(is_first_holding(ov, note, i as int));
                assert(v2 == retriggered(ov[i as int], freq, vel, old(self).glide_us));
                assert(self.voices@ == ov.update(
                    i as int,
                    retriggered(
                        ov[i as int],
                        note_freq_millihz(note) as u64,
                        clamped_velocity(velocity),
                        old(self).glide_us,
                    ),
                ));
                assert forall|a: int, b: int|
                    0 <= a < b < self.voices@.len() && self.voices@[a].active
                        && self.voices@[b].active implies (#[trigger] self.voices@[a]).note != (
                #[trigger] self.voices@[b]).note by {
                    assert(self.voices@[a].note == ov[a].note && self.voices@[a].active
                        == ov[a].active);
                    assert(self.voices@[b].note == ov[b].note && self.voices@[b].active
                        == ov[b].active);
                }
            }
            return ;
        }
        assert(forall|k: int| 0 <= k < n ==> !holds_note(#[trigger] old(self).voices@[k], note));
        assert(!any_holding(old(self).voices@, note));

        // Claim the first free slot, if any.
        let mut j: usize = 0;
        while j < n && self.voices[j].active
            invariant
                old(self).wf(),
                *self == *old(self),
                j <= n,
                n == old(self).voices@.len(),
                forall|k: int| 0 <= k < j ==> (#[trigger] old(self).voices@[k]).active,
            decreases n - j,
        {
            j = j + 1;
        }
        let target: usize;
        if j < n {
            target = j;
            proof {
                assert(is_first_free(old(self).voices@, j as int));
            }
        } else {
            // Every slot is busy: steal the quietest voice.
            assert(forall|k: int| 0 <= k < n ==> (#[trigger] old(self).voices@[k]).active);
            assert(!any_free(old(self).voices@));
            let mut best: usize = 0;
            let mut k: usize = 1;
            while k < n
                invariant
                    old(self).wf(),
                    *self == *old(self),
                    1 <= k <= n,
                    n == old(self).voices@.len(),
                    n >= 1,
                    best < k,
                    forall|t: int| 0 <= t < k
                        ==> old(self).voices@[best as int].env <= (
                        #[trigger] old(self).voices@[t]).env,
                    forall|t: int| 0 <= t < best
                        ==> old(self).voices@[best as int].env < (
                        #[trigger] old(self).voices@[t]).env,
                decreases n - k,
            {
                if self.voices[k].env < self.voices[best].env {
                    best = k;
                }
                k = k + 1;
            }
            target = best;
            proof {
                assert(is_quietest(old(self).voices@, best as int));
            }
        }
        let v = self.voices[target];
        let fc: u64 = if self.glide_us == 0 {
            freq
        } else if v.freq_current < GLIDE_FLOOR_MILLIHZ {
            GLIDE_FLOOR_MILLIHZ
        } else {
            v.freq_current
        };
        let v2 = Voice {
            note: note,
            active: true,
            key_down: true,
            gate: true,
            freq_target: freq,
            freq_current: fc,
            env: 0,
            phase: 0,
            velocity: vel,
        };
        self.voices.set(target, v2);
        proof {
            let ov = old(self).voices@;
            assert(v2 == started(
                ov[target as int],
                note,
                note_freq_millihz(note) as u64,
                clamped_velocity(velocity),
                old(self).glide_us,
            ));
            assert(self.voices@ == ov.update(
                target as int,
                started(
                    ov[target as int],
                    note,
                    note_freq_millihz(note) as u64,
                    clamped_velocity(velocity),
                    old(self).glide_us,
                ),
            ));
            assert forall|a: int, b: int|
                0 <= a < b < self.voices@.len() && self.voices@[a].active
                    && self.voices@[b].active implies (#[trigger] self.voices@[a]).note != (
            #[trigger] self.voices@[b]).note by {
                if a != target as int && b != target as int {
                    assert(self.voices@[a] == ov[a]);
                    assert(self.voices@[b] == ov[b]);
                } else if a == target as int {
                    assert(self.voices@[b] == ov[b]);
                    assert(!holds_note(ov[b], note));
                } else {
                    assert(self.voices@[a] == ov[a]);
                    assert(!holds_note(ov[a], note));
                }
            }
        }
    }

    /// Release the key `note`: every active voice holding it loses
    /// `key_down`, and loses its envelope gate unless the sustain pedal
    /// is down.
    pub fn note_off(&mut self, note: u8)
        requires
            old(self).wf(),
        ensures
            final(self).wf(),
            final(self).voices@.len() == old(self).voices@.len(),
            forall|i: int| 0 <= i < old(self).voices@.len()
                ==> final(self).voices@[i] == released(#[trigger] old(self).voices@[i], note, old(self).sustain_pedal),
            *final(self) == (SynthNode { voices: final(self).voices, ..*old(self) }),
    {
        let n: usize = self.voices.len();
        let mut i: usize = 0;
        while i < n
            invariant
                old(self).wf(),
                i <= n,
                n == old(self).voices@.len(),
                self.voices@.len() == n,
                forall|k: int| 0 <= k < i
                    ==> self.voices@[k] == released(#[trigger] old(self).voices@[k], note, old(self).sustain_pedal),
                forall|k: int| i <= k < n ==> self.voices@[k] == old(self).voices@[k],
                forall|k: int| 0 <= k < n ==> (#[trigger] self.voices@[k]).valid(),
                forall|k: int| 0 <= k < n
                    ==> (#[trigger] self.voices@[k]).active == old(self).voices@[k].active
                        && self.voices@[k].note == old(self).voices@[k].note,
                *self == (SynthNode { voices: self.voices, ..*old(self) }),
            decreases n - i,
        {
            let v = self.voices[i];
            if v.active && v.note == note {
                let mut v2 = v;
                v2.key_down = false;
                if !self.sustain_pedal {
                    v2.gate = false;
                }
                self.voices.set(i, v2);
            }
            i = i + 1;
        }
    }

    /// Move the sustain pedal. A repeated state changes nothing;
    /// pressing only arms the pedal; releasing immediately clears the
    /// gate of every voice whose key is no longer held.
    pub fn sustain_pedal(&mut self, down: bool)
        requires
            old(self).wf(),
        ensures
            final(self).wf(),
            final(self).sustain_pedal == down,
            final(self).voices@.len() == old(self).voices@.len(),
            forall|i: int| 0 <= i < old(self).voices@.len()
                ==> final(self).voices@[i] == pedal_changed(#[trigger] old(self).voices@[i], old(self).sustain_pedal, down),
            *final(self) == (SynthNode {
                voices: final(self).voices,
                sustain_pedal: down,
                ..*old(self)
            }),
    {
        if self.sustain_pedal == down {
            return ;
        }
        self.sustain_pedal = down;
        if !down {
            let n: usize = self.voices.len();
            let mut i: usize = 0;
            while i < n
                invariant
                    old(self).wf(),
                    old(self).sustain_pedal != down,
                    !down,
                    i <= n,
                    n == old(self).voices@.len(),
                    self.voices@.len() == n,
                    forall|k: int| 0 <= k < i
                        ==> self.voices@[k] == pedal_changed(#[trigger] old(self).voices@[k], old(self).sustain_pedal, down),
                    forall|k: int| i <= k < n ==> self.voices@[k] == old(self).voices@[k],
                    forall|k: int| 0 <= k < n ==> (#[trigger] self.voices@[k]).valid(),
                    forall|k: int| 0 <= k < n
                        ==> (#[trigger] self.voices@[k]).active == old(self).voices@[k].active
                            && self.voices@[k].note == old(self).voices@[k].note,
                    *self == (SynthNode {
                        voices: self.voices,
                        sustain_pedal: down,
                        ..*old(self)
                    }),
                decreases n - i,
            {
                let v = self.voices[i];
                if !v.key_down {
                    let mut v2 = v;
                    v2.gate = false;
                    self.voices.set(i, v2);
                } else {
                    self.voices.set(i, v);
                }
                i = i + 1;
            }
        }
    }

    /// Change the polyphony, clamped into `[1, 32]`: existing voices are
    /// kept up to the new capacity, any excess is dropped, and any new
    /// slots start silent.
    pub fn set_max_voices(&mut self, max: u32)
        requires
            old(self).wf(),
        ensures
            final(self).wf(),
            final(self).max_voices == (if max < 1 {
                1
            } else if max > 32 {
                32
            } else {
                max as usize
            }),
            final(self).voices@.len() == final(self).max_voices,
            forall|i: int| 0 <= i < old(self).voices@.len() && i < final(self).max_voices
                ==> final(self).voices@[i] == old(self).voices@[i],
            forall|i: int| old(self).voices@.len() <= i < final(self).max_voices
                ==> final(self).voices@[i] == Voice::inactive_spec(),
            *final(self) == (SynthNode {
                voices: final(self).voices,
                max_voices: final(self).max_voices,
                ..*old(self)
            }),
    {
        let m: usize = if max < 1 {
            1
        } else if max > 32 {
            32
        } else {
            max as usize
        };
        self.max_voices = m;
        while self.voices.len() > m
            invariant
                old(self).wf(),
                m <= 32,
                self.voices@.len() >= m || self.voices@.len() == old(self).voices@.len(),
                self.voices@.len() <= old(self).voices@.len(),
                forall|k: int| 0 <= k < self.voices@.len() ==> self.voices@[k] == old(self).voices@[k],
                *self == (SynthNode { voices: self.voices, max_voices: m, ..*old(self) }),
            decreases self.voices@.len(),
        {
            self.voices.pop();
        }
        while self.voices.len() < m
            invariant
                old(self).wf(),
                1 <= m <= 32,
                self.voices@.len() <= m,
                self.voices@.len() >= old(self).voices@.len() || self.voices@.len() >= m,
                forall|k: int| 0 <= k < self.voices@.len() && k < old(self).voices@.len()
                    ==> self.voices@[k] == old(self).voices@[k],
                forall|k: int| old(self).voices@.len() <= k < self.voices@.len()
                    ==> self.voices@[k] == Voice::inactive_spec(),
                *self == (SynthNode { voices: self.voices, max_voices: m, ..*old(self) }),
            decreases m - self.voices@.len(),
        {
            self.voices.push(Voice::new());
        }
        proof {
            assert forall|i: int, j: int|
                0 <= i < j < self.voices@.len() && self.voices@[i].active
                    && self.voices@[j].active implies (#[trigger] self.voices@[i]).note != (
            #[trigger] self.voices@[j]).note by {
                assert(j < old(self).voices@.len());
                assert(i < old(self).voices@.len());
                assert(self.voices@[i] == old(self).voices@[i]);
                assert(self.voices@[j] == old(self).voices@[j]);
            }
            assert forall|i: int| 0 <= i < self.voices@.len() implies (
            #[trigger] self.voices@[i]).valid() by {
                if i < old(self).voices@.len() {
                    assert(self.voices@[i] == old(self).voices@[i]);
                } else {
                    assert(self.voices@[i] == Voice::inactive_spec());
                }
            }
        }
    }

    /// The timbre parameters a render tick reads.
    pub open spec fn params(self) -> RenderParams {
        RenderParams {
            waveform: self.waveform,
            adsr: self.adsr,
            glide_us: self.glide_us,
            gain: self.gain,
            sample_rate: self.sample_rate,
        }
    }

    /// Render one output sample: advance every sounding voice (glide,
    /// envelope, oscillator phase), sum their contributions, advance
    /// the smoothed normalization gain toward `1 / voices`, and return
    /// the sum scaled by master gain and mix gain, clamped to full
    /// scale.
    pub fn render_sample(&mut self) -> (out: i64)
        requires
            old(self).wf(),
        ensures
            final(self).wf(),
            final(self).voices@ == ticked_seq(old(self).params(), old(self).voices@),
            final(self).mix_gain as int == mix_step_spec(
                old(self).mix_gain as int,
                mix_target_spec(count_of(old(self).params(), old(self).voices@)),
                old(self).sample_rate,
            ),
            out == out_sample_spec(
                acc_of(old(self).params(), old(self).voices@),
                old(self).gain as int,
                final(self).mix_gain as int,
            ),
            -(AMP_ONE as int) <= out <= AMP_ONE,
            *final(self) == (SynthNode {
                voices: final(self).voices,
                mix_gain: final(self).mix_gain,
                ..*old(self)
            }),
    {
        let ghost p = old(self).params();
        let rate: u32 = self.sample_rate;
        let a: Adsr = self.adsr;
        let glide: u64 = self.glide_us;
        let shape: Waveform = self.waveform;
        let n: usize = self.voices.len();
        let mut acc: i64 = 0;
        let mut cnt: usize = 0;
        let mut i: usize = 0;
        while i < n
            invariant
                old(self).wf(),
                p == old(self).params(),
                rate == old(self).sample_rate,
                a == old(self).adsr,
                glide == old(self).glide_us,
                shape == old(self).waveform,
                n == old(self).voices@.len(),
                self.voices@.len() == n,
                n <= 32,
                i <= n,
                cnt <= i,
                forall|k: int| 0 <= k < i
                    ==> self.voices@[k] == ticked_voice(p, #[trigger] old(self).voices@[k]),
                forall|k: int| i <= k < n ==> self.voices@[k] == old(self).voices@[k],
                forall|k: int| 0 <= k < i ==> (#[trigger] self.voices@[k]).valid(),
                forall|k: int| 0 <= k < i
                    ==> (#[trigger] self.voices@[k]).note == old(self).voices@[k].note
                        && (self.voices@[k].active ==> old(self).voices@[k].active),
                acc as int == acc_of(p, old(self).voices@.take(i as int)),
                cnt as int == count_of(p, old(self).voices@.take(i as int)),
                -(i as int) * (AMP_ONE as int) <= acc as int <= (i as int) * (AMP_ONE as int),
                *self == (SynthNode { voices: self.voices, ..*old(self) }),
            decreases n - i,
        {
            let ghost prefix = old(self).voices@.take(i as int);
            let ghost prefix2 = old(self).voices@.take(i + 1);
            proof {
                assert(prefix2.drop_last() =~= prefix);
                assert(prefix2.last() == old(self).voices@[i as int]);
                lemma_voice_out_bounds(p, old(self).voices@[i as int]);
            }
            let v = self.voices[i];
            if v.active || v.env > 0 {
                let f: u64 = glide_step(v.freq_current, v.freq_target, glide, rate);
                let e: u32 = env_step(v.env, v.gate, &a, rate);
                let w: i64 = wave_sample(shape, v.phase);
                let vel64: u64 = v.velocity as u64;
                if w >= 0 {
                    proof {
                        lemma_mul_upper_bound(w as int, AMP_ONE as int, e as int, ENV_ONE as int);
                        lemma_mul_upper_bound(
                            (w as int) * (e as int),
                            (AMP_ONE as int) * (ENV_ONE as int),
                            vel64 as int,
                            127,
                        );
                    }
                    let m: u64 = (w as u64) * (e as u64) * vel64 / 127_000_000;
                    proof {
                        assert(m as int == voice_out(p, old(self).voices@[i as int]));
                    }
                    acc = acc + m as i64;
                } else {
                    proof {
                        lemma_mul_upper_bound(
                            (-w) as int,
                            AMP_ONE as int,
                            e as int,
                            ENV_ONE as int,
                        );
                        lemma_mul_upper_bound(
                            ((-w) as int) * (e as int),
                            (AMP_ONE as int) * (ENV_ONE as int),
                            vel64 as int,
                            127,
                        );
                    }
                    let m: u64 = ((-w) as u64) * (e as u64) * vel64 / 127_000_000;
                    proof {
                        assert(-(m as int) == voice_out(p, old(self).voices@[i as int]));
                    }
                    acc = acc - m as i64;
                }
                let active2: bool = if !v.gate && e == 0 {
                    false
                } else {
                    v.active
                };
                let pnum: u64 = f * 4_294_967_296u64;
                let den: u64 = rate as u64 * 1000;
                proof {
                    vstd::arithmetic::div_mod::lemma_div_is_ordered_by_denominator(
                        pnum as int,
                        1,
                        den as int,
                    );
                }
                let pinc: u64 = pnum / den;
                let sum: u64 = v.phase as u64 + pinc;
                let ph: u32 = (sum % 4_294_967_296u64) as u32;
                let v2 = Voice { freq_current: f, env: e, active: active2, phase: ph, ..v };
                self.voices.set(i, v2);
                if v2.active || v2.env > 0 {
                    cnt = cnt + 1;
                }
                proof {
                    assert(v2 == ticked_voice(p, old(self).voices@[i as int]));
                }
            } else {
                proof {
                    assert(skip_voice(old(self).voices@[i as int]));
                    assert(voice_out(p, old(self).voices@[i as int]) == 0);
                    assert(!counted_voice(p, old(self).voices@[i as int]));
                    assert(self.voices@[i as int] == ticked_voice(
                        p,
                        old(self).voices@[i as int],
                    ));
                }
            }
            i = i + 1;
        }
        proof {
            assert(old(self).voices@.take(n as int) =~= old(self).voices@);
            assert forall|k: int| 0 <= k < n implies #[trigger] ticked_seq(p, old(self).voices@)[k]
                == self.voices@[k] by {
                assert(ticked_seq(p, old(self).voices@)[k] == ticked_voice(
                    p,
                    old(self).voices@[k],
                ));
            }
            assert(self.voices@ =~= ticked_seq(p, old(self).voices@));
            lemma_count_of_bounds(p, old(self).voices@);
        }
        let tgt: u32 = mix_target(cnt);
        let mg: u32 = mix_step(self.mix_gain, tgt, rate);
        self.mix_gain = mg;
        let g: u32 = self.gain;
        proof {
            lemma_out_sample_bounds(acc as int, g as int, mg as int);
        }
        let neg: bool = acc < 0;
        let m0: u64 = if neg {
            (-acc) as u64
        } else {
            acc as u64
        };
        proof {
            lemma_mul_upper_bound(m0 as int, 32 * (AMP_ONE as int), g as int, GAIN_ONE as int);
        }
        let m1: u64 = m0 * g as u64 / 1_000_000;
        proof {
            vstd::arithmetic::div_mod::lemma_div_is_ordered(
                (m0 as int) * (g as int),
                32 * (AMP_ONE as int) * 1_000_000,
                1_000_000,
            );
            vstd::arithmetic::div_mod::lemma_div_by_multiple(32 * (AMP_ONE as int), 1_000_000);
            lemma_mul_upper_bound(m1 as int, 32 * (AMP_ONE as int), mg as int, MIX_ONE as int);
        }
        let m2: u64 = m1 * mg as u64 / 1_000_000;
        let m3: u64 = if m2 > 1_048_576u64 {
            1_048_576u64
        } else {
            m2
        };
        if neg {
            -(m3 as i64)
        } else {
            m3 as i64
        }
    }

    /// Render a whole block: overwrite every entry of `output` with the
    /// next sample, in order. The samples and the state evolution are
    /// exactly those of repeated single-sample renders.
    pub fn process(&mut self, output: &mut Vec<i64>)
        requires
            old(self).wf(),
        ensures
            final(self).wf(),
            final(output).len() == old(output).len(),
            final(self).voices@ == render_n(
                old(self).params(),
                old(self).voices@,
                old(self).mix_gain as int,
                old(output).len() as nat,
            ).0,
            final(self).mix_gain as int == render_n(
                old(self).params(),
                old(self).voices@,
                old(self).mix_gain as int,
                old(output).len() as nat,
            ).1,
            forall|j: int| 0 <= j < old(output).len()
                ==> final(output)@[j] == sample_n(
                    old(self).params(),
                    old(self).voices@,
                    old(self).mix_gain as int,
                    j as nat,
                ),
            forall|j: int| 0 <= j < old(output).len()
                ==> -(AMP_ONE as int) <= #[trigger] final(output)@[j] <= AMP_ONE,
            *final(self) == (SynthNode {
                voices: final(self).voices,
                mix_gain: final(self).mix_gain,
                ..*old(self)
            }),
    {
        let ghost p = old(self).params();
        let ghost ov = old(self).voices@;
        let ghost omix = old(self).mix_gain as int;
        let n: usize = output.len();
        let mut j: usize = 0;
        while j < n
            invariant
                old(self).wf(),
                self.wf(),
                p == old(self).params(),
                j <= n,
                output@.len() == n,
                n == old(output)@.len(),
                self.voices@ == render_n(p, ov, omix, j as nat).0,
                self.mix_gain as int == render_n(p, ov, omix, j as nat).1,
                ov == old(self).voices@,
                omix == old(self).mix_gain as int,
                forall|k: int| 0 <= k < j ==> #[trigger] output@[k] == sample_n(
                    p,
                    ov,
                    omix,
                    k as nat,
                ),
                forall|k: int| 0 <= k < j
                    ==> -(AMP_ONE as int) <= #[trigger] output@[k] <= AMP_ONE,
                *self == (SynthNode {
                    voices: self.voices,
                    mix_gain: self.mix_gain,
                    ..*old(self)
                }),
            decreases n - j,
        {
            let ghost pre = *self;
            let s: i64 = self.render_sample();
            output.set(j, s);
            proof {
                assert(pre.params() == p);
                assert(render_n(p, ov, omix, (j + 1) as nat).0 == ticked_seq(p, pre.voices@));
                assert(s == sample_n(p, ov, omix, j as nat));
            }
            j = j + 1;
        }
    }
}

} // verus!
