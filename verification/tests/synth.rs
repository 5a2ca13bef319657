use audio_engine::SynthNode;

const FULL: i64 = 1_048_576;

fn active_count(s: &SynthNode) -> usize {
    s.voices.iter().filter(|v| v.active).count()
}

#[test]
fn construction_defaults() {
    let s = SynthNode::new(48_000);
    assert_eq!(s.sample_rate, 48_000);
    assert_eq!(s.max_voices, 8);
    assert_eq!(s.voices.len(), 8);
    assert_eq!(s.gain, 500_000);
    assert_eq!(s.mix_gain, 1_000_000);
    assert_eq!(active_count(&s), 0);
    assert!(!s.sustain_pedal);
}

#[test]
fn note_on_claims_the_first_free_slot() {
    let mut s = SynthNode::new(48_000);
    s.note_on(60, 100);
    assert_eq!(active_count(&s), 1);
    assert!(s.voices[0].active);
    assert_eq!(s.voices[0].note, 60);
    assert_eq!(s.voices[0].freq_target, 261_632);
    assert_eq!(s.voices[0].freq_current, 261_632);
    assert_eq!(s.voices[0].velocity, 100);
    assert_eq!(s.voices[0].env, 0);
    assert!(s.voices[0].gate && s.voices[0].key_down);
    s.note_on(64, 80);
    assert_eq!(active_count(&s), 2);
    assert_eq!(s.voices[1].note, 64);
}

#[test]
fn retrigger_reuses_the_voice_without_allocating() {
    let mut s = SynthNode::new(48_000);
    s.note_on(60, 100);
    let mut out = vec![0i64; 10];
    s.process(&mut out);
    assert!(s.voices[0].env > 0);
    let phase_before = s.voices[0].phase;
    s.note_on(60, 90);
    assert_eq!(active_count(&s), 1);
    assert_eq!(s.voices[0].env, 0);
    assert_eq!(s.voices[0].velocity, 90);
    assert_eq!(s.voices[0].note, 60);
    // A retrigger restarts the envelope but not the running phase.
    assert_eq!(s.voices[0].phase, phase_before);
}

#[test]
fn stealing_ties_take_the_first_slot_in_order() {
    let mut s = SynthNode::new(48_000);
    s.set_max_voices(2);
    s.note_on(60, 100);
    s.note_on(61, 100);
    assert_eq!(active_count(&s), 2);
    // Both envelopes are still zero: a tie, broken by slot order.
    s.note_on(62, 100);
    assert_eq!(active_count(&s), 2);
    assert_eq!(s.voices[0].note, 62);
    assert_eq!(s.voices[1].note, 61);
}

#[test]
fn nine_notes_into_eight_slots_steal_the_quietest() {
    let mut s = SynthNode::new(48_000);
    for k in 0..8u8 {
        s.note_on(60 + k, 100);
        let mut out = vec![0i64; 10];
        s.process(&mut out);
    }
    assert_eq!(active_count(&s), 8);
    // The earliest notes have ramped the longest; the most recently
    // triggered voice is still lowest in its attack, so it is stolen.
    for k in 0..7usize {
        assert!(s.voices[k].env > s.voices[7].env);
    }
    s.note_on(80, 100);
    assert_eq!(active_count(&s), 8);
    assert_eq!(s.voices[7].note, 80);
    assert_eq!(s.voices[0].note, 60);
}

#[test]
fn oldest_decayed_voice_is_stolen_first() {
    let mut s = SynthNode::new(48_000);
    for k in 0..8u8 {
        s.note_on(60 + k, 100);
        let mut out = vec![0i64; 10];
        s.process(&mut out);
    }
    // Release the oldest note and let it decay close to silence with a
    // fast release: it becomes the quietest voice while still active.
    s.set_adsr(5_000, 120_000, 700_000, 1_000);
    s.note_off(60);
    let mut out = vec![0i64; 15];
    s.process(&mut out);
    assert!(s.voices[0].active);
    assert!(s.voices[0].env > 0);
    for k in 1..8usize {
        assert!(s.voices[0].env < s.voices[k].env);
    }
    s.note_on(80, 100);
    assert_eq!(active_count(&s), 8);
    assert_eq!(s.voices[0].note, 80);
}

#[test]
fn sustain_pedal_holds_gates_until_released() {
    let mut s = SynthNode::new(48_000);
    s.note_on(60, 100);
    s.sustain_pedal(true);
    s.note_off(60);
    assert!(!s.voices[0].key_down);
    assert!(s.voices[0].gate);
    // Repeating the same pedal state changes nothing.
    s.sustain_pedal(true);
    assert!(s.voices[0].gate);
    s.sustain_pedal(false);
    assert!(!s.voices[0].gate);
}

#[test]
fn pedal_release_keeps_held_keys_gated() {
    let mut s = SynthNode::new(48_000);
    s.note_on(60, 100);
    s.note_on(64, 100);
    s.sustain_pedal(true);
    s.note_off(60);
    s.sustain_pedal(false);
    assert!(!s.voices[0].gate);
    assert!(s.voices[1].gate && s.voices[1].key_down);
}

#[test]
fn mix_gain_converges_to_one_with_a_single_voice() {
    let mut s = SynthNode::new(48_000);
    s.note_on(60, 127);
    // Start the smoothed gain far from its steady-state target.
    s.mix_gain = 300_000;
    for _ in 0..20 {
        let mut out = vec![0i64; 48_000];
        s.process(&mut out);
        if s.mix_gain == 1_000_000 {
            break;
        }
    }
    assert_eq!(s.mix_gain, 1_000_000);
}

#[test]
fn mix_gain_never_jumps_more_than_the_one_pole_bound() {
    let mut s = SynthNode::new(48_000);
    s.note_on(60, 127);
    s.note_on(64, 127);
    // Two sounding voices: the target is half scale. Step one sample at
    // a time and hold each move to the one-pole bound (dt = 20833 ns
    // against the 5 ms time constant), rounded up to a millionth.
    for _ in 0..2_000 {
        let before = s.mix_gain as i64;
        let mut out = vec![0i64; 1];
        s.process(&mut out);
        let after = s.mix_gain as i64;
        let dist = (before - 500_000).abs();
        assert!((after - before).abs() <= dist * 20_833 / 5_020_833 + 1);
        assert!((after - 500_000).abs() <= dist);
    }
}

#[test]
fn mix_gain_converges_to_half_with_two_voices() {
    let mut s = SynthNode::new(48_000);
    s.note_on(60, 127);
    s.note_on(64, 127);
    for _ in 0..20 {
        let mut out = vec![0i64; 48_000];
        s.process(&mut out);
        if s.mix_gain == 500_000 {
            break;
        }
    }
    assert_eq!(s.mix_gain, 500_000);
}

#[test]
fn render_ramps_up_through_the_attack() {
    let mut s = SynthNode::new(48_000);
    s.note_on(60, 100);
    let mut out = vec![0i64; 100];
    s.process(&mut out);
    assert!(out.iter().any(|&x| x != 0));
    assert!(out.iter().all(|&x| -FULL <= x && x <= FULL));
    assert!(out[0].abs() < out[49].abs());
}

#[test]
fn silence_before_any_note() {
    let mut s = SynthNode::new(48_000);
    let mut out = vec![7i64; 64];
    s.process(&mut out);
    assert!(out.iter().all(|&x| x == 0));
}

#[test]
fn released_voice_frees_its_slot_when_silent() {
    let mut s = SynthNode::new(48_000);
    s.set_adsr(0, 120_000, 700_000, 0);
    s.note_on(60, 100);
    let mut out = vec![0i64; 1];
    s.process(&mut out);
    assert_eq!(s.voices[0].env, 1_000_000);
    s.note_off(60);
    let mut out2 = vec![0i64; 1];
    s.process(&mut out2);
    assert_eq!(s.voices[0].env, 0);
    assert!(!s.voices[0].active);
    assert_eq!(active_count(&s), 0);
}

#[test]
fn resize_preserves_existing_voices() {
    let mut s = SynthNode::new(48_000);
    s.note_on(60, 100);
    s.note_on(64, 100);
    s.set_max_voices(16);
    assert_eq!(s.voices.len(), 16);
    assert_eq!(s.voices[0].note, 60);
    assert_eq!(s.voices[1].note, 64);
    assert_eq!(active_count(&s), 2);
    s.set_max_voices(1);
    assert_eq!(s.voices.len(), 1);
    assert_eq!(s.voices[0].note, 60);
    // Out-of-range requests clamp.
    s.set_max_voices(0);
    assert_eq!(s.voices.len(), 1);
    s.set_max_voices(1000);
    assert_eq!(s.voices.len(), 32);
}

#[test]
fn waveform_codes_select_shapes_with_a_sine_fallback() {
    let mut s = SynthNode::new(48_000);
    s.set_waveform(1);
    assert_eq!(s.waveform, audio_engine::Waveform::Square);
    s.set_waveform(3);
    assert_eq!(s.waveform, audio_engine::Waveform::Triangle);
    s.set_waveform(99);
    assert_eq!(s.waveform, audio_engine::Waveform::Sine);
}

#[test]
fn parameter_setters_clamp_defensively() {
    let mut s = SynthNode::new(48_000);
    s.set_gain(5_000_000);
    assert_eq!(s.gain, 1_000_000);
    s.set_adsr(u64::MAX, u64::MAX, u32::MAX, u64::MAX);
    assert_eq!(s.adsr.attack_us, 1_000_000_000_000);
    assert_eq!(s.adsr.sustain, 1_000_000);
    s.set_glide(250);
    assert_eq!(s.glide_us, 250_000);
}

#[test]
fn glide_approaches_a_new_target_from_below() {
    let mut s = SynthNode::new(48_000);
    s.set_glide(100);
    s.note_on(33, 100);
    // With glide on, a fresh voice starts from the 20 Hz floor.
    assert_eq!(s.voices[0].freq_current, 20_000);
    let target = s.voices[0].freq_target;
    let mut out = vec![0i64; 4_800];
    s.process(&mut out);
    assert!(s.voices[0].freq_current > 20_000);
    assert!(s.voices[0].freq_current <= target);
}
