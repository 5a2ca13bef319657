use audio_engine::midi_to_freq;

#[test]
fn concert_pitch_is_exact() {
    assert_eq!(midi_to_freq(69), 440_000);
}

#[test]
fn octave_above_concert_pitch_doubles() {
    assert_eq!(midi_to_freq(81), 880_000);
}

#[test]
fn every_octave_doubles() {
    for note in 0u8..=115 {
        assert_eq!(midi_to_freq(note + 12), 2 * midi_to_freq(note));
    }
}

#[test]
fn middle_c_matches_table() {
    // 261.632 Hz: the equal-tempered middle C rounded to the engine's grid.
    assert_eq!(midi_to_freq(60), 261_632);
}

#[test]
fn lowest_key_matches_table() {
    assert_eq!(midi_to_freq(0), 8_176);
}

#[test]
fn keys_above_midi_range_are_held_at_the_top() {
    assert_eq!(midi_to_freq(200), midi_to_freq(127));
    assert_eq!(midi_to_freq(127), 12_544_000);
}

#[test]
fn frequency_grows_with_key() {
    for note in 0u8..127 {
        assert!(midi_to_freq(note) < midi_to_freq(note + 1));
    }
}
