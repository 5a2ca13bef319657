use audio_engine::waveform::wave_sample;
use audio_engine::Waveform;

const FULL: i64 = 1_048_576;
const HALF_TURN: u32 = 2_147_483_648;
const QUARTER_TURN: u32 = 1_073_741_824;

#[test]
fn sawtooth_ramps_across_the_turn() {
    assert_eq!(wave_sample(Waveform::Sawtooth, 0), -FULL);
    assert_eq!(wave_sample(Waveform::Sawtooth, HALF_TURN), 0);
    assert_eq!(wave_sample(Waveform::Sawtooth, u32::MAX), FULL - 1);
}

#[test]
fn triangle_rises_then_falls() {
    assert_eq!(wave_sample(Waveform::Triangle, 0), -FULL);
    assert_eq!(wave_sample(Waveform::Triangle, QUARTER_TURN), 0);
    assert_eq!(wave_sample(Waveform::Triangle, HALF_TURN), FULL);
    assert_eq!(wave_sample(Waveform::Triangle, HALF_TURN + QUARTER_TURN), 0);
}

#[test]
fn square_is_negative_at_phase_zero_and_positive_inside_first_half() {
    assert_eq!(wave_sample(Waveform::Square, 0), -FULL);
    assert_eq!(wave_sample(Waveform::Square, 1), FULL);
    assert_eq!(wave_sample(Waveform::Square, HALF_TURN - 1), FULL);
    assert_eq!(wave_sample(Waveform::Square, HALF_TURN), -FULL);
}

#[test]
fn sine_hits_its_zero_crossings_and_peaks() {
    assert_eq!(wave_sample(Waveform::Sine, 0), 0);
    assert_eq!(wave_sample(Waveform::Sine, QUARTER_TURN), FULL);
    assert_eq!(wave_sample(Waveform::Sine, HALF_TURN), 0);
    assert_eq!(wave_sample(Waveform::Sine, HALF_TURN + QUARTER_TURN), -FULL);
}

#[test]
fn every_shape_stays_within_full_scale() {
    let shapes = [Waveform::Sine, Waveform::Square, Waveform::Sawtooth, Waveform::Triangle];
    for w in shapes.iter() {
        let mut phase: u32 = 0;
        loop {
            let v = wave_sample(*w, phase);
            assert!(-FULL <= v && v <= FULL);
            let (next, wrapped) = phase.overflowing_add(10_000_019);
            phase = next;
            if wrapped {
                break;
            }
        }
    }
}
