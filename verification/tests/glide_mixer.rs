use audio_engine::glide::glide_step;
use audio_engine::mixer::mix_step;
use audio_engine::mixer::mix_target;

#[test]
fn no_glide_snaps_to_target() {
    assert_eq!(glide_step(440_000, 880_000, 0, 48_000), 880_000);
}

#[test]
fn glide_moves_the_one_pole_fraction() {
    // 100 ms glide at 48 kHz: 440 Hz of distance moves by
    // 440000 * 1e6 / (100000 * 48000) millihertz, rounded down.
    assert_eq!(glide_step(440_000, 880_000, 100_000, 48_000), 440_091);
    assert_eq!(glide_step(880_000, 440_000, 100_000, 48_000), 879_909);
}

#[test]
fn glide_shorter_than_one_sample_snaps() {
    // glide_us * rate <= 1e6: the per-sample fraction reaches 1.
    assert_eq!(glide_step(440_000, 880_000, 20, 48_000), 880_000);
}

#[test]
fn glide_reaches_its_target_and_never_overshoots() {
    let mut f: u64 = 20_000;
    let target: u64 = 261_632;
    let mut steps: u64 = 0;
    while f != target {
        let next = glide_step(f, target, 5_000, 48_000);
        assert!(f < next && next <= target);
        f = next;
        steps += 1;
        assert!(steps < 10_000_000);
    }
}

#[test]
fn mix_target_divides_full_scale() {
    assert_eq!(mix_target(0), 1_000_000);
    assert_eq!(mix_target(1), 1_000_000);
    assert_eq!(mix_target(3), 333_333);
    assert_eq!(mix_target(8), 125_000);
}

#[test]
fn mix_step_moves_the_one_pole_fraction() {
    // At 48 kHz: dt is 20833 ns against the 5 ms time constant.
    assert_eq!(mix_step(1_000_000, 500_000, 48_000), 997_926);
}

#[test]
fn mix_gain_converges_to_a_steady_target() {
    let mut mix: u32 = 1_000_000;
    let mut steps: u64 = 0;
    while mix != 500_000 {
        let next = mix_step(mix, 500_000, 48_000);
        assert!(next < mix && next >= 500_000);
        mix = next;
        steps += 1;
        assert!(steps <= 500_000);
    }
}
