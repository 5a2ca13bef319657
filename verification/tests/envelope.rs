use audio_engine::envelope::env_step;
use audio_engine::Adsr;

fn default_adsr() -> Adsr {
    Adsr { attack_us: 5_000, decay_us: 120_000, sustain: 700_000, release_us: 120_000 }
}

#[test]
fn zero_attack_snaps_to_full_scale_in_one_step() {
    let a = Adsr { attack_us: 0, decay_us: 120_000, sustain: 700_000, release_us: 120_000 };
    assert_eq!(env_step(0, true, &a, 48_000), 1_000_000);
    assert_eq!(env_step(123_456, true, &a, 48_000), 1_000_000);
}

#[test]
fn zero_release_snaps_to_zero_in_one_step() {
    let a = Adsr { attack_us: 5_000, decay_us: 120_000, sustain: 700_000, release_us: 0 };
    assert_eq!(env_step(1_000_000, false, &a, 48_000), 0);
    assert_eq!(env_step(1, false, &a, 48_000), 0);
}

#[test]
fn default_attack_step_is_exact() {
    // 5 ms attack at 48 kHz: full scale over 240 samples, rounded up.
    assert_eq!(env_step(0, true, &default_adsr(), 48_000), 4_167);
}

#[test]
fn default_decay_step_is_exact() {
    // 120 ms decay at 48 kHz over the 0.3 span above sustain.
    assert_eq!(env_step(1_000_000, true, &default_adsr(), 48_000), 999_947);
}

#[test]
fn default_release_step_is_exact() {
    assert_eq!(env_step(700_000, false, &default_adsr(), 48_000), 699_826);
}

#[test]
fn attack_keeps_ramping_between_sustain_and_full_scale() {
    assert_eq!(env_step(700_000, true, &default_adsr(), 48_000), 704_167);
}

#[test]
fn zero_decay_snaps_to_sustain_from_full_scale() {
    let a = Adsr { attack_us: 5_000, decay_us: 0, sustain: 700_000, release_us: 120_000 };
    assert_eq!(env_step(1_000_000, true, &a, 48_000), 700_000);
}

#[test]
fn holds_at_full_sustain_while_gated() {
    let a = Adsr { attack_us: 5_000, decay_us: 120_000, sustain: 1_000_000, release_us: 120_000 };
    assert_eq!(env_step(1_000_000, true, &a, 48_000), 1_000_000);
}

#[test]
fn attack_clamps_at_full_scale() {
    assert_eq!(env_step(999_999, true, &default_adsr(), 48_000), 1_000_000);
}

#[test]
fn release_clamps_at_zero() {
    assert_eq!(env_step(100, false, &default_adsr(), 48_000), 0);
}

#[test]
fn level_never_leaves_range_under_gate_toggles() {
    let shapes = [
        Adsr { attack_us: 0, decay_us: 0, sustain: 1_000_000, release_us: 0 },
        Adsr { attack_us: 1, decay_us: 1, sustain: 0, release_us: 1 },
        Adsr { attack_us: 5_000, decay_us: 120_000, sustain: 700_000, release_us: 120_000 },
        Adsr { attack_us: 1_000_000_000_000, decay_us: 1, sustain: 333_333, release_us: 7 },
    ];
    for a in shapes.iter() {
        let mut env: u32 = 0;
        for i in 0..5_000u32 {
            let gate = (i / 7) % 3 != 0;
            env = env_step(env, gate, a, 48_000);
            assert!(env <= 1_000_000);
        }
    }
}
