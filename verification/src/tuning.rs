//! Equal-tempered tuning: key number to frequency in millihertz.
//!
//! The tuning anchors key 69 at 440 Hz and doubles every twelve keys.
//! A key's frequency is a per-semitone base value (the frequency of the
//! key's pitch class in the engine's lowest octave, rounded to one
//! millihertz) scaled up by a power of two, so octave doubling is exact
//! and every key's value is within half a millihertz of the lowest-octave
//! table times an exact power of two.

use vstd::prelude::*;
use crate::units::FREQ_CAP_MILLIHZ;
use vstd::arithmetic::div_mod::lemma_fundamental_div_mod;
use vstd::arithmetic::div_mod::lemma_fundamental_div_mod_converse;
use vstd::arithmetic::div_mod::lemma_mod_bound;

verus! {

/// Millihertz of pitch class `r` (semitones above C) in the engine's
/// lowest octave, whose A is 6875 millihertz (440 Hz divided by 64).
pub open spec fn semitone_base(r: int) -> int {
    if r == 0 {
        6875
    } else if r == 1 {
        7284
    } else if r == 2 {
        7717
    } else if r == 3 {
        8176
    } else if r == 4 {
        8662
    } else if r == 5 {
        9177
    } else if r == 6 {
        9723
    } else if r == 7 {
        10301
    } else if r == 8 {
        10913
    } else if r == 9 {
        11562
    } else if r == 10 {
        12250
    } else {
        12978
    }
}

/// 2 to the power of the octave index `s`, for `0 <= s <= 10`.
pub open spec fn octave_scale(s: int) -> int {
    if s <= 0 {
        1
    } else if s == 1 {
        2
    } else if s == 2 {
        4
    } else if s == 3 {
        8
    } else if s == 4 {
        16
    } else if s == 5 {
        32
    } else if s == 6 {
        64
    } else if s == 7 {
        128
    } else if s == 8 {
        256
    } else if s == 9 {
        512
    } else {
        1024
    }
}

/// Frequency of MIDI key `note` in millihertz, with keys above the MIDI
/// range held at key 127. A key sits `note + 3` semitones above the
/// engine's lowest C, which splits into a pitch class `(note + 3) % 12`
/// and an octave `(note + 3) / 12`.
pub open spec fn note_freq_millihz(note: u8) -> int {
    let k = if note > 127 { 127 as int } else { note as int };
    semitone_base((k + 3) % 12) * octave_scale((k + 3) / 12)
}

fn semitone_base_u(r: u32) -> (b: u64)
    requires
        r < 12,
    ensures
        b == semitone_base(r as int),
{
    if r == 0 {
        6875
    } else if r == 1 {
        7284
    } else if r == 2 {
        7717
    } else if r == 3 {
        8176
    } else if r == 4 {
        8662
    } else if r == 5 {
        9177
    } else if r == 6 {
        9723
    } else if r == 7 {
        10301
    } else if r == 8 {
        10913
    } else if r == 9 {
        11562
    } else if r == 10 {
        12250
    } else {
        12978
    }
}

fn octave_scale_u(s: u32) -> (m: u64)
    requires
        s <= 10,
    ensures
        m == octave_scale(s as int),
{
    if s == 0 {
        1
    } else if s == 1 {
        2
    } else if s == 2 {
        4
    } else if s == 3 {
        8
    } else if s == 4 {
        16
    } else if s == 5 {
        32
    } else if s == 6 {
        64
    } else if s == 7 {
        128
    } else if s == 8 {
        256
    } else if s == 9 {
        512
    } else {
        1024
    }
}

/// Frequency of MIDI key `note` in millihertz: 440 Hz at key 69, exactly
/// doubling every octave, never above the 128-key cap.
pub fn midi_to_freq(note: u8) -> (f: u64)
    ensures
        f == note_freq_millihz(note),
        6875 <= f <= FREQ_CAP_MILLIHZ,
{
    let n: u8 = if note > 127 { 127 } else { note };
    let t: u32 = n as u32 + 3;
    let r: u32 = t % 12;
    let s: u32 = t / 12;
    proof {
        lemma_mod_bound(t as int, 12);
        lemma_fundamental_div_mod(t as int, 12);
        assert(12 * (s as int) <= t as int);
        assert(s <= 10);
    }
    let b: u64 = semitone_base_u(r);
    let m: u64 = octave_scale_u(s);
    proof {
        if s == 10 {
            assert(r as int == t - 120);
            assert(b <= 12250);
        }
        assert(6875 <= b * m <= 12_544_000) by (nonlinear_arith)
            requires
                6875 <= b <= 12978,
                1 <= m <= 1024,
                m <= 512 || (b <= 12250 && m == 1024),
        ;
    }
    b * m
}

/// Law: the tuning doubles exactly from any key to the key an octave up.
pub proof fn lemma_octave_doubles(note: u8)
    requires
        note + 12 <= 127,
    ensures
        note_freq_millihz((note + 12) as u8) == 2 * note_freq_millihz(note),
{
    let t = note + 3;
    assert(((note + 12) as u8) + 3 == t + 12);
    lemma_mod_bound(t as int, 12);
    lemma_fundamental_div_mod(t as int, 12);
    assert(t + 12 == (t / 12 + 1) * 12 + t % 12);
    lemma_fundamental_div_mod_converse(t + 12, 12, t / 12 + 1, t % 12);
    assert(12 * (t / 12) <= t);
    assert(t / 12 <= 9);
    assert(octave_scale(t / 12 + 1) == 2 * octave_scale(t / 12));
    let bse = semitone_base((t as int) % 12);
    let sc = octave_scale((t as int) / 12);
    assert(bse * (2 * sc) == 2 * (bse * sc)) by (nonlinear_arith);
}

/// Law: the tuning is anchored at 440 Hz on key 69.
pub proof fn lemma_concert_pitch()
    ensures
        note_freq_millihz(69) == 440_000,
{
}

} // verus!
