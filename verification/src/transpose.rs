//! MIDI note transposition filter: shift note-on/note-off key numbers by
//! a signed semitone offset and clamp them to a configured range; other
//! messages pass through unchanged or are dropped, per a flag.

use vstd::prelude::*;

verus! {

/// Clamp `x` into `[lo, hi]` (for `lo <= hi`).
pub open spec fn clamped(x: int, lo: int, hi: int) -> int {
    if x < lo {
        lo
    } else if x > hi {
        hi
    } else {
        x
    }
}

/// Whether a status byte carries a note-on or note-off message
/// (status high nibble 8 or 9, any channel).
pub open spec fn is_note_message(status: u8) -> bool {
    0x80 <= status <= 0x9F
}

/// The transposition filter's settings.
pub struct MidiTransposeNode {
    pub semitones: i32,
    pub clamp_low: i32,
    pub clamp_high: i32,
    pub pass_through_non_note: bool,
}

impl MidiTransposeNode {
    /// The settings the constructor and setter keep: a bounded offset
    /// and an ordered key range.
    pub open spec fn wf(self) -> bool {
        &&& -48 <= self.semitones <= 48
        &&& 0 <= self.clamp_low <= self.clamp_high <= 127
    }

    /// A filter with no offset, the full key range, and pass-through on.
    pub fn new() -> (node: MidiTransposeNode)
        ensures
            node.wf(),
            node.semitones == 0,
            node.clamp_low == 0,
            node.clamp_high == 127,
            node.pass_through_non_note,
    {
        MidiTransposeNode { semitones: 0, clamp_low: 0, clamp_high: 127, pass_through_non_note: true }
    }

    /// Replace the settings, clamping the offset into `[-48, 48]`, the
    /// range bounds into `[0, 127]`, and swapping a reversed range.
    pub fn set_params(
        &mut self,
        semitones: i32,
        clamp_low: i32,
        clamp_high: i32,
        pass_through_non_note: bool,
    )
        ensures
            final(self).wf(),
            final(self).semitones == clamped(semitones as int, -48, 48),
            final(self).clamp_low == (if clamped(clamp_low as int, 0, 127) <= clamped(
                clamp_high as int,
                0,
                127,
            ) {
                clamped(clamp_low as int, 0, 127)
            } else {
                clamped(clamp_high as int, 0, 127)
            }),
            final(self).clamp_high == (if clamped(clamp_low as int, 0, 127) <= clamped(
                clamp_high as int,
                0,
                127,
            ) {
                clamped(clamp_high as int, 0, 127)
            } else {
                clamped(clamp_low as int, 0, 127)
            }),
            final(self).pass_through_non_note == pass_through_non_note,
    {
        let s: i32 = if semitones < -48 {
            -48
        } else if semitones > 48 {
            48
        } else {
            semitones
        };
        let lo: i32 = if clamp_low < 0 {
            0
        } else if clamp_low > 127 {
            127
        } else {
            clamp_low
        };
        let hi: i32 = if clamp_high < 0 {
            0
        } else if clamp_high > 127 {
            127
        } else {
            clamp_high
        };
        self.semitones = s;
        if lo <= hi {
            self.clamp_low = lo;
            self.clamp_high = hi;
        } else {
            self.clamp_low = hi;
            self.clamp_high = lo;
        }
        self.pass_through_non_note = pass_through_non_note;
    }

    /// The key byte a note message's key `data1` becomes: shifted by the
    /// offset, then clamped into the configured range.
    pub open spec fn shifted_key(self, data1: u8) -> int {
        clamped(data1 + self.semitones, self.clamp_low as int, self.clamp_high as int)
    }

    /// Transform one three-byte MIDI message. A note-on or note-off
    /// keeps its status and velocity and has its key shifted and
    /// clamped; any other message passes through whole, or becomes
    /// empty when pass-through is off.
    pub fn transform(&self, status: u8, data1: u8, data2: u8) -> (out: Vec<u8>)
        requires
            self.wf(),
        ensures
            is_note_message(status) ==> out@ == seq![
                status,
                self.shifted_key(data1) as u8,
                data2,
            ],
            !is_note_message(status) && self.pass_through_non_note ==> out@ == seq![
                status,
                data1,
                data2,
            ],
            !is_note_message(status) && !self.pass_through_non_note ==> out@ == Seq::<u8>::empty(),
    {
        let mut out: Vec<u8> = Vec::new();
        if 0x80 <= status && status <= 0x9F {
            let shifted: i32 = data1 as i32 + self.semitones;
            let key: i32 = if shifted < self.clamp_low {
                self.clamp_low
            } else if shifted > self.clamp_high {
                self.clamp_high
            } else {
                shifted
            };
            out.push(status);
            out.push(key as u8);
            out.push(data2);
            proof {
                assert(out@ =~= seq![status, self.shifted_key(data1) as u8, data2]);
            }
        } else if self.pass_through_non_note {
            out.push(status);
            out.push(data1);
            out.push(data2);
            proof {
                assert(out@ =~= seq![status, data1, data2]);
            }
        } else {
            proof {
                assert(out@ =~= Seq::<u8>::empty());
            }
        }
        out
    }
}

} // verus!
