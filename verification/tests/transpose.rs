use audio_engine::MidiTransposeNode;

#[test]
fn defaults_pass_notes_through_unshifted() {
    let node = MidiTransposeNode::new();
    assert_eq!(node.transform(0x90, 60, 100), vec![0x90, 60, 100]);
    assert_eq!(node.transform(0x85, 10, 0), vec![0x85, 10, 0]);
}

#[test]
fn note_messages_are_shifted_and_clamped() {
    let mut node = MidiTransposeNode::new();
    node.set_params(5, 10, 20, true);
    assert_eq!(node.transform(0x91, 18, 64), vec![0x91, 20, 64]);
    assert_eq!(node.transform(0x91, 2, 64), vec![0x91, 10, 64]);
    assert_eq!(node.transform(0x80, 12, 0), vec![0x80, 17, 0]);
}

#[test]
fn downward_shift_clamps_at_the_low_bound() {
    let mut node = MidiTransposeNode::new();
    node.set_params(-12, 0, 127, true);
    assert_eq!(node.transform(0x90, 5, 64), vec![0x90, 0, 64]);
    assert_eq!(node.transform(0x90, 60, 64), vec![0x90, 48, 64]);
}

#[test]
fn reversed_range_is_swapped() {
    let mut node = MidiTransposeNode::new();
    node.set_params(0, 100, 50, true);
    assert_eq!(node.transform(0x90, 10, 64), vec![0x90, 50, 64]);
    assert_eq!(node.transform(0x90, 120, 64), vec![0x90, 100, 64]);
}

#[test]
fn offset_is_clamped_to_four_octaves() {
    let mut node = MidiTransposeNode::new();
    node.set_params(1000, 0, 127, true);
    assert_eq!(node.transform(0x90, 60, 64), vec![0x90, 108, 64]);
}

#[test]
fn non_note_messages_pass_or_drop_per_flag() {
    let mut node = MidiTransposeNode::new();
    node.set_params(12, 0, 127, true);
    assert_eq!(node.transform(0xB0, 7, 100), vec![0xB0, 7, 100]);
    node.set_params(12, 0, 127, false);
    assert_eq!(node.transform(0xB0, 7, 100), Vec::<u8>::new());
}
