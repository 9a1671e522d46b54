use plasma::kernel::error::Error;
use plasma::kernel::poly::{Actions, POLYPHONY, PolySynth, Trigger, voice_seed};

fn released(actions: &Actions) -> Vec<usize> {
    (0..POLYPHONY).filter(|&i| actions.release[i]).collect()
}

fn trigger(actions: &Actions) -> Trigger {
    actions.trigger.expect("a trigger")
}

fn chord(synth: &mut PolySynth, notes: std::ops::Range<u8>) {
    for note in notes {
        synth.note_on(note, 127).unwrap();
    }
}

#[test]
fn idle_slots_are_used_in_order_and_cleared() {
    let mut synth = PolySynth::new(144);
    for (i, note) in (60..68).enumerate() {
        let actions = synth.note_on(note, 100).unwrap();
        assert_eq!(
            trigger(&actions),
            Trigger { slot: i, note, velocity: 100, reset_note: true }
        );
        assert!(released(&actions).is_empty());
        assert_eq!(synth.telemetry_slot(), Some(i));
    }
    assert_eq!(synth.active_voice_count(), 8);
    for i in 0..POLYPHONY {
        assert_eq!(synth.slot(i).rank, POLYPHONY - 1 - i);
        assert_eq!(synth.slot(i).transition_left, 144);
    }
}

#[test]
fn repeated_held_note_retriggers_its_slot_and_zero_velocity_releases() {
    let mut synth = PolySynth::new(144);
    synth.note_on(60, 127).unwrap();
    let again = synth.note_on(60, 24).unwrap();
    assert_eq!(trigger(&again), Trigger { slot: 0, note: 60, velocity: 24, reset_note: false });
    assert_eq!(synth.active_voice_count(), 1);
    assert_eq!(synth.slot(0).velocity, 24);
    let off = synth.note_on(60, 0).unwrap();
    assert_eq!(released(&off), vec![0]);
    assert!(off.trigger.is_none());
    assert!(!synth.slot(0).held);
    assert_eq!(synth.slot(0).note, Some(60));
}

#[test]
fn released_slot_is_stolen_before_older_held_and_stale_release_is_ignored() {
    let mut synth = PolySynth::new(144);
    chord(&mut synth, 60..68);
    assert_eq!(released(&synth.note_off(67).unwrap()), vec![7]);
    let steal = synth.note_on(68, 127).unwrap();
    assert_eq!(trigger(&steal).slot, 7);
    assert!(trigger(&steal).reset_note);
    let stale = synth.note_off(67).unwrap();
    assert!(released(&stale).is_empty());
    assert_eq!(synth.slot(7).note, Some(68));
    assert!(synth.slot(7).held);
}

#[test]
fn retriggered_note_is_not_the_oldest_for_stealing() {
    let mut synth = PolySynth::new(144);
    chord(&mut synth, 60..68);
    assert_eq!(trigger(&synth.note_on(60, 100).unwrap()).slot, 0);
    let steal = synth.note_on(68, 127).unwrap();
    assert_eq!(trigger(&steal).slot, 1);
    assert_eq!(synth.slot(1).note, Some(68));
    assert_eq!(synth.slot(0).note, Some(60));
}

#[test]
fn invalid_events_are_rejected_and_change_nothing() {
    let mut synth = PolySynth::new(144);
    synth.note_on(60, 127).unwrap();
    let before = synth.slot(0);
    assert_eq!(synth.note_on(128, 127).err(), Some(Error::InvalidParameter("MIDI note")));
    assert_eq!(synth.note_on(60, 128).err(), Some(Error::InvalidParameter("MIDI velocity")));
    assert_eq!(synth.note_off(255).err(), Some(Error::InvalidParameter("MIDI note")));
    assert_eq!(synth.slot(0), before);
    assert_eq!(synth.active_voice_count(), 1);
}

#[test]
fn legato_release_returns_to_previous_held_key() {
    let mut synth = PolySynth::new(144);
    synth.set_modes(true, false);
    synth.note_on(60, 1).unwrap();
    let slide = synth.note_on(64, 127).unwrap();
    assert_eq!(trigger(&slide), Trigger { slot: 0, note: 64, velocity: 127, reset_note: false });
    let back = synth.note_off(64).unwrap();
    assert_eq!(trigger(&back), Trigger { slot: 0, note: 60, velocity: 1, reset_note: false });
    assert!(released(&back).is_empty());
    assert_eq!(synth.active_voice_count(), 1);
    let off = synth.note_off(60).unwrap();
    assert_eq!(released(&off), vec![0]);
}

#[test]
fn legato_stack_walks_back_and_forgets_silent_keys() {
    let mut synth = PolySynth::new(144);
    synth.set_modes(true, false);
    synth.note_on(60, 127).unwrap();
    synth.note_on(64, 127).unwrap();
    synth.note_on(67, 127).unwrap();
    assert_eq!(synth.active_voice_count(), 1);
    assert_eq!(trigger(&synth.note_off(67).unwrap()).note, 64);
    let forgotten = synth.note_off(60).unwrap();
    assert!(forgotten.trigger.is_none());
    assert!(released(&forgotten).is_empty());
    assert_eq!(synth.slot(0).note, Some(64));
    assert_eq!(released(&synth.note_off(64).unwrap()), vec![0]);
}

#[test]
fn enabling_legato_releases_all_but_the_newest_held_voice() {
    let mut synth = PolySynth::new(144);
    synth.note_on(60, 127).unwrap();
    synth.note_on(64, 127).unwrap();
    let collapse = synth.set_modes(true, false);
    assert_eq!(released(&collapse), vec![0]);
    assert_eq!(synth.telemetry_slot(), Some(1));
    let back = synth.note_off(64).unwrap();
    assert_eq!(trigger(&back), Trigger { slot: 1, note: 60, velocity: 127, reset_note: false });
}

#[test]
fn disabling_legato_forgets_the_stack() {
    let mut synth = PolySynth::new(144);
    synth.set_modes(true, false);
    synth.note_on(60, 127).unwrap();
    synth.note_on(64, 127).unwrap();
    assert!(released(&synth.set_modes(false, false)).is_empty());
    assert_eq!(released(&synth.note_off(64).unwrap()), vec![0]);
    assert!(synth.note_off(60).unwrap().trigger.is_none());
}

#[test]
fn lifting_the_pedal_releases_only_unheld_slots() {
    let mut synth = PolySynth::new(144);
    synth.set_modes(false, true);
    synth.note_on(60, 127).unwrap();
    synth.note_on(64, 127).unwrap();
    synth.note_on(67, 127).unwrap();
    assert!(released(&synth.note_off(60).unwrap()).is_empty());
    assert!(released(&synth.note_off(64).unwrap()).is_empty());
    assert!(synth.slot(0).pedal && synth.slot(1).pedal);
    let lift = synth.set_modes(false, false);
    assert_eq!(released(&lift), vec![0, 1]);
    assert!(synth.slot(2).held);
    assert!(!synth.slot(0).pedal);
}

#[test]
fn pedaled_slots_are_retriggered_and_stolen_first() {
    let mut synth = PolySynth::new(144);
    synth.set_modes(false, true);
    chord(&mut synth, 60..68);
    synth.note_off(67).unwrap();
    assert_eq!(trigger(&synth.note_on(67, 100).unwrap()).slot, 7);
    assert_eq!(synth.active_voice_count(), POLYPHONY);
    synth.note_off(67).unwrap();
    assert_eq!(trigger(&synth.note_on(68, 127).unwrap()).slot, 7);
}

#[test]
fn all_notes_off_releases_despite_sustain_and_forgets_legato_stack() {
    let mut synth = PolySynth::new(144);
    synth.set_modes(true, true);
    synth.note_on(60, 127).unwrap();
    synth.note_on(64, 127).unwrap();
    let off = synth.all_notes_off();
    assert_eq!(released(&off), (0..POLYPHONY).collect::<Vec<_>>());
    assert!(!synth.slot(0).held && !synth.slot(0).pedal);
    let later = synth.note_on(67, 127).unwrap();
    assert_eq!(trigger(&later).slot, 1);
    assert!(trigger(&later).reset_note);
    assert_eq!(released(&synth.note_off(67).unwrap()).len(), 0);
}

#[test]
fn legato_last_key_is_pedaled_not_released() {
    let mut synth = PolySynth::new(144);
    synth.set_modes(true, true);
    synth.note_on(60, 127).unwrap();
    synth.note_on(64, 127).unwrap();
    assert_eq!(trigger(&synth.note_off(64).unwrap()).note, 60);
    let last = synth.note_off(60).unwrap();
    assert!(released(&last).is_empty());
    assert!(synth.slot(0).pedal);
    let next = synth.note_on(67, 127).unwrap();
    assert_eq!(trigger(&next).slot, 0);
    assert_eq!(synth.active_voice_count(), 1);
}

#[test]
fn silent_slots_free_only_after_their_crossfade() {
    let mut synth = PolySynth::new(2);
    synth.note_on(60, 127).unwrap();
    synth.note_off(60).unwrap();
    let silent = [true; POLYPHONY];
    synth.advance_frame(&silent);
    assert_eq!(synth.slot(0).transition_left, 1);
    synth.advance_frame(&[false; POLYPHONY]);
    assert_eq!(synth.slot(0).transition_left, 0);
    assert_eq!(synth.active_voice_count(), 1);
    synth.advance_frame(&silent);
    assert_eq!(synth.active_voice_count(), 0);
    assert_eq!(synth.telemetry_slot(), None);
}

#[test]
fn voice_seeds_advance_by_the_golden_gamma() {
    assert_eq!(voice_seed(7, 0), 7);
    assert_eq!(voice_seed(7, 1), 7u64.wrapping_add(0x9e3779b97f4a7c15));
    assert_eq!(voice_seed(u64::MAX, 2), u64::MAX.wrapping_add(0x3c6ef372fe94f82a));
}
