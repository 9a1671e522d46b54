//! Allocator scenarios of the eight-voice engine at 48 kHz with a 10 ms AMP
//! release. `Rig` stands in for the renderer: a slot's voice falls silent
//! `RELEASE_FRAMES` frames after its release, and the sounding note is the
//! note of the slot the engine reports in its telemetry.
use plasma::kernel::error::Error;
use plasma::kernel::poly::{Actions, POLYPHONY, PolySynth, Trigger};

const RELEASE_FRAMES: usize = 480;
const TRANSITION_FRAMES: usize = 144;

struct Rig {
    synth: PolySynth,
    since_release: [Option<usize>; POLYPHONY],
}

impl Rig {
    fn new() -> Rig {
        Rig { synth: PolySynth::new(TRANSITION_FRAMES), since_release: [None; POLYPHONY] }
    }

    fn apply(&mut self, actions: Actions) -> Option<Trigger> {
        for i in 0..POLYPHONY {
            if actions.release[i] && self.since_release[i].is_none() {
                self.since_release[i] = Some(0);
            }
        }
        if let Some(trigger) = actions.trigger {
            self.since_release[trigger.slot] = None;
        }
        actions.trigger
    }

    fn note_on(&mut self, note: u8, velocity: u8) -> Result<Option<Trigger>, Error> {
        let actions = self.synth.note_on(note, velocity)?;
        Ok(self.apply(actions))
    }

    fn note_off(&mut self, note: u8) -> Result<Option<Trigger>, Error> {
        let actions = self.synth.note_off(note)?;
        Ok(self.apply(actions))
    }

    fn all_notes_off(&mut self) {
        let actions = self.synth.all_notes_off();
        self.apply(actions);
    }

    fn set_modes(&mut self, legato: bool, sustain: bool) {
        let actions = self.synth.set_modes(legato, sustain);
        self.apply(actions);
    }

    fn advance(&mut self, frames: usize) {
        for _ in 0..frames {
            let mut silent = [false; POLYPHONY];
            for i in 0..POLYPHONY {
                silent[i] = self.synth.slot(i).note.is_none()
                    || self.since_release[i].is_some_and(|n| n >= RELEASE_FRAMES);
            }
            self.synth.advance_frame(&silent);
            for since in self.since_release.iter_mut().flatten() {
                *since += 1;
            }
        }
    }

    fn active_voice_count(&self) -> usize {
        self.synth.active_voice_count()
    }

    /// Note and velocity of the slot the telemetry follows.
    fn sounding(&self) -> Option<(u8, u8)> {
        self.synth.telemetry_slot().map(|i| {
            let slot = self.synth.slot(i);
            (slot.note.expect("an active slot has a note"), slot.velocity)
        })
    }
}

#[test]
fn selective_release_preserves_other_notes_and_release_tails() {
    let mut synth = Rig::new();
    synth.note_on(60, 127).unwrap();
    synth.note_on(64, 127).unwrap();
    synth.advance(1000);
    synth.note_off(60).unwrap();
    assert_eq!(synth.active_voice_count(), 2);
    synth.advance(1000);
    assert_eq!(synth.active_voice_count(), 1);
    assert_eq!(synth.sounding(), Some((64, 127)));
    synth.all_notes_off();
    assert_eq!(synth.active_voice_count(), 1);
    synth.advance(1000);
    assert_eq!(synth.active_voice_count(), 0);
    assert_eq!(synth.sounding(), None);
}

#[test]
fn repeated_held_note_retriggers_without_stacking_and_zero_velocity_releases() {
    let mut synth = Rig::new();
    synth.note_on(60, 127).unwrap();
    synth.advance(1000);
    let again = synth.note_on(60, 24).unwrap().unwrap();
    assert_eq!(synth.active_voice_count(), 1);
    assert_eq!(again.slot, 0);
    assert!(!again.reset_note);
    synth.note_on(60, 0).unwrap();
    synth.advance(1000);
    assert_eq!(synth.active_voice_count(), 0);
}

#[test]
fn released_slot_is_stolen_before_an_older_held_note() {
    let mut synth = Rig::new();
    for note in 60..68 {
        synth.note_on(note, 127).unwrap();
    }
    synth.advance(1000);
    synth.note_off(67).unwrap();
    synth.note_on(68, 127).unwrap();
    synth.note_off(67).unwrap(); // Stale release cannot affect replacement.
    synth.advance(1000);
    assert_eq!(synth.active_voice_count(), POLYPHONY);
    synth.note_off(60).unwrap(); // Oldest held note survived allocation.
    synth.advance(1000);
    assert_eq!(synth.active_voice_count(), POLYPHONY - 1);
    synth.note_off(68).unwrap();
    synth.advance(1000);
    assert_eq!(synth.active_voice_count(), POLYPHONY - 2);
}

#[test]
fn oldest_held_slot_is_stolen_and_retrigger_refreshes_its_age() {
    let mut synth = Rig::new();
    for note in 60..68 {
        synth.note_on(note, 127).unwrap();
    }
    synth.advance(1000);
    synth.note_on(60, 100).unwrap();
    synth.note_on(68, 127).unwrap(); // 61, not the retriggered 60, is oldest.
    synth.note_off(61).unwrap();
    synth.advance(1000);
    assert_eq!(synth.active_voice_count(), POLYPHONY);
    synth.note_off(60).unwrap();
    synth.advance(1000);
    assert_eq!(synth.active_voice_count(), POLYPHONY - 1);
}

#[test]
fn repeated_steals_restart_from_actual_output_and_fade_finishes() {
    let mut synth = Rig::new();
    for note in 60..68 {
        synth.note_on(note, 127).unwrap();
    }
    synth.advance(1000);
    for iteration in 0..64 {
        // Replace every slot, including slots whose preceding fade is unfinished.
        let start = if iteration % 2 == 0 { 72 } else { 60 };
        for note in start..start + 8 {
            let steal = synth.note_on(note, 127).unwrap().unwrap();
            assert!(steal.reset_note);
            assert_eq!(synth.synth.slot(steal.slot).transition_left, TRANSITION_FRAMES);
        }
        assert_eq!(synth.active_voice_count(), POLYPHONY);
        synth.advance(2);
    }
    synth.all_notes_off();
    synth.advance(1000);
    assert_eq!(synth.active_voice_count(), 0);
    assert_eq!(synth.sounding(), None);
}

#[test]
fn legato_reuses_one_voice_and_poly_is_unchanged_when_legato_off() {
    let mut poly = Rig::new();
    for note in 60..68 {
        poly.note_on(note, 127).unwrap();
    }
    assert_eq!(poly.active_voice_count(), POLYPHONY);

    let mut legato = Rig::new();
    legato.set_modes(true, false);
    legato.note_on(60, 127).unwrap();
    legato.note_on(64, 127).unwrap();
    assert_eq!(legato.active_voice_count(), 1);
}

#[test]
fn legato_release_returns_to_previous_held_note() {
    let mut legato = Rig::new();
    legato.set_modes(true, false);
    legato.note_on(60, 1).unwrap();
    legato.advance(100);
    assert_eq!(legato.sounding(), Some((60, 1)));

    legato.note_on(64, 127).unwrap();
    legato.advance(100);
    assert_eq!(legato.active_voice_count(), 1);
    assert_eq!(legato.sounding(), Some((64, 127)));

    legato.note_off(64).unwrap();
    legato.advance(100);
    assert_eq!(legato.active_voice_count(), 1);
    assert_eq!(legato.sounding(), Some((60, 1)));

    legato.note_off(60).unwrap();
    legato.advance(2000);
    assert_eq!(legato.active_voice_count(), 0);

    legato.note_on(60, 127).unwrap();
    legato.note_on(64, 127).unwrap();
    legato.note_off(60).unwrap();
    legato.advance(100);
    assert_eq!(legato.active_voice_count(), 1);
    assert_eq!(legato.sounding().map(|s| s.0), Some(64));
    legato.note_off(64).unwrap();
    legato.advance(2000);
    assert_eq!(legato.active_voice_count(), 0);
}

#[test]
fn legato_stack_walks_back_through_three_held_notes() {
    let mut legato = Rig::new();
    legato.set_modes(true, false);
    legato.note_on(60, 127).unwrap();
    legato.note_on(64, 127).unwrap();
    legato.note_on(67, 127).unwrap();
    assert_eq!(legato.active_voice_count(), 1);
    assert_eq!(legato.sounding().map(|s| s.0), Some(67));
    legato.note_off(67).unwrap();
    assert_eq!(legato.sounding().map(|s| s.0), Some(64));
    legato.note_off(64).unwrap();
    assert_eq!(legato.sounding().map(|s| s.0), Some(60));
    assert_eq!(legato.active_voice_count(), 1);
}

#[test]
fn disabling_legato_clears_held_stack_and_releases_normally() {
    let mut poly = Rig::new();
    poly.set_modes(true, false);
    poly.note_on(60, 127).unwrap();
    poly.note_on(64, 127).unwrap();
    poly.set_modes(false, false);
    poly.note_off(64).unwrap();
    poly.advance(2000);
    assert_eq!(poly.active_voice_count(), 0);
    poly.set_modes(true, false);
    poly.note_on(67, 127).unwrap();
    poly.note_off(67).unwrap();
    poly.advance(2000);
    assert_eq!(poly.active_voice_count(), 0);
}

#[test]
fn all_notes_off_forgets_legato_stack() {
    let mut poly = Rig::new();
    poly.set_modes(true, false);
    poly.note_on(60, 127).unwrap();
    poly.note_on(64, 127).unwrap();
    poly.all_notes_off();
    poly.advance(2000);
    assert_eq!(poly.active_voice_count(), 0);
    poly.note_on(67, 127).unwrap();
    poly.note_off(67).unwrap();
    poly.advance(2000);
    assert_eq!(poly.active_voice_count(), 0);
}

#[test]
fn enabling_legato_captures_held_key_for_last_note_priority() {
    let mut poly = Rig::new();
    poly.note_on(60, 1).unwrap();
    poly.advance(100);
    poly.set_modes(true, false);
    poly.note_on(64, 127).unwrap();
    poly.advance(100);
    assert_eq!(poly.active_voice_count(), 1);
    poly.note_off(64).unwrap();
    poly.advance(100);
    assert_eq!(poly.active_voice_count(), 1);
    assert_eq!(poly.sounding(), Some((60, 1)));
}

#[test]
fn enabling_legato_collapses_chord_and_walks_captured_stack() {
    let mut poly = Rig::new();
    poly.note_on(60, 127).unwrap();
    poly.note_on(64, 127).unwrap();
    assert_eq!(poly.active_voice_count(), 2);
    poly.set_modes(true, false);
    poly.advance(2000);
    assert_eq!(poly.active_voice_count(), 1);
    assert_eq!(poly.sounding().map(|s| s.0), Some(64));
    poly.note_off(64).unwrap();
    poly.advance(100);
    assert_eq!(poly.active_voice_count(), 1);
    assert_eq!(poly.sounding().map(|s| s.0), Some(60));
}

#[test]
fn sustain_holds_unheld_notes_until_pedal_is_released() {
    let mut poly = Rig::new();
    poly.set_modes(false, true);
    poly.note_on(60, 127).unwrap();
    poly.note_on(64, 127).unwrap();
    poly.advance(200);
    poly.note_off(60).unwrap();
    poly.note_off(64).unwrap();
    poly.advance(200);
    assert_eq!(poly.active_voice_count(), 2);
    assert!(poly.synth.slot(0).pedal && poly.synth.slot(1).pedal);
    assert_eq!(poly.since_release, [None; POLYPHONY]);

    poly.set_modes(false, false);
    poly.advance(2000);
    assert_eq!(poly.active_voice_count(), 0);
}

#[test]
fn releasing_sustain_keeps_physically_held_notes() {
    let mut poly = Rig::new();
    poly.set_modes(false, true);
    poly.note_on(60, 127).unwrap();
    poly.note_on(64, 127).unwrap();
    poly.note_off(64).unwrap();
    poly.set_modes(false, false);
    poly.advance(2000);
    assert_eq!(poly.active_voice_count(), 1);
    assert_eq!(poly.sounding().map(|s| s.0), Some(60));
    poly.note_off(60).unwrap();
    poly.advance(2000);
    assert_eq!(poly.active_voice_count(), 0);
}

#[test]
fn pedaled_note_retriggers_its_slot_and_is_stolen_before_held() {
    let mut poly = Rig::new();
    poly.set_modes(false, true);
    for note in 60..68 {
        poly.note_on(note, 127).unwrap();
    }
    poly.note_off(67).unwrap();
    poly.note_on(67, 100).unwrap();
    assert_eq!(poly.active_voice_count(), POLYPHONY);
    poly.note_off(67).unwrap();
    poly.note_on(68, 127).unwrap();
    poly.note_off(60).unwrap();
    poly.advance(200);
    assert_eq!(poly.active_voice_count(), POLYPHONY);
    poly.set_modes(false, false);
    poly.advance(2000);
    assert_eq!(poly.active_voice_count(), POLYPHONY - 1);
}

#[test]
fn all_notes_off_releases_despite_sustain() {
    let mut poly = Rig::new();
    poly.set_modes(false, true);
    poly.note_on(60, 127).unwrap();
    poly.note_on(64, 127).unwrap();
    poly.note_off(60).unwrap();
    poly.all_notes_off();
    poly.advance(2000);
    assert_eq!(poly.active_voice_count(), 0);
}

#[test]
fn legato_last_key_stays_sounding_while_sustained() {
    let mut poly = Rig::new();
    poly.set_modes(true, true);
    poly.note_on(60, 127).unwrap();
    poly.note_on(64, 127).unwrap();
    poly.note_off(64).unwrap();
    assert_eq!(poly.sounding().map(|s| s.0), Some(60));
    poly.note_off(60).unwrap();
    poly.advance(200);
    assert_eq!(poly.active_voice_count(), 1);
    assert!(poly.synth.slot(0).pedal);
    poly.note_on(67, 127).unwrap();
    assert_eq!(poly.active_voice_count(), 1);
    assert_eq!(poly.sounding().map(|s| s.0), Some(67));
}

#[test]
fn pedaled_retrigger_reuses_slot_without_stealing_held() {
    let mut poly = Rig::new();
    poly.set_modes(false, true);
    poly.note_on(60, 127).unwrap();
    poly.note_on(64, 1).unwrap();
    poly.note_off(64).unwrap();
    poly.note_on(64, 127).unwrap();
    assert_eq!(poly.active_voice_count(), 2);
    poly.note_off(60).unwrap();
    poly.advance(2000);
    assert_eq!(poly.active_voice_count(), 2);
    assert_eq!(poly.sounding(), Some((64, 127)));
}

#[test]
fn enabling_legato_collapses_pedaled_voices_and_prefers_held() {
    let mut poly = Rig::new();
    poly.set_modes(false, true);
    poly.note_on(60, 1).unwrap();
    poly.note_on(64, 127).unwrap();
    poly.note_off(64).unwrap();
    assert_eq!(poly.active_voice_count(), 2);
    poly.set_modes(true, true);
    poly.advance(2000);
    assert_eq!(poly.active_voice_count(), 1);
    assert_eq!(poly.sounding(), Some((60, 1)));
    poly.note_off(60).unwrap();
    poly.advance(200);
    assert_eq!(poly.active_voice_count(), 1);
    assert!(poly.synth.slot(0).pedal);
}

#[test]
fn enabling_legato_with_only_pedaled_voices_keeps_one() {
    let mut poly = Rig::new();
    poly.set_modes(false, true);
    poly.note_on(60, 127).unwrap();
    poly.note_on(64, 127).unwrap();
    poly.note_off(60).unwrap();
    poly.note_off(64).unwrap();
    assert_eq!(poly.active_voice_count(), 2);
    poly.set_modes(true, true);
    poly.advance(2000);
    assert_eq!(poly.active_voice_count(), 1);
    assert_eq!(poly.sounding().map(|s| s.0), Some(64));
    poly.note_on(67, 127).unwrap();
    assert_eq!(poly.active_voice_count(), 1);
    assert_eq!(poly.sounding().map(|s| s.0), Some(67));
}
