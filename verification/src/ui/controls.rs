//! Control-panel rules: which oscillator control an edit addresses, which
//! LFO wave a selector picks, the panel indices, the audition keyboard and
//! how a control result is shown.
use vstd::prelude::*;
use crate::kernel::params::LfoWave;
use crate::harness::patch::spec_osc_field;

verus! {

/// Oscillator controls of the panel, by field number 0..=12.
#[derive(Clone, Copy, Debug, PartialEq, Eq)]
pub enum OscControl {
    Waveform,
    Pitch,
    Fine,
    Phase,
    PhaseRandom,
    PulseWidth,
    Unison,
    Detune,
    Pan,
    Level,
    Sync,
    Fm,
    Ring,
}

pub open spec fn spec_osc_control(field: i32) -> Option<OscControl> {
    if field == 0 {
        Some(OscControl::Waveform)
    } else if field == 1 {
        Some(OscControl::Pitch)
    } else if field == 2 {
        Some(OscControl::Fine)
    } else if field == 3 {
        Some(OscControl::Phase)
    } else if field == 4 {
        Some(OscControl::PhaseRandom)
    } else if field == 5 {
        Some(OscControl::PulseWidth)
    } else if field == 6 {
        Some(OscControl::Unison)
    } else if field == 7 {
        Some(OscControl::Detune)
    } else if field == 8 {
        Some(OscControl::Pan)
    } else if field == 9 {
        Some(OscControl::Level)
    } else if field == 10 {
        Some(OscControl::Sync)
    } else if field == 11 {
        Some(OscControl::Fm)
    } else if field == 12 {
        Some(OscControl::Ring)
    } else {
        None
    }
}

/// Patch spelling of the oscillator control a panel field edits.
pub open spec fn osc_control_name(c: OscControl) -> Seq<char> {
    match c {
        OscControl::Waveform => "waveform"@,
        OscControl::Pitch => "pitch"@,
        OscControl::Fine => "fine"@,
        OscControl::Phase => "phase"@,
        OscControl::PhaseRandom => "phase_random"@,
        OscControl::PulseWidth => "pulse_width"@,
        OscControl::Unison => "unison"@,
        OscControl::Detune => "detune"@,
        OscControl::Pan => "pan"@,
        OscControl::Level => "level"@,
        OscControl::Sync => "sync"@,
        OscControl::Fm => "fm"@,
        OscControl::Ring => "ring"@,
    }
}

/// Panel field 0 selects the waveform; fields 1..=9 edit the oscillator
/// controls in the order of the patch's oscillator fields (pitch, fine,
/// phase, random phase, pulse width, unison, detune, pan, level); fields 10,
/// 11 and 12 are sync, FM and ring; no other field number is a control.
pub proof fn law_panel_fields_follow_patch_order(field: i32)
    ensures
        1 <= field <= 9 ==> (spec_osc_control(field) matches Some(c) && osc_control_name(c)
            == spec_osc_field(field - 1)),
        field == 0 ==> spec_osc_control(field) == Some(OscControl::Waveform),
        field == 10 ==> spec_osc_control(field) == Some(OscControl::Sync),
        field == 11 ==> spec_osc_control(field) == Some(OscControl::Fm),
        field == 12 ==> spec_osc_control(field) == Some(OscControl::Ring),
        !(0 <= field <= 12) ==> spec_osc_control(field) is None,
{
}

/// The control of a panel field number.
pub fn oscillator_control(field: i32) -> (r: Result<OscControl, String>)
    ensures
        match r {
            Ok(c) => spec_osc_control(field) == Some(c),
            Err(e) => spec_osc_control(field) is None && e@ == "Unknown oscillator parameter"@,
        },
{
    match field {
        0 => Ok(OscControl::Waveform),
        1 => Ok(OscControl::Pitch),
        2 => Ok(OscControl::Fine),
        3 => Ok(OscControl::Phase),
        4 => Ok(OscControl::PhaseRandom),
        5 => Ok(OscControl::PulseWidth),
        6 => Ok(OscControl::Unison),
        7 => Ok(OscControl::Detune),
        8 => Ok(OscControl::Pan),
        9 => Ok(OscControl::Level),
        10 => Ok(OscControl::Sync),
        11 => Ok(OscControl::Fm),
        12 => Ok(OscControl::Ring),
        _ => Err(String::from_str("Unknown oscillator parameter")),
    }
}

/// Index of an audition key in the panel's one-octave keyboard (C4 to C5).
pub fn audition_key(note: i32) -> (r: Result<usize, String>)
    ensures
        60 <= note <= 72 ==> r == Ok::<usize, String>((note - 60) as usize),
        !(60 <= note <= 72) ==> (r matches Err(e) && e@ == "Audition note must be in C4–C5"@),
{
    if note < 60 || note > 72 {
        return Err(String::from_str("Audition note must be in C4–C5"));
    }
    Ok((note - 60) as usize)
}

/// How the panel shows a control result: accepted with no message, or
/// refused with the error text.
pub struct ControlStatus {
    pub accepted: bool,
    pub message: String,
}

pub fn show_result(result: Result<(), String>) -> (s: ControlStatus)
    ensures
        match result {
            Ok(()) => s.accepted && s.message@ == Seq::<char>::empty(),
            Err(e) => !s.accepted && s.message@ == e@,
        },
{
    match result {
        Ok(()) => ControlStatus { accepted: true, message: String::new() },
        Err(error) => ControlStatus { accepted: false, message: error },
    }
}

/// Keys of the audition keyboard.
pub const AUDITION_KEYS: usize = 13;

/// What a press of an audition key sends.
#[derive(Clone, Copy, Debug, PartialEq, Eq)]
pub enum AuditionEvent {
    NoteOn { note: u8, velocity: u8 },
    NoteOff { note: u8 },
}

/// A press of audition key `key`: a held key is released, any other key is
/// played at the panel velocity clamped to 1..=127.
pub fn audition_event(key: usize, held: bool, velocity: i32) -> (e: AuditionEvent)
    requires
        key < AUDITION_KEYS,
    ensures
        held ==> e == (AuditionEvent::NoteOff { note: (60 + key) as u8 }),
        !held ==> e == (AuditionEvent::NoteOn {
            note: (60 + key) as u8,
            velocity: (if velocity < 1 {
                1
            } else if velocity > 127 {
                127
            } else {
                velocity
            }) as u8,
        }),
{
    let note = (60 + key) as u8;
    if held {
        return AuditionEvent::NoteOff { note };
    }
    let clamped: i32 = if velocity < 1 {
        1
    } else if velocity > 127 {
        127
    } else {
        velocity
    };
    AuditionEvent::NoteOn { note, velocity: clamped as u8 }
}

pub open spec fn release_failure_separator() -> Seq<char> {
    "; could not release all notes: "@
}

/// The message shown when an audition event failed and releasing every
/// note afterwards failed too.
pub fn release_failure_message(error: String, release_error: &str) -> (m: String)
    ensures
        m@ == error@ + release_failure_separator() + release_error@,
{
    error.concat("; could not release all notes: ").concat(release_error)
}

/// The LFO wave of a panel selector value 0..=3.
pub fn lfo_wave_control(wave: i32) -> (r: Result<LfoWave, String>)
    ensures
        0 <= wave <= 3 ==> (r matches Ok(w) && w.spec_code() == wave),
        !(0 <= wave <= 3) ==> (r matches Err(e) && e@ == "Unknown LFO waveform"@),
{
    match wave {
        0 => Ok(LfoWave::Sine),
        1 => Ok(LfoWave::Triangle),
        2 => Ok(LfoWave::Saw),
        3 => Ok(LfoWave::Square),
        _ => Err(String::from_str("Unknown LFO waveform")),
    }
}

/// A global-control index from the panel; negative indices are refused.
pub fn global_control_index(index: i32) -> (r: Result<usize, String>)
    ensures
        index >= 0 ==> r == Ok::<usize, String>(index as usize),
        index < 0 ==> (r matches Err(e) && e@ == "Invalid global index"@),
{
    if index < 0 {
        Err(String::from_str("Invalid global index"))
    } else {
        Ok(index as usize)
    }
}

/// An oscillator index from the panel; negative indices are refused.
pub fn oscillator_panel_index(index: i32) -> (r: Result<usize, String>)
    ensures
        index >= 0 ==> r == Ok::<usize, String>(index as usize),
        index < 0 ==> (r matches Err(e) && e@ == "Invalid oscillator index"@),
{
    if index < 0 {
        Err(String::from_str("Invalid oscillator index"))
    } else {
        Ok(index as usize)
    }
}

/// A modulation route from the panel as (target, source); a negative target
/// or source is refused.
pub fn route_control(target: i32, source: i32) -> (r: Result<(usize, usize), String>)
    ensures
        target >= 0 && source >= 0 ==> r == Ok::<(usize, usize), String>(
            (target as usize, source as usize),
        ),
        !(target >= 0 && source >= 0) ==> (r matches Err(e) && e@
            == "Invalid modulation source or target"@),
{
    if target < 0 || source < 0 {
        Err(String::from_str("Invalid modulation source or target"))
    } else {
        Ok((target as usize, source as usize))
    }
}

} // verus!
