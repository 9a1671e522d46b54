//! Patch file vocabulary: the names of the controls in a patch's flat
//! control list and the waveform names it uses.
use vstd::prelude::*;
use crate::kernel::params::{LfoWave, TARGET_COUNT, TargetField, Waveform, spec_target_field};

verus! {

/// Entries of a patch's control list: one base value per modulation target,
/// the last two being the hard-sync switches of oscillators 2 and 3.
pub const CONTROL_COUNT: usize = TARGET_COUNT;

/// Oscillator waveform as named in patch files.
#[derive(Clone, Copy, Debug, PartialEq, Eq)]
pub enum OscWave {
    Sine,
    Triangle,
    Saw,
    Pulse,
}

/// LFO waveform as named in patch files.
#[derive(Clone, Copy, Debug, PartialEq, Eq)]
pub enum ModWave {
    Sine,
    Triangle,
    Saw,
    Square,
}

pub open spec fn osc_wave_to_waveform(value: OscWave) -> Waveform {
    match value {
        OscWave::Sine => Waveform::Sine,
        OscWave::Triangle => Waveform::Triangle,
        OscWave::Saw => Waveform::Saw,
        OscWave::Pulse => Waveform::Pulse,
    }
}

pub open spec fn waveform_to_osc_wave(value: Waveform) -> OscWave {
    match value {
        Waveform::Sine => OscWave::Sine,
        Waveform::Triangle => OscWave::Triangle,
        Waveform::Saw => OscWave::Saw,
        Waveform::Pulse => OscWave::Pulse,
    }
}

pub open spec fn mod_wave_to_lfo_wave(value: ModWave) -> LfoWave {
    match value {
        ModWave::Sine => LfoWave::Sine,
        ModWave::Triangle => LfoWave::Triangle,
        ModWave::Saw => LfoWave::Saw,
        ModWave::Square => LfoWave::Square,
    }
}

pub open spec fn lfo_wave_to_mod_wave(value: LfoWave) -> ModWave {
    match value {
        LfoWave::Sine => ModWave::Sine,
        LfoWave::Triangle => ModWave::Triangle,
        LfoWave::Saw => ModWave::Saw,
        LfoWave::Square => ModWave::Square,
    }
}

impl From<OscWave> for Waveform {
    fn from(value: OscWave) -> (w: Self) {
        match value {
            OscWave::Sine => Waveform::Sine,
            OscWave::Triangle => Waveform::Triangle,
            OscWave::Saw => Waveform::Saw,
            OscWave::Pulse => Waveform::Pulse,
        }
    }
}

impl vstd::std_specs::convert::FromSpecImpl<OscWave> for Waveform {
    open spec fn obeys_from_spec() -> bool {
        true
    }

    open spec fn from_spec(value: OscWave) -> Waveform {
        osc_wave_to_waveform(value)
    }
}

impl From<Waveform> for OscWave {
    fn from(value: Waveform) -> (w: Self) {
        match value {
            Waveform::Sine => OscWave::Sine,
            Waveform::Triangle => OscWave::Triangle,
            Waveform::Saw => OscWave::Saw,
            Waveform::Pulse => OscWave::Pulse,
        }
    }
}

impl vstd::std_specs::convert::FromSpecImpl<Waveform> for OscWave {
    open spec fn obeys_from_spec() -> bool {
        true
    }

    open spec fn from_spec(value: Waveform) -> OscWave {
        waveform_to_osc_wave(value)
    }
}

impl From<ModWave> for LfoWave {
    fn from(value: ModWave) -> (w: Self) {
        match value {
            ModWave::Sine => LfoWave::Sine,
            ModWave::Triangle => LfoWave::Triangle,
            ModWave::Saw => LfoWave::Saw,
            ModWave::Square => LfoWave::Square,
        }
    }
}

impl vstd::std_specs::convert::FromSpecImpl<ModWave> for LfoWave {
    open spec fn obeys_from_spec() -> bool {
        true
    }

    open spec fn from_spec(value: ModWave) -> LfoWave {
        mod_wave_to_lfo_wave(value)
    }
}

impl From<LfoWave> for ModWave {
    fn from(value: LfoWave) -> (w: Self) {
        match value {
            LfoWave::Sine => ModWave::Sine,
            LfoWave::Triangle => ModWave::Triangle,
            LfoWave::Saw => ModWave::Saw,
            LfoWave::Square => ModWave::Square,
        }
    }
}

impl vstd::std_specs::convert::FromSpecImpl<LfoWave> for ModWave {
    open spec fn obeys_from_spec() -> bool {
        true
    }

    open spec fn from_spec(value: LfoWave) -> ModWave {
        lfo_wave_to_mod_wave(value)
    }
}

/// Converting a waveform to its patch name and back gives it unchanged, in
/// both directions.
pub proof fn law_wave_names_round_trip(w: Waveform, o: OscWave, l: LfoWave, m: ModWave)
    ensures
        osc_wave_to_waveform(waveform_to_osc_wave(w)) == w,
        waveform_to_osc_wave(osc_wave_to_waveform(o)) == o,
        mod_wave_to_lfo_wave(lfo_wave_to_mod_wave(l)) == l,
        lfo_wave_to_mod_wave(mod_wave_to_lfo_wave(m)) == m,
{
}

/// Name of each oscillator wave in a patch file.
pub open spec fn osc_wave_name(value: OscWave) -> Seq<char> {
    match value {
        OscWave::Sine => "sine"@,
        OscWave::Triangle => "triangle"@,
        OscWave::Saw => "saw"@,
        OscWave::Pulse => "pulse"@,
    }
}

/// Name of each LFO wave in a patch file.
pub open spec fn mod_wave_name(value: ModWave) -> Seq<char> {
    match value {
        ModWave::Sine => "sine"@,
        ModWave::Triangle => "triangle"@,
        ModWave::Saw => "saw"@,
        ModWave::Square => "square"@,
    }
}

/// Oscillator waveform names, indexed by the waveform's numeric code.
pub open spec fn waveform_names() -> Seq<Seq<char>> {
    seq!["sine"@, "triangle"@, "saw"@, "pulse"@]
}

/// LFO wave names, indexed by the wave's numeric code.
pub open spec fn lfo_wave_names() -> Seq<Seq<char>> {
    seq!["sine"@, "triangle"@, "saw"@, "square"@]
}

/// A wave named in a patch file becomes the waveform of that name, and a
/// waveform is written to a patch file under its own name.
pub proof fn law_wave_names_keep_their_meaning(o: OscWave, w: Waveform, m: ModWave, l: LfoWave)
    ensures
        waveform_names()[osc_wave_to_waveform(o).spec_code() as int] == osc_wave_name(o),
        osc_wave_name(waveform_to_osc_wave(w)) == waveform_names()[w.spec_code() as int],
        lfo_wave_names()[mod_wave_to_lfo_wave(m).spec_code() as int] == mod_wave_name(m),
        mod_wave_name(lfo_wave_to_mod_wave(l)) == lfo_wave_names()[l.spec_code() as int],
{
}

pub open spec fn spec_osc_field(field: int) -> Seq<char> {
    if field == 0 {
        "pitch"@
    } else if field == 1 {
        "fine"@
    } else if field == 2 {
        "phase"@
    } else if field == 3 {
        "phase_random"@
    } else if field == 4 {
        "pulse_width"@
    } else if field == 5 {
        "unison"@
    } else if field == 6 {
        "detune"@
    } else if field == 7 {
        "pan"@
    } else {
        "level"@
    }
}

pub open spec fn spec_global_field(index: int) -> Seq<char> {
    if index == 0 {
        "volume"@
    } else if index == 1 {
        "attack"@
    } else if index == 2 {
        "decay"@
    } else if index == 3 {
        "sustain"@
    } else if index == 4 {
        "release"@
    } else if index == 5 {
        "lfo_rate"@
    } else if index == 6 {
        "lfo_phase"@
    } else if index == 7 {
        "cutoff"@
    } else if index == 8 {
        "resonance"@
    } else if index == 9 {
        "mod_attack"@
    } else if index == 10 {
        "mod_decay"@
    } else if index == 11 {
        "mod_sustain"@
    } else {
        "mod_release"@
    }
}

pub open spec fn spec_analog_field(index: int) -> Seq<char> {
    if index == 0 {
        "noise"@
    } else if index == 1 {
        "osc1_spread"@
    } else if index == 2 {
        "osc2_spread"@
    } else if index == 3 {
        "osc3_spread"@
    } else if index == 4 {
        "osc2_fm"@
    } else if index == 5 {
        "osc3_fm"@
    } else if index == 6 {
        "osc2_ring"@
    } else if index == 7 {
        "osc3_ring"@
    } else if index == 8 {
        "glide"@
    } else if index == 9 {
        "osc1_fm"@
    } else if index == 10 {
        "osc1_ring"@
    } else if index == 11 {
        "osc2_sync"@
    } else {
        "osc3_sync"@
    }
}

pub open spec fn spec_osc_number(index: int) -> Seq<char> {
    if index == 0 {
        "1"@
    } else if index == 1 {
        "2"@
    } else {
        "3"@
    }
}

/// Name of control `index`: `osc{n}_{field}` for the 27 oscillator
/// controls, then the global and the analog control names.
pub open spec fn spec_control_name(index: int) -> Seq<char> {
    if index < 27 {
        "osc"@ + spec_osc_number(index / 9) + "_"@ + spec_osc_field(index % 9)
    } else if index < 40 {
        spec_global_field(index - 27)
    } else {
        spec_analog_field(index - 40)
    }
}

fn osc_field(field: usize) -> (s: &'static str)
    requires
        field < 9,
    ensures
        s@ == spec_osc_field(field as int),
{
    proof {
        reveal_strlit("pitch");
    }
    match field {
        0 => "pitch",
        1 => "fine",
        2 => "phase",
        3 => "phase_random",
        4 => "pulse_width",
        5 => "unison",
        6 => "detune",
        7 => "pan",
        _ => "level",
    }
}

fn global_field(index: usize) -> (s: &'static str)
    requires
        index < 13,
    ensures
        s@ == spec_global_field(index as int),
{
    match index {
        0 => "volume",
        1 => "attack",
        2 => "decay",
        3 => "sustain",
        4 => "release",
        5 => "lfo_rate",
        6 => "lfo_phase",
        7 => "cutoff",
        8 => "resonance",
        9 => "mod_attack",
        10 => "mod_decay",
        11 => "mod_sustain",
        _ => "mod_release",
    }
}

fn analog_field(index: usize) -> (s: &'static str)
    requires
        index < 13,
    ensures
        s@ == spec_analog_field(index as int),
{
    match index {
        0 => "noise",
        1 => "osc1_spread",
        2 => "osc2_spread",
        3 => "osc3_spread",
        4 => "osc2_fm",
        5 => "osc3_fm",
        6 => "osc2_ring",
        7 => "osc3_ring",
        8 => "glide",
        9 => "osc1_fm",
        10 => "osc1_ring",
        11 => "osc2_sync",
        _ => "osc3_sync",
    }
}

/// Name of patch control `index`, for every index below CONTROL_COUNT.
pub fn control_name(index: usize) -> (name: String)
    requires
        index < CONTROL_COUNT,
    ensures
        name@ == spec_control_name(index as int),
{
    if index < 27 {
        let mut name = String::from_str("osc");
        let number = match index / 9 {
            0 => "1",
            1 => "2",
            _ => "3",
        };
        name.append(number);
        name.append("_");
        name.append(osc_field(index % 9));
        name
    } else if index < 40 {
        String::from_str(global_field(index - 27))
    } else {
        String::from_str(analog_field(index - 40))
    }
}


/// Length, first, fourth and last character of a control name; no two
/// control names agree in all four.
spec fn name_signature(name: Seq<char>) -> (int, char, char, char) {
    (name.len() as int, name[0], name[3], name[name.len() - 1])
}

/// The control whose name has `signature`.
spec fn signature_index(signature: (int, char, char, char)) -> int {
    if signature == (10int, 'o', '1', 'h') {
        0
    } else if signature == (9int, 'o', '1', 'e') {
        1
    } else if signature == (10int, 'o', '1', 'e') {
        2
    } else if signature == (17int, 'o', '1', 'm') {
        3
    } else if signature == (16int, 'o', '1', 'h') {
        4
    } else if signature == (11int, 'o', '1', 'n') {
        5
    } else if signature == (11int, 'o', '1', 'e') {
        6
    } else if signature == (8int, 'o', '1', 'n') {
        7
    } else if signature == (10int, 'o', '1', 'l') {
        8
    } else if signature == (10int, 'o', '2', 'h') {
        9
    } else if signature == (9int, 'o', '2', 'e') {
        10
    } else if signature == (10int, 'o', '2', 'e') {
        11
    } else if signature == (17int, 'o', '2', 'm') {
        12
    } else if signature == (16int, 'o', '2', 'h') {
        13
    } else if signature == (11int, 'o', '2', 'n') {
        14
    } else if signature == (11int, 'o', '2', 'e') {
        15
    } else if signature == (8int, 'o', '2', 'n') {
        16
    } else if signature == (10int, 'o', '2', 'l') {
        17
    } else if signature == (10int, 'o', '3', 'h') {
        18
    } else if signature == (9int, 'o', '3', 'e') {
        19
    } else if signature == (10int, 'o', '3', 'e') {
        20
    } else if signature == (17int, 'o', '3', 'm') {
        21
    } else if signature == (16int, 'o', '3', 'h') {
        22
    } else if signature == (11int, 'o', '3', 'n') {
        23
    } else if signature == (11int, 'o', '3', 'e') {
        24
    } else if signature == (8int, 'o', '3', 'n') {
        25
    } else if signature == (10int, 'o', '3', 'l') {
        26
    } else if signature == (6int, 'v', 'u', 'e') {
        27
    } else if signature == (6int, 'a', 'a', 'k') {
        28
    } else if signature == (5int, 'd', 'a', 'y') {
        29
    } else if signature == (7int, 's', 't', 'n') {
        30
    } else if signature == (7int, 'r', 'e', 'e') {
        31
    } else if signature == (8int, 'l', '_', 'e') {
        32
    } else if signature == (9int, 'l', '_', 'e') {
        33
    } else if signature == (6int, 'c', 'o', 'f') {
        34
    } else if signature == (9int, 'r', 'o', 'e') {
        35
    } else if signature == (10int, 'm', '_', 'k') {
        36
    } else if signature == (9int, 'm', '_', 'y') {
        37
    } else if signature == (11int, 'm', '_', 'n') {
        38
    } else if signature == (11int, 'm', '_', 'e') {
        39
    } else if signature == (5int, 'n', 's', 'e') {
        40
    } else if signature == (11int, 'o', '1', 'd') {
        41
    } else if signature == (11int, 'o', '2', 'd') {
        42
    } else if signature == (11int, 'o', '3', 'd') {
        43
    } else if signature == (7int, 'o', '2', 'm') {
        44
    } else if signature == (7int, 'o', '3', 'm') {
        45
    } else if signature == (9int, 'o', '2', 'g') {
        46
    } else if signature == (9int, 'o', '3', 'g') {
        47
    } else if signature == (5int, 'g', 'd', 'e') {
        48
    } else if signature == (7int, 'o', '1', 'm') {
        49
    } else if signature == (9int, 'o', '1', 'g') {
        50
    } else if signature == (9int, 'o', '2', 'c') {
        51
    } else if signature == (9int, 'o', '3', 'c') {
        52
    } else {
        -1
    }
}

proof fn lemma_name_signature(index: int)
    requires
        0 <= index < CONTROL_COUNT,
    ensures
        signature_index(name_signature(spec_control_name(index))) == index,
{
    reveal_strlit("1");
    reveal_strlit("2");
    reveal_strlit("3");
    reveal_strlit("_");
    reveal_strlit("attack");
    reveal_strlit("cutoff");
    reveal_strlit("decay");
    reveal_strlit("detune");
    reveal_strlit("fine");
    reveal_strlit("glide");
    reveal_strlit("level");
    reveal_strlit("lfo_phase");
    reveal_strlit("lfo_rate");
    reveal_strlit("mod_attack");
    reveal_strlit("mod_decay");
    reveal_strlit("mod_release");
    reveal_strlit("mod_sustain");
    reveal_strlit("noise");
    reveal_strlit("osc");
    reveal_strlit("osc1_fm");
    reveal_strlit("osc1_ring");
    reveal_strlit("osc1_spread");
    reveal_strlit("osc2_fm");
    reveal_strlit("osc2_ring");
    reveal_strlit("osc2_spread");
    reveal_strlit("osc2_sync");
    reveal_strlit("osc3_fm");
    reveal_strlit("osc3_ring");
    reveal_strlit("osc3_spread");
    reveal_strlit("osc3_sync");
    reveal_strlit("pan");
    reveal_strlit("phase");
    reveal_strlit("phase_random");
    reveal_strlit("pitch");
    reveal_strlit("pulse_width");
    reveal_strlit("release");
    reveal_strlit("resonance");
    reveal_strlit("sustain");
    reveal_strlit("unison");
    reveal_strlit("volume");
    if index == 0 {
        assert(signature_index(name_signature(spec_control_name(0))) == 0);
    } else if index == 1 {
        assert(signature_index(name_signature(spec_control_name(1))) == 1);
    } else if index == 2 {
        assert(signature_index(name_signature(spec_control_name(2))) == 2);
    } else if index == 3 {
        assert(signature_index(name_signature(spec_control_name(3))) == 3);
    } else if index == 4 {
        assert(signature_index(name_signature(spec_control_name(4))) == 4);
    } else if index == 5 {
        assert(signature_index(name_signature(spec_control_name(5))) == 5);
    } else if index == 6 {
        assert(signature_index(name_signature(spec_control_name(6))) == 6);
    } else if index == 7 {
        assert(signature_index(name_signature(spec_control_name(7))) == 7);
    } else if index == 8 {
        assert(signature_index(name_signature(spec_control_name(8))) == 8);
    } else if index == 9 {
        assert(signature_index(name_signature(spec_control_name(9))) == 9);
    } else if index == 10 {
        assert(signature_index(name_signature(spec_control_name(10))) == 10);
    } else if index == 11 {
        assert(signature_index(name_signature(spec_control_name(11))) == 11);
    } else if index == 12 {
        assert(signature_index(name_signature(spec_control_name(12))) == 12);
    } else if index == 13 {
        assert(signature_index(name_signature(spec_control_name(13))) == 13);
    } else if index == 14 {
        assert(signature_index(name_signature(spec_control_name(14))) == 14);
    } else if index == 15 {
        assert(signature_index(name_signature(spec_control_name(15))) == 15);
    } else if index == 16 {
        assert(signature_index(name_signature(spec_control_name(16))) == 16);
    } else if index == 17 {
        assert(signature_index(name_signature(spec_control_name(17))) == 17);
    } else if index == 18 {
        assert(signature_index(name_signature(spec_control_name(18))) == 18);
    } else if index == 19 {
        assert(signature_index(name_signature(spec_control_name(19))) == 19);
    } else if index == 20 {
        assert(signature_index(name_signature(spec_control_name(20))) == 20);
    } else if index == 21 {
        assert(signature_index(name_signature(spec_control_name(21))) == 21);
    } else if index == 22 {
        assert(signature_index(name_signature(spec_control_name(22))) == 22);
    } else if index == 23 {
        assert(signature_index(name_signature(spec_control_name(23))) == 23);
    } else if index == 24 {
        assert(signature_index(name_signature(spec_control_name(24))) == 24);
    } else if index == 25 {
        assert(signature_index(name_signature(spec_control_name(25))) == 25);
    } else if index == 26 {
        assert(signature_index(name_signature(spec_control_name(26))) == 26);
    } else if index == 27 {
        assert(signature_index(name_signature(spec_control_name(27))) == 27);
    } else if index == 28 {
        assert(signature_index(name_signature(spec_control_name(28))) == 28);
    } else if index == 29 {
        assert(signature_index(name_signature(spec_control_name(29))) == 29);
    } else if index == 30 {
        assert(signature_index(name_signature(spec_control_name(30))) == 30);
    } else if index == 31 {
        assert(signature_index(name_signature(spec_control_name(31))) == 31);
    } else if index == 32 {
        assert(signature_index(name_signature(spec_control_name(32))) == 32);
    } else if index == 33 {
        assert(signature_index(name_signature(spec_control_name(33))) == 33);
    } else if index == 34 {
        assert(signature_index(name_signature(spec_control_name(34))) == 34);
    } else if index == 35 {
        assert(signature_index(name_signature(spec_control_name(35))) == 35);
    } else if index == 36 {
        assert(signature_index(name_signature(spec_control_name(36))) == 36);
    } else if index == 37 {
        assert(signature_index(name_signature(spec_control_name(37))) == 37);
    } else if index == 38 {
        assert(signature_index(name_signature(spec_control_name(38))) == 38);
    } else if index == 39 {
        assert(signature_index(name_signature(spec_control_name(39))) == 39);
    } else if index == 40 {
        assert(signature_index(name_signature(spec_control_name(40))) == 40);
    } else if index == 41 {
        assert(signature_index(name_signature(spec_control_name(41))) == 41);
    } else if index == 42 {
        assert(signature_index(name_signature(spec_control_name(42))) == 42);
    } else if index == 43 {
        assert(signature_index(name_signature(spec_control_name(43))) == 43);
    } else if index == 44 {
        assert(signature_index(name_signature(spec_control_name(44))) == 44);
    } else if index == 45 {
        assert(signature_index(name_signature(spec_control_name(45))) == 45);
    } else if index == 46 {
        assert(signature_index(name_signature(spec_control_name(46))) == 46);
    } else if index == 47 {
        assert(signature_index(name_signature(spec_control_name(47))) == 47);
    } else if index == 48 {
        assert(signature_index(name_signature(spec_control_name(48))) == 48);
    } else if index == 49 {
        assert(signature_index(name_signature(spec_control_name(49))) == 49);
    } else if index == 50 {
        assert(signature_index(name_signature(spec_control_name(50))) == 50);
    } else if index == 51 {
        assert(signature_index(name_signature(spec_control_name(51))) == 51);
    } else if index == 52 {
        assert(signature_index(name_signature(spec_control_name(52))) == 52);
    }
}

/// Every patch control has a name of its own.
pub proof fn law_control_names_distinct(i: int, j: int)
    requires
        0 <= i < CONTROL_COUNT,
        0 <= j < CONTROL_COUNT,
        i != j,
    ensures
        spec_control_name(i) != spec_control_name(j),
{
    lemma_name_signature(i);
    lemma_name_signature(j);
}


/// Patch name of the field a target addresses, built from the kind of
/// control and, for per-oscillator controls, the oscillator's number.
pub open spec fn spec_field_name(f: TargetField) -> Seq<char> {
    match f {
        TargetField::Oscillator { oscillator, field } => "osc"@ + spec_osc_number(oscillator as int)
            + "_"@ + spec_osc_field(field as int),
        TargetField::Volume => "volume"@,
        TargetField::Global(i) => spec_global_field(i + 1),
        TargetField::Noise => "noise"@,
        TargetField::Spread(i) => "osc"@ + spec_osc_number(i as int) + "_spread"@,
        TargetField::Fm(i) => "osc"@ + spec_osc_number(i as int) + "_fm"@,
        TargetField::Ring(i) => "osc"@ + spec_osc_number(i as int) + "_ring"@,
        TargetField::Glide => "glide"@,
        TargetField::Sync(i) => "osc"@ + spec_osc_number(i as int) + "_sync"@,
    }
}

/// Every modulation target addresses the field that the patch control of
/// the same index names: target 45, `osc3_fm`, is the FM amount into the
/// third oscillator, and so on for all of them.
pub proof fn law_targets_are_named_by_their_controls(t: int)
    requires
        0 <= t < TARGET_COUNT,
    ensures
        spec_target_field(t) matches Some(f) && spec_field_name(f) == spec_control_name(t),
{
    reveal_strlit("1");
    reveal_strlit("2");
    reveal_strlit("3");
    reveal_strlit("_");
    reveal_strlit("_fm");
    reveal_strlit("_ring");
    reveal_strlit("_spread");
    reveal_strlit("_sync");
    reveal_strlit("attack");
    reveal_strlit("cutoff");
    reveal_strlit("decay");
    reveal_strlit("detune");
    reveal_strlit("fine");
    reveal_strlit("glide");
    reveal_strlit("level");
    reveal_strlit("lfo_phase");
    reveal_strlit("lfo_rate");
    reveal_strlit("mod_attack");
    reveal_strlit("mod_decay");
    reveal_strlit("mod_release");
    reveal_strlit("mod_sustain");
    reveal_strlit("noise");
    reveal_strlit("osc");
    reveal_strlit("osc1_fm");
    reveal_strlit("osc1_ring");
    reveal_strlit("osc1_spread");
    reveal_strlit("osc2_fm");
    reveal_strlit("osc2_ring");
    reveal_strlit("osc2_spread");
    reveal_strlit("osc2_sync");
    reveal_strlit("osc3_fm");
    reveal_strlit("osc3_ring");
    reveal_strlit("osc3_spread");
    reveal_strlit("osc3_sync");
    reveal_strlit("pan");
    reveal_strlit("phase");
    reveal_strlit("phase_random");
    reveal_strlit("pitch");
    reveal_strlit("pulse_width");
    reveal_strlit("release");
    reveal_strlit("resonance");
    reveal_strlit("sustain");
    reveal_strlit("unison");
    reveal_strlit("volume");
    if t == 0 {
        assert(spec_field_name(spec_target_field(0)->0) =~= spec_control_name(0));
    } else if t == 1 {
        assert(spec_field_name(spec_target_field(1)->0) =~= spec_control_name(1));
    } else if t == 2 {
        assert(spec_field_name(spec_target_field(2)->0) =~= spec_control_name(2));
    } else if t == 3 {
        assert(spec_field_name(spec_target_field(3)->0) =~= spec_control_name(3));
    } else if t == 4 {
        assert(spec_field_name(spec_target_field(4)->0) =~= spec_control_name(4));
    } else if t == 5 {
        assert(spec_field_name(spec_target_field(5)->0) =~= spec_control_name(5));
    } else if t == 6 {
        assert(spec_field_name(spec_target_field(6)->0) =~= spec_control_name(6));
    } else if t == 7 {
        assert(spec_field_name(spec_target_field(7)->0) =~= spec_control_name(7));
    } else if t == 8 {
        assert(spec_field_name(spec_target_field(8)->0) =~= spec_control_name(8));
    } else if t == 9 {
        assert(spec_field_name(spec_target_field(9)->0) =~= spec_control_name(9));
    } else if t == 10 {
        assert(spec_field_name(spec_target_field(10)->0) =~= spec_control_name(10));
    } else if t == 11 {
        assert(spec_field_name(spec_target_field(11)->0) =~= spec_control_name(11));
    } else if t == 12 {
        assert(spec_field_name(spec_target_field(12)->0) =~= spec_control_name(12));
    } else if t == 13 {
        assert(spec_field_name(spec_target_field(13)->0) =~= spec_control_name(13));
    } else if t == 14 {
        assert(spec_field_name(spec_target_field(14)->0) =~= spec_control_name(14));
    } else if t == 15 {
        assert(spec_field_name(spec_target_field(15)->0) =~= spec_control_name(15));
    } else if t == 16 {
        assert(spec_field_name(spec_target_field(16)->0) =~= spec_control_name(16));
    } else if t == 17 {
        assert(spec_field_name(spec_target_field(17)->0) =~= spec_control_name(17));
    } else if t == 18 {
        assert(spec_field_name(spec_target_field(18)->0) =~= spec_control_name(18));
    } else if t == 19 {
        assert(spec_field_name(spec_target_field(19)->0) =~= spec_control_name(19));
    } else if t == 20 {
        assert(spec_field_name(spec_target_field(20)->0) =~= spec_control_name(20));
    } else if t == 21 {
        assert(spec_field_name(spec_target_field(21)->0) =~= spec_control_name(21));
    } else if t == 22 {
        assert(spec_field_name(spec_target_field(22)->0) =~= spec_control_name(22));
    } else if t == 23 {
        assert(spec_field_name(spec_target_field(23)->0) =~= spec_control_name(23));
    } else if t == 24 {
        assert(spec_field_name(spec_target_field(24)->0) =~= spec_control_name(24));
    } else if t == 25 {
        assert(spec_field_name(spec_target_field(25)->0) =~= spec_control_name(25));
    } else if t == 26 {
        assert(spec_field_name(spec_target_field(26)->0) =~= spec_control_name(26));
    } else if t == 27 {
        assert(spec_field_name(spec_target_field(27)->0) =~= spec_control_name(27));
    } else if t == 28 {
        assert(spec_field_name(spec_target_field(28)->0) =~= spec_control_name(28));
    } else if t == 29 {
        assert(spec_field_name(spec_target_field(29)->0) =~= spec_control_name(29));
    } else if t == 30 {
        assert(spec_field_name(spec_target_field(30)->0) =~= spec_control_name(30));
    } else if t == 31 {
        assert(spec_field_name(spec_target_field(31)->0) =~= spec_control_name(31));
    } else if t == 32 {
        assert(spec_field_name(spec_target_field(32)->0) =~= spec_control_name(32));
    } else if t == 33 {
        assert(spec_field_name(spec_target_field(33)->0) =~= spec_control_name(33));
    } else if t == 34 {
        assert(spec_field_name(spec_target_field(34)->0) =~= spec_control_name(34));
    } else if t == 35 {
        assert(spec_field_name(spec_target_field(35)->0) =~= spec_control_name(35));
    } else if t == 36 {
        assert(spec_field_name(spec_target_field(36)->0) =~= spec_control_name(36));
    } else if t == 37 {
        assert(spec_field_name(spec_target_field(37)->0) =~= spec_control_name(37));
    } else if t == 38 {
        assert(spec_field_name(spec_target_field(38)->0) =~= spec_control_name(38));
    } else if t == 39 {
        assert(spec_field_name(spec_target_field(39)->0) =~= spec_control_name(39));
    } else if t == 40 {
        assert(spec_field_name(spec_target_field(40)->0) =~= spec_control_name(40));
    } else if t == 41 {
        assert(spec_field_name(spec_target_field(41)->0) =~= spec_control_name(41));
    } else if t == 42 {
        assert(spec_field_name(spec_target_field(42)->0) =~= spec_control_name(42));
    } else if t == 43 {
        assert(spec_field_name(spec_target_field(43)->0) =~= spec_control_name(43));
    } else if t == 44 {
        assert(spec_field_name(spec_target_field(44)->0) =~= spec_control_name(44));
    } else if t == 45 {
        assert(spec_field_name(spec_target_field(45)->0) =~= spec_control_name(45));
    } else if t == 46 {
        assert(spec_field_name(spec_target_field(46)->0) =~= spec_control_name(46));
    } else if t == 47 {
        assert(spec_field_name(spec_target_field(47)->0) =~= spec_control_name(47));
    } else if t == 48 {
        assert(spec_field_name(spec_target_field(48)->0) =~= spec_control_name(48));
    } else if t == 49 {
        assert(spec_field_name(spec_target_field(49)->0) =~= spec_control_name(49));
    } else if t == 50 {
        assert(spec_field_name(spec_target_field(50)->0) =~= spec_control_name(50));
    } else if t == 51 {
        assert(spec_field_name(spec_target_field(51)->0) =~= spec_control_name(51));
    } else if t == 52 {
        assert(spec_field_name(spec_target_field(52)->0) =~= spec_control_name(52));
    }
}

} // verus!
