//! Waveform and mode selectors, their stable numeric codes, the layout of
//! the modulation targets and the native range of every target.
use vstd::prelude::*;
use crate::kernel::error::Error;

verus! {

/// Oscillators per voice.
pub const OSCILLATOR_COUNT: usize = 3;

/// Controls per oscillator: pitch, fine, phase, random phase, pulse width,
/// unison, detune, pan, level.
pub const OSC_FIELD_COUNT: usize = 9;

/// Unison voices per oscillator at most.
pub const MAX_UNISON: usize = 4;

/// Modulation targets: 27 oscillator controls, master gain (27), the twelve
/// global controls (28..40), noise (40), spread (41..44), FM (44, 45),
/// ring (46, 47), glide (48), oscillator 0 self-FM (49) and self-ring (50),
/// and hard sync of oscillators 1 and 2 (51, 52; on at 0.5 and above).
pub const TARGET_COUNT: usize = 53;

/// Global controls: AMP ADSR, LFO rate and phase, cutoff, resonance, MOD ADSR.
pub const GLOBAL_COUNT: usize = 12;

/// Modulation sources: AMP ENV, LFO, MOD ENV, velocity, key tracking, the
/// channel mod wheel and the channel aftertouch.
pub const SOURCE_COUNT: usize = 7;

#[derive(Clone, Copy, Debug, PartialEq, Eq)]
pub enum Waveform {
    Sine,
    Triangle,
    Saw,
    Pulse,
}

#[derive(Clone, Copy, Debug, PartialEq, Eq)]
pub enum LfoWave {
    Sine,
    Triangle,
    Saw,
    Square,
}

#[derive(Clone, Copy, Debug, PartialEq, Eq)]
pub enum FilterMode {
    Lowpass,
    Bandpass,
    Highpass,
}

impl Waveform {
    pub open spec fn spec_code(self) -> u8 {
        match self {
            Waveform::Sine => 0,
            Waveform::Triangle => 1,
            Waveform::Saw => 2,
            Waveform::Pulse => 3,
        }
    }

    /// Stable numeric code, in declaration order.
    pub fn code(&self) -> (c: u8)
        ensures
            c == self.spec_code(),
    {
        match self {
            Waveform::Sine => 0,
            Waveform::Triangle => 1,
            Waveform::Saw => 2,
            Waveform::Pulse => 3,
        }
    }

    /// The waveform of a code; unknown codes read as Sine.
    pub fn from_code(code: u8) -> (w: Waveform)
        ensures
            code <= 3 ==> w.spec_code() == code,
            code > 3 ==> w == Waveform::Sine,
    {
        match code {
            1 => Waveform::Triangle,
            2 => Waveform::Saw,
            3 => Waveform::Pulse,
            _ => Waveform::Sine,
        }
    }
}

impl Default for Waveform {
    fn default() -> (w: Waveform)
        ensures
            w == Waveform::Sine,
    {
        Waveform::Sine
    }
}

impl LfoWave {
    pub open spec fn spec_code(self) -> u64 {
        match self {
            LfoWave::Sine => 0,
            LfoWave::Triangle => 1,
            LfoWave::Saw => 2,
            LfoWave::Square => 3,
        }
    }

    pub fn code(&self) -> (c: u64)
        ensures
            c == self.spec_code(),
    {
        match self {
            LfoWave::Sine => 0,
            LfoWave::Triangle => 1,
            LfoWave::Saw => 2,
            LfoWave::Square => 3,
        }
    }

    /// The wave of a code; unknown codes read as Sine.
    pub fn from_code(code: u64) -> (w: LfoWave)
        ensures
            code <= 3 ==> w.spec_code() == code,
            code > 3 ==> w == LfoWave::Sine,
    {
        match code {
            1 => LfoWave::Triangle,
            2 => LfoWave::Saw,
            3 => LfoWave::Square,
            _ => LfoWave::Sine,
        }
    }
}

impl Default for LfoWave {
    fn default() -> (w: LfoWave)
        ensures
            w == LfoWave::Sine,
    {
        LfoWave::Sine
    }
}

impl FilterMode {
    pub open spec fn spec_code(self) -> u64 {
        match self {
            FilterMode::Lowpass => 0,
            FilterMode::Bandpass => 1,
            FilterMode::Highpass => 2,
        }
    }

    pub fn code(&self) -> (c: u64)
        ensures
            c == self.spec_code(),
    {
        match self {
            FilterMode::Lowpass => 0,
            FilterMode::Bandpass => 1,
            FilterMode::Highpass => 2,
        }
    }

    /// The mode of a code; unknown codes read as Lowpass.
    pub fn from_code(code: u64) -> (m: FilterMode)
        ensures
            code <= 2 ==> m.spec_code() == code,
            code > 2 ==> m == FilterMode::Lowpass,
    {
        match code {
            1 => FilterMode::Bandpass,
            2 => FilterMode::Highpass,
            _ => FilterMode::Lowpass,
        }
    }
}

impl Default for FilterMode {
    fn default() -> (m: FilterMode)
        ensures
            m == FilterMode::Lowpass,
    {
        FilterMode::Lowpass
    }
}

/// Every selector survives its numeric code.
pub proof fn law_codes_round_trip(w: Waveform, l: LfoWave, f: FilterMode)
    ensures
        w.spec_code() <= 3 && l.spec_code() <= 3 && f.spec_code() <= 2,
        forall|v: Waveform| #[trigger] v.spec_code() == w.spec_code() ==> v == w,
        forall|v: LfoWave| #[trigger] v.spec_code() == l.spec_code() ==> v == l,
        forall|v: FilterMode| #[trigger] v.spec_code() == f.spec_code() ==> v == f,
{
}

/// Range of a modulation target in thousandths of its native unit, and
/// whether it travels logarithmically (times, LFO rate, cutoff).
pub open spec fn spec_target_bounds(target: int) -> Option<(i64, i64, bool)> {
    if 0 <= target <= 26 {
        let field = target % (OSC_FIELD_COUNT as int);
        Some(
            if field == 0 {
                (-48_000i64, 48_000i64, false)
            } else if field == 1 {
                (-100_000i64, 100_000i64, false)
            } else if field == 2 || field == 3 || field == 8 {
                (0, 1_000, false)
            } else if field == 4 {
                (10, 990, false)
            } else if field == 5 {
                (1_000, 4_000, false)
            } else if field == 6 {
                (0, 100_000, false)
            } else {
                (-1_000i64, 1_000i64, false)
            },
        )
    } else if target == 27 || target == 30 || target == 33 || target == 35 || target == 38 || (40
        <= target <= 47) || (49 <= target <= 52) {
        Some((0, 1_000, false))
    } else if target == 28 || target == 29 || target == 31 || target == 36 || target == 37 || target
        == 39 {
        Some((1, 10_000, true))
    } else if target == 32 {
        Some((10, 30_000, true))
    } else if target == 34 {
        Some((20_000, 20_000_000, true))
    } else if target == 48 {
        Some((0, 2_000, false))
    } else {
        None
    }
}

/// Native range of `target` in thousandths: (minimum, maximum, logarithmic).
/// Exactly the targets below TARGET_COUNT have a range.
pub fn target_bounds(target: usize) -> (r: Result<(i64, i64, bool), Error>)
    ensures
        match r {
            Ok(b) => spec_target_bounds(target as int) == Some(b),
            Err(e) => spec_target_bounds(target as int) is None && e == Error::InvalidParameter(
                "modulation target",
            ),
        },
{
    if target <= 26 {
        let bounds = match target % OSC_FIELD_COUNT {
            0 => (-48_000, 48_000, false),
            1 => (-100_000, 100_000, false),
            2 | 3 | 8 => (0, 1_000, false),
            4 => (10, 990, false),
            5 => (1_000, 4_000, false),
            6 => (0, 100_000, false),
            _ => (-1_000, 1_000, false),
        };
        return Ok(bounds);
    }
    match target {
        27 | 30 | 33 | 35 | 38 | 40..=47 | 49..=52 => Ok((0, 1_000, false)),
        28 | 29 | 31 | 36 | 37 | 39 => Ok((1, 10_000, true)),
        32 => Ok((10, 30_000, true)),
        34 => Ok((20_000, 20_000_000, true)),
        48 => Ok((0, 2_000, false)),
        _ => Err(Error::InvalidParameter("modulation target")),
    }
}

/// Unison must be 1..=MAX_UNISON voices.
pub fn check_unison(unison: u8) -> (r: Result<(), Error>)
    ensures
        1 <= unison <= MAX_UNISON ==> r is Ok,
        !(1 <= unison <= MAX_UNISON) ==> r == Err::<(), Error>(Error::InvalidParameter("unison")),
{
    if unison < 1 || unison > MAX_UNISON as u8 {
        Err(Error::InvalidParameter("unison"))
    } else {
        Ok(())
    }
}

/// Every target has a nonempty range, and the targets are exactly
/// `0..TARGET_COUNT`.
pub proof fn law_targets_are_dense(target: int)
    ensures
        spec_target_bounds(target) is Some <==> 0 <= target < TARGET_COUNT,
        spec_target_bounds(target) matches Some(b) ==> b.0 < b.1 && (b.2 ==> b.0 > 0),
{
}

/// Oscillator control that sets the number of unison voices.
pub const UNISON_FIELD: usize = 5;

/// What a modulation target addresses; the patch control at the same index
/// sets its base value.
#[derive(Clone, Copy, Debug, PartialEq, Eq)]
pub enum TargetField {
    /// Control `field` of oscillator `oscillator`, fields in the order pitch,
    /// fine, phase, random phase, pulse width, unison, detune, pan, level.
    Oscillator { oscillator: usize, field: usize },
    Volume,
    /// Global control `0..GLOBAL_COUNT`.
    Global(usize),
    Noise,
    /// Unison stereo spread of an oscillator.
    Spread(usize),
    /// FM amount from oscillator 0 into an oscillator.
    Fm(usize),
    /// Ring modulation amount from oscillator 0 into an oscillator.
    Ring(usize),
    Glide,
    /// Hard sync of oscillator 1 or 2 to oscillator 0.
    Sync(usize),
}

pub open spec fn spec_target_field(target: int) -> Option<TargetField> {
    if 0 <= target < 27 {
        Some(
            TargetField::Oscillator {
                oscillator: (target / (OSC_FIELD_COUNT as int)) as usize,
                field: (target % (OSC_FIELD_COUNT as int)) as usize,
            },
        )
    } else if target == 27 {
        Some(TargetField::Volume)
    } else if 28 <= target < 40 {
        Some(TargetField::Global((target - 28) as usize))
    } else if target == 40 {
        Some(TargetField::Noise)
    } else if 41 <= target < 44 {
        Some(TargetField::Spread((target - 41) as usize))
    } else if target == 44 || target == 45 {
        Some(TargetField::Fm((target - 43) as usize))
    } else if target == 46 || target == 47 {
        Some(TargetField::Ring((target - 45) as usize))
    } else if target == 48 {
        Some(TargetField::Glide)
    } else if target == 49 {
        Some(TargetField::Fm(0))
    } else if target == 50 {
        Some(TargetField::Ring(0))
    } else if target == 51 || target == 52 {
        Some(TargetField::Sync((target - 50) as usize))
    } else {
        None
    }
}

/// The field that modulation target `target` addresses.
pub fn target_field(target: usize) -> (r: Result<TargetField, Error>)
    ensures
        match r {
            Ok(f) => spec_target_field(target as int) == Some(f),
            Err(e) => spec_target_field(target as int) is None && e == Error::InvalidParameter(
                "modulation target",
            ),
        },
{
    if target < 27 {
        Ok(
            TargetField::Oscillator {
                oscillator: target / OSC_FIELD_COUNT,
                field: target % OSC_FIELD_COUNT,
            },
        )
    } else if target == 27 {
        Ok(TargetField::Volume)
    } else if target < 40 {
        Ok(TargetField::Global(target - 28))
    } else if target == 40 {
        Ok(TargetField::Noise)
    } else if target < 44 {
        Ok(TargetField::Spread(target - 41))
    } else if target < 46 {
        Ok(TargetField::Fm(target - 43))
    } else if target < 48 {
        Ok(TargetField::Ring(target - 45))
    } else if target == 48 {
        Ok(TargetField::Glide)
    } else if target == 49 {
        Ok(TargetField::Fm(0))
    } else if target == 50 {
        Ok(TargetField::Ring(0))
    } else if target < TARGET_COUNT {
        Ok(TargetField::Sync(target - 50))
    } else {
        Err(Error::InvalidParameter("modulation target"))
    }
}

/// Exactly the targets `0..TARGET_COUNT` address a field, no two the same
/// one, and every field index is in range.
pub proof fn law_target_fields_are_a_layout(t: int, u: int)
    ensures
        spec_target_field(t) is Some <==> 0 <= t < TARGET_COUNT,
        spec_target_field(t) is Some && spec_target_field(u) is Some && t != u
            ==> spec_target_field(t) != spec_target_field(u),
        spec_target_field(t) matches Some(f) ==> match f {
            TargetField::Oscillator { oscillator, field } => oscillator < OSCILLATOR_COUNT
                && field < OSC_FIELD_COUNT,
            TargetField::Global(i) => i < GLOBAL_COUNT,
            TargetField::Spread(i) => i < OSCILLATOR_COUNT,
            TargetField::Fm(i) => i < OSCILLATOR_COUNT,
            TargetField::Ring(i) => i < OSCILLATOR_COUNT,
            TargetField::Sync(i) => 1 <= i < OSCILLATOR_COUNT,
            _ => true,
        },
{
}

} // verus!
