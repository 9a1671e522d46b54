use plasma::api::error::Error as ApiError;
use plasma::api::synth::{check_device_format, global_index, oscillator_index, route_index};
use plasma::harness::args::{Command, check_render_rate, check_request_size, check_velocity, parse_args};
use plasma::harness::patch::{CONTROL_COUNT, ModWave, OscWave, control_name};
use plasma::kernel::dsp::Random;
use plasma::kernel::error::Error;
use plasma::kernel::params::{
    FilterMode, LfoWave, SOURCE_COUNT, TARGET_COUNT, TargetField, Waveform, check_unison, target_bounds,
    target_field,
};
use plasma::ui::controls::{OscControl, audition_key, oscillator_control, show_result};

#[test]
fn splitmix_draws_match_reference_values() {
    let mut random = Random::new(0);
    assert_eq!(random.next_bits(), 7956156453446585);
    assert_eq!(random.next_bits(), 3886858653415212);
    assert_eq!(random.next_bits(), 238094247788840);
    let mut a = Random::new(42);
    let mut b = Random::new(42);
    for _ in 0..16 {
        let x = a.next_bits();
        assert_eq!(x, b.next_bits());
        assert!(x < 1 << 53);
    }
}

#[test]
fn target_table_in_thousandths() {
    assert_eq!(target_bounds(0), Ok((-48_000, 48_000, false)));
    assert_eq!(target_bounds(13), Ok((10, 990, false)));
    assert_eq!(target_bounds(23), Ok((1_000, 4_000, false)));
    assert_eq!(target_bounds(27), Ok((0, 1_000, false)));
    assert_eq!(target_bounds(28), Ok((1, 10_000, true)));
    assert_eq!(target_bounds(32), Ok((10, 30_000, true)));
    assert_eq!(target_bounds(34), Ok((20_000, 20_000_000, true)));
    assert_eq!(target_bounds(48), Ok((0, 2_000, false)));
    assert_eq!(target_bounds(49), Ok((0, 1_000, false)));
    assert_eq!(target_bounds(50), Ok((0, 1_000, false)));
    assert_eq!(target_bounds(51), Ok((0, 1_000, false)));
    assert_eq!(target_bounds(52), Ok((0, 1_000, false)));
    assert_eq!(TARGET_COUNT, 53);
    assert_eq!(target_bounds(53), Err(Error::InvalidParameter("modulation target")));
    assert_eq!(target_bounds(TARGET_COUNT), Err(Error::InvalidParameter("modulation target")));
    for target in 0..TARGET_COUNT {
        let (min, max, _) = target_bounds(target).unwrap();
        assert!(min < max);
    }
}

#[test]
fn selector_codes_round_trip() {
    for w in [Waveform::Sine, Waveform::Triangle, Waveform::Saw, Waveform::Pulse] {
        assert_eq!(Waveform::from_code(w.code()), w);
        assert_eq!(Waveform::from(OscWave::from(w)), w);
    }
    for w in [LfoWave::Sine, LfoWave::Triangle, LfoWave::Saw, LfoWave::Square] {
        assert_eq!(LfoWave::from_code(w.code()), w);
        assert_eq!(LfoWave::from(ModWave::from(w)), w);
    }
    for m in [FilterMode::Lowpass, FilterMode::Bandpass, FilterMode::Highpass] {
        assert_eq!(FilterMode::from_code(m.code()), m);
    }
    assert_eq!(Waveform::from_code(9), Waveform::Sine);
    assert_eq!(FilterMode::from_code(3), FilterMode::Lowpass);
    assert_eq!(Waveform::default(), Waveform::Sine);
    assert_eq!(LfoWave::default(), LfoWave::Sine);
    assert_eq!(FilterMode::default(), FilterMode::Lowpass);
}

#[test]
fn unison_must_be_one_to_four() {
    assert_eq!(check_unison(0), Err(Error::InvalidParameter("unison")));
    assert_eq!(check_unison(1), Ok(()));
    assert_eq!(check_unison(4), Ok(()));
    assert_eq!(check_unison(5), Err(Error::InvalidParameter("unison")));
}

#[test]
fn control_names_cover_every_patch_control() {
    assert_eq!(control_name(0), "osc1_pitch");
    assert_eq!(control_name(13), "osc2_pulse_width");
    assert_eq!(control_name(14), "osc2_unison");
    assert_eq!(control_name(26), "osc3_level");
    assert_eq!(control_name(27), "volume");
    assert_eq!(control_name(34), "cutoff");
    assert_eq!(control_name(39), "mod_release");
    assert_eq!(control_name(40), "noise");
    assert_eq!(control_name(48), "glide");
    assert_eq!(control_name(CONTROL_COUNT - 1), "osc3_sync");
}

#[test]
fn command_line_forms() {
    let args = |items: &[&str]| items.iter().map(|s| s.to_string()).collect::<Vec<_>>();
    assert_eq!(
        parse_args(&args(&[])),
        Err("usage: plasma-render --describe | plasma-render REQUEST.json OUTPUT.wav".to_string())
    );
    assert_eq!(parse_args(&args(&["--describe"])), Ok(Command::Describe));
    assert_eq!(
        parse_args(&args(&["--describe", "x"])),
        Err("--describe takes no additional arguments".to_string())
    );
    assert_eq!(parse_args(&args(&["-h", "x"])), Ok(Command::Help));
    assert_eq!(parse_args(&args(&["--help"])), Ok(Command::Help));
    assert!(parse_args(&args(&["req.json"])).unwrap_err().starts_with("missing OUTPUT.wav"));
    assert!(parse_args(&args(&["a", "b", "c"])).unwrap_err().starts_with("too many arguments"));
    assert_eq!(
        parse_args(&args(&["req.json", "out.wav"])),
        Ok(Command::Render { request: "req.json".to_string(), output: "out.wav".to_string() })
    );
}

#[test]
fn request_limits() {
    assert!(check_request_size(65_536).is_ok());
    assert_eq!(check_request_size(65_537), Err("request exceeds 65536 bytes".to_string()));
    assert!(check_render_rate(8_000).is_ok());
    assert!(check_render_rate(192_000).is_ok());
    assert!(check_render_rate(7_999).is_err());
    assert!(check_render_rate(192_001).is_err());
    assert!(check_velocity(127).is_ok());
    assert_eq!(check_velocity(128), Err("velocity must be an integer in 0..=127".to_string()));
}

#[test]
fn index_rules_of_the_control_handle() {
    assert_eq!(oscillator_index(2), Ok(2));
    assert_eq!(oscillator_index(3), Err(ApiError::InvalidOscillator));
    assert_eq!(global_index(11), Ok(11));
    assert_eq!(global_index(12), Err(ApiError::InvalidGlobal));
    assert_eq!(route_index(50, 4), Ok((4, 50)));
    assert_eq!(route_index(51, 5), Ok((5, 51)));
    assert_eq!(route_index(52, 6), Ok((6, 52)));
    assert_eq!(route_index(53, 0), Err(ApiError::InvalidRoute));
    assert_eq!(route_index(0, 7), Err(ApiError::InvalidRoute));
}

#[test]
fn error_messages() {
    assert_eq!(Error::InvalidParameter("pitch").message(), "invalid oscillator parameter: pitch");
    assert_eq!(Error::InvalidSampleRate.message(), "sample rate must be finite and positive");
    let kernel = ApiError::from(Error::InvalidFrequency);
    assert_eq!(kernel.message(), "frequency must be finite and nonnegative");
    assert_eq!(kernel.source(), Some(Error::InvalidFrequency));
    assert_eq!(ApiError::QueueFull.source(), None);
    assert_eq!(
        ApiError::UnsupportedSampleFormat("I8".to_string()).message(),
        "Unsupported default audio sample format: I8; expected f32, i16, or u16"
    );
    assert_eq!(ApiError::StreamStart("busy".to_string()).message(), "Cannot start audio output: busy");
}

#[test]
fn panel_rules() {
    assert_eq!(oscillator_control(6), Ok(OscControl::Unison));
    assert_eq!(oscillator_control(12), Ok(OscControl::Ring));
    assert_eq!(oscillator_control(13), Err("Unknown oscillator parameter".to_string()));
    assert_eq!(audition_key(60), Ok(0));
    assert_eq!(audition_key(72), Ok(12));
    assert!(audition_key(73).is_err());
    let ok = show_result(Ok(()));
    assert!(ok.accepted && ok.message.is_empty());
    let refused = show_result(Err("Unknown waveform".to_string()));
    assert!(!refused.accepted);
    assert_eq!(refused.message, "Unknown waveform");
}

#[test]
fn device_formats_need_channels_and_a_rate() {
    assert_eq!(check_device_format(2, 48_000), Ok(()));
    assert_eq!(check_device_format(1, 8_000), Ok(()));
    assert_eq!(check_device_format(0, 48_000), Err(ApiError::InvalidDeviceFormat));
    assert_eq!(check_device_format(2, 0), Err(ApiError::InvalidDeviceFormat));
}

#[test]
fn target_layout_addresses_each_field_once() {
    assert_eq!(SOURCE_COUNT, 7);
    assert_eq!(target_field(0), Ok(TargetField::Oscillator { oscillator: 0, field: 0 }));
    assert_eq!(target_field(14), Ok(TargetField::Oscillator { oscillator: 1, field: 5 }));
    assert_eq!(target_field(26), Ok(TargetField::Oscillator { oscillator: 2, field: 8 }));
    assert_eq!(target_field(27), Ok(TargetField::Volume));
    assert_eq!(target_field(34), Ok(TargetField::Global(6)));
    assert_eq!(target_field(40), Ok(TargetField::Noise));
    assert_eq!(target_field(43), Ok(TargetField::Spread(2)));
    assert_eq!(target_field(44), Ok(TargetField::Fm(1)));
    assert_eq!(target_field(47), Ok(TargetField::Ring(2)));
    assert_eq!(target_field(48), Ok(TargetField::Glide));
    assert_eq!(target_field(49), Ok(TargetField::Fm(0)));
    assert_eq!(target_field(50), Ok(TargetField::Ring(0)));
    assert_eq!(target_field(51), Ok(TargetField::Sync(1)));
    assert_eq!(target_field(52), Ok(TargetField::Sync(2)));
    assert_eq!(target_field(53), Err(Error::InvalidParameter("modulation target")));
    let fields: Vec<TargetField> = (0..TARGET_COUNT).map(|t| target_field(t).unwrap()).collect();
    for i in 0..TARGET_COUNT {
        for j in 0..i {
            assert_ne!(fields[i], fields[j]);
        }
    }
}

#[test]
fn control_names_are_distinct() {
    let names: Vec<String> = (0..CONTROL_COUNT).map(control_name).collect();
    for i in 0..CONTROL_COUNT {
        for j in 0..i {
            assert_ne!(names[i], names[j]);
        }
    }
}
