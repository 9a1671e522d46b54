use plasma::kernel::params::LfoWave;
use plasma::ui::controls::{
    AuditionEvent, audition_event, global_control_index, lfo_wave_control, oscillator_panel_index,
    release_failure_message, route_control,
};
use plasma::ui::performance::{Performance, Workload, WorkloadStep};

fn args(list: &[&str]) -> Vec<String> {
    list.iter().map(|a| a.to_string()).collect()
}

fn options(list: &[&str]) -> Result<Performance, String> {
    Performance::new(&args(list))
}

#[test]
fn no_arguments_leave_measurement_off() {
    let p = options(&[]).unwrap();
    assert!(!p.enabled);
    assert_eq!(p.seconds, 5);
    assert_eq!(p.workload, Workload::Idle);
    assert!(!p.no_audio);
}

#[test]
fn perf_flags_set_every_option_and_later_ones_win() {
    let p = options(&[
        "--perf",
        "--perf-workload=controls",
        "--perf-seconds=12",
        "--perf-no-audio",
        "--perf-workload=resize",
    ])
    .unwrap();
    assert!(p.enabled);
    assert!(p.no_audio);
    assert_eq!(p.seconds, 12);
    assert_eq!(p.workload, Workload::Resize);
    assert_eq!(options(&["--perf", "--perf-workload=modulation"]).unwrap().workload, Workload::Modulation);
    assert_eq!(options(&["--perf-workload=idle", "--perf"]).unwrap().workload, Workload::Idle);
}

#[test]
fn durations_are_decimal_seconds_in_range() {
    assert_eq!(options(&["--perf", "--perf-seconds=1"]).unwrap().seconds, 1);
    assert_eq!(options(&["--perf", "--perf-seconds=300"]).unwrap().seconds, 300);
    assert_eq!(options(&["--perf", "--perf-seconds=+7"]).unwrap().seconds, 7);
    assert_eq!(options(&["--perf", "--perf-seconds=007"]).unwrap().seconds, 7);
    for bad in ["--perf-seconds=", "--perf-seconds=+", "--perf-seconds=-3", "--perf-seconds=1.5", "--perf-seconds= 4", "--perf-seconds=99999999999999999999"] {
        assert_eq!(options(&["--perf", bad]), Err("Invalid performance duration".to_string()));
    }
    for out in ["--perf-seconds=0", "--perf-seconds=301", "--perf-seconds=18446744073709551615"] {
        assert_eq!(
            options(&["--perf", out]),
            Err("Performance duration must be 1..300 seconds".to_string())
        );
    }
}

#[test]
fn unknown_arguments_are_named() {
    assert_eq!(options(&["--perf", "--fast"]), Err("Unknown argument: --fast".to_string()));
    assert_eq!(options(&["--perf-workload=busy"]), Err("Unknown argument: --perf-workload=busy".to_string()));
    assert_eq!(options(&["--fast", "--perf-seconds=0"]), Err("Unknown argument: --fast".to_string()));
}

#[test]
fn options_without_perf_are_refused() {
    let refused = Err("Performance options require --perf".to_string());
    assert_eq!(options(&["--perf-no-audio"]), refused);
    assert_eq!(options(&["--perf-workload=controls"]), refused);
    assert_eq!(options(&["--perf-seconds=6"]), refused);
    assert!(!options(&["--perf-seconds=5", "--perf-workload=idle"]).unwrap().enabled);
}

#[test]
fn workloads_act_on_their_ticks() {
    let mut p = options(&["--perf", "--perf-workload=controls"]).unwrap();
    assert_eq!(p.step(0), WorkloadStep::EditCutoff { high: false });
    assert_eq!(p.step(1), WorkloadStep::EditCutoff { high: true });
    assert_eq!(p.step(4), WorkloadStep::EditCutoff { high: false });
    p.workload = Workload::Modulation;
    assert_eq!(p.step(0), WorkloadStep::RouteEverything);
    assert_eq!(p.step(1), WorkloadStep::Nothing);
    p.workload = Workload::Resize;
    assert_eq!(p.step(0), WorkloadStep::Resize { compact: true });
    assert_eq!(p.step(15), WorkloadStep::Resize { compact: false });
    assert_eq!(p.step(30), WorkloadStep::Resize { compact: true });
    assert_eq!(p.step(16), WorkloadStep::Nothing);
    p.workload = Workload::Idle;
    assert_eq!(p.step(0), WorkloadStep::Nothing);
}

#[test]
fn finished_runs_need_a_frame_completion_and_audio() {
    let p = options(&["--perf"]).unwrap();
    let ready = args(&["synth_ready_ms", "audio_ready_ms"]);
    assert_eq!(p.check_run(true, true, &ready), Ok(()));
    assert_eq!(p.check_run(false, true, &ready), Err("No rendered frame was observed".to_string()));
    assert_eq!(
        p.check_run(true, false, &ready),
        Err("Performance run was closed before completion".to_string())
    );
    let audio = Err("Audio did not become ready or failed during measurement; use --perf-no-audio for explicit isolation".to_string());
    assert_eq!(p.check_run(true, true, &args(&["synth_ready_ms"])), audio);
    assert_eq!(p.check_run(true, true, &args(&["audio_ready_ms", "audio_failed_ms"])), audio);
    let isolated = options(&["--perf", "--perf-no-audio"]).unwrap();
    assert_eq!(isolated.check_run(true, true, &args(&[])), Ok(()));
    let off = options(&[]).unwrap();
    assert_eq!(off.check_run(false, false, &args(&[])), Ok(()));
}

#[test]
fn audition_keys_toggle_and_clamp_velocity() {
    assert_eq!(audition_event(0, false, 100), AuditionEvent::NoteOn { note: 60, velocity: 100 });
    assert_eq!(audition_event(12, false, 0), AuditionEvent::NoteOn { note: 72, velocity: 1 });
    assert_eq!(audition_event(4, false, 500), AuditionEvent::NoteOn { note: 64, velocity: 127 });
    assert_eq!(audition_event(4, true, 500), AuditionEvent::NoteOff { note: 64 });
    assert_eq!(
        release_failure_message("Note queue is full".to_string(), "busy"),
        "Note queue is full; could not release all notes: busy"
    );
}

#[test]
fn panel_selectors_and_indices() {
    assert_eq!(lfo_wave_control(0), Ok(LfoWave::Sine));
    assert_eq!(lfo_wave_control(3), Ok(LfoWave::Square));
    assert_eq!(lfo_wave_control(4), Err("Unknown LFO waveform".to_string()));
    assert_eq!(lfo_wave_control(-1), Err("Unknown LFO waveform".to_string()));
    assert_eq!(global_control_index(6), Ok(6));
    assert_eq!(global_control_index(-1), Err("Invalid global index".to_string()));
    assert_eq!(oscillator_panel_index(2), Ok(2));
    assert_eq!(oscillator_panel_index(-2), Err("Invalid oscillator index".to_string()));
    assert_eq!(route_control(50, 1), Ok((50, 1)));
    assert_eq!(route_control(3, -1), Err("Invalid modulation source or target".to_string()));
}
