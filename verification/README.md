# plasma

A three-oscillator, eight-voice software synthesizer whose control logic is
written in Verus and proved against its contracts.

## Layout

- `src/` — the verified library (`plasma`):
  - `kernel::poly` — the voice allocator: idle-first allocation, oldest-voice
    stealing, retriggering of a repeated note, sustain pedal, the legato key
    stack with last-note priority, trigger crossfades and the active-voice
    count. Its state is modelled by `PolyState`, whose invariant every
    operation keeps; the `law_*` proof functions state the allocator's rules
    over that model.
  - `kernel::params` — waveform, LFO and filter selectors with their numeric
    codes, and the native range of every modulation target.
  - `kernel::dsp` — the seeded SplitMix64 random source.
  - `api::events` — the bounded note FIFO between control handles and the
    audio consumer, with its reset protocol (all-notes-off, overflow); a
    consumer lease serves only the queue it was acquired from.
  - `api::synth`, `api::error` — the validation rules of the control handle.
  - `harness` — command line, request limits and the patch field layout of
    the offline renderer.
  - `ui` — control-panel rules and the options of the measurement run.
- `app/` — the `plasma-render` program and everything that computes on
  floating-point audio: oscillators, envelopes, filters, the voice, the
  parameter snapshot, WAV output and the audio device.
- `tests/` — tests of the library on concrete values.

The graphical control panel is not built from this crate. `src/ui` holds
the rules it applies (which control an edit addresses, the audition keyboard,
the measurement-run options and their acceptance), verified and tested here,
for a panel front end to call.
