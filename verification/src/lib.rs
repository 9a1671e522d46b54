//! Verified control logic of a three-oscillator, eight-voice synthesizer:
//! voice allocation and stealing, the legato key stack, sustain, the note
//! FIFO between control threads and the audio consumer, the modulation
//! target table, the seeded random source and the patch field layout.
pub mod kernel;
pub mod api;
pub mod harness;
pub mod ui;
