pub mod error;
pub mod events;
pub mod synth;
