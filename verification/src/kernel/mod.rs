pub mod dsp;
pub mod error;
pub mod params;
pub mod poly;
