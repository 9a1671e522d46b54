pub mod args;
pub mod patch;
