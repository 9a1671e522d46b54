pub mod controls;
pub mod performance;
