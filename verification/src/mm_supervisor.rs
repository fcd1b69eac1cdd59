//! MM Supervisor with single-field save state reads.

pub mod save_state;
