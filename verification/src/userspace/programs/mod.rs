//! Programs that run on the system.
pub mod browser;
