//! Memory-mapped I/O devices: display, keyboard and timer.
pub mod display;
pub mod keyboard;
pub mod timer;
