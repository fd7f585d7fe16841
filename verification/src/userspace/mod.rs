//! User programs: the shell and the web browser.
pub mod shell;
pub mod programs;
