//! VOS: a small virtual computer, its operating system and tools.
use vstd::prelude::*;

pub mod text;
pub mod maps;
pub mod chars;
pub mod words;
pub mod error;
pub mod types;
pub mod traits;
pub mod memory_regions;
pub mod cpu;
pub mod memory;
pub mod io;
pub mod machine;
pub mod kernel;
pub mod assembly;
pub mod lang;
pub mod userspace;
pub mod debugger;

verus! {
}
