//! The 32-bit RISC processor: registers, ALU, instruction set and execution.
pub mod registers;
pub mod alu;
pub mod instruction;
pub mod cpu;
