//! A CHIP-8 interpreter core: memory, registers, call stack, framebuffer,
//! instruction decoding and execution, all with machine-checked contracts.

pub mod decode;
pub mod display;
pub mod error;
pub mod interpreter;
pub mod keypad;
pub mod laws;
pub mod memory;
pub mod registers;
pub mod semantics;
pub mod stack;
