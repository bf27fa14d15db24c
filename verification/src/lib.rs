//! A CHIP-8 virtual machine core: memory image, register file, framebuffer,
//! timers and keypad, with a fetch-decode-execute cycle whose every step is
//! specified over a mathematical model of the machine.

pub mod display;
pub mod error;
pub mod instruction;
pub mod interpreter;
pub mod keypad;
pub mod laws;
pub mod memory;
pub mod semantics;
pub mod timers;
