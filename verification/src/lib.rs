//! A CHIP-8 virtual machine: memory, registers, timers, keypad and a
//! monochrome display, with every instruction specified over a mathematical
//! model of the machine state.
//!
//! - [`Emu`] is the interpreter; [`machine`] holds its model and the meaning
//!   of each instruction, [`laws`] what holds across instructions.
//! - [`chip8::CPU`] and [`cpu::Cpu`] are two smaller cores that decode a
//!   handful of instructions.

pub mod chip8;
pub mod cpu;
pub mod emu;
pub mod isa_laws;
pub mod laws;
pub mod machine;
mod num_specs;
mod rng;
pub mod sprite;

pub use emu::Emu;
pub use machine::{SCREEN_HEIGHT, SCREEN_WIDTH, START_ADDR, VF};
