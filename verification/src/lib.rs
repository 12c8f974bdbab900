//! A verified CHIP-8 virtual machine core.
//!
//! The machine interprets the fixed 35-instruction CHIP-8 bytecode set over a
//! 4096-byte memory, sixteen 8-bit registers, a 12-bit index register, a
//! bounded call stack and two wall-clock-paced countdown timers, producing a
//! 64x32 monochrome bitmap and reading a 16-key keypad. Rendering, event
//! polling, audio and file loading live outside the library; the core works on
//! plain values and is verified instruction by instruction.

pub mod cpu;
pub mod debugger;
pub mod display;
pub mod keyboard;
pub mod opcodes;
pub mod utils;
