//! A CHIP-8 virtual machine: memory, framebuffer, keypad, tone signal, the
//! processor with its full instruction set, and the per-frame driver.
//!
//! Everything here works on plain values. A host supplies input events and
//! consumes the pixel grid and the tone signal.

pub mod cpu;
pub mod display;
pub mod emulator;
pub mod fault;
pub mod keypad;
pub mod ram;
pub mod speaker;
pub mod state;
