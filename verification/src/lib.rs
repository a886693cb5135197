//! A virtual machine for an 8-bit interpreted instruction set: sixteen
//! registers, 4 KiB of memory, a sixteen-frame call stack, two countdown
//! timers, a 64x32 monochrome framebuffer and a sixteen-key input latch.
//!
//! `model` gives the mathematical meaning of every instruction and of one
//! whole step; `chip` holds the executable machine, proved against it;
//! `laws` states what follows for programs; `debugger` holds the trace record.

pub mod model;
pub mod chip;
pub mod laws;
pub mod debugger;
