//! A CHIP-8 virtual machine, verified with Verus.
//!
//! - [`machine`] is the mathematical model: the state of the machine, what
//!   each opcode does to it, when an opcode faults, what a turn of the engine
//!   and a tick of the timers do, and the laws that follow.
//! - [`chip8`] holds the instruction decoder and the machine itself, whose
//!   operations are proved to do what the model says.
//! - [`display`] is the 64x32 frame buffer with its XOR sprite blit.
//! - [`keyboard`] is the hexadecimal keypad and the wait for a key.
//!
//! The machine does no input or output of its own. The host hands it key
//! events, turns the engine and ticks the timers, and carries out the
//! [`machine::HostAction`] that each of these returns.

pub mod chip8;
pub mod display;
pub mod keyboard;
pub mod machine;
