//! An interpreter for an 8-bit fantasy console: 16 general registers, a 4KB
//! memory image, a 16-level call stack, two countdown timers, a 16-key keypad
//! and a 64x32 monochrome framebuffer.

pub mod cpu;
pub mod display;
pub mod keypad;
pub mod laws;
pub mod semantics;
pub mod system;

use vstd::prelude::*;

verus! {

/// The errors a machine can signal: a program that does not fit in memory,
/// a call when the stack already holds 16 return addresses, and a return
/// with an empty stack.
#[derive(Clone, Copy, Debug, PartialEq, Eq, Structural)]
pub enum Chip8Error {
    ProgramTooLarge,
    StackOverflow,
    StackUnderflow,
}

/// What one cycle reports: either a table opcode was executed, or an unknown
/// bit pattern at `pc` was skipped as a no-op. The latter is a diagnostic,
/// not a fault: execution goes on.
#[derive(Clone, Copy, Debug, PartialEq, Eq, Structural)]
pub enum StepNote {
    Executed,
    UnimplementedOpcode { opcode: u16, pc: u16 },
}

} // verus!
