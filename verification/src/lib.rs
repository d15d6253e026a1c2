//! A CHIP-8 style virtual machine: memory, registers, call stack, timers,
//! keypad and a monochrome display, driven one instruction at a time.
//!
//! [`CPU`] is the machine; [`machine::Machine`] is the mathematical state
//! that its contracts speak of.

use vstd::prelude::*;

pub mod cpu;
pub mod display;
pub mod instruction;
pub mod laws;
pub mod machine;
pub mod memory;
mod random;
pub mod stack;

pub use cpu::{CPU, HEIGHT, WIDTH};
pub use display::{Display, BACKGROUND, FOREGROUND};
pub use instruction::{decode, DecodeError, Instruction};
pub use machine::{Fault, Quirks};
pub use memory::{LoadError, Memory, MemoryError, MAX_PROGRAM_SIZE};
pub use stack::{Stack, StackError, STACK_CAPACITY};

verus! {

/// A machine with the standard display and `program` loaded, ready to run
/// from address `0x200`; or `ProgramTooLarge` if the program does not fit.
pub fn init(program: &[u8]) -> (r: Result<CPU, LoadError>)
    ensures
        match r {
            Ok(cpu) => program@.len() <= MAX_PROGRAM_SIZE && cpu@ == machine::Machine::boot(
                WIDTH as nat,
                HEIGHT as nat,
            ).loaded(program@) && cpu@.wf(),
            Err(e) => program@.len() > MAX_PROGRAM_SIZE && e == LoadError::ProgramTooLarge,
        },
{
    let mut cpu = CPU::new();
    match cpu.load_program(program) {
        Ok(()) => Ok(cpu),
        Err(e) => Err(e),
    }
}

} // verus!
