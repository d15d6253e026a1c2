//! The mathematical model of the machine: its state and what one
//! instruction does to it.

use vstd::prelude::*;
use crate::display::Screen;
use crate::instruction::{decoded, DecodeError, Instruction};
use crate::memory::{
    boot_memory, font_in_place, overwritten, with_program, write_error, MemoryError, FONT_START,
    MEMORY_SIZE, PROGRAM_START,
};
use crate::stack::{StackError, STACK_CAPACITY};

verus! {

/// What a step reports when it does not run an instruction to its end.
#[derive(Debug, Clone, Copy, PartialEq, Eq, Structural)]
pub enum Fault {
    /// The word at the program counter encodes no instruction. It has been
    /// passed over and the program can go on.
    Decode(DecodeError),
    /// A call found the stack full, or a return found it empty. The program
    /// has gone wrong.
    Stack(StackError),
    /// The program counter or an instruction reached outside memory, or an
    /// instruction tried to write into the font table. The program has gone
    /// wrong.
    Memory(MemoryError),
}

/// The points on which machines of this family differ. Programs written for
/// one kind may depend on its choice.
#[derive(Debug, Clone, Copy, PartialEq, Eq, Structural)]
pub struct Quirks {
    /// The shifts `8XY6` and `8XYE` shift `V[y]` into `V[x]`, rather than
    /// `V[x]` in place.
    pub shift_reads_y: bool,
    /// The register dump `FX55` and load `FX65` leave the index register
    /// just past the last byte they touched, rather than as it was.
    pub memory_moves_index: bool,
    /// `FX1E` sets `VF` to 1 when the index register leaves the 12-bit
    /// address range, rather than leaving `VF` alone always.
    pub add_index_sets_flag: bool,
}

impl Quirks {
    /// The choices of a machine that is not told otherwise: shifts in place,
    /// index register kept, flag set by `FX1E`.
    pub open spec fn standard() -> Quirks {
        Quirks { shift_reads_y: false, memory_moves_index: false, add_index_sets_flag: true }
    }
}

impl Default for Quirks {
    fn default() -> (q: Self)
        ensures
            q == Quirks::standard(),
    {
        Quirks { shift_reads_y: false, memory_moves_index: false, add_index_sets_flag: true }
    }
}

/// The whole state of the machine.
#[verifier::ext_equal]
pub struct Machine {
    /// Memory, one byte per address.
    pub mem: Seq<u8>,
    /// The address of the next instruction.
    pub pc: int,
    /// The index register.
    pub index: int,
    /// The return addresses, oldest first.
    pub stack: Seq<u16>,
    /// The registers `V0` to `VF`.
    pub v: Seq<u8>,
    /// The delay timer.
    pub delay: u8,
    /// The sound timer.
    pub sound: u8,
    /// For each of the sixteen keys, whether it is held down.
    pub keys: Seq<bool>,
    /// The display.
    pub screen: Screen,
    /// The choices this machine makes where machines differ.
    pub quirks: Quirks,
}

/// What one step yields: the report to the host and the state left behind.
/// `Ok(true)` says that the display may have changed.
#[verifier::ext_equal]
pub struct Outcome {
    pub result: Result<bool, Fault>,
    pub machine: Machine,
}

/// The byte `1` for true and `0` for false.
pub open spec fn flag(b: bool) -> u8 {
    if b {
        1
    } else {
        0
    }
}

/// The sum of two bytes modulo 256.
pub open spec fn add8(a: u8, b: u8) -> u8 {
    if a + b > 255 {
        (a + b - 256) as u8
    } else {
        (a + b) as u8
    }
}

/// The difference of two bytes modulo 256.
pub open spec fn sub8(a: u8, b: u8) -> u8 {
    if a < b {
        (a - b + 256) as u8
    } else {
        (a - b) as u8
    }
}

/// The lowest-numbered key at or after `from` that is held down, or the
/// number of keys if there is none.
pub open spec fn first_pressed(keys: Seq<bool>, from: int) -> int
    decreases keys.len() - from,
{
    if from < 0 || from >= keys.len() {
        keys.len() as int
    } else if keys[from] {
        from
    } else {
        first_pressed(keys, from + 1)
    }
}

impl Machine {
    /// The sizes are right, the registers that hold addresses are 16 bits
    /// wide, the stack is within its capacity and the font table is in place.
    pub open spec fn wf(self) -> bool {
        &&& self.mem.len() == MEMORY_SIZE
        &&& self.v.len() == 16
        &&& self.keys.len() == 16
        &&& self.stack.len() <= STACK_CAPACITY
        &&& 0 <= self.pc <= 0xFFFF
        &&& 0 <= self.index <= 0xFFFF
        &&& self.screen.wf()
        &&& font_in_place(self.mem)
    }

    /// The machine as it is when switched on, with a display of the given
    /// size: memory is zero except for the font table, and so is all else.
    pub open spec fn boot(width: nat, height: nat) -> Machine {
        Machine {
            mem: boot_memory(),
            pc: 0,
            index: 0,
            stack: Seq::empty(),
            v: Seq::new(16, |i: int| 0u8),
            delay: 0,
            sound: 0,
            keys: Seq::new(16, |i: int| false),
            screen: Screen::blank(width, height),
            quirks: Quirks::standard(),
        }
    }

    /// The machine with `program` copied to `PROGRAM_START` and the program
    /// counter set there.
    pub open spec fn loaded(self, program: Seq<u8>) -> Machine {
        Machine {
            mem: with_program(self.mem, program),
            pc: PROGRAM_START as int,
            ..self
        }
    }

    /// Both timers one lower, but never below zero.
    pub open spec fn timers_ticked(self) -> Machine {
        Machine {
            delay: if self.delay > 0 {
                (self.delay - 1) as u8
            } else {
                0
            },
            sound: if self.sound > 0 {
                (self.sound - 1) as u8
            } else {
                0
            },
            ..self
        }
    }

    /// The machine with key `key` held down or released. A key number of 16
    /// or more names no key and changes nothing.
    pub open spec fn with_key(self, key: int, pressed: bool) -> Machine {
        if 0 <= key < 16 {
            Machine { keys: self.keys.update(key, pressed), ..self }
        } else {
            self
        }
    }

    /// Whether key `key` is held down. A key number of 16 or more names no
    /// key, which counts as not held down.
    pub open spec fn key_down(self, key: int) -> bool {
        0 <= key < 16 && self.keys[key]
    }

    /// The instruction word at the program counter, high byte first, if both
    /// of its bytes lie in memory.
    pub open spec fn fetch(self) -> Option<u16> {
        if 0 <= self.pc && self.pc + 1 < MEMORY_SIZE {
            Some((self.mem[self.pc] as int * 256 + self.mem[self.pc + 1] as int) as u16)
        } else {
            None
        }
    }

    /// The machine with register `x` set to `value`.
    pub open spec fn set_reg(self, x: u8, value: u8) -> Machine {
        Machine { v: self.v.update(x as int, value), ..self }
    }

    /// The machine with the program counter moved past one more instruction
    /// if `jump` holds.
    pub open spec fn skip_if(self, jump: bool) -> Machine {
        if jump {
            Machine { pc: self.pc + 2, ..self }
        } else {
            self
        }
    }

    /// The step went through and left the display alone.
    pub open spec fn quiet(self) -> Outcome {
        Outcome { result: Ok(false), machine: self }
    }

    /// The step went through and may have changed the display.
    pub open spec fn redrawn(self) -> Outcome {
        Outcome { result: Ok(true), machine: self }
    }

    /// The byte that a shift shifts: `V[x]`, or `V[y]` if the machine is
    /// told so.
    pub open spec fn shift_operand(self, x: u8, y: u8) -> u8 {
        if self.quirks.shift_reads_y {
            self.v[y as int]
        } else {
            self.v[x as int]
        }
    }

    /// The index register after the registers `V[0]` to `V[x]` have been
    /// stored or loaded: as before, or just past the last byte if the
    /// machine is told so.
    pub open spec fn index_after(self, x: u8) -> int {
        if self.quirks.memory_moves_index {
            self.index + x + 1
        } else {
            self.index
        }
    }

    /// The step stops here: the machine stays as it is and the host is told
    /// why.
    pub open spec fn fault(self, why: Fault) -> Outcome {
        Outcome { result: Err(why), machine: self }
    }

}

impl Machine {
    /// What `instr` does to a machine whose program counter already points
    /// past it. `random` is the byte that a `Random` instruction draws.
    ///
    /// Operands are read before anything is written. Where an instruction
    /// writes both a result and the flag `VF`, the arithmetic ones write the
    /// flag last and the shifts write the result last, so that with `x == 15`
    /// the later write is the one that stays. Where machines differ, the
    /// machine's [`Quirks`] decide.
    pub open spec fn execute(self, instr: Instruction, random: u8) -> Outcome {
        match instr {
            Instruction::ClearScreen => Machine { screen: self.screen.cleared(), ..self }.redrawn(),
            Instruction::Return => if self.stack.len() == 0 {
                self.fault(Fault::Stack(StackError::StackUnderflow))
            } else {
                Machine {
                    pc: self.stack.last() as int,
                    stack: self.stack.drop_last(),
                    ..self
                }.quiet()
            },
            Instruction::Jump { addr } => Machine { pc: addr as int, ..self }.quiet(),
            Instruction::Call { addr } => if self.stack.len() >= STACK_CAPACITY {
                self.fault(Fault::Stack(StackError::StackOverflow))
            } else {
                Machine {
                    pc: addr as int,
                    stack: self.stack.push(self.pc as u16),
                    ..self
                }.quiet()
            },
            Instruction::SkipEqImm { x, nn } => self.skip_if(self.v[x as int] == nn).quiet(),
            Instruction::SkipNeImm { x, nn } => self.skip_if(self.v[x as int] != nn).quiet(),
            Instruction::SkipEq { x, y } => self.skip_if(
                self.v[x as int] == self.v[y as int],
            ).quiet(),
            Instruction::SkipNe { x, y } => self.skip_if(
                self.v[x as int] != self.v[y as int],
            ).quiet(),
            Instruction::LoadImm { x, nn } => self.set_reg(x, nn).quiet(),
            Instruction::AddImm { x, nn } => self.set_reg(x, add8(self.v[x as int], nn)).quiet(),
            Instruction::Move { x, y } => self.set_reg(x, self.v[y as int]).quiet(),
            Instruction::Or { x, y } => self.set_reg(
                x,
                self.v[x as int] | self.v[y as int],
            ).quiet(),
            Instruction::And { x, y } => self.set_reg(
                x,
                self.v[x as int] & self.v[y as int],
            ).quiet(),
            Instruction::Xor { x, y } => self.set_reg(
                x,
                self.v[x as int] ^ self.v[y as int],
            ).quiet(),
            Instruction::Add { x, y } => {
                let a = self.v[x as int];
                let b = self.v[y as int];
                self.set_reg(x, add8(a, b)).set_reg(0xF, flag(a + b > 255)).quiet()
            },
            Instruction::Sub { x, y } => {
                let a = self.v[x as int];
                let b = self.v[y as int];
                self.set_reg(x, sub8(a, b)).set_reg(0xF, flag(a >= b)).quiet()
            },
            Instruction::SubFrom { x, y } => {
                let a = self.v[x as int];
                let b = self.v[y as int];
                self.set_reg(x, sub8(b, a)).set_reg(0xF, flag(b >= a)).quiet()
            },
            Instruction::ShiftRight { x, y } => {
                let a = self.shift_operand(x, y);
                self.set_reg(0xF, a % 2).set_reg(x, a / 2).quiet()
            },
            Instruction::ShiftLeft { x, y } => {
                let a = self.shift_operand(x, y);
                self.set_reg(0xF, a / 128).set_reg(x, ((a * 2) % 256) as u8).quiet()
            },
            Instruction::LoadIndex { addr } => Machine { index: addr as int, ..self }.quiet(),
            Instruction::JumpOffset { addr } => Machine {
                pc: addr + self.v[0],
                ..self
            }.quiet(),
            Instruction::Random { x, nn } => self.set_reg(x, random & nn).quiet(),
            Instruction::Draw { x, y, n } => if self.index + n > MEMORY_SIZE {
                self.fault(Fault::Memory(MemoryError::OutOfBounds))
            } else {
                let col = self.v[x as int];
                let row = self.v[y as int];
                let sprite = self.mem.subrange(self.index, self.index + n);
                Machine { screen: self.screen.blit(col, row, sprite), ..self }.set_reg(
                    0xF,
                    flag(self.screen.collides(col, row, sprite)),
                ).redrawn()
            },
            Instruction::SkipKey { x } => self.skip_if(
                self.key_down(self.v[x as int] as int),
            ).quiet(),
            Instruction::SkipNoKey { x } => self.skip_if(
                !self.key_down(self.v[x as int] as int),
            ).quiet(),
            Instruction::ReadDelay { x } => self.set_reg(x, self.delay).quiet(),
            Instruction::WaitKey { x } => {
                let key = first_pressed(self.keys, 0);
                if key < self.keys.len() {
                    self.set_reg(x, key as u8).quiet()
                } else {
                    Machine { pc: self.pc - 2, ..self }.quiet()
                }
            },
            Instruction::SetDelay { x } => Machine { delay: self.v[x as int], ..self }.quiet(),
            Instruction::SetSound { x } => Machine { sound: self.v[x as int], ..self }.quiet(),
            Instruction::AddIndex { x } => {
                let sum = if self.index + self.v[x as int] > 0xFFFF {
                    self.index + self.v[x as int] - 0x10000
                } else {
                    self.index + self.v[x as int]
                };
                let moved = Machine { index: sum, ..self };
                if self.quirks.add_index_sets_flag && sum > 0xFFF {
                    moved.set_reg(0xF, 1).quiet()
                } else {
                    moved.quiet()
                }
            },
            Instruction::Glyph { x } => Machine {
                index: FONT_START + self.v[x as int],
                ..self
            }.quiet(),
            Instruction::StoreBcd { x } => match write_error(self.index, 3) {
                Some(e) => self.fault(Fault::Memory(e)),
                None => {
                    let a = self.v[x as int];
                    Machine {
                        mem: overwritten(self.mem, self.index, seq![a / 100, (a / 10) % 10, a % 10]),
                        ..self
                    }.quiet()
                },
            },
            Instruction::StoreRegs { x } => match write_error(self.index, x + 1) {
                Some(e) => self.fault(Fault::Memory(e)),
                None => Machine {
                    mem: overwritten(self.mem, self.index, self.v.subrange(0, x + 1)),
                    index: self.index_after(x),
                    ..self
                }.quiet(),
            },
            Instruction::LoadRegs { x } => if self.index + x + 1 > MEMORY_SIZE {
                self.fault(Fault::Memory(MemoryError::OutOfBounds))
            } else {
                Machine {
                    index: self.index_after(x),
                    v: Seq::new(
                        self.v.len(),
                        |i: int|
                            if i <= x {
                                self.mem[self.index + i]
                            } else {
                                self.v[i]
                            },
                    ),
                    ..self
                }.quiet()
            },
        }
    }

    /// One whole step: fetch the word at the program counter, move the
    /// program counter past it, decode and execute. If the word cannot be
    /// fetched nothing changes. If it encodes no instruction, or if the
    /// instruction faults, only the program counter has moved, so that the
    /// next step goes on behind it.
    pub open spec fn step(self, random: u8) -> Outcome {
        match self.fetch() {
            None => self.fault(Fault::Memory(MemoryError::OutOfBounds)),
            Some(word) => {
                let next = Machine { pc: self.pc + 2, ..self };
                match decoded(word) {
                    Ok(instr) => next.execute(instr, random),
                    Err(e) => next.fault(Fault::Decode(e)),
                }
            },
        }
    }
}

} // verus!
