//! The processor: the machine's state in executable form and the
//! fetch-decode-execute cycle.

use vstd::prelude::*;
use crate::display::Display;
use crate::instruction::{decode, decoded, Instruction};
use crate::machine::{first_pressed, flag, Fault, Machine, Quirks};
use crate::memory::{LoadError, Memory, MemoryError, MEMORY_SIZE};
use crate::random::random_byte;
use crate::stack::Stack;

verus! {

/// The width of the display of [`CPU::new`], in pixels.
pub const WIDTH: usize = 64;

/// The height of the display of [`CPU::new`], in pixels.
pub const HEIGHT: usize = 32;

/// The machine. Its view is the [`Machine`] it is in.
#[derive(Debug)]
pub struct CPU {
    mem: Memory,
    pc: u16,
    index: u16,
    stack: Stack,
    registers: [u8; 16],
    delay_timer: u8,
    sound_timer: u8,
    keypad: [bool; 16],
    display: Display,
    quirks: Quirks,
}

impl View for CPU {
    type V = Machine;

    closed spec fn view(&self) -> Machine {
        Machine {
            mem: self.mem@,
            pc: self.pc as int,
            index: self.index as int,
            stack: self.stack@,
            v: self.registers@,
            delay: self.delay_timer,
            sound: self.sound_timer,
            keys: self.keypad@,
            screen: self.display@,
            quirks: self.quirks,
        }
    }
}

impl CPU {
    /// Every machine is well formed.
    fn witness_wf(&self)
        ensures
            self@.wf(),
    {
        proof {
            use_type_invariant(&self.mem);
            self.mem.lemma_inv();
            use_type_invariant(&self.stack);
            self.stack.lemma_inv();
            self.display.lemma_view_wf();
        }
    }

    /// A machine with the standard display of `WIDTH` by `HEIGHT` pixels.
    pub fn new() -> (cpu: Self)
        ensures
            cpu@ == Machine::boot(WIDTH as nat, HEIGHT as nat),
            cpu@.wf(),
    {
        Self::with_size(WIDTH, HEIGHT)
    }

    /// A machine with a display of `width` by `height` pixels.
    pub fn with_size(width: usize, height: usize) -> (cpu: Self)
        requires
            width * height <= usize::MAX,
        ensures
            cpu@ == Machine::boot(width as nat, height as nat),
            cpu@.wf(),
    {
        let cpu = CPU {
            mem: Memory::new(),
            pc: 0,
            index: 0,
            stack: Stack::new(),
            registers: [0u8; 16],
            delay_timer: 0,
            sound_timer: 0,
            keypad: [false; 16],
            display: Display::new(width, height),
            quirks: Quirks::default(),
        };
        cpu.witness_wf();
        assert(cpu@.v =~= Seq::new(16, |i: int| 0u8));
        assert(cpu@.keys =~= Seq::new(16, |i: int| false));
        cpu
    }

    /// Loads `program` at address `0x200` and points the program counter
    /// there. A program too long for memory is refused and nothing changes.
    pub fn load_program(&mut self, program: &[u8]) -> (r: Result<(), LoadError>)
        ensures
            program@.len() <= crate::memory::MAX_PROGRAM_SIZE ==> r == Ok::<(), LoadError>(())
                && final(self)@ == old(self)@.loaded(program@),
            program@.len() > crate::memory::MAX_PROGRAM_SIZE ==> r == Err::<(), LoadError>(
                LoadError::ProgramTooLarge,
            ) && final(self)@ == old(self)@,
            final(self)@.wf(),
    {
        match self.mem.load(program) {
            Ok(()) => {
                self.pc = 0x200;
                self.witness_wf();
                Ok(())
            },
            Err(e) => {
                self.witness_wf();
                Err(e)
            },
        }
    }

    /// Counts both timers down by one, stopping at zero.
    pub fn timers(&mut self)
        ensures
            final(self)@ == old(self)@.timers_ticked(),
            final(self)@.wf(),
    {
        self.sound_timer = self.sound_timer.saturating_sub(1);
        self.delay_timer = self.delay_timer.saturating_sub(1);
        self.witness_wf();
    }

    /// Records that key `key` is held down or released. A key number of 16 or
    /// more names no key and changes nothing.
    pub fn set_key(&mut self, key: usize, pressed: bool)
        ensures
            final(self)@ == old(self)@.with_key(key as int, pressed),
            final(self)@.wf(),
    {
        if key < 16 {
            self.keypad[key] = pressed;
        }
        self.witness_wf();
    }

    /// Tells the machine which choices to make where machines differ.
    pub fn set_quirks(&mut self, quirks: Quirks)
        ensures
            final(self)@ == (Machine { quirks, ..old(self)@ }),
            final(self)@.wf(),
    {
        self.quirks = quirks;
        self.witness_wf();
    }

    /// The choices this machine makes where machines differ.
    pub fn quirks(&self) -> (quirks: Quirks)
        ensures
            quirks == self@.quirks,
    {
        self.quirks
    }

    /// Whether key `key` is held down.
    pub fn key(&self, key: usize) -> (down: bool)
        ensures
            down == self@.key_down(key as int),
    {
        key < 16 && self.keypad[key]
    }

    /// The program counter.
    pub fn pc(&self) -> (pc: u16)
        ensures
            pc == self@.pc,
    {
        self.pc
    }

    /// The index register.
    pub fn index(&self) -> (index: u16)
        ensures
            index == self@.index,
    {
        self.index
    }

    /// The registers `V0` to `VF`.
    pub fn registers(&self) -> (v: [u8; 16])
        ensures
            v@ == self@.v,
    {
        self.registers
    }

    /// The delay timer.
    pub fn delay_timer(&self) -> (t: u8)
        ensures
            t == self@.delay,
    {
        self.delay_timer
    }

    /// The sound timer.
    pub fn sound_timer(&self) -> (t: u8)
        ensures
            t == self@.sound,
    {
        self.sound_timer
    }

    /// The number of return addresses on the stack.
    pub fn stack_depth(&self) -> (n: usize)
        ensures
            n == self@.stack.len(),
    {
        self.stack.len()
    }

    /// The byte at `addr`, unless `addr` lies beyond memory.
    pub fn memory(&self, addr: usize) -> (r: Result<u8, MemoryError>)
        ensures
            addr < MEMORY_SIZE ==> r == Ok::<u8, MemoryError>(self@.mem[addr as int]),
            addr >= MEMORY_SIZE ==> r == Err::<u8, MemoryError>(MemoryError::OutOfBounds),
    {
        self.mem.read(addr)
    }

    /// The display.
    pub fn display(&self) -> (d: &Display)
        ensures
            d@ == self@.screen,
    {
        &self.display
    }

    /// Paints the display into `frame`, four bytes per pixel, row by row from
    /// the top-left corner. See [`Display::render`].
    pub fn draw(&self, frame: &mut [u8])
        ensures
            final(frame)@ == self@.screen.frame(old(frame)@),
    {
        self.display.render(frame);
    }
}

impl CPU {
    /// The instruction word at the program counter, high byte first, unless
    /// one of its two bytes lies beyond memory.
    pub fn fetch(&self) -> (r: Result<u16, MemoryError>)
        ensures
            r == match self@.fetch() {
                Some(word) => Ok::<u16, MemoryError>(word),
                None => Err::<u16, MemoryError>(MemoryError::OutOfBounds),
            },
    {
        let at: usize = self.pc as usize;
        match self.mem.read(at) {
            Err(e) => Err(e),
            Ok(hi) => match self.mem.read(at + 1) {
                Err(e) => Err(e),
                Ok(lo) => {
                    assert(((hi as u16) << 8) | (lo as u16) == (hi as u16) * 256 + (lo as u16))
                        by (bit_vector);
                    Ok(((hi as u16) << 8) | (lo as u16))
                },
            },
        }
    }

    /// The lowest-numbered key that is held down, or 16 if none is.
    fn lowest_key(&self) -> (key: usize)
        ensures
            key == first_pressed(self@.keys, 0),
            key <= 16,
    {
        let mut i: usize = 0;
        while i < 16
            invariant
                i <= 16,
                first_pressed(self.keypad@, 0) == first_pressed(self.keypad@, i as int),
            decreases 16 - i,
        {
            if self.keypad[i] {
                return i;
            }
            i = i + 1;
        }
        16
    }

    /// Moves the program counter past one more instruction if `jump` holds.
    fn skip_if(&mut self, jump: bool)
        requires
            old(self).pc <= 0x1000,
        ensures
            final(self)@ == old(self)@.skip_if(jump),
    {
        if jump {
            self.pc = self.pc + 2;
        }
    }

    /// Sets `V[x]` to `result` and then `VF` to `carry`.
    fn set_with_flag(&mut self, x: u8, result: u8, carry: bool)
        requires
            x < 16,
        ensures
            final(self)@ == old(self)@.set_reg(x, result).set_reg(0xF, flag(carry)),
    {
        self.registers[x as usize] = result;
        self.registers[0xF] = if carry {
            1
        } else {
            0
        };
    }

    /// The byte that a shift shifts.
    fn shift_operand(&self, x: u8, y: u8) -> (a: u8)
        requires
            x < 16,
            y < 16,
        ensures
            a == self@.shift_operand(x, y),
    {
        if self.quirks.shift_reads_y {
            self.registers[y as usize]
        } else {
            self.registers[x as usize]
        }
    }

    /// Leaves the index register where it belongs after `V[0]` to `V[x]`
    /// have been stored or loaded.
    fn settle_index(&mut self, x: u8)
        requires
            x < 16,
            old(self).index + x + 1 <= MEMORY_SIZE,
        ensures
            final(self)@ == (Machine { index: old(self)@.index_after(x), ..old(self)@ }),
    {
        if self.quirks.memory_moves_index {
            self.index = self.index + x as u16 + 1;
        }
    }

    /// Sets `VF` to `out` and then `V[x]` to `result`.
    fn set_after_flag(&mut self, x: u8, out: u8, result: u8)
        requires
            x < 16,
        ensures
            final(self)@ == old(self)@.set_reg(0xF, out).set_reg(x, result),
    {
        self.registers[0xF] = out;
        self.registers[x as usize] = result;
    }
}

impl CPU {
    /// `FX33`: stores the hundreds, tens and ones of `V[x]` at the index
    /// register.
    fn store_bcd(&mut self, x: u8) -> (r: Result<bool, Fault>)
        requires
            x < 16,
        ensures
            r == old(self)@.execute(Instruction::StoreBcd { x }, 0).result,
            final(self)@ =~= old(self)@.execute(Instruction::StoreBcd { x }, 0).machine,
    {
        let a = self.registers[x as usize];
        let digits: [u8; 3] = [a / 100, (a / 10) % 10, a % 10];
        assert(digits@ =~= seq![a / 100, (a / 10) % 10, a % 10]);
        match self.mem.store(self.index as usize, digits.as_slice()) {
            Ok(()) => Ok(false),
            Err(e) => Err(Fault::Memory(e)),
        }
    }

    /// `FX55`: stores `V[0]` to `V[x]` at the index register.
    fn store_regs(&mut self, x: u8) -> (r: Result<bool, Fault>)
        requires
            x < 16,
        ensures
            r == old(self)@.execute(Instruction::StoreRegs { x }, 0).result,
            final(self)@ =~= old(self)@.execute(Instruction::StoreRegs { x }, 0).machine,
    {
        let block = vstd::slice::slice_subrange(self.registers.as_slice(), 0, x as usize + 1);
        match self.mem.store(self.index as usize, block) {
            Ok(()) => {
                self.settle_index(x);
                Ok(false)
            },
            Err(e) => Err(Fault::Memory(e)),
        }
    }

    /// `FX65`: loads `V[0]` to `V[x]` from the index register on.
    fn load_regs(&mut self, x: u8) -> (r: Result<bool, Fault>)
        requires
            x < 16,
        ensures
            r == old(self)@.execute(Instruction::LoadRegs { x }, 0).result,
            final(self)@ =~= old(self)@.execute(Instruction::LoadRegs { x }, 0).machine,
    {
        self.witness_wf();
        let start: usize = self.index as usize;
        let count: usize = x as usize + 1;
        match self.mem.span(start, count) {
            Err(e) => Err(Fault::Memory(e)),
            Ok(block) => {
                let mut i: usize = 0;
                while i < count
                    invariant
                        i <= count,
                        count == x + 1,
                        x < 16,
                        block@ == old(self)@.mem.subrange(start as int, start + count),
                        start + count <= MEMORY_SIZE,
                        old(self)@.mem.len() == MEMORY_SIZE,
                        self.mem == old(self).mem,
                        self.pc == old(self).pc,
                        self.index == old(self).index,
                        self.stack == old(self).stack,
                        self.delay_timer == old(self).delay_timer,
                        self.sound_timer == old(self).sound_timer,
                        self.keypad == old(self).keypad,
                        self.display == old(self).display,
                        self.quirks == old(self).quirks,
                        forall|k: int|
                            0 <= k < 16 ==> #[trigger] self.registers@[k] == if k < i {
                                block@[k]
                            } else {
                                old(self).registers@[k]
                            },
                    decreases count - i,
                {
                    self.registers[i] = block[i];
                    i = i + 1;
                }
                self.settle_index(x);
                Ok(false)
            },
        }
    }

    /// `DXYN`: draws the `n`-row sprite at the index register at column
    /// `V[x]`, row `V[y]`, and reports in `VF` whether a pixel went out.
    fn draw_sprite(&mut self, x: u8, y: u8, n: u8) -> (r: Result<bool, Fault>)
        requires
            x < 16,
            y < 16,
        ensures
            r == old(self)@.execute(Instruction::Draw { x, y, n }, 0).result,
            final(self)@ =~= old(self)@.execute(Instruction::Draw { x, y, n }, 0).machine,
    {
        let col = self.registers[x as usize];
        let row = self.registers[y as usize];
        match self.mem.span(self.index as usize, n as usize) {
            Err(e) => Err(Fault::Memory(e)),
            Ok(sprite) => {
                let hit = self.display.blit(col, row, sprite);
                self.registers[0xF] = if hit {
                    1
                } else {
                    0
                };
                Ok(true)
            },
        }
    }
}

impl CPU {
    /// `00E0`: turns every pixel off.
    fn clear_screen(&mut self) -> (r: Result<bool, Fault>)
        ensures
            r == old(self)@.execute(Instruction::ClearScreen, 0).result,
            final(self)@ == old(self)@.execute(Instruction::ClearScreen, 0).machine,
    {
        self.display.clear();
        Ok(true)
    }

    /// `00EE`: returns from a subroutine.
    fn ret(&mut self) -> (r: Result<bool, Fault>)
        ensures
            r == old(self)@.execute(Instruction::Return, 0).result,
            final(self)@ == old(self)@.execute(Instruction::Return, 0).machine,
    {
        match self.stack.pop() {
            Ok(addr) => {
                self.pc = addr;
                Ok(false)
            },
            Err(e) => Err(Fault::Stack(e)),
        }
    }

    /// `1NNN`: continues at `addr`.
    fn jump(&mut self, addr: u16)
        ensures
            final(self)@ == old(self)@.execute(Instruction::Jump { addr }, 0).machine,
    {
        self.pc = addr;
    }

    /// `2NNN`: calls the subroutine at `addr`.
    fn call(&mut self, addr: u16) -> (r: Result<bool, Fault>)
        ensures
            r == old(self)@.execute(Instruction::Call { addr }, 0).result,
            final(self)@ == old(self)@.execute(Instruction::Call { addr }, 0).machine,
    {
        match self.stack.push(self.pc) {
            Ok(()) => {
                self.pc = addr;
                Ok(false)
            },
            Err(e) => Err(Fault::Stack(e)),
        }
    }

    /// `BNNN`: continues at `addr + V[0]`.
    fn jump_offset(&mut self, addr: u16)
        requires
            addr < 0x1000,
        ensures
            final(self)@ == old(self)@.execute(Instruction::JumpOffset { addr }, 0).machine,
    {
        self.pc = addr + self.registers[0] as u16;
    }

    /// `3XNN`: skips the next instruction if `V[x] == nn`.
    fn skip_eq_imm(&mut self, x: u8, nn: u8)
        requires
            x < 16,
            old(self).pc <= 0x1000,
        ensures
            final(self)@ == old(self)@.execute(Instruction::SkipEqImm { x, nn }, 0).machine,
    {
        self.skip_if(self.registers[x as usize] == nn);
    }

    /// `4XNN`: skips the next instruction if `V[x] != nn`.
    fn skip_ne_imm(&mut self, x: u8, nn: u8)
        requires
            x < 16,
            old(self).pc <= 0x1000,
        ensures
            final(self)@ == old(self)@.execute(Instruction::SkipNeImm { x, nn }, 0).machine,
    {
        self.skip_if(self.registers[x as usize] != nn);
    }

    /// `5XY0`: skips the next instruction if `V[x] == V[y]`.
    fn skip_eq(&mut self, x: u8, y: u8)
        requires
            x < 16,
            y < 16,
            old(self).pc <= 0x1000,
        ensures
            final(self)@ == old(self)@.execute(Instruction::SkipEq { x, y }, 0).machine,
    {
        self.skip_if(self.registers[x as usize] == self.registers[y as usize]);
    }

    /// `9XY0`: skips the next instruction if `V[x] != V[y]`.
    fn skip_ne(&mut self, x: u8, y: u8)
        requires
            x < 16,
            y < 16,
            old(self).pc <= 0x1000,
        ensures
            final(self)@ == old(self)@.execute(Instruction::SkipNe { x, y }, 0).machine,
    {
        self.skip_if(self.registers[x as usize] != self.registers[y as usize]);
    }

    /// `EX9E`: skips the next instruction if key `V[x]` is held down.
    fn skip_key(&mut self, x: u8)
        requires
            x < 16,
            old(self).pc <= 0x1000,
        ensures
            final(self)@ == old(self)@.execute(Instruction::SkipKey { x }, 0).machine,
    {
        self.skip_if(self.key(self.registers[x as usize] as usize));
    }

    /// `EXA1`: skips the next instruction if key `V[x]` is not held down.
    fn skip_no_key(&mut self, x: u8)
        requires
            x < 16,
            old(self).pc <= 0x1000,
        ensures
            final(self)@ == old(self)@.execute(Instruction::SkipNoKey { x }, 0).machine,
    {
        self.skip_if(!self.key(self.registers[x as usize] as usize));
    }

    /// `6XNN`: `V[x] = nn`.
    fn load_imm(&mut self, x: u8, nn: u8)
        requires
            x < 16,
        ensures
            final(self)@ == old(self)@.execute(Instruction::LoadImm { x, nn }, 0).machine,
    {
        self.registers[x as usize] = nn;
    }

    /// `7XNN`: `V[x] = V[x] + nn`, wrapping, flag untouched.
    fn add_imm(&mut self, x: u8, nn: u8)
        requires
            x < 16,
        ensures
            final(self)@ == old(self)@.execute(Instruction::AddImm { x, nn }, 0).machine,
    {
        let a = self.registers[x as usize];
        self.registers[x as usize] = a.wrapping_add(nn);
    }

    /// `8XY0`: `V[x] = V[y]`.
    fn mov(&mut self, x: u8, y: u8)
        requires
            x < 16,
            y < 16,
        ensures
            final(self)@ == old(self)@.execute(Instruction::Move { x, y }, 0).machine,
    {
        let b = self.registers[y as usize];
        self.registers[x as usize] = b;
    }

    /// `8XY1`: `V[x] = V[x] | V[y]`.
    fn or(&mut self, x: u8, y: u8)
        requires
            x < 16,
            y < 16,
        ensures
            final(self)@ == old(self)@.execute(Instruction::Or { x, y }, 0).machine,
    {
        let a = self.registers[x as usize];
        let b = self.registers[y as usize];
        self.registers[x as usize] = a | b;
    }

    /// `8XY2`: `V[x] = V[x] & V[y]`.
    fn and(&mut self, x: u8, y: u8)
        requires
            x < 16,
            y < 16,
        ensures
            final(self)@ == old(self)@.execute(Instruction::And { x, y }, 0).machine,
    {
        let a = self.registers[x as usize];
        let b = self.registers[y as usize];
        self.registers[x as usize] = a & b;
    }

    /// `8XY3`: `V[x] = V[x] ^ V[y]`.
    fn xor(&mut self, x: u8, y: u8)
        requires
            x < 16,
            y < 16,
        ensures
            final(self)@ == old(self)@.execute(Instruction::Xor { x, y }, 0).machine,
    {
        let a = self.registers[x as usize];
        let b = self.registers[y as usize];
        self.registers[x as usize] = a ^ b;
    }

    /// `8XY4`: `V[x] = V[x] + V[y]`, wrapping; `VF` tells whether it carried.
    fn add(&mut self, x: u8, y: u8)
        requires
            x < 16,
            y < 16,
        ensures
            final(self)@ == old(self)@.execute(Instruction::Add { x, y }, 0).machine,
    {
        let a = self.registers[x as usize];
        let b = self.registers[y as usize];
        self.set_with_flag(x, a.wrapping_add(b), b > 255 - a);
    }

    /// `8XY5`: `V[x] = V[x] - V[y]`, wrapping; `VF` tells whether it did not borrow.
    fn sub(&mut self, x: u8, y: u8)
        requires
            x < 16,
            y < 16,
        ensures
            final(self)@ == old(self)@.execute(Instruction::Sub { x, y }, 0).machine,
    {
        let a = self.registers[x as usize];
        let b = self.registers[y as usize];
        self.set_with_flag(x, a.wrapping_sub(b), a >= b);
    }

    /// `8XY7`: `V[x] = V[y] - V[x]`, wrapping; `VF` tells whether it did not borrow.
    fn sub_from(&mut self, x: u8, y: u8)
        requires
            x < 16,
            y < 16,
        ensures
            final(self)@ == old(self)@.execute(Instruction::SubFrom { x, y }, 0).machine,
    {
        let a = self.registers[x as usize];
        let b = self.registers[y as usize];
        self.set_with_flag(x, b.wrapping_sub(a), b >= a);
    }

    /// `8XY6`: `V[x] = V[x] >> 1`; `VF` is the bit shifted out.
    fn shift_right(&mut self, x: u8, y: u8)
        requires
            x < 16,
            y < 16,
        ensures
            final(self)@ == old(self)@.execute(Instruction::ShiftRight { x, y }, 0).machine,
    {
        let a = self.shift_operand(x, y);
        assert(a & 1 == a % 2 && a >> 1 == a / 2) by (bit_vector);
        self.set_after_flag(x, a & 1, a >> 1);
    }

    /// `8XYE`: `V[x] = V[x] << 1`; `VF` is the bit shifted out.
    fn shift_left(&mut self, x: u8, y: u8)
        requires
            x < 16,
            y < 16,
        ensures
            final(self)@ == old(self)@.execute(Instruction::ShiftLeft { x, y }, 0).machine,
    {
        let a = self.shift_operand(x, y);
        assert(a >> 7 == a / 128 && a << 1 == ((a * 2) % 256) as u8) by (bit_vector);
        self.set_after_flag(x, a >> 7, a << 1);
    }

    /// `CXNN`: `V[x] = random & nn`.
    fn random(&mut self, x: u8, nn: u8, random: u8)
        requires
            x < 16,
        ensures
            final(self)@ == old(self)@.execute(Instruction::Random { x, nn }, random).machine,
    {
        self.registers[x as usize] = random & nn;
    }

    /// `FX07`: `V[x] = delay timer`.
    fn read_delay(&mut self, x: u8)
        requires
            x < 16,
        ensures
            final(self)@ == old(self)@.execute(Instruction::ReadDelay { x }, 0).machine,
    {
        self.registers[x as usize] = self.delay_timer;
    }

    /// `ANNN`: `index = addr`.
    fn load_index(&mut self, addr: u16)
        ensures
            final(self)@ == old(self)@.execute(Instruction::LoadIndex { addr }, 0).machine,
    {
        self.index = addr;
    }

    /// `FX15`: `delay timer = V[x]`.
    fn set_delay(&mut self, x: u8)
        requires
            x < 16,
        ensures
            final(self)@ == old(self)@.execute(Instruction::SetDelay { x }, 0).machine,
    {
        self.delay_timer = self.registers[x as usize];
    }

    /// `FX18`: `sound timer = V[x]`.
    fn set_sound(&mut self, x: u8)
        requires
            x < 16,
        ensures
            final(self)@ == old(self)@.execute(Instruction::SetSound { x }, 0).machine,
    {
        self.sound_timer = self.registers[x as usize];
    }

    /// `FX1E`: adds `V[x]` to the index register, wrapping at 16 bits, and
    /// sets `VF` to 1 if the sum lies beyond the 12-bit address range.
    fn add_index(&mut self, x: u8)
        requires
            x < 16,
        ensures
            final(self)@ == old(self)@.execute(Instruction::AddIndex { x }, 0).machine,
    {
        self.index = self.index.wrapping_add(self.registers[x as usize] as u16);
        if self.quirks.add_index_sets_flag && self.index > 0x0FFF {
            self.registers[0xF] = 1;
        }
    }

    /// `FX29`: `index = font table + V[x]`.
    fn glyph(&mut self, x: u8)
        requires
            x < 16,
        ensures
            final(self)@ == old(self)@.execute(Instruction::Glyph { x }, 0).machine,
    {
        self.index = 0x050 + self.registers[x as usize] as u16;
    }

    /// `FX0A`: stores the lowest key held down in `V[x]`, or, if none is,
    /// steps back so that the instruction runs again.
    fn wait_key(&mut self, x: u8)
        requires
            x < 16,
            2 <= old(self).pc,
        ensures
            final(self)@ == old(self)@.execute(Instruction::WaitKey { x }, 0).machine,
    {
        let key = self.lowest_key();
        if key < 16 {
            self.registers[x as usize] = key as u8;
        } else {
            self.pc = self.pc - 2;
        }
    }

}

impl CPU {
    /// Executes `instr` on a machine whose program counter already points
    /// past it. `random` is the byte that a `Random` instruction draws.
    fn execute(&mut self, instr: Instruction, random: u8) -> (r: Result<bool, Fault>)
        requires
            instr.valid(),
            2 <= old(self).pc <= 0x1000,
        ensures
            r == old(self)@.execute(instr, random).result,
            final(self)@ == old(self)@.execute(instr, random).machine,
    {
        match instr {
            Instruction::ClearScreen => return self.clear_screen(),
            Instruction::Return => return self.ret(),
            Instruction::Call { addr } => return self.call(addr),
            Instruction::Draw { x, y, n } => return self.draw_sprite(x, y, n),
            Instruction::StoreBcd { x } => return self.store_bcd(x),
            Instruction::StoreRegs { x } => return self.store_regs(x),
            Instruction::LoadRegs { x } => return self.load_regs(x),
            Instruction::Jump { addr } => self.jump(addr),
            Instruction::JumpOffset { addr } => self.jump_offset(addr),
            Instruction::SkipEqImm { x, nn } => self.skip_eq_imm(x, nn),
            Instruction::SkipNeImm { x, nn } => self.skip_ne_imm(x, nn),
            Instruction::SkipEq { x, y } => self.skip_eq(x, y),
            Instruction::SkipNe { x, y } => self.skip_ne(x, y),
            Instruction::SkipKey { x } => self.skip_key(x),
            Instruction::SkipNoKey { x } => self.skip_no_key(x),
            Instruction::LoadImm { x, nn } => self.load_imm(x, nn),
            Instruction::AddImm { x, nn } => self.add_imm(x, nn),
            Instruction::Move { x, y } => self.mov(x, y),
            Instruction::Or { x, y } => self.or(x, y),
            Instruction::And { x, y } => self.and(x, y),
            Instruction::Xor { x, y } => self.xor(x, y),
            Instruction::Add { x, y } => self.add(x, y),
            Instruction::Sub { x, y } => self.sub(x, y),
            Instruction::SubFrom { x, y } => self.sub_from(x, y),
            Instruction::ShiftRight { x, y } => self.shift_right(x, y),
            Instruction::ShiftLeft { x, y } => self.shift_left(x, y),
            Instruction::LoadIndex { addr } => self.load_index(addr),
            Instruction::Random { x, nn } => self.random(x, nn, random),
            Instruction::ReadDelay { x } => self.read_delay(x),
            Instruction::WaitKey { x } => self.wait_key(x),
            Instruction::SetDelay { x } => self.set_delay(x),
            Instruction::SetSound { x } => self.set_sound(x),
            Instruction::AddIndex { x } => self.add_index(x),
            Instruction::Glyph { x } => self.glyph(x),
        }
        Ok(false)
    }

    /// Runs one instruction: fetches the word at the program counter, moves
    /// the program counter past it, decodes and executes. `random` is the
    /// byte that a `Random` instruction draws. Returns whether the display
    /// may have changed.
    ///
    /// When the word cannot be fetched nothing changes. When it encodes no
    /// instruction, or when the instruction faults, only the program counter
    /// has moved, past the word: the host may go on with the next step.
    pub fn step(&mut self, random: u8) -> (r: Result<bool, Fault>)
        ensures
            r == old(self)@.step(random).result,
            final(self)@ == old(self)@.step(random).machine,
            final(self)@.wf(),
    {
        self.witness_wf();
        let r = match self.fetch() {
            Err(e) => Err(Fault::Memory(e)),
            Ok(word) => {
                self.pc = self.pc + 2;
                match decode(word) {
                    Ok(instr) => self.execute(instr, random),
                    Err(e) => Err(Fault::Decode(e)),
                }
            },
        };
        self.witness_wf();
        r
    }

    /// Whether the next step will draw a random byte.
    fn wants_random(&self) -> (b: bool)
        ensures
            b == (self@.fetch() matches Some(word) && decoded(word) matches Ok(
                Instruction::Random { .. },
            )),
    {
        match self.fetch() {
            Ok(word) => match decode(word) {
                Ok(Instruction::Random { .. }) => true,
                _ => false,
            },
            Err(_) => false,
        }
    }

    /// Runs one instruction, as [`CPU::step`] does, drawing the random byte
    /// itself if the instruction asks for one.
    pub fn tick(&mut self) -> (r: Result<bool, Fault>)
        ensures
            exists|random: u8|
                r == (#[trigger] old(self)@.step(random)).result && final(self)@ == old(self)@.step(
                    random,
                ).machine,
            final(self)@.wf(),
    {
        let random = if self.wants_random() {
            random_byte()
        } else {
            0
        };
        self.step(random)
    }
}

} // verus!
