//! The instruction set and the decoder from 16-bit words.

use vstd::prelude::*;

verus! {

/// One decoded instruction. `x` and `y` number registers, `nn` is an 8-bit
/// and `n` a 4-bit immediate, `addr` a 12-bit address.
#[derive(Debug, Clone, Copy, PartialEq, Eq, Structural)]
pub enum Instruction {
    /// `00E0`: turn every pixel off.
    ClearScreen,
    /// `00EE`: return from a subroutine.
    Return,
    /// `1NNN`: jump to `addr`.
    Jump { addr: u16 },
    /// `2NNN`: call the subroutine at `addr`.
    Call { addr: u16 },
    /// `3XNN`: skip the next instruction if `V[x] == nn`.
    SkipEqImm { x: u8, nn: u8 },
    /// `4XNN`: skip the next instruction if `V[x] != nn`.
    SkipNeImm { x: u8, nn: u8 },
    /// `5XY0`: skip the next instruction if `V[x] == V[y]`.
    SkipEq { x: u8, y: u8 },
    /// `6XNN`: `V[x] = nn`.
    LoadImm { x: u8, nn: u8 },
    /// `7XNN`: `V[x] = V[x] + nn`, wrapping, flag untouched.
    AddImm { x: u8, nn: u8 },
    /// `8XY0`: `V[x] = V[y]`.
    Move { x: u8, y: u8 },
    /// `8XY1`: `V[x] = V[x] | V[y]`.
    Or { x: u8, y: u8 },
    /// `8XY2`: `V[x] = V[x] & V[y]`.
    And { x: u8, y: u8 },
    /// `8XY3`: `V[x] = V[x] ^ V[y]`.
    Xor { x: u8, y: u8 },
    /// `8XY4`: `V[x] = V[x] + V[y]`, wrapping; `VF` tells whether it carried.
    Add { x: u8, y: u8 },
    /// `8XY5`: `V[x] = V[x] - V[y]`, wrapping; `VF` tells whether it did not borrow.
    Sub { x: u8, y: u8 },
    /// `8XY6`: `V[x] = V[x] >> 1`; `VF` is the bit shifted out. The shift is
    /// in place: `y` is carried along but not read.
    ShiftRight { x: u8, y: u8 },
    /// `8XY7`: `V[x] = V[y] - V[x]`, wrapping; `VF` tells whether it did not borrow.
    SubFrom { x: u8, y: u8 },
    /// `8XYE`: `V[x] = V[x] << 1`; `VF` is the bit shifted out. The shift is
    /// in place: `y` is carried along but not read.
    ShiftLeft { x: u8, y: u8 },
    /// `9XY0`: skip the next instruction if `V[x] != V[y]`.
    SkipNe { x: u8, y: u8 },
    /// `ANNN`: `index = addr`.
    LoadIndex { addr: u16 },
    /// `BNNN`: jump to `addr + V[0]`.
    JumpOffset { addr: u16 },
    /// `CXNN`: `V[x] = random byte & nn`.
    Random { x: u8, nn: u8 },
    /// `DXYN`: draw the `n`-row sprite at `index` at (`V[x]`, `V[y]`).
    Draw { x: u8, y: u8, n: u8 },
    /// `EX9E`: skip the next instruction if key `V[x]` is pressed.
    SkipKey { x: u8 },
    /// `EXA1`: skip the next instruction if key `V[x]` is not pressed.
    SkipNoKey { x: u8 },
    /// `FX07`: `V[x] = delay timer`.
    ReadDelay { x: u8 },
    /// `FX0A`: store the number of the lowest key held down in `V[x]`; while
    /// none is held down, run this instruction again.
    WaitKey { x: u8 },
    /// `FX15`: `delay timer = V[x]`.
    SetDelay { x: u8 },
    /// `FX18`: `sound timer = V[x]`.
    SetSound { x: u8 },
    /// `FX1E`: `index = index + V[x]`; `VF` is set to 1 if the sum leaves the
    /// 12-bit address range, and left alone otherwise.
    AddIndex { x: u8 },
    /// `FX29`: `index = font table address + V[x]`.
    Glyph { x: u8 },
    /// `FX33`: store the decimal digits of `V[x]` at `index`.
    StoreBcd { x: u8 },
    /// `FX55`: store `V[0]` to `V[x]` at `index`, which stays as it is.
    StoreRegs { x: u8 },
    /// `FX65`: load `V[0]` to `V[x]` from `index`, which stays as it is.
    LoadRegs { x: u8 },
}

/// Why a word could not be decoded.
#[derive(Debug, Clone, Copy, PartialEq, Eq, Structural)]
pub enum DecodeError {
    /// The word is the encoding of no instruction.
    UnknownOpcode(u16),
}

/// Bits 12 to 15 of a word: the instruction family.
pub open spec fn family(word: u16) -> u16 {
    word / 0x1000
}

/// Bits 8 to 11 of a word: the first register number.
pub open spec fn field_x(word: u16) -> u8 {
    ((word / 0x100) % 0x10) as u8
}

/// Bits 4 to 7 of a word: the second register number.
pub open spec fn field_y(word: u16) -> u8 {
    ((word / 0x10) % 0x10) as u8
}

/// Bits 0 to 3 of a word.
pub open spec fn field_n(word: u16) -> u8 {
    (word % 0x10) as u8
}

/// Bits 0 to 7 of a word.
pub open spec fn field_nn(word: u16) -> u8 {
    (word % 0x100) as u8
}

/// Bits 0 to 11 of a word.
pub open spec fn field_nnn(word: u16) -> u16 {
    word % 0x1000
}

/// The arithmetic and logic family, `8XYN`, told apart by `N`.
pub open spec fn decoded_alu(word: u16) -> Result<Instruction, DecodeError> {
    let x = field_x(word);
    let y = field_y(word);
    let n = field_n(word);
    if n == 0x0 {
        Ok(Instruction::Move { x, y })
    } else if n == 0x1 {
        Ok(Instruction::Or { x, y })
    } else if n == 0x2 {
        Ok(Instruction::And { x, y })
    } else if n == 0x3 {
        Ok(Instruction::Xor { x, y })
    } else if n == 0x4 {
        Ok(Instruction::Add { x, y })
    } else if n == 0x5 {
        Ok(Instruction::Sub { x, y })
    } else if n == 0x6 {
        Ok(Instruction::ShiftRight { x, y })
    } else if n == 0x7 {
        Ok(Instruction::SubFrom { x, y })
    } else if n == 0xE {
        Ok(Instruction::ShiftLeft { x, y })
    } else {
        Err(DecodeError::UnknownOpcode(word))
    }
}

/// The timer, key and memory family, `FXNN`, told apart by `NN`.
pub open spec fn decoded_misc(word: u16) -> Result<Instruction, DecodeError> {
    let x = field_x(word);
    let nn = field_nn(word);
    if nn == 0x07 {
        Ok(Instruction::ReadDelay { x })
    } else if nn == 0x0A {
        Ok(Instruction::WaitKey { x })
    } else if nn == 0x15 {
        Ok(Instruction::SetDelay { x })
    } else if nn == 0x18 {
        Ok(Instruction::SetSound { x })
    } else if nn == 0x1E {
        Ok(Instruction::AddIndex { x })
    } else if nn == 0x29 {
        Ok(Instruction::Glyph { x })
    } else if nn == 0x33 {
        Ok(Instruction::StoreBcd { x })
    } else if nn == 0x55 {
        Ok(Instruction::StoreRegs { x })
    } else if nn == 0x65 {
        Ok(Instruction::LoadRegs { x })
    } else {
        Err(DecodeError::UnknownOpcode(word))
    }
}

/// What a word decodes to: its instruction, or `UnknownOpcode` carrying the
/// word if it encodes none.
pub open spec fn decoded(word: u16) -> Result<Instruction, DecodeError> {
    let f = family(word);
    let x = field_x(word);
    let y = field_y(word);
    let n = field_n(word);
    let nn = field_nn(word);
    let addr = field_nnn(word);
    if word == 0x00E0 {
        Ok(Instruction::ClearScreen)
    } else if word == 0x00EE {
        Ok(Instruction::Return)
    } else if f == 0x1 {
        Ok(Instruction::Jump { addr })
    } else if f == 0x2 {
        Ok(Instruction::Call { addr })
    } else if f == 0x3 {
        Ok(Instruction::SkipEqImm { x, nn })
    } else if f == 0x4 {
        Ok(Instruction::SkipNeImm { x, nn })
    } else if f == 0x5 && n == 0 {
        Ok(Instruction::SkipEq { x, y })
    } else if f == 0x6 {
        Ok(Instruction::LoadImm { x, nn })
    } else if f == 0x7 {
        Ok(Instruction::AddImm { x, nn })
    } else if f == 0x8 {
        decoded_alu(word)
    } else if f == 0x9 && n == 0 {
        Ok(Instruction::SkipNe { x, y })
    } else if f == 0xA {
        Ok(Instruction::LoadIndex { addr })
    } else if f == 0xB {
        Ok(Instruction::JumpOffset { addr })
    } else if f == 0xC {
        Ok(Instruction::Random { x, nn })
    } else if f == 0xD {
        Ok(Instruction::Draw { x, y, n })
    } else if f == 0xE && nn == 0x9E {
        Ok(Instruction::SkipKey { x })
    } else if f == 0xE && nn == 0xA1 {
        Ok(Instruction::SkipNoKey { x })
    } else if f == 0xF {
        decoded_misc(word)
    } else {
        Err(DecodeError::UnknownOpcode(word))
    }
}

impl Instruction {
    /// Register numbers and the 4-bit immediate are below 16, addresses
    /// below 4096.
    pub open spec fn valid(self) -> bool {
        match self {
            Instruction::ClearScreen | Instruction::Return => true,
            Instruction::Jump { addr }
            | Instruction::Call { addr }
            | Instruction::LoadIndex { addr }
            | Instruction::JumpOffset { addr } => addr < 0x1000,
            Instruction::SkipEqImm { x, nn }
            | Instruction::SkipNeImm { x, nn }
            | Instruction::LoadImm { x, nn }
            | Instruction::AddImm { x, nn }
            | Instruction::Random { x, nn } => x < 16,
            Instruction::SkipEq { x, y }
            | Instruction::Move { x, y }
            | Instruction::Or { x, y }
            | Instruction::And { x, y }
            | Instruction::Xor { x, y }
            | Instruction::Add { x, y }
            | Instruction::Sub { x, y }
            | Instruction::ShiftRight { x, y }
            | Instruction::SubFrom { x, y }
            | Instruction::ShiftLeft { x, y }
            | Instruction::SkipNe { x, y } => x < 16 && y < 16,
            Instruction::Draw { x, y, n } => x < 16 && y < 16 && n < 16,
            Instruction::SkipKey { x }
            | Instruction::SkipNoKey { x }
            | Instruction::ReadDelay { x }
            | Instruction::WaitKey { x }
            | Instruction::SetDelay { x }
            | Instruction::SetSound { x }
            | Instruction::AddIndex { x }
            | Instruction::Glyph { x }
            | Instruction::StoreBcd { x }
            | Instruction::StoreRegs { x }
            | Instruction::LoadRegs { x } => x < 16,
        }
    }
}

/// Whatever a word decodes to is a valid instruction.
pub proof fn lemma_decoded_valid(word: u16)
    ensures
        decoded(word) matches Ok(instr) ==> instr.valid(),
{
}

/// Decodes one instruction word.
pub fn decode(word: u16) -> (r: Result<Instruction, DecodeError>)
    ensures
        r == decoded(word),
        r matches Ok(instr) ==> instr.valid(),
{
    let f: u16 = word >> 12;
    let x: u8 = ((word >> 8) & 0xF) as u8;
    let y: u8 = ((word >> 4) & 0xF) as u8;
    let n: u8 = (word & 0xF) as u8;
    let nn: u8 = (word & 0xFF) as u8;
    let addr: u16 = word & 0xFFF;
    proof {
        assert(word >> 12 == word / 0x1000) by (bit_vector);
        assert((word >> 8) & 0xF == (word / 0x100) % 0x10) by (bit_vector);
        assert((word >> 4) & 0xF == (word / 0x10) % 0x10) by (bit_vector);
        assert(word & 0xF == word % 0x10) by (bit_vector);
        assert(word & 0xFF == word % 0x100) by (bit_vector);
        assert(word & 0xFFF == word % 0x1000) by (bit_vector);
        lemma_decoded_valid(word);
    }
    if word == 0x00E0 {
        Ok(Instruction::ClearScreen)
    } else if word == 0x00EE {
        Ok(Instruction::Return)
    } else if f == 0x1 {
        Ok(Instruction::Jump { addr })
    } else if f == 0x2 {
        Ok(Instruction::Call { addr })
    } else if f == 0x3 {
        Ok(Instruction::SkipEqImm { x, nn })
    } else if f == 0x4 {
        Ok(Instruction::SkipNeImm { x, nn })
    } else if f == 0x5 && n == 0 {
        Ok(Instruction::SkipEq { x, y })
    } else if f == 0x6 {
        Ok(Instruction::LoadImm { x, nn })
    } else if f == 0x7 {
        Ok(Instruction::AddImm { x, nn })
    } else if f == 0x8 {
        match n {
            0x0 => Ok(Instruction::Move { x, y }),
            0x1 => Ok(Instruction::Or { x, y }),
            0x2 => Ok(Instruction::And { x, y }),
            0x3 => Ok(Instruction::Xor { x, y }),
            0x4 => Ok(Instruction::Add { x, y }),
            0x5 => Ok(Instruction::Sub { x, y }),
            0x6 => Ok(Instruction::ShiftRight { x, y }),
            0x7 => Ok(Instruction::SubFrom { x, y }),
            0xE => Ok(Instruction::ShiftLeft { x, y }),
            _ => Err(DecodeError::UnknownOpcode(word)),
        }
    } else if f == 0x9 && n == 0 {
        Ok(Instruction::SkipNe { x, y })
    } else if f == 0xA {
        Ok(Instruction::LoadIndex { addr })
    } else if f == 0xB {
        Ok(Instruction::JumpOffset { addr })
    } else if f == 0xC {
        Ok(Instruction::Random { x, nn })
    } else if f == 0xD {
        Ok(Instruction::Draw { x, y, n })
    } else if f == 0xE && nn == 0x9E {
        Ok(Instruction::SkipKey { x })
    } else if f == 0xE && nn == 0xA1 {
        Ok(Instruction::SkipNoKey { x })
    } else if f == 0xF {
        match nn {
            0x07 => Ok(Instruction::ReadDelay { x }),
            0x0A => Ok(Instruction::WaitKey { x }),
            0x15 => Ok(Instruction::SetDelay { x }),
            0x18 => Ok(Instruction::SetSound { x }),
            0x1E => Ok(Instruction::AddIndex { x }),
            0x29 => Ok(Instruction::Glyph { x }),
            0x33 => Ok(Instruction::StoreBcd { x }),
            0x55 => Ok(Instruction::StoreRegs { x }),
            0x65 => Ok(Instruction::LoadRegs { x }),
            _ => Err(DecodeError::UnknownOpcode(word)),
        }
    } else {
        Err(DecodeError::UnknownOpcode(word))
    }
}

} // verus!
