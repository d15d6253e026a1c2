use potato::{decode, DecodeError, Instruction};

#[test]
fn decodes_fixed_words() {
    assert_eq!(decode(0x00E0), Ok(Instruction::ClearScreen));
    assert_eq!(decode(0x00EE), Ok(Instruction::Return));
}

#[test]
fn decodes_address_forms() {
    assert_eq!(decode(0x1ABC), Ok(Instruction::Jump { addr: 0xABC }));
    assert_eq!(decode(0x2FFF), Ok(Instruction::Call { addr: 0xFFF }));
    assert_eq!(decode(0xA123), Ok(Instruction::LoadIndex { addr: 0x123 }));
    assert_eq!(decode(0xB000), Ok(Instruction::JumpOffset { addr: 0 }));
}

#[test]
fn decodes_register_and_byte_forms() {
    assert_eq!(decode(0x3A7F), Ok(Instruction::SkipEqImm { x: 0xA, nn: 0x7F }));
    assert_eq!(decode(0x4B01), Ok(Instruction::SkipNeImm { x: 0xB, nn: 0x01 }));
    assert_eq!(decode(0x6C9D), Ok(Instruction::LoadImm { x: 0xC, nn: 0x9D }));
    assert_eq!(decode(0x7DFF), Ok(Instruction::AddImm { x: 0xD, nn: 0xFF }));
    assert_eq!(decode(0xCE0F), Ok(Instruction::Random { x: 0xE, nn: 0x0F }));
}

#[test]
fn decodes_two_register_forms() {
    assert_eq!(decode(0x5120), Ok(Instruction::SkipEq { x: 1, y: 2 }));
    assert_eq!(decode(0x9340), Ok(Instruction::SkipNe { x: 3, y: 4 }));
    assert_eq!(decode(0x8120), Ok(Instruction::Move { x: 1, y: 2 }));
    assert_eq!(decode(0x8121), Ok(Instruction::Or { x: 1, y: 2 }));
    assert_eq!(decode(0x8122), Ok(Instruction::And { x: 1, y: 2 }));
    assert_eq!(decode(0x8123), Ok(Instruction::Xor { x: 1, y: 2 }));
    assert_eq!(decode(0x8124), Ok(Instruction::Add { x: 1, y: 2 }));
    assert_eq!(decode(0x8125), Ok(Instruction::Sub { x: 1, y: 2 }));
    assert_eq!(decode(0x8126), Ok(Instruction::ShiftRight { x: 1, y: 2 }));
    assert_eq!(decode(0x8127), Ok(Instruction::SubFrom { x: 1, y: 2 }));
    assert_eq!(decode(0x812E), Ok(Instruction::ShiftLeft { x: 1, y: 2 }));
    assert_eq!(decode(0xDAB5), Ok(Instruction::Draw { x: 0xA, y: 0xB, n: 5 }));
}

#[test]
fn decodes_key_and_timer_forms() {
    assert_eq!(decode(0xE19E), Ok(Instruction::SkipKey { x: 1 }));
    assert_eq!(decode(0xE2A1), Ok(Instruction::SkipNoKey { x: 2 }));
    assert_eq!(decode(0xF307), Ok(Instruction::ReadDelay { x: 3 }));
    assert_eq!(decode(0xF40A), Ok(Instruction::WaitKey { x: 4 }));
    assert_eq!(decode(0xF515), Ok(Instruction::SetDelay { x: 5 }));
    assert_eq!(decode(0xF618), Ok(Instruction::SetSound { x: 6 }));
    assert_eq!(decode(0xF71E), Ok(Instruction::AddIndex { x: 7 }));
    assert_eq!(decode(0xF829), Ok(Instruction::Glyph { x: 8 }));
    assert_eq!(decode(0xF933), Ok(Instruction::StoreBcd { x: 9 }));
    assert_eq!(decode(0xFA55), Ok(Instruction::StoreRegs { x: 0xA }));
    assert_eq!(decode(0xFB65), Ok(Instruction::LoadRegs { x: 0xB }));
}

#[test]
fn rejects_words_that_encode_nothing() {
    for word in [0x0000u16, 0x0123, 0x00E1, 0x5121, 0x9345, 0x8128, 0x812D, 0x812F, 0xE100, 0xE19F,
        0xF000, 0xF166, 0xFFFF]
    {
        assert_eq!(decode(word), Err(DecodeError::UnknownOpcode(word)));
    }
}

#[test]
fn every_word_decodes_to_fields_in_range() {
    let mut known = 0u32;
    for word in 0..=0xFFFFu16 {
        match decode(word) {
            Err(DecodeError::UnknownOpcode(w)) => assert_eq!(w, word),
            Ok(instr) => {
                known += 1;
                match instr {
                    Instruction::Jump { addr }
                    | Instruction::Call { addr }
                    | Instruction::LoadIndex { addr }
                    | Instruction::JumpOffset { addr } => assert_eq!(addr, word & 0xFFF),
                    Instruction::Draw { x, y, n } => {
                        assert_eq!(x as u16, (word >> 8) & 0xF);
                        assert_eq!(y as u16, (word >> 4) & 0xF);
                        assert_eq!(n as u16, word & 0xF);
                    }
                    Instruction::LoadImm { x, nn } => {
                        assert_eq!(x as u16, (word >> 8) & 0xF);
                        assert_eq!(nn as u16, word & 0xFF);
                    }
                    _ => {}
                }
            }
        }
    }
    // 2 fixed words, 10 whole families, 5XY0 and 9XY0, nine of 8XYN,
    // two of EXNN and nine of FXNN.
    assert_eq!(known, 2 + 10 * 4096 + 2 * 256 + 9 * 256 + 2 * 16 + 9 * 16);
}
