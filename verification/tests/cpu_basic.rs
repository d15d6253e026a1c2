use potato::{
    init, DecodeError, Fault, LoadError, MemoryError, StackError, CPU, MAX_PROGRAM_SIZE,
};

fn boot(program: &[u8]) -> CPU {
    let mut cpu = CPU::new();
    assert_eq!(cpu.load_program(program), Ok(()));
    cpu
}

fn run(cpu: &mut CPU, steps: usize) {
    for _ in 0..steps {
        assert_eq!(cpu.tick(), Ok(false));
    }
}

#[test]
fn new_machine_is_blank_but_for_the_font() {
    let cpu = CPU::new();
    assert_eq!(cpu.pc(), 0);
    assert_eq!(cpu.index(), 0);
    assert_eq!(cpu.registers(), [0u8; 16]);
    assert_eq!(cpu.delay_timer(), 0);
    assert_eq!(cpu.sound_timer(), 0);
    assert_eq!(cpu.stack_depth(), 0);
    assert_eq!(cpu.display().width(), 64);
    assert_eq!(cpu.display().height(), 32);
    for key in 0..16 {
        assert!(!cpu.key(key));
    }
    for addr in 0..4096usize {
        let byte = cpu.memory(addr).unwrap();
        if (0x50..0xA0).contains(&addr) {
            assert_eq!(byte, potato::memory::FONT[addr - 0x50]);
        } else {
            assert_eq!(byte, 0);
        }
    }
    assert_eq!(cpu.memory(4096), Err(MemoryError::OutOfBounds));
}

#[test]
fn font_table_holds_the_sixteen_glyphs() {
    let cpu = CPU::new();
    // The glyph of digit d starts at 0x50 + 5 * d.
    let zero: Vec<u8> = (0..5).map(|i| cpu.memory(0x50 + i).unwrap()).collect();
    assert_eq!(zero, vec![0xE0, 0xA0, 0xA0, 0xA0, 0xE0]);
    let one: Vec<u8> = (0..5).map(|i| cpu.memory(0x50 + 5 + i).unwrap()).collect();
    assert_eq!(one, vec![0x40, 0x40, 0x40, 0x40, 0x40]);
    let f: Vec<u8> = (0..5).map(|i| cpu.memory(0x50 + 5 * 15 + i).unwrap()).collect();
    assert_eq!(f, vec![0xE0, 0x80, 0xC0, 0x80, 0x80]);
}

#[test]
fn load_program_copies_bytes_and_sets_pc() {
    let mut cpu = CPU::new();
    assert_eq!(cpu.load_program(&[0x12, 0x34, 0x56]), Ok(()));
    assert_eq!(cpu.pc(), 0x200);
    assert_eq!(cpu.memory(0x200), Ok(0x12));
    assert_eq!(cpu.memory(0x201), Ok(0x34));
    assert_eq!(cpu.memory(0x202), Ok(0x56));
    assert_eq!(cpu.memory(0x203), Ok(0));
    assert_eq!(cpu.memory(0x1FF), Ok(0));
}

#[test]
fn load_program_of_exactly_the_free_space_succeeds() {
    assert_eq!(MAX_PROGRAM_SIZE, 4096 - 0x200);
    let program = vec![0xAB; 4096 - 0x200];
    let mut cpu = CPU::new();
    assert_eq!(cpu.load_program(&program), Ok(()));
    assert_eq!(cpu.pc(), 0x200);
    assert_eq!(cpu.memory(0x200), Ok(0xAB));
    assert_eq!(cpu.memory(0xFFF), Ok(0xAB));
    assert_eq!(cpu.memory(0x1FF), Ok(0));
}

#[test]
fn load_program_one_byte_too_large_fails_and_changes_nothing() {
    let mut cpu = boot(&[0x11, 0x22]);
    cpu.set_key(1, true);
    let before: Vec<u8> = (0..4096).map(|a| cpu.memory(a).unwrap()).collect();
    assert_eq!(cpu.tick(), Ok(false));
    let pc = cpu.pc();
    let program = vec![0xCD; 4096 - 0x200 + 1];
    assert_eq!(cpu.load_program(&program), Err(LoadError::ProgramTooLarge));
    let after: Vec<u8> = (0..4096).map(|a| cpu.memory(a).unwrap()).collect();
    assert_eq!(before, after);
    assert_eq!(cpu.pc(), pc);
    assert!(cpu.key(1));
}

#[test]
fn init_loads_or_refuses() {
    let cpu = init(&[0x60, 0x01]).unwrap();
    assert_eq!(cpu.pc(), 0x200);
    assert_eq!(cpu.memory(0x200), Ok(0x60));
    assert_eq!(cpu.display().width(), 64);
    assert_eq!(cpu.display().height(), 32);
    let too_long = vec![0u8; 3585];
    assert!(matches!(init(&too_long), Err(LoadError::ProgramTooLarge)));
    assert!(init(&[]).is_ok());
}

#[test]
fn timers_count_down_and_stop_at_zero() {
    // V0 = 3, delay = V0, V1 = 1, sound = V1
    let mut cpu = boot(&[0x60, 0x03, 0xF0, 0x15, 0x61, 0x01, 0xF1, 0x18]);
    run(&mut cpu, 4);
    assert_eq!(cpu.delay_timer(), 3);
    assert_eq!(cpu.sound_timer(), 1);
    cpu.timers();
    assert_eq!((cpu.delay_timer(), cpu.sound_timer()), (2, 0));
    cpu.timers();
    assert_eq!((cpu.delay_timer(), cpu.sound_timer()), (1, 0));
    cpu.timers();
    assert_eq!((cpu.delay_timer(), cpu.sound_timer()), (0, 0));
    for _ in 0..1000 {
        cpu.timers();
        assert_eq!((cpu.delay_timer(), cpu.sound_timer()), (0, 0));
    }
}

#[test]
fn timers_leave_the_rest_alone() {
    let mut cpu = boot(&[0x6A, 0x42, 0xFA, 0x15]);
    run(&mut cpu, 2);
    let pc = cpu.pc();
    cpu.timers();
    assert_eq!(cpu.pc(), pc);
    assert_eq!(cpu.registers()[0xA], 0x42);
    assert_eq!(cpu.delay_timer(), 0x41);
}

#[test]
fn read_delay_copies_the_timer() {
    // V1 = 9, delay = V1, V2 = delay
    let mut cpu = boot(&[0x61, 0x09, 0xF1, 0x15, 0xF2, 0x07]);
    run(&mut cpu, 2);
    cpu.timers();
    run(&mut cpu, 1);
    assert_eq!(cpu.registers()[2], 8);
}

#[test]
fn set_key_records_presses_and_ignores_unknown_keys() {
    let mut cpu = CPU::new();
    cpu.set_key(0xF, true);
    assert!(cpu.key(0xF));
    assert!(!cpu.key(0xE));
    cpu.set_key(0xF, false);
    assert!(!cpu.key(0xF));
    cpu.set_key(16, true);
    cpu.set_key(usize::MAX, true);
    for key in 0..16 {
        assert!(!cpu.key(key));
    }
    assert!(!cpu.key(16));
    assert!(!cpu.key(usize::MAX));
}

#[test]
fn fetch_reads_big_endian_and_stops_at_the_end_of_memory() {
    let cpu = boot(&[0xAB, 0xCD]);
    assert_eq!(cpu.fetch(), Ok(0xABCD));
    // Jump to 0xFFF: the second byte of the word would lie beyond memory.
    let mut cpu = boot(&[0x1F, 0xFF]);
    run(&mut cpu, 1);
    assert_eq!(cpu.pc(), 0xFFF);
    assert_eq!(cpu.fetch(), Err(MemoryError::OutOfBounds));
    assert_eq!(cpu.tick(), Err(Fault::Memory(MemoryError::OutOfBounds)));
    assert_eq!(cpu.pc(), 0xFFF);
    assert_eq!(cpu.tick(), Err(Fault::Memory(MemoryError::OutOfBounds)));
}

#[test]
fn last_word_of_memory_can_run() {
    let mut program = vec![0u8; 4096 - 0x200];
    program[0] = 0x1F;
    program[1] = 0xFE;
    program[0xFFE - 0x200] = 0x6B;
    program[0xFFF - 0x200] = 0x77;
    let mut cpu = boot(&program);
    run(&mut cpu, 2);
    assert_eq!(cpu.registers()[0xB], 0x77);
    assert_eq!(cpu.pc(), 0x1000);
    assert_eq!(cpu.tick(), Err(Fault::Memory(MemoryError::OutOfBounds)));
    assert_eq!(cpu.pc(), 0x1000);
}

#[test]
fn unknown_opcode_is_reported_and_passed_over() {
    let words = [0x0123u16, 0x8128, 0xE100, 0xF1FF, 0x5121];
    let mut cpu = boot(&[0x01, 0x23, 0x81, 0x28, 0xE1, 0x00, 0xF1, 0xFF, 0x51, 0x21, 0x6A, 0x01]);
    let before: Vec<u8> = (0..4096).map(|a| cpu.memory(a).unwrap()).collect();
    for (i, word) in words.iter().enumerate() {
        assert_eq!(cpu.tick(), Err(Fault::Decode(DecodeError::UnknownOpcode(*word))));
        assert_eq!(cpu.pc(), 0x202 + 2 * i as u16);
        assert_eq!(cpu.registers(), [0u8; 16]);
        assert_eq!(cpu.index(), 0);
        assert_eq!(cpu.stack_depth(), 0);
    }
    let after: Vec<u8> = (0..4096).map(|a| cpu.memory(a).unwrap()).collect();
    assert_eq!(before, after);
    run(&mut cpu, 1);
    assert_eq!(cpu.registers()[0xA], 1);
}

#[test]
fn blank_memory_is_all_unknown_opcodes() {
    let mut cpu = CPU::new();
    for i in 0..20u16 {
        assert_eq!(cpu.tick(), Err(Fault::Decode(DecodeError::UnknownOpcode(0))));
        assert_eq!(cpu.pc(), 2 * (i + 1));
    }
}

#[test]
fn stack_overflow_and_underflow_are_reported() {
    // 0x200: call 0x200, over and over.
    let mut cpu = boot(&[0x22, 0x00]);
    for depth in 1..=16 {
        assert_eq!(cpu.tick(), Ok(false));
        assert_eq!(cpu.stack_depth(), depth);
        assert_eq!(cpu.pc(), 0x200);
    }
    assert_eq!(cpu.tick(), Err(Fault::Stack(StackError::StackOverflow)));
    assert_eq!(cpu.stack_depth(), 16);
    assert_eq!(cpu.pc(), 0x202);

    let mut cpu = boot(&[0x00, 0xEE]);
    assert_eq!(cpu.tick(), Err(Fault::Stack(StackError::StackUnderflow)));
    assert_eq!(cpu.stack_depth(), 0);
    assert_eq!(cpu.pc(), 0x202);
}
