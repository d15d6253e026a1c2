use potato::{Fault, MemoryError, Quirks, CPU};

fn boot(quirks: Quirks, program: &[u8]) -> CPU {
    let mut cpu = CPU::new();
    cpu.set_quirks(quirks);
    assert_eq!(cpu.load_program(program), Ok(()));
    cpu
}

fn run(cpu: &mut CPU, steps: usize) {
    for _ in 0..steps {
        assert_eq!(cpu.tick(), Ok(false));
    }
}

#[test]
fn default_quirks() {
    let standard = Quirks::default();
    assert!(!standard.shift_reads_y);
    assert!(!standard.memory_moves_index);
    assert!(standard.add_index_sets_flag);
    assert_eq!(CPU::new().quirks(), standard);
}

#[test]
fn set_quirks_changes_only_the_quirks() {
    let mut cpu = CPU::new();
    assert_eq!(cpu.load_program(&[0x6A, 0x01]), Ok(()));
    assert_eq!(cpu.tick(), Ok(false));
    let quirks = Quirks { shift_reads_y: true, memory_moves_index: true, add_index_sets_flag: false };
    cpu.set_quirks(quirks);
    assert_eq!(cpu.quirks(), quirks);
    assert_eq!(cpu.pc(), 0x202);
    assert_eq!(cpu.registers()[0xA], 1);
    assert_eq!(cpu.memory(0x200), Ok(0x6A));
}

#[test]
fn shifts_in_place_by_default() {
    // V1 = 0b0110, V2 = 0b1001, V1 = V1 >> 1
    let mut cpu = boot(Quirks::default(), &[0x61, 0b0110, 0x62, 0b1001, 0x81, 0x26]);
    run(&mut cpu, 3);
    assert_eq!(cpu.registers()[1], 0b0011);
    assert_eq!(cpu.registers()[2], 0b1001);
    assert_eq!(cpu.registers()[0xF], 0);
}

#[test]
fn shifts_read_vy_when_told_so() {
    let quirks = Quirks { shift_reads_y: true, ..Quirks::default() };
    // V1 = 0b0110, V2 = 0b1001, V1 = V2 >> 1
    let mut cpu = boot(quirks, &[0x61, 0b0110, 0x62, 0b1001, 0x81, 0x26]);
    run(&mut cpu, 3);
    assert_eq!(cpu.registers()[1], 0b0100);
    assert_eq!(cpu.registers()[2], 0b1001);
    assert_eq!(cpu.registers()[0xF], 1);
    // V1 = 1, V2 = 0b1100_0001, V1 = V2 << 1
    let mut cpu = boot(quirks, &[0x61, 0x01, 0x62, 0b1100_0001, 0x81, 0x2E]);
    run(&mut cpu, 3);
    assert_eq!(cpu.registers()[1], 0b1000_0010);
    assert_eq!(cpu.registers()[2], 0b1100_0001);
    assert_eq!(cpu.registers()[0xF], 1);
}

#[test]
fn register_dump_and_load_keep_the_index_by_default() {
    let mut cpu = boot(Quirks::default(), &[0xA3, 0x00, 0xF3, 0x55, 0xF3, 0x65]);
    run(&mut cpu, 2);
    assert_eq!(cpu.index(), 0x300);
    run(&mut cpu, 1);
    assert_eq!(cpu.index(), 0x300);
}

#[test]
fn register_dump_and_load_move_the_index_when_told_so() {
    let quirks = Quirks { memory_moves_index: true, ..Quirks::default() };
    // V0 = 0xAA, V1 = 0xBB, I = 0x300, dump V0..V1, dump V0..V1, I = 0x302, load V0..V0
    let mut cpu = boot(
        quirks,
        &[0x60, 0xAA, 0x61, 0xBB, 0xA3, 0x00, 0xF1, 0x55, 0xF1, 0x55, 0xA3, 0x02, 0xF0, 0x65],
    );
    run(&mut cpu, 4);
    assert_eq!(cpu.index(), 0x302);
    run(&mut cpu, 1);
    assert_eq!(cpu.index(), 0x304);
    assert_eq!(cpu.memory(0x300), Ok(0xAA));
    assert_eq!(cpu.memory(0x301), Ok(0xBB));
    assert_eq!(cpu.memory(0x302), Ok(0xAA));
    assert_eq!(cpu.memory(0x303), Ok(0xBB));
    run(&mut cpu, 2);
    assert_eq!(cpu.index(), 0x303);
    assert_eq!(cpu.registers()[0], 0xAA);
    assert_eq!(cpu.registers()[1], 0xBB);
}

#[test]
fn index_may_end_just_past_memory() {
    let quirks = Quirks { memory_moves_index: true, ..Quirks::default() };
    // I = 0xFFF, dump V0: the index register ends at 0x1000.
    let mut cpu = boot(quirks, &[0xAF, 0xFF, 0xF0, 0x55, 0xF0, 0x55]);
    run(&mut cpu, 2);
    assert_eq!(cpu.index(), 0x1000);
    assert_eq!(cpu.tick(), Err(Fault::Memory(MemoryError::OutOfBounds)));
    assert_eq!(cpu.index(), 0x1000);
}

#[test]
fn a_refused_dump_keeps_the_index() {
    let quirks = Quirks { memory_moves_index: true, ..Quirks::default() };
    let mut cpu = boot(quirks, &[0xA0, 0x50, 0xF0, 0x55]);
    run(&mut cpu, 1);
    assert_eq!(cpu.tick(), Err(Fault::Memory(MemoryError::ReadOnly)));
    assert_eq!(cpu.index(), 0x50);
}

#[test]
fn add_index_leaves_the_flag_alone_when_told_so() {
    let quirks = Quirks { add_index_sets_flag: false, ..Quirks::default() };
    // I = 0xFFF, V1 = 1, I += V1
    let mut cpu = boot(quirks, &[0xAF, 0xFF, 0x61, 0x01, 0xF1, 0x1E]);
    run(&mut cpu, 3);
    assert_eq!(cpu.index(), 0x1000);
    assert_eq!(cpu.registers()[0xF], 0);
    let mut cpu = boot(Quirks::default(), &[0xAF, 0xFF, 0x61, 0x01, 0xF1, 0x1E]);
    run(&mut cpu, 3);
    assert_eq!(cpu.index(), 0x1000);
    assert_eq!(cpu.registers()[0xF], 1);
}
