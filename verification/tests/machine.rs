use ule::error::VmError;
use ule::machine::{Machine, IMMEDIATE, PROGRAM_COUNTER};
use ule::memory::MEMORY_SIZE;
use ule::mods::{initialize_mods, start_mods, ModReport};

/// The four bytes of the move of `source` into `destination`.
fn mov(source: u16, destination: u16) -> [u8; 4] {
    let s = source.to_be_bytes();
    let d = destination.to_be_bytes();
    [s[0], s[1], d[0], d[1]]
}

fn imm(value: u16) -> u16 {
    IMMEDIATE | value
}

fn image(moves: &[[u8; 4]]) -> Vec<u8> {
    let mut bytes = Vec::new();
    for m in moves {
        bytes.extend_from_slice(m);
    }
    bytes
}

#[test]
fn new_machine_is_zeroed_and_running() {
    let m = Machine::new("").unwrap();
    assert!(!m.is_halted());
    assert_eq!(m.fault(), None);
    for slot in 0..36 {
        assert_eq!(m.register(slot), Some(0));
    }
    assert_eq!(m.register(36), None);
    assert_eq!(m.word(0), Ok(0));
    assert_eq!(m.word(MEMORY_SIZE), Err(VmError::OutOfBounds));
}

#[test]
fn new_copies_the_image_to_the_start() {
    let m = Machine::new("abcdEFGH").unwrap();
    assert_eq!(m.word(0), Ok(0x6162_6364));
    assert_eq!(m.word(1), Ok(0x4546_4748));
    assert_eq!(m.word(2), Ok(0));
}

#[test]
fn new_rejects_a_ragged_image() {
    assert_eq!(Machine::new("abc").err(), Some(VmError::InvalidProgramLength));
    assert_eq!(Machine::from_image(&[0; 6]).err(), Some(VmError::InvalidProgramLength));
}

#[test]
fn new_rejects_an_image_that_does_not_fit() {
    let too_long = vec![0u8; 4 * MEMORY_SIZE + 4];
    assert_eq!(Machine::from_image(&too_long).err(), Some(VmError::OutOfBounds));
    let ragged_and_long = vec![0u8; 4 * MEMORY_SIZE + 5];
    assert_eq!(Machine::from_image(&ragged_and_long).err(), Some(VmError::InvalidProgramLength));
    let full = vec![0u8; 4 * MEMORY_SIZE];
    assert!(Machine::from_image(&full).is_ok());
}

#[test]
fn immediate_moves_compute_a_sum() {
    let program = image(&[mov(imm(2), 0), mov(imm(3), 1), mov(2, 30)]);
    let mut m = Machine::from_image(&program).unwrap();
    assert_eq!(m.step(), false);
    assert_eq!(m.register(0), Some(2));
    assert_eq!(m.register(PROGRAM_COUNTER), Some(1));
    assert_eq!(m.step(), false);
    assert_eq!(m.register(2), Some(5));
    assert_eq!(m.step(), false);
    assert_eq!(m.register(30), Some(5));
    assert_eq!(m.register(PROGRAM_COUNTER), Some(3));
}

#[test]
fn largest_immediate_is_not_sign_extended() {
    let program = image(&[mov(0xFFFF, 30)]);
    let mut m = Machine::from_image(&program).unwrap();
    m.step();
    assert_eq!(m.register(30), Some(32767));
}

#[test]
fn jump_overrides_the_increment() {
    let target: u16 = 1234;
    let program = image(&[mov(imm(target), PROGRAM_COUNTER as u16), mov(imm(1), 30)]);
    let mut m = Machine::from_image(&program).unwrap();
    assert_eq!(m.step(), false);
    assert_eq!(m.register(PROGRAM_COUNTER), Some(target as i64));
    assert_eq!(m.step(), false);
    assert_eq!(m.register(PROGRAM_COUNTER), Some(target as i64 + 1));
    assert_eq!(m.register(30), Some(0));
}

#[test]
fn next_fetch_happens_at_the_jump_target() {
    let program = image(&[
        mov(imm(3), PROGRAM_COUNTER as u16),
        mov(imm(1), 30),
        mov(imm(2), 30),
        mov(imm(7), 31),
    ]);
    let mut m = Machine::from_image(&program).unwrap();
    assert_eq!(m.execute(2), false);
    assert_eq!(m.register(30), Some(0));
    assert_eq!(m.register(31), Some(7));
    assert_eq!(m.register(PROGRAM_COUNTER), Some(4));
}

#[test]
fn reading_the_program_counter_yields_the_current_address() {
    let program = image(&[mov(0, 0), mov(PROGRAM_COUNTER as u16, 30)]);
    let mut m = Machine::from_image(&program).unwrap();
    m.execute(2);
    assert_eq!(m.register(30), Some(1));
}

#[test]
fn a_tight_loop_never_halts() {
    let program = image(&[mov(imm(0), PROGRAM_COUNTER as u16)]);
    let mut m = Machine::from_image(&program).unwrap();
    assert_eq!(m.execute(100_000), false);
    assert_eq!(m.register(PROGRAM_COUNTER), Some(0));
    assert!(!m.is_halted());
}

#[test]
fn empty_program_runs_to_the_end_and_halts() {
    let mut m = Machine::new("").unwrap();
    assert_eq!(m.execute(MEMORY_SIZE as u64 - 1), false);
    assert_eq!(m.register(PROGRAM_COUNTER), Some(MEMORY_SIZE as i64 - 1));
    assert_eq!(m.step(), true);
    assert!(m.is_halted());
    assert_eq!(m.fault(), None);
    assert_eq!(m.register(PROGRAM_COUNTER), Some(MEMORY_SIZE as i64));
    for slot in 0..36 {
        if slot != PROGRAM_COUNTER {
            assert_eq!(m.register(slot), Some(0));
        }
    }
    assert_eq!(m.read_from_vm(), Vec::<u8>::new());
}

#[test]
fn plain_moves_keep_the_registers() {
    // Every word moves slot 30 onto itself.
    let program = image(&vec![mov(30, 30); 64]);
    let mut m = Machine::from_image(&program).unwrap();
    assert_eq!(m.execute(64), false);
    assert_eq!(m.register(PROGRAM_COUNTER), Some(64));
    assert_eq!(m.register(30), Some(0));
}

#[test]
fn program_of_plain_moves_runs_to_the_end_and_halts() {
    let program = image(&vec![mov(35, 35); MEMORY_SIZE]);
    let mut m = Machine::from_image(&program).unwrap();
    assert_eq!(m.word(MEMORY_SIZE - 1), Ok(0x0023_0023));
    assert_eq!(m.execute(MEMORY_SIZE as u64 - 1), false);
    assert_eq!(m.execute(1), true);
    assert_eq!(m.fault(), None);
    assert_eq!(m.register(PROGRAM_COUNTER), Some(MEMORY_SIZE as i64));
    for slot in 0..36 {
        if slot != PROGRAM_COUNTER {
            assert_eq!(m.register(slot), Some(0));
        }
    }
}

#[test]
fn halted_machine_stays_as_it_is() {
    let program = image(&[
        mov(imm(0x7FFF), 0),
        mov(imm(0x7FFF), 1),
        mov(2, 6),
        mov(2, 7),
        mov(8, PROGRAM_COUNTER as u16),
    ]);
    let mut m = Machine::from_image(&program).unwrap();
    assert_eq!(m.execute(5), true);
    let pc = 65534i64 * 65534;
    assert_eq!(m.register(PROGRAM_COUNTER), Some(pc));
    assert_eq!(m.step(), true);
    assert_eq!(m.execute(u64::MAX), true);
    assert_eq!(m.register(PROGRAM_COUNTER), Some(pc));
    assert_eq!(m.register(8), Some(pc));
    assert_eq!(m.fault(), None);
}

#[test]
fn negative_program_counter_halts() {
    let program = image(&[mov(imm(1), 4), mov(5, PROGRAM_COUNTER as u16)]);
    let mut m = Machine::from_image(&program).unwrap();
    assert_eq!(m.execute(10), true);
    assert_eq!(m.register(PROGRAM_COUNTER), Some(-1));
    assert_eq!(m.fault(), None);
}

#[test]
fn execute_of_no_cycles_does_nothing() {
    let mut m = Machine::new("").unwrap();
    assert_eq!(m.execute(0), false);
    assert_eq!(m.register(PROGRAM_COUNTER), Some(0));
}

#[test]
fn a_slot_that_does_not_exist_stops_the_machine() {
    let program = image(&[mov(imm(1), 36)]);
    let mut m = Machine::from_image(&program).unwrap();
    assert_eq!(m.step(), true);
    assert_eq!(m.fault(), Some(VmError::OutOfBounds));
    assert_eq!(m.register(PROGRAM_COUNTER), Some(1));
    assert_eq!(m.execute(10), true);
    assert_eq!(m.register(PROGRAM_COUNTER), Some(1));

    let program = image(&[mov(36, 0)]);
    let mut m = Machine::from_image(&program).unwrap();
    assert_eq!(m.step(), true);
    assert_eq!(m.fault(), Some(VmError::OutOfBounds));
    assert_eq!(m.register(PROGRAM_COUNTER), Some(0));
}

#[test]
fn a_memory_access_outside_the_memory_stops_the_machine() {
    let program = image(&[mov(imm(1), 4), mov(5, 26), mov(imm(9), 30)]);
    let mut m = Machine::from_image(&program).unwrap();
    assert_eq!(m.execute(10), true);
    assert_eq!(m.fault(), Some(VmError::OutOfBounds));
    assert_eq!(m.register(26), Some(-1));
    assert_eq!(m.register(30), Some(0));
    assert_eq!(m.register(PROGRAM_COUNTER), Some(2));
}

#[test]
fn program_echoes_its_input() {
    let program = image(&[
        mov(19, 18),
        mov(19, 18),
        mov(19, 18),
        mov(imm(0x7FFF), 6),
        mov(imm(0x7FFF), 7),
        mov(8, PROGRAM_COUNTER as u16),
    ]);
    let mut m = Machine::from_image(&program).unwrap();
    m.write_into_vm("h");
    m.write_into_vm("i");
    assert_eq!(m.execute(100), true);
    assert_eq!(m.read_str_from_vm(), Some(String::from("hi\n")));
    assert_eq!(m.read_str_from_vm(), Some(String::new()));
    assert_eq!(m.read_from_vm(), Vec::<u8>::new());
}

#[test]
fn output_can_be_drained_between_runs() {
    let program = image(&[mov(imm(65), 18), mov(imm(66), 18)]);
    let mut m = Machine::from_image(&program).unwrap();
    m.execute(1);
    assert_eq!(m.read_from_vm(), vec![65]);
    m.execute(1);
    assert_eq!(m.read_from_vm(), vec![66]);
}

#[test]
fn output_that_is_no_text_is_kept_for_the_byte_reader() {
    let program = image(&[mov(imm(0xFF), 18)]);
    let mut m = Machine::from_image(&program).unwrap();
    m.execute(1);
    assert_eq!(m.read_str_from_vm(), None);
    assert_eq!(m.read_from_vm(), vec![0xFF]);
}

#[test]
fn program_can_modify_itself() {
    // Builds the word that moves slot 19 into slot 30, shifts it into the
    // high half of a double word, and stores that as double word 7, that is
    // as words 14 and 15, into which the program then runs.
    let program = image(&[
        mov(imm(256), 6),
        mov(imm(256), 7),
        mov(8, 6),
        mov(imm(19), 7),
        mov(8, 0),
        mov(imm(30), 1),
        mov(2, 6),
        mov(imm(0x4000), 7),
        mov(8, 6),
        mov(8, 6),
        mov(imm(16), 7),
        mov(imm(7), 26),
        mov(8, 24),
    ]);
    let mut m = Machine::from_image(&program).unwrap();
    m.write_into_vm("Z");
    assert_eq!(m.word(14), Ok(0));
    assert_eq!(m.execute(13), false);
    assert_eq!(m.register(2), Some(0x0013_001E));
    assert_eq!(m.register(24), Some(0x0013_001E_0000_0000));
    assert_eq!(m.word(14), Ok(0x0013_001E));
    assert_eq!(m.word(15), Ok(0));
    assert_eq!(m.register(30), Some(0));
    assert_eq!(m.execute(2), false);
    assert_eq!(m.register(30), Some(90));
    assert_eq!(m.register(PROGRAM_COUNTER), Some(15));
    assert_eq!(m.fault(), None);
}

#[test]
fn error_names() {
    assert_eq!(VmError::OutOfBounds.name(), "out of bounds");
    assert_eq!(VmError::InvalidProgramLength.name(), "invalid program length");
    assert_eq!(VmError::IoUnavailable.name(), "i/o unavailable");
}

#[test]
fn start_mods_writes_nothing() {
    assert_eq!(start_mods(), String::new());
}

#[test]
fn every_listed_mod_fails() {
    assert_eq!(initialize_mods(""), ModReport { failed: 0, started: 0 });
    assert_eq!(initialize_mods("one"), ModReport { failed: 1, started: 0 });
    assert_eq!(initialize_mods("one\n"), ModReport { failed: 1, started: 0 });
    assert_eq!(initialize_mods("one\ntwo"), ModReport { failed: 2, started: 0 });
    assert_eq!(initialize_mods("one\r\ntwo\r\n"), ModReport { failed: 2, started: 0 });
    assert_eq!(initialize_mods("\n"), ModReport { failed: 1, started: 0 });
    assert_eq!(initialize_mods("a\n\nb"), ModReport { failed: 3, started: 0 });
    for list in ["", "x", "x\n", "\n\n", "a\nb\nc", "é\nü\n"] {
        assert_eq!(initialize_mods(list).failed, list.lines().count());
    }
}
