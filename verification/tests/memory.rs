use ule::error::VmError;
use ule::memory::{Memory, MEMORY_SIZE};

#[test]
fn fresh_memory_is_zeroed() {
    let m = Memory::new();
    assert_eq!(m.load32(0), Ok(0));
    assert_eq!(m.load32(MEMORY_SIZE - 1), Ok(0));
    assert_eq!(m.load64(0), Ok(0));
}

#[test]
fn load_word_rejects_addresses_past_the_end() {
    let m = Memory::new();
    assert_eq!(m.load32(MEMORY_SIZE), Err(VmError::OutOfBounds));
    assert_eq!(m.load32(usize::MAX), Err(VmError::OutOfBounds));
    assert_eq!(m.load_opcode(MEMORY_SIZE), Err(VmError::OutOfBounds));
}

#[test]
fn double_word_round_trip() {
    let mut m = Memory::new();
    for (addr, value) in [
        (0usize, 0u64),
        (1, 1),
        (7, (1u64 << 63) - 1),
        (MEMORY_SIZE / 2 - 1, 0x9E37_79B9_7F4A_7C15),
        (12345, u64::MAX),
    ] {
        assert_eq!(m.store64(addr, value), Ok(()));
        assert_eq!(m.load64(addr), Ok(value));
    }
}

#[test]
fn double_word_is_high_word_first() {
    let mut m = Memory::new();
    assert_eq!(m.store64(3, 0x0123_4567_89AB_CDEF), Ok(()));
    assert_eq!(m.load32(6), Ok(0x0123_4567));
    assert_eq!(m.load32(7), Ok(0x89AB_CDEF));
}

#[test]
fn double_word_rejects_addresses_past_the_end() {
    let mut m = Memory::new();
    assert_eq!(m.load64(MEMORY_SIZE / 2), Err(VmError::OutOfBounds));
    assert_eq!(m.store64(MEMORY_SIZE / 2, 5), Err(VmError::OutOfBounds));
    assert_eq!(m.store64(usize::MAX, 5), Err(VmError::OutOfBounds));
    assert_eq!(m.load32(MEMORY_SIZE - 1), Ok(0));
    assert!(m.holds_double((MEMORY_SIZE / 2 - 1) as i64));
    assert!(!m.holds_double((MEMORY_SIZE / 2) as i64));
    assert!(!m.holds_double(-1));
}

#[test]
fn opcode_fields() {
    let mut m = Memory::new();
    assert_eq!(m.store(&[0x80, 0x2A, 0x00, 0x1B], 5), Ok(()));
    assert_eq!(m.load32(5), Ok(0x802A_001B));
    assert_eq!(m.load_opcode(5), Ok((0x802A, 0x001B)));
    assert_eq!(m.load_opcode(4), Ok((0, 0)));
}

#[test]
fn store_packs_most_significant_byte_first() {
    let mut m = Memory::new();
    assert_eq!(m.store(&[1, 2, 3, 4, 0xFF, 0xFE, 0xFD, 0xFC], 0), Ok(()));
    assert_eq!(m.load32(0), Ok(0x0102_0304));
    assert_eq!(m.load32(1), Ok(0xFFFE_FDFC));
    assert_eq!(m.load32(2), Ok(0));
}

#[test]
fn store_writes_the_last_word_too() {
    let mut m = Memory::new();
    assert_eq!(m.store(&[0, 0, 0, 9], MEMORY_SIZE - 1), Ok(()));
    assert_eq!(m.load32(MEMORY_SIZE - 1), Ok(9));
}

#[test]
fn store_rejects_ragged_images() {
    let mut m = Memory::new();
    assert_eq!(m.store(&[1, 2, 3], 0), Err(VmError::InvalidProgramLength));
    assert_eq!(m.store(&[1, 2, 3, 4, 5], 0), Err(VmError::InvalidProgramLength));
    assert_eq!(m.store(&[1, 2, 3], MEMORY_SIZE + 1), Err(VmError::InvalidProgramLength));
    assert_eq!(m.load32(0), Ok(0));
}

#[test]
fn store_rejects_images_that_do_not_fit() {
    let mut m = Memory::new();
    assert_eq!(m.store(&[1, 2, 3, 4, 5, 6, 7, 8], MEMORY_SIZE - 1), Err(VmError::OutOfBounds));
    assert_eq!(m.load32(MEMORY_SIZE - 1), Ok(0));
    assert_eq!(m.store(&[1, 2, 3, 4], MEMORY_SIZE), Err(VmError::OutOfBounds));
    assert_eq!(m.store(&[], MEMORY_SIZE), Ok(()));
    assert_eq!(m.store(&[], MEMORY_SIZE + 1), Err(VmError::OutOfBounds));
}

#[test]
fn store_of_nothing_changes_nothing() {
    let mut m = Memory::new();
    assert_eq!(m.store(&[9, 9, 9, 9], 0), Ok(()));
    assert_eq!(m.store(&[], 0), Ok(()));
    assert_eq!(m.load32(0), Ok(0x0909_0909));
}

#[test]
fn streams_are_first_in_first_out() {
    let mut m = Memory::new();
    assert_eq!(m.read_byte(), None);
    m.feed(&[1, 2]);
    m.feed(&[3]);
    assert_eq!(m.read_byte(), Some(1));
    assert_eq!(m.read_byte(), Some(2));
    assert_eq!(m.read_byte(), Some(3));
    assert_eq!(m.read_byte(), None);
    m.write_byte(7);
    m.write_byte(8);
    assert_eq!(m.drain(), vec![7, 8]);
    assert_eq!(m.drain(), Vec::<u8>::new());
}

#[test]
fn drain_text_keeps_what_is_not_text() {
    let mut m = Memory::new();
    m.write_byte(b'o');
    m.write_byte(b'k');
    assert_eq!(m.drain_text(), Some(String::from("ok")));
    assert_eq!(m.drain_text(), Some(String::new()));
    m.write_byte(0xFF);
    assert_eq!(m.drain_text(), None);
    assert_eq!(m.drain(), vec![0xFF]);
    m.write_byte(0xC3);
    m.write_byte(0xA9);
    assert_eq!(m.drain_text(), Some(String::from("é")));
}
