use ule::error::VmError;
use ule::memory::{Memory, MEMORY_SIZE};
use ule::operation::{
    divide, lowest_byte, modulo, signed_bits, unsigned_bits, Access, Operation, SLOT_COUNT,
};
use ule::registers::{Registers, TriggerPair};

fn wired() -> (Registers, Memory) {
    let mut regs = Registers::new();
    regs.init_triggers();
    (regs, Memory::new())
}

#[test]
fn sum_follows_the_second_write() {
    for (a, b) in [(0i64, 0i64), (2, 3), (-7, 7), (1 << 40, -(1 << 41)), (i64::MIN, i64::MAX)] {
        let (mut regs, mut mem) = wired();
        assert_eq!(regs.set(0, a, &mut mem), Ok(()));
        assert_eq!(regs.get(2, &mut mem), Ok(a));
        assert_eq!(regs.set(1, b, &mut mem), Ok(()));
        assert_eq!(regs.get(2, &mut mem), Ok(a + b));
    }
}

#[test]
fn sum_in_reverse_order_is_right_after_the_second_write() {
    let (mut regs, mut mem) = wired();
    assert_eq!(regs.set(0, 100, &mut mem), Ok(()));
    assert_eq!(regs.set(1, 11, &mut mem), Ok(()));
    assert_eq!(regs.get(2, &mut mem), Ok(111));
    assert_eq!(regs.set(1, 5, &mut mem), Ok(()));
    assert_eq!(regs.get(2, &mut mem), Ok(105));
    assert_eq!(regs.set(0, 4, &mut mem), Ok(()));
    assert_eq!(regs.get(2, &mut mem), Ok(9));
}

#[test]
fn sum_wraps_around() {
    let (mut regs, mut mem) = wired();
    assert_eq!(regs.set(0, i64::MAX, &mut mem), Ok(()));
    assert_eq!(regs.set(1, 1, &mut mem), Ok(()));
    assert_eq!(regs.get(2, &mut mem), Ok(i64::MIN));
}

#[test]
fn result_slots_are_plain_storage() {
    let (mut regs, mut mem) = wired();
    assert_eq!(regs.set(0, 1, &mut mem), Ok(()));
    assert_eq!(regs.set(1, 2, &mut mem), Ok(()));
    assert_eq!(regs.set(2, 77, &mut mem), Ok(()));
    assert_eq!(regs.get(2, &mut mem), Ok(77));
    assert_eq!(regs.peek(0), Some(1));
    assert_eq!(regs.peek(1), Some(2));
}

#[test]
fn difference_and_product() {
    let (mut regs, mut mem) = wired();
    assert_eq!(regs.set(3, 10, &mut mem), Ok(()));
    assert_eq!(regs.set(4, 13, &mut mem), Ok(()));
    assert_eq!(regs.get(5, &mut mem), Ok(-3));
    assert_eq!(regs.set(3, i64::MIN, &mut mem), Ok(()));
    assert_eq!(regs.set(4, 1, &mut mem), Ok(()));
    assert_eq!(regs.get(5, &mut mem), Ok(i64::MAX));
    assert_eq!(regs.set(6, -6, &mut mem), Ok(()));
    assert_eq!(regs.set(7, 7, &mut mem), Ok(()));
    assert_eq!(regs.get(8, &mut mem), Ok(-42));
    assert_eq!(regs.set(6, 1 << 62, &mut mem), Ok(()));
    assert_eq!(regs.set(7, 4, &mut mem), Ok(()));
    assert_eq!(regs.get(8, &mut mem), Ok(0));
    assert_eq!(regs.set(6, i64::MAX, &mut mem), Ok(()));
    assert_eq!(regs.set(7, 2, &mut mem), Ok(()));
    assert_eq!(regs.get(8, &mut mem), Ok(-2));
}

#[test]
fn division_by_zero_passes_the_dividend() {
    let (mut regs, mut mem) = wired();
    assert_eq!(regs.set(9, 7, &mut mem), Ok(()));
    assert_eq!(regs.set(10, 0, &mut mem), Ok(()));
    assert_eq!(regs.get(11, &mut mem), Ok(7));
    assert_eq!(regs.get(12, &mut mem), Ok(0));
}

#[test]
fn division_of_seven_by_two() {
    let (mut regs, mut mem) = wired();
    assert_eq!(regs.set(9, 7, &mut mem), Ok(()));
    assert_eq!(regs.set(10, 2, &mut mem), Ok(()));
    assert_eq!(regs.get(11, &mut mem), Ok(3));
    assert_eq!(regs.get(12, &mut mem), Ok(1));
}

#[test]
fn division_rounds_towards_zero() {
    for (a, b, q, r) in [
        (-7i64, 2i64, -3i64, -1i64),
        (7, -2, -3, 1),
        (-7, -2, 3, -1),
        (0, 5, 0, 0),
        (i64::MIN, -1, i64::MIN, 0),
        (i64::MIN, 1, i64::MIN, 0),
        (i64::MAX, -1, -i64::MAX, 0),
        (5, i64::MIN, 0, 5),
    ] {
        assert_eq!(divide(a, b), q);
        assert_eq!(modulo(a, b), r);
        let (mut regs, mut mem) = wired();
        assert_eq!(regs.set(9, a, &mut mem), Ok(()));
        assert_eq!(regs.set(10, b, &mut mem), Ok(()));
        assert_eq!(regs.get(11, &mut mem), Ok(q));
        assert_eq!(regs.get(12, &mut mem), Ok(r));
    }
    assert_eq!(divide(9, 0), 9);
    assert_eq!(modulo(9, 0), 0);
}

#[test]
fn comparison_three_five() {
    let (mut regs, mut mem) = wired();
    assert_eq!(regs.set(13, 3, &mut mem), Ok(()));
    assert_eq!(regs.set(14, 5, &mut mem), Ok(()));
    assert_eq!(regs.get(15, &mut mem), Ok(1));
}

#[test]
fn comparison_five_three() {
    let (mut regs, mut mem) = wired();
    assert_eq!(regs.set(13, 5, &mut mem), Ok(()));
    assert_eq!(regs.set(14, 3, &mut mem), Ok(()));
    assert_eq!(regs.get(15, &mut mem), Ok(0));
    assert_eq!(regs.set(14, 5, &mut mem), Ok(()));
    assert_eq!(regs.get(15, &mut mem), Ok(0));
    assert_eq!(regs.set(13, -5, &mut mem), Ok(()));
    assert_eq!(regs.get(15, &mut mem), Ok(1));
}

#[test]
fn choice_takes_21_on_zero_and_22_otherwise() {
    let (mut regs, mut mem) = wired();
    assert_eq!(regs.set(21, 111, &mut mem), Ok(()));
    assert_eq!(regs.set(22, 222, &mut mem), Ok(()));
    assert_eq!(regs.set(20, 0, &mut mem), Ok(()));
    assert_eq!(regs.get(23, &mut mem), Ok(111));
    assert_eq!(regs.set(20, 5, &mut mem), Ok(()));
    assert_eq!(regs.get(23, &mut mem), Ok(222));
    assert_eq!(regs.set(20, -1, &mut mem), Ok(()));
    assert_eq!(regs.get(23, &mut mem), Ok(222));
    assert_eq!(regs.set(22, 9, &mut mem), Ok(()));
    assert_eq!(regs.get(23, &mut mem), Ok(9));
}

#[test]
fn input_default_then_byte_then_default() {
    let (mut regs, mut mem) = wired();
    assert_eq!(regs.get(19, &mut mem), Ok(10));
    mem.feed(&[65]);
    assert_eq!(regs.get(19, &mut mem), Ok(65));
    assert_eq!(mem.read_byte(), None);
    assert_eq!(regs.get(19, &mut mem), Ok(10));
}

#[test]
fn input_is_read_oldest_first() {
    let (mut regs, mut mem) = wired();
    mem.feed(&[1, 2, 255]);
    assert_eq!(regs.get(19, &mut mem), Ok(1));
    assert_eq!(regs.get(19, &mut mem), Ok(2));
    assert_eq!(regs.get(19, &mut mem), Ok(255));
    assert_eq!(regs.get(19, &mut mem), Ok(10));
}

#[test]
fn output_takes_the_low_byte() {
    let (mut regs, mut mem) = wired();
    assert_eq!(regs.set(18, 72, &mut mem), Ok(()));
    assert_eq!(regs.set(18, 0x1_69, &mut mem), Ok(()));
    assert_eq!(regs.set(18, -1, &mut mem), Ok(()));
    assert_eq!(regs.set(18, i64::MIN, &mut mem), Ok(()));
    assert_eq!(mem.drain(), vec![72, 0x69, 255, 0]);
    assert_eq!(lowest_byte(256), 0);
    assert_eq!(lowest_byte(-256), 0);
    assert_eq!(lowest_byte(-255), 1);
}

#[test]
fn memory_port_stores_and_loads() {
    let (mut regs, mut mem) = wired();
    assert_eq!(regs.set(26, 5, &mut mem), Ok(()));
    assert_eq!(regs.set(24, 0x0123_4567_89AB_CDEF, &mut mem), Ok(()));
    assert_eq!(mem.load64(5), Ok(0x0123_4567_89AB_CDEF));
    assert_eq!(regs.poke(24, 0), true);
    assert_eq!(regs.get(24, &mut mem), Ok(0x0123_4567_89AB_CDEF));
    assert_eq!(regs.set(24, -2, &mut mem), Ok(()));
    assert_eq!(mem.load64(5), Ok(u64::MAX - 1));
    assert_eq!(regs.get(24, &mut mem), Ok(-2));
}

#[test]
fn writing_the_address_slot_stores_too() {
    let (mut regs, mut mem) = wired();
    assert_eq!(regs.poke(24, 9), true);
    assert_eq!(regs.set(26, 3, &mut mem), Ok(()));
    assert_eq!(mem.load64(3), Ok(9));
    assert_eq!(mem.load64(0), Ok(0));
}

#[test]
fn memory_port_rejects_addresses_outside_the_memory() {
    let (mut regs, mut mem) = wired();
    assert_eq!(regs.set(26, -1, &mut mem), Err(VmError::OutOfBounds));
    assert_eq!(regs.peek(26), Some(-1));
    assert_eq!(regs.set(24, 7, &mut mem), Err(VmError::OutOfBounds));
    assert_eq!(regs.peek(24), Some(7));
    assert_eq!(regs.get(24, &mut mem), Err(VmError::OutOfBounds));
    assert_eq!(regs.set(26, (MEMORY_SIZE / 2) as i64, &mut mem), Err(VmError::OutOfBounds));
    assert_eq!(regs.set(26, (MEMORY_SIZE / 2 - 1) as i64, &mut mem), Ok(()));
    assert_eq!(mem.load64(MEMORY_SIZE / 2 - 1), Ok(7));
    assert_eq!(regs.set(26, i64::MAX, &mut mem), Err(VmError::OutOfBounds));
}

#[test]
fn slots_without_triggers_are_plain_storage() {
    let (mut regs, mut mem) = wired();
    for slot in [2usize, 16, 17, 25, 27, 28, 35] {
        assert_eq!(regs.set(slot, 1000 + slot as i64, &mut mem), Ok(()));
    }
    for slot in [2usize, 16, 17, 25, 27, 28, 35] {
        assert_eq!(regs.get(slot, &mut mem), Ok(1000 + slot as i64));
    }
    assert_eq!(mem.drain(), Vec::<u8>::new());
}

#[test]
fn there_are_thirty_six_slots() {
    let (mut regs, mut mem) = wired();
    assert_eq!(SLOT_COUNT, 36);
    assert_eq!(regs.set(35, 1, &mut mem), Ok(()));
    assert_eq!(regs.set(36, 1, &mut mem), Err(VmError::OutOfBounds));
    assert_eq!(regs.get(36, &mut mem), Err(VmError::OutOfBounds));
    assert_eq!(regs.get(usize::MAX, &mut mem), Err(VmError::OutOfBounds));
    assert_eq!(regs.peek(36), None);
    assert_eq!(regs.poke(36, 1), false);
    assert_eq!(regs.peek(35), Some(1));
}

#[test]
fn unwired_registers_do_nothing() {
    let mut regs = Registers::new();
    let mut mem = Memory::new();
    assert_eq!(regs.set(0, 4, &mut mem), Ok(()));
    assert_eq!(regs.set(1, 5, &mut mem), Ok(()));
    assert_eq!(regs.get(2, &mut mem), Ok(0));
    assert_eq!(regs.get(19, &mut mem), Ok(0));
}

#[test]
fn chained_triggers_fire_in_the_order_wired() {
    let mut regs = Registers::new();
    let mut mem = Memory::new();
    // Writing slot 0 first copies it into the product's operand through the
    // sum (slot 1 is zero), then multiplies.
    regs.wire(6, Access::Write, Operation::Sum);
    regs.wire(6, Access::Write, Operation::Product);
    assert_eq!(regs.poke(0, 20), true);
    assert_eq!(regs.poke(1, 1), true);
    assert_eq!(regs.poke(7, 3), true);
    assert_eq!(regs.set(6, 5, &mut mem), Ok(()));
    assert_eq!(regs.peek(2), Some(21));
    assert_eq!(regs.peek(8), Some(15));

    let mut regs = Registers::new();
    regs.wire(9, Access::Write, Operation::Device);
    regs.wire(9, Access::Write, Operation::MemoryPort);
    regs.wire(9, Access::Write, Operation::Device);
    assert_eq!(regs.poke(18, 33), true);
    assert_eq!(regs.poke(26, -1), true);
    assert_eq!(regs.set(9, 0, &mut mem), Err(VmError::OutOfBounds));
    assert_eq!(mem.drain(), vec![33]);
}

#[test]
fn trigger_pairs_can_be_extended_directly() {
    let mut regs = Registers::new();
    let mut mem = Memory::new();
    regs.get_triggers_pair(30).on_read.push(Operation::Device);
    regs.get_triggers_pair(30).on_read.push(Operation::Device);
    mem.feed(&[8, 9]);
    assert_eq!(regs.get(30, &mut mem), Ok(0));
    assert_eq!(regs.peek(19), Some(9));
    assert_eq!(regs.get_triggers_pair(30).on_read.len(), 2);
    assert_eq!(regs.get_triggers_pair(30).on_write.len(), 0);
    assert_eq!(regs.get_triggers_pair(3).on_write.len(), 0);
    let pair = TriggerPair::new();
    assert!(pair.on_read.is_empty() && pair.on_write.is_empty());
}

#[test]
fn operations_fire_directly() {
    let mut slots = [0i64; 36];
    let mut mem = Memory::new();
    slots[0] = 2;
    slots[1] = 40;
    assert_eq!(Operation::Sum.fire(Access::Read, &mut slots, &mut mem), Ok(()));
    assert_eq!(slots[2], 42);
    slots[26] = -3;
    assert_eq!(
        Operation::MemoryPort.fire(Access::Read, &mut slots, &mut mem),
        Err(VmError::OutOfBounds)
    );
}

#[test]
fn bits_are_kept_between_signed_and_unsigned() {
    assert_eq!(unsigned_bits(0), 0);
    assert_eq!(unsigned_bits(-1), u64::MAX);
    assert_eq!(unsigned_bits(i64::MIN), 1 << 63);
    assert_eq!(unsigned_bits(i64::MAX), (1 << 63) - 1);
    assert_eq!(signed_bits(u64::MAX), -1);
    assert_eq!(signed_bits(1 << 63), i64::MIN);
    assert_eq!(signed_bits((1 << 63) - 1), i64::MAX);
    for v in [0i64, 1, -1, 12345, -98765, i64::MIN, i64::MAX] {
        assert_eq!(signed_bits(unsigned_bits(v)), v);
    }
}
