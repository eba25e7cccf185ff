//! What holds of the machine whatever it is given: properties of the
//! built-in operations, of the memory and of the fetch-execute cycle.

use crate::error::VmError;
use crate::machine::{MachineView, IMMEDIATE, PROGRAM_COUNTER};
use crate::memory::{opcode_destination, opcode_source, MemoryView, MEMORY_SIZE};
use crate::operation::{
    quotient, remainder, wrap, Access, Effect, Operation, INPUT_DEFAULT, SLOT_COUNT,
};
use crate::registers::{
    builtin_on_read, builtin_on_write, builtin_table, fire_all, RegistersView,
};
use vstd::prelude::*;

verus! {

/// A register file with the same triggers and the slot values `slots`.
pub open spec fn holding(r: RegistersView, slots: Seq<i64>) -> RegistersView {
    RegistersView { slots, ..r }
}

/// An access that went through and left the memory as it was.
pub open spec fn quiet(e: Effect, memory: MemoryView) -> bool {
    e.fault.is_none() && e.memory == memory
}

/// A single trigger does what its operation does.
pub proof fn lemma_single_trigger(op: Operation, access: Access, e: Effect)
    requires
        e.fault.is_none(),
    ensures
        fire_all(seq![op], access, e) == op.effect(access, e.slots, e.memory),
{
    reveal_with_fuel(fire_all, 2);
    assert(seq![op].drop_first() =~= Seq::<Operation>::empty());
}

/// Triggers fire in the order in which they were wired: firing a list is
/// firing its front part and then the rest.
pub proof fn law_triggers_fire_in_order(
    front: Seq<Operation>,
    rest: Seq<Operation>,
    access: Access,
    e: Effect,
)
    ensures
        fire_all(front + rest, access, e) == fire_all(rest, access, fire_all(front, access, e)),
    decreases front.len(),
{
    if e.fault.is_some() {
    } else if front.len() == 0 {
        assert(front + rest =~= rest);
    } else {
        assert((front + rest).drop_first() =~= front.drop_first() + rest);
        law_triggers_fire_in_order(
            front.drop_first(),
            rest,
            access,
            front[0].effect(access, e.slots, e.memory),
        );
    }
}

/// No operation changes the number of slots or of memory words.
pub proof fn law_operations_keep_sizes(
    op: Operation,
    access: Access,
    slots: Seq<i64>,
    memory: MemoryView,
)
    requires
        slots.len() == SLOT_COUNT,
    ensures
        op.effect(access, slots, memory).slots.len() == slots.len(),
        op.effect(access, slots, memory).memory.words.len() == memory.words.len(),
{
}

/// No list of triggers changes the number of slots or of memory words.
pub proof fn law_triggers_keep_sizes(ops: Seq<Operation>, access: Access, e: Effect)
    requires
        e.slots.len() == SLOT_COUNT,
    ensures
        fire_all(ops, access, e).slots.len() == e.slots.len(),
        fire_all(ops, access, e).memory.words.len() == e.memory.words.len(),
    decreases ops.len(),
{
    if ops.len() > 0 && e.fault.is_none() {
        law_operations_keep_sizes(ops[0], access, e.slots, e.memory);
        law_triggers_keep_sizes(
            ops.drop_first(),
            access,
            ops[0].effect(access, e.slots, e.memory),
        );
    }
}

/// A trigger wired to a slot fires after those that the slot had before:
/// an access does what it did before the wiring, and then, unless that
/// failed, what the new operation does.
pub proof fn law_wired_trigger_fires_last(
    r: RegistersView,
    memory: MemoryView,
    slot: int,
    op: Operation,
    value: i64,
)
    requires
        r.wf(),
        0 <= slot < SLOT_COUNT,
    ensures
        r.wired(slot, Access::Write, op).write(memory, slot, value) == fire_all(
            seq![op],
            Access::Write,
            r.write(memory, slot, value),
        ),
        r.wired(slot, Access::Read, op).read(memory, slot) == fire_all(
            seq![op],
            Access::Read,
            r.read(memory, slot),
        ),
        r.wired(slot, Access::Write, op).read(memory, slot) == r.read(memory, slot),
        r.wired(slot, Access::Read, op).write(memory, slot, value) == r.write(memory, slot, value),
{
    let pair = r.table[slot];
    assert(pair.on_write.push(op) =~= pair.on_write + seq![op]);
    assert(pair.on_read.push(op) =~= pair.on_read + seq![op]);
    law_triggers_fire_in_order(
        pair.on_write,
        seq![op],
        Access::Write,
        Effect { slots: r.slots.update(slot, value), memory, fault: None },
    );
    law_triggers_fire_in_order(
        pair.on_read,
        seq![op],
        Access::Read,
        Effect { slots: r.slots, memory, fault: None },
    );
}

/// A value in the signed 64-bit range is not changed by wrapping.
pub proof fn law_wrap_keeps_what_fits(v: int)
    requires
        i64::MIN <= v <= i64::MAX,
    ensures
        wrap(v) == v,
{
}

/// Writing slot 0 and then slot 1 leaves their sum in slot 2, and so does
/// writing them in the other order. The sum is taken when a write fires its
/// trigger, from what the two slots hold then: after the first of the two
/// writes slot 2 holds the sum of the written value and the old value of
/// the other slot.
pub proof fn law_sum_follows_the_last_write(r: RegistersView, memory: MemoryView, a: i64, b: i64)
    requires
        r.wf(),
        r.table == builtin_table(),
    ensures
        ({
            let first = r.write(memory, 0, a);
            let second = holding(r, first.slots).write(first.memory, 1, b);
            &&& quiet(first, memory)
            &&& first.slots[2] == wrap(a + r.slots[1])
            &&& quiet(second, memory)
            &&& second.slots[0] == a
            &&& second.slots[1] == b
            &&& second.slots[2] == wrap(a + b)
            &&& i64::MIN <= a + b <= i64::MAX ==> second.slots[2] == a + b
        }),
        ({
            let first = r.write(memory, 1, b);
            let second = holding(r, first.slots).write(first.memory, 0, a);
            &&& quiet(first, memory)
            &&& first.slots[2] == wrap(r.slots[0] + b)
            &&& quiet(second, memory)
            &&& second.slots[0] == a
            &&& second.slots[1] == b
            &&& second.slots[2] == wrap(a + b)
            &&& i64::MIN <= a + b <= i64::MAX ==> second.slots[2] == a + b
        }),
{
    let w = Access::Write;
    let start0 = Effect { slots: r.slots.update(0, a), memory, fault: None };
    let start1 = Effect { slots: r.slots.update(1, b), memory, fault: None };
    assert(builtin_table()[0].on_write == seq![Operation::Sum]);
    assert(builtin_table()[1].on_write == seq![Operation::Sum]);
    lemma_single_trigger(Operation::Sum, w, start0);
    lemma_single_trigger(Operation::Sum, w, start1);
    let first0 = r.write(memory, 0, a);
    let first1 = r.write(memory, 1, b);
    lemma_single_trigger(
        Operation::Sum,
        w,
        Effect { slots: first0.slots.update(1, b), memory, fault: None },
    );
    lemma_single_trigger(
        Operation::Sum,
        w,
        Effect { slots: first1.slots.update(0, a), memory, fault: None },
    );
}

/// Writing slot 9 and then slot 10 leaves in slot 11 the quotient of the
/// two, rounded towards zero, and in slot 12 the remainder. With a zero in
/// slot 10 that is no failure: slot 11 then holds the dividend and slot 12
/// holds zero.
pub proof fn law_division(r: RegistersView, memory: MemoryView, a: i64, b: i64)
    requires
        r.wf(),
        r.table == builtin_table(),
    ensures
        ({
            let first = r.write(memory, 9, a);
            let second = holding(r, first.slots).write(first.memory, 10, b);
            &&& quiet(first, memory)
            &&& quiet(second, memory)
            &&& second.slots[11] == quotient(a, b)
            &&& second.slots[12] == remainder(a, b)
            &&& b == 0 ==> second.slots[11] == a && second.slots[12] == 0
            &&& b != 0 && !(a == i64::MIN && b == -1) ==> a == b * second.slots[11]
                + second.slots[12]
        }),
{
    let w = Access::Write;
    assert(builtin_table()[9].on_write == seq![Operation::Quotient]);
    assert(builtin_table()[10].on_write == seq![Operation::Quotient]);
    lemma_single_trigger(
        Operation::Quotient,
        w,
        Effect { slots: r.slots.update(9, a), memory, fault: None },
    );
    let first = r.write(memory, 9, a);
    lemma_single_trigger(
        Operation::Quotient,
        w,
        Effect { slots: first.slots.update(10, b), memory, fault: None },
    );
    if b != 0 && !(a == i64::MIN && b == -1) {
        lemma_truncated_division(a as int, b as int);
    }
}

/// Quotient and remainder of a truncated division make up the dividend,
/// and the quotient is no larger in size than the dividend.
pub proof fn lemma_truncated_division(a: int, b: int)
    requires
        b != 0,
    ensures
        a == b * crate::operation::truncated_quotient(a, b)
            + crate::operation::truncated_remainder(a, b),
        crate::operation::magnitude(crate::operation::truncated_quotient(a, b))
            <= crate::operation::magnitude(a),
        crate::operation::magnitude(crate::operation::truncated_remainder(a, b))
            < crate::operation::magnitude(b),
        crate::operation::magnitude(b) > 1 && a != 0 ==> crate::operation::magnitude(
            crate::operation::truncated_quotient(a, b),
        ) < crate::operation::magnitude(a),
{
    let x = crate::operation::magnitude(a);
    let d = crate::operation::magnitude(b);
    vstd::arithmetic::div_mod::lemma_fundamental_div_mod(x, d);
    vstd::arithmetic::div_mod::lemma_div_pos_is_pos(x, d);
    vstd::arithmetic::div_mod::lemma_mod_pos_bound(x, d);
    vstd::arithmetic::div_mod::lemma_div_is_ordered_by_denominator(x, 1, d);
    if d > 1 && x > 0 {
        vstd::arithmetic::div_mod::lemma_div_is_strictly_smaller(x, d);
    }
    let q = x / d;
    let m = x % d;
    assert(x == d * q + m);
    assert(a == b * crate::operation::truncated_quotient(a, b)
        + crate::operation::truncated_remainder(a, b)) by (nonlinear_arith)
        requires
            x == d * q + m,
            x == crate::operation::magnitude(a),
            d == crate::operation::magnitude(b),
            q == x / d,
            m == x % d,
            b != 0,
    ;
}

/// Writing slot 13 and then slot 14 leaves 1 in slot 15 if the first value
/// is less than the second, and 0 if it is not.
pub proof fn law_comparison(r: RegistersView, memory: MemoryView, a: i64, b: i64)
    requires
        r.wf(),
        r.table == builtin_table(),
    ensures
        ({
            let first = r.write(memory, 13, a);
            let second = holding(r, first.slots).write(first.memory, 14, b);
            &&& quiet(first, memory)
            &&& quiet(second, memory)
            &&& a < b ==> second.slots[15] == 1
            &&& a >= b ==> second.slots[15] == 0
        }),
{
    let w = Access::Write;
    assert(builtin_table()[13].on_write == seq![Operation::Less]);
    assert(builtin_table()[14].on_write == seq![Operation::Less]);
    lemma_single_trigger(
        Operation::Less,
        w,
        Effect { slots: r.slots.update(13, a), memory, fault: None },
    );
    let first = r.write(memory, 13, a);
    lemma_single_trigger(
        Operation::Less,
        w,
        Effect { slots: first.slots.update(14, b), memory, fault: None },
    );
}

/// A double word that was stored is the double word that is loaded.
pub proof fn law_double_word_round_trip(memory: MemoryView, address: int, value: u64)
    requires
        memory.holds_double(address),
    ensures
        memory.store_double(address, value).holds_double(address),
        memory.store_double(address, value).load_double(address) == value,
{
}

/// Storing a double word changes no other double word.
pub proof fn law_double_words_are_apart(
    memory: MemoryView,
    address: int,
    value: u64,
    other: int,
)
    requires
        memory.holds_double(address),
        memory.holds_double(other),
        other != address,
    ensures
        memory.store_double(address, value).load_double(other) == memory.load_double(other),
{
}

/// Reading slot 19 takes the oldest byte off the input stream and yields
/// it; with the stream empty it yields a line feed and changes nothing
/// else.
pub proof fn law_input_or_default(r: RegistersView, memory: MemoryView)
    requires
        r.wf(),
        r.table == builtin_table(),
    ensures
        ({
            let e = r.read(memory, 19);
            &&& e.fault.is_none()
            &&& e.slots.len() == r.slots.len()
            &&& e.memory.words == memory.words
            &&& e.memory.output == memory.output
            &&& forall|i: int| 0 <= i < SLOT_COUNT && i != 19 ==> e.slots[i] == r.slots[i]
            &&& memory.input.len() == 0 ==> e.slots[19] == 10 && e.memory.input == memory.input
            &&& memory.input.len() > 0 ==> e.slots[19] == memory.input[0] && e.memory.input
                == memory.input.drop_first()
        }),
{
    assert(builtin_table()[19].on_read == seq![Operation::Device]);
    lemma_single_trigger(
        Operation::Device,
        Access::Read,
        Effect { slots: r.slots, memory, fault: None },
    );
}

/// A byte appended to an empty input stream is what the next read of slot
/// 19 yields; the read after that yields the default again.
pub proof fn law_input_is_consumed(r: RegistersView, memory: MemoryView, byte: u8)
    requires
        r.wf(),
        r.table == builtin_table(),
        memory.input.len() == 0,
    ensures
        ({
            let fed = MemoryView { input: memory.input.push(byte), ..memory };
            let first = r.read(fed, 19);
            let second = holding(r, first.slots).read(first.memory, 19);
            &&& first.slots[19] == byte
            &&& first.memory == memory
            &&& second.slots[19] == INPUT_DEFAULT
            &&& second.memory == memory
        }),
{
    let fed = MemoryView { input: memory.input.push(byte), ..memory };
    law_input_or_default(r, fed);
    let first = r.read(fed, 19);
    assert(fed.input.drop_first() =~= memory.input);
    law_input_or_default(holding(r, first.slots), first.memory);
}

/// Writing slot 18 appends the low byte of the written value to the output
/// stream.
pub proof fn law_output(r: RegistersView, memory: MemoryView, value: i64)
    requires
        r.wf(),
        r.table == builtin_table(),
    ensures
        ({
            let e = r.write(memory, 18, value);
            &&& e.fault.is_none()
            &&& e.slots == r.slots.update(18, value)
            &&& e.memory == (MemoryView {
                output: memory.output.push(crate::operation::low_byte(value)),
                ..memory
            })
            &&& 0 <= value < 256 ==> crate::operation::low_byte(value) == value
        }),
{
    assert(builtin_table()[18].on_write == seq![Operation::Device]);
    lemma_single_trigger(
        Operation::Device,
        Access::Write,
        Effect { slots: r.slots.update(18, value), memory, fault: None },
    );
}

/// A value written through slot 24 to the double word that slot 26 names
/// is the value that a read of slot 24 brings back, whatever slot 24 was
/// made to hold in between by other means.
pub proof fn law_memory_port_round_trip(
    r: RegistersView,
    memory: MemoryView,
    value: i64,
    between: i64,
)
    requires
        r.wf(),
        r.table == builtin_table(),
        memory.holds_double(r.slots[26] as int),
    ensures
        ({
            let stored = r.write(memory, 24, value);
            let loaded = holding(r, stored.slots.update(24, between)).read(stored.memory, 24);
            &&& stored.fault.is_none()
            &&& loaded.fault.is_none()
            &&& loaded.slots[24] == value
            &&& loaded.memory == stored.memory
        }),
{
    assert(builtin_table()[24].on_write == seq![Operation::MemoryPort]);
    assert(builtin_table()[24].on_read == seq![Operation::MemoryPort]);
    lemma_single_trigger(
        Operation::MemoryPort,
        Access::Write,
        Effect { slots: r.slots.update(24, value), memory, fault: None },
    );
    let stored = r.write(memory, 24, value);
    lemma_single_trigger(
        Operation::MemoryPort,
        Access::Read,
        Effect { slots: stored.slots.update(24, between), memory: stored.memory, fault: None },
    );
}

/// An access to the memory port with slot 26 outside the memory fails and
/// changes nothing but the slot written.
pub proof fn law_memory_port_is_bounded(r: RegistersView, memory: MemoryView, value: i64)
    requires
        r.wf(),
        r.table == builtin_table(),
        !memory.holds_double(r.slots[26] as int),
    ensures
        r.write(memory, 24, value).fault == Some(VmError::OutOfBounds),
        r.write(memory, 24, value).memory == memory,
        r.write(memory, 24, value).slots == r.slots.update(24, value),
        r.read(memory, 24).fault == Some(VmError::OutOfBounds),
        r.read(memory, 24).memory == memory,
        r.read(memory, 24).slots == r.slots,
{
    assert(builtin_table()[24].on_write == seq![Operation::MemoryPort]);
    assert(builtin_table()[24].on_read == seq![Operation::MemoryPort]);
    lemma_single_trigger(
        Operation::MemoryPort,
        Access::Write,
        Effect { slots: r.slots.update(24, value), memory, fault: None },
    );
    lemma_single_trigger(
        Operation::MemoryPort,
        Access::Read,
        Effect { slots: r.slots, memory, fault: None },
    );
}

/// No operation touches the program counter.
pub proof fn law_operations_spare_the_counter(
    op: Operation,
    access: Access,
    slots: Seq<i64>,
    memory: MemoryView,
)
    requires
        slots.len() == SLOT_COUNT,
    ensures
        op.effect(access, slots, memory).slots[PROGRAM_COUNTER as int]
            == slots[PROGRAM_COUNTER as int],
{
}

/// No list of triggers touches the program counter.
pub proof fn law_triggers_spare_the_counter(ops: Seq<Operation>, access: Access, e: Effect)
    requires
        e.slots.len() == SLOT_COUNT,
    ensures
        fire_all(ops, access, e).slots[PROGRAM_COUNTER as int] == e.slots[PROGRAM_COUNTER as int],
    decreases ops.len(),
{
    if ops.len() > 0 && e.fault.is_none() {
        law_operations_keep_sizes(ops[0], access, e.slots, e.memory);
        law_operations_spare_the_counter(ops[0], access, e.slots, e.memory);
        law_triggers_spare_the_counter(
            ops.drop_first(),
            access,
            ops[0].effect(access, e.slots, e.memory),
        );
    }
}

/// A cycle changes neither the sizes of register file and memory nor the
/// trigger table.
pub proof fn law_step_keeps_shape(m: MachineView)
    requires
        m.wf(),
    ensures
        m.step().wf(),
        m.step().registers.table == m.registers.table,
{
    if !m.halted() {
        let word = m.memory.words[m.pc() as int];
        let source = opcode_source(word);
        let destination = opcode_destination(word);
        let next = (m.pc() + 1) as i64;
        if source >= IMMEDIATE {
            let slots = m.registers.slots.update(PROGRAM_COUNTER as int, next);
            if destination < SLOT_COUNT {
                law_triggers_keep_sizes(
                    m.registers.table[destination as int].on_write,
                    Access::Write,
                    Effect {
                        slots: slots.update(destination as int, (source - IMMEDIATE) as i64),
                        memory: m.memory,
                        fault: None,
                    },
                );
            }
        } else {
            if source < SLOT_COUNT {
                law_triggers_keep_sizes(
                    m.registers.table[source as int].on_read,
                    Access::Read,
                    Effect { slots: m.registers.slots, memory: m.memory, fault: None },
                );
            }
            let fetched = m.registers.read(m.memory, source as int);
            if fetched.fault.is_none() {
                let slots = fetched.slots.update(PROGRAM_COUNTER as int, next);
                if destination < SLOT_COUNT {
                    law_triggers_keep_sizes(
                        m.registers.table[destination as int].on_write,
                        Access::Write,
                        Effect {
                            slots: slots.update(destination as int, fetched.slots[source as int]),
                            memory: fetched.memory,
                            fault: None,
                        },
                    );
                }
            }
        }
    }
}

/// However long a machine runs, the sizes of its register file and memory
/// and its trigger table stay as they are.
pub proof fn law_run_keeps_shape(m: MachineView, cycles: nat)
    requires
        m.wf(),
    ensures
        m.run(cycles).wf(),
        m.run(cycles).registers.table == m.registers.table,
    decreases cycles,
{
    if cycles > 0 {
        law_step_keeps_shape(m);
        law_run_keeps_shape(m.step(), (cycles - 1) as nat);
    }
}

/// A machine built from an image that fits has register file and memory of
/// the fixed sizes, and is not stopped by a failure.
pub proof fn law_boot_is_well_formed(image: Seq<u8>)
    ensures
        MachineView::boot(image).wf(),
        MachineView::boot(image).fault.is_none(),
        MachineView::boot(image).pc() == 0,
        !MachineView::boot(image).halted(),
{
}

/// A move of an immediate into the program counter is a jump: the next
/// instruction is fetched at the immediate, not behind the move. Nothing
/// else changes.
pub proof fn law_jump(m: MachineView, target: u16)
    requires
        m.wf(),
        m.registers.table == builtin_table(),
        !m.halted(),
        target < IMMEDIATE,
        opcode_source(m.memory.words[m.pc() as int]) == IMMEDIATE + target,
        opcode_destination(m.memory.words[m.pc() as int]) == PROGRAM_COUNTER,
    ensures
        m.step().pc() == target,
        !m.step().halted(),
        m.step().memory == m.memory,
        m.step().registers.slots == m.registers.slots.update(PROGRAM_COUNTER as int, target as i64),
{
    let slots = m.registers.slots.update(PROGRAM_COUNTER as int, (m.pc() + 1) as i64);
    assert(builtin_table()[PROGRAM_COUNTER as int].on_write =~= Seq::<Operation>::empty());
    assert(slots.update(PROGRAM_COUNTER as int, target as i64) =~= m.registers.slots.update(
        PROGRAM_COUNTER as int,
        target as i64,
    ));
}

/// A move that does not fail and whose destination is not the program
/// counter is followed by the instruction behind it.
pub proof fn law_counter_advances(m: MachineView)
    requires
        m.wf(),
        !m.halted(),
        opcode_destination(m.memory.words[m.pc() as int]) != PROGRAM_COUNTER,
        m.step().fault.is_none(),
    ensures
        m.step().pc() == m.pc() + 1,
{
    let word = m.memory.words[m.pc() as int];
    let source = opcode_source(word);
    let destination = opcode_destination(word);
    let next = (m.pc() + 1) as i64;
    if source >= IMMEDIATE {
        let slots = m.registers.slots.update(PROGRAM_COUNTER as int, next);
        law_triggers_spare_the_counter(
            m.registers.table[destination as int].on_write,
            Access::Write,
            Effect {
                slots: slots.update(destination as int, (source - IMMEDIATE) as i64),
                memory: m.memory,
                fault: None,
            },
        );
    } else {
        law_triggers_keep_sizes(
            m.registers.table[source as int].on_read,
            Access::Read,
            Effect { slots: m.registers.slots, memory: m.memory, fault: None },
        );
        let fetched = m.registers.read(m.memory, source as int);
        let slots = fetched.slots.update(PROGRAM_COUNTER as int, next);
        law_triggers_spare_the_counter(
            m.registers.table[destination as int].on_write,
            Access::Write,
            Effect {
                slots: slots.update(destination as int, fetched.slots[source as int]),
                memory: fetched.memory,
                fault: None,
            },
        );
    }
}

/// The machine `m` with its program counter at `address`.
pub open spec fn at(m: MachineView, address: int) -> MachineView {
    MachineView {
        registers: RegistersView {
            slots: m.registers.slots.update(PROGRAM_COUNTER as int, address as i64),
            ..m.registers
        },
        ..m
    }
}

/// Whether, from the program counter of `m` to the end of the memory, every
/// instruction does nothing but pass on to the next.
pub open spec fn idles_to_the_end(m: MachineView) -> bool {
    forall|address: int|
        m.pc() <= address < MEMORY_SIZE ==> #[trigger] at(m, address).step() == at(m, address + 1)
}

/// A program of moves that change nothing runs to the end of the memory and
/// halts there: after as many cycles as there are words left the program
/// counter is one past the last address, the machine is halted, and nothing
/// else has changed. Before that it is not halted.
pub proof fn law_idle_program_halts_at_the_end(m: MachineView, cycles: nat)
    requires
        m.wf(),
        m.fault.is_none(),
        0 <= m.pc() <= MEMORY_SIZE,
        idles_to_the_end(m),
        cycles <= MEMORY_SIZE - m.pc(),
    ensures
        m.run(cycles) == at(m, m.pc() + cycles),
        m.run(cycles).halted() == (cycles == MEMORY_SIZE - m.pc()),
    decreases cycles,
{
    assert(at(m, m.pc() as int) == m) by {
        assert(m.registers.slots.update(PROGRAM_COUNTER as int, m.pc()) =~= m.registers.slots);
    }
    if cycles > 0 {
        let next = at(m, m.pc() + 1);
        assert(m.step() == next);
        assert forall|address: int| next.pc() <= address < MEMORY_SIZE implies #[trigger] at(
            next,
            address,
        ).step() == at(next, address + 1) by {
            assert(at(next, address) == at(m, address)) by {
                assert(at(next, address).registers.slots =~= at(m, address).registers.slots);
            }
            assert(at(next, address + 1) == at(m, address + 1)) by {
                assert(at(next, address + 1).registers.slots =~= at(
                    m,
                    address + 1,
                ).registers.slots);
            }
        }
        law_idle_program_halts_at_the_end(next, (cycles - 1) as nat);
        assert(at(next, next.pc() + cycles - 1) == at(m, m.pc() + cycles)) by {
            assert(at(next, next.pc() + cycles - 1).registers.slots =~= at(
                m,
                m.pc() + cycles,
            ).registers.slots);
        }
    }
}

/// Whether `word` moves a slot onto itself that has no built-in trigger
/// and is not the program counter.
pub open spec fn plain_move(word: u32) -> bool {
    let slot = opcode_source(word);
    &&& slot == opcode_destination(word)
    &&& slot < SLOT_COUNT
    &&& slot != PROGRAM_COUNTER
    &&& builtin_on_write(slot as int).len() == 0
    &&& builtin_on_read(slot as int).len() == 0
}

/// A program of moves of untriggered slots onto themselves is a program of
/// moves that change nothing, whatever the slots hold.
pub proof fn law_plain_moves_idle(m: MachineView)
    requires
        m.wf(),
        m.registers.table == builtin_table(),
        m.fault.is_none(),
        0 <= m.pc(),
        forall|address: int|
            m.pc() <= address < MEMORY_SIZE ==> plain_move(#[trigger] m.memory.words[address]),
    ensures
        idles_to_the_end(m),
{
    assert forall|address: int| m.pc() <= address < MEMORY_SIZE implies #[trigger] at(
        m,
        address,
    ).step() == at(m, address + 1) by {
        let here = at(m, address);
        let word = here.memory.words[address];
        assert(plain_move(word));
        let slot = opcode_source(word) as int;
        assert(builtin_table()[slot].on_read =~= Seq::<Operation>::empty());
        assert(builtin_table()[slot].on_write =~= Seq::<Operation>::empty());
        let fetched = here.registers.read(here.memory, slot);
        assert(fetched == Effect { slots: here.registers.slots, memory: here.memory, fault: None });
        assert(here.step().registers.slots =~= at(m, address + 1).registers.slots);
    }
}

/// The empty program is a program of moves that change nothing: a machine
/// built from it halts after exactly as many cycles as the memory has
/// words, with the program counter one past the last address, every other
/// slot zero and nothing written.
pub proof fn law_empty_program_halts(cycles: nat)
    requires
        cycles <= MEMORY_SIZE,
    ensures
        MachineView::boot(Seq::empty()).run(cycles) == at(
            MachineView::boot(Seq::empty()),
            cycles as int,
        ),
        MachineView::boot(Seq::empty()).run(cycles).halted() == (cycles == MEMORY_SIZE),
        MachineView::boot(Seq::empty()).run(cycles).memory.output == Seq::<u8>::empty(),
{
    let m = MachineView::boot(Seq::empty());
    assert forall|address: int| m.pc() <= address < MEMORY_SIZE implies #[trigger] at(
        m,
        address,
    ).step() == at(m, address + 1) by {
        let here = at(m, address);
        assert(here.memory.words[address] == 0);
        assert(builtin_table()[0].on_read =~= Seq::<Operation>::empty());
        assert(builtin_table()[0].on_write == seq![Operation::Sum]);
        let fetched = here.registers.read(here.memory, 0);
        assert(fetched == Effect { slots: here.registers.slots, memory: here.memory, fault: None });
        let moved = fetched.slots.update(PROGRAM_COUNTER as int, (address + 1) as i64);
        lemma_single_trigger(
            Operation::Sum,
            Access::Write,
            Effect { slots: moved.update(0, 0), memory: here.memory, fault: None },
        );
        assert(here.step().registers.slots =~= at(m, address + 1).registers.slots);
    }
    law_idle_program_halts_at_the_end(m, cycles);
}

} // verus!
