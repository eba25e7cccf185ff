//! The register file: thirty-six slots and the table of triggers wired to
//! them.

use crate::error::VmError;
use crate::memory::{Memory, MemoryView};
use crate::operation::{outcome, Access, Effect, Operation, SLOT_COUNT};
use vstd::prelude::*;

verus! {

/// The operations wired to one slot, in the order in which they fire.
pub struct TriggerPair {
    /// Fired, first to last, after a value has been stored into the slot.
    pub on_write: Vec<Operation>,
    /// Fired, first to last, before the slot's value is read out.
    pub on_read: Vec<Operation>,
}

/// Mathematical content of a [`TriggerPair`].
pub struct TriggerPairView {
    /// The write triggers, first to fire first.
    pub on_write: Seq<Operation>,
    /// The read triggers, first to fire first.
    pub on_read: Seq<Operation>,
}

impl TriggerPairView {
    /// No triggers at all.
    pub open spec fn empty() -> TriggerPairView {
        TriggerPairView { on_write: Seq::empty(), on_read: Seq::empty() }
    }

    /// The triggers for one kind of access.
    pub open spec fn on(self, access: Access) -> Seq<Operation> {
        match access {
            Access::Write => self.on_write,
            Access::Read => self.on_read,
        }
    }

    /// The pair with `op` added behind the triggers for `access`.
    pub open spec fn with(self, access: Access, op: Operation) -> TriggerPairView {
        match access {
            Access::Write => TriggerPairView { on_write: self.on_write.push(op), ..self },
            Access::Read => TriggerPairView { on_read: self.on_read.push(op), ..self },
        }
    }
}

impl View for TriggerPair {
    type V = TriggerPairView;

    open spec fn view(&self) -> TriggerPairView {
        TriggerPairView { on_write: self.on_write@, on_read: self.on_read@ }
    }
}

impl TriggerPair {
    /// A pair without triggers.
    pub fn new() -> (p: TriggerPair)
        ensures
            p@ == TriggerPairView::empty(),
    {
        TriggerPair { on_write: Vec::new(), on_read: Vec::new() }
    }
}

/// The state after the operations `ops` have fired in order, starting from
/// `e`. Nothing fires once an operation has failed.
pub open spec fn fire_all(ops: Seq<Operation>, access: Access, e: Effect) -> Effect
    decreases ops.len(),
{
    if ops.len() == 0 || e.fault.is_some() {
        e
    } else {
        fire_all(ops.drop_first(), access, ops[0].effect(access, e.slots, e.memory))
    }
}

/// With operations left and no failure yet, the first operation fires and
/// the rest follow.
pub proof fn lemma_fire_all_unfold(ops: Seq<Operation>, access: Access, e: Effect)
    requires
        ops.len() > 0,
        e.fault.is_none(),
    ensures
        fire_all(ops, access, e) == fire_all(
            ops.drop_first(),
            access,
            ops[0].effect(access, e.slots, e.memory),
        ),
{
}

/// After a failure nothing fires any more.
pub proof fn lemma_fire_all_stops(ops: Seq<Operation>, access: Access, e: Effect)
    ensures
        e.fault.is_some() ==> fire_all(ops, access, e) == e,
{
}

/// Without operations nothing changes.
pub proof fn lemma_fire_all_done(ops: Seq<Operation>, access: Access, e: Effect)
    requires
        ops.len() == 0,
    ensures
        fire_all(ops, access, e) == e,
{
}

/// The write triggers that a freshly built machine has on `slot`.
pub open spec fn builtin_on_write(slot: int) -> Seq<Operation> {
    if slot == 0 || slot == 1 {
        seq![Operation::Sum]
    } else if slot == 3 || slot == 4 {
        seq![Operation::Difference]
    } else if slot == 6 || slot == 7 {
        seq![Operation::Product]
    } else if slot == 9 || slot == 10 {
        seq![Operation::Quotient]
    } else if slot == 13 || slot == 14 {
        seq![Operation::Less]
    } else if slot == 18 {
        seq![Operation::Device]
    } else if slot == 20 || slot == 21 || slot == 22 {
        seq![Operation::Choice]
    } else if slot == 24 || slot == 26 {
        seq![Operation::MemoryPort]
    } else {
        Seq::empty()
    }
}

/// The read triggers that a freshly built machine has on `slot`.
pub open spec fn builtin_on_read(slot: int) -> Seq<Operation> {
    if slot == 19 {
        seq![Operation::Device]
    } else if slot == 24 {
        seq![Operation::MemoryPort]
    } else {
        Seq::empty()
    }
}

/// The trigger table of a freshly built machine.
pub open spec fn builtin_table() -> Seq<TriggerPairView> {
    Seq::new(
        SLOT_COUNT as nat,
        |slot: int|
            TriggerPairView { on_write: builtin_on_write(slot), on_read: builtin_on_read(slot) },
    )
}

/// Mathematical content of a [`Registers`].
pub struct RegistersView {
    /// The value of each slot.
    pub slots: Seq<i64>,
    /// The triggers of each slot.
    pub table: Seq<TriggerPairView>,
}

impl RegistersView {
    /// One value and one trigger pair for each of the slots.
    pub open spec fn wf(self) -> bool {
        self.slots.len() == SLOT_COUNT && self.table.len() == SLOT_COUNT
    }

    /// The same registers with `op` wired behind the triggers that `slot`
    /// has for `access`.
    pub open spec fn wired(self, slot: int, access: Access, op: Operation) -> RegistersView {
        RegistersView { table: self.table.update(slot, self.table[slot].with(access, op)), ..self }
    }

    /// The same registers with the built-in triggers wired behind those
    /// that each slot already has.
    pub open spec fn with_builtin(self) -> RegistersView {
        RegistersView {
            table: Seq::new(
                SLOT_COUNT as nat,
                |slot: int|
                    TriggerPairView {
                        on_write: self.table[slot].on_write + builtin_on_write(slot),
                        on_read: self.table[slot].on_read + builtin_on_read(slot),
                    },
            ),
            ..self
        }
    }

    /// Storing `value` into slot `index`: the value is stored, then the
    /// slot's write triggers fire.
    pub open spec fn write(self, memory: MemoryView, index: int, value: i64) -> Effect {
        if 0 <= index < SLOT_COUNT {
            fire_all(
                self.table[index].on_write,
                Access::Write,
                Effect { slots: self.slots.update(index, value), memory, fault: None },
            )
        } else {
            Effect { slots: self.slots, memory, fault: Some(VmError::OutOfBounds) }
        }
    }

    /// Reading slot `index`: the slot's read triggers fire; the value read
    /// is the one that the slot holds afterwards.
    pub open spec fn read(self, memory: MemoryView, index: int) -> Effect {
        if 0 <= index < SLOT_COUNT {
            fire_all(
                self.table[index].on_read,
                Access::Read,
                Effect { slots: self.slots, memory, fault: None },
            )
        } else {
            Effect { slots: self.slots, memory, fault: Some(VmError::OutOfBounds) }
        }
    }
}

/// Wiring the built-in triggers to slots that have none gives the table of a
/// freshly built machine.
pub proof fn law_builtin_on_bare_slots(r: RegistersView)
    requires
        r.table == Seq::new(SLOT_COUNT as nat, |i: int| TriggerPairView::empty()),
    ensures
        r.with_builtin().table == builtin_table(),
{
    assert forall|slot: int| 0 <= slot < SLOT_COUNT implies r.with_builtin().table[slot]
        == builtin_table()[slot] by {
        assert(r.with_builtin().table[slot].on_write =~= builtin_table()[slot].on_write);
        assert(r.with_builtin().table[slot].on_read =~= builtin_table()[slot].on_read);
    }
    assert(r.with_builtin().table =~= builtin_table());
}

/// The register slots with their triggers.
pub struct Registers {
    buffer: [i64; 36],
    triggers: Vec<TriggerPair>,
}

impl View for Registers {
    type V = RegistersView;

    closed spec fn view(&self) -> RegistersView {
        RegistersView { slots: self.buffer@, table: table_of(self.triggers@) }
    }
}

/// The full table that the pairs held so far stand for: a slot without a
/// pair has no triggers.
spec fn table_of(pairs: Seq<TriggerPair>) -> Seq<TriggerPairView> {
    Seq::new(
        SLOT_COUNT as nat,
        |slot: int|
            if slot < pairs.len() {
                pairs[slot]@
            } else {
                TriggerPairView::empty()
            },
    )
}

impl Registers {
    /// Zeroed slots without any trigger.
    pub fn new() -> (r: Registers)
        ensures
            r@.wf(),
            r@.slots == Seq::new(SLOT_COUNT as nat, |i: int| 0i64),
            r@.table == Seq::new(SLOT_COUNT as nat, |i: int| TriggerPairView::empty()),
    {
        let r = Registers { buffer: [0i64;36], triggers: Vec::new() };
        assert(r@.slots =~= Seq::new(SLOT_COUNT as nat, |i: int| 0i64));
        assert(r@.table =~= Seq::new(SLOT_COUNT as nat, |i: int| TriggerPairView::empty()));
        r
    }

    /// The trigger pair of slot `index`, for the caller to extend.
    pub fn get_triggers_pair(&mut self, index: usize) -> (pair: &mut TriggerPair)
        requires
            index < SLOT_COUNT,
        ensures
            pair@ == old(self)@.table[index as int],
            final(self)@ == (RegistersView {
                table: old(self)@.table.update(index as int, final(pair)@),
                ..old(self)@
            }),
    {
        while self.triggers.len() <= index
            invariant
                self@ == old(self)@,
            decreases index + 1 - self.triggers@.len(),
        {
            self.triggers.push(TriggerPair::new());
            assert(self@.table =~= old(self)@.table);
        }
        let ghost pairs = self.triggers@;
        assert forall|p: TriggerPair| #[trigger]
            table_of(pairs.update(index as int, p)) == table_of(pairs).update(index as int, p@) by {
            assert(table_of(pairs.update(index as int, p)) =~= table_of(pairs).update(
                index as int,
                p@,
            ));
        }
        &mut self.triggers[index]
    }

    /// Wires `op` to slot `slot` behind the triggers that the slot already
    /// has for `access`.
    pub fn wire(&mut self, slot: usize, access: Access, op: Operation)
        requires
            slot < SLOT_COUNT,
        ensures
            final(self)@ == old(self)@.wired(slot as int, access, op),
    {
        let pair = self.get_triggers_pair(slot);
        match access {
            Access::Write => pair.on_write.push(op),
            Access::Read => pair.on_read.push(op),
        }
    }

    /// Wires the built-in operations to their slots.
    pub fn init_triggers(&mut self)
        ensures
            final(self)@ == old(self)@.with_builtin(),
    {
        self.wire(0, Access::Write, Operation::Sum);
        self.wire(1, Access::Write, Operation::Sum);

        self.wire(3, Access::Write, Operation::Difference);
        self.wire(4, Access::Write, Operation::Difference);

        self.wire(6, Access::Write, Operation::Product);
        self.wire(7, Access::Write, Operation::Product);

        self.wire(9, Access::Write, Operation::Quotient);
        self.wire(10, Access::Write, Operation::Quotient);

        self.wire(13, Access::Write, Operation::Less);
        self.wire(14, Access::Write, Operation::Less);

        self.wire(18, Access::Write, Operation::Device);
        self.wire(19, Access::Read, Operation::Device);

        self.wire(20, Access::Write, Operation::Choice);
        self.wire(21, Access::Write, Operation::Choice);
        self.wire(22, Access::Write, Operation::Choice);

        self.wire(24, Access::Read, Operation::MemoryPort);
        self.wire(24, Access::Write, Operation::MemoryPort);
        self.wire(26, Access::Write, Operation::MemoryPort);
        proof {
            let target = old(self)@.with_builtin().table;
            assert forall|slot: int| 0 <= slot < SLOT_COUNT implies self@.table[slot]
                == target[slot] by {
                assert(self@.table[slot].on_write =~= target[slot].on_write);
                assert(self@.table[slot].on_read =~= target[slot].on_read);
            }
            assert(self@.table =~= target);
        }
    }

    /// The value that slot `index` holds, read without firing any trigger.
    pub fn peek(&self, index: usize) -> (v: Option<i64>)
        ensures
            self@.wf(),
            index < SLOT_COUNT ==> v == Some(self@.slots[index as int]),
            index >= SLOT_COUNT ==> v.is_none(),
    {
        if index < SLOT_COUNT {
            Some(self.buffer[index])
        } else {
            None
        }
    }

    /// Stores `value` into slot `index` without firing any trigger, and says
    /// whether there is such a slot.
    pub fn poke(&mut self, index: usize, value: i64) -> (stored: bool)
        ensures
            final(self)@.wf(),
            stored == (index < SLOT_COUNT),
            stored ==> final(self)@ == (RegistersView {
                slots: old(self)@.slots.update(index as int, value),
                ..old(self)@
            }),
            !stored ==> final(self)@ == old(self)@,
    {
        if index < SLOT_COUNT {
            self.buffer[index] = value;
            true
        } else {
            false
        }
    }

    /// Fires the triggers that slot `index` has for `access`, first to last,
    /// and stops at the first that fails.
    fn fire_triggers(&mut self, index: usize, access: Access, memory: &mut Memory) -> (r: Result<
        (),
        VmError,
    >)
        requires
            index < SLOT_COUNT,
        ensures
            final(self)@.table == old(self)@.table,
            final(self)@.slots == fire_all(
                old(self)@.table[index as int].on(access),
                access,
                Effect { slots: old(self)@.slots, memory: old(memory)@, fault: None },
            ).slots,
            final(memory)@ == fire_all(
                old(self)@.table[index as int].on(access),
                access,
                Effect { slots: old(self)@.slots, memory: old(memory)@, fault: None },
            ).memory,
            r == outcome(
                fire_all(
                    old(self)@.table[index as int].on(access),
                    access,
                    Effect { slots: old(self)@.slots, memory: old(memory)@, fault: None },
                ).fault,
            ),
    {
        if index >= self.triggers.len() {
            return Ok(());
        }
        let ghost ops = self.triggers@[index as int]@.on(access);
        let ghost start = Effect { slots: self.buffer@, memory: memory@, fault: None };
        let count: usize = match access {
            Access::Write => self.triggers[index].on_write.len(),
            Access::Read => self.triggers[index].on_read.len(),
        };
        let mut i: usize = 0;
        assert(ops.skip(0) =~= ops);
        while i < count
            invariant
                index < SLOT_COUNT,
                index < self.triggers@.len(),
                self.triggers@ == old(self).triggers@,
                ops == self.triggers@[index as int]@.on(access),
                ops == old(self)@.table[index as int].on(access),
                start == (Effect { slots: old(self)@.slots, memory: old(memory)@, fault: None }),
                count == ops.len(),
                i <= count,
                fire_all(ops, access, start) == fire_all(
                    ops.skip(i as int),
                    access,
                    Effect { slots: self.buffer@, memory: memory@, fault: None },
                ),
            decreases count - i,
        {
            let op: Operation = match access {
                Access::Write => self.triggers[index].on_write[i],
                Access::Read => self.triggers[index].on_read[i],
            };
            let ghost here = Effect { slots: self.buffer@, memory: memory@, fault: None };
            let ghost next = op.effect(access, here.slots, here.memory);
            proof {
                assert(ops.skip(i as int).drop_first() =~= ops.skip(i + 1));
                assert(ops.skip(i as int)[0] == op);
                lemma_fire_all_unfold(ops.skip(i as int), access, here);
                lemma_fire_all_stops(ops.skip(i + 1), access, next);
            }
            let fired = op.fire(access, &mut self.buffer, memory);
            if fired.is_err() {
                return fired;
            }
            i += 1;
        }
        proof {
            lemma_fire_all_done(
                ops.skip(i as int),
                access,
                Effect { slots: self.buffer@, memory: memory@, fault: None },
            );
        }
        Ok(())
    }

    /// Stores `value` into slot `index`, then fires the slot's write
    /// triggers in the order in which they were wired.
    ///
    /// A failing trigger ends the call; what was done before it stays done.
    pub fn set(&mut self, index: usize, value: i64, memory: &mut Memory) -> (r: Result<
        (),
        VmError,
    >)
        ensures
            final(self)@.wf(),
            final(self)@.table == old(self)@.table,
            final(self)@.slots == old(self)@.write(old(memory)@, index as int, value).slots,
            final(memory)@ == old(self)@.write(old(memory)@, index as int, value).memory,
            r == outcome(old(self)@.write(old(memory)@, index as int, value).fault),
    {
        if index >= SLOT_COUNT {
            return Err(VmError::OutOfBounds);
        }
        self.buffer[index] = value;
        self.fire_triggers(index, Access::Write, memory)
    }

    /// Fires the read triggers of slot `index` in the order in which they
    /// were wired, then returns the value that the slot holds.
    ///
    /// A failing trigger ends the call; what was done before it stays done.
    pub fn get(&mut self, index: usize, memory: &mut Memory) -> (r: Result<i64, VmError>)
        ensures
            final(self)@.wf(),
            final(self)@.table == old(self)@.table,
            final(self)@.slots == old(self)@.read(old(memory)@, index as int).slots,
            final(memory)@ == old(self)@.read(old(memory)@, index as int).memory,
            match old(self)@.read(old(memory)@, index as int).fault {
                Some(e) => r == Err::<i64, VmError>(e),
                None => r == Ok::<i64, VmError>(final(self)@.slots[index as int]),
            },
    {
        if index >= SLOT_COUNT {
            return Err(VmError::OutOfBounds);
        }
        match self.fire_triggers(index, Access::Read, memory) {
            Ok(()) => Ok(self.buffer[index]),
            Err(e) => Err(e),
        }
    }
}

} // verus!
