//! The machine: a register file, a memory, and the fetch-execute cycle
//! that moves values between slots.

use crate::error::VmError;
use crate::memory::{opcode_destination, opcode_source, Memory, MemoryView, MEMORY_SIZE};
use crate::operation::{Effect, SLOT_COUNT};
use crate::registers::{builtin_table, law_builtin_on_bare_slots, Registers, RegistersView};
use vstd::prelude::*;
use vstd::string::StringSliceAdditionalSpecFns;
use vstd::utf8::{encode_utf8, valid_utf8};

verus! {

/// The slot that holds the address of the next instruction.
pub const PROGRAM_COUNTER: usize = 27;

/// A source operand at or above this value is an immediate: its low fifteen
/// bits are the value moved.
pub const IMMEDIATE: u16 = 0x8000;

/// Mathematical content of a [`Machine`].
pub struct MachineView {
    /// The register file.
    pub registers: RegistersView,
    /// The memory and the device streams.
    pub memory: MemoryView,
    /// The failure that stopped the machine, if one did.
    pub fault: Option<VmError>,
}

impl MachineView {
    /// Register file and memory have their fixed sizes.
    pub open spec fn wf(self) -> bool {
        self.registers.wf() && self.memory.wf()
    }

    /// The machine built from the program image `image`: zeroed slots with
    /// the built-in triggers, the image at the start of an otherwise zeroed
    /// memory, empty streams.
    pub open spec fn boot(image: Seq<u8>) -> MachineView {
        MachineView {
            registers: RegistersView {
                slots: Seq::new(SLOT_COUNT as nat, |i: int| 0i64),
                table: builtin_table(),
            },
            memory: (MemoryView {
                words: Seq::new(MEMORY_SIZE as nat, |i: int| 0u32),
                input: Seq::empty(),
                output: Seq::empty(),
            }).store_bytes(image, 0),
            fault: None,
        }
    }

    /// The address of the next instruction.
    pub open spec fn pc(self) -> i64 {
        self.registers.slots[PROGRAM_COUNTER as int]
    }

    /// Whether the machine has stopped for good: it has failed, or its
    /// program counter has left the memory.
    pub open spec fn halted(self) -> bool {
        self.fault.is_some() || !(0 <= self.pc() < MEMORY_SIZE)
    }

    /// The machine as a register access leaves it.
    pub open spec fn after(self, e: Effect) -> MachineView {
        MachineView {
            registers: RegistersView { slots: e.slots, ..self.registers },
            memory: e.memory,
            fault: e.fault,
        }
    }

    /// One cycle. A halted machine stays as it is. Otherwise the word at the
    /// program counter is decoded, its source operand is fetched (an
    /// immediate, or a slot read with its triggers), the program counter is
    /// advanced by one, and the value is written to the destination slot
    /// with its triggers. A failing access stops the machine where it is.
    pub open spec fn step(self) -> MachineView {
        if self.halted() {
            self
        } else {
            let word = self.memory.words[self.pc() as int];
            let source = opcode_source(word);
            let destination = opcode_destination(word);
            if source >= IMMEDIATE {
                self.after(
                    (RegistersView {
                        slots: self.registers.slots.update(
                            PROGRAM_COUNTER as int,
                            (self.pc() + 1) as i64,
                        ),
                        ..self.registers
                    }).write(self.memory, destination as int, (source - IMMEDIATE) as i64),
                )
            } else {
                let fetched = self.registers.read(self.memory, source as int);
                if fetched.fault.is_some() {
                    self.after(fetched)
                } else {
                    self.after(
                        (RegistersView {
                            slots: fetched.slots.update(
                                PROGRAM_COUNTER as int,
                                (self.pc() + 1) as i64,
                            ),
                            ..self.registers
                        }).write(fetched.memory, destination as int, fetched.slots[source as int]),
                    )
                }
            }
        }
    }

    /// The machine after `cycles` cycles.
    pub open spec fn run(self, cycles: nat) -> MachineView
        decreases cycles,
    {
        if cycles == 0 {
            self
        } else {
            self.step().run((cycles - 1) as nat)
        }
    }
}

/// Halting is for good: a halted machine stays as it is, however many
/// cycles it is given.
pub proof fn law_halted_stays_halted(m: MachineView, cycles: nat)
    requires
        m.halted(),
    ensures
        m.run(cycles) == m,
    decreases cycles,
{
    if cycles > 0 {
        law_halted_stays_halted(m, (cycles - 1) as nat);
    }
}

/// Running for `a` cycles and then for `b` more is running for `a + b`.
pub proof fn law_run_adds_up(m: MachineView, a: nat, b: nat)
    ensures
        m.run(a).run(b) == m.run(a + b),
    decreases a,
{
    if a > 0 {
        law_run_adds_up(m.step(), (a - 1) as nat, b);
    }
}

/// A transport-triggered machine with its registers and memory.
pub struct Machine {
    regs: Registers,
    mem: Memory,
    fault: Option<VmError>,
}

impl View for Machine {
    type V = MachineView;

    closed spec fn view(&self) -> MachineView {
        MachineView { registers: self.regs@, memory: self.mem@, fault: self.fault }
    }
}

impl Machine {
    /// Builds a machine around the program image `image`, which is copied
    /// to the start of the memory.
    pub fn from_image(image: &[u8]) -> (r: Result<Machine, VmError>)
        ensures
            match r {
                Ok(machine) => {
                    &&& image@.len() % 4 == 0
                    &&& image@.len() / 4 <= MEMORY_SIZE
                    &&& machine@ == MachineView::boot(image@)
                    &&& machine@.wf()
                },
                Err(e) => if image@.len() % 4 != 0 {
                    e == VmError::InvalidProgramLength
                } else {
                    image@.len() / 4 > MEMORY_SIZE && e == VmError::OutOfBounds
                },
            },
    {
        let mut mem = Memory::new();
        match mem.store(image, 0) {
            Ok(()) => {},
            Err(e) => {
                return Err(e);
            },
        }
        let mut regs = Registers::new();
        proof {
            law_builtin_on_bare_slots(regs@);
        }
        regs.init_triggers();
        let machine = Machine { regs, mem, fault: None };
        Ok(machine)
    }

    /// Builds a machine around the program image that the bytes of `code`
    /// are.
    pub fn new(code: &str) -> (r: Result<Machine, VmError>)
        ensures
            match r {
                Ok(machine) => {
                    &&& code.spec_bytes().len() % 4 == 0
                    &&& code.spec_bytes().len() / 4 <= MEMORY_SIZE
                    &&& machine@ == MachineView::boot(code.spec_bytes())
                    &&& machine@.wf()
                },
                Err(e) => if code.spec_bytes().len() % 4 != 0 {
                    e == VmError::InvalidProgramLength
                } else {
                    code.spec_bytes().len() / 4 > MEMORY_SIZE && e == VmError::OutOfBounds
                },
            },
    {
        Machine::from_image(code.as_bytes())
    }

    /// Whether the machine has stopped for good.
    pub fn is_halted(&self) -> (halted: bool)
        ensures
            halted == self@.halted(),
    {
        if self.fault.is_some() {
                    return true;
        }
        match self.regs.peek(PROGRAM_COUNTER) {
            Some(pc) => pc < 0 || pc >= MEMORY_SIZE as i64,
            None => true,
        }
    }

    /// The failure that stopped the machine, if one did.
    pub fn fault(&self) -> (fault: Option<VmError>)
        ensures
            fault == self@.fault,
    {
        self.fault
    }

    /// The value of slot `slot`, read without firing any trigger.
    pub fn register(&self, slot: usize) -> (v: Option<i64>)
        ensures
            slot < SLOT_COUNT ==> v == Some(self@.registers.slots[slot as int]),
            slot >= SLOT_COUNT ==> v.is_none(),
    {
        self.regs.peek(slot)
    }

    /// The memory word at `address`.
    pub fn word(&self, address: usize) -> (r: Result<u32, VmError>)
        ensures
            address < MEMORY_SIZE ==> r == Ok::<u32, VmError>(self@.memory.words[address as int]),
            address >= MEMORY_SIZE ==> r == Err::<u32, VmError>(VmError::OutOfBounds),
    {
        self.mem.load32(address)
    }

    /// Performs one cycle and says whether the machine is halted after it.
    pub fn step(&mut self) -> (halted: bool)
        ensures
            final(self)@ == old(self)@.step(),
            halted == final(self)@.halted(),
    {
        if self.is_halted() {
            return true;
        }
        let pc: i64 = match self.regs.peek(PROGRAM_COUNTER) {
            Some(pc) => pc,
            None => {
                return true;
            },
        };
        let (source, destination) = match self.mem.load_opcode(pc as usize) {
            Ok(fields) => fields,
            Err(e) => {
                self.fault = Some(e);
                return true;
            },
        };
        let value: i64 = if source >= IMMEDIATE {
            (source - IMMEDIATE) as i64
        } else {
            match self.regs.get(source as usize, &mut self.mem) {
                Ok(value) => value,
                Err(e) => {
                    self.fault = Some(e);
                    return true;
                },
            }
        };
        self.regs.poke(PROGRAM_COUNTER, pc + 1);
        match self.regs.set(destination as usize, value, &mut self.mem) {
            Ok(()) => {},
            Err(e) => {
                self.fault = Some(e);
            },
        }
        self.is_halted()
    }

    /// Runs the machine until it halts, for `cycles` cycles at most, and
    /// says whether it is halted then.
    pub fn execute(&mut self, cycles: u64) -> (halted: bool)
        ensures
            final(self)@ == old(self)@.run(cycles as nat),
            halted == final(self)@.halted(),
    {
        let mut halted: bool = self.is_halted();
        let mut done: u64 = 0;
        while done < cycles && !halted
            invariant
                done <= cycles,
                    halted == self@.halted(),
                old(self)@.run(cycles as nat) == self@.run((cycles - done) as nat),
            decreases cycles - done,
        {
            halted = self.step();
            done += 1;
        }
        proof {
            if halted {
                law_halted_stays_halted(self@, (cycles - done) as nat);
            }
        }
        halted
    }

    /// Appends the bytes of `s` to the input stream.
    pub fn write_into_vm(&mut self, s: &str)
        ensures
            final(self)@ == (MachineView {
                memory: MemoryView {
                    input: old(self)@.memory.input + s.spec_bytes(),
                    ..old(self)@.memory
                },
                ..old(self)@
            }),
    {
        self.mem.feed(s.as_bytes());
    }

    /// Hands out the bytes that the program has written and that were not
    /// handed out before.
    pub fn read_from_vm(&mut self) -> (bytes: Vec<u8>)
        ensures
            bytes@ == old(self)@.memory.output,
            final(self)@ == (MachineView {
                memory: MemoryView { output: Seq::<u8>::empty(), ..old(self)@.memory },
                ..old(self)@
            }),
    {
        self.mem.drain()
    }

    /// Hands out as text what the program has written and what was not
    /// handed out before, provided it is valid UTF-8. Output that is not
    /// stays where it is, for [`Machine::read_from_vm`] to fetch.
    pub fn read_str_from_vm(&mut self) -> (text: Option<String>)
        ensures
            text.is_some() == valid_utf8(old(self)@.memory.output),
            text.is_some() ==> encode_utf8(text.unwrap()@) == old(self)@.memory.output
                && final(self)@ == (MachineView {
                memory: MemoryView { output: Seq::<u8>::empty(), ..old(self)@.memory },
                ..old(self)@
            }),
            text.is_none() ==> final(self)@ == old(self)@,
    {
        self.mem.drain_text()
    }
}

} // verus!
