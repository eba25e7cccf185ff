//! The closed set of side effects that can be wired to a register slot.

use crate::error::VmError;
use crate::memory::{Memory, MemoryView};
use vstd::prelude::*;

verus! {

/// Number of slots in a register file.
pub const SLOT_COUNT: usize = 36;

/// The two ways of touching a slot.
#[derive(Clone, Copy, Debug, PartialEq, Eq, Structural)]
pub enum Access {
    /// The slot's value is about to be read out.
    Read,
    /// A value has just been stored into the slot.
    Write,
}

/// A side effect that a trigger performs on the slots and the memory.
#[derive(Clone, Copy, Debug, PartialEq, Eq, Structural)]
pub enum Operation {
    /// Slot 2 becomes slot 0 plus slot 1.
    Sum,
    /// Slot 5 becomes slot 3 minus slot 4.
    Difference,
    /// Slot 8 becomes slot 6 times slot 7.
    Product,
    /// Slots 11 and 12 become quotient and remainder of slot 9 by slot 10.
    Quotient,
    /// Slot 15 becomes 1 if slot 13 is less than slot 14, else 0.
    Less,
    /// On a write, the low byte of slot 18 goes to the output stream; on a
    /// read, the next input byte goes to slot 19.
    Device,
    /// Slot 23 becomes slot 21 if slot 20 is zero, else slot 22.
    Choice,
    /// On a write, slot 24 goes to the double word addressed by slot 26; on a
    /// read, that double word goes to slot 24.
    MemoryPort,
}

/// What the slots and the memory look like after a register access, and the
/// failure that cut the access short, if any.
pub struct Effect {
    /// The slot values.
    pub slots: Seq<i64>,
    /// The memory.
    pub memory: MemoryView,
    /// The failure of the first operation that could not be performed.
    pub fault: Option<VmError>,
}

/// Byte that a missing input reads as: a line feed.
pub const INPUT_DEFAULT: u8 = 10;

/// `v` reduced modulo 2^64 into the range of a signed 64-bit integer.
pub open spec fn wrap(v: int) -> i64 {
    let r = v % 0x1_0000_0000_0000_0000;
    if r > i64::MAX {
        (r - 0x1_0000_0000_0000_0000) as i64
    } else {
        r as i64
    }
}

/// Absolute value.
pub open spec fn magnitude(v: int) -> int {
    if v < 0 {
        -v
    } else {
        v
    }
}

/// Quotient of `a` by a non-zero `b`, rounded towards zero.
pub open spec fn truncated_quotient(a: int, b: int) -> int {
    if (a < 0) == (b < 0) {
        magnitude(a) / magnitude(b)
    } else {
        -(magnitude(a) / magnitude(b))
    }
}

/// Remainder that goes with [`truncated_quotient`]; it has the sign of `a`.
pub open spec fn truncated_remainder(a: int, b: int) -> int {
    if a < 0 {
        -(magnitude(a) % magnitude(b))
    } else {
        magnitude(a) % magnitude(b)
    }
}

/// What the divider yields as quotient: the dividend itself when the divisor
/// is zero.
pub open spec fn quotient(a: i64, b: i64) -> i64 {
    if b == 0 {
        a
    } else {
        wrap(truncated_quotient(a as int, b as int))
    }
}

/// What the divider yields as remainder: zero when the divisor is zero.
pub open spec fn remainder(a: i64, b: i64) -> i64 {
    if b == 0 {
        0
    } else {
        truncated_remainder(a as int, b as int) as i64
    }
}

/// The 64 bits of `v` read as an unsigned number.
pub open spec fn to_bits(v: i64) -> u64 {
    if v < 0 {
        (v + 0x1_0000_0000_0000_0000) as u64
    } else {
        v as u64
    }
}

/// The 64 bits of `u` read as a signed number.
pub open spec fn from_bits(u: u64) -> i64 {
    if u > i64::MAX {
        (u - 0x1_0000_0000_0000_0000) as i64
    } else {
        u as i64
    }
}

/// The lowest eight bits of `v`.
pub open spec fn low_byte(v: i64) -> u8 {
    (v % 0x100) as u8
}

/// The result that reports `fault`.
pub open spec fn outcome(fault: Option<VmError>) -> Result<(), VmError> {
    match fault {
        Some(e) => Err(e),
        None => Ok(()),
    }
}

impl Operation {
    /// What the operation does to `slots` and `memory` when a trigger fires
    /// it on the given kind of access.
    ///
    /// An operation that fails changes nothing.
    pub open spec fn effect(self, access: Access, slots: Seq<i64>, memory: MemoryView) -> Effect {
        match self {
            Operation::Sum => Effect {
                slots: slots.update(2, wrap(slots[0] + slots[1])),
                memory,
                fault: None,
            },
            Operation::Difference => Effect {
                slots: slots.update(5, wrap(slots[3] - slots[4])),
                memory,
                fault: None,
            },
            Operation::Product => Effect {
                slots: slots.update(8, wrap(slots[6] * slots[7])),
                memory,
                fault: None,
            },
            Operation::Quotient => Effect {
                slots: slots.update(11, quotient(slots[9], slots[10])).update(
                    12,
                    remainder(slots[9], slots[10]),
                ),
                memory,
                fault: None,
            },
            Operation::Less => Effect {
                slots: slots.update(
                    15,
                    if slots[13] < slots[14] {
                        1i64
                    } else {
                        0i64
                    },
                ),
                memory,
                fault: None,
            },
            Operation::Device => match access {
                Access::Write => Effect {
                    slots,
                    memory: MemoryView {
                        output: memory.output.push(low_byte(slots[18])),
                        ..memory
                    },
                    fault: None,
                },
                Access::Read => if memory.input.len() > 0 {
                    Effect {
                        slots: slots.update(19, memory.input[0] as i64),
                        memory: MemoryView { input: memory.input.drop_first(), ..memory },
                        fault: None,
                    }
                } else {
                    Effect { slots: slots.update(19, INPUT_DEFAULT as i64), memory, fault: None }
                },
            },
            Operation::Choice => Effect {
                slots: slots.update(
                    23,
                    if slots[20] == 0 {
                        slots[21]
                    } else {
                        slots[22]
                    },
                ),
                memory,
                fault: None,
            },
            Operation::MemoryPort => if !memory.holds_double(slots[26] as int) {
                Effect { slots, memory, fault: Some(VmError::OutOfBounds) }
            } else {
                match access {
                    Access::Write => Effect {
                        slots,
                        memory: memory.store_double(slots[26] as int, to_bits(slots[24])),
                        fault: None,
                    },
                    Access::Read => Effect {
                        slots: slots.update(24, from_bits(memory.load_double(slots[26] as int))),
                        memory,
                        fault: None,
                    },
                }
            },
        }
    }

    /// Performs the operation on `slots` and `memory`.
    pub fn fire(self, access: Access, slots: &mut [i64; 36], memory: &mut Memory) -> (r: Result<
        (),
        VmError,
    >)
        ensures
            final(slots)@ == self.effect(access, old(slots)@, old(memory)@).slots,
            final(memory)@ == self.effect(access, old(slots)@, old(memory)@).memory,
            r == outcome(self.effect(access, old(slots)@, old(memory)@).fault),
    {
        match self {
            Operation::Sum => {
                slots[2] = slots[0].wrapping_add(slots[1]);
                Ok(())
            },
            Operation::Difference => {
                slots[5] = slots[3].wrapping_sub(slots[4]);
                Ok(())
            },
            Operation::Product => {
                slots[8] = slots[6].wrapping_mul(slots[7]);
                Ok(())
            },
            Operation::Quotient => {
                let dividend: i64 = slots[9];
                let divisor: i64 = slots[10];
                slots[11] = divide(dividend, divisor);
                slots[12] = modulo(dividend, divisor);
                Ok(())
            },
            Operation::Less => {
                slots[15] = if slots[13] < slots[14] {
                    1
                } else {
                    0
                };
                Ok(())
            },
            Operation::Device => {
                match access {
                    Access::Write => {
                        memory.write_byte(lowest_byte(slots[18]));
                    },
                    Access::Read => {
                        slots[19] = match memory.read_byte() {
                            Some(byte) => byte as i64,
                            None => INPUT_DEFAULT as i64,
                        };
                    },
                }
                Ok(())
            },
            Operation::Choice => {
                slots[23] = if slots[20] == 0 {
                    slots[21]
                } else {
                    slots[22]
                };
                Ok(())
            },
            Operation::MemoryPort => {
                let pointer: i64 = slots[26];
                if !memory.holds_double(pointer) {
                    return Err(VmError::OutOfBounds);
                }
                let address: usize = pointer as usize;
                match access {
                    Access::Write => {
                        let _ = memory.store64(address, unsigned_bits(slots[24]));
                    },
                    Access::Read => {
                        if let Ok(value) = memory.load64(address) {
                            slots[24] = signed_bits(value);
                        }
                    },
                }
                Ok(())
            },
        }
    }
}

/// Dividing by `-d` negates the quotient and keeps the remainder.
proof fn lemma_negated_divisor(x: int, d: int)
    requires
        d > 0,
    ensures
        x / (-d) == -(x / d),
        x % (-d) == x % d,
{
    let q = x / d;
    let r = x % d;
    let p = x / (-d);
    let s = x % (-d);
    assert(x == d * q + r && 0 <= r < d) by (nonlinear_arith)
        requires
            d > 0,
            q == x / d,
            r == x % d,
    ;
    assert(x == (-d) * p + s && 0 <= s < d) by (nonlinear_arith)
        requires
            d > 0,
            p == x / (-d),
            s == x % (-d),
    ;
    assert(p + q == 0) by (nonlinear_arith)
        requires
            d > 0,
            d * q + r == (-d) * p + s,
            0 <= r < d,
            0 <= s < d,
    ;
    assert(s == r) by (nonlinear_arith)
        requires
            d * q + r == (-d) * p + s,
            p + q == 0,
    ;
}

/// A quotient of non-negative numbers is no larger than the dividend.
proof fn lemma_quotient_bound(x: int, d: int)
    requires
        x >= 0,
        d > 0,
    ensures
        0 <= x / d <= x,
{
    vstd::arithmetic::div_mod::lemma_div_pos_is_pos(x, d);
    vstd::arithmetic::div_mod::lemma_div_is_ordered_by_denominator(x, 1, d);
}

/// Quotient as the divider computes it.
pub fn divide(a: i64, b: i64) -> (q: i64)
    ensures
        q == quotient(a, b),
{
    if b == 0 {
        a
    } else if a == i64::MIN && b == -1 {
        assert(truncated_quotient(a as int, b as int) == 0x8000_0000_0000_0000) by {
            assert(magnitude(b as int) == 1);
        }
        i64::MIN
    } else {
        let q: i64 = a / b;
        proof {
            lemma_negated_divisor(magnitude(a as int), magnitude(b as int));
            lemma_quotient_bound(magnitude(a as int), magnitude(b as int));
            if magnitude(a as int) > 0 && magnitude(b as int) > 1 {
                vstd::arithmetic::div_mod::lemma_div_is_strictly_smaller(
                    magnitude(a as int),
                    magnitude(b as int),
                );
            }
            assert(q == truncated_quotient(a as int, b as int));
        }
        q
    }
}

/// Remainder as the divider computes it.
pub fn modulo(a: i64, b: i64) -> (r: i64)
    ensures
        r == remainder(a, b),
{
    if b == 0 || (a == i64::MIN && b == -1) {
        0
    } else {
        let r: i64 = a % b;
        proof {
            lemma_negated_divisor(magnitude(a as int), magnitude(b as int));
        }
        r
    }
}

/// Reads the bits of a signed value as an unsigned one.
pub fn unsigned_bits(v: i64) -> (u: u64)
    ensures
        u == to_bits(v),
{
    if v < 0 {
        (v - i64::MIN) as u64 + 0x8000_0000_0000_0000
    } else {
        v as u64
    }
}

/// Reads the bits of an unsigned value as a signed one.
pub fn signed_bits(u: u64) -> (v: i64)
    ensures
        v == from_bits(u),
{
    if u > i64::MAX as u64 {
        (u - 0x8000_0000_0000_0000) as i64 + i64::MIN
    } else {
        u as i64
    }
}

/// The lowest eight bits of `v`.
pub fn lowest_byte(v: i64) -> (b: u8)
    ensures
        b == low_byte(v),
{
    (unsigned_bits(v) % 0x100) as u8
}

} // verus!
