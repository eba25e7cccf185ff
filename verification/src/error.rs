//! The ways in which an operation of the machine can fail.

use vstd::prelude::*;

verus! {

/// Failure of a memory, register or device operation.
#[derive(Clone, Copy, Debug, PartialEq, Eq, Structural)]
pub enum VmError {
    /// A word address or a slot index lies outside the fixed capacity.
    OutOfBounds,
    /// A program image whose length is not a multiple of four bytes.
    InvalidProgramLength,
    /// A device read found its stream empty and has no default to fall back on.
    IoUnavailable,
}

impl VmError {
    /// A short fixed name for the failure, useful in host diagnostics.
    pub fn name(&self) -> (s: &'static str)
        ensures
            s@ == match *self {
                VmError::OutOfBounds => "out of bounds"@,
                VmError::InvalidProgramLength => "invalid program length"@,
                VmError::IoUnavailable => "i/o unavailable"@,
            },
    {
        match self {
            VmError::OutOfBounds => "out of bounds",
            VmError::InvalidProgramLength => "invalid program length",
            VmError::IoUnavailable => "i/o unavailable",
        }
    }
}

} // verus!
