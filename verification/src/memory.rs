//! The machine's flat word memory and its two device streams.

use crate::error::VmError;
use crate::text::utf8_text;
use std::collections::VecDeque;
use vstd::prelude::*;
use vstd::utf8::{encode_utf8, valid_utf8};

verus! {

/// Number of 32-bit words in a memory.
pub const MEMORY_SIZE: usize = 1048576;

/// Mathematical content of a [`Memory`].
pub struct MemoryView {
    /// The words, by address.
    pub words: Seq<u32>,
    /// Bytes waiting to be read by the program, oldest first.
    pub input: Seq<u8>,
    /// Bytes written by the program and not yet drained, oldest first.
    pub output: Seq<u8>,
}

/// The word that four bytes make, most significant byte first.
pub open spec fn pack_word(b0: u8, b1: u8, b2: u8, b3: u8) -> u32 {
    (b0 * 0x100_0000 + b1 * 0x1_0000 + b2 * 0x100 + b3) as u32
}

/// Source operand of an opcode word: its high sixteen bits.
pub open spec fn opcode_source(word: u32) -> u16 {
    (word / 0x1_0000) as u16
}

/// Destination slot of an opcode word: its low sixteen bits.
pub open spec fn opcode_destination(word: u32) -> u16 {
    (word % 0x1_0000) as u16
}

/// The 64-bit value that a high and a low word make.
pub open spec fn join_words(high: u32, low: u32) -> u64 {
    (high * 0x1_0000_0000 + low) as u64
}

impl MemoryView {
    /// A memory of the fixed capacity.
    pub open spec fn wf(self) -> bool {
        self.words.len() == MEMORY_SIZE
    }

    /// Whether the double word `address` lies wholly inside the memory.
    pub open spec fn holds_double(self, address: int) -> bool {
        0 <= address && 2 * address + 1 < self.words.len()
    }

    /// The double word at `address`: the word at `2 * address` is its high half.
    pub open spec fn load_double(self, address: int) -> u64 {
        join_words(self.words[2 * address], self.words[2 * address + 1])
    }

    /// The memory after `value` is written as the double word at `address`.
    pub open spec fn store_double(self, address: int, value: u64) -> MemoryView {
        MemoryView {
            words: self.words.update(2 * address, (value / 0x1_0000_0000) as u32).update(
                2 * address + 1,
                (value % 0x1_0000_0000) as u32,
            ),
            ..self
        }
    }

    /// Whether an image of `len` bytes placed at word `base` fits.
    pub open spec fn fits(self, len: int, base: int) -> bool {
        0 <= base && base + len / 4 <= self.words.len()
    }

    /// The memory after `data` is packed into it from word `base` on, four
    /// bytes to a word.
    pub open spec fn store_bytes(self, data: Seq<u8>, base: int) -> MemoryView {
        MemoryView {
            words: Seq::new(
                self.words.len(),
                |i: int|
                    if base <= i < base + data.len() / 4 {
                        pack_word(
                            data[4 * (i - base)],
                            data[4 * (i - base) + 1],
                            data[4 * (i - base) + 2],
                            data[4 * (i - base) + 3],
                        )
                    } else {
                        self.words[i]
                    },
            ),
            ..self
        }
    }
}

/// Word-addressed memory of [`MEMORY_SIZE`] words with an input and an
/// output byte stream.
pub struct Memory {
    words: Words,
    input: VecDeque<u8>,
    output: Vec<u8>,
}

/// The word array, kept at its fixed length.
struct Words {
    cells: Vec<u32>,
}

impl Words {
    #[verifier::type_invariant]
    spec fn inv(self) -> bool {
        self.cells@.len() == MEMORY_SIZE
    }
}

impl View for Memory {
    type V = MemoryView;

    closed spec fn view(&self) -> MemoryView {
        MemoryView { words: self.words.cells@, input: self.input@, output: self.output@ }
    }
}

impl Memory {
    /// A zeroed memory with empty streams.
    pub fn new() -> (m: Memory)
        ensures
            m@.wf(),
            m@.words == Seq::new(MEMORY_SIZE as nat, |i: int| 0u32),
            m@.input == Seq::<u8>::empty(),
            m@.output == Seq::<u8>::empty(),
    {
        let cells: Vec<u32> = vec![0u32; MEMORY_SIZE];
        assert(cells@ =~= Seq::new(MEMORY_SIZE as nat, |i: int| 0u32));
        Memory { words: Words { cells }, input: VecDeque::new(), output: Vec::new() }
    }

    /// The word at `address`.
    pub fn load32(&self, address: usize) -> (r: Result<u32, VmError>)
        ensures
            self@.wf(),
            address < MEMORY_SIZE ==> r == Ok::<u32, VmError>(self@.words[address as int]),
            address >= MEMORY_SIZE ==> r == Err::<u32, VmError>(VmError::OutOfBounds),
    {
        proof {
            use_type_invariant(&self.words);
        }
        if address < MEMORY_SIZE {
            Ok(self.words.cells[address])
        } else {
            Err(VmError::OutOfBounds)
        }
    }

    /// The opcode word at `address`, split into source operand and
    /// destination slot.
    pub fn load_opcode(&self, address: usize) -> (r: Result<(u16, u16), VmError>)
        ensures
            self@.wf(),
            address < MEMORY_SIZE ==> r == Ok::<(u16, u16), VmError>(
                (
                    opcode_source(self@.words[address as int]),
                    opcode_destination(self@.words[address as int]),
                ),
            ),
            address >= MEMORY_SIZE ==> r == Err::<(u16, u16), VmError>(VmError::OutOfBounds),
    {
        match self.load32(address) {
            Ok(word) => Ok(((word / 0x1_0000) as u16, (word % 0x1_0000) as u16)),
            Err(e) => Err(e),
        }
    }

    /// Whether `address` names a double word that lies wholly inside the
    /// memory.
    pub fn holds_double(&self, address: i64) -> (b: bool)
        ensures
            self@.wf(),
            b == self@.holds_double(address as int),
    {
        proof {
            use_type_invariant(&self.words);
        }
        0 <= address && address < (MEMORY_SIZE / 2) as i64
    }

    /// The double word at `address`.
    pub fn load64(&self, address: usize) -> (r: Result<u64, VmError>)
        ensures
            self@.wf(),
            self@.holds_double(address as int) ==> r == Ok::<u64, VmError>(
                self@.load_double(address as int),
            ),
            !self@.holds_double(address as int) ==> r == Err::<u64, VmError>(
                VmError::OutOfBounds,
            ),
    {
        proof {
            use_type_invariant(&self.words);
        }
        if address >= MEMORY_SIZE / 2 {
            return Err(VmError::OutOfBounds);
        }
        let high: u64 = self.words.cells[address * 2] as u64;
        let low: u64 = self.words.cells[address * 2 + 1] as u64;
        Ok(high * 0x1_0000_0000 + low)
    }

    /// Writes `value` as the double word at `address`.
    pub fn store64(&mut self, address: usize, value: u64) -> (r: Result<(), VmError>)
        ensures
            final(self)@.wf(),
            old(self)@.holds_double(address as int) ==> r.is_ok() && final(self)@ == old(
                self,
            )@.store_double(address as int, value),
            !old(self)@.holds_double(address as int) ==> r == Err::<(), VmError>(
                VmError::OutOfBounds,
            ) && final(self)@ == old(self)@,
    {
        proof {
            use_type_invariant(&self.words);
        }
        if address >= MEMORY_SIZE / 2 {
            return Err(VmError::OutOfBounds);
        }
        let high: u32 = (value / 0x1_0000_0000) as u32;
        let low: u32 = (value % 0x1_0000_0000) as u32;
        self.words.cells[address * 2] = high;
        self.words.cells[address * 2 + 1] = low;
        Ok(())
    }

    /// Packs `data` into the memory from word `base` on, four bytes to a
    /// word, the most significant byte first.
    ///
    /// Nothing is written unless the whole of `data` can be.
    pub fn store(&mut self, data: &[u8], base: usize) -> (r: Result<(), VmError>)
        ensures
            final(self)@.wf(),
            data@.len() % 4 != 0 ==> r == Err::<(), VmError>(VmError::InvalidProgramLength),
            data@.len() % 4 == 0 && !old(self)@.fits(data@.len() as int, base as int) ==> r
                == Err::<(), VmError>(VmError::OutOfBounds),
            r.is_err() ==> final(self)@ == old(self)@,
            data@.len() % 4 == 0 && old(self)@.fits(data@.len() as int, base as int) ==> r.is_ok()
                && final(self)@ == old(self)@.store_bytes(data@, base as int),
    {
        proof {
            use_type_invariant(&self.words);
        }
        if data.len() % 4 != 0 {
            return Err(VmError::InvalidProgramLength);
        }
        let count: usize = data.len() / 4;
        if base > MEMORY_SIZE || count > MEMORY_SIZE - base {
            return Err(VmError::OutOfBounds);
        }
        let ghost before = self@;
        let mut i: usize = 0;
        while i < count
            invariant
                i <= count,
                count == data@.len() / 4,
                data@.len() % 4 == 0,
                base + count <= MEMORY_SIZE,
                before.wf(),
                self.words.cells@.len() == MEMORY_SIZE,
                self.input@ == before.input,
                self.output@ == before.output,
                forall|k: int|
                    0 <= k < MEMORY_SIZE ==> #[trigger] self.words.cells@[k] == if base <= k < base
                        + i {
                        pack_word(
                            data@[4 * (k - base)],
                            data@[4 * (k - base) + 1],
                            data@[4 * (k - base) + 2],
                            data@[4 * (k - base) + 3],
                        )
                    } else {
                        before.words[k]
                    },
            decreases count - i,
        {
            let b0: u32 = data[4 * i] as u32;
            let b1: u32 = data[4 * i + 1] as u32;
            let b2: u32 = data[4 * i + 2] as u32;
            let b3: u32 = data[4 * i + 3] as u32;
            self.words.cells[base + i] = b0 * 0x100_0000 + b1 * 0x1_0000 + b2 * 0x100 + b3;
            i += 1;
        }
        assert(self@.words =~= before.store_bytes(data@, base as int).words);
        Ok(())
    }

    /// Appends `bytes` to the input stream.
    pub fn feed(&mut self, bytes: &[u8])
        ensures
            final(self)@.wf(),
            final(self)@ == (MemoryView { input: old(self)@.input + bytes@, ..old(self)@ }),
    {
        proof {
            use_type_invariant(&self.words);
        }
        let ghost before = self@;
        let mut i: usize = 0;
        while i < bytes.len()
            invariant
                i <= bytes@.len(),
                self.words.cells@ == before.words,
                self.output@ == before.output,
                self.input@ == before.input + bytes@.subrange(0, i as int),
            decreases bytes@.len() - i,
        {
            self.input.push_back(bytes[i]);
            i += 1;
            assert(bytes@.subrange(0, i as int) =~= bytes@.subrange(0, i - 1).push(bytes@[i - 1]));
            assert(self.input@ =~= before.input + bytes@.subrange(0, i as int));
        }
        assert(bytes@.subrange(0, i as int) =~= bytes@);
    }

    /// Takes the oldest byte off the input stream, if there is one.
    pub fn read_byte(&mut self) -> (b: Option<u8>)
        ensures
            final(self)@.wf(),
            old(self)@.input.len() == 0 ==> b.is_none() && final(self)@ == old(self)@,
            old(self)@.input.len() > 0 ==> b == Some(old(self)@.input[0]) && final(self)@ == (
                MemoryView { input: old(self)@.input.drop_first(), ..old(self)@ }
            ),
    {
        proof {
            use_type_invariant(&self.words);
        }
        self.input.pop_front()
    }

    /// Appends `byte` to the output stream.
    pub fn write_byte(&mut self, byte: u8)
        ensures
            final(self)@.wf(),
            final(self)@ == (MemoryView { output: old(self)@.output.push(byte), ..old(self)@ }),
    {
        proof {
            use_type_invariant(&self.words);
        }
        self.output.push(byte);
    }

    /// Hands out everything in the output stream and leaves it empty.
    pub fn drain(&mut self) -> (bytes: Vec<u8>)
        ensures
            final(self)@.wf(),
            bytes@ == old(self)@.output,
            final(self)@ == (MemoryView { output: Seq::<u8>::empty(), ..old(self)@ }),
    {
        proof {
            use_type_invariant(&self.words);
        }
        let mut bytes: Vec<u8> = Vec::new();
        std::mem::swap(&mut self.output, &mut bytes);
        bytes
    }

    /// Hands out the output stream as text and leaves it empty, provided
    /// that it holds valid UTF-8; otherwise the stream stays as it is.
    pub fn drain_text(&mut self) -> (text: Option<String>)
        ensures
            final(self)@.wf(),
            text.is_some() == valid_utf8(old(self)@.output),
            text.is_some() ==> encode_utf8(text.unwrap()@) == old(self)@.output && final(self)@ == (
                MemoryView { output: Seq::<u8>::empty(), ..old(self)@ }
            ),
            text.is_none() ==> final(self)@ == old(self)@,
    {
        proof {
            use_type_invariant(&self.words);
        }
        let text = utf8_text(self.output.as_slice());
        if text.is_some() {
            self.output.clear();
        }
        text
    }
}

} // verus!
