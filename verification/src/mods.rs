//! The mod manager: what the host does with its list of mods, and the one
//! machine that it runs for them.

use crate::laws::law_empty_program_halts;
use crate::machine::Machine;
use crate::memory::MEMORY_SIZE;
use vstd::prelude::*;
use vstd::string::StringSliceAdditionalSpecFns;
use vstd::utf8::{encode_utf8, valid_utf8};

verus! {

/// The byte that ends a line.
pub const LINE_FEED: u8 = 10;

/// How an attempt to bring up the listed mods went.
#[derive(Clone, Copy, Debug, PartialEq, Eq, Structural)]
pub struct ModReport {
    /// Mods that could not be brought up.
    pub failed: usize,
    /// Mods that were brought up.
    pub started: usize,
}

/// Number of line feeds in `bytes`.
pub open spec fn line_feeds(bytes: Seq<u8>) -> nat
    decreases bytes.len(),
{
    if bytes.len() == 0 {
        0
    } else {
        line_feeds(bytes.drop_last()) + if bytes.last() == LINE_FEED {
            1nat
        } else {
            0nat
        }
    }
}

/// There are no more line feeds than bytes.
pub proof fn lemma_line_feeds_bound(bytes: Seq<u8>)
    ensures
        line_feeds(bytes) <= bytes.len(),
    decreases bytes.len(),
{
    if bytes.len() > 0 {
        lemma_line_feeds_bound(bytes.drop_last());
    }
}

/// Number of lines in `bytes`: every line feed ends one, and what follows
/// the last line feed is a line if it is not empty.
pub open spec fn line_count(bytes: Seq<u8>) -> nat {
    line_feeds(bytes) + if bytes.len() > 0 && bytes.last() != LINE_FEED {
        1nat
    } else {
        0nat
    }
}

/// Goes through the mods that `list` names, one per line. No mod can be
/// loaded yet, so each of them is counted as failed.
pub fn initialize_mods(list: &str) -> (report: ModReport)
    ensures
        report.failed == line_count(list.spec_bytes()),
        report.started == 0,
{
    let bytes = list.as_bytes();
    let mut feeds: usize = 0;
    let mut i: usize = 0;
    while i < bytes.len()
        invariant
            i <= bytes@.len(),
            feeds <= i,
            feeds == line_feeds(bytes@.subrange(0, i as int)),
        decreases bytes@.len() - i,
    {
        assert(bytes@.subrange(0, i + 1).drop_last() =~= bytes@.subrange(0, i as int));
        if bytes[i] == LINE_FEED {
            feeds += 1;
        }
        i += 1;
    }
    assert(bytes@.subrange(0, i as int) =~= bytes@);
    let open_line: bool = bytes.len() > 0 && bytes[bytes.len() - 1] != LINE_FEED;
    let failed: usize = if open_line {
        proof {
            lemma_line_feeds_bound(bytes@.drop_last());
        }
        feeds + 1
    } else {
        feeds
    };
    ModReport { failed, started: 0 }
}

/// Runs the one machine that the host starts for its mods, built from the
/// empty program, until it halts, and hands out what it wrote as text.
///
/// The empty program writes nothing.
pub fn start_mods() -> (output: String)
    ensures
        output@ == Seq::<char>::empty(),
{
    let code = "";
    proof {
        reveal_strlit("");
        assert(code@ =~= Seq::<char>::empty());
        assert(encode_utf8(Seq::<char>::empty()) =~= Seq::<u8>::empty()) by {
            reveal_with_fuel(encode_utf8, 1);
        }
        law_empty_program_halts(MEMORY_SIZE as nat);
    }
    match Machine::new(code) {
        Ok(machine) => {
            let mut machine = machine;
            let halted = machine.execute(MEMORY_SIZE as u64);
            assert(halted);
            proof {
                assert(valid_utf8(Seq::<u8>::empty())) by {
                    reveal_with_fuel(valid_utf8, 1);
                }
            }
            match machine.read_str_from_vm() {
                Some(text) => {
                    proof {
                        vstd::utf8::encode_utf8_decode_utf8(text@);
                        assert(vstd::utf8::decode_utf8(Seq::<u8>::empty()) =~= Seq::<char>::empty())
                            by {
                            reveal_with_fuel(vstd::utf8::decode_utf8, 1);
                        }
                    }
                    text
                },
                None => String::new(),
            }
        },
        Err(_) => String::new(),
    }
}

} // verus!
