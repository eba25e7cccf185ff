//! An embeddable transport-triggered virtual machine together with the
//! decision logic of the small server that hosts it.
//!
//! Programs for the machine consist of moves only: every instruction copies
//! an immediate or a register slot into a destination slot, and all
//! computation happens as a side effect of touching particular slots.

pub mod error;
pub mod memory;
pub mod operation;
pub mod registers;
pub mod text;
pub mod machine;
pub mod laws;
pub mod config;
pub mod mods;
pub mod wire;
pub mod network_client;
pub mod handshaking;
pub mod status;
pub mod handler;
