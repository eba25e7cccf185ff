//! Settings of the hosting server, fixed at start-up.

use vstd::prelude::*;

verus! {

/// Protocol version that the server announces.
pub const PROTOCOL_VERSION: u32 = 340;

/// Port on which the server listens.
pub const ADDRESS_PORT: u16 = 25565;

/// Address on which the server listens.
pub const ADDRESS: &'static str = "0.0.0.0";

/// Whether mods are run at all.
pub const MODS_ENABLED: bool = true;

/// File that lists the mods, one name per line.
pub const MODS_PATH: &'static str = "mods.conf";

} // verus!
