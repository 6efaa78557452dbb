use vstd::prelude::*;

verus! {

/// Command id 0 is the universal convention "check driver presence": every
/// driver returns success without side effects when it exists.
pub const COMMAND_DRIVER_CHECK: u32 = 0;

// ---------------------------------------------------------------------------
// Random-byte generator driver
// ---------------------------------------------------------------------------

pub const RNG_DRIVER_NUM: u32 = 0x40001;

/// Fill the currently allowed buffer and schedule one upcall with the count.
pub const RNG_COMMAND_GEN: u32 = 1;

pub const RNG_SUBSCRIBE_GEN: u32 = 0;

pub const RNG_ALLOW_GEN: u32 = 0;

/// The byte the simulated generator writes; the fake driver is deterministic
/// so that tests can assert exact buffer contents.
pub const RNG_FILL_BYTE: u8 = 12;

/// The most upcall slots the generator driver may schedule into.
pub const RNG_NUM_UPCALLS: u32 = 2;

// ---------------------------------------------------------------------------
// Flash-backed persistent-state driver
// ---------------------------------------------------------------------------

pub const APP_STATE_DRIVER_NUM: u32 = 0x50000;

/// Copy the allowed read-only buffer to the flash address given in the first
/// command argument, then schedule one upcall with the byte count.
pub const APP_STATE_COMMAND_WRITE_FLASH: u32 = 1;

pub const APP_STATE_SUBSCRIBE_WRITE: u32 = 0;

pub const APP_STATE_ALLOW_WRITE: u32 = 0;

/// The most upcall slots the persistent-state driver may schedule into.
pub const APP_STATE_NUM_UPCALLS: u32 = 2;

// ---------------------------------------------------------------------------
// Memory-layout query (memop) operation ids
// ---------------------------------------------------------------------------

pub const MEMOP_MEMORY_START: u32 = 2;

pub const MEMOP_MEMORY_END: u32 = 3;

pub const MEMOP_FLASH_START: u32 = 4;

pub const MEMOP_FLASH_END: u32 = 5;

pub const MEMOP_GRANT_START: u32 = 6;

pub const MEMOP_FLASH_REGIONS: u32 = 7;

pub const MEMOP_FLASH_REGIONS_START: u32 = 8;

pub const MEMOP_FLASH_REGIONS_END: u32 = 9;

} // verus!
