//! Layout of the address space.
use vstd::prelude::*;

verus! {

/// Capacity of the RAM, in bytes (4 KiB).
pub const MEMORY_SIZE: usize = 4096;

/// The address at which RAM starts; everything below it is reserved for
/// memory-mapped devices.
pub const RAM_BASE: usize = 0x80;

} // verus!
