//! The numbered address spaces of the GPU.

use vstd::prelude::*;

verus! {

/// Generic pointers, the default.
pub const GENERIC: u32 = 0;

/// Grid-wide memory with the lifetime of the application.
pub const GLOBAL: u32 = 1;

/// Memory shared by the threads of one block.
pub const SHARED: u32 = 3;

/// Read-only memory that the host fills by symbol name.
pub const CONSTANT: u32 = 4;

} // verus!
