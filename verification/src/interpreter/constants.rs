//! Address-space constants for the simulated C memory model.
//!
//! Stack and heap variables live in distinct, non-overlapping address ranges
//! so that the TUI can tell them apart at a glance and pointer arithmetic can
//! be validated cheaply.
//!
//! | Region | Base address  | Direction |
//! |--------|---------------|-----------|
//! | Stack  | `0x0000_0004` | grows up (sequential variable IDs) |
//! | Heap   | `0x7fff_0000` | grows up |
use vstd::prelude::*;

verus! {

/// Starting address for heap allocations.
pub const HEAP_ADDRESS_START: u64 = 0x7fff_0000;

/// Starting address for stack variable addresses.
pub const STACK_ADDRESS_START: u64 = 0x0000_0004;

} // verus!
