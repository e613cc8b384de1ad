use vstd::prelude::*;

verus! {

/// Largest number of devices in one chain that a connector of this library frames for.
pub const MAX_DISPLAYS: usize = 8;

/// Size in bytes of the longest chain frame: one (register, data) pair per device.
pub const MAX_SERIAL_DATA_BYTES: usize = MAX_DISPLAYS * 2;

/// Digit (or row) registers per device.
pub const MAX_DIGITS: usize = 8;

} // verus!
