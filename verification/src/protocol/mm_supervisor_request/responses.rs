//! Response status constants.

use vstd::prelude::*;

verus! {

/// Operation completed successfully.
pub const SUCCESS: u64 = 0;

/// Operation failed with an error.
pub const ERROR: u64 = 0xFFFF_FFFF_FFFF_FFFF;

} // verus!
