//! Standard MM Supervisor request types.

use vstd::prelude::*;

verus! {

/// Request to unblock memory regions.
pub const UNBLOCK_MEM: u32 = 0x0001;

/// Request to fetch the security policy.
pub const FETCH_POLICY: u32 = 0x0002;

/// Request for version information.
pub const VERSION_INFO: u32 = 0x0003;

/// Request to update the communication buffer.
pub const COMM_UPDATE: u32 = 0x0004;

} // verus!
