//! Hand-off blocks (HOBs), as far as the library reads them.

use crate::efi::Guid;
use vstd::prelude::*;

verus! {

/// One hand-off block.
#[derive(Debug, PartialEq, Eq)]
pub enum Hob {
    /// Data under a GUID.
    GuidHob { name: Guid, data: Vec<u8> },
    /// A module that was loaded into memory.
    MemoryAllocationModule {
        /// The name of the allocation.
        name: Guid,
        /// Where the module lies.
        memory_base_address: u64,
        /// How much memory it takes.
        memory_length: u64,
        /// The name of the module.
        module_name: Guid,
        /// Where it is entered.
        entry_point: u64,
    },
    /// A block of another kind.
    Other,
}

} // verus!
