//! The SMI entry binary of a core.
//!
//! The binary ends in a fixup structure: a header with the places of its arrays, the arrays,
//! and the size of the structure in the last four bytes. One entry of the 64-bit array is
//! the address of the descriptor that the entry code loads into the IDT register.

use crate::bytes::{le32, le64, read_u32, read_u64};
use vstd::prelude::*;

verus! {

/// Offset from SMBASE where the SMI handler code is located.
pub const SMM_HANDLER_OFFSET: u64 = 0x8000;

/// Index into the 64-bit fixup array for the SMI handler IDTR pointer.
pub const FIXUP64_SMI_HANDLER_IDTR: usize = 5;

/// Size in bytes of the fixup header.
pub const FIXUP_HEADER_SIZE: usize = 22;

/// Offset in the fixup header of the offset of the 64-bit array.
pub const FIXUP64_OFFSET_AT: usize = 6;

/// Offset in the fixup header of the number of entries of the 64-bit array.
pub const FIXUP64_NUM_AT: usize = 7;

/// The base of a core's SMRAM: what the SMBASE register says, or else what was passed down.
pub open spec fn effective_smbase(smbase: u64, mmbase: u64) -> u64 {
    if smbase == 0 {
        mmbase
    } else {
        smbase
    }
}

/// Where the SMI entry binary starts, given the SMBASE register and the base that was passed
/// down. Without a binary there is nothing to look at.
pub fn mmi_entry_base(smbase: u64, mmbase: u64, mmi_entry_size: u64) -> (r: Option<u64>)
    requires
        effective_smbase(smbase, mmbase) + SMM_HANDLER_OFFSET <= u64::MAX,
    ensures
        r == if mmi_entry_size == 0 {
            None
        } else {
            Some((effective_smbase(smbase, mmbase) + SMM_HANDLER_OFFSET) as u64)
        },
{
    if mmi_entry_size == 0 {
        return None;
    }
    let base: u64 = if smbase == 0 {
        mmbase
    } else {
        smbase
    };
    Some(base + SMM_HANDLER_OFFSET)
}

/// What is to be done about the IDT descriptor of the SMI handler.
#[derive(Debug, Clone, Copy, PartialEq, Eq, Structural)]
pub enum IdtPatch {
    /// Overwrite the descriptor at this address with the current IDT register.
    WriteDescriptor(u64),
    /// The 64-bit fixup array has too few entries.
    TooFewFixups(u8),
    /// The descriptor has no address.
    NullDescriptor,
    /// The fixup structure does not lie within the binary.
    OutOfBounds,
}

/// Where the fixup header of a binary starts: its size field is in the last four bytes, and
/// the structure ends where that field starts.
pub open spec fn fixup_header(entry: Seq<u8>) -> int {
    entry.len() - 4 - le32(entry, entry.len() - 4)
}

/// Where the entry for the IDT descriptor is in the binary.
pub open spec fn idtr_fixup(entry: Seq<u8>) -> int {
    fixup_header(entry) + entry[fixup_header(entry) + FIXUP64_OFFSET_AT] + 8
        * FIXUP64_SMI_HANDLER_IDTR
}

/// What the binary says about the IDT descriptor.
pub open spec fn idt_patch(entry: Seq<u8>) -> IdtPatch {
    if entry.len() < 4 || fixup_header(entry) < 0 || fixup_header(entry) + FIXUP_HEADER_SIZE
        > entry.len() {
        IdtPatch::OutOfBounds
    } else {
        let count = entry[fixup_header(entry) + FIXUP64_NUM_AT];
        if FIXUP64_SMI_HANDLER_IDTR >= count {
            IdtPatch::TooFewFixups(count)
        } else if idtr_fixup(entry) + 8 > entry.len() {
            IdtPatch::OutOfBounds
        } else if le64(entry, idtr_fixup(entry)) == 0 {
            IdtPatch::NullDescriptor
        } else {
            IdtPatch::WriteDescriptor(le64(entry, idtr_fixup(entry)) as u64)
        }
    }
}

/// Finds the IDT descriptor of the SMI handler, which is to point to the interrupt handlers
/// of the supervisor, in the bytes of the SMI entry binary.
pub fn patch_smi_handler_idt(entry: &[u8]) -> (r: IdtPatch)
    ensures
        r == idt_patch(entry@),
{
    let len: usize = entry.len();
    if len < 4 {
        return IdtPatch::OutOfBounds;
    }
    let whole_struct_size: u32 = read_u32(entry, len - 4);
    if whole_struct_size as u64 > (len - 4) as u64 {
        return IdtPatch::OutOfBounds;
    }
    let header: usize = len - 4 - whole_struct_size as usize;
    if len - header < FIXUP_HEADER_SIZE {
        return IdtPatch::OutOfBounds;
    }
    let offset: u8 = entry[header + FIXUP64_OFFSET_AT];
    let count: u8 = entry[header + FIXUP64_NUM_AT];
    if FIXUP64_SMI_HANDLER_IDTR >= count as usize {
        return IdtPatch::TooFewFixups(count);
    }
    let at: u128 = header as u128 + offset as u128 + 8 * FIXUP64_SMI_HANDLER_IDTR as u128;
    if at + 8 > len as u128 {
        return IdtPatch::OutOfBounds;
    }
    let descriptor: u64 = read_u64(entry, at as usize);
    if descriptor == 0 {
        return IdtPatch::NullDescriptor;
    }
    IdtPatch::WriteDescriptor(descriptor)
}

/// Which save state base counts: the one of the CPU, and where it has none that of the boot
/// processor.
pub proof fn law_effective_smbase(smbase: u64, mmbase: u64)
    ensures
        smbase != 0 ==> effective_smbase(smbase, mmbase) == smbase,
        smbase == 0 ==> effective_smbase(smbase, mmbase) == mmbase,
{
}

/// Where the descriptor of the interrupt table is: the last four bytes of the entry code say how
/// far before them the header of the fixups begins; it says where the 64-bit fixups are, of which
/// there have to be more than five; and the sixth is the address of the descriptor. Everything that
/// is read has to lie within the entry code.
pub proof fn law_idt_patch(entry: Seq<u8>)
    ensures
        ({
            let header = entry.len() - 4 - le32(entry, entry.len() - 4);
            let count = entry[header + 7];
            let at = header + entry[header + 6] + 40;
            let found = entry.len() >= 4 && 0 <= header && header + 22 <= entry.len();
            let r = idt_patch(entry);
            &&& !found ==> r == IdtPatch::OutOfBounds
            &&& found && count <= 5 ==> r == IdtPatch::TooFewFixups(count)
            &&& found && count > 5 && at + 8 > entry.len() ==> r == IdtPatch::OutOfBounds
            &&& found && count > 5 && at + 8 <= entry.len() && le64(entry, at) == 0 ==> r
                == IdtPatch::NullDescriptor
            &&& found && count > 5 && at + 8 <= entry.len() && le64(entry, at) != 0 ==> r
                == IdtPatch::WriteDescriptor(le64(entry, at) as u64)
        }),
{
}

} // verus!
