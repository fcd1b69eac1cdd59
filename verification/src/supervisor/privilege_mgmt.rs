//! Privilege management.
//!
//! Transitions between Ring 0 (supervisor) and Ring 3 (user):
//!
//! - the values of the syscall MSRs ([`syscall_setup`]),
//! - the syscalls from Ring 3 ([`syscall_dispatcher`]),
//! - the call gate and the TSS descriptor ([`call_gate`]).

use vstd::prelude::*;

pub mod call_gate;
pub mod syscall_dispatcher;
pub mod syscall_setup;

verus! {

/// Protected mode data segment selector.
pub const PROTECTED_DS: u16 = 0x20;

/// Long mode Ring 0 code segment selector.
pub const LONG_CS_R0: u16 = 0x38;

/// Long mode Ring 0 data segment selector.
pub const LONG_DS_R0: u16 = 0x40;

/// Long mode Ring 3 code segment placeholder (for the STAR MSR).
pub const LONG_CS_R3_PH: u16 = 0x4B;

/// Long mode Ring 3 data segment selector.
pub const LONG_DS_R3: u16 = 0x53;

/// Long mode Ring 3 code segment selector.
pub const LONG_CS_R3: u16 = 0x5B;

/// Call gate descriptor offset in the GDT.
pub const CALL_GATE_OFFSET: u16 = 0x60;

/// TSS selector offset in the GDT.
pub const TSS_SEL_OFFSET: u16 = 0x70;

/// TSS descriptor offset in the GDT.
pub const TSS_DESC_OFFSET: u16 = 0x80;

/// System call target address register: segment selectors for syscall and sysret.
pub const MSR_IA32_STAR: u32 = 0xC000_0081;

/// Long mode system call target address register: where a 64-bit syscall enters.
pub const MSR_IA32_LSTAR: u32 = 0xC000_0082;

/// Compatibility mode system call target address register.
pub const MSR_IA32_CSTAR: u32 = 0xC000_0083;

/// System call flag mask.
pub const MSR_IA32_SFMASK: u32 = 0xC000_0084;

/// Extended feature enable register.
pub const MSR_IA32_EFER: u32 = 0xC000_0080;

/// GS base address register.
pub const MSR_IA32_GS_BASE: u32 = 0xC000_0101;

/// Kernel GS base address register (swapped on swapgs).
pub const MSR_IA32_KERNEL_GS_BASE: u32 = 0xC000_0102;

/// EFER.SCE: system call enable bit.
pub const EFER_SCE: u64 = 0x1;

/// EFER.LME: long mode enable bit.
pub const EFER_LME: u64 = 0x100;

/// EFER.LMA: long mode active bit.
pub const EFER_LMA: u64 = 0x400;

/// EFER.NXE: no-execute enable bit.
pub const EFER_NXE: u64 = 0x800;

/// Privilege level.
#[derive(Debug, Clone, Copy, PartialEq, Eq, Structural)]
pub enum PrivilegeLevel {
    /// Ring 0: supervisor mode.
    Ring0,
    /// Ring 3: user mode.
    Ring3,
}

impl PrivilegeLevel {
    /// The number of the ring.
    pub open spec fn ring(self) -> u8 {
        match self {
            PrivilegeLevel::Ring0 => 0,
            PrivilegeLevel::Ring3 => 3,
        }
    }

    /// Returns the numeric value of the privilege level.
    pub fn as_u8(self) -> (r: u8)
        ensures
            r == self.ring(),
    {
        match self {
            PrivilegeLevel::Ring0 => 0,
            PrivilegeLevel::Ring3 => 3,
        }
    }

    /// Creates a privilege level from a numeric value.
    pub fn from_u8(value: u8) -> (r: Option<Self>)
        ensures
            match r {
                Some(level) => level.ring() == value,
                None => value != 0 && value != 3,
            },
    {
        match value {
            0 => Some(PrivilegeLevel::Ring0),
            3 => Some(PrivilegeLevel::Ring3),
            _ => None,
        }
    }
}

/// Result type for privilege management operations.
pub type PrivilegeResult<T> = Result<T, PrivilegeError>;

/// Errors that can occur during privilege management operations.
#[derive(Debug, Clone, Copy, PartialEq, Eq, Structural)]
pub enum PrivilegeError {
    /// The privilege management system has not been initialized.
    NotInitialized,
    /// Already initialized (cannot re-initialize).
    AlreadyInitialized,
    /// Invalid CPU index.
    InvalidCpuIndex,
    /// Out of resources.
    OutOfResources,
    /// The operation is not ready (missing prerequisite).
    NotReady,
    /// Invalid parameter provided.
    InvalidParameter,
    /// Security violation detected.
    SecurityViolation,
    /// The syscall index is not supported.
    UnsupportedSyscall,
}

/// Each level has the number of its ring: 0 that of the supervisor, 3 that of the user, and there
/// is no other.
pub proof fn law_ring_numbers(level: PrivilegeLevel)
    ensures
        level.ring() == 0 <==> level == PrivilegeLevel::Ring0,
        level.ring() == 3 <==> level == PrivilegeLevel::Ring3,
        level.ring() == 0 || level.ring() == 3,
{
}

/// The selectors: each segment has its place in the descriptor table, and those of Ring 3 ask for
/// the privilege of Ring 3. A return from a syscall finds the data segment 8 and the code segment
/// 16 bytes behind the one that STAR names.
pub proof fn law_selectors()
    ensures
        PROTECTED_DS == 0x20,
        LONG_CS_R0 == 0x38,
        LONG_DS_R0 == LONG_CS_R0 + 8,
        LONG_CS_R3_PH == LONG_DS_R0 + 8 + 3,
        LONG_DS_R3 == LONG_CS_R3_PH + 8,
        LONG_CS_R3 == LONG_CS_R3_PH + 16,
        CALL_GATE_OFFSET == 0x60,
        TSS_SEL_OFFSET == CALL_GATE_OFFSET + 16,
        TSS_DESC_OFFSET == TSS_SEL_OFFSET + 16,
{
}

/// The numbers of the registers, and the bits of EFER.
pub proof fn law_register_numbers()
    ensures
        MSR_IA32_EFER == 0xC000_0080,
        MSR_IA32_STAR == MSR_IA32_EFER + 1,
        MSR_IA32_LSTAR == MSR_IA32_EFER + 2,
        MSR_IA32_CSTAR == MSR_IA32_EFER + 3,
        MSR_IA32_SFMASK == MSR_IA32_EFER + 4,
        MSR_IA32_GS_BASE == 0xC000_0101,
        MSR_IA32_KERNEL_GS_BASE == MSR_IA32_GS_BASE + 1,
        EFER_SCE == 1,
        EFER_LME == 0x100,
        EFER_LMA == 4 * EFER_LME,
        EFER_NXE == 8 * EFER_LME,
{
}

} // verus!
