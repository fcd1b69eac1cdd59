//! The types that the supervisor (ring 0) and the user core (ring 3) share.
//!
//! They cross the boundary in memory: each has a fixed layout of little-endian fields.

use crate::bytes::{le64, read_u64, same_but, write_u64};
use crate::efi::{guid_at, read_guid, Guid};
use vstd::prelude::*;

verus! {

/// GUID of the MM communication buffer HOB, {6c2a2520-0131-4aee-a750-cc384aace8c6}.
pub const MM_COMM_BUFFER_HOB_GUID: Guid = 0xc6e8ac4a38cc50a74aee01316c2a2520;

/// `EFI_MM_ENTRY_CONTEXT`: what the MM foundation is told about the processors.
#[derive(Debug, Clone, Copy, PartialEq, Eq, Structural)]
pub struct EfiMmEntryContext {
    /// Function pointer for `EFI_MM_STARTUP_THIS_AP`.
    pub mm_startup_this_ap: u64,
    /// Index of the currently executing CPU.
    pub currently_executing_cpu: u64,
    /// Total number of CPUs (1-based).
    pub number_of_cpus: u64,
    /// Pointer to array of per-CPU save state sizes.
    pub cpu_save_state_size: u64,
    /// Pointer to array of per-CPU save state pointers.
    pub cpu_save_state: u64,
}

/// The entry context at byte `at` of `s`.
pub open spec fn entry_context_at(s: Seq<u8>, at: int) -> EfiMmEntryContext {
    EfiMmEntryContext {
        mm_startup_this_ap: le64(s, at) as u64,
        currently_executing_cpu: le64(s, at + 8) as u64,
        number_of_cpus: le64(s, at + 16) as u64,
        cpu_save_state_size: le64(s, at + 24) as u64,
        cpu_save_state: le64(s, at + 32) as u64,
    }
}

impl EfiMmEntryContext {
    /// Size in bytes of the context.
    pub const SIZE: usize = 40;

    /// Reads the context at byte `at`.
    pub fn read(bytes: &[u8], at: usize) -> (r: Self)
        requires
            at + Self::SIZE <= bytes.len(),
        ensures
            r == entry_context_at(bytes@, at as int),
    {
        EfiMmEntryContext {
            mm_startup_this_ap: read_u64(bytes, at),
            currently_executing_cpu: read_u64(bytes, at + 8),
            number_of_cpus: read_u64(bytes, at + 16),
            cpu_save_state_size: read_u64(bytes, at + 24),
            cpu_save_state: read_u64(bytes, at + 32),
        }
    }

    /// Writes the context at byte `at`.
    pub fn write(&self, buffer: &mut Vec<u8>, at: usize)
        requires
            at + Self::SIZE <= old(buffer).len(),
        ensures
            entry_context_at(final(buffer)@, at as int) == *self,
            same_but(old(buffer)@, final(buffer)@, at as int, Self::SIZE as int),
    {
        write_u64(buffer, at, self.mm_startup_this_ap);
        write_u64(buffer, at + 8, self.currently_executing_cpu);
        write_u64(buffer, at + 16, self.number_of_cpus);
        write_u64(buffer, at + 24, self.cpu_save_state_size);
        write_u64(buffer, at + 32, self.cpu_save_state);
    }
}

/// `MM_COMM_BUFFER_STATUS`: the state of the communication buffer.
///
/// The supervisor writes this to indicate request validity and direction; both supervisor
/// and user core read and update it during request handling.
#[derive(Debug, Clone, Copy, PartialEq, Eq, Structural)]
pub struct MmCommBufferStatus {
    /// Whether the data in the communication buffer is valid when entering MM.
    pub is_comm_buffer_valid: u8,
    /// The channel used to communicate with MM (1 = Supervisor, 0 = User).
    pub talk_to_supervisor: u8,
    /// The return status when returning from MM.
    pub return_status: u64,
    /// The size in bytes of the output buffer when returning from MM.
    pub return_buffer_size: u64,
}

/// The status at byte `at` of `s`. The 6 bytes behind the two flags are padding.
pub open spec fn comm_buffer_status_at(s: Seq<u8>, at: int) -> MmCommBufferStatus {
    MmCommBufferStatus {
        is_comm_buffer_valid: s[at],
        talk_to_supervisor: s[at + 1],
        return_status: le64(s, at + 8) as u64,
        return_buffer_size: le64(s, at + 16) as u64,
    }
}

impl MmCommBufferStatus {
    /// Size in bytes of the status.
    pub const SIZE: usize = 24;

    /// Reads the status at byte `at`.
    pub fn read(bytes: &[u8], at: usize) -> (r: Self)
        requires
            at + Self::SIZE <= bytes.len(),
        ensures
            r == comm_buffer_status_at(bytes@, at as int),
    {
        MmCommBufferStatus {
            is_comm_buffer_valid: bytes[at],
            talk_to_supervisor: bytes[at + 1],
            return_status: read_u64(bytes, at + 8),
            return_buffer_size: read_u64(bytes, at + 16),
        }
    }

    /// Writes the status at byte `at`. The padding stays as it is.
    pub fn write(&self, buffer: &mut Vec<u8>, at: usize)
        requires
            at + Self::SIZE <= old(buffer).len(),
        ensures
            comm_buffer_status_at(final(buffer)@, at as int) == *self,
            same_but(old(buffer)@, final(buffer)@, at as int, Self::SIZE as int),
            forall|i: int| at + 2 <= i < at + 8 ==> final(buffer)@[i] == old(buffer)@[i],
    {
        buffer.set(at, self.is_comm_buffer_valid);
        buffer.set(at + 1, self.talk_to_supervisor);
        write_u64(buffer, at + 8, self.return_status);
        write_u64(buffer, at + 16, self.return_buffer_size);
    }
}

/// `EFI_MM_COMMUNICATE_HEADER`: the header of a communication buffer, in front of the data.
#[derive(Debug, Clone, Copy, PartialEq, Eq, Structural)]
pub struct EfiMmCommunicateHeader {
    /// GUID identifying the target handler for this communication.
    pub header_guid: Guid,
    /// Size of the data payload in bytes (does not include this header).
    pub message_length: u64,
}

/// The communicate header at byte `at` of `s`.
pub open spec fn communicate_header_at(s: Seq<u8>, at: int) -> EfiMmCommunicateHeader {
    EfiMmCommunicateHeader {
        header_guid: guid_at(s, at),
        message_length: le64(s, at + 16) as u64,
    }
}

impl EfiMmCommunicateHeader {
    /// Size of the header (offset to the start of the data payload).
    pub const HEADER_SIZE: usize = 24;

    /// Reads the header at byte `at`.
    pub fn read(bytes: &[u8], at: usize) -> (r: Self)
        requires
            at + Self::HEADER_SIZE <= bytes.len(),
        ensures
            r == communicate_header_at(bytes@, at as int),
    {
        EfiMmCommunicateHeader {
            header_guid: read_guid(bytes, at),
            message_length: read_u64(bytes, at + 16),
        }
    }
}

/// The data of the MM communication buffer HOB.
#[derive(Debug, Clone, Copy, PartialEq, Eq, Structural)]
pub struct MmCommonBufferHobData {
    /// Physical start address of the common region.
    pub physical_start: u64,
    /// Number of pages in the communication buffer region.
    pub number_of_pages: u64,
    /// Pointer to the [`MmCommBufferStatus`].
    pub status_buffer: u64,
}

/// The communication buffer data at byte `at` of `s`.
pub open spec fn common_buffer_at(s: Seq<u8>, at: int) -> MmCommonBufferHobData {
    MmCommonBufferHobData {
        physical_start: le64(s, at) as u64,
        number_of_pages: le64(s, at + 8) as u64,
        status_buffer: le64(s, at + 16) as u64,
    }
}

impl MmCommonBufferHobData {
    /// Size in bytes of the data.
    pub const SIZE: usize = 24;

    /// Reads the data at byte `at`.
    pub fn read(bytes: &[u8], at: usize) -> (r: Self)
        requires
            at + Self::SIZE <= bytes.len(),
        ensures
            r == common_buffer_at(bytes@, at as int),
    {
        MmCommonBufferHobData {
            physical_start: read_u64(bytes, at),
            number_of_pages: read_u64(bytes, at + 8),
            status_buffer: read_u64(bytes, at + 16),
        }
    }
}

/// Command types passed from the supervisor to the user core.
///
/// Their numbers are part of the interface between the two and must not change.
#[derive(Debug, Clone, Copy, PartialEq, Eq, Structural)]
pub enum UserCommandType {
    /// Initialize the user core: walk HOBs, discover drivers, dispatch.
    StartUserCore,
    /// Handle a runtime MMI request: parse communication buffer and dispatch handlers.
    UserRequest,
    /// Execute a procedure on an AP.
    UserApProcedure,
}

impl UserCommandType {
    /// The number of the command.
    pub open spec fn number(self) -> u64 {
        match self {
            UserCommandType::StartUserCore => 0,
            UserCommandType::UserRequest => 1,
            UserCommandType::UserApProcedure => 2,
        }
    }

    /// The command with a number; a number without a command comes back as the error.
    pub open spec fn of_number(value: u64) -> Result<UserCommandType, u64> {
        if value == 0 {
            Ok(UserCommandType::StartUserCore)
        } else if value == 1 {
            Ok(UserCommandType::UserRequest)
        } else if value == 2 {
            Ok(UserCommandType::UserApProcedure)
        } else {
            Err(value)
        }
    }

    /// Returns the number of the command.
    pub fn as_u64(self) -> (r: u64)
        ensures
            r == self.number(),
    {
        match self {
            UserCommandType::StartUserCore => 0,
            UserCommandType::UserRequest => 1,
            UserCommandType::UserApProcedure => 2,
        }
    }
}

impl vstd::std_specs::convert::TryFromSpecImpl<u64> for UserCommandType {
    open spec fn obeys_try_from_spec() -> bool {
        true
    }

    open spec fn try_from_spec(value: u64) -> Result<Self, u64> {
        UserCommandType::of_number(value)
    }
}

impl TryFrom<u64> for UserCommandType {
    type Error = u64;

    fn try_from(value: u64) -> (r: Result<Self, u64>) {
        match value {
            0 => Ok(UserCommandType::StartUserCore),
            1 => Ok(UserCommandType::UserRequest),
            2 => Ok(UserCommandType::UserApProcedure),
            other => Err(other),
        }
    }
}

/// A command is found again by its number.
pub proof fn law_user_command_round_trip(command: UserCommandType)
    ensures
        UserCommandType::of_number(command.number()) == Ok::<UserCommandType, u64>(command),
{
}

/// Syscall indices of the interface between the MM Supervisor and the user core.
///
/// A syscall passes its index in RAX and its arguments in RDX, R8 and R9, and returns its
/// result in RAX and its status in RDX.
#[derive(Debug, Clone, Copy, PartialEq, Eq, Structural)]
pub enum SyscallIndex {
    /// Read MSR - Arg1: MSR index, Returns: MSR value
    RdMsr,
    /// Write MSR - Arg1: MSR index, Arg2: value
    WrMsr,
    /// CLI - Clear interrupts
    Cli,
    /// IO Read - Arg1: port, Arg2: width
    IoRead,
    /// IO Write - Arg1: port, Arg2: width, Arg3: value
    IoWrite,
    /// WBINVD - Write back and invalidate cache
    Wbinvd,
    /// HLT - Halt processor
    Hlt,
    /// Save State Read - Arg1: register, Arg2: CPU index
    SaveStateRead,
    /// Maximum value for legacy syscall indices
    LegacyMax,
    /// Allocate Pages - Arg1: alloc_type, Arg2: mem_type, Arg3: page_count
    AllocPage,
    /// Free Pages - Arg1: address, Arg2: page_count
    FreePage,
    /// Start AP Procedure - Arg1: procedure, Arg2: CPU index, Arg3: argument
    StartApProc,
    /// Save state read with extended support - Arg1: width, Arg2: buffer pointer
    SaveStateRead2,
    /// MM memory unblocked - Arg1: address, Arg2: size
    MmMemoryUnblocked,
    /// MM is communication buffer - Arg1: address, Arg2: size
    MmIsCommBuffer,
}

impl SyscallIndex {
    /// The number of the syscall.
    pub open spec fn number(self) -> u64 {
        match self {
            SyscallIndex::RdMsr => 0x0000,
            SyscallIndex::WrMsr => 0x0001,
            SyscallIndex::Cli => 0x0002,
            SyscallIndex::IoRead => 0x0003,
            SyscallIndex::IoWrite => 0x0004,
            SyscallIndex::Wbinvd => 0x0005,
            SyscallIndex::Hlt => 0x0006,
            SyscallIndex::SaveStateRead => 0x0007,
            SyscallIndex::LegacyMax => 0xFFFF,
            SyscallIndex::AllocPage => 0x10004,
            SyscallIndex::FreePage => 0x10005,
            SyscallIndex::StartApProc => 0x10006,
            SyscallIndex::SaveStateRead2 => 0x10021,
            SyscallIndex::MmMemoryUnblocked => 0x10022,
            SyscallIndex::MmIsCommBuffer => 0x10023,
        }
    }

    /// Some syscall has this number.
    pub open spec fn is_number(value: u64) -> bool {
        value <= 7 || value == 0xFFFF || 0x10004 <= value <= 0x10006 || 0x10021 <= value <= 0x10023
    }

    /// Creates a `SyscallIndex` from a raw value.
    pub fn from_u64(value: u64) -> (r: Option<Self>)
        ensures
            match r {
                Some(index) => index.number() == value,
                None => !Self::is_number(value),
            },
    {
        match value {
            0x0000 => Some(SyscallIndex::RdMsr),
            0x0001 => Some(SyscallIndex::WrMsr),
            0x0002 => Some(SyscallIndex::Cli),
            0x0003 => Some(SyscallIndex::IoRead),
            0x0004 => Some(SyscallIndex::IoWrite),
            0x0005 => Some(SyscallIndex::Wbinvd),
            0x0006 => Some(SyscallIndex::Hlt),
            0x0007 => Some(SyscallIndex::SaveStateRead),
            0xFFFF => Some(SyscallIndex::LegacyMax),
            0x10004 => Some(SyscallIndex::AllocPage),
            0x10005 => Some(SyscallIndex::FreePage),
            0x10006 => Some(SyscallIndex::StartApProc),
            0x10021 => Some(SyscallIndex::SaveStateRead2),
            0x10022 => Some(SyscallIndex::MmMemoryUnblocked),
            0x10023 => Some(SyscallIndex::MmIsCommBuffer),
            _ => None,
        }
    }

    /// Returns the raw value of this syscall index.
    pub fn as_u64(self) -> (r: u64)
        ensures
            r == self.number(),
            Self::is_number(r),
    {
        match self {
            SyscallIndex::RdMsr => 0x0000,
            SyscallIndex::WrMsr => 0x0001,
            SyscallIndex::Cli => 0x0002,
            SyscallIndex::IoRead => 0x0003,
            SyscallIndex::IoWrite => 0x0004,
            SyscallIndex::Wbinvd => 0x0005,
            SyscallIndex::Hlt => 0x0006,
            SyscallIndex::SaveStateRead => 0x0007,
            SyscallIndex::LegacyMax => 0xFFFF,
            SyscallIndex::AllocPage => 0x10004,
            SyscallIndex::FreePage => 0x10005,
            SyscallIndex::StartApProc => 0x10006,
            SyscallIndex::SaveStateRead2 => 0x10021,
            SyscallIndex::MmMemoryUnblocked => 0x10022,
            SyscallIndex::MmIsCommBuffer => 0x10023,
        }
    }
}

/// No two syscalls have the same number.
pub proof fn law_syscall_indices_distinct(a: SyscallIndex, b: SyscallIndex)
    requires
        a.number() == b.number(),
    ensures
        a == b,
{
}

/// Every number of a user command is that of its command, and no other number is one; such a number
/// is given back as the error.
pub proof fn law_user_command_numbers(value: u64)
    ensures
        match UserCommandType::of_number(value) {
            Ok(command) => command.number() == value,
            Err(e) => e == value && value > 2,
        },
        UserCommandType::StartUserCore.number() == 0,
        UserCommandType::UserRequest.number() == 1,
        UserCommandType::UserApProcedure.number() == 2,
{
}

/// The numbers of the syscalls of the user: those of the processor from 0 on and in their order,
/// those of memory and processors from 0x10004 on, and the others from 0x10021 on. Every number
/// that counts as one of a syscall is that of one.
pub proof fn law_syscall_numbers(value: u64)
    ensures
        SyscallIndex::RdMsr.number() == 0,
        SyscallIndex::WrMsr.number() == 1,
        SyscallIndex::Cli.number() == 2,
        SyscallIndex::IoRead.number() == 3,
        SyscallIndex::IoWrite.number() == 4,
        SyscallIndex::Wbinvd.number() == 5,
        SyscallIndex::Hlt.number() == 6,
        SyscallIndex::SaveStateRead.number() == 7,
        SyscallIndex::LegacyMax.number() == 0xFFFF,
        SyscallIndex::AllocPage.number() == 0x10004,
        SyscallIndex::FreePage.number() == 0x10005,
        SyscallIndex::StartApProc.number() == 0x10006,
        SyscallIndex::SaveStateRead2.number() == 0x10021,
        SyscallIndex::MmMemoryUnblocked.number() == 0x10022,
        SyscallIndex::MmIsCommBuffer.number() == 0x10023,
        SyscallIndex::is_number(value) <==> exists|i: SyscallIndex| #[trigger] i.number() == value,
{
    if SyscallIndex::is_number(value) {
        let i = if value == 0 {
            SyscallIndex::RdMsr
        } else if value == 1 {
            SyscallIndex::WrMsr
        } else if value == 2 {
            SyscallIndex::Cli
        } else if value == 3 {
            SyscallIndex::IoRead
        } else if value == 4 {
            SyscallIndex::IoWrite
        } else if value == 5 {
            SyscallIndex::Wbinvd
        } else if value == 6 {
            SyscallIndex::Hlt
        } else if value == 7 {
            SyscallIndex::SaveStateRead
        } else if value == 0xFFFF {
            SyscallIndex::LegacyMax
        } else if value == 0x10004 {
            SyscallIndex::AllocPage
        } else if value == 0x10005 {
            SyscallIndex::FreePage
        } else if value == 0x10006 {
            SyscallIndex::StartApProc
        } else if value == 0x10021 {
            SyscallIndex::SaveStateRead2
        } else if value == 0x10022 {
            SyscallIndex::MmMemoryUnblocked
        } else {
            SyscallIndex::MmIsCommBuffer
        };
        assert(i.number() == value);
    }
}

/// Where the fields are that cross the boundary to the user module and to the firmware: of the
/// context of the processor, of the status of the communication buffer, of the header of a message
/// and of the description of the communication buffer.
pub proof fn law_layouts(s: Seq<u8>, at: int)
    ensures
        ({
            let c = entry_context_at(s, at);
            &&& c.mm_startup_this_ap == le64(s, at) as u64
            &&& c.currently_executing_cpu == le64(s, at + 8) as u64
            &&& c.number_of_cpus == le64(s, at + 16) as u64
            &&& c.cpu_save_state_size == le64(s, at + 24) as u64
            &&& c.cpu_save_state == le64(s, at + 32) as u64
        }),
        ({
            let b = comm_buffer_status_at(s, at);
            &&& b.is_comm_buffer_valid == s[at]
            &&& b.talk_to_supervisor == s[at + 1]
            &&& b.return_status == le64(s, at + 8) as u64
            &&& b.return_buffer_size == le64(s, at + 16) as u64
        }),
        communicate_header_at(s, at).header_guid == guid_at(s, at),
        communicate_header_at(s, at).message_length == le64(s, at + 16) as u64,
        common_buffer_at(s, at).physical_start == le64(s, at) as u64,
        common_buffer_at(s, at).number_of_pages == le64(s, at + 8) as u64,
        common_buffer_at(s, at).status_buffer == le64(s, at + 16) as u64,
{
}

} // verus!
