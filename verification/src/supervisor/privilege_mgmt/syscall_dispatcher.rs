//! Syscall dispatcher.
//!
//! Ring 3 code calls the supervisor with a call index and three arguments. The dispatcher
//! answers the calls that register a pointer; the others are not supported.

use crate::supervisor::privilege_mgmt::{PrivilegeError, PrivilegeResult};
use vstd::prelude::*;

verus! {

/// Syscall indices of the supervisor syscall interface.
#[derive(Debug, Clone, Copy, PartialEq, Eq, Structural)]
pub enum SyscallIndex {
    /// Read MSR. Arg1: MSR index.
    RdMsr,
    /// Write MSR. Arg1: MSR index, Arg2: value.
    WrMsr,
    /// Clear interrupts.
    Cli,
    /// I/O read. Arg1: port, Arg2: width.
    IoRead,
    /// I/O write. Arg1: port, Arg2: width, Arg3: value.
    IoWrite,
    /// Write back and invalidate cache.
    Wbinvd,
    /// Halt processor.
    Hlt,
    /// Save state read. Arg1: register, Arg2: CPU index.
    SaveStateRead,
    /// Extended save state read.
    SaveStateRead2,
    /// Register handler jump pointer.
    RegHandlerJump,
    /// Allocate pages. Arg1: memory type, Arg2: page count, Arg3: address pointer.
    AllocPage,
    /// Free pages. Arg1: address, Arg2: page count.
    FreePage,
    /// Start AP procedure. Arg1: procedure, Arg2: CPU index, Arg3: argument.
    StartApProc,
    /// Register the user MM system table.
    SetCpl3Table,
    /// Register the error reporting function.
    ErrReportJump,
}

impl SyscallIndex {
    /// The number of the syscall.
    pub open spec fn number(self) -> u64 {
        match self {
            SyscallIndex::RdMsr => 0x0001,
            SyscallIndex::WrMsr => 0x0002,
            SyscallIndex::Cli => 0x0003,
            SyscallIndex::IoRead => 0x0004,
            SyscallIndex::IoWrite => 0x0005,
            SyscallIndex::Wbinvd => 0x0006,
            SyscallIndex::Hlt => 0x0007,
            SyscallIndex::SaveStateRead => 0x0008,
            SyscallIndex::SaveStateRead2 => 0x0009,
            SyscallIndex::RegHandlerJump => 0x000A,
            SyscallIndex::AllocPage => 0x0010,
            SyscallIndex::FreePage => 0x0011,
            SyscallIndex::StartApProc => 0x0012,
            SyscallIndex::SetCpl3Table => 0x0020,
            SyscallIndex::ErrReportJump => 0x0030,
        }
    }

    /// There is a syscall with this number.
    pub open spec fn is_number(value: u64) -> bool {
        1 <= value <= 0xA || 0x10 <= value <= 0x12 || value == 0x20 || value == 0x30
    }

    /// Creates a syscall index from a raw value.
    pub fn from_u64(value: u64) -> (r: Option<Self>)
        ensures
            match r {
                Some(index) => index.number() == value,
                None => !Self::is_number(value),
            },
    {
        match value {
            0x0001 => Some(SyscallIndex::RdMsr),
            0x0002 => Some(SyscallIndex::WrMsr),
            0x0003 => Some(SyscallIndex::Cli),
            0x0004 => Some(SyscallIndex::IoRead),
            0x0005 => Some(SyscallIndex::IoWrite),
            0x0006 => Some(SyscallIndex::Wbinvd),
            0x0007 => Some(SyscallIndex::Hlt),
            0x0008 => Some(SyscallIndex::SaveStateRead),
            0x0009 => Some(SyscallIndex::SaveStateRead2),
            0x000A => Some(SyscallIndex::RegHandlerJump),
            0x0010 => Some(SyscallIndex::AllocPage),
            0x0011 => Some(SyscallIndex::FreePage),
            0x0012 => Some(SyscallIndex::StartApProc),
            0x0020 => Some(SyscallIndex::SetCpl3Table),
            0x0030 => Some(SyscallIndex::ErrReportJump),
            _ => None,
        }
    }

    /// Returns the raw value of this syscall index.
    pub fn as_u64(self) -> (r: u64)
        ensures
            r == self.number(),
            Self::is_number(r),
    {
        match self {
            SyscallIndex::RdMsr => 0x0001,
            SyscallIndex::WrMsr => 0x0002,
            SyscallIndex::Cli => 0x0003,
            SyscallIndex::IoRead => 0x0004,
            SyscallIndex::IoWrite => 0x0005,
            SyscallIndex::Wbinvd => 0x0006,
            SyscallIndex::Hlt => 0x0007,
            SyscallIndex::SaveStateRead => 0x0008,
            SyscallIndex::SaveStateRead2 => 0x0009,
            SyscallIndex::RegHandlerJump => 0x000A,
            SyscallIndex::AllocPage => 0x0010,
            SyscallIndex::FreePage => 0x0011,
            SyscallIndex::StartApProc => 0x0012,
            SyscallIndex::SetCpl3Table => 0x0020,
            SyscallIndex::ErrReportJump => 0x0030,
        }
    }
}

/// A syscall is determined by its number.
pub proof fn law_syscall_numbers_distinct(a: SyscallIndex, b: SyscallIndex)
    requires
        a.number() == b.number(),
    ensures
        a == b,
{
}

/// Result of a syscall operation.
#[derive(Debug, Clone, Copy, PartialEq, Eq, Structural)]
pub struct SyscallResult {
    /// Return value.
    pub value: u64,
    /// Status code.
    pub status: u64,
}

impl SyscallResult {
    /// `EFI_SUCCESS`.
    pub const EFI_SUCCESS: u64 = 0;

    /// `EFI_INVALID_PARAMETER`.
    pub const EFI_INVALID_PARAMETER: u64 = 0x8000_0000_0000_0002;

    /// `EFI_UNSUPPORTED`.
    pub const EFI_UNSUPPORTED: u64 = 0x8000_0000_0000_0003;

    /// `EFI_NOT_READY`.
    pub const EFI_NOT_READY: u64 = 0x8000_0000_0000_0006;

    /// `EFI_ACCESS_DENIED`.
    pub const EFI_ACCESS_DENIED: u64 = 0x8000_0000_0000_000F;

    /// `EFI_SECURITY_VIOLATION`.
    pub const EFI_SECURITY_VIOLATION: u64 = 0x8000_0000_0000_001A;

    /// Creates a successful result with a value.
    pub fn success(value: u64) -> (r: Self)
        ensures
            r == (SyscallResult { value, status: 0 }),
    {
        SyscallResult { value, status: 0 }
    }

    /// Creates an error result.
    pub fn error(status: u64) -> (r: Self)
        ensures
            r == (SyscallResult { value: 0, status }),
    {
        SyscallResult { value: 0, status }
    }
}

/// Context for a syscall invocation.
#[derive(Debug, Clone, Copy, PartialEq, Eq, Structural)]
pub struct SyscallContext {
    /// The syscall index (from RAX).
    pub call_index: u64,
    /// First argument (from RDX).
    pub arg1: u64,
    /// Second argument (from R8).
    pub arg2: u64,
    /// Third argument (from R9).
    pub arg3: u64,
    /// Caller return address (from RCX).
    pub caller_addr: u64,
    /// Ring 3 stack pointer at syscall entry.
    pub ring3_stack_ptr: u64,
}

/// What the dispatcher keeps.
#[derive(Debug, Clone, Copy, PartialEq, Eq, Structural)]
pub struct SyscallState {
    /// Registered Ring 3 handler jump pointer.
    pub ring3_jump: u64,
    /// Registered AP Ring 3 jump pointer.
    pub ap_ring3_jump: u64,
    /// Registered error report jump pointer.
    pub error_report_jump: u64,
    /// User MM system table pointer.
    pub user_mmst: u64,
}

/// What is not supported is answered with an error.
pub open spec fn unsupported() -> SyscallResult {
    SyscallResult { value: 0, status: 0x8000_0000_0000_0003 }
}

/// The answer to a syscall: one that registers a pointer succeeds with 0.
pub open spec fn syscall_answer(call_index: u64) -> SyscallResult {
    if call_index == 0x0A || call_index == 0x20 || call_index == 0x30 {
        SyscallResult { value: 0, status: 0 }
    } else {
        unsupported()
    }
}

/// What the dispatcher keeps after a syscall.
pub open spec fn state_after(state: SyscallState, ctx: SyscallContext) -> SyscallState {
    if ctx.call_index == 0x0A {
        SyscallState { ring3_jump: ctx.arg1, ..state }
    } else if ctx.call_index == 0x20 {
        SyscallState { user_mmst: ctx.arg1, ..state }
    } else if ctx.call_index == 0x30 {
        SyscallState { error_report_jump: ctx.arg1, ..state }
    } else {
        state
    }
}

/// The syscall dispatcher.
pub struct SyscallDispatcher {
    /// Whether the dispatcher has been initialized.
    initialized: bool,
    /// The registered pointers.
    state: SyscallState,
}

impl SyscallDispatcher {
    /// The dispatcher has been initialized.
    pub closed spec fn ready(&self) -> bool {
        self.initialized
    }

    /// The registered pointers.
    pub closed spec fn kept(&self) -> SyscallState {
        self.state
    }

    /// Creates a new syscall dispatcher.
    pub fn new() -> (r: Self)
        ensures
            !r.ready(),
            r.kept() == (SyscallState {
                ring3_jump: 0,
                ap_ring3_jump: 0,
                error_report_jump: 0,
                user_mmst: 0,
            }),
    {
        SyscallDispatcher {
            initialized: false,
            state: SyscallState {
                ring3_jump: 0,
                ap_ring3_jump: 0,
                error_report_jump: 0,
                user_mmst: 0,
            },
        }
    }

    /// Initializes the syscall dispatcher.
    pub fn init(&mut self) -> (r: PrivilegeResult<()>)
        ensures
            final(self).ready(),
            final(self).kept() == old(self).kept(),
            r == if old(self).ready() {
                Err::<(), PrivilegeError>(PrivilegeError::AlreadyInitialized)
            } else {
                Ok(())
            },
    {
        if self.initialized {
            return Err(PrivilegeError::AlreadyInitialized);
        }
        self.initialized = true;
        Ok(())
    }

    /// Checks if the dispatcher is initialized.
    pub fn is_initialized(&self) -> (r: bool)
        ensures
            r == self.ready(),
    {
        self.initialized
    }

    /// Dispatches a syscall.
    pub fn dispatch(&mut self, ctx: &SyscallContext) -> (r: SyscallResult)
        ensures
            final(self).ready() == old(self).ready(),
            r == syscall_answer(ctx.call_index),
            final(self).kept() == state_after(old(self).kept(), *ctx),
    {
        let index = match SyscallIndex::from_u64(ctx.call_index) {
            Some(idx) => idx,
            None => {
                return SyscallResult::error(SyscallResult::EFI_UNSUPPORTED);
            },
        };
        match index {
            SyscallIndex::RdMsr => self.handle_rdmsr(ctx),
            SyscallIndex::WrMsr => self.handle_wrmsr(ctx),
            SyscallIndex::Cli => self.handle_cli(ctx),
            SyscallIndex::IoRead => self.handle_io_read(ctx),
            SyscallIndex::IoWrite => self.handle_io_write(ctx),
            SyscallIndex::Wbinvd => self.handle_wbinvd(ctx),
            SyscallIndex::Hlt => self.handle_hlt(ctx),
            SyscallIndex::SaveStateRead => self.handle_save_state_read(ctx),
            SyscallIndex::SaveStateRead2 => self.handle_save_state_read2(ctx),
            SyscallIndex::RegHandlerJump => self.handle_reg_handler_jump(ctx),
            SyscallIndex::AllocPage => self.handle_alloc_page(ctx),
            SyscallIndex::FreePage => self.handle_free_page(ctx),
            SyscallIndex::StartApProc => self.handle_start_ap_proc(ctx),
            SyscallIndex::SetCpl3Table => self.handle_set_cpl3_table(ctx),
            SyscallIndex::ErrReportJump => self.handle_err_report_jump(ctx),
        }
    }

    fn handle_rdmsr(&self, _ctx: &SyscallContext) -> (r: SyscallResult)
        ensures
            r == unsupported(),
    {
        SyscallResult::error(SyscallResult::EFI_UNSUPPORTED)
    }

    fn handle_wrmsr(&self, _ctx: &SyscallContext) -> (r: SyscallResult)
        ensures
            r == unsupported(),
    {
        SyscallResult::error(SyscallResult::EFI_UNSUPPORTED)
    }

    fn handle_cli(&self, _ctx: &SyscallContext) -> (r: SyscallResult)
        ensures
            r == unsupported(),
    {
        SyscallResult::error(SyscallResult::EFI_UNSUPPORTED)
    }

    fn handle_io_read(&self, _ctx: &SyscallContext) -> (r: SyscallResult)
        ensures
            r == unsupported(),
    {
        SyscallResult::error(SyscallResult::EFI_UNSUPPORTED)
    }

    fn handle_io_write(&self, _ctx: &SyscallContext) -> (r: SyscallResult)
        ensures
            r == unsupported(),
    {
        SyscallResult::error(SyscallResult::EFI_UNSUPPORTED)
    }

    fn handle_wbinvd(&self, _ctx: &SyscallContext) -> (r: SyscallResult)
        ensures
            r == unsupported(),
    {
        SyscallResult::error(SyscallResult::EFI_UNSUPPORTED)
    }

    fn handle_hlt(&self, _ctx: &SyscallContext) -> (r: SyscallResult)
        ensures
            r == unsupported(),
    {
        SyscallResult::error(SyscallResult::EFI_UNSUPPORTED)
    }

    fn handle_save_state_read(&self, _ctx: &SyscallContext) -> (r: SyscallResult)
        ensures
            r == unsupported(),
    {
        SyscallResult::error(SyscallResult::EFI_UNSUPPORTED)
    }

    fn handle_save_state_read2(&self, _ctx: &SyscallContext) -> (r: SyscallResult)
        ensures
            r == unsupported(),
    {
        SyscallResult::error(SyscallResult::EFI_UNSUPPORTED)
    }

    fn handle_alloc_page(&self, _ctx: &SyscallContext) -> (r: SyscallResult)
        ensures
            r == unsupported(),
    {
        SyscallResult::error(SyscallResult::EFI_UNSUPPORTED)
    }

    fn handle_free_page(&self, _ctx: &SyscallContext) -> (r: SyscallResult)
        ensures
            r == unsupported(),
    {
        SyscallResult::error(SyscallResult::EFI_UNSUPPORTED)
    }

    fn handle_start_ap_proc(&self, _ctx: &SyscallContext) -> (r: SyscallResult)
        ensures
            r == unsupported(),
    {
        SyscallResult::error(SyscallResult::EFI_UNSUPPORTED)
    }

    fn handle_reg_handler_jump(&mut self, ctx: &SyscallContext) -> (r: SyscallResult)
        ensures
            final(self).ready() == old(self).ready(),
            r == (SyscallResult { value: 0, status: 0 }),
            final(self).kept() == (SyscallState { ring3_jump: ctx.arg1, ..old(self).kept() }),
    {
        self.state.ring3_jump = ctx.arg1;
        SyscallResult::success(0)
    }

    fn handle_set_cpl3_table(&mut self, ctx: &SyscallContext) -> (r: SyscallResult)
        ensures
            final(self).ready() == old(self).ready(),
            r == (SyscallResult { value: 0, status: 0 }),
            final(self).kept() == (SyscallState { user_mmst: ctx.arg1, ..old(self).kept() }),
    {
        self.state.user_mmst = ctx.arg1;
        SyscallResult::success(0)
    }

    fn handle_err_report_jump(&mut self, ctx: &SyscallContext) -> (r: SyscallResult)
        ensures
            final(self).ready() == old(self).ready(),
            r == (SyscallResult { value: 0, status: 0 }),
            final(self).kept() == (SyscallState {
                error_report_jump: ctx.arg1,
                ..old(self).kept()
            }),
    {
        self.state.error_report_jump = ctx.arg1;
        SyscallResult::success(0)
    }

    /// Gets the registered Ring 3 handler jump pointer.
    pub fn get_ring3_handler_jump(&self) -> (r: u64)
        ensures
            r == self.kept().ring3_jump,
    {
        self.state.ring3_jump
    }

    /// Gets the registered AP Ring 3 jump pointer.
    pub fn get_ap_ring3_jump(&self) -> (r: u64)
        ensures
            r == self.kept().ap_ring3_jump,
    {
        self.state.ap_ring3_jump
    }

    /// Gets the registered error report jump pointer.
    pub fn get_error_report_jump(&self) -> (r: u64)
        ensures
            r == self.kept().error_report_jump,
    {
        self.state.error_report_jump
    }

    /// Gets the user MM system table pointer.
    pub fn get_user_mmst(&self) -> (r: u64)
        ensures
            r == self.kept().user_mmst,
    {
        self.state.user_mmst
    }
}

/// What a syscall returns to Ring 3 in RAX: the status of a call that failed, and the value of
/// one that did not.
pub fn syscall_dispatcher(
    dispatcher: &mut SyscallDispatcher,
    call_index: u64,
    arg1: u64,
    arg2: u64,
    arg3: u64,
    caller_addr: u64,
    ring3_stack_ptr: u64,
) -> (r: u64)
    ensures
        final(dispatcher).ready() == old(dispatcher).ready(),
        r == if syscall_answer(call_index).status != 0 {
            syscall_answer(call_index).status
        } else {
            syscall_answer(call_index).value
        },
        final(dispatcher).kept() == state_after(
            old(dispatcher).kept(),
            (SyscallContext { call_index, arg1, arg2, arg3, caller_addr, ring3_stack_ptr }),
        ),
{
    let ctx = SyscallContext { call_index, arg1, arg2, arg3, caller_addr, ring3_stack_ptr };
    let result = dispatcher.dispatch(&ctx);
    if result.status != 0 {
        result.status
    } else {
        result.value
    }
}

/// A pointer that a syscall registers stays registered until the same syscall registers
/// another one.
pub proof fn law_registered_pointer_is_kept(
    state: SyscallState,
    ctx: SyscallContext,
    later: SyscallContext,
)
    requires
        later.call_index != ctx.call_index,
    ensures
        ({
            let after = state_after(state_after(state, ctx), later);
            &&& ctx.call_index == SyscallIndex::RegHandlerJump.number() ==> after.ring3_jump
                == ctx.arg1
            &&& ctx.call_index == SyscallIndex::SetCpl3Table.number() ==> after.user_mmst
                == ctx.arg1
            &&& ctx.call_index == SyscallIndex::ErrReportJump.number() ==> after.error_report_jump
                == ctx.arg1
        }),
{
}

/// A syscall that is refused changes nothing that the dispatcher keeps.
pub proof fn law_refused_syscall_changes_nothing(state: SyscallState, ctx: SyscallContext)
    requires
        syscall_answer(ctx.call_index).status != SyscallResult::EFI_SUCCESS,
    ensures
        state_after(state, ctx) == state,
{
}

/// Which syscalls are granted: those that register a pointer; every other number is unsupported,
/// whether it is that of a syscall or not.
pub proof fn law_syscall_decision(call_index: u64)
    ensures
        ({
            let registers = call_index == SyscallIndex::RegHandlerJump.number() || call_index
                == SyscallIndex::SetCpl3Table.number() || call_index
                == SyscallIndex::ErrReportJump.number();
            &&& registers ==> syscall_answer(call_index) == (SyscallResult {
                value: 0,
                status: SyscallResult::EFI_SUCCESS,
            })
            &&& !registers ==> syscall_answer(call_index) == (SyscallResult {
                value: 0,
                status: SyscallResult::EFI_UNSUPPORTED,
            })
        }),
{
}

/// A syscall that registers a pointer sets that pointer to its first argument, and no other.
pub proof fn law_syscall_sets_one_pointer(state: SyscallState, ctx: SyscallContext)
    ensures
        ({
            let after = state_after(state, ctx);
            &&& after.ap_ring3_jump == state.ap_ring3_jump
            &&& after.ring3_jump == (if ctx.call_index == SyscallIndex::RegHandlerJump.number() {
                ctx.arg1
            } else {
                state.ring3_jump
            })
            &&& after.user_mmst == (if ctx.call_index == SyscallIndex::SetCpl3Table.number() {
                ctx.arg1
            } else {
                state.user_mmst
            })
            &&& after.error_report_jump == (if ctx.call_index
                == SyscallIndex::ErrReportJump.number() {
                ctx.arg1
            } else {
                state.error_report_jump
            })
        }),
{
}

/// The numbers of the syscalls: those of the processor come first, from 1 on and in their order;
/// those of memory and processors follow from 0x10 on, that of the table at 0x20 and that of the
/// report at 0x30. Every number that counts as one of a syscall is that of one.
pub proof fn law_syscall_numbers(value: u64)
    ensures
        SyscallIndex::RdMsr.number() == 1,
        SyscallIndex::WrMsr.number() == 2,
        SyscallIndex::Cli.number() == 3,
        SyscallIndex::IoRead.number() == 4,
        SyscallIndex::IoWrite.number() == 5,
        SyscallIndex::Wbinvd.number() == 6,
        SyscallIndex::Hlt.number() == 7,
        SyscallIndex::SaveStateRead.number() == 8,
        SyscallIndex::SaveStateRead2.number() == 9,
        SyscallIndex::RegHandlerJump.number() == 10,
        SyscallIndex::AllocPage.number() == 0x10,
        SyscallIndex::FreePage.number() == 0x11,
        SyscallIndex::StartApProc.number() == 0x12,
        SyscallIndex::SetCpl3Table.number() == 0x20,
        SyscallIndex::ErrReportJump.number() == 0x30,
        SyscallIndex::is_number(value) <==> exists|i: SyscallIndex| #[trigger] i.number() == value,
{
    if SyscallIndex::is_number(value) {
        let i = if value == 1 {
            SyscallIndex::RdMsr
        } else if value == 2 {
            SyscallIndex::WrMsr
        } else if value == 3 {
            SyscallIndex::Cli
        } else if value == 4 {
            SyscallIndex::IoRead
        } else if value == 5 {
            SyscallIndex::IoWrite
        } else if value == 6 {
            SyscallIndex::Wbinvd
        } else if value == 7 {
            SyscallIndex::Hlt
        } else if value == 8 {
            SyscallIndex::SaveStateRead
        } else if value == 9 {
            SyscallIndex::SaveStateRead2
        } else if value == 10 {
            SyscallIndex::RegHandlerJump
        } else if value == 0x10 {
            SyscallIndex::AllocPage
        } else if value == 0x11 {
            SyscallIndex::FreePage
        } else if value == 0x12 {
            SyscallIndex::StartApProc
        } else if value == 0x20 {
            SyscallIndex::SetCpl3Table
        } else {
            SyscallIndex::ErrReportJump
        };
        assert(i.number() == value);
    }
}

/// The statuses of syscalls are those of the firmware.
pub proof fn law_syscall_statuses()
    ensures
        SyscallResult::EFI_SUCCESS == crate::efi::EFI_SUCCESS,
        SyscallResult::EFI_INVALID_PARAMETER == crate::efi::EFI_INVALID_PARAMETER,
        SyscallResult::EFI_UNSUPPORTED == crate::efi::EFI_UNSUPPORTED,
        SyscallResult::EFI_NOT_READY == crate::efi::EFI_NOT_READY,
        SyscallResult::EFI_ACCESS_DENIED == crate::efi::EFI_ACCESS_DENIED,
        SyscallResult::EFI_SECURITY_VIOLATION == crate::efi::EFI_SECURITY_VIOLATION,
{
}

} // verus!
