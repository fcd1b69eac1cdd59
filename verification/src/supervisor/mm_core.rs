//! The supervisor core.
//!
//! The core is entered on every processor. The first time, the boot processor (BSP) sets the
//! supervisor up, and the application processors (APs) wait for it; from then on the BSP
//! serves requests while the APs wait for work in a holding pen.
//!
//! Reading and writing memory at an address, running code in ring 3, and the mailboxes of the
//! APs are the platform's. What the core needs of them it asks for, in the value a function
//! returns; the platform does it and hands the outcome to the function that goes on.

use crate::bytes::same_but;
use crate::efi::{
    Status, EFI_BAD_BUFFER_SIZE, EFI_DEVICE_ERROR, EFI_ERROR_BIT, EFI_INVALID_PARAMETER,
    EFI_NOT_FOUND, EFI_NOT_READY, EFI_SUCCESS, EFI_TIMEOUT,
};
use crate::hob::Hob;
use crate::mm_common::{
    comm_buffer_status_at, communicate_header_at, entry_context_at, EfiMmCommunicateHeader,
    EfiMmEntryContext, MmCommBufferStatus, UserCommandType,
};
use crate::policy::gate::PolicyGate;
use crate::policy::types::{
    header_at, valid_policy_buffer, MemDescriptorV1_0, MEM_DESCRIPTOR_SIZE, POLICY_HEADER_SIZE,
};
use crate::supervisor::cpu::{
    aps_in, lemma_slot_of, lemma_unused_slot, registered_slot, slot_of, unused_slot, ApState,
    CpuInfo, CpuManager, CpuSlot,
};
use crate::supervisor::mm_mem::{AllocationType, PageAllocError, PageAllocator, PAGE_SIZE};
use crate::supervisor::page_table::PageOwnership;
use crate::supervisor::paging_allocator::{
    PagingAllocError, PagingPoolAllocator, DEFAULT_PAGING_POOL_PAGES,
};
use crate::supervisor::pass_down::{
    discover_user_module_entry, find_pass_down, pass_down_of, user_module_entry, CommBufferConfig,
    MmSupvPassDownHobData, PolicyInitError, MM_SUPV_PASS_DOWN_HOB_REVISION,
};
use crate::supervisor::perf_timer::{after_look, look_says, spin_until, SpinWait};
use crate::supervisor::privilege_mgmt::syscall_setup::{SyscallInterface, SyscallSetupError};
use crate::supervisor::supervisor_handlers::{find_handler, handler_for, SupervisorMmiHandler};
use crate::supervisor::unblock_memory::{
    kept_entries, UnblockError, UnblockedMemoryTracker, MAX_UNBLOCKED_REGIONS,
};
use vstd::prelude::*;

verus! {

/// Configuration values and types that the platform provides.
pub trait PlatformInfo {
    /// The platform's CPU information and configuration.
    type CpuInfo: CpuInfo;

    /// Maximum number of CPUs supported by the platform.
    const MAX_CPU_COUNT: usize;

    /// Maximum number of request handlers that can be registered.
    const MAX_HANDLERS: usize;
}

/// How long the BSP waits for the APs to arrive, and for them to leave, in microseconds.
pub const AP_ARRIVAL_TIMEOUT_US: u64 = 100_000;

/// How long the BSP waits for an AP to complete a procedure, in microseconds.
pub const AP_TIMEOUT_US: u64 = 10_000_000;

/// A command to an AP.
#[derive(Debug, Clone, Copy, PartialEq, Eq, Structural)]
pub enum ApCommand {
    /// Run a procedure.
    RunProcedure {
        /// Address of the procedure.
        procedure: u64,
        /// Argument to pass to it.
        argument: u64,
    },
    /// Leave the holding pen.
    Return,
}

/// The response of an AP.
#[derive(Debug, Clone, Copy, PartialEq, Eq, Structural)]
pub enum ApResponse {
    /// There is no response.
    NoResponse,
    /// The command succeeded.
    Success,
    /// The command failed with this code.
    Error(u32),
    /// The AP is busy.
    Busy,
}

/// The code of a device error, in the 32 bits that a response has for it.
pub const AP_DEVICE_ERROR: u32 = 7;

/// A call of the user module in ring 3, with three arguments.
#[derive(Debug, Clone, Copy, PartialEq, Eq, Structural)]
pub struct DemotedCall {
    /// Index of the CPU that makes the call.
    pub cpu_index: usize,
    /// Entry point of the user module.
    pub entry: u64,
    /// Top of the ring 3 stack of the CPU.
    pub stack: u64,
    /// The command, the first argument.
    pub command: u64,
    /// The second argument.
    pub arg2: u64,
    /// The third argument.
    pub arg3: u64,
}

/// Bytes to be copied from one address to another.
#[derive(Debug, Clone, Copy, PartialEq, Eq, Structural)]
pub struct MemoryCopy {
    /// Where the bytes are.
    pub from: u64,
    /// Where they go.
    pub to: u64,
    /// How many there are.
    pub size: u64,
}

/// A 64-bit value to be written at an address.
#[derive(Debug, Clone, Copy, PartialEq, Eq, Structural)]
pub struct SlotWrite {
    /// Where the value goes.
    pub address: u64,
    /// The value.
    pub value: u64,
}

/// Request target derived from the status of the communication buffer.
#[derive(Debug, Clone, Copy, PartialEq, Eq, Structural)]
pub enum RequestTarget {
    /// No pending request.
    NoRequest,
    /// Request targets the Supervisor.
    Supervisor,
    /// Request targets the User module.
    User,
}

/// The target of a request: the supervisor, where the buffer is valid and says so, and else
/// the user module, which also takes the interrupts that come without a valid buffer.
pub open spec fn target_of(status: MmCommBufferStatus) -> RequestTarget {
    if status.is_comm_buffer_valid != 0 && status.talk_to_supervisor != 0 {
        RequestTarget::Supervisor
    } else {
        RequestTarget::User
    }
}

impl<'a> vstd::std_specs::convert::FromSpecImpl<&'a MmCommBufferStatus> for RequestTarget {
    open spec fn obeys_from_spec() -> bool {
        true
    }

    open spec fn from_spec(status: &'a MmCommBufferStatus) -> RequestTarget {
        target_of(*status)
    }
}

impl<'a> From<&'a MmCommBufferStatus> for RequestTarget {
    fn from(status: &'a MmCommBufferStatus) -> (r: RequestTarget) {
        if status.is_comm_buffer_valid == 0 {
            RequestTarget::User
        } else if status.talk_to_supervisor != 0 {
            RequestTarget::Supervisor
        } else {
            RequestTarget::User
        }
    }
}

/// What a core does when it is entered.
#[derive(Debug, Clone, Copy, PartialEq, Eq, Structural)]
pub enum EntryAction {
    /// The core has been initialized: go to the request loop or the holding pen.
    EnterRuntime,
    /// Set the supervisor up.
    InitializeBsp,
    /// Wait until the BSP has set the supervisor up.
    WaitForBsp,
}

/// What a core does in runtime mode.
#[derive(Debug, Clone, Copy, PartialEq, Eq, Structural)]
pub enum RuntimeAction {
    /// Wait for this many APs, and serve the request.
    ServeRequest { expected_aps: usize },
    /// Wait for commands in the holding pen.
    EnterHoldingPen,
}

/// Why a request for the user module cannot be passed on.
#[derive(Debug, Clone, Copy, PartialEq, Eq, Structural)]
pub enum UserRequestFault {
    /// User communication buffer not configured.
    NoCommBuffer,
    /// Supervisor-to-user data buffer not configured.
    NoDataBuffer,
    /// User entry point not configured.
    NoEntryPoint,
    /// There is no ring 3 stack.
    NoStack(SyscallSetupError),
    /// Supervisor-to-user data buffer too small for the context and the status.
    DataBufferTooSmall,
}

/// Size in bytes of what the user module is handed: the entry context, and the status of the
/// communication buffer behind it.
pub const HANDOFF_SIZE: usize = 64;

/// A request on its way to the user module.
#[derive(Debug)]
pub struct UserRequest {
    /// Where the hand-off data goes.
    pub handoff_at: u64,
    /// The hand-off data.
    pub handoff: Vec<u8>,
    /// The copy to make of the communication buffer before the call.
    pub copy_in: Option<MemoryCopy>,
    /// The call.
    pub call: DemotedCall,
}

/// What follows when the user module has returned.
#[derive(Debug, Clone, Copy, PartialEq, Eq, Structural)]
pub struct UserReply {
    /// The copy to make of the communication buffer after the call.
    pub copy_out: Option<MemoryCopy>,
    /// Where the status goes.
    pub status_at: u64,
    /// The status.
    pub status: MmCommBufferStatus,
}

/// What a request for the supervisor leads to.
#[derive(Debug, Clone, Copy, PartialEq, Eq, Structural)]
pub enum SupervisorRequest {
    /// It is refused with this status.
    Refused(MmCommBufferStatus),
    /// It goes to the handler with this index, with this much data behind the header.
    Handler { index: usize, data_size: usize },
    /// No handler matches it; it has this much data behind the header.
    NoHandler { data_size: usize },
}

/// What follows when a request for the supervisor has been handled.
#[derive(Debug, Clone, Copy, PartialEq, Eq, Structural)]
pub struct SupervisorReply {
    /// How many bytes are to be copied back, if the response fits the buffer.
    pub copy_back: Option<usize>,
    /// The status.
    pub status: MmCommBufferStatus,
}

/// The status that ends a request for the supervisor.
pub open spec fn supv_status(return_status: Status, return_buffer_size: u64) -> MmCommBufferStatus {
    MmCommBufferStatus {
        is_comm_buffer_valid: 0,
        talk_to_supervisor: 0,
        return_status,
        return_buffer_size,
    }
}

/// The status to write after a supervisor request: the buffer is no longer valid, and the
/// channel is no longer that of the supervisor.
pub fn write_supv_status(return_status: Status, return_buffer_size: u64) -> (r: MmCommBufferStatus)
    ensures
        r == supv_status(return_status, return_buffer_size),
{
    MmCommBufferStatus {
        is_comm_buffer_valid: 0,
        talk_to_supervisor: 0,
        return_status,
        return_buffer_size,
    }
}

/// What a request in the supervisor's communication buffer leads to.
pub open spec fn supervisor_request(
    buffer: Seq<u8>,
    handlers: Seq<SupervisorMmiHandler>,
) -> SupervisorRequest {
    let header = communicate_header_at(buffer, 0);
    if buffer.len() < EfiMmCommunicateHeader::HEADER_SIZE {
        SupervisorRequest::Refused(supv_status(EFI_BAD_BUFFER_SIZE, 0))
    } else if header.message_length > buffer.len() - EfiMmCommunicateHeader::HEADER_SIZE {
        SupervisorRequest::Refused(supv_status(EFI_BAD_BUFFER_SIZE, 0))
    } else {
        match handler_for(handlers, header.header_guid, 0) {
            Some(index) => SupervisorRequest::Handler {
                index: index as usize,
                data_size: header.message_length as usize,
            },
            None => SupervisorRequest::NoHandler { data_size: header.message_length as usize },
        }
    }
}

/// What an AP does with a command.
#[derive(Debug, Clone, Copy, PartialEq, Eq, Structural)]
pub enum ApAction {
    /// Respond.
    Respond(ApResponse),
    /// Make this call in ring 3, and respond with success.
    Demote(DemotedCall),
    /// Call the procedure in ring 0, and respond with success.
    Call {
        /// Address of the procedure.
        procedure: u64,
        /// Argument to pass to it.
        argument: u64,
    },
}

/// The MMI entry binary of the BSP.
#[derive(Debug, Clone, Copy, PartialEq, Eq, Structural)]
pub struct SmiEntry {
    /// Base of the BSP's MM.
    pub mmbase: u64,
    /// Size of the binary.
    pub size: u64,
}

/// What is needed to initialize the policy, all of it from the PassDown HOB.
#[derive(Debug, Clone, Copy, PartialEq, Eq)]
pub struct PolicyInit {
    /// The binary whose IDT descriptor is to be patched first.
    pub smi_entry: Option<SmiEntry>,
    /// The buffers to go on with.
    pub buffers: Result<PolicyBuffers, PolicyInitError>,
}

/// The policy buffers and the ring 3 stacks.
#[derive(Debug, Clone, Copy, PartialEq, Eq, Structural)]
pub struct PolicyBuffers {
    /// Firmware policy buffer.
    pub firmware_policy: u64,
    /// Size of the firmware policy buffer.
    pub firmware_policy_size: u64,
    /// Memory policy buffer.
    pub memory_policy: u64,
    /// Size of the memory policy buffer.
    pub memory_policy_size: u64,
    /// How many descriptors fit into the memory policy buffer.
    pub memory_policy_max_count: u64,
    /// Base of the ring 3 stacks.
    pub cpl3_stack_base: u64,
    /// Size of the ring 3 stack of one CPU.
    pub cpl3_stack_size: u64,
}

/// The policy buffers that pass-down data names, or why there are none.
pub open spec fn policy_buffers(p: MmSupvPassDownHobData) -> Result<
    PolicyBuffers,
    PolicyInitError,
> {
    if p.revision != MM_SUPV_PASS_DOWN_HOB_REVISION {
        Err(
            PolicyInitError::InvalidRevision {
                found: p.revision,
                expected: MM_SUPV_PASS_DOWN_HOB_REVISION,
            },
        )
    } else if p.mm_supv_firmware_policy_buffer == 0 || p.mm_supv_firmware_policy_buffer_size == 0 {
        Err(PolicyInitError::NullFirmwarePolicyBuffer)
    } else {
        Ok(
            PolicyBuffers {
                firmware_policy: p.mm_supv_firmware_policy_buffer,
                firmware_policy_size: p.mm_supv_firmware_policy_buffer_size,
                memory_policy: p.mm_supv_memory_policy_buffer,
                memory_policy_size: p.mm_supv_memory_policy_buffer_size,
                memory_policy_max_count: (p.mm_supv_memory_policy_buffer_size as int
                    / MEM_DESCRIPTOR_SIZE as int) as u64,
                cpl3_stack_base: p.mm_supervisor_cpl3_stack_base,
                cpl3_stack_size: p.mm_supervisor_cpl3_per_core_stack_size,
            },
        )
    }
}

/// `before`, if it has been set, and else `value`, unless that is null.
pub open spec fn set_once(before: Option<u64>, value: u64) -> Option<u64> {
    if before is Some {
        before
    } else if value != 0 {
        Some(value)
    } else {
        None
    }
}

/// Sets an address, unless it has been set or is null.
fn set_address(slot: &mut Option<u64>, value: u64)
    ensures
        *final(slot) == set_once(*old(slot), value),
{
    if slot.is_none() && value != 0 {
        *slot = Some(value);
    }
}

/// Where in the buffer of initialized cores a core's 64-bit slot is.
pub open spec fn core_slot(buffer: u64, cpu_index: int) -> int {
    buffer + cpu_index * 8
}

/// The MM Supervisor Core responsible for managing the standalone MM environment, for up to
/// `MAX_CPUS` processors.
pub struct MmSupervisorCore<const MAX_CPUS: usize> {
    /// Manager for CPU-related operations.
    cpu_manager: CpuManager<MAX_CPUS>,
    /// Syscall interface for privilege transitions.
    syscall_interface: SyscallInterface<MAX_CPUS>,
    /// Whether the core has been initialized.
    initialized: bool,
    /// How many cores have completed their per-core initialization.
    per_core_init_count: u32,
    /// Address of the buffer with a slot for each core.
    mm_initialized_buffer: Option<u64>,
    /// Address of the private data of the SMM CPU module.
    smm_cpu_private: Option<u64>,
    /// The communication buffers.
    comm_buffer_config: Option<CommBufferConfig>,
    /// Entry point of the user module.
    user_entry_point: Option<u64>,
}

impl<const MAX_CPUS: usize> MmSupervisorCore<MAX_CPUS> {
    /// The CPU manager.
    pub closed spec fn cpus(&self) -> CpuManager<MAX_CPUS> {
        self.cpu_manager
    }

    /// The syscall interface.
    pub closed spec fn syscalls(&self) -> SyscallInterface<MAX_CPUS> {
        self.syscall_interface
    }

    /// The BSP has set the supervisor up.
    pub closed spec fn ready(&self) -> bool {
        self.initialized
    }

    /// How many cores have been initialized.
    pub closed spec fn cores_done(&self) -> u32 {
        self.per_core_init_count
    }

    /// Where the slots of the cores are.
    pub closed spec fn core_slots(&self) -> Option<u64> {
        self.mm_initialized_buffer
    }

    /// Where the private data of the SMM CPU module is.
    pub closed spec fn cpu_private(&self) -> Option<u64> {
        self.smm_cpu_private
    }

    /// The communication buffers.
    pub closed spec fn buffers(&self) -> Option<CommBufferConfig> {
        self.comm_buffer_config
    }

    /// The entry point of the user module.
    pub closed spec fn user_entry(&self) -> Option<u64> {
        self.user_entry_point
    }

    /// The managers are well-formed.
    pub closed spec fn wf(&self) -> bool {
        self.cpu_manager.wf() && self.syscall_interface.wf()
    }

    /// Nothing but the CPUs, and whether and how far the cores are initialized, has changed.
    pub open spec fn same_setup(&self, other: &Self) -> bool {
        &&& self.syscalls() == other.syscalls()
        &&& self.core_slots() == other.core_slots()
        &&& self.cpu_private() == other.cpu_private()
        &&& self.buffers() == other.buffers()
        &&& self.user_entry() == other.user_entry()
    }

    /// The user module can be entered at `entry`.
    pub open spec fn has_user_entry(&self) -> bool {
        self.user_entry() matches Some(entry) && entry != 0
    }

    /// Nothing has been set up, and no CPU has been registered.
    pub open spec fn fresh(&self) -> bool {
        &&& self.cpus().consistent()
        &&& self.cpus().fresh()
        &&& self.syscalls().fresh()
        &&& !self.ready()
        &&& self.cores_done() == 0
        &&& self.core_slots() is None
        &&& self.cpu_private() is None
        &&& self.buffers() is None
        &&& self.user_entry() is None
    }

    /// Creates a new instance of the MM Supervisor Core.
    pub fn new() -> (r: Self)
        ensures
            r.wf(),
            r.fresh(),
    {
        MmSupervisorCore {
            cpu_manager: CpuManager::new(),
            syscall_interface: SyscallInterface::new(),
            initialized: false,
            per_core_init_count: 0,
            mm_initialized_buffer: None,
            smm_cpu_private: None,
            comm_buffer_config: None,
            user_entry_point: None,
        }
    }

    /// Gets the CPU manager.
    pub fn cpu_manager(&self) -> (r: &CpuManager<MAX_CPUS>)
        ensures
            *r == self.cpus(),
    {
        &self.cpu_manager
    }

    /// Checks if the supervisor has been initialized.
    pub fn is_initialized(&self) -> (r: bool)
        ensures
            r == self.ready(),
    {
        self.initialized
    }
}

impl<const MAX_CPUS: usize> Default for MmSupervisorCore<MAX_CPUS> {
    fn default() -> (r: Self)
        ensures
            r.wf(),
            r.fresh(),
    {
        Self::new()
    }
}

// ============================================================================
// First entry
// ============================================================================

/// `after` is `before` with the CPU registered, where there is room for it and it has not
/// been registered before.
pub open spec fn cpu_added<const MAX_CPUS: usize>(
    before: CpuManager<MAX_CPUS>,
    after: CpuManager<MAX_CPUS>,
    cpu_id: u32,
    is_bsp: bool,
) -> bool {
    match (slot_of(before.slot_list(), cpu_id, 0), unused_slot(before.slot_list(), 0)) {
        (None, Some(i)) => {
            &&& after.slot_list() == before.slot_list().update(i, registered_slot(cpu_id, is_bsp))
            &&& after.registered() == if before.registered() == u32::MAX {
                0
            } else {
                before.registered() + 1
            }
            &&& after.bsp() == if !is_bsp {
                before.bsp()
            } else if cpu_id == u32::MAX {
                None
            } else {
                Some(cpu_id)
            }
        },
        _ => after == before,
    }
}

/// Checks if a core has completed initialization, from the 64-bit value in its slot, if there
/// is one.
pub fn is_core_initialized(slot: Option<u64>) -> (r: bool)
    ensures
        r == (slot matches Some(value) && value != 0),
{
    match slot {
        Some(value) => value != 0,
        None => false,
    }
}

impl<const MAX_CPUS: usize> MmSupervisorCore<MAX_CPUS> {
    /// Where the slot of a core is, if the buffer is known.
    pub open spec fn slot_address(&self, cpu_index: usize) -> Option<u64> {
        match self.core_slots() {
            Some(buffer) => if buffer == 0 {
                None
            } else {
                Some(core_slot(buffer, cpu_index as int) as u64)
            },
            None => None,
        }
    }

    /// The slot of a core lies within the address space.
    pub open spec fn slot_addressable(&self, cpu_index: usize) -> bool {
        self.core_slots() matches Some(buffer) ==> core_slot(buffer, cpu_index as int) + 7
            <= u64::MAX
    }

    /// Gets the address of the slot of a core, for [`is_core_initialized`] to be asked about
    /// its value.
    pub fn core_slot_address(&self, cpu_index: usize) -> (r: Option<u64>)
        requires
            self.slot_addressable(cpu_index),
        ensures
            r == self.slot_address(cpu_index),
    {
        match self.mm_initialized_buffer {
            Some(buffer) => {
                if buffer == 0 {
                    return None;
                }
                let offset: u128 = cpu_index as u128 * 8;
                Some((buffer as u128 + offset) as u64)
            },
            None => None,
        }
    }

    /// A core takes the part of the BSP: it is the first to arrive, or it is the BSP already.
    pub open spec fn takes_bsp(&self, cpu_id: u32) -> bool {
        self.cpus().bsp() is None || self.cpus().bsp() == Some(cpu_id)
    }

    /// `after` is `self` when a core has been entered, and `action` is what the core does.
    pub open spec fn entered(
        &self,
        after: &Self,
        cpu_id: u32,
        core_initialized: bool,
        action: EntryAction,
    ) -> bool {
        &&& after.same_setup(self)
        &&& after.ready() == self.ready()
        &&& after.cores_done() == self.cores_done()
        &&& if core_initialized {
            action == EntryAction::EnterRuntime && after.cpus() == self.cpus()
        } else if self.takes_bsp(cpu_id) {
            action == EntryAction::InitializeBsp && cpu_added(
                self.cpus(),
                after.cpus(),
                cpu_id,
                true,
            )
        } else {
            action == EntryAction::WaitForBsp && after.cpus() == self.cpus()
        }
    }

    /// `after` is `self` when an AP has looked whether the BSP is done, and `released` is
    /// whether it goes on: then it has been registered.
    pub open spec fn looked(&self, after: &Self, cpu_id: u32, released: bool) -> bool {
        &&& after.same_setup(self)
        &&& after.ready() == self.ready()
        &&& after.cores_done() == self.cores_done()
        &&& released == self.ready()
        &&& if released {
            cpu_added(self.cpus(), after.cpus(), cpu_id, false)
        } else {
            after.cpus() == self.cpus()
        }
    }

    /// The entry point for the MM Supervisor Core, called on all cores.
    ///
    /// `core_initialized` is what [`is_core_initialized`] says of the core. The first core to
    /// arrive is the BSP, and is registered here. The others are APs, and are registered when
    /// the BSP is done.
    pub fn entry_point(&mut self, cpu_id: u32, core_initialized: bool) -> (r: EntryAction)
        requires
            old(self).wf(),
        ensures
            final(self).wf(),
            old(self).entered(final(self), cpu_id, core_initialized, r),
    {
        if core_initialized {
            return EntryAction::EnterRuntime;
        }
        let takes_bsp = match self.cpu_manager.bsp_id() {
            Some(id) => id == cpu_id,
            None => true,
        };
        if takes_bsp {
            let _ = self.cpu_manager.register_cpu(cpu_id, true);
            EntryAction::InitializeBsp
        } else {
            EntryAction::WaitForBsp
        }
    }

    /// BSP-specific initialization: discovers the user module in the HOB list, unless that
    /// has been done before.
    pub fn bsp_init(&mut self, hob_list: Option<&Vec<Hob>>)
        requires
            old(self).wf(),
        ensures
            final(self).wf(),
            final(self).cpus() == old(self).cpus(),
            final(self).syscalls() == old(self).syscalls(),
            final(self).ready() == old(self).ready(),
            final(self).cores_done() == old(self).cores_done(),
            final(self).core_slots() == old(self).core_slots(),
            final(self).cpu_private() == old(self).cpu_private(),
            final(self).buffers() == old(self).buffers(),
            final(self).user_entry() == match (old(self).user_entry(), hob_list) {
                (None, Some(hobs)) => user_module_entry(hobs@, 0),
                (entry, _) => entry,
            },
    {
        let discovered = discover_user_module_entry(hob_list);
        if self.user_entry_point.is_none() {
            self.user_entry_point = discovered;
        }
    }

    /// Initializes the policy from the PassDown HOB: keeps the addresses that it names and
    /// says which buffers to go on with. The buffers are kept even where there is no firmware
    /// policy, and not if the revision is not supported; what has been kept before stays.
    ///
    /// The MMI entry binary is to be patched whatever the outcome, and then the firmware
    /// policy is to be read for [`MmSupervisorCore::firmware_policy_read`].
    pub fn init_policy_from_hob_list(&mut self, hob_list: Option<&Vec<Hob>>) -> (r: PolicyInit)
        requires
            old(self).wf(),
        ensures
            final(self).wf(),
            final(self).cpus() == old(self).cpus(),
            final(self).syscalls() == old(self).syscalls(),
            final(self).ready() == old(self).ready(),
            final(self).cores_done() == old(self).cores_done(),
            final(self).user_entry() == old(self).user_entry(),
            match pass_down_of(hob_list) {
                Err(e) => {
                    &&& r.smi_entry is None
                    &&& r.buffers == Err::<PolicyBuffers, PolicyInitError>(e)
                    &&& final(self).same_setup(old(self))
                },
                Ok(p) => {
                    &&& r.smi_entry == Some(
                        SmiEntry { mmbase: p.bsp_mm_base_address, size: p.mmi_entrypoint_size },
                    )
                    &&& r.buffers == policy_buffers(p)
                    &&& if p.revision != MM_SUPV_PASS_DOWN_HOB_REVISION {
                        final(self).same_setup(old(self))
                    } else {
                        &&& final(self).core_slots() == set_once(
                            old(self).core_slots(),
                            p.mm_initialized_buffer,
                        )
                        &&& final(self).cpu_private() == set_once(
                            old(self).cpu_private(),
                            p.mm_supv_cpu_private,
                        )
                        &&& final(self).buffers() == match old(self).buffers() {
                            Some(config) => Some(config),
                            None => Some(CommBufferConfig::of(p)),
                        }
                    }
                },
            },
    {
        let p = match find_pass_down(hob_list) {
            Err(e) => {
                return PolicyInit { smi_entry: None, buffers: Err(e) };
            },
            Ok(p) => p,
        };
        let smi_entry = Some(
            SmiEntry { mmbase: p.bsp_mm_base_address, size: p.mmi_entrypoint_size },
        );
        if p.revision != MM_SUPV_PASS_DOWN_HOB_REVISION {
            return PolicyInit {
                smi_entry,
                buffers: Err(
                    PolicyInitError::InvalidRevision {
                        found: p.revision,
                        expected: MM_SUPV_PASS_DOWN_HOB_REVISION,
                    },
                ),
            };
        }
        set_address(&mut self.mm_initialized_buffer, p.mm_initialized_buffer);
        set_address(&mut self.smm_cpu_private, p.mm_supv_cpu_private);
        if self.comm_buffer_config.is_none() {
            self.comm_buffer_config = Some(CommBufferConfig::from_pass_down(&p));
        }
        if p.mm_supv_firmware_policy_buffer == 0 || p.mm_supv_firmware_policy_buffer_size == 0 {
            return PolicyInit {
                smi_entry,
                buffers: Err(PolicyInitError::NullFirmwarePolicyBuffer),
            };
        }
        PolicyInit {
            smi_entry,
            buffers: Ok(
                PolicyBuffers {
                    firmware_policy: p.mm_supv_firmware_policy_buffer,
                    firmware_policy_size: p.mm_supv_firmware_policy_buffer_size,
                    memory_policy: p.mm_supv_memory_policy_buffer,
                    memory_policy_size: p.mm_supv_memory_policy_buffer_size,
                    memory_policy_max_count: p.mm_supv_memory_policy_buffer_size
                        / MEM_DESCRIPTOR_SIZE as u64,
                    cpl3_stack_base: p.mm_supervisor_cpl3_stack_base,
                    cpl3_stack_size: p.mm_supervisor_cpl3_per_core_stack_size,
                },
            ),
        }
    }

    /// Goes on with the policy when the firmware policy has been read: makes the policy gate,
    /// and sets the syscall interface up for all CPUs.
    pub fn firmware_policy_read<'a>(
        &mut self,
        policy: &'a [u8],
        buffers: &PolicyBuffers,
        syscall_entry_point: u64,
    ) -> (r: Result<PolicyGate<'a>, PolicyInitError>)
        requires
            old(self).wf(),
            POLICY_HEADER_SIZE <= policy@.len(),
            header_at(policy@).version_1_0() ==> {
                &&& valid_policy_buffer(policy@)
                &&& !old(self).syscalls().ready()
                &&& MAX_CPUS > 0
                &&& buffers.cpl3_stack_size <= usize::MAX
            },
        ensures
            final(self).wf(),
            final(self).cpus() == old(self).cpus(),
            final(self).ready() == old(self).ready(),
            final(self).cores_done() == old(self).cores_done(),
            final(self).core_slots() == old(self).core_slots(),
            final(self).cpu_private() == old(self).cpu_private(),
            final(self).buffers() == old(self).buffers(),
            final(self).user_entry() == old(self).user_entry(),
            if header_at(policy@).version_1_0() {
                &&& r matches Ok(gate) && gate.block() == policy@
                &&& final(self).syscalls().ready()
                &&& final(self).syscalls().cpus() == MAX_CPUS
                &&& final(self).syscalls().entry_point() == syscall_entry_point
                &&& final(self).syscalls().stack_base() == buffers.cpl3_stack_base
                &&& final(self).syscalls().stack_bytes() == buffers.cpl3_stack_size
                &&& final(self).syscalls().storage() == old(self).syscalls().storage()
            } else {
                &&& r matches Err(e) && e == PolicyInitError::InvalidPolicyData
                &&& final(self).syscalls() == old(self).syscalls()
            },
    {
        match PolicyGate::new(Some(policy)) {
            Ok(gate) => {
                let _ = self.syscall_interface.init(
                    MAX_CPUS,
                    syscall_entry_point,
                    buffers.cpl3_stack_base,
                    buffers.cpl3_stack_size as usize,
                );
                Ok(gate)
            },
            Err(_) => Err(PolicyInitError::InvalidPolicyData),
        }
    }

    /// The call that starts the user core, or why there is none.
    pub open spec fn start_call(&self, cpu_index: usize, hob_list: u64) -> Result<
        DemotedCall,
        UserRequestFault,
    > {
        if !self.has_user_entry() {
            Err(UserRequestFault::NoEntryPoint)
        } else {
            match self.syscalls().cpu_fault(cpu_index) {
                Some(e) => Err(UserRequestFault::NoStack(e)),
                None => Ok(
                    DemotedCall {
                        cpu_index,
                        entry: self.user_entry()->0,
                        stack: self.syscalls().stack_top(cpu_index as int) as u64,
                        command: UserCommandType::StartUserCore.number(),
                        arg2: hob_list,
                        arg3: 0,
                    },
                ),
            }
        }
    }

    /// Starts the user core, when the BSP has been initialized. `hob_list` is the address of
    /// the HOB list. Without a call the BSP stays uninitialized.
    pub fn start_user_core(&self, cpu_index: usize, hob_list: u64) -> (r: Result<
        DemotedCall,
        UserRequestFault,
    >)
        requires
            self.wf(),
        ensures
            r == self.start_call(cpu_index, hob_list),
    {
        let entry: u64 = match self.user_entry_point {
            Some(entry) => entry,
            None => {
                return Err(UserRequestFault::NoEntryPoint);
            },
        };
        if entry == 0 {
            return Err(UserRequestFault::NoEntryPoint);
        }
        match self.syscall_interface.get_cpl3_stack(cpu_index) {
            Ok(stack) => Ok(
                DemotedCall {
                    cpu_index,
                    entry,
                    stack,
                    command: UserCommandType::StartUserCore.as_u64(),
                    arg2: hob_list,
                    arg3: 0,
                },
            ),
            Err(e) => Err(UserRequestFault::NoStack(e)),
        }
    }

    /// Notes that the user core has been started: the APs can proceed.
    pub fn user_core_started(&mut self)
        requires
            old(self).wf(),
        ensures
            final(self).wf(),
            final(self).same_setup(old(self)),
            final(self).cpus() == old(self).cpus(),
            final(self).cores_done() == old(self).cores_done(),
            final(self).ready(),
    {
        self.initialized = true;
    }

    /// One look of an AP that waits for the BSP: when the BSP is done, the AP is registered
    /// and goes on.
    pub fn ap_released(&mut self, cpu_id: u32) -> (r: bool)
        requires
            old(self).wf(),
        ensures
            final(self).wf(),
            old(self).looked(final(self), cpu_id, r),
    {
        if !self.initialized {
            return false;
        }
        let _ = self.cpu_manager.register_cpu(cpu_id, false);
        true
    }

    /// Marks a core as initialized: counts it, and says what is to be written into its slot.
    pub fn mark_core_initialized(&mut self, cpu_index: usize) -> (r: Option<SlotWrite>)
        requires
            old(self).wf(),
            old(self).slot_addressable(cpu_index),
            old(self).cores_done() < u32::MAX,
        ensures
            final(self).wf(),
            final(self).same_setup(old(self)),
            final(self).cpus() == old(self).cpus(),
            final(self).ready() == old(self).ready(),
            final(self).cores_done() == old(self).cores_done() + 1,
            r == match old(self).slot_address(cpu_index) {
                Some(address) => Some(SlotWrite { address, value: 1 }),
                None => None,
            },
    {
        let address = self.core_slot_address(cpu_index);
        self.per_core_init_count = self.per_core_init_count + 1;
        match address {
            Some(address) => Some(SlotWrite { address, value: 1 }),
            None => None,
        }
    }

    /// One look of the BSP that waits for CPUs to complete their initialization.
    /// `expected_cpus` is how many were registered when the wait began.
    pub fn all_cores_initialized(&self, expected_cpus: u32) -> (r: bool)
        ensures
            r == (self.cores_done() >= expected_cpus),
    {
        self.per_core_init_count >= expected_cpus
    }
}

/// Goes on with the policy when the page table has been walked: `walked` are the memory
/// descriptors that it gave, if it could be walked. They are where the tracker of unblocked
/// memory starts from; without them it is left as it is.
pub fn memory_policy_walked(
    tracker: &mut UnblockedMemoryTracker,
    mmram: &PageAllocator,
    walked: Option<&[MemDescriptorV1_0]>,
) -> (r: Option<Result<(), UnblockError>>)
    requires
        old(tracker).wf(),
        mmram.addressable(),
    ensures
        final(tracker).wf(),
        final(tracker).enforcing() == old(tracker).enforcing(),
        match walked {
            None => r is None && *final(tracker) == *old(tracker),
            Some(descriptors) => {
                &&& final(tracker).ready()
                &&& if old(tracker).ready() {
                    &&& r == Some(Err::<(), UnblockError>(UnblockError::AlreadyInitialized))
                    &&& final(tracker).regions() == old(tracker).regions()
                } else {
                    let all = old(tracker).regions() + kept_entries(
                        mmram,
                        descriptors@,
                        descriptors@.len() as int,
                    );
                    if all.len() <= MAX_UNBLOCKED_REGIONS {
                        &&& r is Some && r->0 is Ok
                        &&& final(tracker).regions() == all
                    } else {
                        &&& r == Some(Err::<(), UnblockError>(UnblockError::TooManyRegions))
                        &&& final(tracker).regions() == all.take(MAX_UNBLOCKED_REGIONS as int)
                    }
                }
            },
        },
{
    let descriptors = match walked {
        None => {
            return None;
        },
        Some(descriptors) => descriptors,
    };
    let initialized = tracker.init_from_buffer(mmram, Some(descriptors));
    Some(initialized)
}

/// Reserves the pages for page tables, before there is a page table to ask the page allocator
/// for any.
pub fn reserve_paging_pool(pages: &mut PageAllocator, paging: &mut PagingPoolAllocator) -> (r:
    Result<Result<(), PagingAllocError>, PageAllocError>)
    requires
        old(pages).wf(),
        old(pages).addressable(),
        old(paging).wf(),
    ensures
        final(pages).wf(),
        final(pages).same_layout(old(pages)),
        final(paging).wf(),
        match r {
            Err(e) => {
                &&& *final(pages) == *old(pages)
                &&& *final(paging) == *old(paging)
                &&& if !old(pages).ready() {
                    e == PageAllocError::NotInitialized
                } else {
                    e == PageAllocError::OutOfMemory && old(pages).no_run(
                        DEFAULT_PAGING_POOL_PAGES as int,
                    )
                }
            },
            Ok(initialized) => {
                &&& old(pages).ready()
                &&& initialized is Err ==> *final(paging) == *old(paging)
                &&& exists|base: u64|
                    {
                        &&& #[trigger] old(pages).allocates(
                            final(pages),
                            DEFAULT_PAGING_POOL_PAGES as int,
                            AllocationType::Supervisor,
                            base,
                        )
                        &&& initialized == if old(paging).ready() {
                            Err::<(), PagingAllocError>(PagingAllocError::AlreadyInitialized)
                        } else if base == 0 {
                            Err(PagingAllocError::PoolTooSmall)
                        } else if base as int % PAGE_SIZE as int != 0 {
                            Err(PagingAllocError::InvalidAlignment)
                        } else {
                            Ok(())
                        }
                        &&& initialized is Ok ==> {
                            &&& final(paging).ready()
                            &&& final(paging).base() == base
                            &&& final(paging).bytes() == DEFAULT_PAGING_POOL_PAGES * PAGE_SIZE
                            &&& final(paging).used() == 0
                            &&& final(paging).allocated() == 0
                        }
                    }
            },
        },
{
    match pages.allocate_pages(DEFAULT_PAGING_POOL_PAGES) {
        Err(e) => Err(e),
        Ok(base) => {
            proof {
                let n = DEFAULT_PAGING_POOL_PAGES as int;
                let (i, p) = choose|i: int, p: int|
                    #![trigger old(pages).first_run(i, p, n)]
                    old(pages).first_run(i, p, n) && base == old(pages).region_list()[i].base + p
                        * PAGE_SIZE && old(pages).marks(
                        pages,
                        old(pages).region_list()[i].bitmap_start_bit + p,
                        n,
                        AllocationType::Supervisor,
                    );
                assert(old(pages).first_run(i, p, n));
                assert(old(pages).run_free(i, p, n));
                assert(old(pages).region_list()[i].end() <= u64::MAX);
            }
            Ok(paging.init(base, DEFAULT_PAGING_POOL_PAGES))
        },
    }
}

// ============================================================================
// Runtime
// ============================================================================

impl<const MAX_CPUS: usize> MmSupervisorCore<MAX_CPUS> {
    /// Enters runtime mode, once a core has been initialized: the BSP serves a request when the
    /// APs have arrived, and an AP checks in and goes to the holding pen.
    pub fn enter_runtime(&mut self, cpu_id: u32) -> (r: RuntimeAction)
        requires
            old(self).wf(),
        ensures
            final(self).wf(),
            final(self).same_setup(old(self)),
            final(self).ready() == old(self).ready(),
            final(self).cores_done() == old(self).cores_done(),
            final(self).cpus().registered() == old(self).cpus().registered(),
            final(self).cpus().bsp() == old(self).cpus().bsp(),
            if old(self).cpus().bsp() == Some(cpu_id) {
                &&& r == RuntimeAction::ServeRequest {
                    expected_aps: if old(self).cpus().registered() == 0 {
                        0
                    } else {
                        (old(self).cpus().registered() - 1) as usize
                    },
                }
                &&& final(self).cpus() == old(self).cpus()
            } else {
                &&& r == RuntimeAction::EnterHoldingPen
                &&& final(self).cpus().slot_list() == match slot_of(
                    old(self).cpus().slot_list(),
                    cpu_id,
                    0,
                ) {
                    Some(i) => if old(self).cpus().slot_list()[i].is_bsp {
                        old(self).cpus().slot_list()
                    } else {
                        old(self).cpus().slot_list().update(
                            i,
                            CpuSlot {
                                state: ApState::InHoldingPen,
                                ..old(self).cpus().slot_list()[i]
                            },
                        )
                    },
                    None => old(self).cpus().slot_list(),
                }
            },
    {
        if self.cpu_manager.is_bsp(cpu_id) {
            let expected_aps: usize = self.cpu_manager.registered_count().saturating_sub(1);
            RuntimeAction::ServeRequest { expected_aps }
        } else {
            let _ = self.cpu_manager.set_ap_state(cpu_id, ApState::InHoldingPen);
            RuntimeAction::EnterHoldingPen
        }
    }

    /// At least `expected_aps` APs are in the holding pen.
    pub open spec fn aps_arrived(&self, expected_aps: usize) -> bool {
        aps_in(
            self.cpus().slot_list(),
            ApState::InHoldingPen,
            self.cpus().slot_list().len() as int,
        ) >= expected_aps
    }

    /// One look of the wait for APs to arrive: `Some(true)` when they have, `Some(false)` when
    /// the time is up and the BSP proceeds with the available cores, and `None` when the wait
    /// goes on. No wait is needed for no APs.
    pub fn wait_for_ap_arrival(&self, expected_aps: usize, wait: &mut SpinWait, now: u64) -> (r:
        Option<bool>)
        ensures
            if expected_aps == 0 {
                r == Some(true) && *final(wait) == *old(wait)
            } else {
                &&& r == look_says(*old(wait), self.aps_arrived(expected_aps), now)
                &&& *final(wait) == after_look(*old(wait), self.aps_arrived(expected_aps))
            },
    {
        if expected_aps == 0 {
            return Some(true);
        }
        let arrived: bool = self.cpu_manager.count_aps_in_state(ApState::InHoldingPen)
            >= expected_aps;
        spin_until(wait, arrived, now)
    }

    /// The request serving routine of the BSP: the address of the status of the communication
    /// buffer, which says what the request targets. Without one there is nothing to serve.
    pub fn bsp_request_loop(&self) -> (r: Option<u64>)
        ensures
            r == match self.buffers() {
                Some(config) => if config.status_buffer == 0 {
                    None
                } else {
                    Some(config.status_buffer)
                },
                None => None,
            },
    {
        match self.comm_buffer_config {
            Some(config) => if config.status_buffer == 0 {
                None
            } else {
                Some(config.status_buffer)
            },
            None => None,
        }
    }

    /// Gets the communication buffers.
    pub fn comm_buffers(&self) -> (r: Option<CommBufferConfig>)
        ensures
            r == self.buffers(),
    {
        self.comm_buffer_config
    }

    /// Gets the address of the private data of the SMM CPU module.
    pub fn smm_cpu_private(&self) -> (r: Option<u64>)
        ensures
            r == self.cpu_private(),
    {
        self.smm_cpu_private
    }

    /// Why a request for the user module cannot be passed on, if it cannot.
    pub open spec fn user_request_fault(
        &self,
        config: CommBufferConfig,
        cpu_index: usize,
    ) -> Option<UserRequestFault> {
        if config.user_comm_buffer == 0 || config.user_comm_buffer_internal == 0 {
            Some(UserRequestFault::NoCommBuffer)
        } else if config.supv_to_user_buffer == 0 {
            Some(UserRequestFault::NoDataBuffer)
        } else if !self.has_user_entry() {
            Some(UserRequestFault::NoEntryPoint)
        } else if self.syscalls().cpu_fault(cpu_index) is Some {
            Some(UserRequestFault::NoStack(self.syscalls().cpu_fault(cpu_index)->0))
        } else if config.supv_to_user_buffer_size < HANDOFF_SIZE {
            Some(UserRequestFault::DataBufferTooSmall)
        } else {
            None
        }
    }

    /// The entry context that the user module is handed: which CPU runs it, and how many there
    /// are. The rest it reaches through syscalls.
    pub open spec fn user_context(&self, cpu_index: usize) -> EfiMmEntryContext {
        EfiMmEntryContext {
            mm_startup_this_ap: 0,
            currently_executing_cpu: cpu_index as u64,
            number_of_cpus: self.cpus().registered() as u64,
            cpu_save_state_size: 0,
            cpu_save_state: 0,
        }
    }

    /// Processes a request targeting the User module.
    ///
    /// The user module is called with the hand-off data: an entry context, and the status of
    /// the communication buffer behind it. For a synchronous request, one with a valid buffer,
    /// the communication buffer is copied to its internal copy before.
    pub fn process_user_request(
        &self,
        config: &CommBufferConfig,
        status: &MmCommBufferStatus,
        cpu_index: usize,
    ) -> (r: Result<UserRequest, UserRequestFault>)
        requires
            self.wf(),
        ensures
            match r {
                Err(fault) => self.user_request_fault(*config, cpu_index) == Some(fault),
                Ok(request) => {
                    &&& self.user_request_fault(*config, cpu_index) is None
                    &&& request.handoff_at == config.supv_to_user_buffer
                    &&& request.handoff@.len() == HANDOFF_SIZE
                    &&& entry_context_at(request.handoff@, 0) == self.user_context(cpu_index)
                    &&& comm_buffer_status_at(request.handoff@, 40) == *status
                    &&& request.copy_in == if status.is_comm_buffer_valid != 0 {
                        Some(
                            MemoryCopy {
                                from: config.user_comm_buffer,
                                to: config.user_comm_buffer_internal,
                                size: config.user_comm_buffer_size,
                            },
                        )
                    } else {
                        None
                    }
                    &&& request.call == (DemotedCall {
                        cpu_index,
                        entry: self.user_entry()->0,
                        stack: self.syscalls().stack_top(cpu_index as int) as u64,
                        command: UserCommandType::UserRequest.number(),
                        arg2: config.supv_to_user_buffer,
                        arg3: EfiMmEntryContext::SIZE as u64,
                    })
                },
            },
    {
        if config.user_comm_buffer == 0 || config.user_comm_buffer_internal == 0 {
            return Err(UserRequestFault::NoCommBuffer);
        }
        if config.supv_to_user_buffer == 0 {
            return Err(UserRequestFault::NoDataBuffer);
        }
        let entry: u64 = match self.user_entry_point {
            Some(entry) => entry,
            None => {
                return Err(UserRequestFault::NoEntryPoint);
            },
        };
        if entry == 0 {
            return Err(UserRequestFault::NoEntryPoint);
        }
        let stack: u64 = match self.syscall_interface.get_cpl3_stack(cpu_index) {
            Ok(stack) => stack,
            Err(e) => {
                return Err(UserRequestFault::NoStack(e));
            },
        };
        let context = EfiMmEntryContext {
            mm_startup_this_ap: 0,
            currently_executing_cpu: cpu_index as u64,
            number_of_cpus: self.cpu_manager.registered_count() as u64,
            cpu_save_state_size: 0,
            cpu_save_state: 0,
        };
        if config.supv_to_user_buffer_size < HANDOFF_SIZE as u64 {
            return Err(UserRequestFault::DataBufferTooSmall);
        }
        let mut handoff: Vec<u8> = vec![0; HANDOFF_SIZE];
        context.write(&mut handoff, 0);
        let ghost first = handoff@;
        status.write(&mut handoff, EfiMmEntryContext::SIZE);
        proof {
            lemma_context_kept(first, handoff@);
        }
        let copy_in = if status.is_comm_buffer_valid != 0 {
            Some(
                MemoryCopy {
                    from: config.user_comm_buffer,
                    to: config.user_comm_buffer_internal,
                    size: config.user_comm_buffer_size,
                },
            )
        } else {
            None
        };
        Ok(
            UserRequest {
                handoff_at: config.supv_to_user_buffer,
                handoff,
                copy_in,
                call: DemotedCall {
                    cpu_index,
                    entry,
                    stack,
                    command: UserCommandType::UserRequest.as_u64(),
                    arg2: config.supv_to_user_buffer,
                    arg3: EfiMmEntryContext::SIZE as u64,
                },
            },
        )
    }
}

/// What follows when the user module has returned, given the hand-off data as it then is: the
/// communication buffer is copied back, and the status goes to the status buffer, with the
/// communication buffer no longer valid.
pub open spec fn user_reply(
    config: CommBufferConfig,
    status: MmCommBufferStatus,
    handoff: Seq<u8>,
) -> UserReply {
    UserReply {
        copy_out: if status.is_comm_buffer_valid != 0 {
            Some(
                MemoryCopy {
                    from: config.user_comm_buffer_internal,
                    to: config.user_comm_buffer,
                    size: config.user_comm_buffer_size,
                },
            )
        } else {
            None
        },
        status_at: config.status_buffer,
        status: MmCommBufferStatus {
            is_comm_buffer_valid: 0,
            ..comm_buffer_status_at(handoff, 40)
        },
    }
}

/// Goes on with a request when the user module has returned. `status` is that of the request,
/// and `handoff` the hand-off data as the user module left it.
pub fn user_request_returned(
    config: &CommBufferConfig,
    status: &MmCommBufferStatus,
    handoff: &[u8],
) -> (r: UserReply)
    requires
        handoff.len() >= HANDOFF_SIZE,
    ensures
        r == user_reply(*config, *status, handoff@),
{
    let copy_out = if status.is_comm_buffer_valid != 0 {
        Some(
            MemoryCopy {
                from: config.user_comm_buffer_internal,
                to: config.user_comm_buffer,
                size: config.user_comm_buffer_size,
            },
        )
    } else {
        None
    };
    let returned = MmCommBufferStatus::read(handoff, EfiMmEntryContext::SIZE);
    UserReply {
        copy_out,
        status_at: config.status_buffer,
        status: MmCommBufferStatus { is_comm_buffer_valid: 0, ..returned },
    }
}

/// Processes a request targeting the Supervisor: says what is to be copied into the internal
/// buffer, which is zeroed before. Without buffers there is nothing to process.
pub fn process_supervisor_request(config: &CommBufferConfig) -> (r: Option<MemoryCopy>)
    ensures
        r == if config.supv_comm_buffer == 0 || config.supv_comm_buffer_internal == 0 {
            None
        } else {
            Some(
                MemoryCopy {
                    from: config.supv_comm_buffer,
                    to: config.supv_comm_buffer_internal,
                    size: config.supv_comm_buffer_size,
                },
            )
        },
{
    if config.supv_comm_buffer == 0 || config.supv_comm_buffer_internal == 0 {
        return None;
    }
    Some(
        MemoryCopy {
            from: config.supv_comm_buffer,
            to: config.supv_comm_buffer_internal,
            size: config.supv_comm_buffer_size,
        },
    )
}

/// Goes on with a request for the supervisor when it has been copied: `buffer` is the internal
/// buffer. The request goes to the first handler for the GUID in its header, if the message
/// fits the buffer.
pub fn supervisor_request_copied(
    buffer: &[u8],
    handlers: &Vec<SupervisorMmiHandler>,
) -> (r: SupervisorRequest)
    ensures
        r == supervisor_request(buffer@, handlers@),
{
    let buffer_size: usize = buffer.len();
    if buffer_size < EfiMmCommunicateHeader::HEADER_SIZE {
        return SupervisorRequest::Refused(write_supv_status(EFI_BAD_BUFFER_SIZE, 0));
    }
    let header = EfiMmCommunicateHeader::read(buffer, 0);
    let room: usize = buffer_size - EfiMmCommunicateHeader::HEADER_SIZE;
    if header.message_length > room as u64 {
        return SupervisorRequest::Refused(write_supv_status(EFI_BAD_BUFFER_SIZE, 0));
    }
    let data_size: usize = header.message_length as usize;
    match find_handler(handlers, header.header_guid) {
        Some(index) => SupervisorRequest::Handler { index, data_size },
        None => SupervisorRequest::NoHandler { data_size },
    }
}

/// What follows when a request for the supervisor has been handled, or has found no handler:
/// the response is copied back if it fits the buffer, and any failure is reported as a
/// handler that was not found.
pub open spec fn supervisor_reply(
    buffer_size: usize,
    dispatch_status: Status,
    data_size: usize,
) -> SupervisorReply {
    let total = data_size + EfiMmCommunicateHeader::HEADER_SIZE;
    SupervisorReply {
        copy_back: if total <= buffer_size {
            Some(total as usize)
        } else {
            None
        },
        status: supv_status(
            if dispatch_status == EFI_SUCCESS {
                EFI_SUCCESS
            } else {
                EFI_NOT_FOUND
            },
            total as u64,
        ),
    }
}

/// Goes on with a request for the supervisor when its handler has returned `dispatch_status`
/// and left `data_size`.
pub fn supervisor_request_handled(
    buffer_size: usize,
    dispatch_status: Status,
    data_size: usize,
) -> (r: SupervisorReply)
    requires
        data_size + EfiMmCommunicateHeader::HEADER_SIZE <= usize::MAX,
    ensures
        r == supervisor_reply(buffer_size, dispatch_status, data_size),
{
    let total_response_size: usize = data_size + EfiMmCommunicateHeader::HEADER_SIZE;
    let copy_back = if total_response_size <= buffer_size {
        Some(total_response_size)
    } else {
        None
    };
    let return_status: Status = if dispatch_status == EFI_SUCCESS {
        EFI_SUCCESS
    } else {
        EFI_NOT_FOUND
    };
    SupervisorReply {
        copy_back,
        status: write_supv_status(return_status, total_response_size as u64),
    }
}

// ============================================================================
// Application processors
// ============================================================================

/// A command that is to be sent to an AP.
#[derive(Debug, Clone, Copy, PartialEq, Eq, Structural)]
pub struct ApDispatch {
    /// The APIC ID of the AP.
    pub cpu_id: u32,
    /// The command.
    pub command: ApCommand,
}

impl<const MAX_CPUS: usize> MmSupervisorCore<MAX_CPUS> {
    /// What an AP does to run a procedure: one that the supervisor owns it calls, and one that
    /// the user owns it runs in ring 3, through the user module.
    pub open spec fn procedure_action(
        &self,
        cpu_id: u32,
        procedure: u64,
        argument: u64,
        owner: Option<PageOwnership>,
    ) -> ApAction {
        match owner {
            None => ApAction::Respond(ApResponse::Error(AP_DEVICE_ERROR)),
            Some(PageOwnership::Supervisor) => ApAction::Call { procedure, argument },
            Some(PageOwnership::User) => match slot_of(self.cpus().slot_list(), cpu_id, 0) {
                None => ApAction::Respond(ApResponse::Error(AP_DEVICE_ERROR)),
                Some(i) => if self.syscalls().cpu_fault(i as usize) is Some
                    || !self.has_user_entry() {
                    ApAction::Respond(ApResponse::Error(AP_DEVICE_ERROR))
                } else {
                    ApAction::Demote(
                        DemotedCall {
                            cpu_index: i as usize,
                            entry: self.user_entry()->0,
                            stack: self.syscalls().stack_top(i) as u64,
                            command: UserCommandType::UserApProcedure.number(),
                            arg2: procedure,
                            arg3: argument,
                        },
                    )
                },
            },
        }
    }

    /// Runs a procedure on an AP. `owner` is who owns the 8 bytes at the procedure.
    pub fn run_procedure_on_ap(
        &self,
        cpu_id: u32,
        procedure: u64,
        argument: u64,
        owner: Option<PageOwnership>,
    ) -> (r: ApAction)
        requires
            self.wf(),
        ensures
            r == self.procedure_action(cpu_id, procedure, argument, owner),
    {
        match owner {
            None => ApAction::Respond(ApResponse::Error(AP_DEVICE_ERROR)),
            Some(PageOwnership::Supervisor) => ApAction::Call { procedure, argument },
            Some(PageOwnership::User) => {
                let cpu_index: usize = match self.cpu_manager.find_slot(cpu_id) {
                    Some(index) => index,
                    None => {
                        return ApAction::Respond(ApResponse::Error(AP_DEVICE_ERROR));
                    },
                };
                let stack: u64 = match self.syscall_interface.get_cpl3_stack(cpu_index) {
                    Ok(stack) => stack,
                    Err(_) => {
                        return ApAction::Respond(ApResponse::Error(AP_DEVICE_ERROR));
                    },
                };
                let entry: u64 = match self.user_entry_point {
                    Some(entry) => entry,
                    None => {
                        return ApAction::Respond(ApResponse::Error(AP_DEVICE_ERROR));
                    },
                };
                if entry == 0 {
                    return ApAction::Respond(ApResponse::Error(AP_DEVICE_ERROR));
                }
                ApAction::Demote(
                    DemotedCall {
                        cpu_index,
                        entry,
                        stack,
                        command: UserCommandType::UserApProcedure.as_u64(),
                        arg2: procedure,
                        arg3: argument,
                    },
                )
            },
        }
    }

    /// Executes a command received by an AP. `owner` is who owns the procedure of the command.
    pub fn execute_ap_command(
        &self,
        cpu_id: u32,
        command: &ApCommand,
        owner: Option<PageOwnership>,
    ) -> (r: ApAction)
        requires
            self.wf(),
        ensures
            r == match *command {
                ApCommand::RunProcedure { procedure, argument } => self.procedure_action(
                    cpu_id,
                    procedure,
                    argument,
                    owner,
                ),
                ApCommand::Return => ApAction::Respond(ApResponse::Success),
            },
    {
        match *command {
            ApCommand::RunProcedure { procedure, argument } => self.run_procedure_on_ap(
                cpu_id,
                procedure,
                argument,
                owner,
            ),
            ApCommand::Return => ApAction::Respond(ApResponse::Success),
        }
    }

    /// A procedure can be started on the CPU with this index: it is one of the registered
    /// ones, its slot is in use, and it is not the BSP.
    pub open spec fn startable(&self, cpu_index: u64) -> bool {
        &&& cpu_index < self.cpus().registered()
        &&& cpu_index < self.cpus().slot_list().len()
        &&& self.cpus().slot_list()[cpu_index as int].used()
        &&& self.cpus().bsp() != Some(self.cpus().slot_list()[cpu_index as int].cpu_id)
    }

    /// Validates a procedure for a specific AP, and says which command to send to it. The
    /// sender waits for the response, up to [`AP_TIMEOUT_US`].
    pub fn start_ap_procedure(&self, cpu_index: u64, procedure: u64, argument: u64) -> (r: Result<
        ApDispatch,
        Status,
    >)
        ensures
            r == if self.startable(cpu_index) && procedure != 0 {
                Ok::<ApDispatch, Status>(
                    ApDispatch {
                        cpu_id: self.cpus().slot_list()[cpu_index as int].cpu_id,
                        command: ApCommand::RunProcedure { procedure, argument },
                    },
                )
            } else {
                Err(EFI_INVALID_PARAMETER)
            },
    {
        if cpu_index >= self.cpu_manager.registered_count() as u64 {
            return Err(EFI_INVALID_PARAMETER);
        }
        let cpu_id: u32 = match self.cpu_manager.get_cpu_id_by_index(cpu_index as usize) {
            Some(id) => id,
            None => {
                return Err(EFI_INVALID_PARAMETER);
            },
        };
        if self.cpu_manager.is_bsp(cpu_id) {
            return Err(EFI_INVALID_PARAMETER);
        }
        if procedure == 0 {
            return Err(EFI_INVALID_PARAMETER);
        }
        Ok(ApDispatch { cpu_id, command: ApCommand::RunProcedure { procedure, argument } })
    }
}

/// An AP leaves the holding pen after this command.
pub fn leaves_holding_pen(command: &ApCommand) -> (r: bool)
    ensures
        r == (*command is Return),
{
    match *command {
        ApCommand::Return => true,
        _ => false,
    }
}

/// The answer to a procedure whose command could not be sent, because the AP is busy or has
/// no mailbox, or `None` if it was sent.
pub fn ap_command_sent(sent: Result<(), ()>) -> (r: Option<Status>)
    ensures
        r == match sent {
            Ok(()) => None,
            Err(()) => Some(EFI_INVALID_PARAMETER),
        },
{
    match sent {
        Ok(()) => None,
        Err(()) => Some(EFI_INVALID_PARAMETER),
    }
}

/// The status of a procedure that was started, from the response of the AP, if one came in
/// time. The code of an error is the low half of its status.
pub open spec fn ap_status(response: Option<ApResponse>) -> Status {
    match response {
        Some(ApResponse::Success) => EFI_SUCCESS,
        Some(ApResponse::Error(code)) => (EFI_ERROR_BIT + code) as u64,
        Some(ApResponse::Busy) => EFI_NOT_READY,
        Some(ApResponse::NoResponse) => EFI_TIMEOUT,
        None => EFI_TIMEOUT,
    }
}

/// The answer to a procedure that was started, from the response of the AP, if one came in
/// time.
pub fn ap_responded(response: Option<ApResponse>) -> (r: Status)
    ensures
        r == ap_status(response),
{
    match response {
        Some(ApResponse::Success) => EFI_SUCCESS,
        Some(ApResponse::Error(code)) => EFI_ERROR_BIT + code as u64,
        Some(ApResponse::Busy) => EFI_NOT_READY,
        Some(ApResponse::NoResponse) => EFI_TIMEOUT,
        None => EFI_TIMEOUT,
    }
}

// ============================================================================
// Laws
// ============================================================================

proof fn lemma_context_kept(before: Seq<u8>, after: Seq<u8>)
    requires
        before.len() == HANDOFF_SIZE,
        same_but(before, after, 40, 24),
    ensures
        entry_context_at(after, 0) == entry_context_at(before, 0),
{
    assert forall|i: int| 0 <= i < 40 implies after[i] == before[i] by {}
}

proof fn lemma_handler_found(handlers: Seq<SupervisorMmiHandler>, guid: u128, from: int)
    requires
        0 <= from,
    ensures
        handler_for(handlers, guid, from) matches Some(i) ==> from <= i < handlers.len()
            && handlers[i].handler_guid == guid,
    decreases handlers.len() - from,
{
    if from < handlers.len() && handlers[from].handler_guid != guid {
        lemma_handler_found(handlers, guid, from + 1);
    }
}

/// A request that reaches a handler of the supervisor has its data within the buffer, and the
/// handler is one for its GUID.
pub proof fn law_dispatched_within_buffer(
    buffer: Seq<u8>,
    handlers: Seq<SupervisorMmiHandler>,
    index: usize,
    data_size: usize,
)
    requires
        buffer.len() <= usize::MAX,
        handlers.len() <= usize::MAX,
        supervisor_request(buffer, handlers) == (SupervisorRequest::Handler { index, data_size }),
    ensures
        EfiMmCommunicateHeader::HEADER_SIZE + data_size <= buffer.len(),
        index < handlers.len(),
        handlers[index as int].handler_guid == communicate_header_at(buffer, 0).header_guid,
{
    lemma_handler_found(handlers, communicate_header_at(buffer, 0).header_guid, 0);
}

/// A response that leaves the data size as it was is copied back whole.
pub proof fn law_response_of_request_fits(
    buffer: Seq<u8>,
    handlers: Seq<SupervisorMmiHandler>,
    index: usize,
    data_size: usize,
    dispatch_status: Status,
)
    requires
        buffer.len() <= usize::MAX,
        handlers.len() <= usize::MAX,
        supervisor_request(buffer, handlers) == (SupervisorRequest::Handler { index, data_size }),
    ensures
        supervisor_reply(buffer.len() as usize, dispatch_status, data_size).copy_back == Some(
            (data_size + EfiMmCommunicateHeader::HEADER_SIZE) as usize,
        ),
{
}

/// Once a request has been answered, for the supervisor or for the user, the status no longer
/// asks for the supervisor.
pub proof fn law_answered_request_is_done(
    config: CommBufferConfig,
    status: MmCommBufferStatus,
    handoff: Seq<u8>,
    buffer_size: usize,
    dispatch_status: Status,
    data_size: usize,
)
    ensures
        target_of(user_reply(config, status, handoff).status) == RequestTarget::User,
        target_of(supervisor_reply(buffer_size, dispatch_status, data_size).status)
            == RequestTarget::User,
{
}

/// A user module that leaves its hand-off data alone gives the status of the request back,
/// with the buffer no longer valid; and what was copied in is copied back.
pub proof fn law_idle_user_keeps_status(
    config: CommBufferConfig,
    status: MmCommBufferStatus,
    handoff: Seq<u8>,
)
    requires
        comm_buffer_status_at(handoff, 40) == status,
    ensures
        user_reply(config, status, handoff).status == (MmCommBufferStatus {
            is_comm_buffer_valid: 0,
            ..status
        }),
        status.is_comm_buffer_valid != 0 ==> user_reply(config, status, handoff).copy_out == Some(
            MemoryCopy {
                from: config.user_comm_buffer_internal,
                to: config.user_comm_buffer,
                size: config.user_comm_buffer_size,
            },
        ),
{
}

/// An AP calls a procedure in ring 0 only if the supervisor owns it, and one that the user owns
/// runs in ring 3 or not at all.
pub proof fn law_user_procedures_are_demoted<const MAX_CPUS: usize>(
    core: MmSupervisorCore<MAX_CPUS>,
    cpu_id: u32,
    procedure: u64,
    argument: u64,
    owner: Option<PageOwnership>,
)
    ensures
        core.procedure_action(cpu_id, procedure, argument, owner) is Call <==> owner == Some(
            PageOwnership::Supervisor,
        ),
        core.procedure_action(cpu_id, procedure, argument, owner) is Demote ==> owner == Some(
            PageOwnership::User,
        ),
{
}

/// The slots of two cores share no byte.
pub proof fn law_core_slots_apart(buffer: u64, a: int, b: int)
    requires
        a < b,
    ensures
        core_slot(buffer, a) + 8 <= core_slot(buffer, b),
{
}

/// A procedure on an AP that does not succeed is answered with the status of an error, and one
/// that failed with a device error with `EFI_DEVICE_ERROR`.
pub proof fn law_failed_procedure_is_error(response: Option<ApResponse>)
    ensures
        ap_status(response) == EFI_SUCCESS <==> response == Some(ApResponse::Success),
        response != Some(ApResponse::Success) ==> ap_status(response) >= EFI_ERROR_BIT,
        ap_status(Some(ApResponse::Error(AP_DEVICE_ERROR))) == EFI_DEVICE_ERROR,
{
}

/// The cores are being brought up with `first` as the BSP: it is registered as such, every
/// other core that is registered is an AP, and none is before the BSP is done.
pub open spec fn led_by<const MAX_CPUS: usize>(
    core: &MmSupervisorCore<MAX_CPUS>,
    first: u32,
) -> bool {
    let slots = core.cpus().slot_list();
    &&& core.cpus().bsp() == Some(first)
    &&& exists|i: int| 0 <= i < slots.len() && (#[trigger] slots[i]).is_of(first)
    &&& forall|i: int|
        0 <= i < slots.len() && (#[trigger] slots[i]).used() ==> slots[i].is_bsp == (slots[i].cpu_id
            == first)
    &&& forall|i: int|
        0 <= i < slots.len() && (#[trigger] slots[i]).used() && slots[i].cpu_id != first
            ==> core.ready()
}

/// The cores and their parts are the same, and what was set up still is.
pub open spec fn same_parts<const MAX_CPUS: usize>(
    before: &MmSupervisorCore<MAX_CPUS>,
    after: &MmSupervisorCore<MAX_CPUS>,
) -> bool {
    let slots = before.cpus().slot_list();
    &&& before.ready() ==> after.ready()
    &&& after.cpus().bsp() == before.cpus().bsp()
    &&& after.cpus().slot_list().len() == slots.len()
    &&& forall|i: int|
        0 <= i < slots.len() ==> (#[trigger] after.cpus().slot_list()[i]).cpu_id == slots[i].cpu_id
            && after.cpus().slot_list()[i].is_bsp == slots[i].is_bsp
}

/// One step while the cores are brought up: a core is entered, an AP looks whether the BSP is
/// done, or something happens that leaves the cores and their parts as they are.
pub open spec fn boot_step<const MAX_CPUS: usize>(
    before: &MmSupervisorCore<MAX_CPUS>,
    after: &MmSupervisorCore<MAX_CPUS>,
) -> bool {
    ||| exists|cpu_id: u32, initialized: bool, action: EntryAction| #[trigger]
        before.entered(after, cpu_id, initialized, action)
    ||| exists|cpu_id: u32, released: bool| #[trigger] before.looked(after, cpu_id, released)
    ||| same_parts(before, after)
}

proof fn lemma_added_led_by<const MAX_CPUS: usize>(
    before: &MmSupervisorCore<MAX_CPUS>,
    after: &MmSupervisorCore<MAX_CPUS>,
    first: u32,
    cpu_id: u32,
    is_bsp: bool,
)
    requires
        led_by(before, first),
        cpu_added(before.cpus(), after.cpus(), cpu_id, is_bsp),
        is_bsp ==> cpu_id == first,
        cpu_id != first ==> before.ready(),
        after.ready() == before.ready(),
    ensures
        led_by(after, first),
{
    let slots = before.cpus().slot_list();
    lemma_slot_of(slots, cpu_id, 0);
    lemma_unused_slot(slots, 0);
    let b = choose|i: int| 0 <= i < slots.len() && (#[trigger] slots[i]).is_of(first);
    if let Some(i) = unused_slot(slots, 0) {
        if slot_of(slots, cpu_id, 0) is None {
            let then = after.cpus().slot_list();
            assert(then[b] == slots[b]);
            assert(then[b].is_of(first));
            assert forall|k: int| 0 <= k < then.len() && (#[trigger] then[k]).used() implies (
            then[k].is_bsp == (then[k].cpu_id == first)) && (then[k].cpu_id != first
                ==> after.ready()) by {
                if k != i {
                    assert(then[k] == slots[k]);
                }
            }
        }
    }
}

proof fn lemma_step_led_by<const MAX_CPUS: usize>(
    before: &MmSupervisorCore<MAX_CPUS>,
    after: &MmSupervisorCore<MAX_CPUS>,
    first: u32,
)
    requires
        led_by(before, first),
        boot_step(before, after),
    ensures
        led_by(after, first),
{
    let slots = before.cpus().slot_list();
    let then = after.cpus().slot_list();
    if exists|cpu_id: u32, initialized: bool, action: EntryAction| #[trigger]
        before.entered(after, cpu_id, initialized, action) {
        let (cpu_id, initialized, action) = choose|
            cpu_id: u32,
            initialized: bool,
            action: EntryAction,
        | #[trigger]
            before.entered(after, cpu_id, initialized, action);
        if !initialized && before.takes_bsp(cpu_id) {
            lemma_added_led_by(before, after, first, cpu_id, true);
        }
    } else if exists|cpu_id: u32, released: bool| #[trigger]
        before.looked(after, cpu_id, released) {
        let (cpu_id, released) = choose|cpu_id: u32, released: bool| #[trigger]
            before.looked(after, cpu_id, released);
        if released {
            lemma_added_led_by(before, after, first, cpu_id, false);
        }
    } else {
        let b = choose|i: int| 0 <= i < slots.len() && (#[trigger] slots[i]).is_of(first);
        assert(then[b].is_of(first));
        assert forall|k: int| 0 <= k < then.len() && (#[trigger] then[k]).used() implies (
        then[k].is_bsp == (then[k].cpu_id == first)) && (then[k].cpu_id != first
            ==> after.ready()) by {
            assert(slots[k].used());
        }
    }
}

/// The first core to arrive is the BSP, and sets the supervisor up. Whatever order the cores go
/// on in, it stays the BSP, every other core that is registered is an AP, and none of them is
/// registered before the BSP is done. `states` are the states from before the first arrival on.
pub proof fn law_first_to_arrive_is_bsp<const MAX_CPUS: usize>(
    states: Seq<MmSupervisorCore<MAX_CPUS>>,
    first: u32,
    action: EntryAction,
    n: int,
)
    requires
        MAX_CPUS > 0,
        first != u32::MAX,
        states[0].fresh(),
        states[0].entered(&states[1], first, false, action),
        forall|k: int|
            1 <= k < states.len() - 1 ==> #[trigger] boot_step(&states[k], &states[k + 1]),
        1 <= n < states.len(),
    ensures
        action == EntryAction::InitializeBsp,
        led_by(&states[n], first),
    decreases n,
{
    let slots = states[0].cpus().slot_list();
    if n == 1 {
        lemma_slot_of(slots, first, 0);
        assert(!slots[0].used());
        assert(states[1].cpus().slot_list()[0].is_of(first));
    } else {
        law_first_to_arrive_is_bsp(states, first, action, n - 1);
        assert(boot_step(&states[n - 1], &states[n - 1 + 1]));
        lemma_step_led_by(&states[n - 1], &states[n], first);
    }
}

/// Whom a request is for: the supervisor if the communication buffer is valid and says so, and else
/// the user module.
pub proof fn law_request_target(status: MmCommBufferStatus)
    ensures
        target_of(status) == RequestTarget::Supervisor <==> status.is_comm_buffer_valid != 0
            && status.talk_to_supervisor != 0,
        target_of(status) == RequestTarget::User <==> status.is_comm_buffer_valid == 0
            || status.talk_to_supervisor == 0,
{
}

/// What a request on the supervisor channel leads to: it is refused if the buffer has no room for
/// its header, or for the message that the header announces; and else it goes to the first handler
/// for its GUID, with the length of the message, if there is one.
pub proof fn law_supervisor_request_decision(
    buffer: Seq<u8>,
    handlers: Seq<SupervisorMmiHandler>,
    i: int,
)
    requires
        buffer.len() <= usize::MAX,
        handlers.len() <= usize::MAX,
    ensures
        ({
            let r = supervisor_request(buffer, handlers);
            let header = communicate_header_at(buffer, 0);
            let whole = buffer.len() >= EfiMmCommunicateHeader::HEADER_SIZE
                && EfiMmCommunicateHeader::HEADER_SIZE + header.message_length <= buffer.len();
            &&& !whole ==> (r matches SupervisorRequest::Refused(status) && status.return_status
                == EFI_BAD_BUFFER_SIZE && status.return_buffer_size == 0
                && status.is_comm_buffer_valid == 0 && status.talk_to_supervisor == 0)
            &&& whole && 0 <= i < handlers.len() && handlers[i].handler_guid == header.header_guid
                && (forall|j: int|
                0 <= j < i ==> (#[trigger] handlers[j]).handler_guid != header.header_guid) ==> r
                == (SupervisorRequest::Handler {
                index: i as usize,
                data_size: header.message_length as usize,
            })
            &&& whole && (forall|j: int|
                0 <= j < handlers.len() ==> (#[trigger] handlers[j]).handler_guid
                    != header.header_guid) ==> r == (SupervisorRequest::NoHandler {
                data_size: header.message_length as usize,
            })
        }),
{
    let guid = communicate_header_at(buffer, 0).header_guid;
    crate::supervisor::supervisor_handlers::law_handler_lookup(handlers, guid, 0);
    if handler_for(handlers, guid, 0) is Some {
        let k = handler_for(handlers, guid, 0)->0;
        assert(handlers[k].handler_guid == guid);
    }
}

/// The reply to a request on the supervisor channel: the header and the data go back, if the buffer
/// has room for them, and their size is told in any case; every status but success is told as
/// nothing found; and the buffer is not valid any more.
pub proof fn law_supervisor_reply(
    buffer_size: usize,
    dispatch_status: Status,
    data_size: usize,
)
    requires
        data_size + EfiMmCommunicateHeader::HEADER_SIZE <= usize::MAX,
    ensures
        ({
            let r = supervisor_reply(buffer_size, dispatch_status, data_size);
            let total = EfiMmCommunicateHeader::HEADER_SIZE + data_size;
            &&& total <= buffer_size ==> r.copy_back == Some(total as usize)
            &&& total > buffer_size ==> r.copy_back is None
            &&& r.status.return_buffer_size == total
            &&& dispatch_status == EFI_SUCCESS ==> r.status.return_status == EFI_SUCCESS
            &&& dispatch_status != EFI_SUCCESS ==> r.status.return_status == EFI_NOT_FOUND
            &&& r.status.is_comm_buffer_valid == 0 && r.status.talk_to_supervisor == 0
        }),
{
}

/// The reply of the user module: its buffer goes back to where the request came from if there was a
/// valid one, and its status, with the buffer no longer valid, to the place for the status.
pub proof fn law_user_reply(
    config: CommBufferConfig,
    status: MmCommBufferStatus,
    handoff: Seq<u8>,
)
    ensures
        ({
            let r = user_reply(config, status, handoff);
            let told = comm_buffer_status_at(handoff, 40);
            &&& r.copy_out is Some <==> status.is_comm_buffer_valid != 0
            &&& r.copy_out matches Some(copy) ==> copy.from == config.user_comm_buffer_internal
                && copy.to == config.user_comm_buffer && copy.size == config.user_comm_buffer_size
            &&& r.status_at == config.status_buffer
            &&& r.status.is_comm_buffer_valid == 0
            &&& r.status.talk_to_supervisor == told.talk_to_supervisor
            &&& r.status.return_status == told.return_status
            &&& r.status.return_buffer_size == told.return_buffer_size
        }),
{
}

/// Where the policies are, by the data that is passed down: it has to have the known revision, and
/// a firmware policy. The memory policy has as many whole descriptors as its buffer has room for.
pub proof fn law_policy_buffers(p: MmSupvPassDownHobData)
    ensures
        match policy_buffers(p) {
            Ok(b) => {
                &&& p.revision == MM_SUPV_PASS_DOWN_HOB_REVISION
                &&& b.firmware_policy != 0 && b.firmware_policy == p.mm_supv_firmware_policy_buffer
                &&& b.firmware_policy_size > 0 && b.firmware_policy_size
                    == p.mm_supv_firmware_policy_buffer_size
                &&& b.memory_policy == p.mm_supv_memory_policy_buffer
                &&& b.memory_policy_size == p.mm_supv_memory_policy_buffer_size
                &&& b.memory_policy_max_count * 24 <= b.memory_policy_size
                &&& b.memory_policy_size < (b.memory_policy_max_count + 1) * 24
                &&& b.cpl3_stack_base == p.mm_supervisor_cpl3_stack_base
                &&& b.cpl3_stack_size == p.mm_supervisor_cpl3_per_core_stack_size
            },
            Err(PolicyInitError::InvalidRevision { found, expected }) => {
                &&& found == p.revision && expected == MM_SUPV_PASS_DOWN_HOB_REVISION
                &&& found != expected
            },
            Err(e) => {
                &&& e == PolicyInitError::NullFirmwarePolicyBuffer
                &&& p.revision == MM_SUPV_PASS_DOWN_HOB_REVISION
                &&& p.mm_supv_firmware_policy_buffer == 0 || p.mm_supv_firmware_policy_buffer_size
                    == 0
            },
        },
{
}

/// An address that is passed down is kept from the first time on that there is one.
pub proof fn law_address_is_set_once(before: Option<u64>, value: u64)
    ensures
        before is Some ==> set_once(before, value) == before,
        before is None && value != 0 ==> set_once(before, value) == Some(value),
        before is None && value == 0 ==> set_once(before, value) is None,
{
}

/// What a CPU does that enters: if it is initialized already it serves; if there is no boot
/// processor yet, or it is the one, it initializes as that; and else it waits. Only the second
/// registers it.
pub proof fn law_entry_decision<const MAX_CPUS: usize>(
    before: &MmSupervisorCore<MAX_CPUS>,
    after: &MmSupervisorCore<MAX_CPUS>,
    cpu_id: u32,
    core_initialized: bool,
    action: EntryAction,
)
    requires
        before.entered(after, cpu_id, core_initialized, action),
    ensures
        core_initialized ==> action == EntryAction::EnterRuntime && after.cpus() == before.cpus(),
        !core_initialized && (before.cpus().bsp() is None || before.cpus().bsp() == Some(cpu_id))
            ==> action == EntryAction::InitializeBsp && cpu_added(
            before.cpus(),
            after.cpus(),
            cpu_id,
            true,
        ),
        !core_initialized && before.cpus().bsp() is Some && before.cpus().bsp() != Some(cpu_id)
            ==> action == EntryAction::WaitForBsp && after.cpus() == before.cpus(),
        after.ready() == before.ready(),
        after.cores_done() == before.cores_done(),
        after.syscalls() == before.syscalls(),
        after.core_slots() == before.core_slots(),
        after.cpu_private() == before.cpu_private(),
        after.buffers() == before.buffers(),
        after.user_entry() == before.user_entry(),
{
}

/// A CPU that waits is released when the core is ready, and then registered as an AP; before,
/// nothing changes.
pub proof fn law_release_decision<const MAX_CPUS: usize>(
    before: &MmSupervisorCore<MAX_CPUS>,
    after: &MmSupervisorCore<MAX_CPUS>,
    cpu_id: u32,
    released: bool,
)
    requires
        before.looked(after, cpu_id, released),
    ensures
        released == before.ready(),
        !before.ready() ==> after.cpus() == before.cpus(),
        before.ready() ==> cpu_added(before.cpus(), after.cpus(), cpu_id, false),
        after.ready() == before.ready(),
        after.cores_done() == before.cores_done(),
        after.syscalls() == before.syscalls(),
        after.core_slots() == before.core_slots(),
        after.cpu_private() == before.cpu_private(),
        after.buffers() == before.buffers(),
        after.user_entry() == before.user_entry(),
{
}

/// A CPU is added once: to the first unused slot, as the boot processor or as an AP, with one more
/// counted; and nothing changes if it has a slot or there is none for it.
pub proof fn law_cpu_is_added_once<const MAX_CPUS: usize>(
    before: CpuManager<MAX_CPUS>,
    after: CpuManager<MAX_CPUS>,
    cpu_id: u32,
    is_bsp: bool,
    i: int,
)
    requires
        cpu_id != u32::MAX,
        before.registered() < u32::MAX,
        cpu_added(before, after, cpu_id, is_bsp),
    ensures
        ({
            let a = before.slot_list();
            let b = after.slot_list();
            let known = exists|j: int| 0 <= j < a.len() && (#[trigger] a[j]).cpu_id == cpu_id;
            let first = 0 <= i < a.len() && a[i].cpu_id == u32::MAX && forall|j: int|
                0 <= j < i ==> (#[trigger] a[j]).cpu_id != u32::MAX;
            &&& known ==> after == before
            &&& (forall|j: int| 0 <= j < a.len() ==> (#[trigger] a[j]).cpu_id != u32::MAX)
                ==> after == before
            &&& !known && first ==> {
                &&& b.len() == a.len()
                &&& b[i].cpu_id == cpu_id && b[i].is_bsp == is_bsp
                &&& forall|j: int| 0 <= j < a.len() && j != i ==> #[trigger] b[j] == a[j]
                &&& after.registered() == before.registered() + 1
                &&& is_bsp ==> after.bsp() == Some(cpu_id)
                &&& !is_bsp ==> after.bsp() == before.bsp()
            }
        }),
{
    let a = before.slot_list();
    crate::supervisor::cpu::law_slot_lookup(a, cpu_id);
    if slot_of(a, cpu_id, 0) is Some {
        let k = slot_of(a, cpu_id, 0)->0;
        assert(a[k].cpu_id == cpu_id);
    }
    if unused_slot(a, 0) is Some {
        let k = unused_slot(a, 0)->0;
        assert(a[k].cpu_id == u32::MAX);
    }
}

/// How the user module is started: on the stack of the CPU, at its entry point, with the hand-off
/// blocks; if it has an entry point and the CPU a stack.
pub proof fn law_start_call<const MAX_CPUS: usize>(
    core: MmSupervisorCore<MAX_CPUS>,
    cpu_index: usize,
    hob_list: u64,
)
    ensures
        match core.start_call(cpu_index, hob_list) {
            Ok(call) => {
                &&& core.user_entry() == Some(call.entry) && call.entry != 0
                &&& core.syscalls().cpu_fault(cpu_index) is None
                &&& call.cpu_index == cpu_index
                &&& call.stack == core.syscalls().stack_top(cpu_index as int) as u64
                &&& call.command == UserCommandType::StartUserCore.number()
                &&& call.arg2 == hob_list && call.arg3 == 0
            },
            Err(fault) => if core.user_entry() is None || core.user_entry() == Some(0u64) {
                fault == UserRequestFault::NoEntryPoint
            } else {
                core.syscalls().cpu_fault(cpu_index) matches Some(e) && fault
                    == UserRequestFault::NoStack(e)
            },
        },
{
}

/// When a request can go to the user module: if there are both communication buffers, a buffer for
/// the hand-off with room for it, an entry point and a stack; what is missing first is told.
pub proof fn law_user_request_decision<const MAX_CPUS: usize>(
    core: MmSupervisorCore<MAX_CPUS>,
    config: CommBufferConfig,
    cpu_index: usize,
)
    ensures
        ({
            let r = core.user_request_fault(config, cpu_index);
            let buffers = config.user_comm_buffer != 0 && config.user_comm_buffer_internal != 0;
            let entry = core.user_entry() is Some && core.user_entry()->0 != 0;
            let fault = core.syscalls().cpu_fault(cpu_index);
            &&& r is None <==> buffers && config.supv_to_user_buffer != 0 && entry && fault is None
                && config.supv_to_user_buffer_size >= 64
            &&& !buffers ==> r == Some(UserRequestFault::NoCommBuffer)
            &&& buffers && config.supv_to_user_buffer == 0 ==> r == Some(
                UserRequestFault::NoDataBuffer,
            )
            &&& buffers && config.supv_to_user_buffer != 0 && !entry ==> r == Some(
                UserRequestFault::NoEntryPoint,
            )
            &&& buffers && config.supv_to_user_buffer != 0 && entry && fault is Some ==> r == Some(
                UserRequestFault::NoStack(fault->0),
            )
            &&& buffers && config.supv_to_user_buffer != 0 && entry && fault is None
                && config.supv_to_user_buffer_size < 64 ==> r == Some(
                UserRequestFault::DataBufferTooSmall,
            )
        }),
{
}

/// What an AP does with a procedure: it calls one of the supervisor, and demotes itself for one of
/// the user, on its own stack and with the procedure and its argument; it answers with an error if
/// nobody owns the procedure, or if it has no slot, no stack or no module to go to.
pub proof fn law_procedure_decision<const MAX_CPUS: usize>(
    core: MmSupervisorCore<MAX_CPUS>,
    cpu_id: u32,
    procedure: u64,
    argument: u64,
    owner: Option<PageOwnership>,
)
    ensures
        ({
            let r = core.procedure_action(cpu_id, procedure, argument, owner);
            let slot = slot_of(core.cpus().slot_list(), cpu_id, 0);
            let error = ApAction::Respond(ApResponse::Error(AP_DEVICE_ERROR));
            &&& owner is None ==> r == error
            &&& owner == Some(PageOwnership::Supervisor) ==> r == (ApAction::Call {
                procedure,
                argument,
            })
            &&& owner == Some(PageOwnership::User) && slot is None ==> r == error
            &&& owner == Some(PageOwnership::User) && (core.user_entry() is None
                || core.user_entry()->0 == 0) ==> r == error
            &&& owner == Some(PageOwnership::User) && slot is Some && core.syscalls().cpu_fault(
                slot->0 as usize,
            ) is Some ==> r == error
            &&& owner == Some(PageOwnership::User) && slot is Some && core.syscalls().cpu_fault(
                slot->0 as usize,
            ) is None && core.user_entry() is Some && core.user_entry()->0 != 0 ==> (
            r matches ApAction::Demote(call) && {
                &&& call.cpu_index == slot->0 as usize
                &&& call.entry == core.user_entry()->0
                &&& call.stack == core.syscalls().stack_top(slot->0) as u64
                &&& call.command == UserCommandType::UserApProcedure.number()
                &&& call.arg2 == procedure
                &&& call.arg3 == argument
            })
        }),
{
}

/// What the answer of an AP means: an AP that is busy is not ready, one that does not answer is out
/// of time, and the code of an error is that of the status.
pub proof fn law_ap_answers(code: u32)
    ensures
        ap_status(Some(ApResponse::Success)) == EFI_SUCCESS,
        ap_status(Some(ApResponse::Error(code))) == EFI_ERROR_BIT + code,
        ap_status(Some(ApResponse::Busy)) == EFI_NOT_READY,
        ap_status(Some(ApResponse::NoResponse)) == EFI_TIMEOUT,
        ap_status(None) == EFI_TIMEOUT,
{
}

/// On which CPUs a procedure can be started: on those that are registered, other than the boot
/// processor.
pub proof fn law_startable<const MAX_CPUS: usize>(core: MmSupervisorCore<MAX_CPUS>, cpu_index: u64)
    ensures
        core.startable(cpu_index) <==> {
            let slots = core.cpus().slot_list();
            &&& cpu_index < core.cpus().registered()
            &&& cpu_index < slots.len()
            &&& slots[cpu_index as int].cpu_id != u32::MAX
            &&& core.cpus().bsp() != Some(slots[cpu_index as int].cpu_id)
        },
{
}

/// Where a CPU notes that it is initialized: in its own 8 bytes of the buffer for that, if there is
/// one.
pub proof fn law_core_slot<const MAX_CPUS: usize>(
    core: MmSupervisorCore<MAX_CPUS>,
    cpu_index: usize,
)
    requires
        core.slot_addressable(cpu_index),
    ensures
        core.core_slots() is None || core.core_slots() == Some(0u64) ==> core.slot_address(
            cpu_index,
        ) is None,
        core.core_slots() is Some && core.core_slots()->0 != 0 ==> (core.slot_address(cpu_index)
            matches Some(a) && a == core.core_slots()->0 + 8 * cpu_index),
{
}

/// The APs have arrived when as many of them as are expected are in the holding pen.
pub proof fn law_aps_arrived<const MAX_CPUS: usize>(
    core: &MmSupervisorCore<MAX_CPUS>,
    expected_aps: usize,
)
    ensures
        core.aps_arrived(expected_aps) <==> core.cpus().slot_list().filter(
            |s: CpuSlot| s.cpu_id != u32::MAX && !s.is_bsp && s.state == ApState::InHoldingPen,
        ).len() >= expected_aps,
{
    let slots = core.cpus().slot_list();
    crate::supervisor::cpu::law_cpu_counts(slots, ApState::InHoldingPen, slots.len() as int);
    assert(slots.take(slots.len() as int) =~= slots);
}

/// The user module is told which CPU runs it and how many there are, and nothing else.
pub proof fn law_user_context<const MAX_CPUS: usize>(
    core: &MmSupervisorCore<MAX_CPUS>,
    cpu_index: usize,
)
    requires
        core.cpus().registered() <= u64::MAX,
    ensures
        ({
            let context = core.user_context(cpu_index);
            &&& context.currently_executing_cpu == cpu_index
            &&& context.number_of_cpus == core.cpus().registered()
            &&& context.mm_startup_this_ap == 0
            &&& context.cpu_save_state == 0 && context.cpu_save_state_size == 0
        }),
{
}

/// What is said to keep the setup keeps every part of it: the syscalls, the slots of the cores, the
/// private data of the CPUs, the buffers and the entry of the user module.
pub proof fn law_setup_stays<const MAX_CPUS: usize>(
    before: &MmSupervisorCore<MAX_CPUS>,
    after: &MmSupervisorCore<MAX_CPUS>,
)
    requires
        after.same_setup(before),
    ensures
        after.syscalls() == before.syscalls(),
        after.core_slots() == before.core_slots(),
        after.cpu_private() == before.cpu_private(),
        after.buffers() == before.buffers(),
        after.user_entry() == before.user_entry(),
{
}

/// How long APs are waited for: a tenth of a second for their arrival, and ten seconds for what
/// they do.
pub proof fn law_wait_times()
    ensures
        AP_ARRIVAL_TIMEOUT_US * 10 == 1_000_000,
        AP_TIMEOUT_US == 10 * 1_000_000,
{
}

/// A new core has nothing set up: no CPU is registered, no core is done, and no address is known.
pub proof fn law_new_core<const MAX_CPUS: usize>(core: &MmSupervisorCore<MAX_CPUS>, i: int)
    requires
        core.fresh(),
    ensures
        !core.ready(),
        core.cores_done() == 0,
        core.core_slots() is None && core.cpu_private() is None,
        core.buffers() is None && core.user_entry() is None,
        core.cpus().registered() == 0 && core.cpus().bsp() is None,
        core.cpus().slot_list().len() == MAX_CPUS,
        0 <= i < MAX_CPUS ==> core.cpus().slot_list()[i].cpu_id == u32::MAX,
        !core.syscalls().ready() && core.syscalls().cpus() == 0,
{
}

} // verus!
