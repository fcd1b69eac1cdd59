//! What the supervisor is handed by the phase before it.
//!
//! The pass-down HOB names the buffers that the supervisor works with, and a module HOB the
//! entry point of the user module. Addresses stay addresses here: what lies behind them the
//! platform reads.

use crate::bytes::{le32, le64, read_u32, read_u64};
use crate::efi::Guid;
use crate::hob::Hob;
use crate::mm_common::{entry_context_at, EfiMmEntryContext};
use vstd::prelude::*;

verus! {

/// GUID used in memory allocation module HOBs to identify MM Supervisor module allocations,
/// {3efafe72-3dbf-4341-ad04-1cb6e8b68e5e}.
pub const MM_SUPERVISOR_HOB_MEMORY_ALLOC_MODULE_GUID: Guid = 0x5e8eb6e8b61c04ad43413dbf3efafe72;

/// GUID identifying the MM Supervisor User module, {30d1cc3f-c1db-41ed-b113-abce21b02bce}.
pub const MM_SUPERVISOR_USER_GUID: Guid = 0xce2bb021ceab13b141edc1db30d1cc3f;

/// GUID for the MM Supervisor PassDown HOB, {3f2d2d1a-7c6a-4e2e-912e-5c4f5b8c2a9d}.
pub const MM_SUPV_PASS_DOWN_HOB_GUID: Guid = 0x9d2a8c5b4f5c2e914e2e7c6a3f2d2d1a;

/// MM Supervisor PassDown HOB revision.
pub const MM_SUPV_PASS_DOWN_HOB_REVISION: u32 = 1;

/// Data of the MM Supervisor PassDown HOB: buffer addresses and sizes.
#[derive(Debug, Clone, Copy, PartialEq, Eq, Structural)]
pub struct MmSupvPassDownHobData {
    /// Revision of this HOB structure.
    pub revision: u32,
    /// Reserved for future use.
    pub reserved: u32,
    /// Base address of CPL3 stack for MM Supervisor.
    pub mm_supervisor_cpl3_stack_base: u64,
    /// Per-CPU stack size for CPL3.
    pub mm_supervisor_cpl3_per_core_stack_size: u64,
    /// MM Supervisor CPU private data base address.
    pub mm_supv_cpu_private: u64,
    /// Size of MM Supervisor CPU private data.
    pub mm_supv_cpu_private_size: u64,
    /// MM Supervisor MP sync data base address.
    pub mm_supv_mp_sync_data: u64,
    /// Size of MM Supervisor MP sync data.
    pub mm_supv_mp_sync_data_size: u64,
    /// MM Supervisor communication buffer base address.
    pub mm_supv_comm_buffer: u64,
    /// MM Supervisor internal communication buffer base address.
    pub mm_supv_comm_buffer_internal: u64,
    /// Size of MM Supervisor communication buffer.
    pub mm_supv_comm_buffer_size: u64,
    /// MM User communication buffer base address.
    pub mm_user_comm_buffer: u64,
    /// MM User internal communication buffer base address.
    pub mm_user_comm_buffer_internal: u64,
    /// Size of MM User communication buffer.
    pub mm_user_comm_buffer_size: u64,
    /// MM Supervisor status buffer base address.
    pub mm_supv_status_buffer: u64,
    /// MM Supervisor to User buffer base address.
    pub mm_supv_to_user_buffer: u64,
    /// Size of MM Supervisor to User buffer.
    pub mm_supv_to_user_buffer_size: u64,
    /// MM Supervisor GDT buffer base address.
    pub mm_supv_gdt_buffer: u64,
    /// Size of MM Supervisor GDT buffer.
    pub mm_supv_gdt_buffer_size: u64,
    /// Step size of MM Supervisor GDT buffer per CPU.
    pub mm_supv_gdt_step_size: u64,
    /// MM Initialized buffer base address.
    pub mm_initialized_buffer: u64,
    /// MM Supervisor firmware policy buffer base address.
    pub mm_supv_firmware_policy_buffer: u64,
    /// Size of MM Supervisor firmware policy buffer.
    pub mm_supv_firmware_policy_buffer_size: u64,
    /// MM Supervisor memory policy buffer base address.
    pub mm_supv_memory_policy_buffer: u64,
    /// Size of MM Supervisor memory policy buffer.
    pub mm_supv_memory_policy_buffer_size: u64,
    /// Size of the MMI entry point binary.
    pub mmi_entrypoint_size: u64,
    /// Base address of the BSP MM.
    pub bsp_mm_base_address: u64,
}

/// The pass-down data at the start of `s`: two 32-bit fields, and 64-bit fields behind them,
/// without padding.
pub open spec fn pass_down_at(s: Seq<u8>) -> MmSupvPassDownHobData {
    MmSupvPassDownHobData {
        revision: le32(s, 0) as u32,
        reserved: le32(s, 4) as u32,
        mm_supervisor_cpl3_stack_base: le64(s, 8) as u64,
        mm_supervisor_cpl3_per_core_stack_size: le64(s, 16) as u64,
        mm_supv_cpu_private: le64(s, 24) as u64,
        mm_supv_cpu_private_size: le64(s, 32) as u64,
        mm_supv_mp_sync_data: le64(s, 40) as u64,
        mm_supv_mp_sync_data_size: le64(s, 48) as u64,
        mm_supv_comm_buffer: le64(s, 56) as u64,
        mm_supv_comm_buffer_internal: le64(s, 64) as u64,
        mm_supv_comm_buffer_size: le64(s, 72) as u64,
        mm_user_comm_buffer: le64(s, 80) as u64,
        mm_user_comm_buffer_internal: le64(s, 88) as u64,
        mm_user_comm_buffer_size: le64(s, 96) as u64,
        mm_supv_status_buffer: le64(s, 104) as u64,
        mm_supv_to_user_buffer: le64(s, 112) as u64,
        mm_supv_to_user_buffer_size: le64(s, 120) as u64,
        mm_supv_gdt_buffer: le64(s, 128) as u64,
        mm_supv_gdt_buffer_size: le64(s, 136) as u64,
        mm_supv_gdt_step_size: le64(s, 144) as u64,
        mm_initialized_buffer: le64(s, 152) as u64,
        mm_supv_firmware_policy_buffer: le64(s, 160) as u64,
        mm_supv_firmware_policy_buffer_size: le64(s, 168) as u64,
        mm_supv_memory_policy_buffer: le64(s, 176) as u64,
        mm_supv_memory_policy_buffer_size: le64(s, 184) as u64,
        mmi_entrypoint_size: le64(s, 192) as u64,
        bsp_mm_base_address: le64(s, 200) as u64,
    }
}

impl MmSupvPassDownHobData {
    /// Size in bytes of the data.
    pub const SIZE: usize = 208;

    /// Reads the data from the start of a HOB's data.
    pub fn from_bytes(data: &[u8]) -> (r: Self)
        requires
            Self::SIZE <= data.len(),
        ensures
            r == pass_down_at(data@),
    {
        MmSupvPassDownHobData {
            revision: read_u32(data, 0),
            reserved: read_u32(data, 4),
            mm_supervisor_cpl3_stack_base: read_u64(data, 8),
            mm_supervisor_cpl3_per_core_stack_size: read_u64(data, 16),
            mm_supv_cpu_private: read_u64(data, 24),
            mm_supv_cpu_private_size: read_u64(data, 32),
            mm_supv_mp_sync_data: read_u64(data, 40),
            mm_supv_mp_sync_data_size: read_u64(data, 48),
            mm_supv_comm_buffer: read_u64(data, 56),
            mm_supv_comm_buffer_internal: read_u64(data, 64),
            mm_supv_comm_buffer_size: read_u64(data, 72),
            mm_user_comm_buffer: read_u64(data, 80),
            mm_user_comm_buffer_internal: read_u64(data, 88),
            mm_user_comm_buffer_size: read_u64(data, 96),
            mm_supv_status_buffer: read_u64(data, 104),
            mm_supv_to_user_buffer: read_u64(data, 112),
            mm_supv_to_user_buffer_size: read_u64(data, 120),
            mm_supv_gdt_buffer: read_u64(data, 128),
            mm_supv_gdt_buffer_size: read_u64(data, 136),
            mm_supv_gdt_step_size: read_u64(data, 144),
            mm_initialized_buffer: read_u64(data, 152),
            mm_supv_firmware_policy_buffer: read_u64(data, 160),
            mm_supv_firmware_policy_buffer_size: read_u64(data, 168),
            mm_supv_memory_policy_buffer: read_u64(data, 176),
            mm_supv_memory_policy_buffer_size: read_u64(data, 184),
            mmi_entrypoint_size: read_u64(data, 192),
            bsp_mm_base_address: read_u64(data, 200),
        }
    }
}

/// Errors that can occur during policy initialization.
#[derive(Debug, Clone, Copy, PartialEq, Eq, Structural)]
pub enum PolicyInitError {
    /// There is no HOB list.
    NullHobList,
    /// PassDown HOB not found.
    PassDownHobNotFound,
    /// Invalid PassDown HOB revision.
    InvalidRevision {
        /// The revision of the HOB.
        found: u32,
        /// The revision that is supported.
        expected: u32,
    },
    /// Firmware policy buffer is null or empty.
    NullFirmwarePolicyBuffer,
    /// Invalid policy data.
    InvalidPolicyData,
}

/// Communication buffer configuration from the PassDown HOB.
#[derive(Debug, Clone, Copy, PartialEq, Eq, Structural)]
pub struct CommBufferConfig {
    /// MM Supervisor communication buffer (external interface).
    pub supv_comm_buffer: u64,
    /// MM Supervisor internal communication buffer.
    pub supv_comm_buffer_internal: u64,
    /// Size of supervisor communication buffer.
    pub supv_comm_buffer_size: u64,
    /// MM User communication buffer (external interface).
    pub user_comm_buffer: u64,
    /// MM User internal communication buffer.
    pub user_comm_buffer_internal: u64,
    /// Size of user communication buffer.
    pub user_comm_buffer_size: u64,
    /// MM Supervisor status buffer (indicates target: supervisor or user).
    pub status_buffer: u64,
    /// MM Supervisor to User buffer.
    pub supv_to_user_buffer: u64,
    /// Size of Supervisor to User buffer.
    pub supv_to_user_buffer_size: u64,
}

impl CommBufferConfig {
    /// No buffer is configured.
    pub open spec fn none() -> Self {
        CommBufferConfig {
            supv_comm_buffer: 0,
            supv_comm_buffer_internal: 0,
            supv_comm_buffer_size: 0,
            user_comm_buffer: 0,
            user_comm_buffer_internal: 0,
            user_comm_buffer_size: 0,
            status_buffer: 0,
            supv_to_user_buffer: 0,
            supv_to_user_buffer_size: 0,
        }
    }

    /// The buffers that pass-down data names.
    pub open spec fn of(p: MmSupvPassDownHobData) -> Self {
        CommBufferConfig {
            supv_comm_buffer: p.mm_supv_comm_buffer,
            supv_comm_buffer_internal: p.mm_supv_comm_buffer_internal,
            supv_comm_buffer_size: p.mm_supv_comm_buffer_size,
            user_comm_buffer: p.mm_user_comm_buffer,
            user_comm_buffer_internal: p.mm_user_comm_buffer_internal,
            user_comm_buffer_size: p.mm_user_comm_buffer_size,
            status_buffer: p.mm_supv_status_buffer,
            supv_to_user_buffer: p.mm_supv_to_user_buffer,
            supv_to_user_buffer_size: p.mm_supv_to_user_buffer_size,
        }
    }

    /// Takes the buffers from pass-down data.
    pub fn from_pass_down(p: &MmSupvPassDownHobData) -> (r: Self)
        ensures
            r == Self::of(*p),
    {
        CommBufferConfig {
            supv_comm_buffer: p.mm_supv_comm_buffer,
            supv_comm_buffer_internal: p.mm_supv_comm_buffer_internal,
            supv_comm_buffer_size: p.mm_supv_comm_buffer_size,
            user_comm_buffer: p.mm_user_comm_buffer,
            user_comm_buffer_internal: p.mm_user_comm_buffer_internal,
            user_comm_buffer_size: p.mm_user_comm_buffer_size,
            status_buffer: p.mm_supv_status_buffer,
            supv_to_user_buffer: p.mm_supv_to_user_buffer,
            supv_to_user_buffer_size: p.mm_supv_to_user_buffer_size,
        }
    }
}

impl Default for CommBufferConfig {
    fn default() -> (r: Self)
        ensures
            r == Self::none(),
    {
        CommBufferConfig {
            supv_comm_buffer: 0,
            supv_comm_buffer_internal: 0,
            supv_comm_buffer_size: 0,
            user_comm_buffer: 0,
            user_comm_buffer_internal: 0,
            user_comm_buffer_size: 0,
            status_buffer: 0,
            supv_to_user_buffer: 0,
            supv_to_user_buffer_size: 0,
        }
    }
}

/// A reserved SMRAM region, which cannot be used for the SMRAM heap.
#[derive(Debug, Clone, Copy, PartialEq, Eq, Structural)]
pub struct EfiSmmReservedSmramRegion {
    /// Starting address of the reserved SMRAM area.
    pub smram_reserved_start: u64,
    /// Number of bytes occupied by the reserved SMRAM area.
    pub smram_reserved_size: u64,
}

/// Private data of the SMM CPU module, `SMM_CPU_PRIVATE_DATA`.
#[derive(Debug, Clone, Copy, PartialEq, Eq, Structural)]
pub struct SmmCpuPrivateData {
    /// Signature ('scpu').
    pub signature: u64,
    /// SMM CPU handle.
    pub smm_cpu_handle: u64,
    /// Pointer to processor information array.
    pub processor_info: u64,
    /// Pointer to per-CPU save state size array.
    pub cpu_save_state_size: u64,
    /// Pointer to per-CPU save state pointer array.
    pub cpu_save_state: u64,
    /// Reserved SMRAM region descriptor.
    pub smm_reserved_smram_region: EfiSmmReservedSmramRegion,
    /// Inline entry context structure.
    pub smm_core_entry_context: EfiMmEntryContext,
    /// Supervisor core entry point function pointer.
    pub smm_core_entry: u64,
    /// User core entry point function pointer.
    pub smm_user_entry: u64,
    /// AP wrapper function pointer.
    pub ap_wrapper_func: u64,
    /// Token list pointer.
    pub token_list: u64,
    /// First free token pointer.
    pub first_free_token: u64,
}

/// The private data at the start of `s`.
pub open spec fn cpu_private_at(s: Seq<u8>) -> SmmCpuPrivateData {
    SmmCpuPrivateData {
        signature: le64(s, 0) as u64,
        smm_cpu_handle: le64(s, 8) as u64,
        processor_info: le64(s, 0x10) as u64,
        cpu_save_state_size: le64(s, 0x18) as u64,
        cpu_save_state: le64(s, 0x20) as u64,
        smm_reserved_smram_region: EfiSmmReservedSmramRegion {
            smram_reserved_start: le64(s, 0x28) as u64,
            smram_reserved_size: le64(s, 0x30) as u64,
        },
        smm_core_entry_context: entry_context_at(s, 0x38),
        smm_core_entry: le64(s, 0x60) as u64,
        smm_user_entry: le64(s, 0x68) as u64,
        ap_wrapper_func: le64(s, 0x70) as u64,
        token_list: le64(s, 0x78) as u64,
        first_free_token: le64(s, 0x80) as u64,
    }
}

impl SmmCpuPrivateData {
    /// Size in bytes of the data.
    pub const SIZE: usize = 0x88;

    /// Reads the data from its bytes.
    pub fn from_bytes(data: &[u8]) -> (r: Self)
        requires
            Self::SIZE <= data.len(),
        ensures
            r == cpu_private_at(data@),
    {
        SmmCpuPrivateData {
            signature: read_u64(data, 0),
            smm_cpu_handle: read_u64(data, 8),
            processor_info: read_u64(data, 0x10),
            cpu_save_state_size: read_u64(data, 0x18),
            cpu_save_state: read_u64(data, 0x20),
            smm_reserved_smram_region: EfiSmmReservedSmramRegion {
                smram_reserved_start: read_u64(data, 0x28),
                smram_reserved_size: read_u64(data, 0x30),
            },
            smm_core_entry_context: EfiMmEntryContext::read(data, 0x38),
            smm_core_entry: read_u64(data, 0x60),
            smm_user_entry: read_u64(data, 0x68),
            ap_wrapper_func: read_u64(data, 0x70),
            token_list: read_u64(data, 0x78),
            first_free_token: read_u64(data, 0x80),
        }
    }
}

/// The HOB is that of the user module of the supervisor.
pub open spec fn is_user_module(hob: Hob) -> bool {
    hob matches Hob::MemoryAllocationModule { name, module_name, .. } && name
        == MM_SUPERVISOR_HOB_MEMORY_ALLOC_MODULE_GUID && module_name == MM_SUPERVISOR_USER_GUID
}

/// The entry point of the first user module from `from` on.
pub open spec fn user_module_entry(hobs: Seq<Hob>, from: int) -> Option<u64>
    decreases hobs.len() - from,
{
    if from >= hobs.len() {
        None
    } else if is_user_module(hobs[from]) {
        Some(hobs[from]->entry_point)
    } else {
        user_module_entry(hobs, from + 1)
    }
}

/// Discovers the MM Supervisor User module entry point from the HOB list: that of the first
/// module HOB with the allocation name of the supervisor and the module name of the user
/// module.
pub fn discover_user_module_entry(hob_list: Option<&Vec<Hob>>) -> (r: Option<u64>)
    ensures
        r == match hob_list {
            None => None,
            Some(hobs) => user_module_entry(hobs@, 0),
        },
{
    let hobs = match hob_list {
        None => {
            return None;
        },
        Some(hobs) => hobs,
    };
    let mut i: usize = 0;
    while i < hobs.len()
        invariant
            i <= hobs@.len(),
            hob_list == Some(hobs),
            user_module_entry(hobs@, 0) == user_module_entry(hobs@, i as int),
        decreases hobs@.len() - i,
    {
        match &hobs[i] {
            Hob::MemoryAllocationModule { name, module_name, entry_point, .. } => {
                if *name == MM_SUPERVISOR_HOB_MEMORY_ALLOC_MODULE_GUID {
                    if *module_name == MM_SUPERVISOR_USER_GUID {
                        return Some(*entry_point);
                    }
                }
            },
            _ => {},
        }
        i = i + 1;
    }
    None
}

/// The HOB is the PassDown HOB.
pub open spec fn is_pass_down(hob: Hob) -> bool {
    hob matches Hob::GuidHob { name, .. } && name == MM_SUPV_PASS_DOWN_HOB_GUID
}

/// The data of the first PassDown HOB from `from` on.
pub open spec fn pass_down_data(hobs: Seq<Hob>, from: int) -> Option<Seq<u8>>
    decreases hobs.len() - from,
{
    if from >= hobs.len() {
        None
    } else if is_pass_down(hobs[from]) {
        Some(hobs[from]->data@)
    } else {
        pass_down_data(hobs, from + 1)
    }
}

/// The pass-down data of a HOB list, or why there is none.
pub open spec fn pass_down_of(hob_list: Option<&Vec<Hob>>) -> Result<
    MmSupvPassDownHobData,
    PolicyInitError,
> {
    match hob_list {
        None => Err(PolicyInitError::NullHobList),
        Some(hobs) => match pass_down_data(hobs@, 0) {
            None => Err(PolicyInitError::PassDownHobNotFound),
            Some(data) => if data.len() < MmSupvPassDownHobData::SIZE {
                Err(PolicyInitError::InvalidPolicyData)
            } else {
                Ok(pass_down_at(data))
            },
        },
    }
}

/// Finds the PassDown HOB and reads its data.
pub fn find_pass_down(hob_list: Option<&Vec<Hob>>) -> (r: Result<
    MmSupvPassDownHobData,
    PolicyInitError,
>)
    ensures
        r == pass_down_of(hob_list),
{
    let hobs = match hob_list {
        None => {
            return Err(PolicyInitError::NullHobList);
        },
        Some(hobs) => hobs,
    };
    let mut i: usize = 0;
    while i < hobs.len()
        invariant
            i <= hobs@.len(),
            hob_list == Some(hobs),
            pass_down_data(hobs@, 0) == pass_down_data(hobs@, i as int),
        decreases hobs@.len() - i,
    {
        match &hobs[i] {
            Hob::GuidHob { name, data } => {
                if *name == MM_SUPV_PASS_DOWN_HOB_GUID {
                    if data.len() < MmSupvPassDownHobData::SIZE {
                        return Err(PolicyInitError::InvalidPolicyData);
                    }
                    return Ok(MmSupvPassDownHobData::from_bytes(data.as_slice()));
                }
            },
            _ => {},
        }
        i = i + 1;
    }
    Err(PolicyInitError::PassDownHobNotFound)
}

/// The data that is passed down has a field of 32 bits for its revision, one in reserve, and then
/// fields of 64 bits, each behind the one before it.
pub proof fn law_pass_down_layout(s: Seq<u8>)
    ensures
        ({
            let p = pass_down_at(s);
            &&& p.revision == le32(s, 0) as u32
            &&& p.reserved == le32(s, 4) as u32
            &&& p.mm_supervisor_cpl3_stack_base == le64(s, 8) as u64
            &&& p.mm_supervisor_cpl3_per_core_stack_size == le64(s, 16) as u64
            &&& p.mm_supv_cpu_private == le64(s, 24) as u64
            &&& p.mm_supv_cpu_private_size == le64(s, 32) as u64
            &&& p.mm_supv_mp_sync_data == le64(s, 40) as u64
            &&& p.mm_supv_mp_sync_data_size == le64(s, 48) as u64
            &&& p.mm_supv_comm_buffer == le64(s, 56) as u64
            &&& p.mm_supv_comm_buffer_internal == le64(s, 64) as u64
            &&& p.mm_supv_comm_buffer_size == le64(s, 72) as u64
            &&& p.mm_user_comm_buffer == le64(s, 80) as u64
            &&& p.mm_user_comm_buffer_internal == le64(s, 88) as u64
            &&& p.mm_user_comm_buffer_size == le64(s, 96) as u64
            &&& p.mm_supv_status_buffer == le64(s, 104) as u64
            &&& p.mm_supv_to_user_buffer == le64(s, 112) as u64
            &&& p.mm_supv_to_user_buffer_size == le64(s, 120) as u64
            &&& p.mm_supv_gdt_buffer == le64(s, 128) as u64
            &&& p.mm_supv_gdt_buffer_size == le64(s, 136) as u64
            &&& p.mm_supv_gdt_step_size == le64(s, 144) as u64
            &&& p.mm_initialized_buffer == le64(s, 152) as u64
            &&& p.mm_supv_firmware_policy_buffer == le64(s, 160) as u64
            &&& p.mm_supv_firmware_policy_buffer_size == le64(s, 168) as u64
            &&& p.mm_supv_memory_policy_buffer == le64(s, 176) as u64
            &&& p.mm_supv_memory_policy_buffer_size == le64(s, 184) as u64
            &&& p.mmi_entrypoint_size == le64(s, 192) as u64
            &&& p.bsp_mm_base_address == le64(s, 200) as u64
        }),
{
}

/// The communication buffers are those that are passed down.
pub proof fn law_comm_buffers(p: MmSupvPassDownHobData)
    ensures
        ({
            let c = CommBufferConfig::of(p);
            &&& c.supv_comm_buffer == p.mm_supv_comm_buffer
            &&& c.supv_comm_buffer_internal == p.mm_supv_comm_buffer_internal
            &&& c.supv_comm_buffer_size == p.mm_supv_comm_buffer_size
            &&& c.user_comm_buffer == p.mm_user_comm_buffer
            &&& c.user_comm_buffer_internal == p.mm_user_comm_buffer_internal
            &&& c.user_comm_buffer_size == p.mm_user_comm_buffer_size
            &&& c.status_buffer == p.mm_supv_status_buffer
            &&& c.supv_to_user_buffer == p.mm_supv_to_user_buffer
            &&& c.supv_to_user_buffer_size == p.mm_supv_to_user_buffer_size
        }),
{
}

/// The entry point of the user module is that of the first block that says that it is the
/// allocation of that module, and none is found only if no block says so.
pub proof fn law_user_module_lookup(hobs: Seq<Hob>, from: int)
    requires
        0 <= from,
    ensures
        match user_module_entry(hobs, from) {
            Some(entry) => exists|i: int|
                from <= i < hobs.len() && is_user_module(#[trigger] hobs[i]) && (hobs[i]
                    matches Hob::MemoryAllocationModule { entry_point, .. } && entry_point
                    == entry) && forall|j: int|
                    from <= j < i ==> !is_user_module(#[trigger] hobs[j]),
            None => forall|j: int| from <= j < hobs.len() ==> !is_user_module(#[trigger] hobs[j]),
        },
        forall|j: int|
            0 <= j < hobs.len() ==> (is_user_module(#[trigger] hobs[j]) <==> (hobs[j]
                matches Hob::MemoryAllocationModule { name, module_name, .. } && name
                == MM_SUPERVISOR_HOB_MEMORY_ALLOC_MODULE_GUID && module_name
                == MM_SUPERVISOR_USER_GUID)),
    decreases hobs.len() - from,
{
    if from < hobs.len() && !is_user_module(hobs[from]) {
        law_user_module_lookup(hobs, from + 1);
    }
}

/// The data that is passed down is that of the first block with its GUID, and none is found only
/// if no block has it. It has to be there and to be long enough.
pub proof fn law_pass_down_lookup(hobs: Seq<Hob>, from: int)
    requires
        0 <= from,
    ensures
        match pass_down_data(hobs, from) {
            Some(bytes) => exists|i: int|
                from <= i < hobs.len() && (#[trigger] hobs[i] matches Hob::GuidHob { name, data }
                    && name == MM_SUPV_PASS_DOWN_HOB_GUID && data@ == bytes) && forall|j: int|
                    from <= j < i ==> !is_pass_down(#[trigger] hobs[j]),
            None => forall|j: int| from <= j < hobs.len() ==> !is_pass_down(#[trigger] hobs[j]),
        },
        forall|j: int|
            0 <= j < hobs.len() ==> (is_pass_down(#[trigger] hobs[j]) <==> (hobs[j]
                matches Hob::GuidHob { name, .. } && name == MM_SUPV_PASS_DOWN_HOB_GUID)),
    decreases hobs.len() - from,
{
    if from < hobs.len() && !is_pass_down(hobs[from]) {
        law_pass_down_lookup(hobs, from + 1);
    }
}

/// The private data of the CPU module has fields of 64 bits, each behind the one before it; the
/// context of the processor stands among them.
pub proof fn law_cpu_private_layout(s: Seq<u8>)
    ensures
        ({
            let p = cpu_private_at(s);
            &&& p.signature == le64(s, 0) as u64
            &&& p.smm_cpu_handle == le64(s, 8) as u64
            &&& p.processor_info == le64(s, 0x10) as u64
            &&& p.cpu_save_state_size == le64(s, 0x18) as u64
            &&& p.cpu_save_state == le64(s, 0x20) as u64
            &&& p.smm_reserved_smram_region.smram_reserved_start == le64(s, 0x28) as u64
            &&& p.smm_reserved_smram_region.smram_reserved_size == le64(s, 0x30) as u64
            &&& p.smm_core_entry == le64(s, 0x60) as u64
            &&& p.smm_user_entry == le64(s, 0x68) as u64
            &&& p.ap_wrapper_func == le64(s, 0x70) as u64
            &&& p.token_list == le64(s, 0x78) as u64
            &&& p.first_free_token == le64(s, 0x80) as u64
            &&& p.smm_core_entry_context == entry_context_at(s, 0x38)
        }),
{
}

/// The pass-down data is read if and only if there is a list with a block of it that is long
/// enough; else the error says what is missing.
pub proof fn law_pass_down_decision(hob_list: Option<&Vec<Hob>>)
    ensures
        match pass_down_of(hob_list) {
            Err(PolicyInitError::NullHobList) => hob_list is None,
            Err(PolicyInitError::PassDownHobNotFound) => hob_list is Some && forall|j: int|
                0 <= j < hob_list->0@.len() ==> !is_pass_down(#[trigger] hob_list->0@[j]),
            Err(e) => e is InvalidPolicyData && hob_list is Some && (pass_down_data(
                hob_list->0@,
                0,
            ) matches Some(bytes) && bytes.len() < MmSupvPassDownHobData::SIZE),
            Ok(data) => hob_list is Some && (pass_down_data(hob_list->0@, 0) matches Some(bytes)
                && bytes.len() >= MmSupvPassDownHobData::SIZE && data == pass_down_at(bytes)),
        },
{
    if hob_list is Some {
        law_pass_down_lookup(hob_list->0@, 0);
    }
}

/// Without pass-down data there are no buffers.
pub proof fn law_no_buffers()
    ensures
        ({
            let none = CommBufferConfig::none();
            &&& none.supv_comm_buffer == 0 && none.supv_comm_buffer_internal == 0
            &&& none.supv_comm_buffer_size == 0
            &&& none.user_comm_buffer == 0 && none.user_comm_buffer_internal == 0
            &&& none.user_comm_buffer_size == 0
            &&& none.status_buffer == 0
            &&& none.supv_to_user_buffer == 0 && none.supv_to_user_buffer_size == 0
        }),
{
}

} // verus!
