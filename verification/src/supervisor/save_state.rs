//! Save state reads for the syscall dispatcher, in two phases.
//!
//! The first phase (`SaveStateRead`) stores the requested register and CPU index. The second
//! phase (`SaveStateRead2`) validates the request against the security policy, reads the
//! register value from the CPU's save state, and says what goes into the caller's buffer.
//!
//! - The buffer has to be owned by the user.
//! - RAX and IO are checked against the policy.
//! - The processor ID is always allowed, and so are the other registers.

use crate::bytes::{le16, le32, le64, read_u16, read_u32, read_u64, write_u32, write_u64};
use crate::efi::{
    Status, EFI_ACCESS_DENIED, EFI_INVALID_PARAMETER, EFI_NOT_READY, EFI_SUCCESS, EFI_UNSUPPORTED,
};
use crate::policy::gate::{save_state_verdict, PolicyGate};
use crate::policy::types::{SaveStateCondition, SaveStateField};
use crate::save_state::{
    info_within, IoTrap, MmSaveStateRegister, RegisterInfo, SaveStateLayout, IA32_EFER_LMA,
    IO_INFO_SIZE, IO_TYPE_INPUT, LMA_32BIT, LMA_64BIT,
};
use crate::supervisor::page_table::PageOwnership;
use crate::supervisor::pass_down::SmmCpuPrivateData;
use crate::supervisor::privilege_mgmt::syscall_dispatcher::SyscallResult;
use vstd::prelude::*;

verus! {

/// The policy-gated field that a register maps to, if any: only RAX and IO are subject to the
/// policy.
pub open spec fn policy_field(register: MmSaveStateRegister) -> Option<SaveStateField> {
    match register {
        MmSaveStateRegister::Rax => Some(SaveStateField::Rax),
        MmSaveStateRegister::Io => Some(SaveStateField::IoTrap),
        _ => None,
    }
}

/// Maps a save state register to a policy-gated field, if any.
pub fn to_policy_field(register: MmSaveStateRegister) -> (r: Option<SaveStateField>)
    ensures
        r == policy_field(register),
{
    match register {
        MmSaveStateRegister::Rax => Some(SaveStateField::Rax),
        MmSaveStateRegister::Io => Some(SaveStateField::IoTrap),
        _ => None,
    }
}

/// Holds the parameters from the first phase until the second completes the read.
#[derive(Debug, Clone, Copy, PartialEq, Eq, Structural)]
pub struct SaveStateAccessHolder {
    /// User protocol pointer (must match across both phases).
    pub user_protocol: u64,
    /// Register to read.
    pub register: MmSaveStateRegister,
    /// CPU index to read from.
    pub cpu_index: u64,
}

// ============================================================================
// CPU private data
// ============================================================================

/// The number of CPUs, if the private data of the SMM CPU module is known.
pub open spec fn cpu_count(private: Option<SmmCpuPrivateData>) -> Result<u64, Status> {
    match private {
        Some(data) => Ok(data.smm_core_entry_context.number_of_cpus),
        None => Err(EFI_NOT_READY),
    }
}

/// Returns the number of CPUs from the private data of the SMM CPU module.
pub fn get_number_of_cpus(private: Option<SmmCpuPrivateData>) -> (r: Result<u64, Status>)
    ensures
        r == cpu_count(private),
{
    match private {
        Some(data) => Ok(data.smm_core_entry_context.number_of_cpus),
        None => Err(EFI_NOT_READY),
    }
}

/// Where the pointer to the save state of a CPU is stored: in an array of 64-bit pointers.
pub fn save_state_pointer_address(private: Option<SmmCpuPrivateData>, cpu_index: u64) -> (r: Result<
    u64,
    Status,
>)
    requires
        private matches Some(data) ==> data.cpu_save_state + cpu_index * 8 <= u64::MAX,
    ensures
        r == match private {
            Some(data) => if data.cpu_save_state == 0 {
                Err::<u64, Status>(EFI_NOT_READY)
            } else {
                Ok((data.cpu_save_state + cpu_index * 8) as u64)
            },
            None => Err(EFI_NOT_READY),
        },
{
    match private {
        Some(data) => {
            if data.cpu_save_state == 0 {
                return Err(EFI_NOT_READY);
            }
            Ok(data.cpu_save_state + cpu_index * 8)
        },
        None => Err(EFI_NOT_READY),
    }
}

/// Returns the base of the save state of a CPU, from the pointer that is stored for it.
pub fn get_save_state_base(pointer: u64) -> (r: Result<u64, Status>)
    ensures
        r == if pointer == 0 {
            Err::<u64, Status>(EFI_INVALID_PARAMETER)
        } else {
            Ok(pointer)
        },
{
    if pointer == 0 {
        Err(EFI_INVALID_PARAMETER)
    } else {
        Ok(pointer)
    }
}

/// Where the processor ID of a CPU is stored: in the first field of its entry in the array of
/// processor information, whose entries have `entry_size` bytes.
pub fn processor_id_address(
    private: Option<SmmCpuPrivateData>,
    cpu_index: u64,
    entry_size: u64,
) -> (r: Result<u64, Status>)
    requires
        private matches Some(data) ==> data.processor_info + cpu_index * entry_size <= u64::MAX,
    ensures
        r == match private {
            Some(data) => if data.processor_info == 0 {
                Err::<u64, Status>(EFI_NOT_READY)
            } else {
                Ok((data.processor_info + cpu_index * entry_size) as u64)
            },
            None => Err(EFI_NOT_READY),
        },
{
    match private {
        Some(data) => {
            if data.processor_info == 0 {
                return Err(EFI_NOT_READY);
            }
            assert(cpu_index * entry_size >= 0) by (nonlinear_arith);
            Ok(data.processor_info + cpu_index * entry_size)
        },
        None => Err(EFI_NOT_READY),
    }
}

// ============================================================================
// First phase
// ============================================================================

/// The status of a first phase.
pub open spec fn phase1_status(
    register_raw: u64,
    cpu_index: u64,
    private: Option<SmmCpuPrivateData>,
) -> Status {
    if !MmSaveStateRegister::is_number(register_raw) {
        EFI_INVALID_PARAMETER
    } else {
        match cpu_count(private) {
            Err(status) => status,
            Ok(count) => if cpu_index >= count {
                EFI_INVALID_PARAMETER
            } else {
                EFI_SUCCESS
            },
        }
    }
}

/// Processes the first phase of the save state read syscall: validates and stores the register
/// and CPU index for the second. A request that is refused leaves what was stored before.
pub fn save_state_read_phase1(
    access: &mut Option<SaveStateAccessHolder>,
    protocol: u64,
    register_raw: u64,
    cpu_index: u64,
    private: Option<SmmCpuPrivateData>,
) -> (r: SyscallResult)
    ensures
        r == (SyscallResult { value: 0, status: phase1_status(register_raw, cpu_index, private) }),
        if r.status == EFI_SUCCESS {
            &&& *final(access) matches Some(holder)
            &&& holder.user_protocol == protocol
            &&& holder.register.number() == register_raw
            &&& holder.cpu_index == cpu_index
        } else {
            *final(access) == *old(access)
        },
{
    let register = match MmSaveStateRegister::from_u64(register_raw) {
        Some(register) => register,
        None => {
            return SyscallResult::error(EFI_INVALID_PARAMETER);
        },
    };
    proof {
        lemma_register_number(register);
    }
    let num_cpus: u64 = match get_number_of_cpus(private) {
        Ok(n) => n,
        Err(status) => {
            return SyscallResult::error(status);
        },
    };
    if cpu_index >= num_cpus {
        return SyscallResult::error(EFI_INVALID_PARAMETER);
    }
    *access = Some(SaveStateAccessHolder { user_protocol: protocol, register, cpu_index });
    SyscallResult::success(0)
}

proof fn lemma_register_number(register: MmSaveStateRegister)
    ensures
        MmSaveStateRegister::is_number(register.number()),
{
}

// ============================================================================
// Second phase
// ============================================================================

/// How many bytes a read of `width` bytes writes, 0 if the width is not supported.
pub open spec fn write_size(
    layout: &SaveStateLayout,
    register: MmSaveStateRegister,
    width: u64,
) -> int {
    match register {
        MmSaveStateRegister::Io => IO_INFO_SIZE as int,
        MmSaveStateRegister::ProcessorId => 8,
        MmSaveStateRegister::Lma => if width == 4 || width == 8 {
            width as int
        } else {
            0
        },
        _ => match layout.info(register) {
            Some(info) => if width_supported(info, width) {
                width as int
            } else {
                0
            },
            None => 0,
        },
    }
}

/// A register can be read with this width: its low 2 or 4 bytes, or its 8 bytes.
pub open spec fn width_supported(info: RegisterInfo, width: u64) -> bool {
    ||| width == 2 && info.native_width >= 2
    ||| width == 4 && info.native_width >= 4
    ||| width == 8 && info.native_width == 8
}

/// Determines how many bytes will be written to the user buffer, 0 if the width is not
/// supported for the register.
pub fn actual_write_size(
    layout: &SaveStateLayout,
    register: MmSaveStateRegister,
    width: u64,
) -> (r: usize)
    ensures
        r == write_size(layout, register, width),
{
    match register {
        MmSaveStateRegister::Io => IO_INFO_SIZE,
        MmSaveStateRegister::ProcessorId => 8,
        MmSaveStateRegister::Lma => {
            if width == 4 || width == 8 {
                width as usize
            } else {
                0
            }
        },
        _ => {
            match layout.register_info(register) {
                Some(info) => {
                    if width == 2 && info.native_width >= 2 {
                        2
                    } else if width == 4 && info.native_width >= 4 {
                        4
                    } else if width == 8 && info.native_width == 8 {
                        8
                    } else {
                        0
                    }
                },
                None => 0,
            }
        },
    }
}

/// A read that has passed the checks of its parameters.
#[derive(Debug, Clone, Copy, PartialEq, Eq, Structural)]
pub struct SaveStateRequest {
    /// Register to read.
    pub register: MmSaveStateRegister,
    /// CPU index to read from.
    pub cpu_index: u64,
    /// Width of the read in bytes.
    pub width: u64,
    /// User buffer to receive the value.
    pub buffer: u64,
    /// How many bytes will be written to the buffer.
    pub write_size: usize,
}

/// What the parameters of a second phase lead to, given what the first has stored.
pub open spec fn phase2_request(
    access: Option<SaveStateAccessHolder>,
    layout: &SaveStateLayout,
    protocol: u64,
    width: u64,
    buffer: u64,
) -> Result<SaveStateRequest, Status> {
    match access {
        None => Err(EFI_INVALID_PARAMETER),
        Some(holder) => if holder.user_protocol != protocol || width == 0 || buffer == 0 {
            Err(EFI_INVALID_PARAMETER)
        } else if write_size(layout, holder.register, width) == 0 {
            Err(EFI_UNSUPPORTED)
        } else {
            Ok(
                SaveStateRequest {
                    register: holder.register,
                    cpu_index: holder.cpu_index,
                    width,
                    buffer,
                    write_size: write_size(layout, holder.register, width) as usize,
                },
            )
        },
    }
}

/// Processes the second phase of the save state read syscall: consumes what the first has
/// stored, whatever the outcome, and checks the parameters. The read is completed by
/// [`complete_save_state_read`], when the owner of the buffer is known.
pub fn save_state_read_phase2(
    access: &mut Option<SaveStateAccessHolder>,
    layout: &SaveStateLayout,
    protocol: u64,
    width: u64,
    buffer: u64,
) -> (r: Result<SaveStateRequest, SyscallResult>)
    ensures
        *final(access) is None,
        match phase2_request(*old(access), layout, protocol, width, buffer) {
            Ok(request) => r == Ok::<SaveStateRequest, SyscallResult>(request),
            Err(status) => r == Err::<SaveStateRequest, SyscallResult>(
                SyscallResult { value: 0, status },
            ),
        },
{
    let taken = *access;
    *access = None;
    let holder = match taken {
        Some(holder) => holder,
        None => {
            return Err(SyscallResult::error(EFI_INVALID_PARAMETER));
        },
    };
    if holder.user_protocol != protocol {
        return Err(SyscallResult::error(EFI_INVALID_PARAMETER));
    }
    if width == 0 || buffer == 0 {
        return Err(SyscallResult::error(EFI_INVALID_PARAMETER));
    }
    let size: usize = actual_write_size(layout, holder.register, width);
    if size == 0 {
        return Err(SyscallResult::error(EFI_UNSUPPORTED));
    }
    Ok(
        SaveStateRequest {
            register: holder.register,
            cpu_index: holder.cpu_index,
            width,
            buffer,
            write_size: size,
        },
    )
}

/// What is known of the CPU that is read from.
#[derive(Debug)]
pub struct CpuSaveState {
    /// The processor ID, or why it cannot be read.
    pub processor_id: Result<u64, Status>,
    /// The save state, or why it cannot be read.
    pub save_state: Result<Vec<u8>, Status>,
    /// The trapped I/O instruction that the save state describes, if it does.
    pub io_trap: Option<IoTrap>,
}

impl CpuSaveState {
    /// The save state, where there is one, has room for the layout.
    pub open spec fn holds(&self, layout: &SaveStateLayout) -> bool {
        self.save_state matches Ok(bytes) ==> layout.within(bytes@.len() as int)
    }

    /// The condition under which the save state is read: whether the trapped instruction was
    /// an input or an output. It counts as an output if it is not described; and nothing is
    /// known where the save state has no information about I/O instructions.
    pub open spec fn condition(&self, layout: &SaveStateLayout) -> Option<SaveStateCondition> {
        match self.save_state {
            Err(_) => None,
            Ok(bytes) => if layout.revision(bytes@) < layout.min_rev_id_io {
                None
            } else if self.io_trap matches Some(trap) && trap.io_type == IO_TYPE_INPUT {
                Some(SaveStateCondition::IoRead)
            } else {
                Some(SaveStateCondition::IoWrite)
            },
        }
    }

    /// Inspects the I/O condition (IN or OUT) for policy checking.
    pub fn inspect_io_condition(&self, layout: &SaveStateLayout) -> (r: Option<SaveStateCondition>)
        requires
            self.holds(layout),
        ensures
            r == self.condition(layout),
    {
        match &self.save_state {
            Err(_) => None,
            Ok(bytes) => {
                if layout.read_revision(bytes.as_slice()) < layout.min_rev_id_io {
                    return None;
                }
                match self.io_trap {
                    Some(trap) => {
                        if trap.io_type == IO_TYPE_INPUT {
                            Some(SaveStateCondition::IoRead)
                        } else {
                            Some(SaveStateCondition::IoWrite)
                        }
                    },
                    None => Some(SaveStateCondition::IoWrite),
                }
            },
        }
    }
}

/// What a read of an architectural register gives: the low bytes of the register, or its low
/// and its high half.
pub open spec fn register_bytes(save_state: Seq<u8>, info: RegisterInfo, width: u64) -> Seq<u8> {
    if width == 8 {
        save_state.subrange(info.lo_offset as int, info.lo_offset + 4) + save_state.subrange(
            info.hi_offset as int,
            info.hi_offset + 4,
        )
    } else {
        save_state.subrange(info.lo_offset as int, info.lo_offset + width)
    }
}

/// The answer to a read of an architectural register.
pub open spec fn register_answer(
    save_state: Seq<u8>,
    info: Option<RegisterInfo>,
    width: u64,
) -> Result<Seq<u8>, Status> {
    match info {
        None => Err(EFI_UNSUPPORTED),
        Some(info) => if width != 2 && width != 4 && width != 8 {
            Err(EFI_INVALID_PARAMETER)
        } else if !width_supported(info, width) {
            Err(EFI_UNSUPPORTED)
        } else {
            Ok(register_bytes(save_state, info, width))
        },
    }
}

/// Copies `n` bytes at `at`.
fn copy_bytes(from: &[u8], at: usize, n: usize, to: &mut Vec<u8>)
    requires
        at + n <= from.len(),
    ensures
        final(to)@ == old(to)@ + from@.subrange(at as int, at + n),
{
    let ghost before = to@;
    let mut i: usize = 0;
    assert(to@ =~= before + from@.subrange(at as int, at as int));
    while i < n
        invariant
            i <= n,
            at + n <= from.len(),
            to@ == before + from@.subrange(at as int, at + i),
        decreases n - i,
    {
        to.push(from[at + i]);
        i = i + 1;
        assert(to@ =~= before + from@.subrange(at as int, at + i));
    }
}

/// Reads an architectural register from the save state.
pub fn read_architectural_register(
    save_state: &[u8],
    layout: &SaveStateLayout,
    register: MmSaveStateRegister,
    width: u64,
) -> (r: Result<Vec<u8>, Status>)
    requires
        layout.within(save_state.len() as int),
    ensures
        match register_answer(save_state@, layout.info(register), width) {
            Ok(bytes) => r matches Ok(v) && v@ == bytes,
            Err(status) => r matches Err(e) && e == status,
        },
{
    let info = match layout.register_info(register) {
        Some(info) => info,
        None => {
            return Err(EFI_UNSUPPORTED);
        },
    };
    assert(info_within(info, save_state.len() as int));
    let mut bytes: Vec<u8> = Vec::new();
    if width == 2 {
        if info.native_width < 2 {
            return Err(EFI_UNSUPPORTED);
        }
        copy_bytes(save_state, info.lo_offset as usize, 2, &mut bytes);
        assert(bytes@ =~= register_bytes(save_state@, info, width));
    } else if width == 4 {
        if info.native_width < 4 {
            return Err(EFI_UNSUPPORTED);
        }
        copy_bytes(save_state, info.lo_offset as usize, 4, &mut bytes);
        assert(bytes@ =~= register_bytes(save_state@, info, width));
    } else if width == 8 {
        if info.native_width != 8 {
            return Err(EFI_UNSUPPORTED);
        }
        copy_bytes(save_state, info.lo_offset as usize, 4, &mut bytes);
        copy_bytes(save_state, info.hi_offset as usize, 4, &mut bytes);
        assert(bytes@ =~= register_bytes(save_state@, info, width));
    } else {
        return Err(EFI_INVALID_PARAMETER);
    }
    Ok(bytes)
}

/// Information about the I/O instruction that triggered the interrupt.
#[derive(Debug, Clone, Copy, PartialEq, Eq, Structural)]
pub struct MmSaveStateIoInfo {
    /// The data of an output.
    pub io_data: u64,
    /// The port.
    pub io_port: u64,
    /// The width of the access.
    pub io_width: u32,
    /// The type of the access.
    pub io_type: u32,
}

/// The I/O information in its bytes.
pub open spec fn io_info_at(s: Seq<u8>) -> MmSaveStateIoInfo {
    MmSaveStateIoInfo {
        io_data: le64(s, 0) as u64,
        io_port: le64(s, 8) as u64,
        io_width: le32(s, 16) as u32,
        io_type: le32(s, 20) as u32,
    }
}

/// The significant bytes of RAX for an access of 1, 2 or 4 bytes, and 0 for another.
pub open spec fn io_data(save_state: Seq<u8>, rax: int, byte_count: u32) -> int {
    if byte_count == 1 {
        save_state[rax] as int
    } else if byte_count == 2 {
        le16(save_state, rax)
    } else if byte_count == 4 {
        le32(save_state, rax)
    } else {
        0
    }
}

/// The answer to a read of the IO pseudo-register.
pub open spec fn io_answer(
    save_state: Seq<u8>,
    layout: &SaveStateLayout,
    trap: Option<IoTrap>,
) -> Result<MmSaveStateIoInfo, Status> {
    if layout.revision(save_state) < layout.min_rev_id_io {
        Err(EFI_UNSUPPORTED)
    } else {
        match trap {
            None => Err(EFI_UNSUPPORTED),
            Some(trap) => Ok(
                MmSaveStateIoInfo {
                    io_data: io_data(save_state, layout.rax_offset as int, trap.byte_count) as u64,
                    io_port: trap.io_port as u64,
                    io_width: trap.io_width,
                    io_type: trap.io_type,
                },
            ),
        }
    }
}

/// Reads the IO pseudo-register: the port, width and direction of the trapped instruction, and
/// its data from RAX.
pub fn read_io_register(
    save_state: &[u8],
    layout: &SaveStateLayout,
    trap: Option<IoTrap>,
) -> (r: Result<Vec<u8>, Status>)
    requires
        layout.within(save_state.len() as int),
    ensures
        match io_answer(save_state@, layout, trap) {
            Ok(info) => r matches Ok(v) && v@.len() == IO_INFO_SIZE && io_info_at(v@) == info,
            Err(status) => r matches Err(e) && e == status,
        },
{
    if layout.read_revision(save_state) < layout.min_rev_id_io {
        return Err(EFI_UNSUPPORTED);
    }
    let trap = match trap {
        Some(trap) => trap,
        None => {
            return Err(EFI_UNSUPPORTED);
        },
    };
    let rax: usize = layout.rax_offset as usize;
    let data: u64 = if trap.byte_count == 1 {
        save_state[rax] as u64
    } else if trap.byte_count == 2 {
        read_u16(save_state, rax) as u64
    } else if trap.byte_count == 4 {
        read_u32(save_state, rax) as u64
    } else {
        0
    };
    let mut bytes: Vec<u8> = vec![0; IO_INFO_SIZE];
    write_u64(&mut bytes, 0, data);
    write_u64(&mut bytes, 8, trap.io_port as u64);
    write_u32(&mut bytes, 16, trap.io_width);
    write_u32(&mut bytes, 20, trap.io_type);
    Ok(bytes)
}

/// The mode of the processor: 32 or 64 bits, by the long mode active bit.
pub open spec fn lma_value(save_state: Seq<u8>, layout: &SaveStateLayout) -> u64 {
    if layout.lma_always_64 || (le64(save_state, layout.efer_offset as int) as u64) & IA32_EFER_LMA
        != 0 {
        LMA_64BIT
    } else {
        LMA_32BIT
    }
}

/// Reads the LMA pseudo-register (processor long mode active state).
pub fn read_lma_register(save_state: &[u8], layout: &SaveStateLayout, width: u64) -> (r: Result<
    Vec<u8>,
    Status,
>)
    requires
        layout.within(save_state.len() as int),
    ensures
        match r {
            Ok(v) => {
                ||| width == 4 && v@.len() == 4 && le32(v@, 0) == lma_value(save_state@, layout)
                ||| width == 8 && v@.len() == 8 && le64(v@, 0) == lma_value(save_state@, layout)
            },
            Err(status) => width != 4 && width != 8 && status == EFI_INVALID_PARAMETER,
        },
{
    let value: u64 = if layout.lma_always_64 {
        LMA_64BIT
    } else {
        let efer: u64 = read_u64(save_state, layout.efer_offset as usize);
        if (efer & IA32_EFER_LMA) != 0 {
            LMA_64BIT
        } else {
            LMA_32BIT
        }
    };
    if width == 4 {
        let mut bytes: Vec<u8> = vec![0; 4];
        write_u32(&mut bytes, 0, value as u32);
        Ok(bytes)
    } else if width == 8 {
        let mut bytes: Vec<u8> = vec![0; 8];
        write_u64(&mut bytes, 0, value);
        Ok(bytes)
    } else {
        Err(EFI_INVALID_PARAMETER)
    }
}

/// The status of a read that has passed the checks of its parameters, given the owner of the
/// buffer and the policy block, if there is a policy.
pub open spec fn read_status(
    request: SaveStateRequest,
    layout: &SaveStateLayout,
    cpu: &CpuSaveState,
    owner: Option<PageOwnership>,
    policy: Option<Seq<u8>>,
) -> Status {
    if owner != Some(PageOwnership::User) {
        EFI_ACCESS_DENIED
    } else if request.register == MmSaveStateRegister::ProcessorId {
        match cpu.processor_id {
            Ok(_) => EFI_SUCCESS,
            Err(status) => status,
        }
    } else if policy_field(request.register) is Some && policy is None {
        EFI_NOT_READY
    } else if policy_field(request.register) is Some && save_state_verdict(
        policy->0,
        policy_field(request.register)->0,
        cpu.condition(layout),
    ) is Err {
        EFI_ACCESS_DENIED
    } else {
        match cpu.save_state {
            Err(status) => status,
            Ok(bytes) => match request.register {
                MmSaveStateRegister::Io => match io_answer(bytes@, layout, cpu.io_trap) {
                    Ok(_) => EFI_SUCCESS,
                    Err(status) => status,
                },
                MmSaveStateRegister::Lma => if request.width == 4 || request.width == 8 {
                    EFI_SUCCESS
                } else {
                    EFI_INVALID_PARAMETER
                },
                register => match register_answer(bytes@, layout.info(register), request.width) {
                    Ok(_) => EFI_SUCCESS,
                    Err(status) => status,
                },
            },
        }
    }
}

/// `data` is what a successful read gives.
pub open spec fn is_read_data(
    request: SaveStateRequest,
    layout: &SaveStateLayout,
    cpu: &CpuSaveState,
    data: Seq<u8>,
) -> bool {
    if request.register == MmSaveStateRegister::ProcessorId {
        data.len() == 8 && le64(data, 0) == cpu.processor_id->Ok_0
    } else {
        let save_state = cpu.save_state->Ok_0@;
        match request.register {
            MmSaveStateRegister::Io => {
                &&& data.len() == IO_INFO_SIZE
                &&& Ok::<MmSaveStateIoInfo, Status>(io_info_at(data)) == io_answer(
                    save_state,
                    layout,
                    cpu.io_trap,
                )
            },
            MmSaveStateRegister::Lma => {
                &&& data.len() == request.width
                &&& if request.width == 4 {
                    le32(data, 0) == lma_value(save_state, layout)
                } else {
                    le64(data, 0) == lma_value(save_state, layout)
                }
            },
            register => Ok::<Seq<u8>, Status>(data) == register_answer(
                save_state,
                layout.info(register),
                request.width,
            ),
        }
    }
}

/// What a completed read gives: the result of the syscall, and the bytes that go into the
/// buffer.
#[derive(Debug)]
pub struct SaveStateReply {
    /// The result of the syscall.
    pub result: SyscallResult,
    /// What is to be written to the buffer.
    pub data: Option<Vec<u8>>,
}

/// A reply with data, or with the status of an error.
fn reply(answer: Result<Vec<u8>, Status>) -> (r: SaveStateReply)
    requires
        answer matches Err(status) ==> status != EFI_SUCCESS,
    ensures
        match answer {
            Ok(bytes) => r.result == (SyscallResult { value: 0, status: EFI_SUCCESS }) && r.data
                == Some(bytes),
            Err(status) => r.result == (SyscallResult { value: 0, status }) && r.data is None,
        },
{
    match answer {
        Ok(bytes) => SaveStateReply { result: SyscallResult::success(0), data: Some(bytes) },
        Err(status) => SaveStateReply { result: SyscallResult::error(status), data: None },
    }
}

/// Completes a read: checks the owner of the buffer and the policy, and reads the register.
pub fn complete_save_state_read(
    request: &SaveStateRequest,
    layout: &SaveStateLayout,
    cpu: &CpuSaveState,
    owner: Option<PageOwnership>,
    gate: Option<&PolicyGate>,
) -> (r: SaveStateReply)
    requires
        cpu.holds(layout),
        cpu.processor_id matches Err(status) ==> status != EFI_SUCCESS,
        cpu.save_state matches Err(status) ==> status != EFI_SUCCESS,
    ensures
        ({
            let policy = match gate {
                Some(gate) => Some(gate.block()),
                None => None,
            };
            r.result == SyscallResult {
                value: 0,
                status: read_status(*request, layout, cpu, owner, policy),
            }
        }),
        match r.data {
            Some(data) => r.result.status == EFI_SUCCESS && is_read_data(
                *request,
                layout,
                cpu,
                data@,
            ),
            None => r.result.status != EFI_SUCCESS,
        },
{
    match owner {
        Some(PageOwnership::User) => {},
        _ => {
            return reply(Err(EFI_ACCESS_DENIED));
        },
    }
    let register = request.register;
    if register == MmSaveStateRegister::ProcessorId {
        match cpu.processor_id {
            Ok(id) => {
                let mut bytes: Vec<u8> = vec![0; 8];
                write_u64(&mut bytes, 0, id);
                return reply(Ok(bytes));
            },
            Err(status) => {
                return reply(Err(status));
            },
        }
    }
    match to_policy_field(register) {
        Some(field) => {
            let condition = cpu.inspect_io_condition(layout);
            match gate {
                None => {
                    return reply(Err(EFI_NOT_READY));
                },
                Some(gate) => {
                    match gate.is_save_state_read_allowed(
                        field,
                        request.width as usize,
                        condition,
                    ) {
                        Ok(()) => {},
                        Err(_) => {
                            return reply(Err(EFI_ACCESS_DENIED));
                        },
                    }
                },
            }
        },
        None => {},
    }
    match &cpu.save_state {
        Err(status) => reply(Err(*status)),
        Ok(bytes) => {
            let save_state = bytes.as_slice();
            match register {
                MmSaveStateRegister::Io => reply(
                    read_io_register(save_state, layout, cpu.io_trap),
                ),
                MmSaveStateRegister::Lma => reply(
                    read_lma_register(save_state, layout, request.width),
                ),
                _ => reply(
                    read_architectural_register(save_state, layout, register, request.width),
                ),
            }
        },
    }
}

// ============================================================================
// Laws
// ============================================================================

/// The second phase works once: without another first phase it is refused.
pub proof fn law_second_phase_consumes(
    layout: &SaveStateLayout,
    protocol: u64,
    width: u64,
    buffer: u64,
)
    ensures
        phase2_request(None, layout, protocol, width, buffer) == Err::<SaveStateRequest, Status>(
            EFI_INVALID_PARAMETER,
        ),
{
}

/// A second phase goes on with the register and the CPU of the first, under the same protocol.
pub proof fn law_phases_agree(
    holder: SaveStateAccessHolder,
    layout: &SaveStateLayout,
    protocol: u64,
    width: u64,
    buffer: u64,
)
    ensures
        phase2_request(Some(holder), layout, protocol, width, buffer) matches Ok(request) ==> {
            &&& holder.user_protocol == protocol
            &&& request.register == holder.register
            &&& request.cpu_index == holder.cpu_index
            &&& request.buffer == buffer
        },
{
}

/// No read succeeds into a buffer that the user does not own, and none of RAX or IO succeeds
/// without a policy that allows it.
pub proof fn law_reads_are_guarded(
    request: SaveStateRequest,
    layout: &SaveStateLayout,
    cpu: &CpuSaveState,
    owner: Option<PageOwnership>,
    policy: Option<Seq<u8>>,
)
    requires
        read_status(request, layout, cpu, owner, policy) == EFI_SUCCESS,
        cpu.save_state matches Err(status) ==> status != EFI_SUCCESS,
    ensures
        owner == Some(PageOwnership::User),
        policy_field(request.register) matches Some(field) ==> {
            &&& policy is Some
            &&& save_state_verdict(policy->0, field, cpu.condition(layout)) is Ok
        },
{
}

/// A successful read writes as many bytes as the buffer was checked for.
pub proof fn law_read_fits_checked_buffer(
    access: Option<SaveStateAccessHolder>,
    layout: &SaveStateLayout,
    protocol: u64,
    width: u64,
    buffer: u64,
    cpu: &CpuSaveState,
    owner: Option<PageOwnership>,
    policy: Option<Seq<u8>>,
    data: Seq<u8>,
)
    requires
        cpu.holds(layout),
        cpu.save_state matches Err(status) ==> status != EFI_SUCCESS,
        phase2_request(access, layout, protocol, width, buffer) is Ok,
        ({
            let request = phase2_request(access, layout, protocol, width, buffer)->Ok_0;
            &&& read_status(request, layout, cpu, owner, policy) == EFI_SUCCESS
            &&& is_read_data(request, layout, cpu, data)
        }),
    ensures
        data.len() == phase2_request(access, layout, protocol, width, buffer)->Ok_0.write_size,
{
    let request = phase2_request(access, layout, protocol, width, buffer)->Ok_0;
    let register = request.register;
    if register != MmSaveStateRegister::ProcessorId && register != MmSaveStateRegister::Io
        && register != MmSaveStateRegister::Lma {
        lemma_info_within(layout, register, 0, cpu.save_state->Ok_0@.len() as int);
    }
}

proof fn lemma_info_within(
    layout: &SaveStateLayout,
    register: MmSaveStateRegister,
    from: int,
    len: int,
)
    requires
        layout.within(len),
        0 <= from,
    ensures
        crate::save_state::info_of(layout.registers@, register, from) matches Some(info)
            ==> info_within(info, len),
    decreases layout.registers@.len() - from,
{
    if from < layout.registers@.len() && layout.registers@[from].register != register {
        lemma_info_within(layout, register, from + 1, len);
    }
}

/// A read of an architectural register gives its bytes, lowest first: the first four are those at
/// the offset of its low half, the other four those at the offset of its high half. It is granted
/// for 2 and 4 bytes if the register has as many, and for 8 if it has just these.
pub proof fn law_register_read(
    save_state: Seq<u8>,
    info: RegisterInfo,
    width: u64,
)
    requires
        info_within(info, save_state.len() as int),
    ensures
        register_answer(save_state, None, width) == Err::<Seq<u8>, Status>(EFI_UNSUPPORTED),
        match register_answer(save_state, Some(info), width) {
            Ok(data) => {
                &&& width == 2 || width == 4 || width == 8
                &&& width <= info.native_width
                &&& width == 8 ==> info.native_width == 8
                &&& data.len() == width
                &&& forall|k: int| 0 <= k < 4 && k < width ==> #[trigger] data[k] == save_state[
                info.lo_offset + k]
                &&& forall|k: int| 4 <= k < width ==> #[trigger] data[k] == save_state[
                info.hi_offset + (k - 4)]
            },
            Err(status) => if width == 2 || width == 4 || width == 8 {
                status == EFI_UNSUPPORTED && (info.native_width < width || width == 8
                    && info.native_width != 8)
            } else {
                status == EFI_INVALID_PARAMETER
            },
        },
{
}

/// A narrow read of a register gives the low bytes of a wide one: a read of 2 or 4 bytes is a
/// prefix of that of 8, and as a little-endian number what the wide one gives modulo the range of
/// the narrow one; and so is a read of 2 bytes of one of 4.
pub proof fn law_narrow_read_is_low_part(
    save_state: Seq<u8>,
    info: RegisterInfo,
    narrow: u64,
    wide: u64,
    low: Seq<u8>,
    all: Seq<u8>,
)
    requires
        info_within(info, save_state.len() as int),
        narrow < wide,
        register_answer(save_state, Some(info), narrow) == Ok::<Seq<u8>, Status>(low),
        register_answer(save_state, Some(info), wide) == Ok::<Seq<u8>, Status>(all),
    ensures
        low == all.take(narrow as int),
        narrow == 2 && wide == 4 ==> le16(low, 0) == le32(all, 0) % 0x1_0000,
        narrow == 2 && wide == 8 ==> le16(low, 0) == le64(all, 0) % 0x1_0000,
        narrow == 4 && wide == 8 ==> le32(low, 0) == le64(all, 0) % 0x1_0000_0000,
{
    law_register_read(save_state, info, narrow);
    law_register_read(save_state, info, wide);
    assert(low =~= all.take(narrow as int));
    assert(low[0] == all[0] && low[1] == all[1]);
    if narrow == 4 {
        assert(low[2] == all[2] && low[3] == all[3]);
    }
}

/// What a read of 8 bytes gives as a number: the high half of the register, shifted, and its low
/// half.
pub proof fn law_wide_read_joins_halves(
    save_state: Seq<u8>,
    info: RegisterInfo,
    data: Seq<u8>,
)
    requires
        info_within(info, save_state.len() as int),
        register_answer(save_state, Some(info), 8) == Ok::<Seq<u8>, Status>(data),
    ensures
        le64(data, 0) == le32(save_state, info.lo_offset as int) + 0x1_0000_0000 * le32(
            save_state,
            info.hi_offset as int,
        ),
{
    law_register_read(save_state, info, 8);
    assert(data[0] == save_state[info.lo_offset + 0]);
    assert(data[4] == save_state[info.hi_offset + 0]);
}

/// The data of a completed read is that of the register that was asked for, at the place that the
/// first entry of the layout for it gives, and of as many bytes as were asked for.
pub proof fn law_read_gives_its_register(
    request: SaveStateRequest,
    layout: &SaveStateLayout,
    cpu: &CpuSaveState,
    owner: Option<PageOwnership>,
    policy: Option<Seq<u8>>,
    data: Seq<u8>,
)
    requires
        cpu.holds(layout),
        cpu.save_state matches Err(status) ==> status != EFI_SUCCESS,
        request.register != MmSaveStateRegister::Io,
        request.register != MmSaveStateRegister::Lma,
        request.register != MmSaveStateRegister::ProcessorId,
        read_status(request, layout, cpu, owner, policy) == EFI_SUCCESS,
        is_read_data(request, layout, cpu, data),
    ensures
        cpu.save_state is Ok,
        data.len() == request.width,
        exists|i: int|
            0 <= i < layout.registers@.len() && (#[trigger] layout.registers@[i]).register
                == request.register && (forall|j: int|
                0 <= j < i ==> (#[trigger] layout.registers@[j]).register != request.register) && (
            forall|k: int|
                #![trigger data[k]]
                0 <= k < request.width ==> data[k] == cpu.save_state->Ok_0@[if k < 4 {
                    layout.registers@[i].info.lo_offset + k
                } else {
                    layout.registers@[i].info.hi_offset + (k - 4)
                }]),
{
    let save_state = cpu.save_state->Ok_0@;
    lemma_info_within(layout, request.register, 0, save_state.len() as int);
    lemma_info_is_first(layout.registers@, request.register, 0);
    let info = layout.info(request.register)->0;
    law_register_read(save_state, info, request.width);
    let i = choose|i: int|
        0 <= i < layout.registers@.len() && (#[trigger] layout.registers@[i]).register
            == request.register && layout.registers@[i].info == info && (forall|j: int|
            0 <= j < i ==> (#[trigger] layout.registers@[j]).register != request.register);
    assert(layout.registers@[i].info == info);
    assert forall|k: int| #![trigger data[k]] 0 <= k < request.width implies data[k] == save_state[
    if k < 4 {
        layout.registers@[i].info.lo_offset + k
    } else {
        layout.registers@[i].info.hi_offset + (k - 4)
    }] by {}
}

proof fn lemma_info_is_first(
    registers: Seq<crate::save_state::RegisterEntry>,
    register: MmSaveStateRegister,
    from: int,
)
    requires
        0 <= from,
    ensures
        crate::save_state::info_of(registers, register, from) matches Some(info) ==> exists|i: int|
            from <= i < registers.len() && (#[trigger] registers[i]).register == register
                && registers[i].info == info && forall|j: int|
                from <= j < i ==> (#[trigger] registers[j]).register != register,
    decreases registers.len() - from,
{
    if from < registers.len() {
        if registers[from].register == register {
            assert(registers[from].info == registers[from].info);
        } else {
            lemma_info_is_first(registers, register, from + 1);
        }
    }
}

/// What a read of a pseudo-register gives. The processor ID is the one that is known of the CPU.
/// The mode is 64 if the layout says that it always is, or if the long mode active bit of EFER is
/// set, and else 32. The I/O information has the port, width and type of the trapped instruction,
/// behind the 1, 2 or 4 low bytes of RAX that it accessed.
pub proof fn law_pseudo_register_reads(
    request: SaveStateRequest,
    layout: &SaveStateLayout,
    cpu: &CpuSaveState,
    owner: Option<PageOwnership>,
    policy: Option<Seq<u8>>,
    data: Seq<u8>,
)
    requires
        cpu.holds(layout),
        cpu.processor_id matches Err(status) ==> status != EFI_SUCCESS,
        cpu.save_state matches Err(status) ==> status != EFI_SUCCESS,
        read_status(request, layout, cpu, owner, policy) == EFI_SUCCESS,
        is_read_data(request, layout, cpu, data),
    ensures
        request.register == MmSaveStateRegister::ProcessorId ==> data.len() == 8
            && cpu.processor_id == Ok::<u64, Status>(le64(data, 0) as u64),
        request.register == MmSaveStateRegister::Lma ==> {
            let save_state = cpu.save_state->Ok_0@;
            let efer = le64(save_state, layout.efer_offset as int) as u64;
            let mode: int = if layout.lma_always_64 || efer & 0x400 != 0 {
                64
            } else {
                32
            };
            &&& request.width == 4 && data.len() == 4 && le32(data, 0) == mode || request.width == 8
                && data.len() == 8 && le64(data, 0) == mode
        },
        request.register == MmSaveStateRegister::Io ==> {
            let save_state = cpu.save_state->Ok_0@;
            let rax = layout.rax_offset as int;
            &&& cpu.io_trap matches Some(trap)
            &&& data.len() == 24
            &&& le32(save_state, layout.smmrevid_offset as int) >= layout.min_rev_id_io
            &&& le64(data, 8) as u64 == trap.io_port
            &&& le32(data, 16) as u32 == trap.io_width
            &&& le32(data, 20) as u32 == trap.io_type
            &&& trap.byte_count == 1 ==> le64(data, 0) as u64 == save_state[rax]
            &&& trap.byte_count == 2 ==> le64(data, 0) as u64 == le16(save_state, rax)
            &&& trap.byte_count == 4 ==> le64(data, 0) as u64 == le32(save_state, rax)
        },
{
}

/// Who may read what. Nothing is read into a buffer that the user does not own. The processor ID
/// is read without a policy. RAX and the I/O information are read only under a policy, and only if
/// it allows the read of that very field; the other registers are read whatever the policy is.
pub proof fn law_who_may_read(
    request: SaveStateRequest,
    layout: &SaveStateLayout,
    cpu: &CpuSaveState,
    owner: Option<PageOwnership>,
    policy: Option<Seq<u8>>,
    other: Option<Seq<u8>>,
)
    ensures
        owner != Some(PageOwnership::User) ==> read_status(request, layout, cpu, owner, policy)
            == EFI_ACCESS_DENIED,
        owner == Some(PageOwnership::User) ==> {
            let status = read_status(request, layout, cpu, owner, policy);
            let condition = cpu.condition(layout);
            &&& request.register == MmSaveStateRegister::ProcessorId ==> (match cpu.processor_id {
                Ok(_) => status == EFI_SUCCESS,
                Err(e) => status == e,
            })
            &&& request.register == MmSaveStateRegister::Rax || request.register
                == MmSaveStateRegister::Io ==> (policy is None ==> status == EFI_NOT_READY)
            &&& request.register == MmSaveStateRegister::Rax && policy is Some
                && save_state_verdict(policy->0, SaveStateField::Rax, condition) is Err ==> status
                == EFI_ACCESS_DENIED
            &&& request.register == MmSaveStateRegister::Io && policy is Some && save_state_verdict(
                policy->0,
                SaveStateField::IoTrap,
                condition,
            ) is Err ==> status == EFI_ACCESS_DENIED
            &&& request.register != MmSaveStateRegister::Rax && request.register
                != MmSaveStateRegister::Io ==> status == read_status(
                request,
                layout,
                cpu,
                owner,
                other,
            )
            &&& request.register == MmSaveStateRegister::Rax && policy is Some
                && save_state_verdict(policy->0, SaveStateField::Rax, condition) is Ok ==> (
            match cpu.save_state {
                Err(e) => status == e,
                Ok(bytes) => match register_answer(
                    bytes@,
                    layout.info(request.register),
                    request.width,
                ) {
                    Ok(_) => status == EFI_SUCCESS,
                    Err(e) => status == e,
                },
            })
            &&& request.register == MmSaveStateRegister::Io && policy is Some && save_state_verdict(
                policy->0,
                SaveStateField::IoTrap,
                condition,
            ) is Ok ==> (match cpu.save_state {
                Err(e) => status == e,
                Ok(bytes) => if le32(bytes@, layout.smmrevid_offset as int) < layout.min_rev_id_io
                    || cpu.io_trap is None {
                    status == EFI_UNSUPPORTED
                } else {
                    status == EFI_SUCCESS
                },
            })
        },
{
}

/// The condition that a read is checked under: none where the save state cannot be read or is too
/// old to describe I/O instructions; an I/O read where the trapped instruction was an input; and
/// else an I/O write.
pub proof fn law_read_condition(layout: &SaveStateLayout, cpu: &CpuSaveState)
    ensures
        cpu.save_state is Err ==> cpu.condition(layout) is None,
        cpu.save_state matches Ok(bytes) ==> {
            let old = le32(bytes@, layout.smmrevid_offset as int) < layout.min_rev_id_io;
            let input = cpu.io_trap matches Some(trap) && trap.io_type == 1;
            &&& old ==> cpu.condition(layout) is None
            &&& !old && input ==> cpu.condition(layout) == Some(SaveStateCondition::IoRead)
            &&& !old && !input ==> cpu.condition(layout) == Some(SaveStateCondition::IoWrite)
        },
{
}

/// A first phase is granted if and only if some register has the number and the CPU is one of
/// those that there are; without the private data it is not ready to say.
pub proof fn law_first_phase_decision(
    register: MmSaveStateRegister,
    register_raw: u64,
    cpu_index: u64,
    private: Option<SmmCpuPrivateData>,
)
    ensures
        register.number() == register_raw ==> phase1_status(register_raw, cpu_index, private)
            == match private {
            None => EFI_NOT_READY,
            Some(data) => if cpu_index < data.smm_core_entry_context.number_of_cpus {
                EFI_SUCCESS
            } else {
                EFI_INVALID_PARAMETER
            },
        },
        (forall|r: MmSaveStateRegister| #[trigger] r.number() != register_raw) ==> phase1_status(
            register_raw,
            cpu_index,
            private,
        ) == EFI_INVALID_PARAMETER,
{
    if MmSaveStateRegister::is_number(register_raw) {
        crate::save_state::law_every_number_is_a_register(register_raw);
    }
}

/// A second phase is granted if and only if a first one is stored, under the same protocol, there
/// is a buffer and a width, and the register can be read with that width; it then goes on with the
/// register and CPU of the first and with its own width and buffer.
pub proof fn law_second_phase_decision(
    access: Option<SaveStateAccessHolder>,
    layout: &SaveStateLayout,
    protocol: u64,
    width: u64,
    buffer: u64,
)
    ensures
        ({
            let r = phase2_request(access, layout, protocol, width, buffer);
            match access {
                None => r == Err::<SaveStateRequest, Status>(EFI_INVALID_PARAMETER),
                Some(holder) => if holder.user_protocol != protocol || width == 0 || buffer == 0 {
                    r == Err::<SaveStateRequest, Status>(EFI_INVALID_PARAMETER)
                } else {
                    match r {
                        Ok(request) => {
                            &&& request.register == holder.register
                            &&& request.cpu_index == holder.cpu_index
                            &&& request.width == width
                            &&& request.buffer == buffer
                            &&& request.write_size == write_size(layout, holder.register, width)
                            &&& request.write_size > 0
                        },
                        Err(status) => status == EFI_UNSUPPORTED && write_size(
                            layout,
                            holder.register,
                            width,
                        ) == 0,
                    }
                },
            }
        }),
{
}

/// How many bytes a read writes: those of the I/O information or of the processor ID, whatever
/// the width; and else as many as were asked for, if the register can be read with that width.
pub proof fn law_write_size(layout: &SaveStateLayout, register: MmSaveStateRegister, width: u64)
    ensures
        register == MmSaveStateRegister::Io ==> write_size(layout, register, width) == 24,
        register == MmSaveStateRegister::ProcessorId ==> write_size(layout, register, width) == 8,
        register == MmSaveStateRegister::Lma ==> write_size(layout, register, width) == (if width
            == 4 || width == 8 {
            width as int
        } else {
            0
        }),
        register != MmSaveStateRegister::Io && register != MmSaveStateRegister::ProcessorId
            && register != MmSaveStateRegister::Lma ==> {
            let size = write_size(layout, register, width);
            &&& size == 0 || size == width
            &&& size != 0 <==> (layout.info(register) matches Some(info) && (width == 2
                && info.native_width >= 2 || width == 4 && info.native_width >= 4 || width == 8
                && info.native_width == 8))
        },
{
}

} // verus!
