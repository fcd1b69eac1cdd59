//! Save state reads for the syscall dispatcher, one field at a time.
//!
//! One syscall reads exactly one raw field of a CPU's save state and writes its value, as a
//! little-endian 64-bit integer, into a user buffer. For an I/O trap that is the description
//! of the trapped instruction alone; its data the caller reads from RAX.
//!
//! - The buffer has to be owned by the user.
//! - RAX and the I/O trap are checked against the policy.
//! - The processor ID is always allowed.

use crate::bytes::{le32, le64, read_u32, read_u64, write_u64};
use crate::efi::{
    Status, EFI_ACCESS_DENIED, EFI_INVALID_PARAMETER, EFI_NOT_FOUND, EFI_NOT_READY,
};
use crate::policy::gate::{save_state_verdict, PolicyGate};
use crate::policy::types::{SaveStateCondition, SaveStateField};
use crate::save_state::{IoTrap, SaveStateLayout, IO_TYPE_INPUT};
use crate::supervisor::page_table::PageOwnership;
use vstd::prelude::*;

verus! {

/// Size in bytes of the save state of a CPU, from SMBASE + 0x7C00 to SMBASE + 0x8000 of the
/// relocated segment.
pub const SMRAM_SAVE_STATE_MAP_SIZE: u64 = 0x400;

/// Offset of the save state from a CPU's SMBASE.
pub const SMRAM_SAVE_STATE_MAP_OFFSET: u64 = 0xfc00;

/// Number of bytes written to the user buffer (one 64-bit field value).
pub const FIELD_VALUE_SIZE: u64 = 8;

/// Position of the I/O width in a packed I/O trap.
pub const IO_TRAP_WIDTH_SHIFT: u32 = 16;

/// Position of the I/O type in a packed I/O trap.
pub const IO_TRAP_TYPE_SHIFT: u32 = 24;

/// The fields that can be read.
#[derive(Debug, Clone, Copy, PartialEq, Eq, Structural)]
pub enum SaveStateType {
    /// The processor ID.
    ProcessorId,
    /// RAX.
    Rax,
    /// The trapped I/O instruction.
    IoTrap,
}

impl SaveStateType {
    /// The number of the field.
    pub open spec fn number(self) -> u64 {
        match self {
            SaveStateType::ProcessorId => 0,
            SaveStateType::Rax => 1,
            SaveStateType::IoTrap => 2,
        }
    }

    /// The field with a number.
    pub open spec fn of_number(value: u64) -> Option<SaveStateType> {
        if value == 0 {
            Some(SaveStateType::ProcessorId)
        } else if value == 1 {
            Some(SaveStateType::Rax)
        } else if value == 2 {
            Some(SaveStateType::IoTrap)
        } else {
            None
        }
    }

    /// Creates from the number of a field.
    pub fn from_u64(value: u64) -> (r: Option<Self>)
        ensures
            r == Self::of_number(value),
    {
        match value {
            0 => Some(SaveStateType::ProcessorId),
            1 => Some(SaveStateType::Rax),
            2 => Some(SaveStateType::IoTrap),
            _ => None,
        }
    }

    /// Returns the number of the field.
    pub fn as_u64(self) -> (r: u64)
        ensures
            r == self.number(),
    {
        match self {
            SaveStateType::ProcessorId => 0,
            SaveStateType::Rax => 1,
            SaveStateType::IoTrap => 2,
        }
    }
}

/// A field is found again by its number.
pub proof fn law_save_state_type_round_trip(field: SaveStateType)
    ensures
        SaveStateType::of_number(field.number()) == Some(field),
{
}

/// Where the per-CPU data for save state reads is.
#[derive(Debug, Clone, Copy, PartialEq, Eq, Structural)]
pub struct SaveStateInfo {
    /// Number of CPUs.
    pub number_of_cpus: u64,
    /// Address of the processor information array.
    pub processor_info: u64,
    /// Address of the per-CPU SMBASE array.
    pub sm_base: u64,
}

/// A read-only view of a CPU's save state.
pub struct SaveStateView<'a> {
    /// The bytes of the save state.
    bytes: &'a [u8],
}

impl<'a> SaveStateView<'a> {
    /// The bytes of the save state.
    pub closed spec fn region(&self) -> Seq<u8> {
        self.bytes@
    }

    /// Creates a view of a save state.
    pub fn new(bytes: &'a [u8]) -> (r: Self)
        ensures
            r.region() == bytes@,
    {
        SaveStateView { bytes }
    }

    /// Reads a little-endian 32-bit value at `offset`.
    pub fn read_u32(&self, offset: usize) -> (r: u32)
        requires
            offset + 4 <= self.region().len(),
        ensures
            r == le32(self.region(), offset as int),
    {
        read_u32(self.bytes, offset)
    }

    /// Reads a little-endian 64-bit value at `offset`.
    pub fn read_u64(&self, offset: usize) -> (r: u64)
        requires
            offset + 8 <= self.region().len(),
        ensures
            r == le64(self.region(), offset as int),
    {
        read_u64(self.bytes, offset)
    }
}

/// The address of the SMBASE of a CPU, or why it cannot be read.
pub open spec fn smbase_address(info: Option<SaveStateInfo>, cpu_index: u64) -> Result<
    u64,
    Status,
> {
    match info {
        None => Err(EFI_NOT_READY),
        Some(info) => if cpu_index >= info.number_of_cpus {
            Err(EFI_INVALID_PARAMETER)
        } else if info.sm_base == 0 {
            Err(EFI_NOT_READY)
        } else {
            Ok((info.sm_base + cpu_index * 8) as u64)
        },
    }
}

/// Finds the SMBASE of a CPU: where it is in the per-CPU array.
pub fn get_smbase_address(info: Option<SaveStateInfo>, cpu_index: u64) -> (r: Result<u64, Status>)
    requires
        info matches Some(info) ==> info.sm_base + info.number_of_cpus * 8 <= u64::MAX,
    ensures
        r == smbase_address(info, cpu_index),
{
    match info {
        None => Err(EFI_NOT_READY),
        Some(info) => {
            if cpu_index >= info.number_of_cpus {
                return Err(EFI_INVALID_PARAMETER);
            }
            if info.sm_base == 0 {
                return Err(EFI_NOT_READY);
            }
            Ok(info.sm_base + cpu_index * 8)
        },
    }
}

/// Where the save state of a CPU is, from its SMBASE.
pub fn get_save_state_view(smbase: u64) -> (r: Result<u64, Status>)
    requires
        smbase + SMRAM_SAVE_STATE_MAP_OFFSET <= u64::MAX,
    ensures
        r == if smbase == 0 {
            Err::<u64, Status>(EFI_INVALID_PARAMETER)
        } else {
            Ok((smbase + SMRAM_SAVE_STATE_MAP_OFFSET) as u64)
        },
{
    if smbase == 0 {
        return Err(EFI_INVALID_PARAMETER);
    }
    Ok(smbase + SMRAM_SAVE_STATE_MAP_OFFSET)
}

/// Where the processor ID of a CPU is: in the first field of its entry in the array of
/// processor information, whose entries have `entry_size` bytes.
pub fn read_processor_id_value(
    info: Option<SaveStateInfo>,
    cpu_index: u64,
    entry_size: u64,
) -> (r: Result<u64, Status>)
    requires
        info matches Some(info) ==> info.processor_info + cpu_index * entry_size <= u64::MAX,
    ensures
        r == match info {
            None => Err::<u64, Status>(EFI_NOT_READY),
            Some(info) => if info.processor_info == 0 {
                Err(EFI_NOT_READY)
            } else {
                Ok((info.processor_info + cpu_index * entry_size) as u64)
            },
        },
{
    match info {
        None => Err(EFI_NOT_READY),
        Some(info) => {
            if info.processor_info == 0 {
                return Err(EFI_NOT_READY);
            }
            assert(cpu_index * entry_size >= 0) by (nonlinear_arith);
            Ok(info.processor_info + cpu_index * entry_size)
        },
    }
}

/// The condition under which the save state is read: whether the trapped instruction was an
/// input or not; without a described instruction there is none.
pub open spec fn io_condition(trap: Option<IoTrap>) -> Option<SaveStateCondition> {
    match trap {
        None => None,
        Some(trap) => if trap.io_type == IO_TYPE_INPUT {
            Some(SaveStateCondition::IoRead)
        } else {
            Some(SaveStateCondition::IoWrite)
        },
    }
}

/// Inspects the I/O condition (IN or OUT) for policy checking.
pub fn inspect_io_condition(trap: Option<IoTrap>) -> (r: Option<SaveStateCondition>)
    ensures
        r == io_condition(trap),
{
    match trap {
        None => None,
        Some(trap) => {
            if trap.io_type == IO_TYPE_INPUT {
                Some(SaveStateCondition::IoRead)
            } else {
                Some(SaveStateCondition::IoWrite)
            }
        },
    }
}

/// Reads the raw RAX value from the save state.
pub fn read_rax_value(view: &SaveStateView, layout: &SaveStateLayout) -> (r: u64)
    requires
        layout.rax_offset + 8 <= view.region().len(),
    ensures
        r == le64(view.region(), layout.rax_offset as int),
{
    view.read_u64(layout.rax_offset as usize)
}

/// An I/O trap in 64 bits: the port in the low 16, then 8 bits of the width and 8 of the type.
pub open spec fn packed_trap(trap: IoTrap) -> u64 {
    (trap.io_port as int % 0x1_0000 + (trap.io_width as int % 0x100) * 0x1_0000 + (
    trap.io_type as int % 0x100) * 0x100_0000) as u64
}

/// Packs the description of the trapped I/O instruction, if the save state has one.
pub fn read_io_trap_packed(trap: Option<IoTrap>) -> (r: Option<u64>)
    ensures
        r == match trap {
            Some(trap) => Some(packed_trap(trap)),
            None => None,
        },
{
    match trap {
        None => None,
        Some(trap) => {
            let port: u64 = trap.io_port as u64;
            let width: u64 = trap.io_width as u64;
            let kind: u64 = trap.io_type as u64;
            assert((port & 0xFFFF) | ((width & 0xFF) << 16) | ((kind & 0xFF) << 24) == (port
                % 0x1_0000) + (width % 0x100) * 0x1_0000 + (kind % 0x100) * 0x100_0000)
                by (bit_vector);
            Some(
                (port & 0xFFFF) | ((width & 0xFF) << IO_TRAP_WIDTH_SHIFT) | ((kind & 0xFF)
                    << IO_TRAP_TYPE_SHIFT),
            )
        },
    }
}

/// What is known of the CPU that is read from.
#[derive(Debug)]
pub struct CpuFields {
    /// The processor ID, or why it cannot be read.
    pub processor_id: Result<u64, Status>,
    /// The save state, or why it cannot be read.
    pub save_state: Result<Vec<u8>, Status>,
    /// The trapped I/O instruction that the save state describes, if it does.
    pub io_trap: Option<IoTrap>,
}

/// The policy field of RAX or the I/O trap.
pub open spec fn field_of(field: SaveStateType) -> SaveStateField {
    if field == SaveStateType::Rax {
        SaveStateField::Rax
    } else {
        SaveStateField::IoTrap
    }
}

/// The value of a field, or why it cannot be read: `policy` is the policy block, if there is
/// one.
pub open spec fn field_value(
    field: SaveStateType,
    layout: &SaveStateLayout,
    cpu: &CpuFields,
    policy: Option<Seq<u8>>,
) -> Result<u64, Status> {
    if field == SaveStateType::ProcessorId {
        cpu.processor_id
    } else {
        match (cpu.save_state, policy) {
            (Err(status), _) => Err(status),
            (Ok(_), None) => Err(EFI_NOT_READY),
            (Ok(bytes), Some(block)) => if save_state_verdict(
                block,
                field_of(field),
                io_condition(cpu.io_trap),
            ) is Err {
                Err(EFI_ACCESS_DENIED)
            } else if field == SaveStateType::Rax {
                Ok(le64(bytes@, layout.rax_offset as int) as u64)
            } else {
                match cpu.io_trap {
                    Some(trap) => Ok(packed_trap(trap)),
                    None => Err(EFI_NOT_FOUND),
                }
            },
        }
    }
}

/// The answer to a read: the value that goes into the buffer, or the status of the error.
pub open spec fn read_answer(
    info: Option<SaveStateInfo>,
    cpu_index: u64,
    field_raw: u64,
    buffer: u64,
    layout: &SaveStateLayout,
    cpu: &CpuFields,
    policy: Option<Seq<u8>>,
    owner: Option<PageOwnership>,
) -> Result<u64, Status> {
    match (SaveStateType::of_number(field_raw), info) {
        (None, _) => Err(EFI_INVALID_PARAMETER),
        (Some(_), None) => Err(EFI_NOT_READY),
        (Some(field), Some(info)) => if cpu_index >= info.number_of_cpus {
            Err(EFI_INVALID_PARAMETER)
        } else {
            match field_value(field, layout, cpu, policy) {
                Err(status) => Err(status),
                Ok(value) => if buffer == 0 {
                    Err(EFI_INVALID_PARAMETER)
                } else if owner != Some(PageOwnership::User) {
                    Err(EFI_ACCESS_DENIED)
                } else {
                    Ok(value)
                },
            }
        },
    }
}

/// Validates that the buffer is owned by the user, and gives the bytes that are to be written
/// to it. `owner` is who owns the [`FIELD_VALUE_SIZE`] bytes at `buffer`.
pub fn write_field_value(buffer: u64, value: u64, owner: Option<PageOwnership>) -> (r: Result<
    Vec<u8>,
    Status,
>)
    ensures
        match r {
            Ok(bytes) => buffer != 0 && owner == Some(PageOwnership::User) && bytes@.len()
                == FIELD_VALUE_SIZE && le64(bytes@, 0) == value,
            Err(status) => status == if buffer == 0 {
                EFI_INVALID_PARAMETER
            } else {
                EFI_ACCESS_DENIED
            } && (buffer == 0 || owner != Some(PageOwnership::User)),
        },
{
    if buffer == 0 {
        return Err(EFI_INVALID_PARAMETER);
    }
    match owner {
        Some(PageOwnership::User) => {},
        _ => {
            return Err(EFI_ACCESS_DENIED);
        },
    }
    let mut bytes: Vec<u8> = vec![0; 8];
    write_u64(&mut bytes, 0, value);
    Ok(bytes)
}

/// Reads a single save-state field for a CPU: the bytes that are to be written to the buffer,
/// or the status of the error.
///
/// `info` is the save-state metadata, once it is known, `cpu` what was read of the CPU, and
/// `owner` who owns the buffer.
pub fn save_state_read(
    info: Option<SaveStateInfo>,
    cpu_index: u64,
    field_raw: u64,
    buffer: u64,
    layout: &SaveStateLayout,
    cpu: &CpuFields,
    gate: Option<&PolicyGate>,
    owner: Option<PageOwnership>,
) -> (r: Result<Vec<u8>, Status>)
    requires
        cpu.save_state matches Ok(bytes) ==> layout.rax_offset + 8 <= bytes@.len(),
    ensures
        ({
            let policy = match gate {
                Some(gate) => Some(gate.block()),
                None => None,
            };
            match read_answer(info, cpu_index, field_raw, buffer, layout, cpu, policy, owner) {
                Ok(value) => r matches Ok(bytes) && bytes@.len() == FIELD_VALUE_SIZE && le64(
                    bytes@,
                    0,
                ) == value,
                Err(status) => r matches Err(e) && e == status,
            }
        }),
{
    let field = match SaveStateType::from_u64(field_raw) {
        Some(field) => field,
        None => {
            return Err(EFI_INVALID_PARAMETER);
        },
    };
    let info = match info {
        Some(info) => info,
        None => {
            return Err(EFI_NOT_READY);
        },
    };
    if cpu_index >= info.number_of_cpus {
        return Err(EFI_INVALID_PARAMETER);
    }
    let value: u64 = match field {
        SaveStateType::ProcessorId => match cpu.processor_id {
            Ok(id) => id,
            Err(status) => {
                return Err(status);
            },
        },
        _ => {
            let bytes = match &cpu.save_state {
                Ok(bytes) => bytes,
                Err(status) => {
                    return Err(*status);
                },
            };
            let policy_field = match field {
                SaveStateType::Rax => SaveStateField::Rax,
                _ => SaveStateField::IoTrap,
            };
            let condition = inspect_io_condition(cpu.io_trap);
            match gate {
                None => {
                    return Err(EFI_NOT_READY);
                },
                Some(gate) => {
                    match gate.is_save_state_read_allowed(
                        policy_field,
                        FIELD_VALUE_SIZE as usize,
                        condition,
                    ) {
                        Ok(()) => {},
                        Err(_) => {
                            return Err(EFI_ACCESS_DENIED);
                        },
                    }
                },
            }
            match field {
                SaveStateType::Rax => {
                    let view = SaveStateView::new(bytes.as_slice());
                    read_rax_value(&view, layout)
                },
                _ => match read_io_trap_packed(cpu.io_trap) {
                    Some(packed) => packed,
                    None => {
                        return Err(EFI_NOT_FOUND);
                    },
                },
            }
        },
    };
    write_field_value(buffer, value, owner)
}

/// No read succeeds into a buffer that the user does not own, and none of RAX or the I/O trap
/// without a policy that allows it.
pub proof fn law_field_reads_are_guarded(
    info: Option<SaveStateInfo>,
    cpu_index: u64,
    field_raw: u64,
    buffer: u64,
    layout: &SaveStateLayout,
    cpu: &CpuFields,
    policy: Option<Seq<u8>>,
    owner: Option<PageOwnership>,
)
    requires
        read_answer(info, cpu_index, field_raw, buffer, layout, cpu, policy, owner) is Ok,
    ensures
        owner == Some(PageOwnership::User),
        info is Some && cpu_index < info->0.number_of_cpus,
        field_raw != SaveStateType::ProcessorId.number() ==> {
            &&& policy is Some
            &&& save_state_verdict(
                policy->0,
                field_of(SaveStateType::of_number(field_raw)->0),
                io_condition(cpu.io_trap),
            ) is Ok
        },
{
}

/// Where the base of a CPU's save state is stored: among those of all CPUs, in 8 bytes each. The
/// CPU has to be one of those that there are.
pub proof fn law_smbase_address(info: Option<SaveStateInfo>, cpu_index: u64)
    requires
        info matches Some(i) ==> i.sm_base + i.number_of_cpus * 8 <= u64::MAX,
    ensures
        match info {
            None => smbase_address(info, cpu_index) == Err::<u64, Status>(EFI_NOT_READY),
            Some(i) => if cpu_index >= i.number_of_cpus {
                smbase_address(info, cpu_index) == Err::<u64, Status>(EFI_INVALID_PARAMETER)
            } else if i.sm_base == 0 {
                smbase_address(info, cpu_index) == Err::<u64, Status>(EFI_NOT_READY)
            } else {
                smbase_address(info, cpu_index) is Ok && smbase_address(info, cpu_index)->Ok_0
                    == i.sm_base + 8 * cpu_index
            },
        },
{
}

/// The condition of a trapped instruction: a read if it was an input, a write if it was anything
/// else, and none if there was no such instruction.
pub proof fn law_io_condition(trap: IoTrap)
    ensures
        io_condition(None) is None,
        trap.io_type == 1 ==> io_condition(Some(trap)) == Some(SaveStateCondition::IoRead),
        trap.io_type != 1 ==> io_condition(Some(trap)) == Some(SaveStateCondition::IoWrite),
{
}

/// A trapped instruction in one value: its port in the lowest 16 bits, its width in the next 8 and
/// its type in the 8 above.
pub proof fn law_packed_trap(trap: IoTrap)
    ensures
        packed_trap(trap) as int % 0x1_0000 == trap.io_port as int % 0x1_0000,
        packed_trap(trap) as int / 0x1_0000 % 0x100 == trap.io_width as int % 0x100,
        packed_trap(trap) as int / 0x100_0000 == trap.io_type as int % 0x100,
{
}

/// What a read of a field gives. The processor ID needs no policy. RAX and the trapped instruction
/// are read only under a policy that allows the read of that very field under the condition that
/// holds; RAX is then the 8 bytes at its offset, and the instruction has to be there.
pub proof fn law_field_values(layout: &SaveStateLayout, cpu: &CpuFields, policy: Option<Seq<u8>>)
    ensures
        field_value(SaveStateType::ProcessorId, layout, cpu, policy) == cpu.processor_id,
        ({
            let rax = field_value(SaveStateType::Rax, layout, cpu, policy);
            let trap = field_value(SaveStateType::IoTrap, layout, cpu, policy);
            match cpu.save_state {
                Err(status) => rax == Err::<u64, Status>(status) && trap == Err::<u64, Status>(
                    status,
                ),
                Ok(bytes) => match policy {
                    None => rax == Err::<u64, Status>(EFI_NOT_READY) && trap == Err::<u64, Status>(
                        EFI_NOT_READY,
                    ),
                    Some(block) => {
                        let condition = io_condition(cpu.io_trap);
                        &&& rax == (if save_state_verdict(
                            block,
                            SaveStateField::Rax,
                            condition,
                        ) is Ok {
                            Ok::<u64, Status>(le64(bytes@, layout.rax_offset as int) as u64)
                        } else {
                            Err(EFI_ACCESS_DENIED)
                        })
                        &&& save_state_verdict(block, SaveStateField::IoTrap, condition) is Err
                            ==> trap == Err::<u64, Status>(EFI_ACCESS_DENIED)
                        &&& save_state_verdict(block, SaveStateField::IoTrap, condition) is Ok
                            ==> trap == (match cpu.io_trap {
                            Some(t) => Ok::<u64, Status>(packed_trap(t)),
                            None => Err(EFI_NOT_FOUND),
                        })
                    },
                },
            }
        }),
{
}

/// What a request to read a field is answered: the field and the CPU have to be known, the field
/// readable, and the buffer there and the user's; and then it is answered with the value of the
/// field.
pub proof fn law_field_read_decision(
    info: Option<SaveStateInfo>,
    cpu_index: u64,
    field: SaveStateType,
    field_raw: u64,
    buffer: u64,
    layout: &SaveStateLayout,
    cpu: &CpuFields,
    policy: Option<Seq<u8>>,
    owner: Option<PageOwnership>,
)
    ensures
        ({
            let r = read_answer(info, cpu_index, field_raw, buffer, layout, cpu, policy, owner);
            let value = field_value(field, layout, cpu, policy);
            &&& field_raw > 2 ==> r == Err::<u64, Status>(EFI_INVALID_PARAMETER)
            &&& field_raw <= 2 && info is None ==> r == Err::<u64, Status>(EFI_NOT_READY)
            &&& field_raw == field.number() && info is Some ==> {
                &&& cpu_index >= info->0.number_of_cpus ==> r == Err::<u64, Status>(
                    EFI_INVALID_PARAMETER,
                )
                &&& cpu_index < info->0.number_of_cpus && value is Err ==> r == value
                &&& cpu_index < info->0.number_of_cpus && value is Ok && buffer == 0 ==> r == Err::<
                    u64,
                    Status,
                >(EFI_INVALID_PARAMETER)
                &&& cpu_index < info->0.number_of_cpus && value is Ok && buffer != 0 && owner
                    != Some(PageOwnership::User) ==> r == Err::<u64, Status>(EFI_ACCESS_DENIED)
                &&& cpu_index < info->0.number_of_cpus && value is Ok && buffer != 0 && owner
                    == Some(PageOwnership::User) ==> r == value
            }
        }),
        SaveStateType::ProcessorId.number() == 0,
        SaveStateType::Rax.number() == 1,
        SaveStateType::IoTrap.number() == 2,
{
}

/// Where a save state is: in the last KiB of the 64 KiB behind the base of a CPU.
pub proof fn law_save_state_place()
    ensures
        SMRAM_SAVE_STATE_MAP_SIZE == 1024,
        SMRAM_SAVE_STATE_MAP_OFFSET + SMRAM_SAVE_STATE_MAP_SIZE == 64 * 1024,
        FIELD_VALUE_SIZE == 8,
        IO_TRAP_WIDTH_SHIFT == 16,
        IO_TRAP_TYPE_SHIFT == 24,
{
}

} // verus!
