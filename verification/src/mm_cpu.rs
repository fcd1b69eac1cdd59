//! The MM CPU protocol, which reads the save state for drivers of the user core.
//!
//! The save state is the supervisor's: each field is read from it by a syscall. Which fields
//! a register needs, and what they give, is decided here.

use crate::bytes::{le16, le32, le64, same_but, u64_bytes, write_u32, write_u64};
use crate::efi::{Status, EFI_INVALID_PARAMETER, EFI_NOT_FOUND, EFI_SUCCESS, EFI_UNSUPPORTED};
use crate::mm_supervisor::save_state::{SaveStateType, IO_TRAP_TYPE_SHIFT, IO_TRAP_WIDTH_SHIFT};
use crate::save_state::{IO_INFO_SIZE, IO_TYPE_OUTPUT};
use vstd::prelude::*;

verus! {

/// The register RAX.
pub const REGISTER_RAX: u32 = 38;

/// The pseudo-register for the trapped I/O instruction.
pub const REGISTER_IO: u32 = 512;

/// The pseudo-register for the processor ID.
pub const REGISTER_PROCESSOR_ID: u32 = 514;

/// Component that produces the MM CPU protocol in the MM user core.
#[derive(Debug, Clone, Copy, PartialEq, Eq, Structural)]
pub struct MmCpuComponent;

impl MmCpuComponent {
    /// Creates a new [`MmCpuComponent`].
    pub fn new() -> (r: Self)
        ensures
            r == MmCpuComponent,
    {
        MmCpuComponent
    }
}

impl Default for MmCpuComponent {
    fn default() -> (r: Self)
        ensures
            r == MmCpuComponent,
    {
        MmCpuComponent
    }
}

/// The result of a syscall that reads a field: the value, if the supervisor reports success,
/// and else its status.
pub fn read_field(status: Status, value: u64) -> (r: Result<u64, Status>)
    ensures
        r == if status == EFI_SUCCESS {
            Ok::<u64, Status>(value)
        } else {
            Err(status)
        },
{
    if status == EFI_SUCCESS {
        Ok(value)
    } else {
        Err(status)
    }
}

/// What a read of a register does first.
#[derive(Debug, Clone, Copy, PartialEq, Eq, Structural)]
pub enum ReadAction {
    /// Return this status.
    Return(Status),
    /// Read this field, for [`write_scalar`].
    Scalar(SaveStateType),
    /// Read the I/O trap, for [`write_io_info`].
    Io,
}

/// `EFI_MM_CPU_PROTOCOL.ReadSaveState`. Only the processor ID, RAX, and IO are supported; any
/// other register is not found. `this_null` and `buffer_null` say whether the protocol and the
/// buffer are missing.
pub fn mm_cpu_read_save_state(
    this_null: bool,
    buffer_null: bool,
    width: usize,
    register: u32,
) -> (r: ReadAction)
    ensures
        r == if this_null || buffer_null {
            ReadAction::Return(EFI_INVALID_PARAMETER)
        } else if register == REGISTER_PROCESSOR_ID {
            ReadAction::Scalar(SaveStateType::ProcessorId)
        } else if register == REGISTER_RAX {
            ReadAction::Scalar(SaveStateType::Rax)
        } else if register == REGISTER_IO {
            if width < IO_INFO_SIZE {
                ReadAction::Return(EFI_INVALID_PARAMETER)
            } else {
                ReadAction::Io
            }
        } else {
            ReadAction::Return(EFI_NOT_FOUND)
        },
{
    if this_null || buffer_null {
        return ReadAction::Return(EFI_INVALID_PARAMETER);
    }
    if register == REGISTER_PROCESSOR_ID {
        ReadAction::Scalar(SaveStateType::ProcessorId)
    } else if register == REGISTER_RAX {
        ReadAction::Scalar(SaveStateType::Rax)
    } else if register == REGISTER_IO {
        if width < IO_INFO_SIZE {
            return ReadAction::Return(EFI_INVALID_PARAMETER);
        }
        ReadAction::Io
    } else {
        ReadAction::Return(EFI_NOT_FOUND)
    }
}

/// The smaller of a width and 8.
pub open spec fn scalar_bytes(width: usize) -> int {
    if width < 8 {
        width as int
    } else {
        8
    }
}

/// Writes the low `width` bytes (at most 8) of a field into the buffer, which has at least
/// `width` bytes.
pub fn write_scalar(field: Result<u64, Status>, width: usize, buffer: &mut Vec<u8>) -> (r: Status)
    requires
        width <= old(buffer).len(),
    ensures
        match field {
            Err(status) => r == status && final(buffer)@ == old(buffer)@,
            Ok(value) => {
                &&& r == EFI_SUCCESS
                &&& same_but(old(buffer)@, final(buffer)@, 0, scalar_bytes(width))
                &&& exists|bytes: Seq<u8>|
                    bytes.len() == 8 && #[trigger] le64(bytes, 0) == value && final(buffer)@.take(
                        scalar_bytes(width),
                    ) == bytes.take(scalar_bytes(width))
            },
        },
{
    let value: u64 = match field {
        Ok(value) => value,
        Err(status) => {
            return status;
        },
    };
    let bytes = u64_bytes(value);
    let n: usize = if width < 8 {
        width
    } else {
        8
    };
    let mut i: usize = 0;
    while i < n
        invariant
            i <= n <= 8,
            n <= buffer.len(),
            bytes@.len() == 8,
            same_but(old(buffer)@, buffer@, 0, n as int),
            forall|j: int| 0 <= j < i ==> buffer@[j] == bytes@[j],
        decreases n - i,
    {
        buffer.set(i, bytes[i]);
        i = i + 1;
    }
    assert(buffer@.take(n as int) =~= bytes@.take(n as int));
    assert(le64(bytes@, 0) == value);
    EFI_SUCCESS
}

/// A trapped I/O instruction, unpacked.
#[derive(Debug, Clone, Copy, PartialEq, Eq, Structural)]
pub struct IoTrapFields {
    /// The port.
    pub io_port: u16,
    /// The width of the access.
    pub io_width: u32,
    /// The type of the access.
    pub io_type: u32,
}

/// The fields of a packed I/O trap: 16 bits of the port, 8 of the width, and 8 of the type.
pub open spec fn unpacked(packed: u64) -> IoTrapFields {
    IoTrapFields {
        io_port: (packed as int % 0x1_0000) as u16,
        io_width: (packed as int / 0x1_0000 % 0x100) as u32,
        io_type: (packed as int / 0x100_0000 % 0x100) as u32,
    }
}

/// What follows when the I/O trap has been read.
#[derive(Debug, Clone, Copy, PartialEq, Eq, Structural)]
pub enum IoAction {
    /// Return this status.
    Return(Status),
    /// Read RAX, for the data of an output.
    ReadRax(IoTrapFields),
    /// Write the information, with no data.
    Write(IoTrapFields),
}

/// Goes on with a read of the IO pseudo-register when the I/O trap has been read. The data is
/// only meaningful for an output; of an input it is not there yet, so RAX is not read.
pub fn io_trap_read(trap: Result<u64, Status>) -> (r: IoAction)
    ensures
        r == match trap {
            Err(status) => IoAction::Return(status),
            Ok(packed) => if unpacked(packed).io_type == IO_TYPE_OUTPUT {
                IoAction::ReadRax(unpacked(packed))
            } else {
                IoAction::Write(unpacked(packed))
            },
        },
{
    let packed: u64 = match trap {
        Ok(packed) => packed,
        Err(status) => {
            return IoAction::Return(status);
        },
    };
    assert(packed & 0xFFFF == packed % 0x1_0000) by (bit_vector);
    assert((packed >> 16) & 0xFF == packed / 0x1_0000 % 0x100) by (bit_vector);
    assert((packed >> 24) & 0xFF == packed / 0x100_0000 % 0x100) by (bit_vector);
    let fields = IoTrapFields {
        io_port: (packed & 0xFFFF) as u16,
        io_width: ((packed >> IO_TRAP_WIDTH_SHIFT) & 0xFF) as u32,
        io_type: ((packed >> IO_TRAP_TYPE_SHIFT) & 0xFF) as u32,
    };
    if fields.io_type == IO_TYPE_OUTPUT {
        IoAction::ReadRax(fields)
    } else {
        IoAction::Write(fields)
    }
}

/// The bytes of RAX that an access of this width takes: 1, 2, 4, or all of them.
pub open spec fn accessed(rax: u64, io_width: u32) -> u64 {
    if io_width == 0 {
        (rax % 0x100) as u64
    } else if io_width == 1 {
        (rax % 0x1_0000) as u64
    } else if io_width == 2 {
        (rax % 0x1_0000_0000) as u64
    } else {
        rax
    }
}

/// The data of an output, from RAX.
pub fn output_data(rax: u64, io_width: u32) -> (r: u64)
    ensures
        r == accessed(rax, io_width),
{
    assert(rax & 0xFF == rax % 0x100) by (bit_vector);
    assert(rax & 0xFFFF == rax % 0x1_0000) by (bit_vector);
    assert(rax & 0xFFFF_FFFF == rax % 0x1_0000_0000) by (bit_vector);
    let mask: u64 = if io_width == 0 {
        0xFF
    } else if io_width == 1 {
        0xFFFF
    } else if io_width == 2 {
        0xFFFF_FFFF
    } else {
        return rax;
    };
    rax & mask
}

/// `after` is `before` with the I/O information in it: the data at 0, the port at 8, the width
/// at 12, and the type at 16. The bytes between the fields and behind them stay.
pub open spec fn io_info_written(
    before: Seq<u8>,
    after: Seq<u8>,
    fields: IoTrapFields,
    io_data: u64,
) -> bool {
    &&& le64(after, 0) == io_data
    &&& le16(after, 8) == fields.io_port
    &&& le32(after, 12) == fields.io_width
    &&& le32(after, 16) == fields.io_type
    &&& after.len() == before.len()
    &&& forall|i: int|
        0 <= i < before.len() && !(0 <= i < 10) && !(12 <= i < 20) ==> #[trigger] after[i]
            == before[i]
}

/// Writes the I/O information into the buffer, which has room for all of it. `rax` is what
/// was read of RAX, where the instruction was an output.
pub fn write_io_info(
    fields: IoTrapFields,
    rax: Option<Result<u64, Status>>,
    buffer: &mut Vec<u8>,
) -> (r: Status)
    requires
        old(buffer).len() >= IO_INFO_SIZE,
    ensures
        match rax {
            Some(Err(status)) => r == status && final(buffer)@ == old(buffer)@,
            Some(Ok(value)) => r == EFI_SUCCESS && io_info_written(
                old(buffer)@,
                final(buffer)@,
                fields,
                accessed(value, fields.io_width),
            ),
            None => r == EFI_SUCCESS && io_info_written(old(buffer)@, final(buffer)@, fields, 0),
        },
{
    let io_data: u64 = match rax {
        None => 0,
        Some(read) => match read {
            Ok(value) => output_data(value, fields.io_width),
            Err(status) => {
                return status;
            },
        },
    };
    write_u64(buffer, 0, io_data);
    buffer.set(8, (fields.io_port % 0x100) as u8);
    buffer.set(9, (fields.io_port / 0x100) as u8);
    write_u32(buffer, 12, fields.io_width);
    write_u32(buffer, 16, fields.io_type);
    EFI_SUCCESS
}

/// `EFI_MM_CPU_PROTOCOL.WriteSaveState`, which is not supported.
pub fn mm_cpu_write_save_state() -> (r: Status)
    ensures
        r == EFI_UNSUPPORTED,
{
    EFI_UNSUPPORTED
}

/// What the supervisor packs of an I/O trap is what a driver reads of it: the port in 16 bits,
/// and the width and type in 8.
pub proof fn law_io_trap_round_trip(trap: crate::save_state::IoTrap)
    requires
        trap.io_port < 0x1_0000,
        trap.io_width < 0x100,
        trap.io_type < 0x100,
    ensures
        unpacked(crate::mm_supervisor::save_state::packed_trap(trap)) == (IoTrapFields {
            io_port: trap.io_port as u16,
            io_width: trap.io_width,
            io_type: trap.io_type,
        }),
{
}

/// What an output accessed of RAX: its lowest 1, 2 or 4 bytes, by the width of the access, and else
/// all of it.
pub proof fn law_accessed_bytes(rax: u64, io_width: u32)
    ensures
        accessed(rax, io_width) <= rax,
        io_width == 0 ==> accessed(rax, io_width) == rax as int % 0x100,
        io_width == 1 ==> accessed(rax, io_width) == rax as int % 0x1_0000,
        io_width == 2 ==> accessed(rax, io_width) == rax as int % 0x1_0000_0000,
        io_width > 2 ==> accessed(rax, io_width) == rax,
{
}

/// A value is written with as many bytes as there is room for, and eight at most.
pub proof fn law_scalar_bytes(width: usize)
    ensures
        scalar_bytes(width) <= width,
        scalar_bytes(width) <= 8,
        scalar_bytes(width) == width || scalar_bytes(width) == 8,
{
}

/// The information about a trapped instruction: the data in the first eight bytes, then the port,
/// in two, and from byte 12 on the width and the type, in four each; every other byte stays as it
/// was.
pub proof fn law_io_info_layout(
    before: Seq<u8>,
    after: Seq<u8>,
    fields: IoTrapFields,
    io_data: u64,
    i: int,
)
    requires
        before.len() >= 24,
        io_info_written(before, after, fields, io_data),
        0 <= i < before.len(),
    ensures
        after.len() == before.len(),
        le64(after, 0) == io_data,
        le16(after, 8) == fields.io_port,
        le32(after, 12) == fields.io_width,
        le32(after, 16) == fields.io_type,
        10 <= i < 12 || 20 <= i ==> after[i] == before[i],
{
}

} // verus!
