//! The processor save state.
//!
//! When a processor enters MM it leaves its registers in a region of SMRAM, whose layout
//! depends on the vendor. The layout is a plain value here: where each register is, and
//! where the information about a trapped I/O instruction is. How a vendor encodes that
//! information is the platform's to know; it hands it over decoded, as an [`IoTrap`].

use crate::bytes::{le32, read_u32};
use vstd::prelude::*;

verus! {

/// Size in bytes of `EFI_MM_SAVE_STATE_IO_INFO`.
pub const IO_INFO_SIZE: usize = 24;

/// The trapped instruction was an input.
pub const IO_TYPE_INPUT: u32 = 1;

/// The trapped instruction was an output.
pub const IO_TYPE_OUTPUT: u32 = 2;

/// The processor was in 32-bit mode.
pub const LMA_32BIT: u64 = 32;

/// The processor was in 64-bit mode.
pub const LMA_64BIT: u64 = 64;

/// The long mode active bit of the EFER register.
pub const IA32_EFER_LMA: u64 = 0x400;

/// The registers of the save state, `EFI_MM_SAVE_STATE_REGISTER`.
#[derive(Debug, Clone, Copy, PartialEq, Eq, Structural)]
pub enum MmSaveStateRegister {
    /// GDT base.
    GdtBase,
    /// IDT base.
    IdtBase,
    /// LDT base.
    LdtBase,
    /// GDT limit.
    GdtLimit,
    /// IDT limit.
    IdtLimit,
    /// LDT limit.
    LdtLimit,
    /// LDT information.
    LdtInfo,
    /// ES selector.
    Es,
    /// CS selector.
    Cs,
    /// SS selector.
    Ss,
    /// DS selector.
    Ds,
    /// FS selector.
    Fs,
    /// GS selector.
    Gs,
    /// LDT selector.
    LdtrSel,
    /// Task register selector.
    TrSel,
    /// DR7.
    Dr7,
    /// DR6.
    Dr6,
    /// R8.
    R8,
    /// R9.
    R9,
    /// R10.
    R10,
    /// R11.
    R11,
    /// R12.
    R12,
    /// R13.
    R13,
    /// R14.
    R14,
    /// R15.
    R15,
    /// RAX.
    Rax,
    /// RBX.
    Rbx,
    /// RCX.
    Rcx,
    /// RDX.
    Rdx,
    /// RSP.
    Rsp,
    /// RBP.
    Rbp,
    /// RSI.
    Rsi,
    /// RDI.
    Rdi,
    /// RIP.
    Rip,
    /// RFLAGS.
    Rflags,
    /// CR0.
    Cr0,
    /// CR3.
    Cr3,
    /// CR4.
    Cr4,
    /// Pseudo-register: the trapped I/O instruction.
    Io,
    /// Pseudo-register: the mode of the processor.
    Lma,
    /// Pseudo-register: the ID of the processor.
    ProcessorId,
}

impl MmSaveStateRegister {
    /// The number of the register.
    pub open spec fn number(self) -> u64 {
        match self {
            MmSaveStateRegister::GdtBase => 4,
            MmSaveStateRegister::IdtBase => 5,
            MmSaveStateRegister::LdtBase => 6,
            MmSaveStateRegister::GdtLimit => 7,
            MmSaveStateRegister::IdtLimit => 8,
            MmSaveStateRegister::LdtLimit => 9,
            MmSaveStateRegister::LdtInfo => 10,
            MmSaveStateRegister::Es => 20,
            MmSaveStateRegister::Cs => 21,
            MmSaveStateRegister::Ss => 22,
            MmSaveStateRegister::Ds => 23,
            MmSaveStateRegister::Fs => 24,
            MmSaveStateRegister::Gs => 25,
            MmSaveStateRegister::LdtrSel => 26,
            MmSaveStateRegister::TrSel => 27,
            MmSaveStateRegister::Dr7 => 28,
            MmSaveStateRegister::Dr6 => 29,
            MmSaveStateRegister::R8 => 30,
            MmSaveStateRegister::R9 => 31,
            MmSaveStateRegister::R10 => 32,
            MmSaveStateRegister::R11 => 33,
            MmSaveStateRegister::R12 => 34,
            MmSaveStateRegister::R13 => 35,
            MmSaveStateRegister::R14 => 36,
            MmSaveStateRegister::R15 => 37,
            MmSaveStateRegister::Rax => 38,
            MmSaveStateRegister::Rbx => 39,
            MmSaveStateRegister::Rcx => 40,
            MmSaveStateRegister::Rdx => 41,
            MmSaveStateRegister::Rsp => 42,
            MmSaveStateRegister::Rbp => 43,
            MmSaveStateRegister::Rsi => 44,
            MmSaveStateRegister::Rdi => 45,
            MmSaveStateRegister::Rip => 46,
            MmSaveStateRegister::Rflags => 51,
            MmSaveStateRegister::Cr0 => 52,
            MmSaveStateRegister::Cr3 => 53,
            MmSaveStateRegister::Cr4 => 54,
            MmSaveStateRegister::Io => 512,
            MmSaveStateRegister::Lma => 513,
            MmSaveStateRegister::ProcessorId => 514,
        }
    }

    /// Some register has this number.
    pub open spec fn is_number(value: u64) -> bool {
        4 <= value <= 10 || 20 <= value <= 46 || 51 <= value <= 54 || 512 <= value <= 514
    }

    /// Creates from the number of a register.
    pub fn from_u64(value: u64) -> (r: Option<Self>)
        ensures
            match r {
                Some(register) => register.number() == value,
                None => !Self::is_number(value),
            },
    {
        match value {
            4 => Some(MmSaveStateRegister::GdtBase),
            5 => Some(MmSaveStateRegister::IdtBase),
            6 => Some(MmSaveStateRegister::LdtBase),
            7 => Some(MmSaveStateRegister::GdtLimit),
            8 => Some(MmSaveStateRegister::IdtLimit),
            9 => Some(MmSaveStateRegister::LdtLimit),
            10 => Some(MmSaveStateRegister::LdtInfo),
            20 => Some(MmSaveStateRegister::Es),
            21 => Some(MmSaveStateRegister::Cs),
            22 => Some(MmSaveStateRegister::Ss),
            23 => Some(MmSaveStateRegister::Ds),
            24 => Some(MmSaveStateRegister::Fs),
            25 => Some(MmSaveStateRegister::Gs),
            26 => Some(MmSaveStateRegister::LdtrSel),
            27 => Some(MmSaveStateRegister::TrSel),
            28 => Some(MmSaveStateRegister::Dr7),
            29 => Some(MmSaveStateRegister::Dr6),
            30 => Some(MmSaveStateRegister::R8),
            31 => Some(MmSaveStateRegister::R9),
            32 => Some(MmSaveStateRegister::R10),
            33 => Some(MmSaveStateRegister::R11),
            34 => Some(MmSaveStateRegister::R12),
            35 => Some(MmSaveStateRegister::R13),
            36 => Some(MmSaveStateRegister::R14),
            37 => Some(MmSaveStateRegister::R15),
            38 => Some(MmSaveStateRegister::Rax),
            39 => Some(MmSaveStateRegister::Rbx),
            40 => Some(MmSaveStateRegister::Rcx),
            41 => Some(MmSaveStateRegister::Rdx),
            42 => Some(MmSaveStateRegister::Rsp),
            43 => Some(MmSaveStateRegister::Rbp),
            44 => Some(MmSaveStateRegister::Rsi),
            45 => Some(MmSaveStateRegister::Rdi),
            46 => Some(MmSaveStateRegister::Rip),
            51 => Some(MmSaveStateRegister::Rflags),
            52 => Some(MmSaveStateRegister::Cr0),
            53 => Some(MmSaveStateRegister::Cr3),
            54 => Some(MmSaveStateRegister::Cr4),
            512 => Some(MmSaveStateRegister::Io),
            513 => Some(MmSaveStateRegister::Lma),
            514 => Some(MmSaveStateRegister::ProcessorId),
            _ => None,
        }
    }
}

/// No two registers have the same number.
pub proof fn law_register_numbers_distinct(a: MmSaveStateRegister, b: MmSaveStateRegister)
    requires
        a.number() == b.number(),
    ensures
        a == b,
{
}

/// Every number that counts as one of a register is the number of some register.
pub proof fn law_every_number_is_a_register(value: u64)
    ensures
        MmSaveStateRegister::is_number(value) <==> exists|r: MmSaveStateRegister|
            #[trigger] r.number() == value,
{
    if MmSaveStateRegister::is_number(value) {
        let r = if value <= 10 {
            if value == 4 {
                MmSaveStateRegister::GdtBase
            } else if value == 5 {
                MmSaveStateRegister::IdtBase
            } else if value == 6 {
                MmSaveStateRegister::LdtBase
            } else if value == 7 {
                MmSaveStateRegister::GdtLimit
            } else if value == 8 {
                MmSaveStateRegister::IdtLimit
            } else if value == 9 {
                MmSaveStateRegister::LdtLimit
            } else {
                MmSaveStateRegister::LdtInfo
            }
        } else if value <= 29 {
            if value == 20 {
                MmSaveStateRegister::Es
            } else if value == 21 {
                MmSaveStateRegister::Cs
            } else if value == 22 {
                MmSaveStateRegister::Ss
            } else if value == 23 {
                MmSaveStateRegister::Ds
            } else if value == 24 {
                MmSaveStateRegister::Fs
            } else if value == 25 {
                MmSaveStateRegister::Gs
            } else if value == 26 {
                MmSaveStateRegister::LdtrSel
            } else if value == 27 {
                MmSaveStateRegister::TrSel
            } else if value == 28 {
                MmSaveStateRegister::Dr7
            } else {
                MmSaveStateRegister::Dr6
            }
        } else if value <= 37 {
            if value == 30 {
                MmSaveStateRegister::R8
            } else if value == 31 {
                MmSaveStateRegister::R9
            } else if value == 32 {
                MmSaveStateRegister::R10
            } else if value == 33 {
                MmSaveStateRegister::R11
            } else if value == 34 {
                MmSaveStateRegister::R12
            } else if value == 35 {
                MmSaveStateRegister::R13
            } else if value == 36 {
                MmSaveStateRegister::R14
            } else {
                MmSaveStateRegister::R15
            }
        } else if value <= 46 {
            if value == 38 {
                MmSaveStateRegister::Rax
            } else if value == 39 {
                MmSaveStateRegister::Rbx
            } else if value == 40 {
                MmSaveStateRegister::Rcx
            } else if value == 41 {
                MmSaveStateRegister::Rdx
            } else if value == 42 {
                MmSaveStateRegister::Rsp
            } else if value == 43 {
                MmSaveStateRegister::Rbp
            } else if value == 44 {
                MmSaveStateRegister::Rsi
            } else if value == 45 {
                MmSaveStateRegister::Rdi
            } else {
                MmSaveStateRegister::Rip
            }
        } else if value == 51 {
            MmSaveStateRegister::Rflags
        } else if value == 52 {
            MmSaveStateRegister::Cr0
        } else if value == 53 {
            MmSaveStateRegister::Cr3
        } else if value == 54 {
            MmSaveStateRegister::Cr4
        } else if value == 512 {
            MmSaveStateRegister::Io
        } else if value == 513 {
            MmSaveStateRegister::Lma
        } else {
            MmSaveStateRegister::ProcessorId
        };
        assert(r.number() == value);
    }
}

/// Where a register is in the save state.
#[derive(Debug, Clone, Copy, PartialEq, Eq, Structural)]
pub struct RegisterInfo {
    /// Offset of its low half.
    pub lo_offset: u32,
    /// Offset of its high half.
    pub hi_offset: u32,
    /// Its width in bytes.
    pub native_width: u32,
}

/// A register and where it is.
#[derive(Debug, Clone, Copy, PartialEq, Eq, Structural)]
pub struct RegisterEntry {
    /// The register.
    pub register: MmSaveStateRegister,
    /// Where it is.
    pub info: RegisterInfo,
}

/// A trapped I/O instruction, as the save state describes it.
#[derive(Debug, Clone, Copy, PartialEq, Eq, Structural)]
pub struct IoTrap {
    /// The port.
    pub io_port: u32,
    /// The width of the access, `EFI_MM_SAVE_STATE_IO_WIDTH`.
    pub io_width: u32,
    /// The type of the access, `EFI_MM_SAVE_STATE_IO_TYPE`.
    pub io_type: u32,
    /// How many bytes were accessed.
    pub byte_count: u32,
}

/// The layout of a vendor's save state.
#[derive(Debug)]
pub struct SaveStateLayout {
    /// Offset of the revision of the save state.
    pub smmrevid_offset: u32,
    /// The first revision with information about I/O instructions.
    pub min_rev_id_io: u32,
    /// Offset of the information about the trapped I/O instruction.
    pub io_info_offset: u32,
    /// Offset of RAX.
    pub rax_offset: u32,
    /// Offset of the EFER register.
    pub efer_offset: u32,
    /// Whether the processor is always in 64-bit mode.
    pub lma_always_64: bool,
    /// The registers.
    pub registers: Vec<RegisterEntry>,
}

/// Where the first entry for a register, from `from` on, says that it is.
pub open spec fn info_of(
    registers: Seq<RegisterEntry>,
    register: MmSaveStateRegister,
    from: int,
) -> Option<RegisterInfo>
    decreases registers.len() - from,
{
    if from >= registers.len() {
        None
    } else if registers[from].register == register {
        Some(registers[from].info)
    } else {
        info_of(registers, register, from + 1)
    }
}

/// The register lies within `len` bytes.
pub open spec fn info_within(info: RegisterInfo, len: int) -> bool {
    info.lo_offset + 4 <= len && info.hi_offset + 4 <= len
}

impl SaveStateLayout {
    /// The fields that are not in the register list lie within `len` bytes.
    pub open spec fn fields_within(&self, len: int) -> bool {
        &&& self.smmrevid_offset + 4 <= len
        &&& self.io_info_offset + 4 <= len
        &&& self.rax_offset + 8 <= len
        &&& self.efer_offset + 8 <= len
    }

    /// The whole layout lies within `len` bytes.
    pub open spec fn within(&self, len: int) -> bool {
        &&& self.fields_within(len)
        &&& forall|i: int|
            0 <= i < self.registers@.len() ==> info_within(
                (#[trigger] self.registers@[i]).info,
                len,
            )
    }

    /// Checks that the whole layout lies within `len` bytes.
    pub fn is_within(&self, len: usize) -> (r: bool)
        ensures
            r == self.within(len as int),
    {
        let limit: u64 = len as u64;
        if self.smmrevid_offset as u64 + 4 > limit || self.io_info_offset as u64 + 4 > limit
            || self.rax_offset as u64 + 8 > limit || self.efer_offset as u64 + 8 > limit {
            return false;
        }
        let mut i: usize = 0;
        while i < self.registers.len()
            invariant
                i <= self.registers@.len(),
                limit == len,
                self.fields_within(len as int),
                forall|j: int|
                    0 <= j < i ==> info_within((#[trigger] self.registers@[j]).info, len as int),
            decreases self.registers@.len() - i,
        {
            let info = self.registers[i].info;
            if info.lo_offset as u64 + 4 > limit || info.hi_offset as u64 + 4 > limit {
                assert(!info_within(self.registers@[i as int].info, len as int));
                return false;
            }
            i = i + 1;
        }
        true
    }

    /// Where a register is, if the layout has it.
    pub open spec fn info(&self, register: MmSaveStateRegister) -> Option<RegisterInfo> {
        info_of(self.registers@, register, 0)
    }

    /// Looks a register up.
    pub fn register_info(&self, register: MmSaveStateRegister) -> (r: Option<RegisterInfo>)
        ensures
            r == self.info(register),
            r matches Some(info) ==> exists|i: int|
                0 <= i < self.registers@.len() && #[trigger] self.registers@[i].info == info,
    {
        let mut i: usize = 0;
        while i < self.registers.len()
            invariant
                i <= self.registers@.len(),
                self.info(register) == info_of(self.registers@, register, i as int),
            decreases self.registers@.len() - i,
        {
            let entry = self.registers[i];
            if entry.register == register {
                assert(self.registers@[i as int].info == entry.info);
                return Some(entry.info);
            }
            i = i + 1;
        }
        None
    }

    /// The revision of a save state.
    pub open spec fn revision(&self, save_state: Seq<u8>) -> int {
        le32(save_state, self.smmrevid_offset as int)
    }

    /// Reads the revision of a save state.
    pub fn read_revision(&self, save_state: &[u8]) -> (r: u32)
        requires
            self.fields_within(save_state.len() as int),
        ensures
            r == self.revision(save_state@),
    {
        read_u32(save_state, self.smmrevid_offset as usize)
    }

    /// Reads the vendor's information about the trapped I/O instruction, for the platform to
    /// decode.
    pub fn read_io_field(&self, save_state: &[u8]) -> (r: u32)
        requires
            self.fields_within(save_state.len() as int),
        ensures
            r == le32(save_state@, self.io_info_offset as int),
    {
        read_u32(save_state, self.io_info_offset as usize)
    }
}

/// A layout lies within a save state if and only if the revision, the I/O information, RAX, EFER
/// and both halves of every register do.
pub proof fn law_layout_within(layout: &SaveStateLayout, len: int)
    ensures
        layout.within(len) <==> {
            &&& layout.smmrevid_offset + 4 <= len
            &&& layout.io_info_offset + 4 <= len
            &&& layout.rax_offset + 8 <= len
            &&& layout.efer_offset + 8 <= len
            &&& forall|i: int|
                0 <= i < layout.registers@.len() ==> (#[trigger] layout.registers@[i]).info.lo_offset
                    + 4 <= len && layout.registers@[i].info.hi_offset + 4 <= len
        },
{
}

/// Where a register is, is said by the first entry for it; it is nowhere only if there is no entry.
pub proof fn law_register_lookup(
    registers: Seq<RegisterEntry>,
    register: MmSaveStateRegister,
    from: int,
)
    requires
        0 <= from,
    ensures
        match info_of(registers, register, from) {
            Some(info) => exists|i: int|
                from <= i < registers.len() && (#[trigger] registers[i]).register == register
                    && registers[i].info == info && forall|j: int|
                    from <= j < i ==> (#[trigger] registers[j]).register != register,
            None => forall|j: int|
                from <= j < registers.len() ==> (#[trigger] registers[j]).register != register,
        },
    decreases registers.len() - from,
{
    if from < registers.len() {
        if registers[from].register == register {
            assert(registers[from].info == info_of(registers, register, from)->0);
        } else {
            law_register_lookup(registers, register, from + 1);
        }
    }
}

/// The revision of a save state is the 32-bit value at its offset.
pub proof fn law_revision(layout: &SaveStateLayout, save_state: Seq<u8>)
    ensures
        layout.revision(save_state) == le32(save_state, layout.smmrevid_offset as int),
{
}

/// The kinds of I/O, the modes that the LMA register tells, and the bit of EFER that it is read
/// from.
pub proof fn law_save_state_numbers()
    ensures
        IO_TYPE_INPUT == 1,
        IO_TYPE_OUTPUT == 2,
        LMA_32BIT == 32,
        LMA_64BIT == 64,
        IA32_EFER_LMA == 0x400,
        IO_INFO_SIZE == 2 * 8 + 2 * 4,
{
}

} // verus!
