//! Secure policy data structures and their byte layout.

use crate::bytes::{le16, le32, le64, read_u16, read_u32, read_u64};
use vstd::prelude::*;

verus! {

// ============================================================================
// Policy descriptor types
// ============================================================================

/// Memory policy descriptor type.
pub const TYPE_MEM: u32 = 1;

/// I/O policy descriptor type.
pub const TYPE_IO: u32 = 2;

/// MSR policy descriptor type.
pub const TYPE_MSR: u32 = 3;

/// Instruction policy descriptor type.
pub const TYPE_INSTRUCTION: u32 = 4;

/// Save state policy descriptor type.
pub const TYPE_SAVE_STATE: u32 = 5;

// ============================================================================
// Access attributes
// ============================================================================

/// Access attribute: the resources described by this policy root are allowed.
pub const ACCESS_ATTR_ALLOW: u8 = 0;

/// Access attribute: the resources described by this policy root are denied.
pub const ACCESS_ATTR_DENY: u8 = 1;

// ============================================================================
// Resource attributes
// ============================================================================

/// Resource attribute: read access.
pub const RESOURCE_ATTR_READ: u32 = 0x01;

/// Resource attribute: write access.
pub const RESOURCE_ATTR_WRITE: u32 = 0x02;

/// Resource attribute: execute access.
pub const RESOURCE_ATTR_EXECUTE: u32 = 0x04;

/// Resource attribute: strict width (an I/O access must match the exact width).
pub const RESOURCE_ATTR_STRICT_WIDTH: u32 = 0x08;

/// Resource attribute: conditional read access.
pub const RESOURCE_ATTR_COND_READ: u32 = 0x10;

/// Resource attribute: conditional write access.
pub const RESOURCE_ATTR_COND_WRITE: u32 = 0x20;

// ============================================================================
// Instructions
// ============================================================================

/// Instruction index for CLI.
pub const INSTRUCTION_CLI: u16 = 0;

/// Instruction index for WBINVD.
pub const INSTRUCTION_WBINVD: u16 = 1;

/// Instruction index for HLT.
pub const INSTRUCTION_HLT: u16 = 2;

/// Total count of privileged instructions tracked.
pub const INSTRUCTION_COUNT: u16 = 3;

/// Privileged instructions.
#[derive(Debug, Clone, Copy, PartialEq, Eq, Structural)]
pub enum Instruction {
    /// CLI: clear interrupt flag.
    Cli,
    /// WBINVD: write back and invalidate cache.
    Wbinvd,
    /// HLT: halt.
    Hlt,
}

impl Instruction {
    /// The index of the instruction in a policy descriptor.
    pub open spec fn index(self) -> u16 {
        match self {
            Instruction::Cli => INSTRUCTION_CLI,
            Instruction::Wbinvd => INSTRUCTION_WBINVD,
            Instruction::Hlt => INSTRUCTION_HLT,
        }
    }

    /// Converts to an instruction index.
    pub fn as_index(self) -> (r: u16)
        ensures
            r == self.index(),
            r < INSTRUCTION_COUNT,
    {
        match self {
            Instruction::Cli => INSTRUCTION_CLI,
            Instruction::Wbinvd => INSTRUCTION_WBINVD,
            Instruction::Hlt => INSTRUCTION_HLT,
        }
    }

    /// Creates from an instruction index.
    pub fn from_index(index: u16) -> (r: Option<Self>)
        ensures
            match r {
                Some(i) => i.index() == index,
                None => index >= INSTRUCTION_COUNT,
            },
    {
        match index {
            0 => Some(Instruction::Cli),
            1 => Some(Instruction::Wbinvd),
            2 => Some(Instruction::Hlt),
            _ => None,
        }
    }
}

// ============================================================================
// Save state fields and conditions
// ============================================================================

/// Save state field: RAX register.
pub const SVST_RAX: u32 = 0;

/// Save state field: I/O trap information.
pub const SVST_IO_TRAP: u32 = 1;

/// Total count of save state fields tracked.
pub const SVST_COUNT: u32 = 2;

/// Save state map fields.
#[derive(Debug, Clone, Copy, PartialEq, Eq, Structural)]
pub enum SaveStateField {
    /// RAX register.
    Rax,
    /// I/O trap information.
    IoTrap,
}

impl SaveStateField {
    /// The index of the field in a policy descriptor.
    pub open spec fn index(self) -> u32 {
        match self {
            SaveStateField::Rax => SVST_RAX,
            SaveStateField::IoTrap => SVST_IO_TRAP,
        }
    }

    /// Converts to a field index.
    pub fn as_index(self) -> (r: u32)
        ensures
            r == self.index(),
            r < SVST_COUNT,
    {
        match self {
            SaveStateField::Rax => SVST_RAX,
            SaveStateField::IoTrap => SVST_IO_TRAP,
        }
    }

    /// Creates from a field index.
    pub fn from_index(index: u32) -> (r: Option<Self>)
        ensures
            match r {
                Some(f) => f.index() == index,
                None => index >= SVST_COUNT,
            },
    {
        match index {
            0 => Some(SaveStateField::Rax),
            1 => Some(SaveStateField::IoTrap),
            _ => None,
        }
    }
}

/// Save state access is unconditional.
pub const SVST_UNCONDITIONAL: u32 = 0;

/// Save state access is conditional on an I/O read trap.
pub const SVST_CONDITION_IO_RD: u32 = 1;

/// Save state access is conditional on an I/O write trap.
pub const SVST_CONDITION_IO_WR: u32 = 2;

/// Total count of save state conditions.
pub const SVST_CONDITION_COUNT: u32 = 3;

/// Save state access conditions.
#[derive(Debug, Clone, Copy, PartialEq, Eq, Structural)]
pub enum SaveStateCondition {
    /// Unconditional access.
    Unconditional,
    /// Conditional on an I/O read trap.
    IoRead,
    /// Conditional on an I/O write trap.
    IoWrite,
}

impl SaveStateCondition {
    /// The number of the condition in a policy descriptor.
    pub open spec fn index(self) -> u32 {
        match self {
            SaveStateCondition::Unconditional => SVST_UNCONDITIONAL,
            SaveStateCondition::IoRead => SVST_CONDITION_IO_RD,
            SaveStateCondition::IoWrite => SVST_CONDITION_IO_WR,
        }
    }

    /// Converts to the number of the condition.
    pub fn as_index(self) -> (r: u32)
        ensures
            r == self.index(),
            r < SVST_CONDITION_COUNT,
    {
        match self {
            SaveStateCondition::Unconditional => SVST_UNCONDITIONAL,
            SaveStateCondition::IoRead => SVST_CONDITION_IO_RD,
            SaveStateCondition::IoWrite => SVST_CONDITION_IO_WR,
        }
    }
}

// ============================================================================
// Access types and I/O widths
// ============================================================================

/// Type of access being requested.
#[derive(Debug, Clone, Copy, PartialEq, Eq, Structural)]
pub enum AccessType {
    /// Read access.
    Read,
    /// Write access.
    Write,
    /// Execute access (for instructions).
    Execute,
}

impl AccessType {
    /// The resource attribute that permits the access.
    pub open spec fn attr_mask(self) -> u32 {
        match self {
            AccessType::Read => RESOURCE_ATTR_READ,
            AccessType::Write => RESOURCE_ATTR_WRITE,
            AccessType::Execute => RESOURCE_ATTR_EXECUTE,
        }
    }

    /// Converts to a resource attribute mask.
    pub fn as_attr_mask(self) -> (r: u32)
        ensures
            r == self.attr_mask(),
    {
        match self {
            AccessType::Read => RESOURCE_ATTR_READ,
            AccessType::Write => RESOURCE_ATTR_WRITE,
            AccessType::Execute => RESOURCE_ATTR_EXECUTE,
        }
    }
}

/// I/O access width.
#[derive(Debug, Clone, Copy, PartialEq, Eq, Structural)]
pub enum IoWidth {
    /// 8-bit (1 byte) access.
    Byte,
    /// 16-bit (2 byte) access.
    Word,
    /// 32-bit (4 byte) access.
    Dword,
}

impl IoWidth {
    /// The width in bytes.
    pub open spec fn bytes(self) -> u32 {
        match self {
            IoWidth::Byte => 1,
            IoWidth::Word => 2,
            IoWidth::Dword => 4,
        }
    }

    /// Gets the size in bytes.
    pub fn size(self) -> (r: u32)
        ensures
            r == self.bytes(),
    {
        match self {
            IoWidth::Byte => 1,
            IoWidth::Word => 2,
            IoWidth::Dword => 4,
        }
    }

    /// Creates from the size in bytes.
    pub fn from_size(size: u32) -> (r: Option<Self>)
        ensures
            match r {
                Some(w) => w.bytes() == size,
                None => size != 1 && size != 2 && size != 4,
            },
    {
        match size {
            1 => Some(IoWidth::Byte),
            2 => Some(IoWidth::Word),
            4 => Some(IoWidth::Dword),
            _ => None,
        }
    }
}

// ============================================================================
// Policy data structures
// ============================================================================

/// Size in bytes of [`MemDescriptorV1_0`].
pub const MEM_DESCRIPTOR_SIZE: usize = 24;

/// Size in bytes of [`IoDescriptorV1_0`].
pub const IO_DESCRIPTOR_SIZE: usize = 8;

/// Size in bytes of [`MsrDescriptorV1_0`].
pub const MSR_DESCRIPTOR_SIZE: usize = 8;

/// Size in bytes of [`InstructionDescriptorV1_0`].
pub const INSTRUCTION_DESCRIPTOR_SIZE: usize = 8;

/// Size in bytes of [`SaveStateDescriptorV1_0`].
pub const SAVE_STATE_DESCRIPTOR_SIZE: usize = 16;

/// Size in bytes of [`PolicyRootV1`].
pub const POLICY_ROOT_SIZE: usize = 24;

/// Size in bytes of [`SecurePolicyDataV1_0`].
pub const POLICY_HEADER_SIZE: usize = 40;

/// Memory policy descriptor.
#[derive(Clone, Copy, Debug, Default, PartialEq, Eq, Structural)]
pub struct MemDescriptorV1_0 {
    /// Base address of the memory region.
    pub base_address: u64,
    /// Size of the memory region in bytes.
    pub size: u64,
    /// Memory attributes (combination of `RESOURCE_ATTR_*`).
    pub mem_attributes: u32,
    /// Reserved, must be 0.
    pub reserved: u32,
}

/// I/O policy descriptor.
#[derive(Clone, Copy, Debug, Default, PartialEq, Eq, Structural)]
pub struct IoDescriptorV1_0 {
    /// Base I/O port address.
    pub io_address: u16,
    /// Length or width of the I/O range.
    pub length_or_width: u16,
    /// I/O attributes (combination of `RESOURCE_ATTR_*`).
    pub attributes: u16,
    /// Reserved, must be 0.
    pub reserved: u16,
}

/// MSR policy descriptor.
#[derive(Clone, Copy, Debug, Default, PartialEq, Eq, Structural)]
pub struct MsrDescriptorV1_0 {
    /// Base MSR address.
    pub msr_address: u32,
    /// Length of the MSR range.
    pub length: u16,
    /// MSR attributes (combination of `RESOURCE_ATTR_*`).
    pub attributes: u16,
}

/// Instruction policy descriptor.
#[derive(Clone, Copy, Debug, Default, PartialEq, Eq, Structural)]
pub struct InstructionDescriptorV1_0 {
    /// Instruction index (one of the `INSTRUCTION_*` constants).
    pub instruction_index: u16,
    /// Instruction attributes (combination of `RESOURCE_ATTR_*`).
    pub attributes: u16,
    /// Reserved, must be 0.
    pub reserved: u32,
}

/// Save state policy descriptor.
#[derive(Clone, Copy, Debug, Default, PartialEq, Eq, Structural)]
pub struct SaveStateDescriptorV1_0 {
    /// Save state map field (one of the `SVST_*` constants).
    pub map_field: u32,
    /// Save state attributes (combination of `RESOURCE_ATTR_*`).
    pub attributes: u32,
    /// Access condition (one of the `SVST_CONDITION_*` constants).
    pub access_condition: u32,
    /// Reserved, must be 0.
    pub reserved: u32,
}

/// Policy root structure.
#[derive(Clone, Copy, Debug, Default, PartialEq, Eq)]
pub struct PolicyRootV1 {
    /// Version of this policy root structure.
    pub version: u32,
    /// Size of this policy root structure in bytes.
    pub policy_root_size: u32,
    /// Type of descriptors (one of the `TYPE_*` constants).
    pub policy_type: u32,
    /// Offset in bytes from the start of the policy data to the descriptors.
    pub offset: u32,
    /// Number of descriptor entries.
    pub count: u32,
    /// Access attribute (one of the `ACCESS_ATTR_*` constants).
    pub access_attr: u8,
    /// Reserved, must be all zeros.
    pub reserved: [u8; 3],
}

/// Secure policy data header.
#[derive(Clone, Copy, Debug, Default, PartialEq, Eq, Structural)]
pub struct SecurePolicyDataV1_0 {
    /// Minor version (should be 0x0000).
    pub version_minor: u16,
    /// Major version (should be 0x0001).
    pub version_major: u16,
    /// Total size in bytes of the entire policy block.
    pub size: u32,
    /// Offset to the legacy memory policy (0 if not supported).
    pub memory_policy_offset: u32,
    /// Count of legacy memory policy entries (0 if not supported).
    pub memory_policy_count: u32,
    /// Flag field indicating supervisor status.
    pub flags: u32,
    /// Capability field indicating features supported by the supervisor.
    pub capabilities: u32,
    /// Reserved, must be 0.
    pub reserved: u64,
    /// Offset from this structure to the policy root array.
    pub policy_root_offset: u32,
    /// Number of policy roots.
    pub policy_root_count: u32,
}

// ============================================================================
// Byte layout
// ============================================================================

/// The policy header that starts `s`.
pub open spec fn header_at(s: Seq<u8>) -> SecurePolicyDataV1_0 {
    SecurePolicyDataV1_0 {
        version_minor: le16(s, 0) as u16,
        version_major: le16(s, 2) as u16,
        size: le32(s, 4) as u32,
        memory_policy_offset: le32(s, 8) as u32,
        memory_policy_count: le32(s, 12) as u32,
        flags: le32(s, 16) as u32,
        capabilities: le32(s, 20) as u32,
        reserved: le64(s, 24) as u64,
        policy_root_offset: le32(s, 32) as u32,
        policy_root_count: le32(s, 36) as u32,
    }
}

/// The policy root at byte `at` of `s`.
pub open spec fn root_at(s: Seq<u8>, at: int) -> PolicyRootV1 {
    PolicyRootV1 {
        version: le32(s, at) as u32,
        policy_root_size: le32(s, at + 4) as u32,
        policy_type: le32(s, at + 8) as u32,
        offset: le32(s, at + 12) as u32,
        count: le32(s, at + 16) as u32,
        access_attr: s[at + 20],
        reserved: [s[at + 21], s[at + 22], s[at + 23]],
    }
}

/// The memory descriptor at byte `at` of `s`.
pub open spec fn mem_descriptor_at(s: Seq<u8>, at: int) -> MemDescriptorV1_0 {
    MemDescriptorV1_0 {
        base_address: le64(s, at) as u64,
        size: le64(s, at + 8) as u64,
        mem_attributes: le32(s, at + 16) as u32,
        reserved: le32(s, at + 20) as u32,
    }
}

/// The I/O descriptor at byte `at` of `s`.
pub open spec fn io_descriptor_at(s: Seq<u8>, at: int) -> IoDescriptorV1_0 {
    IoDescriptorV1_0 {
        io_address: le16(s, at) as u16,
        length_or_width: le16(s, at + 2) as u16,
        attributes: le16(s, at + 4) as u16,
        reserved: le16(s, at + 6) as u16,
    }
}

/// The MSR descriptor at byte `at` of `s`.
pub open spec fn msr_descriptor_at(s: Seq<u8>, at: int) -> MsrDescriptorV1_0 {
    MsrDescriptorV1_0 {
        msr_address: le32(s, at) as u32,
        length: le16(s, at + 4) as u16,
        attributes: le16(s, at + 6) as u16,
    }
}

/// The instruction descriptor at byte `at` of `s`.
pub open spec fn instruction_descriptor_at(s: Seq<u8>, at: int) -> InstructionDescriptorV1_0 {
    InstructionDescriptorV1_0 {
        instruction_index: le16(s, at) as u16,
        attributes: le16(s, at + 2) as u16,
        reserved: le32(s, at + 4) as u32,
    }
}

/// The save state descriptor at byte `at` of `s`.
pub open spec fn save_state_descriptor_at(s: Seq<u8>, at: int) -> SaveStateDescriptorV1_0 {
    SaveStateDescriptorV1_0 {
        map_field: le32(s, at) as u32,
        attributes: le32(s, at + 4) as u32,
        access_condition: le32(s, at + 8) as u32,
        reserved: le32(s, at + 12) as u32,
    }
}

/// Size in bytes of one descriptor of a policy type, 0 for a type without descriptors.
pub open spec fn descriptor_size(policy_type: u32) -> int {
    if policy_type == TYPE_MEM {
        MEM_DESCRIPTOR_SIZE as int
    } else if policy_type == TYPE_IO {
        IO_DESCRIPTOR_SIZE as int
    } else if policy_type == TYPE_MSR {
        MSR_DESCRIPTOR_SIZE as int
    } else if policy_type == TYPE_INSTRUCTION {
        INSTRUCTION_DESCRIPTOR_SIZE as int
    } else if policy_type == TYPE_SAVE_STATE {
        SAVE_STATE_DESCRIPTOR_SIZE as int
    } else {
        0
    }
}

/// The policy roots of the policy block `s`.
pub open spec fn policy_roots(s: Seq<u8>) -> Seq<PolicyRootV1> {
    Seq::new(
        header_at(s).policy_root_count as nat,
        |i: int| root_at(s, header_at(s).policy_root_offset + i * POLICY_ROOT_SIZE),
    )
}

/// The root array of `s` lies within `s`.
pub open spec fn roots_in_bounds(s: Seq<u8>) -> bool {
    &&& POLICY_HEADER_SIZE <= s.len()
    &&& header_at(s).policy_root_offset + header_at(s).policy_root_count * POLICY_ROOT_SIZE
        <= s.len()
}

/// `count` descriptors of `size` bytes each, from byte `offset` on, lie within `s`.
pub open spec fn array_in_bounds(s: Seq<u8>, offset: int, count: int, size: int) -> bool {
    offset + count * size <= s.len()
}

/// The descriptors of `root` lie within `s`.
pub open spec fn descriptors_in_bounds(s: Seq<u8>, root: PolicyRootV1) -> bool {
    descriptor_size(root.policy_type) > 0 ==> array_in_bounds(
        s,
        root.offset as int,
        root.count as int,
        descriptor_size(root.policy_type),
    )
}

/// A valid policy buffer: the header, the root array and the descriptors of every root
/// lie within it.
pub open spec fn valid_policy_buffer(s: Seq<u8>) -> bool {
    &&& roots_in_bounds(s)
    &&& forall|i: int|
        0 <= i < policy_roots(s).len() ==> #[trigger] descriptors_in_bounds(s, policy_roots(s)[i])
}

/// The memory descriptors of `root` in the policy block `s`.
pub open spec fn mem_descriptors(s: Seq<u8>, root: PolicyRootV1) -> Seq<MemDescriptorV1_0> {
    Seq::new(
        root.count as nat,
        |i: int| mem_descriptor_at(s, root.offset + i * MEM_DESCRIPTOR_SIZE),
    )
}

/// The I/O descriptors of `root` in the policy block `s`.
pub open spec fn io_descriptors(s: Seq<u8>, root: PolicyRootV1) -> Seq<IoDescriptorV1_0> {
    Seq::new(
        root.count as nat,
        |i: int| io_descriptor_at(s, root.offset + i * IO_DESCRIPTOR_SIZE),
    )
}

/// The MSR descriptors of `root` in the policy block `s`.
pub open spec fn msr_descriptors(s: Seq<u8>, root: PolicyRootV1) -> Seq<MsrDescriptorV1_0> {
    Seq::new(
        root.count as nat,
        |i: int| msr_descriptor_at(s, root.offset + i * MSR_DESCRIPTOR_SIZE),
    )
}

/// The instruction descriptors of `root` in the policy block `s`.
pub open spec fn instruction_descriptors(
    s: Seq<u8>,
    root: PolicyRootV1,
) -> Seq<InstructionDescriptorV1_0> {
    Seq::new(
        root.count as nat,
        |i: int| instruction_descriptor_at(s, root.offset + i * INSTRUCTION_DESCRIPTOR_SIZE),
    )
}

/// The save state descriptors of `root` in the policy block `s`.
pub open spec fn save_state_descriptors(
    s: Seq<u8>,
    root: PolicyRootV1,
) -> Seq<SaveStateDescriptorV1_0> {
    Seq::new(
        root.count as nat,
        |i: int| save_state_descriptor_at(s, root.offset + i * SAVE_STATE_DESCRIPTOR_SIZE),
    )
}

/// The first root of type `policy_type` at or after index `from`.
pub open spec fn first_root(
    roots: Seq<PolicyRootV1>,
    policy_type: u32,
    from: int,
) -> Option<PolicyRootV1>
    decreases roots.len() - from,
{
    if from >= roots.len() {
        None
    } else if roots[from].policy_type == policy_type {
        Some(roots[from])
    } else {
        first_root(roots, policy_type, from + 1)
    }
}

/// The policy root that governs `policy_type` in the policy block `s`: the first one of
/// that type.
pub open spec fn root_of_type(s: Seq<u8>, policy_type: u32) -> Option<PolicyRootV1> {
    first_root(policy_roots(s), policy_type, 0)
}

/// What [`first_root`] finds is a root of the type asked for, and none is missed.
pub proof fn lemma_first_root(roots: Seq<PolicyRootV1>, policy_type: u32, from: int)
    requires
        0 <= from,
    ensures
        match first_root(roots, policy_type, from) {
            Some(root) => exists|i: int|
                from <= i < roots.len() && #[trigger] roots[i] == root && root.policy_type
                    == policy_type && (forall|j: int|
                    from <= j < i ==> (#[trigger] roots[j]).policy_type != policy_type),
            None => forall|i: int|
                from <= i < roots.len() ==> (#[trigger] roots[i]).policy_type != policy_type,
        },
    decreases roots.len() - from,
{
    if from < roots.len() && roots[from].policy_type != policy_type {
        lemma_first_root(roots, policy_type, from + 1);
    }
}

impl SecurePolicyDataV1_0 {
    /// Reads the header at the start of a policy block.
    pub fn from_bytes(policy_base: &[u8]) -> (r: Self)
        requires
            POLICY_HEADER_SIZE <= policy_base@.len(),
        ensures
            r == header_at(policy_base@),
    {
        SecurePolicyDataV1_0 {
            version_minor: read_u16(policy_base, 0),
            version_major: read_u16(policy_base, 2),
            size: read_u32(policy_base, 4),
            memory_policy_offset: read_u32(policy_base, 8),
            memory_policy_count: read_u32(policy_base, 12),
            flags: read_u32(policy_base, 16),
            capabilities: read_u32(policy_base, 20),
            reserved: read_u64(policy_base, 24),
            policy_root_offset: read_u32(policy_base, 32),
            policy_root_count: read_u32(policy_base, 36),
        }
    }

    /// The header carries version 1.0.
    pub open spec fn version_1_0(self) -> bool {
        self.version_major == 1 && self.version_minor == 0
    }

    /// Returns true if this is a valid V1.0 policy header.
    pub fn is_valid_version(&self) -> (r: bool)
        ensures
            r == self.version_1_0(),
    {
        self.version_major == 1 && self.version_minor == 0
    }

    /// Gets the place of the policy root array: its offset from the start of the block.
    pub fn get_policy_roots_ptr(&self) -> (r: usize)
        ensures
            r == self.policy_root_offset,
    {
        self.policy_root_offset as usize
    }

    /// Gets the policy roots of the block that this header starts.
    pub fn get_policy_roots(&self, policy_base: &[u8]) -> (r: Vec<PolicyRootV1>)
        requires
            roots_in_bounds(policy_base@),
            *self == header_at(policy_base@),
        ensures
            r@ == policy_roots(policy_base@),
    {
        let base: usize = self.get_policy_roots_ptr();
        let count: usize = self.policy_root_count as usize;
        let mut roots: Vec<PolicyRootV1> = Vec::new();
        let len: usize = policy_base.len();
        let mut i: usize = 0;
        while i < count
            invariant
                len == policy_base@.len(),
                i <= count,
                count == self.policy_root_count,
                base == self.policy_root_offset,
                roots_in_bounds(policy_base@),
                *self == header_at(policy_base@),
                roots@ == policy_roots(policy_base@).take(i as int),
            decreases count - i,
        {
            assert(base + i * POLICY_ROOT_SIZE + POLICY_ROOT_SIZE <= len) by (nonlinear_arith)
                requires
                    i < count,
                    base + count * POLICY_ROOT_SIZE <= len,
            ;
            roots.push(PolicyRootV1::from_bytes(policy_base, base + i * POLICY_ROOT_SIZE));
            i = i + 1;
            assert(roots@ =~= policy_roots(policy_base@).take(i as int));
        }
        assert(roots@ =~= policy_roots(policy_base@));
        roots
    }
}

impl PolicyRootV1 {
    /// Reads the policy root at byte `at` of a policy block.
    pub fn from_bytes(policy_base: &[u8], at: usize) -> (r: Self)
        requires
            at + POLICY_ROOT_SIZE <= policy_base.len(),
        ensures
            r == root_at(policy_base@, at as int),
    {
        PolicyRootV1 {
            version: read_u32(policy_base, at),
            policy_root_size: read_u32(policy_base, at + 4),
            policy_type: read_u32(policy_base, at + 8),
            offset: read_u32(policy_base, at + 12),
            count: read_u32(policy_base, at + 16),
            access_attr: policy_base[at + 20],
            reserved: [policy_base[at + 21], policy_base[at + 22], policy_base[at + 23]],
        }
    }

    /// The reserved bytes are all zero.
    pub open spec fn reserved_zero(self) -> bool {
        self.reserved[0] == 0 && self.reserved[1] == 0 && self.reserved[2] == 0
    }

    /// Returns true if the reserved fields are all zeros.
    pub fn has_valid_reserved(&self) -> (r: bool)
        ensures
            r == self.reserved_zero(),
    {
        self.reserved[0] == 0 && self.reserved[1] == 0 && self.reserved[2] == 0
    }

    /// Gets the place of the descriptors of this policy root: their offset from the start of
    /// the policy block.
    pub fn get_descriptors_ptr(&self) -> (r: usize)
        ensures
            r == self.offset,
    {
        self.offset as usize
    }

    /// Gets the memory descriptors of this policy root.
    pub fn get_mem_descriptors(&self, policy_base: &[u8]) -> (r: Vec<MemDescriptorV1_0>)
        requires
            array_in_bounds(
                policy_base@,
                self.offset as int,
                self.count as int,
                MEM_DESCRIPTOR_SIZE as int,
            ),
        ensures
            r@ == mem_descriptors(policy_base@, *self),
    {
        let base: usize = self.get_descriptors_ptr();
        let count: usize = self.count as usize;
        let mut descriptors: Vec<MemDescriptorV1_0> = Vec::new();
        let len: usize = policy_base.len();
        let mut i: usize = 0;
        while i < count
            invariant
                len == policy_base@.len(),
                i <= count,
                count == self.count,
                base == self.offset,
                base + count * MEM_DESCRIPTOR_SIZE <= policy_base@.len(),
                descriptors@ == mem_descriptors(policy_base@, *self).take(i as int),
            decreases count - i,
        {
            assert(base + i * MEM_DESCRIPTOR_SIZE + MEM_DESCRIPTOR_SIZE <= len) by (nonlinear_arith)
                requires
                    i < count,
                    base + count * MEM_DESCRIPTOR_SIZE <= len,
            ;
            let at: usize = base + i * MEM_DESCRIPTOR_SIZE;
            descriptors.push(
                MemDescriptorV1_0 {
                    base_address: read_u64(policy_base, at),
                    size: read_u64(policy_base, at + 8),
                    mem_attributes: read_u32(policy_base, at + 16),
                    reserved: read_u32(policy_base, at + 20),
                },
            );
            i = i + 1;
            assert(descriptors@ =~= mem_descriptors(policy_base@, *self).take(i as int));
        }
        assert(descriptors@ =~= mem_descriptors(policy_base@, *self));
        descriptors
    }

    /// Gets the I/O descriptors of this policy root.
    pub fn get_io_descriptors(&self, policy_base: &[u8]) -> (r: Vec<IoDescriptorV1_0>)
        requires
            array_in_bounds(
                policy_base@,
                self.offset as int,
                self.count as int,
                IO_DESCRIPTOR_SIZE as int,
            ),
        ensures
            r@ == io_descriptors(policy_base@, *self),
    {
        let base: usize = self.get_descriptors_ptr();
        let count: usize = self.count as usize;
        let mut descriptors: Vec<IoDescriptorV1_0> = Vec::new();
        let len: usize = policy_base.len();
        let mut i: usize = 0;
        while i < count
            invariant
                len == policy_base@.len(),
                i <= count,
                count == self.count,
                base == self.offset,
                base + count * IO_DESCRIPTOR_SIZE <= policy_base@.len(),
                descriptors@ == io_descriptors(policy_base@, *self).take(i as int),
            decreases count - i,
        {
            assert(base + i * IO_DESCRIPTOR_SIZE + IO_DESCRIPTOR_SIZE <= len) by (nonlinear_arith)
                requires
                    i < count,
                    base + count * IO_DESCRIPTOR_SIZE <= len,
            ;
            let at: usize = base + i * IO_DESCRIPTOR_SIZE;
            descriptors.push(
                IoDescriptorV1_0 {
                    io_address: read_u16(policy_base, at),
                    length_or_width: read_u16(policy_base, at + 2),
                    attributes: read_u16(policy_base, at + 4),
                    reserved: read_u16(policy_base, at + 6),
                },
            );
            i = i + 1;
            assert(descriptors@ =~= io_descriptors(policy_base@, *self).take(i as int));
        }
        assert(descriptors@ =~= io_descriptors(policy_base@, *self));
        descriptors
    }

    /// Gets the MSR descriptors of this policy root.
    pub fn get_msr_descriptors(&self, policy_base: &[u8]) -> (r: Vec<MsrDescriptorV1_0>)
        requires
            array_in_bounds(
                policy_base@,
                self.offset as int,
                self.count as int,
                MSR_DESCRIPTOR_SIZE as int,
            ),
        ensures
            r@ == msr_descriptors(policy_base@, *self),
    {
        let base: usize = self.get_descriptors_ptr();
        let count: usize = self.count as usize;
        let mut descriptors: Vec<MsrDescriptorV1_0> = Vec::new();
        let len: usize = policy_base.len();
        let mut i: usize = 0;
        while i < count
            invariant
                len == policy_base@.len(),
                i <= count,
                count == self.count,
                base == self.offset,
                base + count * MSR_DESCRIPTOR_SIZE <= policy_base@.len(),
                descriptors@ == msr_descriptors(policy_base@, *self).take(i as int),
            decreases count - i,
        {
            assert(base + i * MSR_DESCRIPTOR_SIZE + MSR_DESCRIPTOR_SIZE <= len) by (nonlinear_arith)
                requires
                    i < count,
                    base + count * MSR_DESCRIPTOR_SIZE <= len,
            ;
            let at: usize = base + i * MSR_DESCRIPTOR_SIZE;
            descriptors.push(
                MsrDescriptorV1_0 {
                    msr_address: read_u32(policy_base, at),
                    length: read_u16(policy_base, at + 4),
                    attributes: read_u16(policy_base, at + 6),
                },
            );
            i = i + 1;
            assert(descriptors@ =~= msr_descriptors(policy_base@, *self).take(i as int));
        }
        assert(descriptors@ =~= msr_descriptors(policy_base@, *self));
        descriptors
    }

    /// Gets the instruction descriptors of this policy root.
    pub fn get_instruction_descriptors(&self, policy_base: &[u8]) -> (r: Vec<
        InstructionDescriptorV1_0,
    >)
        requires
            array_in_bounds(
                policy_base@,
                self.offset as int,
                self.count as int,
                INSTRUCTION_DESCRIPTOR_SIZE as int,
            ),
        ensures
            r@ == instruction_descriptors(policy_base@, *self),
    {
        let base: usize = self.get_descriptors_ptr();
        let count: usize = self.count as usize;
        let mut descriptors: Vec<InstructionDescriptorV1_0> = Vec::new();
        let len: usize = policy_base.len();
        let mut i: usize = 0;
        while i < count
            invariant
                len == policy_base@.len(),
                i <= count,
                count == self.count,
                base == self.offset,
                base + count * INSTRUCTION_DESCRIPTOR_SIZE <= policy_base@.len(),
                descriptors@ == instruction_descriptors(policy_base@, *self).take(i as int),
            decreases count - i,
        {
            assert(base + i * INSTRUCTION_DESCRIPTOR_SIZE + INSTRUCTION_DESCRIPTOR_SIZE <= len)
                by (nonlinear_arith)
                requires
                    i < count,
                    base + count * INSTRUCTION_DESCRIPTOR_SIZE <= len,
            ;
            let at: usize = base + i * INSTRUCTION_DESCRIPTOR_SIZE;
            descriptors.push(
                InstructionDescriptorV1_0 {
                    instruction_index: read_u16(policy_base, at),
                    attributes: read_u16(policy_base, at + 2),
                    reserved: read_u32(policy_base, at + 4),
                },
            );
            i = i + 1;
            assert(descriptors@ =~= instruction_descriptors(policy_base@, *self).take(i as int));
        }
        assert(descriptors@ =~= instruction_descriptors(policy_base@, *self));
        descriptors
    }

    /// Gets the save state descriptors of this policy root.
    pub fn get_save_state_descriptors(&self, policy_base: &[u8]) -> (r: Vec<
        SaveStateDescriptorV1_0,
    >)
        requires
            array_in_bounds(
                policy_base@,
                self.offset as int,
                self.count as int,
                SAVE_STATE_DESCRIPTOR_SIZE as int,
            ),
        ensures
            r@ == save_state_descriptors(policy_base@, *self),
    {
        let base: usize = self.get_descriptors_ptr();
        let count: usize = self.count as usize;
        let mut descriptors: Vec<SaveStateDescriptorV1_0> = Vec::new();
        let len: usize = policy_base.len();
        let mut i: usize = 0;
        while i < count
            invariant
                len == policy_base@.len(),
                i <= count,
                count == self.count,
                base == self.offset,
                base + count * SAVE_STATE_DESCRIPTOR_SIZE <= policy_base@.len(),
                descriptors@ == save_state_descriptors(policy_base@, *self).take(i as int),
            decreases count - i,
        {
            assert(base + i * SAVE_STATE_DESCRIPTOR_SIZE + SAVE_STATE_DESCRIPTOR_SIZE <= len)
                by (nonlinear_arith)
                requires
                    i < count,
                    base + count * SAVE_STATE_DESCRIPTOR_SIZE <= len,
            ;
            let at: usize = base + i * SAVE_STATE_DESCRIPTOR_SIZE;
            descriptors.push(
                SaveStateDescriptorV1_0 {
                    map_field: read_u32(policy_base, at),
                    attributes: read_u32(policy_base, at + 4),
                    access_condition: read_u32(policy_base, at + 8),
                    reserved: read_u32(policy_base, at + 12),
                },
            );
            i = i + 1;
            assert(descriptors@ =~= save_state_descriptors(policy_base@, *self).take(i as int));
        }
        assert(descriptors@ =~= save_state_descriptors(policy_base@, *self));
        descriptors
    }
}

/// Checks that a byte buffer is a valid policy buffer.
pub fn is_policy_buffer(policy_base: &[u8]) -> (r: bool)
    ensures
        r == valid_policy_buffer(policy_base@),
{
    if policy_base.len() < POLICY_HEADER_SIZE {
        return false;
    }
    let header = SecurePolicyDataV1_0::from_bytes(policy_base);
    let len: u64 = policy_base.len() as u64;
    if header.policy_root_offset as u64 + header.policy_root_count as u64 * 24 > len {
        return false;
    }
    let roots = header.get_policy_roots(policy_base);
    let mut i: usize = 0;
    while i < roots.len()
        invariant
            i <= roots.len(),
            len == policy_base@.len(),
            roots@ == policy_roots(policy_base@),
            roots_in_bounds(policy_base@),
            forall|j: int|
                0 <= j < i ==> #[trigger] descriptors_in_bounds(
                    policy_base@,
                    policy_roots(policy_base@)[j],
                ),
        decreases roots.len() - i,
    {
        let root = roots[i];
        let size: u64 = match root.policy_type {
            TYPE_MEM => 24,
            TYPE_SAVE_STATE => 16,
            TYPE_IO | TYPE_MSR | TYPE_INSTRUCTION => 8,
            _ => 0,
        };
        assert(size == descriptor_size(root.policy_type));
        assert(root.count as u64 * size <= 0xffff_ffff * 24) by (nonlinear_arith)
            requires
                size <= 24,
        ;
        if size > 0 && root.offset as u64 + root.count as u64 * size > len {
            assert(!descriptors_in_bounds(policy_base@, policy_roots(policy_base@)[i as int]));
            return false;
        }
        i = i + 1;
    }
    true
}

/// An instruction is determined by its index, a save state field by its own, and an I/O
/// width by its size: converting there and back gives the value that went in.
pub proof fn law_indices_injective(
    i1: Instruction,
    i2: Instruction,
    f1: SaveStateField,
    f2: SaveStateField,
    w1: IoWidth,
    w2: IoWidth,
)
    ensures
        i1.index() == i2.index() ==> i1 == i2,
        f1.index() == f2.index() ==> f1 == f2,
        w1.bytes() == w2.bytes() ==> w1 == w2,
{
}

/// Where the fields of a policy are: of its header, from its start, and of a root.
pub proof fn law_policy_layout(s: Seq<u8>, at: int)
    ensures
        ({
            let h = header_at(s);
            &&& h.version_minor == le16(s, 0) as u16
            &&& h.version_major == le16(s, 2) as u16
            &&& h.size == le32(s, 4) as u32
            &&& h.memory_policy_offset == le32(s, 8) as u32
            &&& h.memory_policy_count == le32(s, 12) as u32
            &&& h.flags == le32(s, 16) as u32
            &&& h.capabilities == le32(s, 20) as u32
            &&& h.reserved == le64(s, 24) as u64
            &&& h.policy_root_offset == le32(s, 32) as u32
            &&& h.policy_root_count == le32(s, 36) as u32
        }),
        ({
            let r = root_at(s, at);
            &&& r.version == le32(s, at) as u32
            &&& r.policy_root_size == le32(s, at + 4) as u32
            &&& r.policy_type == le32(s, at + 8) as u32
            &&& r.offset == le32(s, at + 12) as u32
            &&& r.count == le32(s, at + 16) as u32
            &&& r.access_attr == s[at + 20]
            &&& r.reserved[0] == s[at + 21] && r.reserved[1] == s[at + 22] && r.reserved[2] == s[at
                + 23]
        }),
{
}

/// Where the fields of a descriptor are, of each kind.
pub proof fn law_descriptor_layouts(s: Seq<u8>, at: int)
    ensures
        ({
            let d = mem_descriptor_at(s, at);
            &&& d.base_address == le64(s, at) as u64
            &&& d.size == le64(s, at + 8) as u64
            &&& d.mem_attributes == le32(s, at + 16) as u32
            &&& d.reserved == le32(s, at + 20) as u32
        }),
        ({
            let d = io_descriptor_at(s, at);
            &&& d.io_address == le16(s, at) as u16
            &&& d.length_or_width == le16(s, at + 2) as u16
            &&& d.attributes == le16(s, at + 4) as u16
            &&& d.reserved == le16(s, at + 6) as u16
        }),
        ({
            let d = msr_descriptor_at(s, at);
            &&& d.msr_address == le32(s, at) as u32
            &&& d.length == le16(s, at + 4) as u16
            &&& d.attributes == le16(s, at + 6) as u16
        }),
        ({
            let d = instruction_descriptor_at(s, at);
            &&& d.instruction_index == le16(s, at) as u16
            &&& d.attributes == le16(s, at + 2) as u16
            &&& d.reserved == le32(s, at + 4) as u32
        }),
        ({
            let d = save_state_descriptor_at(s, at);
            &&& d.map_field == le32(s, at) as u32
            &&& d.attributes == le32(s, at + 4) as u32
            &&& d.access_condition == le32(s, at + 8) as u32
            &&& d.reserved == le32(s, at + 12) as u32
        }),
{
}

/// The roots of a policy stand one behind the other from where the header says, 24 bytes each; and
/// the descriptors of a root stand one behind the other from where the root says, in as many bytes
/// as their kind has.
pub proof fn law_policy_arrays(s: Seq<u8>, root: PolicyRootV1, i: int)
    ensures
        policy_roots(s).len() == header_at(s).policy_root_count,
        0 <= i < policy_roots(s).len() ==> policy_roots(s)[i] == root_at(
            s,
            header_at(s).policy_root_offset + 24 * i,
        ),
        mem_descriptors(s, root).len() == root.count,
        io_descriptors(s, root).len() == root.count,
        msr_descriptors(s, root).len() == root.count,
        instruction_descriptors(s, root).len() == root.count,
        save_state_descriptors(s, root).len() == root.count,
        0 <= i < root.count ==> {
            &&& mem_descriptors(s, root)[i] == mem_descriptor_at(s, root.offset + 24 * i)
            &&& io_descriptors(s, root)[i] == io_descriptor_at(s, root.offset + 8 * i)
            &&& msr_descriptors(s, root)[i] == msr_descriptor_at(s, root.offset + 8 * i)
            &&& instruction_descriptors(s, root)[i] == instruction_descriptor_at(
                s,
                root.offset + 8 * i,
            )
            &&& save_state_descriptors(s, root)[i] == save_state_descriptor_at(
                s,
                root.offset + 16 * i,
            )
        },
{
}

/// A policy buffer is valid if and only if it has room for the header, for the roots that the
/// header announces, and for the descriptors that every root of a known type announces.
pub proof fn law_valid_policy_buffer(s: Seq<u8>)
    ensures
        valid_policy_buffer(s) <==> {
            &&& 40 <= s.len()
            &&& header_at(s).policy_root_offset + 24 * header_at(s).policy_root_count <= s.len()
            &&& forall|i: int|
                0 <= i < policy_roots(s).len() ==> {
                    let root = #[trigger] policy_roots(s)[i];
                    &&& root.policy_type == TYPE_MEM ==> root.offset + 24 * root.count <= s.len()
                    &&& root.policy_type == TYPE_IO || root.policy_type == TYPE_MSR
                        || root.policy_type == TYPE_INSTRUCTION ==> root.offset + 8 * root.count
                        <= s.len()
                    &&& root.policy_type == TYPE_SAVE_STATE ==> root.offset + 16 * root.count
                        <= s.len()
                }
        },
{
    let roots = policy_roots(s);
    assert forall|i: int| 0 <= i < roots.len() implies #[trigger] descriptors_in_bounds(s, roots[i])
        == ({
        let root = roots[i];
        &&& root.policy_type == TYPE_MEM ==> root.offset + 24 * root.count <= s.len()
        &&& root.policy_type == TYPE_IO || root.policy_type == TYPE_MSR || root.policy_type
            == TYPE_INSTRUCTION ==> root.offset + 8 * root.count <= s.len()
        &&& root.policy_type == TYPE_SAVE_STATE ==> root.offset + 16 * root.count <= s.len()
    }) by {
        lemma_descriptor_bytes(roots[i]);
    }
    if valid_policy_buffer(s) {
        assert forall|i: int| 0 <= i < roots.len() implies ({
            let root = #[trigger] roots[i];
            &&& root.policy_type == TYPE_MEM ==> root.offset + 24 * root.count <= s.len()
            &&& root.policy_type == TYPE_IO || root.policy_type == TYPE_MSR || root.policy_type
                == TYPE_INSTRUCTION ==> root.offset + 8 * root.count <= s.len()
            &&& root.policy_type == TYPE_SAVE_STATE ==> root.offset + 16 * root.count <= s.len()
        }) by {
            assert(descriptors_in_bounds(s, roots[i]));
        }
    }
}

proof fn lemma_descriptor_bytes(root: PolicyRootV1)
    ensures
        ({
            let bytes = root.count as int * descriptor_size(root.policy_type);
            &&& root.policy_type == TYPE_MEM ==> bytes == 24 * root.count
            &&& root.policy_type == TYPE_IO || root.policy_type == TYPE_MSR || root.policy_type
                == TYPE_INSTRUCTION ==> bytes == 8 * root.count
            &&& root.policy_type == TYPE_SAVE_STATE ==> bytes == 16 * root.count
        }),
{
    let count = root.count as int;
    let size = descriptor_size(root.policy_type);
    if size == 24 {
        assert(count * size == 24 * count) by (nonlinear_arith)
            requires
                size == 24,
        ;
    } else if size == 16 {
        assert(count * size == 16 * count) by (nonlinear_arith)
            requires
                size == 16,
        ;
    } else if size == 8 {
        assert(count * size == 8 * count) by (nonlinear_arith)
            requires
                size == 8,
        ;
    }
}

/// The numbers that policies know instructions, fields, conditions and kinds of access by, and the
/// sizes of I/O accesses.
pub proof fn law_policy_numbers(h: SecurePolicyDataV1_0)
    ensures
        Instruction::Cli.index() == 0,
        Instruction::Wbinvd.index() == 1,
        Instruction::Hlt.index() == 2,
        SaveStateField::Rax.index() == 0,
        SaveStateField::IoTrap.index() == 1,
        SaveStateCondition::Unconditional.index() == 0,
        SaveStateCondition::IoRead.index() == 1,
        SaveStateCondition::IoWrite.index() == 2,
        AccessType::Read.attr_mask() == 1,
        AccessType::Write.attr_mask() == 2,
        AccessType::Execute.attr_mask() == 4,
        IoWidth::Byte.bytes() == 1,
        IoWidth::Word.bytes() == 2,
        IoWidth::Dword.bytes() == 4,
        h.version_1_0() <==> h.version_major == 1 && h.version_minor == 0,
{
}

/// The types of policies are numbered from 1 on, and each attribute of a resource is a bit of its
/// own.
pub proof fn law_policy_types_and_attributes()
    ensures
        TYPE_MEM == 1,
        TYPE_IO == TYPE_MEM + 1,
        TYPE_MSR == TYPE_IO + 1,
        TYPE_INSTRUCTION == TYPE_MSR + 1,
        TYPE_SAVE_STATE == TYPE_INSTRUCTION + 1,
        ACCESS_ATTR_ALLOW == 0,
        ACCESS_ATTR_DENY == 1,
        RESOURCE_ATTR_READ == 1,
        RESOURCE_ATTR_WRITE == 2 * RESOURCE_ATTR_READ,
        RESOURCE_ATTR_EXECUTE == 2 * RESOURCE_ATTR_WRITE,
        RESOURCE_ATTR_STRICT_WIDTH == 2 * RESOURCE_ATTR_EXECUTE,
        RESOURCE_ATTR_COND_READ == 2 * RESOURCE_ATTR_STRICT_WIDTH,
        RESOURCE_ATTR_COND_WRITE == 2 * RESOURCE_ATTR_COND_READ,
        INSTRUCTION_COUNT == 3,
        SVST_COUNT == 2,
        SVST_CONDITION_COUNT == 3,
{
}

/// The sizes of what a policy is made of: each has room for its fields.
pub proof fn law_policy_sizes()
    ensures
        MEM_DESCRIPTOR_SIZE == 2 * 8 + 2 * 4,
        IO_DESCRIPTOR_SIZE == 4 * 2,
        MSR_DESCRIPTOR_SIZE == 4 + 2 * 2,
        INSTRUCTION_DESCRIPTOR_SIZE == 4 * 2,
        SAVE_STATE_DESCRIPTOR_SIZE == 4 * 4,
        POLICY_ROOT_SIZE == 6 * 4,
        POLICY_HEADER_SIZE == 10 * 4,
{
}

} // verus!
