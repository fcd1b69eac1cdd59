//! Policy helper functions.
//!
//! - Dumping: what a debug dump of a policy reports, as a list of records.
//! - Comparing two policies, whatever the order of their entries.
//! - Validating a policy before it is installed.
//! - Building a memory policy out of page table entries.

use crate::policy::gate::{find_root, lemma_root_in_bounds};
use crate::policy::types::{
    descriptor_size, descriptors_in_bounds, header_at, instruction_descriptors, io_descriptors,
    mem_descriptors, msr_descriptors, policy_roots, root_of_type, save_state_descriptors,
    valid_policy_buffer, InstructionDescriptorV1_0, IoDescriptorV1_0, MemDescriptorV1_0,
    MsrDescriptorV1_0, PolicyRootV1, SaveStateDescriptorV1_0, SecurePolicyDataV1_0,
    ACCESS_ATTR_ALLOW, POLICY_HEADER_SIZE, POLICY_ROOT_SIZE, RESOURCE_ATTR_COND_READ,
    RESOURCE_ATTR_COND_WRITE, RESOURCE_ATTR_EXECUTE, RESOURCE_ATTR_READ, RESOURCE_ATTR_WRITE,
    SVST_UNCONDITIONAL, TYPE_INSTRUCTION, TYPE_IO, TYPE_MEM, TYPE_MSR, TYPE_SAVE_STATE,
};
use vstd::prelude::*;

verus! {

// ============================================================================
// Policy dumping
// ============================================================================

/// One record of a policy dump.
#[allow(inconsistent_fields)]
#[derive(Debug, Clone, Copy, PartialEq, Eq)]
pub enum PolicyDumpRecord {
    /// There is no policy to dump.
    NoPolicy,
    /// The policy header.
    Header(SecurePolicyDataV1_0),
    /// A policy root, its index, and whether its list is an allow list.
    Root { index: usize, root: PolicyRootV1, allow: bool },
    /// A memory region with the accesses it permits; `last` is its last address.
    Mem { first: u64, last: u64, read: bool, write: bool, execute: bool },
    /// A range of I/O ports with the accesses it permits; `last` is its last port.
    Io { first: u16, last: u32, read: bool, write: bool },
    /// A range of MSRs with the accesses it permits; `last` is its last register.
    Msr { first: u32, last: u32, read: bool, write: bool },
    /// An instruction by name, and whether it may be executed.
    Instruction { name: &'static str, execute: bool },
    /// A save state field by name, its attributes, and its condition by name.
    SaveState { field: &'static str, attributes: u32, condition: &'static str },
    /// A policy root of a type that has no descriptors.
    UnknownType { policy_type: u32 },
}

/// `x` unless that is over `max`, and then `max`.
pub open spec fn cap(x: int, max: int) -> int {
    if x > max {
        max
    } else {
        x
    }
}

/// The last element of a range that holds `size` elements from `first` on: a range without
/// elements is reported as ending one before its start, but not below 0, and a range that
/// leaves the number space as ending one before its last number.
pub open spec fn last_of(first: int, size: int, max: int) -> int {
    if first == 0 && size == 0 {
        0
    } else {
        cap(first + size, max) - 1
    }
}

/// The record of a memory descriptor.
pub open spec fn mem_record(d: MemDescriptorV1_0) -> PolicyDumpRecord {
    PolicyDumpRecord::Mem {
        first: d.base_address,
        last: last_of(d.base_address as int, d.size as int, u64::MAX as int) as u64,
        read: d.mem_attributes & RESOURCE_ATTR_READ != 0,
        write: d.mem_attributes & RESOURCE_ATTR_WRITE != 0,
        execute: d.mem_attributes & RESOURCE_ATTR_EXECUTE != 0,
    }
}

/// The record of an I/O descriptor.
pub open spec fn io_record(d: IoDescriptorV1_0) -> PolicyDumpRecord {
    PolicyDumpRecord::Io {
        first: d.io_address,
        last: last_of(d.io_address as int, d.length_or_width as int, u32::MAX as int) as u32,
        read: d.attributes as u32 & RESOURCE_ATTR_READ != 0,
        write: d.attributes as u32 & RESOURCE_ATTR_WRITE != 0,
    }
}

/// The record of an MSR descriptor.
pub open spec fn msr_record(d: MsrDescriptorV1_0) -> PolicyDumpRecord {
    PolicyDumpRecord::Msr {
        first: d.msr_address,
        last: last_of(d.msr_address as int, d.length as int, u32::MAX as int) as u32,
        read: d.attributes as u32 & RESOURCE_ATTR_READ != 0,
        write: d.attributes as u32 & RESOURCE_ATTR_WRITE != 0,
    }
}

/// The record of an instruction descriptor.
pub open spec fn instruction_record(d: InstructionDescriptorV1_0) -> PolicyDumpRecord {
    PolicyDumpRecord::Instruction {
        name: if d.instruction_index == 0 {
            "CLI"
        } else if d.instruction_index == 1 {
            "WBINVD"
        } else if d.instruction_index == 2 {
            "HLT"
        } else {
            "UNKNOWN"
        },
        execute: d.attributes as u32 & RESOURCE_ATTR_EXECUTE != 0,
    }
}

/// The record of a save state descriptor.
pub open spec fn save_state_record(d: SaveStateDescriptorV1_0) -> PolicyDumpRecord {
    PolicyDumpRecord::SaveState {
        field: if d.map_field == 0 {
            "RAX"
        } else if d.map_field == 1 {
            "IO_TRAP"
        } else {
            "UNKNOWN"
        },
        attributes: d.attributes,
        condition: if d.access_condition == 0 {
            "Unconditional"
        } else if d.access_condition == 1 {
            "IoRead"
        } else if d.access_condition == 2 {
            "IoWrite"
        } else {
            "Unknown"
        },
    }
}

/// The records of the descriptors of a policy root, in their order.
pub open spec fn descriptor_records(s: Seq<u8>, root: PolicyRootV1) -> Seq<PolicyDumpRecord> {
    if root.policy_type == TYPE_MEM {
        mem_descriptors(s, root).map_values(|d: MemDescriptorV1_0| mem_record(d))
    } else if root.policy_type == TYPE_IO {
        io_descriptors(s, root).map_values(|d: IoDescriptorV1_0| io_record(d))
    } else if root.policy_type == TYPE_MSR {
        msr_descriptors(s, root).map_values(|d: MsrDescriptorV1_0| msr_record(d))
    } else if root.policy_type == TYPE_INSTRUCTION {
        instruction_descriptors(s, root).map_values(
            |d: InstructionDescriptorV1_0| instruction_record(d),
        )
    } else if root.policy_type == TYPE_SAVE_STATE {
        save_state_descriptors(s, root).map_values(
            |d: SaveStateDescriptorV1_0| save_state_record(d),
        )
    } else {
        seq![PolicyDumpRecord::UnknownType { policy_type: root.policy_type }]
    }
}

/// The record of a policy root.
pub open spec fn root_record(index: int, root: PolicyRootV1) -> PolicyDumpRecord {
    PolicyDumpRecord::Root {
        index: index as usize,
        root,
        allow: root.access_attr == ACCESS_ATTR_ALLOW,
    }
}

/// The records of the first `n` policy roots, each followed by those of its descriptors.
pub open spec fn root_records(s: Seq<u8>, n: int) -> Seq<PolicyDumpRecord>
    decreases n,
{
    if n <= 0 {
        seq![]
    } else {
        root_records(s, n - 1).push(root_record(n - 1, policy_roots(s)[n - 1]))
            + descriptor_records(s, policy_roots(s)[n - 1])
    }
}

/// The records of a policy dump.
pub open spec fn policy_records(s: Seq<u8>) -> Seq<PolicyDumpRecord> {
    seq![PolicyDumpRecord::Header(header_at(s))] + root_records(s, policy_roots(s).len() as int)
}

/// Dumps a single memory policy entry.
pub fn dump_mem_policy_entry(desc: &MemDescriptorV1_0) -> (r: PolicyDumpRecord)
    ensures
        r == mem_record(*desc),
{
    PolicyDumpRecord::Mem {
        first: desc.base_address,
        last: desc.base_address.saturating_add(desc.size).saturating_sub(1),
        read: (desc.mem_attributes & RESOURCE_ATTR_READ) != 0,
        write: (desc.mem_attributes & RESOURCE_ATTR_WRITE) != 0,
        execute: (desc.mem_attributes & RESOURCE_ATTR_EXECUTE) != 0,
    }
}

/// Dumps the descriptors of a policy root.
fn dump_descriptors(policy_base: &[u8], root: &PolicyRootV1, records: &mut Vec<PolicyDumpRecord>)
    requires
        descriptors_in_bounds(policy_base@, *root),
    ensures
        final(records)@ == old(records)@ + descriptor_records(policy_base@, *root),
{
    let ghost before = records@;
    if root.policy_type == TYPE_MEM {
        let descriptors = root.get_mem_descriptors(policy_base);
        let ghost all = descriptor_records(policy_base@, *root);
        let mut i: usize = 0;
        while i < descriptors.len()
            invariant
                i <= descriptors.len(),
                descriptors@ == mem_descriptors(policy_base@, *root),
                all == descriptors@.map_values(|d: MemDescriptorV1_0| mem_record(d)),
                records@ == before + all.take(i as int),
            decreases descriptors.len() - i,
        {
            let desc = descriptors[i];
            records.push(dump_mem_policy_entry(&desc));
            i = i + 1;
            assert(records@ =~= before + all.take(i as int));
        }
        assert(all.take(i as int) =~= all);
    } else if root.policy_type == TYPE_IO {
        let descriptors = root.get_io_descriptors(policy_base);
        let ghost all = descriptor_records(policy_base@, *root);
        let mut i: usize = 0;
        while i < descriptors.len()
            invariant
                i <= descriptors.len(),
                descriptors@ == io_descriptors(policy_base@, *root),
                all == descriptors@.map_values(|d: IoDescriptorV1_0| io_record(d)),
                records@ == before + all.take(i as int),
            decreases descriptors.len() - i,
        {
            let desc = descriptors[i];
            records.push(
                PolicyDumpRecord::Io {
                    first: desc.io_address,
                    last: (desc.io_address as u32).saturating_add(
                        desc.length_or_width as u32,
                    ).saturating_sub(1),
                    read: (desc.attributes as u32 & RESOURCE_ATTR_READ) != 0,
                    write: (desc.attributes as u32 & RESOURCE_ATTR_WRITE) != 0,
                },
            );
            i = i + 1;
            assert(records@ =~= before + all.take(i as int));
        }
        assert(all.take(i as int) =~= all);
    } else if root.policy_type == TYPE_MSR {
        let descriptors = root.get_msr_descriptors(policy_base);
        let ghost all = descriptor_records(policy_base@, *root);
        let mut i: usize = 0;
        while i < descriptors.len()
            invariant
                i <= descriptors.len(),
                descriptors@ == msr_descriptors(policy_base@, *root),
                all == descriptors@.map_values(|d: MsrDescriptorV1_0| msr_record(d)),
                records@ == before + all.take(i as int),
            decreases descriptors.len() - i,
        {
            let desc = descriptors[i];
            records.push(
                PolicyDumpRecord::Msr {
                    first: desc.msr_address,
                    last: desc.msr_address.saturating_add(desc.length as u32).saturating_sub(1),
                    read: (desc.attributes as u32 & RESOURCE_ATTR_READ) != 0,
                    write: (desc.attributes as u32 & RESOURCE_ATTR_WRITE) != 0,
                },
            );
            i = i + 1;
            assert(records@ =~= before + all.take(i as int));
        }
        assert(all.take(i as int) =~= all);
    } else if root.policy_type == TYPE_INSTRUCTION {
        let descriptors = root.get_instruction_descriptors(policy_base);
        let ghost all = descriptor_records(policy_base@, *root);
        let mut i: usize = 0;
        while i < descriptors.len()
            invariant
                i <= descriptors.len(),
                descriptors@ == instruction_descriptors(policy_base@, *root),
                all == descriptors@.map_values(
                    |d: InstructionDescriptorV1_0| instruction_record(d),
                ),
                records@ == before + all.take(i as int),
            decreases descriptors.len() - i,
        {
            let desc = descriptors[i];
            let name = match desc.instruction_index {
                0 => "CLI",
                1 => "WBINVD",
                2 => "HLT",
                _ => "UNKNOWN",
            };
            let execute = (desc.attributes as u32 & RESOURCE_ATTR_EXECUTE) != 0;
            records.push(PolicyDumpRecord::Instruction { name, execute });
            i = i + 1;
            assert(records@ =~= before + all.take(i as int));
        }
        assert(all.take(i as int) =~= all);
    } else if root.policy_type == TYPE_SAVE_STATE {
        let descriptors = root.get_save_state_descriptors(policy_base);
        let ghost all = descriptor_records(policy_base@, *root);
        let mut i: usize = 0;
        while i < descriptors.len()
            invariant
                i <= descriptors.len(),
                descriptors@ == save_state_descriptors(policy_base@, *root),
                all == descriptors@.map_values(|d: SaveStateDescriptorV1_0| save_state_record(d)),
                records@ == before + all.take(i as int),
            decreases descriptors.len() - i,
        {
            let desc = descriptors[i];
            let field = match desc.map_field {
                0 => "RAX",
                1 => "IO_TRAP",
                _ => "UNKNOWN",
            };
            let condition = match desc.access_condition {
                0 => "Unconditional",
                1 => "IoRead",
                2 => "IoWrite",
                _ => "Unknown",
            };
            records.push(
                PolicyDumpRecord::SaveState { field, attributes: desc.attributes, condition },
            );
            i = i + 1;
            assert(records@ =~= before + all.take(i as int));
        }
        assert(all.take(i as int) =~= all);
    } else {
        records.push(PolicyDumpRecord::UnknownType { policy_type: root.policy_type });
        assert(records@ =~= before + descriptor_records(policy_base@, *root));
    }
}

/// Dumps policy data: the header, then every policy root with its descriptors.
pub fn dump_policy(policy_ptr: Option<&[u8]>) -> (r: Vec<PolicyDumpRecord>)
    requires
        policy_ptr matches Some(p) ==> valid_policy_buffer(p@),
    ensures
        match policy_ptr {
            None => r@ == seq![PolicyDumpRecord::NoPolicy],
            Some(p) => r@ == policy_records(p@),
        },
{
    let mut records: Vec<PolicyDumpRecord> = Vec::new();
    let policy_base = match policy_ptr {
        None => {
            records.push(PolicyDumpRecord::NoPolicy);
            return records;
        },
        Some(p) => p,
    };
    let policy = SecurePolicyDataV1_0::from_bytes(policy_base);
    records.push(PolicyDumpRecord::Header(policy));
    let roots = policy.get_policy_roots(policy_base);
    let ghost s = policy_base@;
    let ghost head = seq![PolicyDumpRecord::Header(header_at(s))];
    let mut i: usize = 0;
    assert(records@ =~= head + root_records(s, 0));
    while i < roots.len()
        invariant
            i <= roots.len(),
            s == policy_base@,
            roots@ == policy_roots(s),
            valid_policy_buffer(s),
            records@ == head + root_records(s, i as int),
        decreases roots.len() - i,
    {
        let root = roots[i];
        let ghost before = records@;
        records.push(
            PolicyDumpRecord::Root { index: i, root, allow: root.access_attr == ACCESS_ATTR_ALLOW },
        );
        assert(descriptors_in_bounds(s, policy_roots(s)[i as int]));
        dump_descriptors(policy_base, &root, &mut records);
        i = i + 1;
        assert(records@ =~= head + root_records(s, i as int));
    }
    records
}

// ============================================================================
// Policy comparison
// ============================================================================

/// The comparison of two lists: they have one length, and each entry of the first occurs in
/// the second.
pub open spec fn same_entries<K>(a: Seq<K>, b: Seq<K>) -> bool {
    a.len() == b.len() && forall|i: int| 0 <= i < a.len() ==> b.contains(#[trigger] a[i])
}

/// What is compared of a memory descriptor.
pub open spec fn mem_key(d: MemDescriptorV1_0) -> (u64, u64, u32) {
    (d.base_address, d.size, d.mem_attributes)
}

/// What is compared of an I/O descriptor.
pub open spec fn io_key(d: IoDescriptorV1_0) -> (u16, u16, u16) {
    (d.io_address, d.length_or_width, d.attributes)
}

/// What is compared of an MSR descriptor.
pub open spec fn msr_key(d: MsrDescriptorV1_0) -> (u32, u16, u16) {
    (d.msr_address, d.length, d.attributes)
}

/// What is compared of an instruction descriptor.
pub open spec fn instruction_key(d: InstructionDescriptorV1_0) -> (u16, u16) {
    (d.instruction_index, d.attributes)
}

/// What is compared of a save state descriptor.
pub open spec fn save_state_key(d: SaveStateDescriptorV1_0) -> (u32, u32, u32) {
    (d.map_field, d.attributes, d.access_condition)
}

/// What is compared of a list of memory descriptors.
pub open spec fn mem_keys(list: Seq<MemDescriptorV1_0>) -> Seq<(u64, u64, u32)> {
    list.map_values(|d: MemDescriptorV1_0| mem_key(d))
}

/// What is compared of a list of I/O descriptors.
pub open spec fn io_keys(list: Seq<IoDescriptorV1_0>) -> Seq<(u16, u16, u16)> {
    list.map_values(|d: IoDescriptorV1_0| io_key(d))
}

/// What is compared of a list of MSR descriptors.
pub open spec fn msr_keys(list: Seq<MsrDescriptorV1_0>) -> Seq<(u32, u16, u16)> {
    list.map_values(|d: MsrDescriptorV1_0| msr_key(d))
}

/// What is compared of a list of instruction descriptors.
pub open spec fn instruction_keys(list: Seq<InstructionDescriptorV1_0>) -> Seq<(u16, u16)> {
    list.map_values(|d: InstructionDescriptorV1_0| instruction_key(d))
}

/// What is compared of a list of save state descriptors.
pub open spec fn save_state_keys(list: Seq<SaveStateDescriptorV1_0>) -> Seq<(u32, u32, u32)> {
    list.map_values(|d: SaveStateDescriptorV1_0| save_state_key(d))
}

/// Whether two policy roots of one type say the same.
pub open spec fn roots_agree(s1: Seq<u8>, r1: PolicyRootV1, s2: Seq<u8>, r2: PolicyRootV1) -> bool {
    let t = r1.policy_type;
    &&& r1.access_attr == r2.access_attr
    &&& if t == TYPE_MEM {
        same_entries(mem_keys(mem_descriptors(s1, r1)), mem_keys(mem_descriptors(s2, r2)))
    } else if t == TYPE_IO {
        same_entries(io_keys(io_descriptors(s1, r1)), io_keys(io_descriptors(s2, r2)))
    } else if t == TYPE_MSR {
        same_entries(msr_keys(msr_descriptors(s1, r1)), msr_keys(msr_descriptors(s2, r2)))
    } else if t == TYPE_INSTRUCTION {
        same_entries(
            instruction_keys(instruction_descriptors(s1, r1)),
            instruction_keys(instruction_descriptors(s2, r2)),
        )
    } else if t == TYPE_SAVE_STATE {
        same_entries(
            save_state_keys(save_state_descriptors(s1, r1)),
            save_state_keys(save_state_descriptors(s2, r2)),
        )
    } else {
        false
    }
}

/// Whether two policy blocks agree on a policy type: neither has a root of it, or both have
/// and the roots say the same.
pub open spec fn policies_agree(s1: Seq<u8>, s2: Seq<u8>, policy_type: u32) -> bool {
    match (root_of_type(s1, policy_type), root_of_type(s2, policy_type)) {
        (None, None) => true,
        (Some(r1), Some(r2)) => roots_agree(s1, r1, s2, r2),
        _ => false,
    }
}

/// Compares two policies of a given type, whatever the order of their entries.
pub fn compare_policy_with_type(
    policy1_ptr: Option<&[u8]>,
    policy2_ptr: Option<&[u8]>,
    policy_type: u32,
) -> (r: bool)
    requires
        policy1_ptr matches Some(p) ==> valid_policy_buffer(p@),
        policy2_ptr matches Some(p) ==> valid_policy_buffer(p@),
    ensures
        r == (policy1_ptr matches Some(p1) && policy2_ptr matches Some(p2) && policies_agree(
            p1@,
            p2@,
            policy_type,
        )),
{
    let (base1, base2) = match (policy1_ptr, policy2_ptr) {
        (Some(p1), Some(p2)) => (p1, p2),
        _ => {
            return false;
        },
    };
    proof {
        lemma_root_in_bounds(base1@, policy_type);
        lemma_root_in_bounds(base2@, policy_type);
    }
    let roots1 = SecurePolicyDataV1_0::from_bytes(base1).get_policy_roots(base1);
    let roots2 = SecurePolicyDataV1_0::from_bytes(base2).get_policy_roots(base2);
    match (find_root(&roots1, policy_type), find_root(&roots2, policy_type)) {
        (None, None) => true,
        (Some(r1), Some(r2)) => {
            if r1.count != r2.count || r1.access_attr != r2.access_attr {
                return false;
            }
            match policy_type {
                TYPE_MEM => compare_mem_descriptors(
                    r1.get_mem_descriptors(base1).as_slice(),
                    r2.get_mem_descriptors(base2).as_slice(),
                ),
                TYPE_IO => compare_io_descriptors(
                    r1.get_io_descriptors(base1).as_slice(),
                    r2.get_io_descriptors(base2).as_slice(),
                ),
                TYPE_MSR => compare_msr_descriptors(
                    r1.get_msr_descriptors(base1).as_slice(),
                    r2.get_msr_descriptors(base2).as_slice(),
                ),
                TYPE_INSTRUCTION => compare_instruction_descriptors(
                    r1.get_instruction_descriptors(base1).as_slice(),
                    r2.get_instruction_descriptors(base2).as_slice(),
                ),
                TYPE_SAVE_STATE => compare_save_state_descriptors(
                    r1.get_save_state_descriptors(base1).as_slice(),
                    r2.get_save_state_descriptors(base2).as_slice(),
                ),
                _ => false,
            }
        },
        _ => false,
    }
}

/// Compares memory policies.
pub fn compare_memory_policy(policy1_ptr: Option<&[u8]>, policy2_ptr: Option<&[u8]>) -> (r: bool)
    requires
        policy1_ptr matches Some(p) ==> valid_policy_buffer(p@),
        policy2_ptr matches Some(p) ==> valid_policy_buffer(p@),
    ensures
        r == (policy1_ptr matches Some(p1) && policy2_ptr matches Some(p2) && policies_agree(
            p1@,
            p2@,
            TYPE_MEM,
        )),
{
    compare_policy_with_type(policy1_ptr, policy2_ptr, TYPE_MEM)
}

/// Compares two lists of memory descriptors, whatever their order.
pub fn compare_mem_descriptors(
    descs1: &[MemDescriptorV1_0],
    descs2: &[MemDescriptorV1_0],
) -> (r: bool)
    ensures
        r == same_entries(mem_keys(descs1@), mem_keys(descs2@)),
{
    if descs1.len() != descs2.len() {
        return false;
    }
    let ghost keys1 = mem_keys(descs1@);
    let ghost keys2 = mem_keys(descs2@);
    let mut i: usize = 0;
    while i < descs1.len()
        invariant
            i <= descs1.len(),
            descs1.len() == descs2.len(),
            keys1 == mem_keys(descs1@),
            keys2 == mem_keys(descs2@),
            forall|k: int| 0 <= k < i ==> keys2.contains(#[trigger] keys1[k]),
        decreases descs1.len() - i,
    {
        let d1 = descs1[i];
        let mut found = false;
        let mut j: usize = 0;
        while j < descs2.len() && !found
            invariant
                j <= descs2.len(),
                keys2 == mem_keys(descs2@),
                found ==> keys2.contains(mem_key(d1)),
                !found ==> forall|k: int| 0 <= k < j ==> #[trigger] keys2[k] != mem_key(d1),
            decreases descs2.len() - j,
        {
            let d2 = descs2[j];
            if d1.base_address == d2.base_address
                && d1.size == d2.size
                && d1.mem_attributes == d2.mem_attributes {
                assert(keys2[j as int] == mem_key(d1));
                found = true;
            }
            j = j + 1;
        }
        assert(keys1[i as int] == mem_key(d1));
        if !found {
            return false;
        }
        i = i + 1;
    }
    true
}

/// Compares two lists of I/O descriptors, whatever their order.
pub fn compare_io_descriptors(descs1: &[IoDescriptorV1_0], descs2: &[IoDescriptorV1_0]) -> (r: bool)
    ensures
        r == same_entries(io_keys(descs1@), io_keys(descs2@)),
{
    if descs1.len() != descs2.len() {
        return false;
    }
    let ghost keys1 = io_keys(descs1@);
    let ghost keys2 = io_keys(descs2@);
    let mut i: usize = 0;
    while i < descs1.len()
        invariant
            i <= descs1.len(),
            descs1.len() == descs2.len(),
            keys1 == io_keys(descs1@),
            keys2 == io_keys(descs2@),
            forall|k: int| 0 <= k < i ==> keys2.contains(#[trigger] keys1[k]),
        decreases descs1.len() - i,
    {
        let d1 = descs1[i];
        let mut found = false;
        let mut j: usize = 0;
        while j < descs2.len() && !found
            invariant
                j <= descs2.len(),
                keys2 == io_keys(descs2@),
                found ==> keys2.contains(io_key(d1)),
                !found ==> forall|k: int| 0 <= k < j ==> #[trigger] keys2[k] != io_key(d1),
            decreases descs2.len() - j,
        {
            let d2 = descs2[j];
            if d1.io_address == d2.io_address
                && d1.length_or_width == d2.length_or_width
                && d1.attributes == d2.attributes {
                assert(keys2[j as int] == io_key(d1));
                found = true;
            }
            j = j + 1;
        }
        assert(keys1[i as int] == io_key(d1));
        if !found {
            return false;
        }
        i = i + 1;
    }
    true
}

/// Compares two lists of MSR descriptors, whatever their order.
pub fn compare_msr_descriptors(
    descs1: &[MsrDescriptorV1_0],
    descs2: &[MsrDescriptorV1_0],
) -> (r: bool)
    ensures
        r == same_entries(msr_keys(descs1@), msr_keys(descs2@)),
{
    if descs1.len() != descs2.len() {
        return false;
    }
    let ghost keys1 = msr_keys(descs1@);
    let ghost keys2 = msr_keys(descs2@);
    let mut i: usize = 0;
    while i < descs1.len()
        invariant
            i <= descs1.len(),
            descs1.len() == descs2.len(),
            keys1 == msr_keys(descs1@),
            keys2 == msr_keys(descs2@),
            forall|k: int| 0 <= k < i ==> keys2.contains(#[trigger] keys1[k]),
        decreases descs1.len() - i,
    {
        let d1 = descs1[i];
        let mut found = false;
        let mut j: usize = 0;
        while j < descs2.len() && !found
            invariant
                j <= descs2.len(),
                keys2 == msr_keys(descs2@),
                found ==> keys2.contains(msr_key(d1)),
                !found ==> forall|k: int| 0 <= k < j ==> #[trigger] keys2[k] != msr_key(d1),
            decreases descs2.len() - j,
        {
            let d2 = descs2[j];
            if d1.msr_address == d2.msr_address
                && d1.length == d2.length
                && d1.attributes == d2.attributes {
                assert(keys2[j as int] == msr_key(d1));
                found = true;
            }
            j = j + 1;
        }
        assert(keys1[i as int] == msr_key(d1));
        if !found {
            return false;
        }
        i = i + 1;
    }
    true
}

/// Compares two lists of instruction descriptors, whatever their order.
pub fn compare_instruction_descriptors(
    descs1: &[InstructionDescriptorV1_0],
    descs2: &[InstructionDescriptorV1_0],
) -> (r: bool)
    ensures
        r == same_entries(instruction_keys(descs1@), instruction_keys(descs2@)),
{
    if descs1.len() != descs2.len() {
        return false;
    }
    let ghost keys1 = instruction_keys(descs1@);
    let ghost keys2 = instruction_keys(descs2@);
    let mut i: usize = 0;
    while i < descs1.len()
        invariant
            i <= descs1.len(),
            descs1.len() == descs2.len(),
            keys1 == instruction_keys(descs1@),
            keys2 == instruction_keys(descs2@),
            forall|k: int| 0 <= k < i ==> keys2.contains(#[trigger] keys1[k]),
        decreases descs1.len() - i,
    {
        let d1 = descs1[i];
        let mut found = false;
        let mut j: usize = 0;
        while j < descs2.len() && !found
            invariant
                j <= descs2.len(),
                keys2 == instruction_keys(descs2@),
                found ==> keys2.contains(instruction_key(d1)),
                !found ==> forall|k: int| 0 <= k < j ==> #[trigger] keys2[k] != instruction_key(d1),
            decreases descs2.len() - j,
        {
            let d2 = descs2[j];
            if d1.instruction_index == d2.instruction_index
                && d1.attributes == d2.attributes {
                assert(keys2[j as int] == instruction_key(d1));
                found = true;
            }
            j = j + 1;
        }
        assert(keys1[i as int] == instruction_key(d1));
        if !found {
            return false;
        }
        i = i + 1;
    }
    true
}

/// Compares two lists of save state descriptors, whatever their order.
pub fn compare_save_state_descriptors(
    descs1: &[SaveStateDescriptorV1_0],
    descs2: &[SaveStateDescriptorV1_0],
) -> (r: bool)
    ensures
        r == same_entries(save_state_keys(descs1@), save_state_keys(descs2@)),
{
    if descs1.len() != descs2.len() {
        return false;
    }
    let ghost keys1 = save_state_keys(descs1@);
    let ghost keys2 = save_state_keys(descs2@);
    let mut i: usize = 0;
    while i < descs1.len()
        invariant
            i <= descs1.len(),
            descs1.len() == descs2.len(),
            keys1 == save_state_keys(descs1@),
            keys2 == save_state_keys(descs2@),
            forall|k: int| 0 <= k < i ==> keys2.contains(#[trigger] keys1[k]),
        decreases descs1.len() - i,
    {
        let d1 = descs1[i];
        let mut found = false;
        let mut j: usize = 0;
        while j < descs2.len() && !found
            invariant
                j <= descs2.len(),
                keys2 == save_state_keys(descs2@),
                found ==> keys2.contains(save_state_key(d1)),
                !found ==> forall|k: int| 0 <= k < j ==> #[trigger] keys2[k] != save_state_key(d1),
            decreases descs2.len() - j,
        {
            let d2 = descs2[j];
            if d1.map_field == d2.map_field
                && d1.attributes == d2.attributes
                && d1.access_condition == d2.access_condition {
                assert(keys2[j as int] == save_state_key(d1));
                found = true;
            }
            j = j + 1;
        }
        assert(keys1[i as int] == save_state_key(d1));
        if !found {
            return false;
        }
        i = i + 1;
    }
    true
}

/// A list agrees with itself.
pub proof fn law_compare_reflexive<K>(a: Seq<K>)
    ensures
        same_entries(a, a),
{
}

/// The order of the entries does not matter: a list can be replaced by any rearrangement of
/// it on either side of a comparison.
pub proof fn law_compare_order_independent<K>(a: Seq<K>, a2: Seq<K>, b: Seq<K>, b2: Seq<K>)
    requires
        a.to_multiset() == a2.to_multiset(),
        b.to_multiset() == b2.to_multiset(),
    ensures
        same_entries(a, b) == same_entries(a2, b2),
{
    broadcast use vstd::seq_lib::group_to_multiset_ensures;

    assert forall|x: K| a.contains(x) == a2.contains(x) by {
        assert(a.to_multiset().count(x) > 0 <==> a.contains(x));
        assert(a2.to_multiset().count(x) > 0 <==> a2.contains(x));
    }
    assert forall|x: K| b.contains(x) == b2.contains(x) by {
        assert(b.to_multiset().count(x) > 0 <==> b.contains(x));
        assert(b2.to_multiset().count(x) > 0 <==> b2.contains(x));
    }
    assert(a.len() == a.to_multiset().len());
    assert(b.len() == b.to_multiset().len());
    if same_entries(a, b) {
        assert forall|i: int| 0 <= i < a2.len() implies b2.contains(#[trigger] a2[i]) by {
            assert(a2.contains(a2[i]));
            assert(a.contains(a2[i]));
            let k = choose|k: int| 0 <= k < a.len() && a[k] == a2[i];
            assert(b.contains(a[k]));
        }
    }
    if same_entries(a2, b2) {
        assert forall|i: int| 0 <= i < a.len() implies b.contains(#[trigger] a[i]) by {
            assert(a.contains(a[i]));
            assert(a2.contains(a[i]));
            let k = choose|k: int| 0 <= k < a2.len() && a2[k] == a[i];
            assert(b2.contains(a2[k]));
        }
    }
}

/// A comparison of lists, the first of which holds no entry twice, can be turned round, and
/// the second then holds no entry twice either: the lists are rearrangements of one another.
pub proof fn law_compare_symmetric<K>(a: Seq<K>, b: Seq<K>)
    requires
        a.no_duplicates(),
        same_entries(a, b),
    ensures
        same_entries(b, a),
        b.no_duplicates(),
{
    broadcast use vstd::seq_lib::seq_to_set_is_finite;

    a.unique_seq_to_set();
    b.lemma_cardinality_of_set();
    assert(a.to_set().subset_of(b.to_set())) by {
        assert forall|x: K| a.to_set().contains(x) implies b.to_set().contains(x) by {
            assert(a.contains(x));
            let k = choose|k: int| 0 <= k < a.len() && a[k] == x;
            assert(b.contains(a[k]));
        }
    }
    vstd::set_lib::lemma_len_subset(a.to_set(), b.to_set());
    vstd::set_lib::lemma_subset_equality(a.to_set(), b.to_set());
    assert forall|i: int| 0 <= i < b.len() implies a.contains(#[trigger] b[i]) by {
        assert(b.to_set().contains(b[i]));
        assert(a.to_set().contains(b[i]));
    }
    b.lemma_no_dup_set_cardinality();
}

// ============================================================================
// Policy validation
// ============================================================================

/// Errors that can occur during policy validation.
#[allow(inconsistent_fields)]
#[derive(Debug, Clone, Copy, PartialEq, Eq, Structural)]
pub enum PolicyCheckError {
    /// There is no policy.
    NullPointer,
    /// Invalid policy version.
    InvalidVersion { major: u16, minor: u16 },
    /// A reserved field contains non-zero data.
    InvalidReservedField { policy_type: u32, entry_index: usize },
    /// The same policy type appears multiple times.
    DuplicatePolicyType { policy_type: u32 },
    /// Overlapping entries detected.
    OverlappingEntries { policy_type: u32, entry1: usize, entry2: usize },
    /// Duplicate entries detected.
    DuplicateEntries { policy_type: u32, entry1: usize, entry2: usize },
    /// Size mismatch.
    SizeMismatch { expected: u64, declared: u64 },
    /// Unrecognized policy type.
    UnrecognizedPolicyType { policy_type: u32 },
    /// Unrecognized header bits.
    UnrecognizedHeaderBits,
    /// Unsupported attribute.
    UnsupportedAttribute { policy_type: u32, entry_index: usize, attributes: u32 },
    /// Conflicting condition.
    ConflictingCondition { entry_index: usize },
    /// Legacy memory policy detected.
    LegacyMemoryPolicyDetected,
    /// Range overflow.
    RangeOverflow,
}

/// What is wrong with the I/O descriptors from index `from` on: the first one whose
/// reserved field is set.
pub open spec fn io_fault(list: Seq<IoDescriptorV1_0>, from: int) -> Option<PolicyCheckError>
    decreases list.len() - from,
{
    if from >= list.len() {
        None
    } else if list[from].reserved != 0 {
        Some(
            PolicyCheckError::InvalidReservedField {
                policy_type: TYPE_IO,
                entry_index: from as usize,
            },
        )
    } else {
        io_fault(list, from + 1)
    }
}

/// What is wrong with the memory descriptors from index `from` on: the first one whose
/// reserved field is set.
pub open spec fn mem_fault(list: Seq<MemDescriptorV1_0>, from: int) -> Option<PolicyCheckError>
    decreases list.len() - from,
{
    if from >= list.len() {
        None
    } else if list[from].reserved != 0 {
        Some(
            PolicyCheckError::InvalidReservedField {
                policy_type: TYPE_MEM,
                entry_index: from as usize,
            },
        )
    } else {
        mem_fault(list, from + 1)
    }
}

/// What is wrong with the instruction descriptors from index `from` on: the first one whose
/// reserved field is set.
pub open spec fn instruction_fault(
    list: Seq<InstructionDescriptorV1_0>,
    from: int,
) -> Option<PolicyCheckError>
    decreases list.len() - from,
{
    if from >= list.len() {
        None
    } else if list[from].reserved != 0 {
        Some(
            PolicyCheckError::InvalidReservedField {
                policy_type: TYPE_INSTRUCTION,
                entry_index: from as usize,
            },
        )
    } else {
        instruction_fault(list, from + 1)
    }
}

/// What is wrong with one save state descriptor: it permits a write, it has a condition
/// although it is not conditional, or its reserved field is set.
pub open spec fn save_state_entry_fault(
    d: SaveStateDescriptorV1_0,
    index: int,
) -> Option<PolicyCheckError> {
    if d.attributes & (RESOURCE_ATTR_WRITE | RESOURCE_ATTR_COND_WRITE) != 0 {
        Some(
            PolicyCheckError::UnsupportedAttribute {
                policy_type: TYPE_SAVE_STATE,
                entry_index: index as usize,
                attributes: d.attributes,
            },
        )
    } else if d.attributes & RESOURCE_ATTR_COND_READ == 0 && d.access_condition
        != SVST_UNCONDITIONAL {
        Some(PolicyCheckError::ConflictingCondition { entry_index: index as usize })
    } else if d.reserved != 0 {
        Some(
            PolicyCheckError::InvalidReservedField {
                policy_type: TYPE_SAVE_STATE,
                entry_index: index as usize,
            },
        )
    } else {
        None
    }
}

/// What is wrong with the save state descriptors from index `from` on.
pub open spec fn save_state_fault(
    list: Seq<SaveStateDescriptorV1_0>,
    from: int,
) -> Option<PolicyCheckError>
    decreases list.len() - from,
{
    if from >= list.len() {
        None
    } else if save_state_entry_fault(list[from], from) is Some {
        save_state_entry_fault(list[from], from)
    } else {
        save_state_fault(list, from + 1)
    }
}

/// What is wrong with the descriptors of a policy root, or with its type.
pub open spec fn descriptors_fault(s: Seq<u8>, root: PolicyRootV1) -> Option<PolicyCheckError> {
    if root.policy_type == TYPE_IO {
        io_fault(io_descriptors(s, root), 0)
    } else if root.policy_type == TYPE_MEM {
        mem_fault(mem_descriptors(s, root), 0)
    } else if root.policy_type == TYPE_MSR {
        None
    } else if root.policy_type == TYPE_INSTRUCTION {
        instruction_fault(instruction_descriptors(s, root), 0)
    } else if root.policy_type == TYPE_SAVE_STATE {
        save_state_fault(save_state_descriptors(s, root), 0)
    } else {
        Some(PolicyCheckError::UnrecognizedPolicyType { policy_type: root.policy_type })
    }
}

/// One of the first `n` roots has type `policy_type`.
pub open spec fn type_seen(roots: Seq<PolicyRootV1>, n: int, policy_type: u32) -> bool {
    exists|j: int| 0 <= j < n && (#[trigger] roots[j]).policy_type == policy_type
}

/// What is wrong with the policy root at index `i`: an earlier root has its type, its
/// reserved bytes are set, its type is unknown, or one of its descriptors is wrong.
pub open spec fn root_fault(s: Seq<u8>, i: int) -> Option<PolicyCheckError> {
    let root = policy_roots(s)[i];
    if type_seen(policy_roots(s), i, root.policy_type) {
        Some(PolicyCheckError::DuplicatePolicyType { policy_type: root.policy_type })
    } else if !root.reserved_zero() {
        Some(
            PolicyCheckError::InvalidReservedField {
                policy_type: root.policy_type,
                entry_index: 0,
            },
        )
    } else {
        descriptors_fault(s, root)
    }
}

/// The first thing wrong with the policy roots from index `from` on.
pub open spec fn roots_fault(s: Seq<u8>, from: int) -> Option<PolicyCheckError>
    decreases policy_roots(s).len() - from,
{
    if from >= policy_roots(s).len() {
        None
    } else if root_fault(s, from) is Some {
        root_fault(s, from)
    } else {
        roots_fault(s, from + 1)
    }
}

/// The bytes that the header, the first `n` policy roots and their descriptors take up.
pub open spec fn scanned_size(s: Seq<u8>, n: int) -> int
    decreases n,
{
    if n <= 0 {
        POLICY_HEADER_SIZE as int
    } else {
        scanned_size(s, n - 1) + POLICY_ROOT_SIZE + policy_roots(s)[n - 1].count
            * descriptor_size(policy_roots(s)[n - 1].policy_type)
    }
}

/// The header itself passes: version 1.0 and no bit set that is not understood.
pub open spec fn header_passes(h: SecurePolicyDataV1_0) -> bool {
    h.version_1_0() && h.reserved == 0 && h.flags == 0 && h.capabilities == 0
}

/// The result of the validation of a policy block.
pub open spec fn check_verdict(s: Seq<u8>) -> Result<(), PolicyCheckError> {
    let h = header_at(s);
    if !h.version_1_0() {
        Err(PolicyCheckError::InvalidVersion { major: h.version_major, minor: h.version_minor })
    } else if !header_passes(h) {
        Err(PolicyCheckError::UnrecognizedHeaderBits)
    } else if roots_fault(s, 0) is Some {
        Err(roots_fault(s, 0)->0)
    } else if h.memory_policy_count != 0 {
        Err(PolicyCheckError::LegacyMemoryPolicyDetected)
    } else if scanned_size(s, policy_roots(s).len() as int) != h.size {
        Err(
            PolicyCheckError::SizeMismatch {
                expected: scanned_size(s, policy_roots(s).len() as int) as u64,
                declared: h.size as u64,
            },
        )
    } else {
        Ok(())
    }
}

/// The flag of type `t` is set.
spec fn flag(flags: u64, t: u64) -> bool {
    (flags >> t) & 1 == 1
}

proof fn lemma_flag_set(flags: u64, t: u64, u: u64)
    requires
        t < 64,
        u < 64,
    ensures
        flag(flags | (1u64 << t), u) == (flag(flags, u) || u == t),
        (flags & (1u64 << t) != 0) == flag(flags, t),
{
    assert(((flags | (1u64 << t)) >> u) & 1 == 1 <==> ((flags >> u) & 1 == 1 || u == t))
        by (bit_vector)
        requires
            t < 64,
            u < 64,
    ;
    assert((flags & (1u64 << t) != 0) <==> ((flags >> t) & 1 == 1)) by (bit_vector)
        requires
            t < 64,
    ;
}

/// The flags note the types of the first `n` roots.
#[verifier::opaque]
spec fn flags_note(flags: u64, roots: Seq<PolicyRootV1>, n: int) -> bool {
    forall|t: u64| t < 64 ==> #[trigger] flag(flags, t) == type_seen(roots, n, t as u32)
}

/// How many of the five policy types occur among the first `n` roots.
#[verifier::opaque]
spec fn types_seen(roots: Seq<PolicyRootV1>, n: int) -> int {
    (if type_seen(roots, n, TYPE_MEM) { 1int } else { 0 }) + (if type_seen(roots, n, TYPE_IO) {
        1int
    } else {
        0
    }) + (if type_seen(roots, n, TYPE_MSR) { 1int } else { 0 }) + (if type_seen(
        roots,
        n,
        TYPE_INSTRUCTION,
    ) { 1int } else { 0 }) + (if type_seen(roots, n, TYPE_SAVE_STATE) { 1int } else { 0 })
}

proof fn lemma_type_seen_step(roots: Seq<PolicyRootV1>, n: int, t: u32)
    requires
        0 <= n < roots.len(),
    ensures
        type_seen(roots, n + 1, t) == (type_seen(roots, n, t) || roots[n].policy_type == t),
{
    if type_seen(roots, n, t) {
        let j = choose|j: int| 0 <= j < n && (#[trigger] roots[j]).policy_type == t;
        assert(roots[j].policy_type == t);
    }
}

proof fn lemma_flags_start(roots: Seq<PolicyRootV1>)
    ensures
        flags_note(0, roots, 0),
        types_seen(roots, 0) == 0,
{
    reveal(flags_note);
    reveal(types_seen);
    assert forall|t: u64| t < 64 implies !#[trigger] flag(0, t) by {
        assert((0u64 >> t) & 1 == 0) by (bit_vector);
    }
}

proof fn lemma_flags_step(flags: u64, roots: Seq<PolicyRootV1>, n: int)
    requires
        0 <= n < roots.len(),
        roots[n].policy_type < 64,
        flags_note(flags, roots, n),
    ensures
        (flags & (1u64 << roots[n].policy_type as u64) != 0) == type_seen(
            roots,
            n,
            roots[n].policy_type,
        ),
        flags_note(flags | (1u64 << roots[n].policy_type as u64), roots, n + 1),
{
    reveal(flags_note);
    let p = roots[n].policy_type as u64;
    lemma_flag_set(flags, p, p);
    assert forall|t: u64| t < 64 implies #[trigger] flag(flags | (1u64 << p), t) == type_seen(
        roots,
        n + 1,
        t as u32,
    ) by {
        lemma_flag_set(flags, p, t);
        lemma_type_seen_step(roots, n, t as u32);
    }
}

proof fn lemma_count_step(roots: Seq<PolicyRootV1>, n: int)
    requires
        0 <= n < roots.len(),
        descriptor_size(roots[n].policy_type) > 0,
        !type_seen(roots, n, roots[n].policy_type),
    ensures
        types_seen(roots, n + 1) == types_seen(roots, n) + 1,
        types_seen(roots, n + 1) <= 5,
{
    reveal(types_seen);
    lemma_type_seen_step(roots, n, TYPE_MEM);
    lemma_type_seen_step(roots, n, TYPE_IO);
    lemma_type_seen_step(roots, n, TYPE_MSR);
    lemma_type_seen_step(roots, n, TYPE_INSTRUCTION);
    lemma_type_seen_step(roots, n, TYPE_SAVE_STATE);
}

/// Checks the policy roots of a block, one after the other.
///
/// Returns the size that was scanned, the header included, or the first thing wrong.
fn scan_roots(policy_base: &[u8], roots: &Vec<PolicyRootV1>) -> (r: Result<u64, PolicyCheckError>)
    requires
        valid_policy_buffer(policy_base@),
        roots@ == policy_roots(policy_base@),
    ensures
        match r {
            Ok(size) => roots_fault(policy_base@, 0) is None && size == scanned_size(
                policy_base@,
                roots@.len() as int,
            ),
            Err(e) => roots_fault(policy_base@, 0) == Some(e),
        },
{
    let ghost s = policy_base@;
    let mut total_scanned_size: u64 = POLICY_HEADER_SIZE as u64;
    let mut type_flags: u64 = 0;
    let mut i: usize = 0;
    proof {
        lemma_flags_start(roots@);
    }
    while i < roots.len()
        invariant
            i <= roots.len(),
            s == policy_base@,
            valid_policy_buffer(s),
            roots@ == policy_roots(s),
            forall|j: int| 0 <= j < i ==> #[trigger] root_fault(s, j) is None,
            forall|j: int| 0 <= j < i ==> (#[trigger] roots@[j]).policy_type < 64,
            roots_fault(s, 0) == roots_fault(s, i as int),
            flags_note(type_flags, roots@, i as int),
            total_scanned_size == scanned_size(s, i as int),
            i == types_seen(roots@, i as int),
            total_scanned_size <= 40 + i * 0x18_0000_0000,
        decreases roots.len() - i,
    {
        let root = roots[i];
        // A type that has no flag has not been seen: every root so far has a known type.
        if root.policy_type < 64 {
            let type_bit: u64 = 1u64 << root.policy_type as u64;
            proof {
                lemma_flags_step(type_flags, roots@, i as int);
            }
            if (type_flags & type_bit) != 0 {
                return Err(
                    PolicyCheckError::DuplicatePolicyType { policy_type: root.policy_type },
                );
            }
            type_flags = type_flags | type_bit;
        }
        assert(!type_seen(roots@, i as int, root.policy_type));
        if !root.has_valid_reserved() {
            return Err(
                PolicyCheckError::InvalidReservedField {
                    policy_type: root.policy_type,
                    entry_index: 0,
                },
            );
        }
        assert(descriptors_in_bounds(s, policy_roots(s)[i as int]));
        let (fault, size): (Option<PolicyCheckError>, u64) = match root.policy_type {
            TYPE_IO => (validate_io_policy(policy_base, &root), 8),
            TYPE_MEM => (validate_mem_policy(policy_base, &root), 24),
            TYPE_MSR => (validate_msr_policy(policy_base, &root), 8),
            TYPE_INSTRUCTION => (validate_instruction_policy(policy_base, &root), 8),
            TYPE_SAVE_STATE => (validate_save_state_policy(policy_base, &root), 16),
            _ => (
                Some(PolicyCheckError::UnrecognizedPolicyType { policy_type: root.policy_type }),
                0,
            ),
        };
        match fault {
            Some(e) => {
                return Err(e);
            },
            None => {},
        }
        proof {
            lemma_count_step(roots@, i as int);
            assert(i <= 4);
            assert(total_scanned_size <= 0x1000_0000_0000);
            assert(root.count * size <= 24 * 0xffff_ffff) by (nonlinear_arith)
                requires
                    size <= 24,
                    root.count <= 0xffff_ffff,
            ;
        }
        total_scanned_size = total_scanned_size + root.count as u64 * size;
        total_scanned_size = total_scanned_size + POLICY_ROOT_SIZE as u64;
        i = i + 1;
    }
    Ok(total_scanned_size)
}

/// Performs comprehensive security policy validation.
pub fn security_policy_check(policy_ptr: Option<&[u8]>) -> (r: Result<(), PolicyCheckError>)
    requires
        policy_ptr matches Some(p) ==> {
            &&& POLICY_HEADER_SIZE <= p@.len()
            &&& header_passes(header_at(p@)) ==> valid_policy_buffer(p@)
        },
    ensures
        match policy_ptr {
            None => r == Err::<(), PolicyCheckError>(PolicyCheckError::NullPointer),
            Some(p) => r == check_verdict(p@),
        },
{
    let policy_base = match policy_ptr {
        None => {
            return Err(PolicyCheckError::NullPointer);
        },
        Some(p) => p,
    };
    let policy = SecurePolicyDataV1_0::from_bytes(policy_base);
    if !policy.is_valid_version() {
        return Err(
            PolicyCheckError::InvalidVersion {
                major: policy.version_major,
                minor: policy.version_minor,
            },
        );
    }
    if policy.reserved != 0 || policy.flags != 0 || policy.capabilities != 0 {
        return Err(PolicyCheckError::UnrecognizedHeaderBits);
    }
    let roots = policy.get_policy_roots(policy_base);
    let total_scanned_size: u64 = match scan_roots(policy_base, &roots) {
        Ok(size) => size,
        Err(e) => {
            return Err(e);
        },
    };
    if policy.memory_policy_count != 0 {
        return Err(PolicyCheckError::LegacyMemoryPolicyDetected);
    }
    if total_scanned_size != policy.size as u64 {
        return Err(
            PolicyCheckError::SizeMismatch {
                expected: total_scanned_size,
                declared: policy.size as u64,
            },
        );
    }
    Ok(())
}

/// Validates the I/O descriptors of a policy root.
fn validate_io_policy(policy_base: &[u8], root: &PolicyRootV1) -> (r: Option<PolicyCheckError>)
    requires
        root.policy_type == TYPE_IO,
        descriptors_in_bounds(policy_base@, *root),
    ensures
        r == io_fault(io_descriptors(policy_base@, *root), 0),
{
    let descriptors = root.get_io_descriptors(policy_base);
    let mut i: usize = 0;
    while i < descriptors.len()
        invariant
            i <= descriptors.len(),
            descriptors@ == io_descriptors(policy_base@, *root),
            io_fault(descriptors@, 0) == io_fault(descriptors@, i as int),
        decreases descriptors.len() - i,
    {
        if descriptors[i].reserved != 0 {
            return Some(
                PolicyCheckError::InvalidReservedField { policy_type: TYPE_IO, entry_index: i },
            );
        }
        i = i + 1;
    }
    None
}

/// Validates the memory descriptors of a policy root.
fn validate_mem_policy(policy_base: &[u8], root: &PolicyRootV1) -> (r: Option<PolicyCheckError>)
    requires
        root.policy_type == TYPE_MEM,
        descriptors_in_bounds(policy_base@, *root),
    ensures
        r == mem_fault(mem_descriptors(policy_base@, *root), 0),
{
    let descriptors = root.get_mem_descriptors(policy_base);
    let mut i: usize = 0;
    while i < descriptors.len()
        invariant
            i <= descriptors.len(),
            descriptors@ == mem_descriptors(policy_base@, *root),
            mem_fault(descriptors@, 0) == mem_fault(descriptors@, i as int),
        decreases descriptors.len() - i,
    {
        if descriptors[i].reserved != 0 {
            return Some(
                PolicyCheckError::InvalidReservedField { policy_type: TYPE_MEM, entry_index: i },
            );
        }
        i = i + 1;
    }
    None
}

/// Validates the instruction descriptors of a policy root.
fn validate_instruction_policy(policy_base: &[u8], root: &PolicyRootV1) -> (r: Option<
    PolicyCheckError,
>)
    requires
        root.policy_type == TYPE_INSTRUCTION,
        descriptors_in_bounds(policy_base@, *root),
    ensures
        r == instruction_fault(instruction_descriptors(policy_base@, *root), 0),
{
    let descriptors = root.get_instruction_descriptors(policy_base);
    let mut i: usize = 0;
    while i < descriptors.len()
        invariant
            i <= descriptors.len(),
            descriptors@ == instruction_descriptors(policy_base@, *root),
            instruction_fault(descriptors@, 0) == instruction_fault(descriptors@, i as int),
        decreases descriptors.len() - i,
    {
        if descriptors[i].reserved != 0 {
            return Some(
                PolicyCheckError::InvalidReservedField {
                    policy_type: TYPE_INSTRUCTION,
                    entry_index: i,
                },
            );
        }
        i = i + 1;
    }
    None
}

/// Validates the MSR descriptors of a policy root: they have no reserved fields.
fn validate_msr_policy(_policy_base: &[u8], _root: &PolicyRootV1) -> (r: Option<PolicyCheckError>)
    ensures
        r is None,
{
    None
}

/// Validates the save state descriptors of a policy root.
fn validate_save_state_policy(policy_base: &[u8], root: &PolicyRootV1) -> (r: Option<
    PolicyCheckError,
>)
    requires
        root.policy_type == TYPE_SAVE_STATE,
        descriptors_in_bounds(policy_base@, *root),
    ensures
        r == save_state_fault(save_state_descriptors(policy_base@, *root), 0),
{
    let descriptors = root.get_save_state_descriptors(policy_base);
    let mut i: usize = 0;
    while i < descriptors.len()
        invariant
            i <= descriptors.len(),
            descriptors@ == save_state_descriptors(policy_base@, *root),
            save_state_fault(descriptors@, 0) == save_state_fault(descriptors@, i as int),
        decreases descriptors.len() - i,
    {
        let desc = descriptors[i];
        if (desc.attributes & (RESOURCE_ATTR_WRITE | RESOURCE_ATTR_COND_WRITE)) != 0 {
            return Some(
                PolicyCheckError::UnsupportedAttribute {
                    policy_type: TYPE_SAVE_STATE,
                    entry_index: i,
                    attributes: desc.attributes,
                },
            );
        }
        if (desc.attributes & RESOURCE_ATTR_COND_READ) == 0 && desc.access_condition
            != SVST_UNCONDITIONAL {
            return Some(PolicyCheckError::ConflictingCondition { entry_index: i });
        }
        if desc.reserved != 0 {
            return Some(
                PolicyCheckError::InvalidReservedField {
                    policy_type: TYPE_SAVE_STATE,
                    entry_index: i,
                },
            );
        }
        i = i + 1;
    }
    None
}

/// A validation that finds nothing wrong has found nothing wrong with any root.
proof fn lemma_no_fault(s: Seq<u8>, from: int, i: int)
    requires
        roots_fault(s, from) is None,
        0 <= from <= i < policy_roots(s).len(),
    ensures
        root_fault(s, i) is None,
    decreases i - from,
{
    if from < i {
        lemma_no_fault(s, from + 1, i);
    }
}

/// A policy with a root of a type other than the five policy types does not pass validation,
/// whatever the number of the type.
pub proof fn law_unknown_type_is_rejected(s: Seq<u8>, i: int)
    requires
        0 <= i < policy_roots(s).len(),
        descriptor_size(policy_roots(s)[i].policy_type) == 0,
    ensures
        check_verdict(s) is Err,
{
    if roots_fault(s, 0) is None {
        lemma_no_fault(s, 0, i);
    }
}

/// In a policy that passes validation every root has one of the five policy types, no two
/// roots have the same type, and no reserved byte of a root is set.
pub proof fn law_checked_policy_roots(s: Seq<u8>, i: int, j: int)
    requires
        check_verdict(s) is Ok,
        0 <= j < i < policy_roots(s).len(),
    ensures
        policy_roots(s)[i].policy_type != policy_roots(s)[j].policy_type,
        descriptor_size(policy_roots(s)[i].policy_type) > 0,
        descriptor_size(policy_roots(s)[j].policy_type) > 0,
        policy_roots(s)[i].reserved_zero(),
        policy_roots(s)[j].reserved_zero(),
{
    lemma_no_fault(s, 0, i);
    lemma_no_fault(s, 0, j);
    if policy_roots(s)[i].policy_type == policy_roots(s)[j].policy_type {
        assert(type_seen(policy_roots(s), i, policy_roots(s)[i].policy_type));
    }
}

// ============================================================================
// Memory policy generation
// ============================================================================

/// Memory policy builder for collecting memory descriptors out of page table entries.
///
/// Regions come in one after the other. A region that continues the one before it, with
/// the same attributes, is merged into it.
pub struct MemoryPolicyBuilder {
    /// The descriptor being built.
    current: Option<MemDescriptorV1_0>,
    /// Maximum number of descriptors that can be stored.
    max_count: usize,
    /// The descriptors that are complete.
    buffer: Vec<MemDescriptorV1_0>,
}

/// The end of a region, one past its last address, or the last address there is.
pub open spec fn region_end(d: MemDescriptorV1_0) -> int {
    cap(d.base_address + d.size, u64::MAX as int)
}

/// A region at `base` with `attributes` continues `d`.
pub open spec fn continues(d: MemDescriptorV1_0, base: u64, attributes: u32) -> bool {
    base == region_end(d) && attributes == d.mem_attributes
}

/// `d` with `size` more bytes.
pub open spec fn extended(d: MemDescriptorV1_0, size: u64) -> MemDescriptorV1_0 {
    MemDescriptorV1_0 { size: cap(d.size + size, u64::MAX as int) as u64, ..d }
}

/// The descriptor of a region.
pub open spec fn region(base: u64, size: u64, attributes: u32) -> MemDescriptorV1_0 {
    MemDescriptorV1_0 { base_address: base, size, mem_attributes: attributes, reserved: 0 }
}

/// No entry continues the one before it.
pub open spec fn fully_merged(entries: Seq<MemDescriptorV1_0>) -> bool {
    forall|i: int|
        0 < i < entries.len() ==> !continues(
            entries[i - 1],
            (#[trigger] entries[i]).base_address,
            entries[i].mem_attributes,
        )
}

/// Some entry covers `address` with `attributes`.
pub open spec fn covered(entries: Seq<MemDescriptorV1_0>, address: int, attributes: u32) -> bool {
    exists|i: int|
        0 <= i < entries.len() && (#[trigger] entries[i]).base_address <= address
            < entries[i].base_address + entries[i].size && entries[i].mem_attributes == attributes
}

impl MemoryPolicyBuilder {
    /// The complete descriptors.
    pub closed spec fn stored(&self) -> Seq<MemDescriptorV1_0> {
        self.buffer@
    }

    /// The descriptor being built.
    pub closed spec fn pending(&self) -> Option<MemDescriptorV1_0> {
        self.current
    }

    /// How many descriptors can be stored.
    pub closed spec fn limit(&self) -> nat {
        self.max_count as nat
    }

    /// All descriptors, the one being built last.
    pub open spec fn entries(&self) -> Seq<MemDescriptorV1_0> {
        match self.pending() {
            Some(d) => self.stored().push(d),
            None => self.stored(),
        }
    }

    /// The builder stores no more than it can.
    pub open spec fn wf(&self) -> bool {
        self.stored().len() <= self.limit()
    }

    /// The builder has merged all that can be merged, and has lost no descriptor.
    pub open spec fn merged(&self) -> bool {
        fully_merged(self.entries()) && (self.pending() is Some || self.stored().len() == 0)
    }

    /// Creates a new memory policy builder with room for `max_count` descriptors.
    pub fn new(max_count: usize) -> (r: Self)
        ensures
            r.wf(),
            r.merged(),
            r.stored() == Seq::<MemDescriptorV1_0>::empty(),
            r.pending() is None,
            r.limit() == max_count,
    {
        MemoryPolicyBuilder { current: None, max_count, buffer: Vec::new() }
    }

    /// Adds a memory region to the policy.
    ///
    /// A region that continues the current one is merged into it. Otherwise the current
    /// one is stored, which fails, and loses it, if the buffer is full, and the region
    /// becomes the current one.
    pub fn add_region(&mut self, base: u64, size: u64, attributes: u32) -> (r: Result<(), ()>)
        requires
            old(self).wf(),
        ensures
            final(self).wf(),
            final(self).limit() == old(self).limit(),
            old(self).merged() && r is Ok ==> final(self).merged(),
            match old(self).pending() {
                None => {
                    &&& r is Ok
                    &&& final(self).stored() == old(self).stored()
                    &&& final(self).pending() == Some(region(base, size, attributes))
                },
                Some(d) => if continues(d, base, attributes) {
                    &&& r is Ok
                    &&& final(self).stored() == old(self).stored()
                    &&& final(self).pending() == Some(extended(d, size))
                } else if old(self).stored().len() < old(self).limit() {
                    &&& r is Ok
                    &&& final(self).stored() == old(self).stored().push(d)
                    &&& final(self).pending() == Some(region(base, size, attributes))
                } else {
                    &&& r is Err
                    &&& final(self).stored() == old(self).stored()
                    &&& final(self).pending() is None
                },
            },
    {
        let new_desc = MemDescriptorV1_0 {
            base_address: base,
            size,
            mem_attributes: attributes,
            reserved: 0,
        };
        let ghost before = self.entries();
        match self.current {
            Some(current) => {
                let current_end: u64 = current.base_address.saturating_add(current.size);
                if base == current_end && attributes == current.mem_attributes {
                    self.current = Some(
                        MemDescriptorV1_0 { size: current.size.saturating_add(size), ..current },
                    );
                    proof {
                        if fully_merged(before) {
                            lemma_merged_update_last(before, self.entries());
                        }
                    }
                    return Ok(());
                }
                match self.flush_current() {
                    Ok(()) => {},
                    Err(()) => {
                        return Err(());
                    },
                }
            },
            None => {},
        }
        self.current = Some(new_desc);
        proof {
            let after = self.entries();
            assert(after =~= before.push(new_desc));
            if old(self).merged() {
                assert forall|i: int| 0 < i < after.len() implies !continues(
                    after[i - 1],
                    (#[trigger] after[i]).base_address,
                    after[i].mem_attributes,
                ) by {
                    if i < before.len() {
                        assert(after[i] == before[i]);
                    }
                }
            }
        }
        Ok(())
    }

    /// Stores the current descriptor.
    fn flush_current(&mut self) -> (r: Result<(), ()>)
        requires
            old(self).stored().len() <= old(self).limit(),
        ensures
            final(self).pending() is None,
            final(self).limit() == old(self).limit(),
            match old(self).pending() {
                Some(d) => if old(self).stored().len() < old(self).limit() {
                    r is Ok && final(self).stored() == old(self).stored().push(d)
                } else {
                    r is Err && final(self).stored() == old(self).stored()
                },
                None => r is Ok && final(self).stored() == old(self).stored(),
            },
    {
        match self.current {
            Some(desc) => {
                self.current = None;
                if self.buffer.len() >= self.max_count {
                    return Err(());
                }
                self.buffer.push(desc);
            },
            None => {},
        }
        Ok(())
    }

    /// Finishes building and returns the descriptors, of which there are [`count`](Self::count).
    pub fn finish(self) -> (r: Result<Vec<MemDescriptorV1_0>, ()>)
        requires
            self.wf(),
        ensures
            match r {
                Ok(descriptors) => self.entries().len() <= self.limit() && descriptors@
                    == self.entries(),
                Err(()) => self.entries().len() > self.limit(),
            },
    {
        let mut this = self;
        match this.flush_current() {
            Ok(()) => Ok(this.buffer),
            Err(()) => Err(()),
        }
    }

    /// Gets the current count of descriptors.
    pub fn count(&self) -> (r: usize)
        requires
            self.entries().len() <= usize::MAX,
        ensures
            r == self.entries().len(),
    {
        self.buffer.len() + if self.current.is_some() {
            1
        } else {
            0
        }
    }
}

proof fn lemma_merged_update_last(a: Seq<MemDescriptorV1_0>, b: Seq<MemDescriptorV1_0>)
    requires
        fully_merged(a),
        a.len() > 0,
        a.len() == b.len(),
        forall|i: int| 0 <= i < a.len() - 1 ==> a[i] == b[i],
        a.last().base_address == b.last().base_address,
        a.last().mem_attributes == b.last().mem_attributes,
    ensures
        fully_merged(b),
{
    assert forall|i: int| 0 < i < b.len() implies !continues(
        b[i - 1],
        (#[trigger] b[i]).base_address,
        b[i].mem_attributes,
    ) by {
        assert(!continues(a[i - 1], a[i].base_address, a[i].mem_attributes));
        assert(a[i - 1] == b[i - 1]);
    }
}

/// Merging changes no coverage: after a region has been added, what was covered is still
/// covered, the region is covered, and nothing else is, as long as no region ends past the
/// last address.
pub proof fn law_add_region_coverage(
    before: Seq<MemDescriptorV1_0>,
    after: Seq<MemDescriptorV1_0>,
    base: u64,
    size: u64,
    attributes: u32,
    address: int,
    attr: u32,
)
    requires
        base + size <= u64::MAX,
        before.len() > 0 ==> before.last().base_address + before.last().size <= u64::MAX,
        if before.len() > 0 && continues(before.last(), base, attributes) {
            after == before.drop_last().push(extended(before.last(), size))
        } else {
            after == before.push(region(base, size, attributes))
        },
    ensures
        covered(after, address, attr) <==> covered(before, address, attr) || (base <= address
            < base + size && attr == attributes),
{
    if before.len() > 0 && continues(before.last(), base, attributes) {
        let n = before.len() - 1;
        assert(after[n] == extended(before[n], size));
        if covered(after, address, attr) {
            let i = choose|i: int|
                0 <= i < after.len() && (#[trigger] after[i]).base_address <= address
                    < after[i].base_address + after[i].size && after[i].mem_attributes == attr;
            assert(i < n ==> before[i] == after[i]);
        }
        if covered(before, address, attr) {
            let i = choose|i: int|
                0 <= i < before.len() && (#[trigger] before[i]).base_address <= address
                    < before[i].base_address + before[i].size && before[i].mem_attributes == attr;
            assert(i < n ==> before[i] == after[i]);
            assert(after[i].base_address <= address < after[i].base_address + after[i].size);
        }
        if base <= address < base + size && attr == attributes {
            assert(after[n].base_address <= address < after[n].base_address + after[n].size);
        }
    } else {
        let n = before.len() as int;
        assert(after[n] == region(base, size, attributes));
        if covered(after, address, attr) {
            let i = choose|i: int|
                0 <= i < after.len() && (#[trigger] after[i]).base_address <= address
                    < after[i].base_address + after[i].size && after[i].mem_attributes == attr;
            assert(i < n ==> before[i] == after[i]);
        }
        if covered(before, address, attr) {
            let i = choose|i: int|
                0 <= i < before.len() && (#[trigger] before[i]).base_address <= address
                    < before[i].base_address + before[i].size && before[i].mem_attributes == attr;
            assert(before[i] == after[i]);
        }
    }
}

/// A memory descriptor has one in the list with the same fields.
pub open spec fn mem_has_equal(d: MemDescriptorV1_0, list: Seq<MemDescriptorV1_0>) -> bool {
    exists|j: int|
        0 <= j < list.len() && (#[trigger] list[j]).base_address == d.base_address
            && list[j].size == d.size
            && list[j].mem_attributes == d.mem_attributes
}

/// Two memory roots agree if and only if they are of the same kind of list, have as many
/// descriptors, and every descriptor of the first has one in the second with the same fields.
pub proof fn law_mem_roots_agree(s1: Seq<u8>, r1: PolicyRootV1, s2: Seq<u8>, r2: PolicyRootV1)
    requires
        r1.policy_type == TYPE_MEM,
    ensures
        roots_agree(s1, r1, s2, r2) <==> r1.access_attr == r2.access_attr && r1.count == r2.count
            && (forall|i: int|
            0 <= i < r1.count ==> mem_has_equal(
                #[trigger] mem_descriptors(s1, r1)[i],
                mem_descriptors(s2, r2),
            )),
{
    let a = mem_descriptors(s1, r1);
    let b = mem_descriptors(s2, r2);
    let x = mem_keys(a);
    let y = mem_keys(b);
    assert forall|i: int| 0 <= i < a.len() implies mem_has_equal(#[trigger] a[i], b)
        == y.contains(x[i]) by {
        if y.contains(x[i]) {
            let j = choose|j: int| 0 <= j < y.len() && y[j] == x[i];
            assert(mem_key(b[j]) == mem_key(a[i]));
        }
        if mem_has_equal(a[i], b) {
            let d = a[i];
            let j = choose|j: int|
                0 <= j < b.len() && (#[trigger] b[j]).base_address == d.base_address
                    && b[j].size == d.size
                    && b[j].mem_attributes == d.mem_attributes;
            assert(y[j] == x[i]);
        }
    }
    if same_entries(x, y) {
        assert forall|i: int| 0 <= i < a.len() implies mem_has_equal(#[trigger] a[i], b) by {
            assert(y.contains(x[i]));
        }
    } else if a.len() == b.len() {
        let i = choose|i: int| 0 <= i < x.len() && !y.contains(#[trigger] x[i]);
        assert(!mem_has_equal(a[i], b));
    }
}

/// An I/O descriptor has one in the list with the same fields.
pub open spec fn io_has_equal(d: IoDescriptorV1_0, list: Seq<IoDescriptorV1_0>) -> bool {
    exists|j: int|
        0 <= j < list.len() && (#[trigger] list[j]).io_address == d.io_address
            && list[j].length_or_width == d.length_or_width
            && list[j].attributes == d.attributes
}

/// Two I/O roots agree if and only if they are of the same kind of list, have as many
/// descriptors, and every descriptor of the first has one in the second with the same fields.
pub proof fn law_io_roots_agree(s1: Seq<u8>, r1: PolicyRootV1, s2: Seq<u8>, r2: PolicyRootV1)
    requires
        r1.policy_type == TYPE_IO,
    ensures
        roots_agree(s1, r1, s2, r2) <==> r1.access_attr == r2.access_attr && r1.count == r2.count
            && (forall|i: int|
            0 <= i < r1.count ==> io_has_equal(
                #[trigger] io_descriptors(s1, r1)[i],
                io_descriptors(s2, r2),
            )),
{
    let a = io_descriptors(s1, r1);
    let b = io_descriptors(s2, r2);
    let x = io_keys(a);
    let y = io_keys(b);
    assert forall|i: int| 0 <= i < a.len() implies io_has_equal(#[trigger] a[i], b)
        == y.contains(x[i]) by {
        if y.contains(x[i]) {
            let j = choose|j: int| 0 <= j < y.len() && y[j] == x[i];
            assert(io_key(b[j]) == io_key(a[i]));
        }
        if io_has_equal(a[i], b) {
            let d = a[i];
            let j = choose|j: int|
                0 <= j < b.len() && (#[trigger] b[j]).io_address == d.io_address
                    && b[j].length_or_width == d.length_or_width
                    && b[j].attributes == d.attributes;
            assert(y[j] == x[i]);
        }
    }
    if same_entries(x, y) {
        assert forall|i: int| 0 <= i < a.len() implies io_has_equal(#[trigger] a[i], b) by {
            assert(y.contains(x[i]));
        }
    } else if a.len() == b.len() {
        let i = choose|i: int| 0 <= i < x.len() && !y.contains(#[trigger] x[i]);
        assert(!io_has_equal(a[i], b));
    }
}

/// An MSR descriptor has one in the list with the same fields.
pub open spec fn msr_has_equal(d: MsrDescriptorV1_0, list: Seq<MsrDescriptorV1_0>) -> bool {
    exists|j: int|
        0 <= j < list.len() && (#[trigger] list[j]).msr_address == d.msr_address
            && list[j].length == d.length
            && list[j].attributes == d.attributes
}

/// Two MSR roots agree if and only if they are of the same kind of list, have as many
/// descriptors, and every descriptor of the first has one in the second with the same fields.
pub proof fn law_msr_roots_agree(s1: Seq<u8>, r1: PolicyRootV1, s2: Seq<u8>, r2: PolicyRootV1)
    requires
        r1.policy_type == TYPE_MSR,
    ensures
        roots_agree(s1, r1, s2, r2) <==> r1.access_attr == r2.access_attr && r1.count == r2.count
            && (forall|i: int|
            0 <= i < r1.count ==> msr_has_equal(
                #[trigger] msr_descriptors(s1, r1)[i],
                msr_descriptors(s2, r2),
            )),
{
    let a = msr_descriptors(s1, r1);
    let b = msr_descriptors(s2, r2);
    let x = msr_keys(a);
    let y = msr_keys(b);
    assert forall|i: int| 0 <= i < a.len() implies msr_has_equal(#[trigger] a[i], b)
        == y.contains(x[i]) by {
        if y.contains(x[i]) {
            let j = choose|j: int| 0 <= j < y.len() && y[j] == x[i];
            assert(msr_key(b[j]) == msr_key(a[i]));
        }
        if msr_has_equal(a[i], b) {
            let d = a[i];
            let j = choose|j: int|
                0 <= j < b.len() && (#[trigger] b[j]).msr_address == d.msr_address
                    && b[j].length == d.length
                    && b[j].attributes == d.attributes;
            assert(y[j] == x[i]);
        }
    }
    if same_entries(x, y) {
        assert forall|i: int| 0 <= i < a.len() implies msr_has_equal(#[trigger] a[i], b) by {
            assert(y.contains(x[i]));
        }
    } else if a.len() == b.len() {
        let i = choose|i: int| 0 <= i < x.len() && !y.contains(#[trigger] x[i]);
        assert(!msr_has_equal(a[i], b));
    }
}

/// An instruction descriptor has one in the list with the same fields.
pub open spec fn instruction_has_equal(
    d: InstructionDescriptorV1_0,
    list: Seq<InstructionDescriptorV1_0>,
) -> bool {
    exists|j: int|
        0 <= j < list.len() && (#[trigger] list[j]).instruction_index == d.instruction_index
            && list[j].attributes == d.attributes
}

/// Two instruction roots agree if and only if they are of the same kind of list, have as many
/// descriptors, and every descriptor of the first has one in the second with the same fields.
pub proof fn law_instruction_roots_agree(
    s1: Seq<u8>,
    r1: PolicyRootV1,
    s2: Seq<u8>,
    r2: PolicyRootV1,
)
    requires
        r1.policy_type == TYPE_INSTRUCTION,
    ensures
        roots_agree(s1, r1, s2, r2) <==> r1.access_attr == r2.access_attr && r1.count == r2.count
            && (forall|i: int|
            0 <= i < r1.count ==> instruction_has_equal(
                #[trigger] instruction_descriptors(s1, r1)[i],
                instruction_descriptors(s2, r2),
            )),
{
    let a = instruction_descriptors(s1, r1);
    let b = instruction_descriptors(s2, r2);
    let x = instruction_keys(a);
    let y = instruction_keys(b);
    assert forall|i: int| 0 <= i < a.len() implies instruction_has_equal(#[trigger] a[i], b)
        == y.contains(x[i]) by {
        if y.contains(x[i]) {
            let j = choose|j: int| 0 <= j < y.len() && y[j] == x[i];
            assert(instruction_key(b[j]) == instruction_key(a[i]));
        }
        if instruction_has_equal(a[i], b) {
            let d = a[i];
            let j = choose|j: int|
                0 <= j < b.len() && (#[trigger] b[j]).instruction_index == d.instruction_index
                    && b[j].attributes == d.attributes;
            assert(y[j] == x[i]);
        }
    }
    if same_entries(x, y) {
        assert forall|i: int| 0 <= i < a.len() implies instruction_has_equal(
            #[trigger] a[i],
            b,
        ) by {
            assert(y.contains(x[i]));
        }
    } else if a.len() == b.len() {
        let i = choose|i: int| 0 <= i < x.len() && !y.contains(#[trigger] x[i]);
        assert(!instruction_has_equal(a[i], b));
    }
}

/// A save state descriptor has one in the list with the same fields.
pub open spec fn save_state_has_equal(
    d: SaveStateDescriptorV1_0,
    list: Seq<SaveStateDescriptorV1_0>,
) -> bool {
    exists|j: int|
        0 <= j < list.len() && (#[trigger] list[j]).map_field == d.map_field
            && list[j].attributes == d.attributes
            && list[j].access_condition == d.access_condition
}

/// Two save state roots agree if and only if they are of the same kind of list, have as many
/// descriptors, and every descriptor of the first has one in the second with the same fields.
pub proof fn law_save_state_roots_agree(
    s1: Seq<u8>,
    r1: PolicyRootV1,
    s2: Seq<u8>,
    r2: PolicyRootV1,
)
    requires
        r1.policy_type == TYPE_SAVE_STATE,
    ensures
        roots_agree(s1, r1, s2, r2) <==> r1.access_attr == r2.access_attr && r1.count == r2.count
            && (forall|i: int|
            0 <= i < r1.count ==> save_state_has_equal(
                #[trigger] save_state_descriptors(s1, r1)[i],
                save_state_descriptors(s2, r2),
            )),
{
    let a = save_state_descriptors(s1, r1);
    let b = save_state_descriptors(s2, r2);
    let x = save_state_keys(a);
    let y = save_state_keys(b);
    assert forall|i: int| 0 <= i < a.len() implies save_state_has_equal(#[trigger] a[i], b)
        == y.contains(x[i]) by {
        if y.contains(x[i]) {
            let j = choose|j: int| 0 <= j < y.len() && y[j] == x[i];
            assert(save_state_key(b[j]) == save_state_key(a[i]));
        }
        if save_state_has_equal(a[i], b) {
            let d = a[i];
            let j = choose|j: int|
                0 <= j < b.len() && (#[trigger] b[j]).map_field == d.map_field
                    && b[j].attributes == d.attributes
                    && b[j].access_condition == d.access_condition;
            assert(y[j] == x[i]);
        }
    }
    if same_entries(x, y) {
        assert forall|i: int| 0 <= i < a.len() implies save_state_has_equal(#[trigger] a[i], b) by {
            assert(y.contains(x[i]));
        }
    } else if a.len() == b.len() {
        let i = choose|i: int| 0 <= i < x.len() && !y.contains(#[trigger] x[i]);
        assert(!save_state_has_equal(a[i], b));
    }
}

/// Two policies agree on a type if neither has a root for it, or if the roots that decide on it
/// agree; and they do not if only one of them has one.
pub proof fn law_policies_agree_by_root(s1: Seq<u8>, s2: Seq<u8>, policy_type: u32)
    ensures
        root_of_type(s1, policy_type) is None && root_of_type(s2, policy_type) is None
            ==> policies_agree(s1, s2, policy_type),
        root_of_type(s1, policy_type) is None != root_of_type(s2, policy_type) is None
            ==> !policies_agree(s1, s2, policy_type),
        root_of_type(s1, policy_type) is Some && root_of_type(s2, policy_type) is Some
            ==> policies_agree(s1, s2, policy_type) == roots_agree(
            s1,
            root_of_type(s1, policy_type)->0,
            s2,
            root_of_type(s2, policy_type)->0,
        ),
{
}

/// A root passes the check: it is the first of its type, its reserved bytes are zero, and so are
/// those of its descriptors; a save state descriptor grants no write, and has a condition only for
/// conditional reads.
pub open spec fn root_is_sound(s: Seq<u8>, i: int) -> bool {
    let root = policy_roots(s)[i];
    &&& forall|j: int| 0 <= j < i ==> (#[trigger] policy_roots(s)[j]).policy_type != root.policy_type
    &&& root.reserved[0] == 0 && root.reserved[1] == 0 && root.reserved[2] == 0
    &&& 1 <= root.policy_type <= 5
    &&& root.policy_type == TYPE_MEM ==> forall|k: int|
        0 <= k < root.count ==> (#[trigger] mem_descriptors(s, root)[k]).reserved == 0
    &&& root.policy_type == TYPE_IO ==> forall|k: int|
        0 <= k < root.count ==> (#[trigger] io_descriptors(s, root)[k]).reserved == 0
    &&& root.policy_type == TYPE_INSTRUCTION ==> forall|k: int|
        0 <= k < root.count ==> (#[trigger] instruction_descriptors(s, root)[k]).reserved == 0
    &&& root.policy_type == TYPE_SAVE_STATE ==> forall|k: int|
        0 <= k < root.count ==> {
            let d = #[trigger] save_state_descriptors(s, root)[k];
            &&& d.reserved == 0
            &&& d.attributes & (RESOURCE_ATTR_WRITE | RESOURCE_ATTR_COND_WRITE) == 0
            &&& d.attributes & RESOURCE_ATTR_COND_READ == 0 ==> d.access_condition == 0
        }
}

/// The security check passes a policy if and only if its version is 1.0, its header has no other
/// bits, every root is sound, there is no legacy memory policy, and the size that it declares is
/// that of its header, its roots and their descriptors.
pub proof fn law_check_decision(s: Seq<u8>)
    ensures
        check_verdict(s) is Ok <==> {
            let h = header_at(s);
            &&& h.version_major == 1 && h.version_minor == 0
            &&& h.reserved == 0 && h.flags == 0 && h.capabilities == 0
            &&& forall|i: int| 0 <= i < policy_roots(s).len() ==> #[trigger] root_is_sound(s, i)
            &&& h.memory_policy_count == 0
            &&& h.size == scanned_size(s, policy_roots(s).len() as int)
        },
{
    lemma_roots_fault(s, 0);
}

/// The size of a policy: a header of 40 bytes, and for each root its 24 bytes and those of its
/// descriptors, of 24 bytes for memory, 8 for I/O, MSRs and instructions and 16 for save states.
pub proof fn law_policy_size(s: Seq<u8>, n: int)
    requires
        0 <= n < policy_roots(s).len(),
    ensures
        scanned_size(s, 0) == 40,
        ({
            let root = policy_roots(s)[n];
            let more = scanned_size(s, n + 1) - scanned_size(s, n);
            &&& root.policy_type == TYPE_MEM ==> more == 24 + 24 * root.count
            &&& root.policy_type == TYPE_IO || root.policy_type == TYPE_MSR || root.policy_type
                == TYPE_INSTRUCTION ==> more == 24 + 8 * root.count
            &&& root.policy_type == TYPE_SAVE_STATE ==> more == 24 + 16 * root.count
        }),
{
    let root = policy_roots(s)[n];
    let size = descriptor_size(root.policy_type);
    let count = root.count as int;
    assert(scanned_size(s, n + 1) == scanned_size(s, n) + 24 + count * size);
    if root.policy_type == TYPE_MEM {
        assert(count * size == 24 * count) by (nonlinear_arith)
            requires
                size == 24,
        ;
    } else if root.policy_type == TYPE_SAVE_STATE {
        assert(count * size == 16 * count) by (nonlinear_arith)
            requires
                size == 16,
        ;
    } else if size > 0 {
        assert(count * size == 8 * count) by (nonlinear_arith)
            requires
                size == 8,
        ;
    }
}

proof fn lemma_roots_fault(s: Seq<u8>, from: int)
    requires
        0 <= from,
    ensures
        roots_fault(s, from) is None <==> forall|i: int|
            from <= i < policy_roots(s).len() ==> #[trigger] root_is_sound(s, i),
    decreases policy_roots(s).len() - from,
{
    if from < policy_roots(s).len() {
        lemma_roots_fault(s, from + 1);
        lemma_root_fault(s, from);
        if root_is_sound(s, from) && roots_fault(s, from + 1) is None {
            assert forall|i: int| from <= i < policy_roots(s).len() implies #[trigger] root_is_sound(
                s,
                i,
            ) by {
                if i > from {
                    assert(from + 1 <= i);
                }
            }
        }
    }
}

proof fn lemma_root_fault(s: Seq<u8>, i: int)
    requires
        0 <= i < policy_roots(s).len(),
    ensures
        root_fault(s, i) is None <==> root_is_sound(s, i),
{
    let root = policy_roots(s)[i];
    let t = root.policy_type;
    if type_seen(policy_roots(s), i, t) {
        let j = choose|j: int| 0 <= j < i && (#[trigger] policy_roots(s)[j]).policy_type == t;
        assert(policy_roots(s)[j].policy_type == t);
    }
    if t == TYPE_MEM {
        lemma_mem_fault(mem_descriptors(s, root), 0);
    } else if t == TYPE_IO {
        lemma_io_fault(io_descriptors(s, root), 0);
    } else if t == TYPE_INSTRUCTION {
        lemma_instruction_fault(instruction_descriptors(s, root), 0);
    } else if t == TYPE_SAVE_STATE {
        lemma_save_state_fault(save_state_descriptors(s, root), 0);
    }
}

proof fn lemma_mem_fault(list: Seq<MemDescriptorV1_0>, from: int)
    requires
        0 <= from,
    ensures
        mem_fault(list, from) is None <==> forall|k: int|
            from <= k < list.len() ==> (#[trigger] list[k]).reserved == 0,
    decreases list.len() - from,
{
    if from < list.len() {
        lemma_mem_fault(list, from + 1);
    }
}

proof fn lemma_io_fault(list: Seq<IoDescriptorV1_0>, from: int)
    requires
        0 <= from,
    ensures
        io_fault(list, from) is None <==> forall|k: int|
            from <= k < list.len() ==> (#[trigger] list[k]).reserved == 0,
    decreases list.len() - from,
{
    if from < list.len() {
        lemma_io_fault(list, from + 1);
    }
}

proof fn lemma_instruction_fault(list: Seq<InstructionDescriptorV1_0>, from: int)
    requires
        0 <= from,
    ensures
        instruction_fault(list, from) is None <==> forall|k: int|
            from <= k < list.len() ==> (#[trigger] list[k]).reserved == 0,
    decreases list.len() - from,
{
    if from < list.len() {
        lemma_instruction_fault(list, from + 1);
    }
}

proof fn lemma_save_state_fault(list: Seq<SaveStateDescriptorV1_0>, from: int)
    requires
        0 <= from,
    ensures
        save_state_fault(list, from) is None <==> forall|k: int|
            from <= k < list.len() ==> {
                let d = #[trigger] list[k];
                &&& d.reserved == 0
                &&& d.attributes & (RESOURCE_ATTR_WRITE | RESOURCE_ATTR_COND_WRITE) == 0
                &&& d.attributes & RESOURCE_ATTR_COND_READ == 0 ==> d.access_condition == 0
            },
    decreases list.len() - from,
{
    if from < list.len() {
        lemma_save_state_fault(list, from + 1);
    }
}

/// A region continues another if and only if it starts where the other ends and has its attributes;
/// they then become one region, from the start of the first to the end of the second.
pub proof fn law_regions_merge(d: MemDescriptorV1_0, base: u64, size: u64, attributes: u32)
    requires
        d.base_address + d.size <= u64::MAX,
        base + size <= u64::MAX,
    ensures
        continues(d, base, attributes) <==> base == d.base_address + d.size && attributes
            == d.mem_attributes,
        continues(d, base, attributes) ==> {
            let m = extended(d, size);
            &&& m.base_address == d.base_address
            &&& m.base_address + m.size == base + size
            &&& m.mem_attributes == attributes
        },
        region(base, size, attributes).base_address == base,
        region(base, size, attributes).size == size,
        region(base, size, attributes).mem_attributes == attributes,
        region(base, size, attributes).reserved == 0,
{
}

/// What is dumped of a descriptor: its first and last address or number, and its attributes.
pub proof fn law_dumped_descriptors(
    m: MemDescriptorV1_0,
    p: IoDescriptorV1_0,
    r: MsrDescriptorV1_0,
    i: InstructionDescriptorV1_0,
)
    ensures
        mem_record(m) matches PolicyDumpRecord::Mem { first, last, read, write, execute } && {
            &&& first == m.base_address
            &&& m.size > 0 && m.base_address + m.size <= u64::MAX ==> last + 1 == m.base_address
                + m.size
            &&& read <==> m.mem_attributes & RESOURCE_ATTR_READ != 0
            &&& write <==> m.mem_attributes & RESOURCE_ATTR_WRITE != 0
            &&& execute <==> m.mem_attributes & RESOURCE_ATTR_EXECUTE != 0
        },
        io_record(p) matches PolicyDumpRecord::Io { first, last, read, write } && {
            &&& first == p.io_address
            &&& p.length_or_width > 0 ==> last + 1 == p.io_address + p.length_or_width
            &&& read <==> p.attributes as u32 & RESOURCE_ATTR_READ != 0
            &&& write <==> p.attributes as u32 & RESOURCE_ATTR_WRITE != 0
        },
        msr_record(r) matches PolicyDumpRecord::Msr { first, last, read, write } && {
            &&& first == r.msr_address
            &&& r.length > 0 && r.msr_address + r.length <= u32::MAX ==> last + 1 == r.msr_address
                + r.length
            &&& read <==> r.attributes as u32 & RESOURCE_ATTR_READ != 0
            &&& write <==> r.attributes as u32 & RESOURCE_ATTR_WRITE != 0
        },
        instruction_record(i) matches PolicyDumpRecord::Instruction { execute, .. } && (execute
            <==> i.attributes as u32 & RESOURCE_ATTR_EXECUTE != 0),
{
}

/// A dump tells the header first, and then root by root the root and its descriptors, one record
/// for each.
pub proof fn law_dump_order(s: Seq<u8>, n: int)
    requires
        0 <= n < policy_roots(s).len(),
    ensures
        policy_records(s).len() == 1 + root_records(s, policy_roots(s).len() as int).len(),
        policy_records(s)[0] == PolicyDumpRecord::Header(header_at(s)),
        root_records(s, 0).len() == 0,
        ({
            let root = policy_roots(s)[n];
            let at = root_records(s, n).len() as int;
            let after = root_records(s, n + 1);
            &&& after.take(at) == root_records(s, n)
            &&& after[at] == PolicyDumpRecord::Root {
                index: n as usize,
                root,
                allow: root.access_attr == ACCESS_ATTR_ALLOW,
            }
            &&& 1 <= root.policy_type <= 5 ==> after.len() == at + 1 + root.count
            &&& root.policy_type == TYPE_MEM ==> forall|k: int|
                0 <= k < root.count ==> after[at + 1 + k] == mem_record(
                    #[trigger] mem_descriptors(s, root)[k],
                )
            &&& root.policy_type == TYPE_IO ==> forall|k: int|
                0 <= k < root.count ==> after[at + 1 + k] == io_record(
                    #[trigger] io_descriptors(s, root)[k],
                )
            &&& root.policy_type == TYPE_MSR ==> forall|k: int|
                0 <= k < root.count ==> after[at + 1 + k] == msr_record(
                    #[trigger] msr_descriptors(s, root)[k],
                )
            &&& root.policy_type == TYPE_INSTRUCTION ==> forall|k: int|
                0 <= k < root.count ==> after[at + 1 + k] == instruction_record(
                    #[trigger] instruction_descriptors(s, root)[k],
                )
            &&& root.policy_type == TYPE_SAVE_STATE ==> forall|k: int|
                0 <= k < root.count ==> after[at + 1 + k] == save_state_record(
                    #[trigger] save_state_descriptors(s, root)[k],
                )
        }),
{
    assert(root_records(s, n + 1).take(root_records(s, n).len() as int) =~= root_records(s, n));
}

} // verus!
