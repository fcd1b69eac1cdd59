use patina_mm::policy::gate::{PolicyError, PolicyGate};
use patina_mm::policy::helpers::{
    compare_mem_descriptors, compare_memory_policy, compare_policy_with_type, dump_mem_policy_entry,
    dump_policy, security_policy_check, MemoryPolicyBuilder, PolicyCheckError, PolicyDumpRecord,
};
use patina_mm::policy::types::{
    is_policy_buffer, AccessType, Instruction, IoWidth, MemDescriptorV1_0, SaveStateCondition,
    SaveStateField, ACCESS_ATTR_ALLOW, ACCESS_ATTR_DENY, RESOURCE_ATTR_COND_READ,
    RESOURCE_ATTR_EXECUTE, RESOURCE_ATTR_READ, RESOURCE_ATTR_STRICT_WIDTH, RESOURCE_ATTR_WRITE,
    TYPE_INSTRUCTION, TYPE_IO, TYPE_MEM, TYPE_MSR, TYPE_SAVE_STATE,
};

/// A policy root with the bytes of its descriptors.
struct Root {
    policy_type: u32,
    access_attr: u8,
    count: u32,
    descriptors: Vec<u8>,
}

fn policy(roots: &[Root]) -> Vec<u8> {
    let mut descriptors_at = 40 + roots.len() * 24;
    let total: usize = descriptors_at + roots.iter().map(|r| r.descriptors.len()).sum::<usize>();
    let mut bytes: Vec<u8> = Vec::new();
    bytes.extend(0u16.to_le_bytes());
    bytes.extend(1u16.to_le_bytes());
    bytes.extend((total as u32).to_le_bytes());
    bytes.extend([0u8; 16]);
    bytes.extend(0u64.to_le_bytes());
    bytes.extend(40u32.to_le_bytes());
    bytes.extend((roots.len() as u32).to_le_bytes());
    for root in roots {
        bytes.extend(1u32.to_le_bytes());
        bytes.extend(24u32.to_le_bytes());
        bytes.extend(root.policy_type.to_le_bytes());
        bytes.extend((descriptors_at as u32).to_le_bytes());
        bytes.extend(root.count.to_le_bytes());
        bytes.extend([root.access_attr, 0, 0, 0]);
        descriptors_at += root.descriptors.len();
    }
    for root in roots {
        bytes.extend(&root.descriptors);
    }
    bytes
}

fn io(address: u16, length: u16, attributes: u32) -> Vec<u8> {
    let mut bytes: Vec<u8> = Vec::new();
    bytes.extend(address.to_le_bytes());
    bytes.extend(length.to_le_bytes());
    bytes.extend((attributes as u16).to_le_bytes());
    bytes.extend(0u16.to_le_bytes());
    bytes
}

fn msr(address: u32, length: u16, attributes: u32) -> Vec<u8> {
    let mut bytes: Vec<u8> = Vec::new();
    bytes.extend(address.to_le_bytes());
    bytes.extend(length.to_le_bytes());
    bytes.extend((attributes as u16).to_le_bytes());
    bytes
}

fn instruction(index: u16, attributes: u32) -> Vec<u8> {
    let mut bytes: Vec<u8> = Vec::new();
    bytes.extend(index.to_le_bytes());
    bytes.extend((attributes as u16).to_le_bytes());
    bytes.extend(0u32.to_le_bytes());
    bytes
}

fn save_state(field: u32, attributes: u32, condition: u32) -> Vec<u8> {
    let mut bytes: Vec<u8> = Vec::new();
    bytes.extend(field.to_le_bytes());
    bytes.extend(attributes.to_le_bytes());
    bytes.extend(condition.to_le_bytes());
    bytes.extend(0u32.to_le_bytes());
    bytes
}

fn mem(base: u64, size: u64, attributes: u32) -> Vec<u8> {
    let mut bytes: Vec<u8> = Vec::new();
    bytes.extend(base.to_le_bytes());
    bytes.extend(size.to_le_bytes());
    bytes.extend(attributes.to_le_bytes());
    bytes.extend(0u32.to_le_bytes());
    bytes
}

fn sample() -> Vec<u8> {
    let mut ports = io(0xCF8, 8, RESOURCE_ATTR_READ | RESOURCE_ATTR_WRITE);
    ports.extend(io(0xB2, 1, RESOURCE_ATTR_WRITE | RESOURCE_ATTR_STRICT_WIDTH));
    policy(&[
        Root { policy_type: TYPE_IO, access_attr: ACCESS_ATTR_ALLOW, count: 2, descriptors: ports },
        Root {
            policy_type: TYPE_MSR,
            access_attr: ACCESS_ATTR_DENY,
            count: 1,
            descriptors: msr(0xC000_0080, 5, RESOURCE_ATTR_WRITE),
        },
        Root {
            policy_type: TYPE_INSTRUCTION,
            access_attr: ACCESS_ATTR_ALLOW,
            count: 1,
            descriptors: instruction(2, RESOURCE_ATTR_EXECUTE),
        },
        Root {
            policy_type: TYPE_SAVE_STATE,
            access_attr: ACCESS_ATTR_ALLOW,
            count: 1,
            descriptors: save_state(0, RESOURCE_ATTR_COND_READ, 2),
        },
        Root {
            policy_type: TYPE_MEM,
            access_attr: ACCESS_ATTR_ALLOW,
            count: 1,
            descriptors: mem(0x1000, 0x2000, RESOURCE_ATTR_READ),
        },
    ])
}

#[test]
fn test_io_width() {
    assert_eq!(IoWidth::Byte.size(), 1);
    assert_eq!(IoWidth::Word.size(), 2);
    assert_eq!(IoWidth::Dword.size(), 4);
}

#[test]
fn test_access_type_mask() {
    assert_eq!(AccessType::Read.as_attr_mask(), RESOURCE_ATTR_READ);
    assert_eq!(AccessType::Write.as_attr_mask(), RESOURCE_ATTR_WRITE);
    assert_eq!(AccessType::Execute.as_attr_mask(), RESOURCE_ATTR_EXECUTE);
}

#[test]
fn test_instruction_conversion() {
    assert_eq!(Instruction::Cli.as_index(), 0);
    assert_eq!(Instruction::from_index(0), Some(Instruction::Cli));
    assert_eq!(Instruction::from_index(99), None);
}

#[test]
fn test_dump_mem_policy_entry() {
    let desc = MemDescriptorV1_0 {
        base_address: 0x1000,
        size: 0x1000,
        mem_attributes: RESOURCE_ATTR_READ | RESOURCE_ATTR_WRITE,
        reserved: 0,
    };
    assert_eq!(
        dump_mem_policy_entry(&desc),
        PolicyDumpRecord::Mem {
            first: 0x1000,
            last: 0x1FFF,
            read: true,
            write: true,
            execute: false
        }
    );
}

#[test]
fn test_compare_mem_descriptors() {
    let descs1 = [
        MemDescriptorV1_0 { base_address: 0x1000, size: 0x1000, mem_attributes: 1, reserved: 0 },
        MemDescriptorV1_0 { base_address: 0x2000, size: 0x1000, mem_attributes: 2, reserved: 0 },
    ];
    let descs2 = [
        MemDescriptorV1_0 { base_address: 0x2000, size: 0x1000, mem_attributes: 2, reserved: 0 },
        MemDescriptorV1_0 { base_address: 0x1000, size: 0x1000, mem_attributes: 1, reserved: 0 },
    ];

    assert!(compare_mem_descriptors(&descs1, &descs2));
}

#[test]
fn test_compare_mem_descriptors_mismatch() {
    let descs1 = [MemDescriptorV1_0 {
        base_address: 0x1000,
        size: 0x1000,
        mem_attributes: 1,
        reserved: 0,
    }];
    let descs2 = [MemDescriptorV1_0 {
        base_address: 0x1000,
        size: 0x2000,
        mem_attributes: 1,
        reserved: 0,
    }];

    assert!(!compare_mem_descriptors(&descs1, &descs2));
}

#[test]
fn gate_needs_a_policy_of_its_version() {
    assert_eq!(PolicyGate::new(None).err(), Some(PolicyError::NullPointer));
    let mut block = sample();
    block[2] = 2;
    assert_eq!(PolicyGate::new(Some(&block)).err(), Some(PolicyError::InvalidVersion));
    let block = sample();
    assert!(is_policy_buffer(&block));
    assert_eq!(PolicyGate::new(Some(&block)).unwrap().as_ptr(), &block[..]);
}

#[test]
fn io_accesses_follow_the_allow_list() {
    let block = sample();
    let gate = PolicyGate::new(Some(&block)).unwrap();
    assert_eq!(gate.is_io_allowed(0xCF8, IoWidth::Dword, AccessType::Read), Ok(()));
    assert_eq!(gate.is_io_allowed(0xCFE, IoWidth::Word, AccessType::Write), Ok(()));
    assert_eq!(
        gate.is_io_allowed(0xCFE, IoWidth::Dword, AccessType::Write),
        Err(PolicyError::AccessDenied)
    );
    assert_eq!(gate.is_io_allowed(0xB2, IoWidth::Byte, AccessType::Write), Ok(()));
    assert_eq!(
        gate.is_io_allowed(0xB2, IoWidth::Word, AccessType::Write),
        Err(PolicyError::AccessDenied)
    );
    assert_eq!(
        gate.is_io_allowed(0xB2, IoWidth::Byte, AccessType::Read),
        Err(PolicyError::AccessDenied)
    );
    assert_eq!(
        gate.is_io_allowed(0xB2, IoWidth::Byte, AccessType::Execute),
        Err(PolicyError::InvalidAccessMask)
    );
    assert_eq!(
        gate.is_io_allowed(0x1_0000, IoWidth::Byte, AccessType::Read),
        Err(PolicyError::InvalidIoAddress)
    );
    assert_eq!(
        gate.is_io_allowed(0xFFFF, IoWidth::Word, AccessType::Read),
        Err(PolicyError::InvalidIoRange)
    );
}

#[test]
fn msr_accesses_follow_the_deny_list() {
    let block = sample();
    let gate = PolicyGate::new(Some(&block)).unwrap();
    assert_eq!(
        gate.is_msr_allowed(0xC000_0084, AccessType::Write),
        Err(PolicyError::AccessDenied)
    );
    assert_eq!(gate.is_msr_allowed(0xC000_0084, AccessType::Read), Ok(()));
    assert_eq!(gate.is_msr_allowed(0xC000_0085, AccessType::Write), Ok(()));
    assert_eq!(
        gate.is_msr_allowed(1, AccessType::Execute),
        Err(PolicyError::InvalidAccessMask)
    );
}

#[test]
fn instructions_and_save_state_follow_their_lists() {
    let block = sample();
    let gate = PolicyGate::new(Some(&block)).unwrap();
    assert_eq!(gate.is_instruction_allowed(Instruction::Hlt), Ok(()));
    assert_eq!(gate.is_instruction_allowed(Instruction::Cli), Err(PolicyError::AccessDenied));
    let write = Some(SaveStateCondition::IoWrite);
    assert_eq!(gate.is_save_state_read_allowed(SaveStateField::Rax, 8, write), Ok(()));
    assert_eq!(
        gate.is_save_state_read_allowed(SaveStateField::Rax, 8, None),
        Err(PolicyError::AccessDenied)
    );
    assert_eq!(
        gate.is_save_state_read_allowed(SaveStateField::IoTrap, 8, write),
        Err(PolicyError::AccessDenied)
    );
}

#[test]
fn missing_roots_are_reported() {
    let block = policy(&[]);
    let gate = PolicyGate::new(Some(&block)).unwrap();
    assert_eq!(
        gate.is_io_allowed(0x80, IoWidth::Byte, AccessType::Write),
        Err(PolicyError::PolicyRootNotFound)
    );
    assert_eq!(
        gate.is_msr_allowed(0x80, AccessType::Write),
        Err(PolicyError::PolicyRootNotFound)
    );
}

#[test]
fn policies_are_dumped_root_by_root() {
    assert_eq!(dump_policy(None), vec![PolicyDumpRecord::NoPolicy]);
    let block = sample();
    let records = dump_policy(Some(&block));
    // A header, five roots, and six descriptors.
    assert_eq!(records.len(), 12);
    assert!(records.contains(&PolicyDumpRecord::Io {
        first: 0xCF8,
        last: 0xCFF,
        read: true,
        write: true
    }));
    assert!(records.contains(&PolicyDumpRecord::Instruction { name: "HLT", execute: true }));
}

#[test]
fn policies_are_compared_by_type() {
    let block = sample();
    let other = policy(&[Root {
        policy_type: TYPE_MEM,
        access_attr: ACCESS_ATTR_ALLOW,
        count: 1,
        descriptors: mem(0x1000, 0x2000, RESOURCE_ATTR_READ),
    }]);
    assert!(compare_memory_policy(Some(&block), Some(&other)));
    assert!(compare_policy_with_type(Some(&block), Some(&block), TYPE_MSR));
    assert!(!compare_policy_with_type(Some(&block), Some(&other), TYPE_MSR));
    assert!(!compare_memory_policy(Some(&block), None));
}

#[test]
fn security_check_accepts_and_rejects() {
    assert_eq!(security_policy_check(None), Err(PolicyCheckError::NullPointer));
    let only_io = policy(&[Root {
        policy_type: TYPE_IO,
        access_attr: ACCESS_ATTR_ALLOW,
        count: 1,
        descriptors: io(0x60, 4, RESOURCE_ATTR_READ),
    }]);
    assert_eq!(security_policy_check(Some(&only_io)), Ok(()));
    let mut bad_version = only_io.clone();
    bad_version[0] = 9;
    assert_eq!(
        security_policy_check(Some(&bad_version)),
        Err(PolicyCheckError::InvalidVersion { major: 1, minor: 9 })
    );
    let twice = policy(&[
        Root { policy_type: TYPE_IO, access_attr: 0, count: 0, descriptors: Vec::new() },
        Root { policy_type: TYPE_IO, access_attr: 0, count: 0, descriptors: Vec::new() },
    ]);
    assert_eq!(
        security_policy_check(Some(&twice)),
        Err(PolicyCheckError::DuplicatePolicyType { policy_type: TYPE_IO })
    );
}

#[test]
fn security_check_names_what_is_wrong() {
    let good = sample();
    assert_eq!(security_policy_check(Some(&good)), Ok(()));

    // The flags of the header, and a legacy memory policy.
    let mut block = good.clone();
    block[16] = 1;
    assert_eq!(
        security_policy_check(Some(&block)),
        Err(PolicyCheckError::UnrecognizedHeaderBits)
    );
    let mut block = good.clone();
    block[12] = 1;
    assert_eq!(
        security_policy_check(Some(&block)),
        Err(PolicyCheckError::LegacyMemoryPolicyDetected)
    );

    // A size that is one too large.
    let mut block = good.clone();
    let declared = u32::from_le_bytes([block[4], block[5], block[6], block[7]]) + 1;
    block[4..8].copy_from_slice(&declared.to_le_bytes());
    assert_eq!(
        security_policy_check(Some(&block)),
        Err(PolicyCheckError::SizeMismatch {
            expected: u64::from(declared) - 1,
            declared: u64::from(declared)
        })
    );

    // The reserved bytes of the first root, and of its second descriptor.
    let mut block = good.clone();
    block[40 + 23] = 1;
    assert_eq!(
        security_policy_check(Some(&block)),
        Err(PolicyCheckError::InvalidReservedField { policy_type: TYPE_IO, entry_index: 0 })
    );
    let mut block = good.clone();
    block[40 + 5 * 24 + 8 + 6] = 1;
    assert_eq!(
        security_policy_check(Some(&block)),
        Err(PolicyCheckError::InvalidReservedField { policy_type: TYPE_IO, entry_index: 1 })
    );

    // A type that nobody knows.
    for policy_type in [0, 6, 63, 64, 65, 128, u32::MAX] {
        let unknown =
            policy(&[Root { policy_type, access_attr: 0, count: 0, descriptors: Vec::new() }]);
        assert_eq!(
            security_policy_check(Some(&unknown)),
            Err(PolicyCheckError::UnrecognizedPolicyType { policy_type })
        );
    }

    // Save state writes, and a condition that nothing makes conditional.
    let writes = policy(&[Root {
        policy_type: TYPE_SAVE_STATE,
        access_attr: ACCESS_ATTR_ALLOW,
        count: 1,
        descriptors: save_state(0, RESOURCE_ATTR_WRITE, 0),
    }]);
    assert_eq!(
        security_policy_check(Some(&writes)),
        Err(PolicyCheckError::UnsupportedAttribute {
            policy_type: TYPE_SAVE_STATE,
            entry_index: 0,
            attributes: RESOURCE_ATTR_WRITE
        })
    );
    let conditional = policy(&[Root {
        policy_type: TYPE_SAVE_STATE,
        access_attr: ACCESS_ATTR_ALLOW,
        count: 1,
        descriptors: save_state(0, RESOURCE_ATTR_READ, 2),
    }]);
    assert_eq!(
        security_policy_check(Some(&conditional)),
        Err(PolicyCheckError::ConflictingCondition { entry_index: 0 })
    );
}

#[test]
fn builder_merges_what_continues() {
    let mut builder = MemoryPolicyBuilder::new(2);
    builder.add_region(0x1000, 0x1000, 1).unwrap();
    builder.add_region(0x2000, 0x1000, 1).unwrap();
    builder.add_region(0x3000, 0x1000, 2).unwrap();
    let regions = builder.finish().unwrap();
    assert_eq!(regions.len(), 2);
    assert_eq!((regions[0].base_address, regions[0].size), (0x1000, 0x2000));
    assert_eq!((regions[1].base_address, regions[1].size), (0x3000, 0x1000));

    let mut full = MemoryPolicyBuilder::new(0);
    full.add_region(0x1000, 0x1000, 1).unwrap();
    assert!(full.add_region(0x9000, 0x1000, 1).is_err());
}
