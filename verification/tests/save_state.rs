use patina_mm::efi::{
    EFI_ACCESS_DENIED, EFI_INVALID_PARAMETER, EFI_NOT_FOUND, EFI_NOT_READY, EFI_SUCCESS,
    EFI_UNSUPPORTED,
};
use patina_mm::mm_cpu::{
    io_trap_read, mm_cpu_read_save_state, mm_cpu_write_save_state, read_field, write_io_info,
    write_scalar, IoAction, IoTrapFields, MmCpuComponent, ReadAction, REGISTER_IO,
    REGISTER_PROCESSOR_ID, REGISTER_RAX,
};
use patina_mm::mm_supervisor::save_state::{
    get_save_state_view, get_smbase_address, inspect_io_condition, read_io_trap_packed,
    read_processor_id_value, save_state_read, write_field_value, CpuFields, SaveStateInfo,
    SaveStateType,
};
use patina_mm::policy::gate::PolicyGate;
use patina_mm::policy::types::{SaveStateCondition, SaveStateField};
use patina_mm::save_state::{
    IoTrap, MmSaveStateRegister, RegisterEntry, RegisterInfo, SaveStateLayout, IO_INFO_SIZE,
    IO_TYPE_INPUT, IO_TYPE_OUTPUT,
};
use patina_mm::supervisor::page_table::PageOwnership;
use patina_mm::supervisor::pass_down::SmmCpuPrivateData;
use patina_mm::supervisor::save_state::{
    actual_write_size, complete_save_state_read, get_number_of_cpus, get_save_state_base,
    processor_id_address, save_state_pointer_address, save_state_read_phase1,
    save_state_read_phase2, to_policy_field, CpuSaveState, SaveStateAccessHolder, SaveStateRequest,
};

/// A small save state: the revision at 0, the I/O field at 4, RAX in two halves at 8 and 12,
/// EFER at 16, and CS at 24.
fn layout() -> SaveStateLayout {
    SaveStateLayout {
        smmrevid_offset: 0,
        min_rev_id_io: 0x3_0004,
        io_info_offset: 4,
        rax_offset: 8,
        efer_offset: 16,
        lma_always_64: false,
        registers: vec![
            RegisterEntry {
                register: MmSaveStateRegister::Rax,
                info: RegisterInfo { lo_offset: 8, hi_offset: 12, native_width: 8 },
            },
            RegisterEntry {
                register: MmSaveStateRegister::Cs,
                info: RegisterInfo { lo_offset: 24, hi_offset: 24, native_width: 4 },
            },
        ],
    }
}

fn save_state_bytes() -> Vec<u8> {
    let mut bytes: Vec<u8> = Vec::new();
    bytes.extend(0x3_0004u32.to_le_bytes());
    bytes.extend(1u32.to_le_bytes());
    bytes.extend(0x1122_3344_5566_7788u64.to_le_bytes());
    bytes.extend(0x400u64.to_le_bytes());
    bytes.extend(0x38u32.to_le_bytes());
    bytes
}

fn output(byte_count: u32) -> IoTrap {
    IoTrap { io_port: 0xB2, io_width: 1, io_type: IO_TYPE_OUTPUT, byte_count }
}

/// A policy of one allow list, under which a field may be read when an output was trapped.
fn policy(field: u32) -> Vec<u8> {
    let mut bytes: Vec<u8> = Vec::new();
    bytes.extend([0, 0, 1, 0]);
    bytes.extend(80u32.to_le_bytes());
    bytes.extend([0u8; 24]);
    bytes.extend(40u32.to_le_bytes());
    bytes.extend(1u32.to_le_bytes());
    for word in [1u32, 24, 5, 64, 1] {
        bytes.extend(word.to_le_bytes());
    }
    bytes.extend([0u8; 4]);
    for word in [field, 0x10, 2, 0] {
        bytes.extend(word.to_le_bytes());
    }
    bytes
}

fn private() -> SmmCpuPrivateData {
    let mut bytes = vec![0u8; SmmCpuPrivateData::SIZE];
    bytes[0x10..0x18].copy_from_slice(&0x5000u64.to_le_bytes());
    bytes[0x20..0x28].copy_from_slice(&0x6000u64.to_le_bytes());
    let mut data = SmmCpuPrivateData::from_bytes(&bytes);
    data.smm_core_entry_context.number_of_cpus = 4;
    data
}

// ---- Registers ----

#[test]
fn test_register_from_u64() {
    assert_eq!(MmSaveStateRegister::from_u64(38), Some(MmSaveStateRegister::Rax));
    assert_eq!(MmSaveStateRegister::from_u64(512), Some(MmSaveStateRegister::Io));
    assert_eq!(MmSaveStateRegister::from_u64(514), Some(MmSaveStateRegister::ProcessorId));
    assert_eq!(MmSaveStateRegister::from_u64(999), None);
    assert_eq!(MmSaveStateRegister::from_u64(0), None);
}

#[test]
fn test_to_policy_field() {
    assert_eq!(to_policy_field(MmSaveStateRegister::Rax), Some(SaveStateField::Rax));
    assert_eq!(to_policy_field(MmSaveStateRegister::Io), Some(SaveStateField::IoTrap));
    assert_eq!(to_policy_field(MmSaveStateRegister::Rbx), None);
    assert_eq!(to_policy_field(MmSaveStateRegister::ProcessorId), None);
}

#[test]
fn test_actual_write_size() {
    let layout = layout();
    assert_eq!(actual_write_size(&layout, MmSaveStateRegister::Io, 4), IO_INFO_SIZE);
    assert_eq!(actual_write_size(&layout, MmSaveStateRegister::Io, 24), IO_INFO_SIZE);

    assert_eq!(actual_write_size(&layout, MmSaveStateRegister::ProcessorId, 8), 8);

    assert_eq!(actual_write_size(&layout, MmSaveStateRegister::Lma, 4), 4);
    assert_eq!(actual_write_size(&layout, MmSaveStateRegister::Lma, 8), 8);
    assert_eq!(actual_write_size(&layout, MmSaveStateRegister::Lma, 3), 0);

    assert_eq!(actual_write_size(&layout, MmSaveStateRegister::Rax, 2), 2);
    assert_eq!(actual_write_size(&layout, MmSaveStateRegister::Rax, 4), 4);
    assert_eq!(actual_write_size(&layout, MmSaveStateRegister::Rax, 8), 8);
    assert_eq!(actual_write_size(&layout, MmSaveStateRegister::Rax, 16), 0);
}

#[test]
fn layouts_lie_within_their_save_state() {
    assert!(layout().is_within(28));
    assert!(!layout().is_within(27));
    assert_eq!(layout().register_info(MmSaveStateRegister::Cs).unwrap().native_width, 4);
    assert_eq!(layout().register_info(MmSaveStateRegister::Rbx), None);
    assert_eq!(layout().read_revision(&save_state_bytes()), 0x3_0004);
    assert_eq!(layout().read_io_field(&save_state_bytes()), 1);
}

// ---- Reads in two phases ----

#[test]
fn test_save_state_access_holder() {
    let access = std::sync::Mutex::new(None);
    {
        let mut access = access.lock().unwrap();
        assert!(access.is_none());
        *access = Some(SaveStateAccessHolder {
            user_protocol: 0xDEAD,
            register: MmSaveStateRegister::Rax,
            cpu_index: 0,
        });
    }

    {
        let mut access = access.lock().unwrap();
        let holder = access.take().unwrap();
        assert_eq!(holder.user_protocol, 0xDEAD);
        assert_eq!(holder.register, MmSaveStateRegister::Rax);
        assert_eq!(holder.cpu_index, 0);
    }

    {
        let access = access.lock().unwrap();
        assert!(access.is_none());
    }
}

#[test]
fn first_phase_stores_a_valid_request() {
    let mut access = None;
    let refused = |access: &mut Option<SaveStateAccessHolder>, register, cpu, private| {
        save_state_read_phase1(access, 0xDEAD, register, cpu, private).status
    };
    assert_eq!(refused(&mut access, 999, 0, Some(private())), EFI_INVALID_PARAMETER);
    assert_eq!(refused(&mut access, 38, 0, None), EFI_NOT_READY);
    assert_eq!(refused(&mut access, 38, 4, Some(private())), EFI_INVALID_PARAMETER);
    assert!(access.is_none());
    assert_eq!(refused(&mut access, 38, 3, Some(private())), EFI_SUCCESS);
    assert_eq!(
        access,
        Some(SaveStateAccessHolder {
            user_protocol: 0xDEAD,
            register: MmSaveStateRegister::Rax,
            cpu_index: 3
        })
    );
}

#[test]
fn second_phase_consumes_the_first() {
    let layout = layout();
    let holder = SaveStateAccessHolder {
        user_protocol: 0xDEAD,
        register: MmSaveStateRegister::Rax,
        cpu_index: 3,
    };
    let mut access = Some(holder);
    assert_eq!(
        save_state_read_phase2(&mut access, &layout, 0xDEAD, 8, 0x9000),
        Ok(SaveStateRequest {
            register: MmSaveStateRegister::Rax,
            cpu_index: 3,
            width: 8,
            buffer: 0x9000,
            write_size: 8
        })
    );
    assert!(access.is_none());
    let status = |access: &mut Option<SaveStateAccessHolder>, protocol, width, buffer| {
        save_state_read_phase2(access, &layout, protocol, width, buffer).unwrap_err().status
    };
    assert_eq!(status(&mut access, 0xDEAD, 8, 0x9000), EFI_INVALID_PARAMETER);
    for (protocol, width, buffer, expected) in [
        (0xBEEF, 8, 0x9000, EFI_INVALID_PARAMETER),
        (0xDEAD, 0, 0x9000, EFI_INVALID_PARAMETER),
        (0xDEAD, 8, 0, EFI_INVALID_PARAMETER),
        (0xDEAD, 3, 0x9000, EFI_UNSUPPORTED),
    ] {
        access = Some(holder);
        assert_eq!(status(&mut access, protocol, width, buffer), expected);
        assert!(access.is_none());
    }
}

#[test]
fn reads_give_the_register() {
    let layout = layout();
    let cpu = CpuSaveState {
        processor_id: Ok(0x21),
        save_state: Ok(save_state_bytes()),
        io_trap: Some(output(2)),
    };
    let request = |register, width, write_size| SaveStateRequest {
        register,
        cpu_index: 0,
        width,
        buffer: 0x9000,
        write_size,
    };
    let user = Some(PageOwnership::User);
    let block = policy(0);
    let gate = PolicyGate::new(Some(&block)).unwrap();
    let rax = request(MmSaveStateRegister::Rax, 8, 8);
    let read = complete_save_state_read(&rax, &layout, &cpu, user, Some(&gate));
    assert_eq!(read.result.status, EFI_SUCCESS);
    assert_eq!(read.data, Some(0x1122_3344_5566_7788u64.to_le_bytes().to_vec()));
    let low = request(MmSaveStateRegister::Rax, 2, 2);
    let read = complete_save_state_read(&low, &layout, &cpu, user, Some(&gate));
    assert_eq!(read.data, Some(vec![0x88, 0x77]));
    let id = request(MmSaveStateRegister::ProcessorId, 8, 8);
    let read = complete_save_state_read(&id, &layout, &cpu, user, None);
    assert_eq!(read.data, Some(0x21u64.to_le_bytes().to_vec()));
    let lma = request(MmSaveStateRegister::Lma, 4, 4);
    let read = complete_save_state_read(&lma, &layout, &cpu, user, None);
    assert_eq!(read.data, Some(vec![64, 0, 0, 0]));
    let io_block = policy(1);
    let io_gate = PolicyGate::new(Some(&io_block)).unwrap();
    let io = request(MmSaveStateRegister::Io, 24, IO_INFO_SIZE);
    let data = complete_save_state_read(&io, &layout, &cpu, user, Some(&io_gate)).data.unwrap();
    assert_eq!(data[0..8], 0x7788u64.to_le_bytes());
    assert_eq!(data[8..16], 0xB2u64.to_le_bytes());
    assert_eq!(data[16..24], [1, 0, 0, 0, 2, 0, 0, 0]);
}

#[test]
fn reads_are_refused() {
    let layout = layout();
    let mut cpu = CpuSaveState {
        processor_id: Ok(0x21),
        save_state: Ok(save_state_bytes()),
        io_trap: Some(output(2)),
    };
    let request = |register, width| SaveStateRequest {
        register,
        cpu_index: 0,
        width,
        buffer: 0x9000,
        write_size: 8,
    };
    let rax = request(MmSaveStateRegister::Rax, 8);
    let user = Some(PageOwnership::User);
    let block = policy(0);
    let gate = PolicyGate::new(Some(&block)).unwrap();
    let status = |request: &SaveStateRequest, cpu: &CpuSaveState, owner, gate| {
        let reply = complete_save_state_read(request, &layout, cpu, owner, gate);
        assert!(reply.data.is_none());
        reply.result.status
    };
    assert_eq!(status(&rax, &cpu, None, Some(&gate)), EFI_ACCESS_DENIED);
    let supervisor = Some(PageOwnership::Supervisor);
    assert_eq!(status(&rax, &cpu, supervisor, Some(&gate)), EFI_ACCESS_DENIED);
    assert_eq!(status(&rax, &cpu, user, None), EFI_NOT_READY);
    let rbx = request(MmSaveStateRegister::Rbx, 8);
    assert_eq!(status(&rbx, &cpu, user, Some(&gate)), EFI_UNSUPPORTED);
    let cs = request(MmSaveStateRegister::Cs, 3);
    assert_eq!(status(&cs, &cpu, user, Some(&gate)), EFI_INVALID_PARAMETER);
    // An input does not meet the condition of the policy.
    cpu.io_trap = Some(IoTrap { io_type: IO_TYPE_INPUT, ..output(2) });
    assert_eq!(cpu.inspect_io_condition(&layout), Some(SaveStateCondition::IoRead));
    assert_eq!(status(&rax, &cpu, user, Some(&gate)), EFI_ACCESS_DENIED);
    cpu.save_state = Err(EFI_NOT_READY);
    assert_eq!(cpu.inspect_io_condition(&layout), None);
    let lma = request(MmSaveStateRegister::Lma, 4);
    assert_eq!(status(&lma, &cpu, user, None), EFI_NOT_READY);
}

#[test]
fn private_data_locates_the_save_states() {
    assert_eq!(get_number_of_cpus(Some(private())), Ok(4));
    assert_eq!(get_number_of_cpus(None), Err(EFI_NOT_READY));
    assert_eq!(save_state_pointer_address(Some(private()), 2), Ok(0x6010));
    assert_eq!(save_state_pointer_address(None, 2), Err(EFI_NOT_READY));
    assert_eq!(processor_id_address(Some(private()), 2, 0x28), Ok(0x5050));
    assert_eq!(get_save_state_base(0), Err(EFI_INVALID_PARAMETER));
    assert_eq!(get_save_state_base(0x7000), Ok(0x7000));
}

// ---- Reads of single fields ----

#[test]
fn test_save_state_type_roundtrip() {
    for t in [SaveStateType::ProcessorId, SaveStateType::Rax, SaveStateType::IoTrap] {
        assert_eq!(SaveStateType::from_u64(t.as_u64()), Some(t));
    }
    assert_eq!(SaveStateType::from_u64(3), None);
    assert_eq!(SaveStateType::from_u64(999), None);
}

fn fields() -> CpuFields {
    CpuFields {
        processor_id: Ok(0x21),
        save_state: Ok(save_state_bytes()),
        io_trap: Some(output(1)),
    }
}

#[test]
fn test_save_state_read_rejects_unknown_field() {
    assert_eq!(
        save_state_read(None, 0, 999, 0, &layout(), &fields(), None, None),
        Err(EFI_INVALID_PARAMETER)
    );
}

#[test]
fn single_fields_are_read() {
    let layout = layout();
    let info = Some(SaveStateInfo { number_of_cpus: 4, processor_info: 0x5000, sm_base: 0x6000 });
    let user = Some(PageOwnership::User);
    let block = policy(0);
    let gate = PolicyGate::new(Some(&block)).unwrap();
    let read = |field: SaveStateType, cpu: &CpuFields, buffer, gate, owner| {
        save_state_read(info, 0, field.as_u64(), buffer, &layout, cpu, gate, owner)
    };
    assert_eq!(
        read(SaveStateType::Rax, &fields(), 0x9000, Some(&gate), user),
        Ok(0x1122_3344_5566_7788u64.to_le_bytes().to_vec())
    );
    let io_block = policy(1);
    let io_gate = PolicyGate::new(Some(&io_block)).unwrap();
    assert_eq!(
        read(SaveStateType::IoTrap, &fields(), 0x9000, Some(&io_gate), user),
        Ok(0x0201_00B2u64.to_le_bytes().to_vec())
    );
    assert_eq!(
        read(SaveStateType::ProcessorId, &fields(), 0x9000, None, user),
        Ok(0x21u64.to_le_bytes().to_vec())
    );
    let rax = SaveStateType::Rax;
    assert_eq!(read(rax, &fields(), 0, Some(&gate), user), Err(EFI_INVALID_PARAMETER));
    assert_eq!(read(rax, &fields(), 0x9000, Some(&gate), None), Err(EFI_ACCESS_DENIED));
    assert_eq!(read(rax, &fields(), 0x9000, None, user), Err(EFI_NOT_READY));
    assert_eq!(read(rax, &fields(), 0x9000, Some(&io_gate), user), Err(EFI_ACCESS_DENIED));
    assert_eq!(
        save_state_read(info, 4, 1, 0x9000, &layout, &fields(), Some(&gate), user),
        Err(EFI_INVALID_PARAMETER)
    );
    assert_eq!(
        save_state_read(None, 0, 1, 0x9000, &layout, &fields(), Some(&gate), user),
        Err(EFI_NOT_READY)
    );
}

#[test]
fn save_state_lies_above_the_smbase() {
    let info = Some(SaveStateInfo { number_of_cpus: 4, processor_info: 0x5000, sm_base: 0x6000 });
    assert_eq!(get_smbase_address(info, 2), Ok(0x6010));
    assert_eq!(get_save_state_view(0x7f00_0000), Ok(0x7f00_fc00));
    assert_eq!(read_processor_id_value(info, 2, 0x28), Ok(0x5050));
    assert_eq!(read_processor_id_value(None, 2, 0x28), Err(EFI_NOT_READY));
    assert_eq!(inspect_io_condition(None), None);
    assert_eq!(read_io_trap_packed(None), None);
    assert_eq!(write_field_value(0, 1, Some(PageOwnership::User)), Err(EFI_INVALID_PARAMETER));
}

// ---- The CPU protocol ----

#[test]
fn test_mm_cpu_read_save_state_rejects_null_this() {
    let action = mm_cpu_read_save_state(true, false, 8, REGISTER_RAX);
    assert_eq!(action, ReadAction::Return(EFI_INVALID_PARAMETER));
}

#[test]
fn test_mm_cpu_read_save_state_rejects_null_buffer() {
    let action = mm_cpu_read_save_state(false, true, 8, REGISTER_RAX);
    assert_eq!(action, ReadAction::Return(EFI_INVALID_PARAMETER));
}

#[test]
fn test_mm_cpu_read_save_state_unsupported_register_is_not_found() {
    // 39 = RBX: a valid register, but not one that is exposed.
    let action = mm_cpu_read_save_state(false, false, 8, 39);
    assert_eq!(action, ReadAction::Return(EFI_NOT_FOUND));
}

#[test]
fn test_mm_cpu_read_save_state_supported_register_forwards_to_syscall() {
    let mut buf = vec![0u8; IO_INFO_SIZE];
    // A supported register goes on to the syscall, whose failure is the answer.
    for register in [REGISTER_PROCESSOR_ID, REGISTER_RAX] {
        let action = mm_cpu_read_save_state(false, false, 8, register);
        assert!(matches!(action, ReadAction::Scalar(_)));
        let field = read_field(EFI_UNSUPPORTED, 0);
        assert_eq!(write_scalar(field, 8, &mut buf), EFI_UNSUPPORTED);
    }

    let action = mm_cpu_read_save_state(false, false, IO_INFO_SIZE, REGISTER_IO);
    assert_eq!(action, ReadAction::Io);
    assert_eq!(io_trap_read(read_field(EFI_UNSUPPORTED, 0)), IoAction::Return(EFI_UNSUPPORTED));
    assert_eq!(buf, vec![0u8; IO_INFO_SIZE]);
}

#[test]
fn test_mm_cpu_read_save_state_io_rejects_small_buffer() {
    let action = mm_cpu_read_save_state(false, false, 8, REGISTER_IO);
    assert_eq!(action, ReadAction::Return(EFI_INVALID_PARAMETER));
}

#[test]
fn test_mm_cpu_write_save_state_is_unsupported() {
    assert_eq!(mm_cpu_write_save_state(), EFI_UNSUPPORTED);
}

#[test]
fn scalars_are_written_up_to_their_width() {
    assert_eq!(MmCpuComponent::new(), MmCpuComponent::default());
    let mut buf = vec![0xffu8; 10];
    assert_eq!(write_scalar(Ok(0x0807_0605_0403_0201), 3, &mut buf), EFI_SUCCESS);
    assert_eq!(buf[..5], [1, 2, 3, 0xff, 0xff]);
    assert_eq!(write_scalar(Ok(0x0807_0605_0403_0201), 10, &mut buf), EFI_SUCCESS);
    assert_eq!(buf, [1, 2, 3, 4, 5, 6, 7, 8, 0xff, 0xff]);
}

#[test]
fn packed_traps_are_unpacked() {
    let packed = read_io_trap_packed(Some(output(2))).unwrap();
    let fields = IoTrapFields { io_port: 0xB2, io_width: 1, io_type: IO_TYPE_OUTPUT };
    assert_eq!(io_trap_read(Ok(packed)), IoAction::ReadRax(fields));
    let input = IoTrap { io_type: IO_TYPE_INPUT, ..output(2) };
    let packed = read_io_trap_packed(Some(input)).unwrap();
    assert!(matches!(io_trap_read(Ok(packed)), IoAction::Write(_)));
    let mut buf = vec![0xffu8; IO_INFO_SIZE];
    assert_eq!(write_io_info(fields, Some(Ok(0x1234_5678)), &mut buf), EFI_SUCCESS);
    assert_eq!(buf[0..8], 0x5678u64.to_le_bytes());
    assert_eq!(buf[8..12], [0xB2, 0, 0xff, 0xff]);
    assert_eq!(buf[12..20], [1, 0, 0, 0, 2, 0, 0, 0]);
    assert_eq!(buf[20..24], [0xff; 4]);
    assert_eq!(write_io_info(fields, Some(Err(EFI_NOT_READY)), &mut buf), EFI_NOT_READY);
}
