use patina_mm::supervisor::privilege_mgmt::call_gate::{
    setup_call_gate, CallGateDescriptor, TssDescriptor,
};
use patina_mm::supervisor::privilege_mgmt::syscall_dispatcher::{
    syscall_dispatcher, SyscallContext, SyscallDispatcher, SyscallIndex, SyscallResult,
};
use patina_mm::supervisor::privilege_mgmt::syscall_setup::{
    SyscallCache, SyscallInterface, SyscallMsrs, SyscallSetupError,
};
use patina_mm::supervisor::privilege_mgmt::{
    PrivilegeLevel, LONG_CS_R0, MSR_IA32_EFER, MSR_IA32_GS_BASE, MSR_IA32_KERNEL_GS_BASE,
    MSR_IA32_LSTAR, MSR_IA32_STAR,
};

#[test]
fn test_call_gate_descriptor_offset() {
    let mut desc = CallGateDescriptor::new(0x12345678_9ABCDEF0, LONG_CS_R0, 3);
    assert_eq!(desc.get_offset(), 0x12345678_9ABCDEF0);

    desc.set_offset(0xFEDCBA98_76543210);
    assert_eq!(desc.get_offset(), 0xFEDCBA98_76543210);
}

#[test]
fn test_tss_descriptor_base() {
    let mut desc = TssDescriptor::new(0x12345678_9ABCDEF0, 0x1000);
    assert_eq!(desc.get_base(), 0x12345678_9ABCDEF0);

    desc.set_base(0xFEDCBA98_76543210);
    assert_eq!(desc.get_base(), 0xFEDCBA98_76543210);
}

#[test]
fn call_gate_leads_to_the_return_pointer() {
    let gate = CallGateDescriptor::new(0, 0, 0);
    let tss = TssDescriptor::new(0, 0x67);
    assert_eq!(TssDescriptor::new(0, 0xFFFF_FFFF).limit_flags, 0x0F);
    let setup = setup_call_gate(0x10_0000, gate, tss, 0xFFFF_8000_1234_5678, 0x7000, 0xF0);
    assert_eq!(setup.call_gate_addr, 0x10_0060);
    assert_eq!(setup.call_gate.get_offset(), 0xFFFF_8000_1234_5678);
    assert_eq!(setup.call_gate.selector, LONG_CS_R0);
    assert_eq!(setup.call_gate.type_attr, 0xEC);
    assert_eq!(setup.tss_desc_addr, 0x10_0070);
    assert_eq!(setup.tss_desc.get_base(), 0x10_0080);
    assert_eq!(setup.rsp0, 0x7000);
    assert_eq!(setup.cr4, 0x70);
}

#[test]
fn test_privilege_level() {
    assert_eq!(PrivilegeLevel::Ring0.as_u8(), 0);
    assert_eq!(PrivilegeLevel::Ring3.as_u8(), 3);
    assert_eq!(PrivilegeLevel::from_u8(0), Some(PrivilegeLevel::Ring0));
    assert_eq!(PrivilegeLevel::from_u8(3), Some(PrivilegeLevel::Ring3));
    assert_eq!(PrivilegeLevel::from_u8(1), None);
    assert_eq!(PrivilegeLevel::from_u8(2), None);
}

#[test]
fn test_syscall_index_roundtrip() {
    for idx in [
        SyscallIndex::RdMsr,
        SyscallIndex::WrMsr,
        SyscallIndex::Cli,
        SyscallIndex::IoRead,
        SyscallIndex::IoWrite,
    ] {
        assert_eq!(SyscallIndex::from_u64(idx.as_u64()), Some(idx));
    }
}

#[test]
fn test_unknown_syscall_index() {
    assert_eq!(SyscallIndex::from_u64(0xFFFF), None);
    assert_eq!(SyscallIndex::from_u64(0), None);
}

#[test]
fn test_syscall_result() {
    let success = SyscallResult::success(42);
    assert_eq!(success.value, 42);
    assert_eq!(success.status, 0);

    let error = SyscallResult::error(SyscallResult::EFI_INVALID_PARAMETER);
    assert_eq!(error.value, 0);
    assert_eq!(error.status, SyscallResult::EFI_INVALID_PARAMETER);
}

#[test]
fn dispatcher_keeps_registered_pointers() {
    let mut dispatcher = SyscallDispatcher::new();
    assert!(dispatcher.init().is_ok());
    assert!(dispatcher.is_initialized());
    let mut ctx = SyscallContext {
        call_index: SyscallIndex::RegHandlerJump.as_u64(),
        arg1: 0x1000,
        arg2: 0,
        arg3: 0,
        caller_addr: 0,
        ring3_stack_ptr: 0,
    };
    assert_eq!(dispatcher.dispatch(&ctx).status, 0);
    assert_eq!(dispatcher.get_ring3_handler_jump(), 0x1000);
    ctx.call_index = SyscallIndex::SetCpl3Table.as_u64();
    ctx.arg1 = 0x2000;
    assert_eq!(dispatcher.dispatch(&ctx).status, 0);
    assert_eq!(dispatcher.get_user_mmst(), 0x2000);
    ctx.call_index = SyscallIndex::ErrReportJump.as_u64();
    ctx.arg1 = 0x3000;
    assert_eq!(dispatcher.dispatch(&ctx).status, 0);
    assert_eq!(dispatcher.get_error_report_jump(), 0x3000);
    assert_eq!(dispatcher.get_ap_ring3_jump(), 0);
    ctx.call_index = 0x4444;
    assert_eq!(dispatcher.dispatch(&ctx).status, SyscallResult::EFI_UNSUPPORTED);
    let index = SyscallIndex::RegHandlerJump.as_u64();
    assert_eq!(syscall_dispatcher(&mut dispatcher, index, 5, 0, 0, 0, 0), 0);
    assert_eq!(dispatcher.get_ring3_handler_jump(), 5);
}

#[test]
fn test_syscall_cache_layout() {
    assert_eq!(SyscallCache::MM_SUPV_RSP, 0x00);
    assert_eq!(SyscallCache::SAVED_USER_RSP, 0x08);
    assert_eq!(SyscallCache::OS_GS_BASE_PTR, 0x10);
    assert_eq!(SyscallCache::OS_GS_SWAP_BASE_PTR, 0x18);
    let cache = SyscallCache {
        mm_supv_rsp: 1,
        saved_user_rsp: 2,
        os_gs_base_ptr: 3,
        os_gs_swap_base_ptr: 4,
    };
    let bytes = cache.to_bytes();
    assert_eq!(bytes.len(), SyscallCache::SIZE);
    assert_eq!(bytes[SyscallCache::MM_SUPV_RSP], 1);
    assert_eq!(bytes[SyscallCache::SAVED_USER_RSP], 2);
    assert_eq!(bytes[SyscallCache::OS_GS_BASE_PTR], 3);
    assert_eq!(bytes[SyscallCache::OS_GS_SWAP_BASE_PTR], 4);
}

#[test]
fn test_cpl3_stack_calculation() {
    let mut interface: SyscallInterface<8> = SyscallInterface::new();

    interface.init(4, 0x1000, 0x10000, 0x4000).unwrap();

    assert_eq!(interface.get_cpl3_stack(0).unwrap(), 0x13FF8);
    assert_eq!(interface.get_cpl3_stack(1).unwrap(), 0x17FF8);
}

#[test]
fn test_init_twice_fails() {
    let mut interface: SyscallInterface<8> = SyscallInterface::new();
    assert!(interface.init(4, 0x1000, 0x10000, 0x4000).is_ok());
    assert_eq!(
        interface.init(4, 0x1000, 0x10000, 0x4000),
        Err(SyscallSetupError::AlreadyInitialized)
    );
}

#[test]
fn test_invalid_cpu_index() {
    let mut interface: SyscallInterface<8> = SyscallInterface::new();
    interface.init(4, 0x1000, 0x10000, 0x4000).unwrap();

    assert_eq!(interface.get_cpl3_stack(4), Err(SyscallSetupError::InvalidCpuIndex));
    assert_eq!(interface.get_cpl3_stack(100), Err(SyscallSetupError::InvalidCpuIndex));
}

#[test]
fn test_max_cpus_exceeded() {
    let mut interface: SyscallInterface<4> = SyscallInterface::new();
    assert_eq!(
        interface.init(8, 0x1000, 0x10000, 0x4000),
        Err(SyscallSetupError::InvalidCpuIndex)
    );
}

#[test]
fn test_max_cpus_accessor() {
    let interface: SyscallInterface<16> = SyscallInterface::new();
    assert_eq!(interface.max_cpus(), 16);
}

#[test]
fn restoring_undoes_the_msr_setup() {
    let mut interface: SyscallInterface<2> = SyscallInterface::new();
    assert_eq!(interface.get_cpl3_stack(0), Err(SyscallSetupError::NotInitialized));
    interface.init(2, 0xABCD, 0x10000, 0x1000).unwrap();
    assert_eq!(interface.restore_cpl0_msr_star(0).unwrap_err(), SyscallSetupError::NotReady);
    let current = SyscallMsrs {
        star: 0x1111_2222_3333_4444,
        lstar: 5,
        efer: 0x500,
        gs_base: 7,
        kernel_gs_base: 8,
    };
    let writes = interface.setup_cpl0_msr_star(0, current, 0x9000).unwrap();
    let written = |msr: u32| writes.iter().find(|w| w.msr == msr).unwrap().value;
    assert_eq!(written(MSR_IA32_STAR), 0x004B_0038_3333_4444);
    assert_eq!(written(MSR_IA32_LSTAR), 0xABCD);
    assert_eq!(written(MSR_IA32_EFER), 0x501);
    assert_eq!(written(MSR_IA32_GS_BASE), 0);
    assert_eq!(written(MSR_IA32_KERNEL_GS_BASE), 0x9000);
    let restored = interface.restore_cpl0_msr_star(0).unwrap();
    let back = |msr: u32| restored.iter().find(|w| w.msr == msr).unwrap().value;
    assert_eq!(back(MSR_IA32_STAR), current.star);
    assert_eq!(back(MSR_IA32_LSTAR), current.lstar);
    assert_eq!(back(MSR_IA32_EFER), current.efer);
    interface.update_cpl0_stack_ptr(0, 0x77).unwrap();
    assert_eq!(interface.get_syscall_cache(0).unwrap().mm_supv_rsp, 0x77);
}
