use patina_mm::efi::{
    EFI_BAD_BUFFER_SIZE, EFI_DEVICE_ERROR, EFI_INVALID_PARAMETER, EFI_NOT_FOUND, EFI_NOT_READY,
    EFI_SUCCESS, EFI_TIMEOUT,
};
use patina_mm::hob::Hob;
use patina_mm::mm_common::{
    EfiMmEntryContext, MmCommBufferStatus, SyscallIndex, UserCommandType,
};
use patina_mm::protocol::mm_supervisor_request::MM_SUPERVISOR_REQUEST_HANDLER_GUID;
use patina_mm::supervisor::cpu::ApState;
use patina_mm::supervisor::mm_core::{
    ap_command_sent, ap_responded, is_core_initialized, leaves_holding_pen, memory_policy_walked,
    process_supervisor_request, supervisor_request_copied, supervisor_request_handled,
    user_request_returned, write_supv_status, ApAction, ApCommand, ApResponse, EntryAction,
    MemoryCopy, MmSupervisorCore, PlatformInfo, RequestTarget, RuntimeAction, SlotWrite,
    SupervisorRequest, UserRequestFault, AP_DEVICE_ERROR, HANDOFF_SIZE,
};
use patina_mm::supervisor::cpu::CpuInfo;
use patina_mm::supervisor::mm_mem::PageAllocator;
use patina_mm::supervisor::page_table::PageOwnership;
use patina_mm::supervisor::pass_down::{
    discover_user_module_entry, CommBufferConfig, MmSupvPassDownHobData, PolicyInitError,
    MM_SUPERVISOR_HOB_MEMORY_ALLOC_MODULE_GUID, MM_SUPERVISOR_USER_GUID,
    MM_SUPV_PASS_DOWN_HOB_GUID, MM_SUPV_PASS_DOWN_HOB_REVISION,
};
use patina_mm::supervisor::perf_timer::{begin_wait, init, PerfTimer};
use patina_mm::supervisor::privilege_mgmt::syscall_setup::SyscallSetupError;
use patina_mm::supervisor::smi_entry::{mmi_entry_base, patch_smi_handler_idt, IdtPatch};
use patina_mm::supervisor::supervisor_handlers::core_handlers;
use patina_mm::supervisor::unblock_memory::UnblockedMemoryTracker;

struct TestPlatform;

impl CpuInfo for TestPlatform {}

impl PlatformInfo for TestPlatform {
    type CpuInfo = Self;
    const MAX_CPU_COUNT: usize = 4;
    const MAX_HANDLERS: usize = 8;
}

type Core = MmSupervisorCore<{ TestPlatform::MAX_CPU_COUNT }>;

#[test]
fn test_supervisor_creation() {
    let supervisor: Core = MmSupervisorCore::new();
    assert!(!supervisor.is_initialized());
}

#[test]
fn test_supervisor_is_const() {
    // A supervisor can be shared as a static instance.
    static _SUPERVISOR: std::sync::OnceLock<Core> = std::sync::OnceLock::new();
    assert!(!_SUPERVISOR.get_or_init(MmSupervisorCore::new).is_initialized());
}

/// The pass-down data, as words: each field holds its own offset, so that it is told from the
/// others, but for those that are given.
fn pass_down(revision: u32, firmware_policy_size: u64) -> Hob {
    let mut data: Vec<u8> = Vec::new();
    for offset in (0..MmSupvPassDownHobData::SIZE as u64).step_by(8) {
        data.extend((offset + 0x1000).to_le_bytes());
    }
    data[0..4].copy_from_slice(&revision.to_le_bytes());
    let p = MmSupvPassDownHobData::from_bytes(&data);
    let at = (p.mm_supv_firmware_policy_buffer_size - 0x1000) as usize;
    data[at..at + 8].copy_from_slice(&firmware_policy_size.to_le_bytes());
    Hob::GuidHob { name: MM_SUPV_PASS_DOWN_HOB_GUID, data }
}

fn user_module(entry_point: u64) -> Hob {
    Hob::MemoryAllocationModule {
        name: MM_SUPERVISOR_HOB_MEMORY_ALLOC_MODULE_GUID,
        memory_base_address: 0x4000_0000,
        memory_length: 0x1_0000,
        module_name: MM_SUPERVISOR_USER_GUID,
        entry_point,
    }
}

fn empty_policy() -> Vec<u8> {
    let mut bytes = vec![0u8; 40];
    bytes[2] = 1;
    bytes[4] = 40;
    bytes[32] = 40;
    bytes
}

/// A supervisor with a BSP 0x10 and an AP 0x11, whose user module is entered at 0x4000_1000.
fn started() -> Core {
    let mut core: Core = MmSupervisorCore::default();
    assert_eq!(core.entry_point(0x10, false), EntryAction::InitializeBsp);
    assert_eq!(core.entry_point(0x11, false), EntryAction::WaitForBsp);
    assert!(!core.ap_released(0x11));
    let hobs = vec![
        Hob::Other,
        pass_down(MM_SUPV_PASS_DOWN_HOB_REVISION, 40),
        user_module(0x4000_1000),
    ];
    core.bsp_init(Some(&hobs));
    let policy = core.init_policy_from_hob_list(Some(&hobs));
    let mut buffers = policy.buffers.unwrap();
    buffers.cpl3_stack_base = 0x10_000;
    buffers.cpl3_stack_size = 0x4000;
    assert!(core.firmware_policy_read(&empty_policy(), &buffers, 0x1000).is_ok());
    let call = core.start_user_core(0, 0x7777).unwrap();
    assert_eq!((call.entry, call.stack, call.arg2), (0x4000_1000, 0x13FF8, 0x7777));
    assert_eq!(call.command, UserCommandType::StartUserCore.as_u64());
    core.user_core_started();
    assert!(core.ap_released(0x11));
    core
}

#[test]
fn first_core_to_arrive_is_the_bsp() {
    let mut core: Core = MmSupervisorCore::new();
    assert_eq!(core.entry_point(0x33, false), EntryAction::InitializeBsp);
    assert_eq!(core.cpu_manager().bsp_id(), Some(0x33));
    assert_eq!(core.entry_point(0x10, false), EntryAction::WaitForBsp);
    // No other core is registered before the BSP is done.
    assert!(!core.ap_released(0x10));
    assert_eq!(core.cpu_manager().registered_count(), 1);
    core.user_core_started();
    assert!(core.ap_released(0x10));
    assert_eq!(core.cpu_manager().bsp_id(), Some(0x33));
    assert_eq!(core.cpu_manager().for_each_ap(), vec![0x10]);
    assert_eq!(core.enter_runtime(0x33), RuntimeAction::ServeRequest { expected_aps: 1 });
    assert_eq!(core.enter_runtime(0x10), RuntimeAction::EnterHoldingPen);
}

#[test]
fn cores_are_initialized_in_turn() {
    let mut core = started();
    assert!(core.is_initialized());
    assert_eq!(core.cpu_manager().registered_count(), 2);
    let expected = core.cpu_manager().registered_count() as u32;
    assert!(!core.all_cores_initialized(expected));
    let slots = core.core_slot_address(0).unwrap();
    assert_eq!(core.mark_core_initialized(1), Some(SlotWrite { address: slots + 8, value: 1 }));
    core.mark_core_initialized(0);
    assert!(core.all_cores_initialized(expected));
    assert!(is_core_initialized(Some(1)));
    assert!(!is_core_initialized(Some(0)));
    assert!(!is_core_initialized(None));
    assert_eq!(core.entry_point(0x10, true), EntryAction::EnterRuntime);
    assert_eq!(core.enter_runtime(0x10), RuntimeAction::ServeRequest { expected_aps: 1 });
    assert_eq!(core.enter_runtime(0x11), RuntimeAction::EnterHoldingPen);
    assert_eq!(core.cpu_manager().get_ap_state(0x11), Some(ApState::InHoldingPen));
}

#[test]
fn the_bsp_waits_for_the_aps() {
    let mut core = started();
    let mut timer = PerfTimer::new();
    init(&mut timer, 1_000_000, 0);
    let mut wait = begin_wait(&timer, 100, 0);
    assert_eq!(core.wait_for_ap_arrival(2, &mut wait, 50), None);
    assert_eq!(core.wait_for_ap_arrival(2, &mut wait, 100), Some(false));
    assert_eq!(core.wait_for_ap_arrival(0, &mut wait, 100), Some(true));
    core.enter_runtime(0x11);
    assert_eq!(core.wait_for_ap_arrival(1, &mut wait, 100), Some(true));
}

#[test]
fn pass_down_data_is_checked() {
    let mut core: Core = MmSupervisorCore::new();
    let missing = core.init_policy_from_hob_list(None);
    assert_eq!(missing.buffers.unwrap_err(), PolicyInitError::NullHobList);
    let none = core.init_policy_from_hob_list(Some(&vec![Hob::Other]));
    assert_eq!(none.buffers.unwrap_err(), PolicyInitError::PassDownHobNotFound);
    let newer = core.init_policy_from_hob_list(Some(&vec![pass_down(9, 40)]));
    assert_eq!(
        newer.buffers.unwrap_err(),
        PolicyInitError::InvalidRevision { found: 9, expected: MM_SUPV_PASS_DOWN_HOB_REVISION }
    );
    assert!(core.comm_buffers().is_none());
    assert_eq!(core.bsp_request_loop(), None);
    let empty = core.init_policy_from_hob_list(Some(&vec![pass_down(1, 0)]));
    assert_eq!(empty.buffers.unwrap_err(), PolicyInitError::NullFirmwarePolicyBuffer);
    assert!(empty.smi_entry.is_some());
    let config = core.comm_buffers().unwrap();
    assert_eq!(core.bsp_request_loop(), Some(config.status_buffer));
    assert!(core.smm_cpu_private().is_some());
    let full = core.init_policy_from_hob_list(Some(&vec![pass_down(1, 40)]));
    let buffers = full.buffers.unwrap();
    let mut policy = empty_policy();
    policy[2] = 9;
    let read = core.firmware_policy_read(&policy, &buffers, 0x1000);
    assert_eq!(read.err(), Some(PolicyInitError::InvalidPolicyData));
    assert_eq!(core.start_user_core(0, 0), Err(UserRequestFault::NoEntryPoint));
    assert_eq!(discover_user_module_entry(Some(&vec![user_module(5)])), Some(5));
}

// ---- Requests ----

fn config() -> CommBufferConfig {
    CommBufferConfig {
        supv_comm_buffer: 0x1000,
        supv_comm_buffer_internal: 0x2000,
        supv_comm_buffer_size: 0x100,
        user_comm_buffer: 0x3000,
        user_comm_buffer_internal: 0x4000,
        user_comm_buffer_size: 0x200,
        status_buffer: 0x5000,
        supv_to_user_buffer: 0x6000,
        supv_to_user_buffer_size: 0x1000,
    }
}

fn status(valid: u8, supervisor: u8) -> MmCommBufferStatus {
    MmCommBufferStatus {
        is_comm_buffer_valid: valid,
        talk_to_supervisor: supervisor,
        return_status: 0,
        return_buffer_size: 0,
    }
}

#[test]
fn requests_have_a_target() {
    assert_eq!(RequestTarget::from(&status(1, 1)), RequestTarget::Supervisor);
    assert_eq!(RequestTarget::from(&status(1, 0)), RequestTarget::User);
    assert_eq!(RequestTarget::from(&status(0, 1)), RequestTarget::User);
}

#[test]
fn user_requests_are_handed_over() {
    let core = started();
    let request = core.process_user_request(&config(), &status(1, 0), 1).unwrap();
    assert_eq!(request.handoff_at, 0x6000);
    assert_eq!(request.copy_in, Some(MemoryCopy { from: 0x3000, to: 0x4000, size: 0x200 }));
    assert_eq!((request.call.stack, request.call.arg2, request.call.arg3), (0x17FF8, 0x6000, 40));
    assert_eq!(request.call.command, UserCommandType::UserRequest.as_u64());
    let context = EfiMmEntryContext::read(&request.handoff, 0);
    assert_eq!((context.currently_executing_cpu, context.number_of_cpus), (1, 2));
    assert_eq!(MmCommBufferStatus::read(&request.handoff, 40), status(1, 0));

    let mut handoff = request.handoff;
    let answer = MmCommBufferStatus {
        is_comm_buffer_valid: 1,
        talk_to_supervisor: 0,
        return_status: EFI_NOT_FOUND,
        return_buffer_size: 0x40,
    };
    answer.write(&mut handoff, 40);
    let reply = user_request_returned(&config(), &status(1, 0), &handoff);
    assert_eq!(reply.copy_out, Some(MemoryCopy { from: 0x4000, to: 0x3000, size: 0x200 }));
    assert_eq!(reply.status_at, 0x5000);
    assert_eq!(reply.status, MmCommBufferStatus { is_comm_buffer_valid: 0, ..answer });

    // Without a valid buffer nothing is copied.
    let idle = core.process_user_request(&config(), &status(0, 0), 0).unwrap();
    assert_eq!(idle.copy_in, None);
    assert_eq!(user_request_returned(&config(), &status(0, 0), &idle.handoff).copy_out, None);
}

#[test]
fn user_requests_need_their_buffers() {
    let core = started();
    let fault = |config: CommBufferConfig, cpu| {
        core.process_user_request(&config, &status(1, 0), cpu).unwrap_err()
    };
    let no_buffer = CommBufferConfig { user_comm_buffer: 0, ..config() };
    assert_eq!(fault(no_buffer, 0), UserRequestFault::NoCommBuffer);
    let no_data = CommBufferConfig { supv_to_user_buffer: 0, ..config() };
    assert_eq!(fault(no_data, 0), UserRequestFault::NoDataBuffer);
    let small = CommBufferConfig { supv_to_user_buffer_size: HANDOFF_SIZE as u64 - 1, ..config() };
    assert_eq!(fault(small, 0), UserRequestFault::DataBufferTooSmall);
    let no_stack = UserRequestFault::NoStack(SyscallSetupError::InvalidCpuIndex);
    assert_eq!(fault(config(), 4), no_stack);
    let new: Core = MmSupervisorCore::new();
    let unstarted = new.process_user_request(&config(), &status(1, 0), 0);
    assert_eq!(unstarted.unwrap_err(), UserRequestFault::NoEntryPoint);
}

fn message(guid: u128, length: u64, size: usize) -> Vec<u8> {
    let mut bytes: Vec<u8> = guid.to_le_bytes().to_vec();
    bytes.extend(length.to_le_bytes());
    bytes.resize(size, 0);
    bytes
}

#[test]
fn supervisor_requests_reach_their_handler() {
    let handlers = core_handlers();
    let copy = MemoryCopy { from: 0x1000, to: 0x2000, size: 0x100 };
    assert_eq!(process_supervisor_request(&config()), Some(copy));
    let missing = CommBufferConfig { supv_comm_buffer_internal: 0, ..config() };
    assert_eq!(process_supervisor_request(&missing), None);
    let refused = SupervisorRequest::Refused(write_supv_status(EFI_BAD_BUFFER_SIZE, 0));
    assert_eq!(supervisor_request_copied(&[0; 23], &handlers), refused);
    let long = message(MM_SUPERVISOR_REQUEST_HANDLER_GUID, 41, 64);
    assert_eq!(supervisor_request_copied(&long, &handlers), refused);
    let fitting = message(MM_SUPERVISOR_REQUEST_HANDLER_GUID, 40, 64);
    match supervisor_request_copied(&fitting, &handlers) {
        SupervisorRequest::Handler { index, data_size } => {
            assert_eq!(handlers[index].handler_guid, MM_SUPERVISOR_REQUEST_HANDLER_GUID);
            assert_eq!(data_size, 40);
        }
        other => panic!("{other:?}"),
    }
    let unknown = supervisor_request_copied(&message(7, 8, 64), &handlers);
    assert_eq!(unknown, SupervisorRequest::NoHandler { data_size: 8 });

    let reply = supervisor_request_handled(64, EFI_SUCCESS, 40);
    assert_eq!(reply.copy_back, Some(64));
    assert_eq!((reply.status.return_status, reply.status.return_buffer_size), (EFI_SUCCESS, 64));
    assert_eq!(reply.status.is_comm_buffer_valid, 0);
    let failed = supervisor_request_handled(64, EFI_NOT_READY, 41);
    assert_eq!(failed.copy_back, None);
    assert_eq!(failed.status.return_status, EFI_NOT_FOUND);
}

#[test]
fn memory_policy_starts_the_tracker() {
    let mut tracker = UnblockedMemoryTracker::new();
    let mmram = PageAllocator::new();
    assert_eq!(memory_policy_walked(&mut tracker, &mmram, None), None);
    assert_eq!(memory_policy_walked(&mut tracker, &mmram, Some(&[])), Some(Ok(())));
    assert!(memory_policy_walked(&mut tracker, &mmram, Some(&[])).unwrap().is_err());
}

// ---- Application processors ----

#[test]
fn procedures_run_with_their_owner() {
    let core = started();
    let error = ApAction::Respond(ApResponse::Error(AP_DEVICE_ERROR));
    assert_eq!(core.run_procedure_on_ap(0x11, 0x99, 5, None), error);
    let call = ApAction::Call { procedure: 0x99, argument: 5 };
    let supervisor = Some(PageOwnership::Supervisor);
    assert_eq!(core.run_procedure_on_ap(0x11, 0x99, 5, supervisor), call);
    let user = Some(PageOwnership::User);
    assert_eq!(core.run_procedure_on_ap(0x55, 0x99, 5, user), error);
    let command = ApCommand::RunProcedure { procedure: 0x99, argument: 5 };
    match core.execute_ap_command(0x11, &command, user) {
        ApAction::Demote(call) => {
            assert_eq!((call.cpu_index, call.stack), (1, 0x17FF8));
            assert_eq!((call.arg2, call.arg3), (0x99, 5));
            assert_eq!(call.command, UserCommandType::UserApProcedure.as_u64());
        }
        other => panic!("{other:?}"),
    }
    let done = core.execute_ap_command(0x11, &ApCommand::Return, None);
    assert_eq!(done, ApAction::Respond(ApResponse::Success));
    assert!(leaves_holding_pen(&ApCommand::Return));
    assert!(!leaves_holding_pen(&command));
}

#[test]
fn procedures_are_started_on_aps() {
    let core = started();
    let dispatch = core.start_ap_procedure(1, 0x99, 5).unwrap();
    assert_eq!(dispatch.cpu_id, 0x11);
    assert_eq!(dispatch.command, ApCommand::RunProcedure { procedure: 0x99, argument: 5 });
    assert_eq!(core.start_ap_procedure(0, 0x99, 5), Err(EFI_INVALID_PARAMETER));
    assert_eq!(core.start_ap_procedure(2, 0x99, 5), Err(EFI_INVALID_PARAMETER));
    assert_eq!(core.start_ap_procedure(1, 0, 5), Err(EFI_INVALID_PARAMETER));
    assert_eq!(ap_command_sent(Ok(())), None);
    assert_eq!(ap_command_sent(Err(())), Some(EFI_INVALID_PARAMETER));
    assert_eq!(ap_responded(None), EFI_TIMEOUT);
    assert_eq!(ap_responded(Some(ApResponse::NoResponse)), EFI_TIMEOUT);
    assert_eq!(ap_responded(Some(ApResponse::Busy)), EFI_NOT_READY);
    assert_eq!(ap_responded(Some(ApResponse::Success)), EFI_SUCCESS);
    assert_eq!(ap_responded(Some(ApResponse::Error(AP_DEVICE_ERROR))), EFI_DEVICE_ERROR);
}

#[test]
fn commands_and_syscalls_have_numbers() {
    for command in [
        UserCommandType::StartUserCore,
        UserCommandType::UserRequest,
        UserCommandType::UserApProcedure,
    ] {
        assert_eq!(UserCommandType::try_from(command.as_u64()), Ok(command));
    }
    assert!(UserCommandType::try_from(99).is_err());
    let index = SyscallIndex::AllocPage;
    assert_eq!(SyscallIndex::from_u64(index.as_u64()), Some(index));
    assert_eq!(SyscallIndex::from_u64(0xFFFF), Some(SyscallIndex::LegacyMax));
    assert_eq!(SyscallIndex::from_u64(8), None);
}

// ---- The SMI entry ----

/// A fixup header of 22 bytes, whose 64-bit array of `count` entries lies behind it.
fn entry_binary(count: u8, descriptor: u64) -> Vec<u8> {
    let mut entry = vec![0x90u8; 16];
    let mut header = vec![0u8; 22];
    header[6] = 22;
    header[7] = count;
    entry.extend(&header);
    entry.extend([0u8; 40]);
    entry.extend(descriptor.to_le_bytes());
    entry.extend((22u32 + 48).to_le_bytes());
    entry
}

#[test]
fn idt_descriptor_is_found() {
    let found = patch_smi_handler_idt(&entry_binary(6, 0xABCD));
    assert_eq!(found, IdtPatch::WriteDescriptor(0xABCD));
    assert_eq!(patch_smi_handler_idt(&entry_binary(6, 0)), IdtPatch::NullDescriptor);
    assert_eq!(patch_smi_handler_idt(&entry_binary(5, 1)), IdtPatch::TooFewFixups(5));
    assert_eq!(patch_smi_handler_idt(&[0xff; 8]), IdtPatch::OutOfBounds);
    assert_eq!(patch_smi_handler_idt(&[]), IdtPatch::OutOfBounds);
    assert_eq!(mmi_entry_base(0, 0x7f00_0000, 0x100), Some(0x7f00_8000));
}
