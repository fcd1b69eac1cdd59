use patina_mm::efi::{
    EFI_ACCESS_DENIED, EFI_BUFFER_TOO_SMALL, EFI_DEVICE_ERROR, EFI_INVALID_PARAMETER,
    EFI_NOT_FOUND, EFI_NOT_READY, EFI_OUT_OF_RESOURCES, EFI_SECURITY_VIOLATION, EFI_SUCCESS,
    EFI_UNSUPPORTED,
};
use patina_mm::hob::Hob;
use patina_mm::policy::gate::PolicyError;
use patina_mm::protocol::mm_supervisor_request::{
    requests, MmSupervisorRequestHeader, MmSupervisorVersionInfo,
    MM_SUPERVISOR_REQUEST_HANDLER_GUID, REVISION, SIGNATURE,
};
use patina_mm::supervisor::mm_mem::{PageAllocator, SMM_SMRAM_MEMORY_GUID};
use patina_mm::supervisor::page_table::PtError;
use patina_mm::supervisor::request_handler::{
    after_handler, RequestContext, RequestDispatcher, RequestHandlerEntry, RequestResult,
};
use patina_mm::supervisor::supervisor_handlers::{
    core_handlers, fetch_policy_snapshot_taken, fetch_policy_verified, fetch_policy_written,
    find_handler, finish_request, mm_ready_to_lock_handler, mm_supv_request_handler,
    policy_snapshot_compared, ready_to_lock_snapshot_taken, unblock_mapped, unblock_queried,
    verify_policy_snapshot, FetchAction, LockAction, SupvRequestAction, UnblockAction,
    UnblockRequest, VerifyAction, EFI_DXE_MM_READY_TO_LOCK_PROTOCOL_GUID, HEADER_SIZE, VERSION,
};
use patina_mm::supervisor::unblock_memory::{UnblockError, UnblockedMemoryTracker};

fn handler(guid: u128, name: &'static str) -> RequestHandlerEntry {
    RequestHandlerEntry { guid, name, requires_supervisor: false }
}

const TEST_GUID: u128 = 0xf0debc9a785634125678123412345678;

#[test]
fn test_request_result_conversion() {
    assert_eq!(EFI_SUCCESS, RequestResult::Success.into());
    assert_eq!(EFI_NOT_FOUND, RequestResult::NotHandled.into());
}

#[test]
fn deferred_requests_are_not_ready() {
    assert_eq!(EFI_NOT_READY, RequestResult::Deferred.into());
}

#[test]
fn test_dispatcher_is_const() {
    // A dispatcher can be shared as a static instance.
    static _DISPATCHER: std::sync::OnceLock<RequestDispatcher<8>> = std::sync::OnceLock::new();
    assert_eq!(_DISPATCHER.get_or_init(RequestDispatcher::new).max_handlers(), 8);
}

#[test]
fn test_dispatcher_registration() {
    let handler = handler(TEST_GUID, "TestHandler");

    let mut dispatcher: RequestDispatcher<4> = RequestDispatcher::new();
    assert!(dispatcher.register(handler));
    assert_eq!(dispatcher.handler_count(), 1);
    assert!(dispatcher.has_handler(&handler.guid));
}

#[test]
fn test_dispatcher_unregistration() {
    let handler = handler(TEST_GUID, "TestHandler");

    let mut dispatcher: RequestDispatcher<4> = RequestDispatcher::new();
    dispatcher.register(handler);
    assert!(dispatcher.unregister(&handler.guid));
    assert!(!dispatcher.has_handler(&handler.guid));
    assert_eq!(dispatcher.handler_count(), 0);
}

#[test]
fn test_dispatcher_max_handlers() {
    let handler1 = handler(0x1, "Handler1");
    let handler2 = handler(0x2, "Handler2");
    let handler3 = handler(0x3, "Handler3");

    let mut dispatcher: RequestDispatcher<2> = RequestDispatcher::new();
    assert!(dispatcher.register(handler1));
    assert!(dispatcher.register(handler2));
    assert!(!dispatcher.register(handler3)); // Should fail - full
    assert_eq!(dispatcher.handler_count(), 2);
}

#[test]
fn requests_go_to_the_handlers_that_accept_them() {
    let mut dispatcher: RequestDispatcher<4> = RequestDispatcher::default();
    let guarded = RequestHandlerEntry { guid: 7, name: "Guarded", requires_supervisor: true };
    assert!(dispatcher.register(guarded));
    assert!(dispatcher.register(handler(7, "Open")));
    let mut context = RequestContext::new(7, vec![1, 2], false, 0);
    assert_eq!(context.as_slice(), &[1, 2]);
    context.as_mut_slice()[0] = 9;
    assert_eq!(context.buffer, vec![9, 2]);
    assert_eq!(dispatcher.dispatch(&context, 0), Some(1));
    context.is_supervisor_request = true;
    assert_eq!(dispatcher.dispatch(&context, 0), Some(0));
    assert_eq!(dispatcher.dispatch(&context, 1), Some(1));
    assert_eq!(dispatcher.dispatch(&context, 2), None);
    assert_eq!(after_handler(RequestResult::NotHandled), None);
    let error = RequestResult::Error(EFI_NOT_READY);
    assert_eq!(after_handler(error), Some(error));
    assert_eq!(u64::from(error), EFI_NOT_READY);
    assert_eq!(dispatcher.for_each_handler()[0].name, "Guarded");
}

#[test]
fn test_request_header_validation() {
    let valid_header = MmSupervisorRequestHeader {
        signature: SIGNATURE,
        revision: REVISION,
        request: requests::VERSION_INFO,
        reserved: 0,
        result: 0,
    };
    assert!(valid_header.is_valid());

    let invalid_header = MmSupervisorRequestHeader {
        signature: 0x12345678,
        revision: REVISION,
        request: requests::VERSION_INFO,
        reserved: 0,
        result: 0,
    };
    assert!(!invalid_header.is_valid());
}

// ---- Supervisor requests ----

fn request(signature: u32, revision: u32, request: u32, size: usize) -> Vec<u8> {
    let mut bytes: Vec<u8> = Vec::new();
    for word in [signature, revision, request, 0] {
        bytes.extend(word.to_le_bytes());
    }
    bytes.resize(size, 0xAA);
    bytes
}

fn handle(
    tracker: &UnblockedMemoryTracker,
    gate_locked: Option<bool>,
    buffer: &mut Vec<u8>,
) -> (SupvRequestAction, usize) {
    let mut size = buffer.len();
    let mmram = PageAllocator::new();
    let action = mm_supv_request_handler(tracker, &mmram, gate_locked, buffer, &mut size);
    (action, size)
}

fn result(buffer: &[u8]) -> u64 {
    MmSupervisorRequestHeader::from_bytes(buffer).unwrap().result
}

fn unblock_request(start: u64, pages: u64, attribute: u64, guid: u8) -> Vec<u8> {
    let mut bytes = request(SIGNATURE, REVISION, requests::UNBLOCK_MEM, HEADER_SIZE);
    bytes.extend(0u64.to_le_bytes());
    for value in [start, 0, pages, attribute] {
        bytes.extend(value.to_le_bytes());
    }
    bytes.extend([guid; 16]);
    bytes
}

#[test]
fn headers_are_checked() {
    let tracker = UnblockedMemoryTracker::new();
    let mut short = vec![0u8; 23];
    let (action, _) = handle(&tracker, None, &mut short);
    assert_eq!(action, SupvRequestAction::Return(EFI_INVALID_PARAMETER));
    let mut unsigned = request(1, REVISION, requests::VERSION_INFO, 64);
    let (action, _) = handle(&tracker, None, &mut unsigned);
    assert_eq!(action, SupvRequestAction::Return(EFI_INVALID_PARAMETER));
    let mut newer = request(SIGNATURE, REVISION + 1, requests::VERSION_INFO, 64);
    let (action, _) = handle(&tracker, None, &mut newer);
    assert_eq!(action, SupvRequestAction::Return(EFI_UNSUPPORTED));
    let mut unknown = request(SIGNATURE, REVISION, 0x77, 64);
    let (action, size) = handle(&tracker, None, &mut unknown);
    assert_eq!((action, size), (SupvRequestAction::Return(EFI_SUCCESS), HEADER_SIZE));
    assert_eq!(result(&unknown), EFI_UNSUPPORTED);
}

#[test]
fn version_is_reported() {
    let tracker = UnblockedMemoryTracker::new();
    let mut buffer = request(SIGNATURE, REVISION, requests::VERSION_INFO, 64);
    let (action, size) = handle(&tracker, None, &mut buffer);
    assert_eq!((action, size), (SupvRequestAction::Return(EFI_SUCCESS), 40));
    assert_eq!(result(&buffer), EFI_SUCCESS);
    let info = MmSupervisorVersionInfo::from_bytes(&buffer[24..]).unwrap();
    assert_eq!(info.version, VERSION);
    assert_eq!(info.max_supervisor_request_level, 4);
    let mut short = request(SIGNATURE, REVISION, requests::VERSION_INFO, 39);
    assert_eq!(handle(&tracker, None, &mut short).1, HEADER_SIZE);
    assert_eq!(result(&short), EFI_BUFFER_TOO_SMALL);
    let mut update = request(SIGNATURE, REVISION, requests::COMM_UPDATE, 64);
    handle(&tracker, None, &mut update);
    assert_eq!(result(&update), EFI_ACCESS_DENIED);
}

#[test]
fn memory_is_unblocked() {
    let mut tracker = UnblockedMemoryTracker::new();
    let mmram = PageAllocator::new();
    let mut buffer = unblock_request(0x10_0000, 2, 0, 1);
    let query = UnblockRequest { address: 0x10_0000, size: 0x2000, supervisor_only: false };
    let (action, _) = handle(&tracker, None, &mut buffer);
    assert_eq!(action, SupvRequestAction::QueryPages(query));
    let map = UnblockAction::MapPages { address: 0x10_0000, size: 0x2000, attributes: 0x4000 };
    assert_eq!(unblock_queried(query, Some(Err(PtError::NoMapping))), map);
    // Nothing is unblocked before the pages are mapped.
    assert_eq!(tracker.region_count(), 0);
    let failed = unblock_mapped(&mut tracker, &mmram, query, Err(PtError::NoMapping));
    assert_eq!((failed, tracker.region_count()), (EFI_DEVICE_ERROR, 0));
    let mapped = unblock_mapped(&mut tracker, &mmram, query, Ok(()));
    assert_eq!((mapped, tracker.region_count()), (EFI_SUCCESS, 1));
    // The region is unblocked already.
    handle(&tracker, None, &mut buffer);
    assert_eq!(result(&buffer), EFI_SUCCESS);
    assert_eq!(tracker.region_count(), 1);
    let mut size = buffer.len();
    assert_eq!(finish_request(&mut buffer, &mut size, EFI_DEVICE_ERROR, HEADER_SIZE), EFI_SUCCESS);
    assert_eq!((size, result(&buffer)), (HEADER_SIZE, EFI_DEVICE_ERROR));
}

#[test]
fn refused_unblock_requests_are_refused_again() {
    let mut tracker = UnblockedMemoryTracker::new();
    let query = UnblockRequest { address: 0x10_0000, size: 0x2000, supervisor_only: false };
    for (queried, status) in [
        (Some(Ok(0)), EFI_SECURITY_VIOLATION),
        (None, EFI_NOT_READY),
        (Some(Err(PtError::InternalError)), EFI_DEVICE_ERROR),
    ] {
        for _ in 0..2 {
            let mut buffer = unblock_request(0x10_0000, 2, 0, 1);
            let (action, _) = handle(&tracker, None, &mut buffer);
            assert_eq!(action, SupvRequestAction::QueryPages(query));
            assert_eq!(unblock_queried(query, queried), UnblockAction::Reply(status));
            assert_eq!(tracker.region_count(), 0);
        }
    }
    tracker.set_core_init_complete();
    assert!(tracker.is_memory_blocked(0x10_0000, 0x1000));
}

#[test]
fn faulty_unblock_requests_are_refused() {
    let mut tracker = UnblockedMemoryTracker::new();
    for (mut buffer, expected) in [
        (unblock_request(0x10_0000, 2, 0, 0), EFI_INVALID_PARAMETER),
        (unblock_request(0x10_0001, 2, 0, 1), EFI_INVALID_PARAMETER),
        (unblock_request(0x10_0000, 0, 0, 1), EFI_INVALID_PARAMETER),
        (unblock_request(0x10_0000, u64::MAX, 0, 1), EFI_INVALID_PARAMETER),
        (request(SIGNATURE, REVISION, requests::UNBLOCK_MEM, 79), EFI_BUFFER_TOO_SMALL),
    ] {
        let (action, size) = handle(&tracker, None, &mut buffer);
        assert_eq!((action, size), (SupvRequestAction::Return(EFI_SUCCESS), HEADER_SIZE));
        assert_eq!(result(&buffer), expected);
    }
    assert_eq!(tracker.region_count(), 0);
    assert_eq!(tracker.unblock_memory(&PageAllocator::new(), 0x10_0000, 0x2000, 3), Ok(()));
    let mut overlapping = unblock_request(0x10_1000, 2, 0, 1);
    handle(&tracker, None, &mut overlapping);
    assert_eq!(result(&overlapping), EFI_SECURITY_VIOLATION);
    // No region is unblocked once the policy is locked.
    assert_eq!(ready_to_lock_snapshot_taken(&mut tracker, Ok(())), EFI_SUCCESS);
    let mut late = unblock_request(0x20_0000, 1, 0, 1);
    handle(&tracker, None, &mut late);
    assert_eq!(result(&late), EFI_ACCESS_DENIED);
}

#[test]
fn policy_is_fetched_and_locked() {
    let mut tracker = UnblockedMemoryTracker::new();
    let mut buffer = request(SIGNATURE, REVISION, requests::FETCH_POLICY, 64);
    assert_eq!(handle(&tracker, Some(false), &mut buffer).0, SupvRequestAction::TakeSnapshot);
    assert_eq!(handle(&tracker, Some(true), &mut buffer).0, SupvRequestAction::VerifySnapshot);
    handle(&tracker, None, &mut buffer);
    assert_eq!(result(&buffer), EFI_NOT_READY);

    let failed = fetch_policy_snapshot_taken(&mut tracker, Err(PolicyError::InternalError), 64);
    assert_eq!(failed, FetchAction::Reply(EFI_DEVICE_ERROR));
    assert!(!tracker.is_core_init_complete());
    let taken = fetch_policy_snapshot_taken(&mut tracker, Ok(()), 64);
    assert_eq!(taken, FetchAction::WritePolicy { capacity: 40 });
    assert!(tracker.is_core_init_complete());
    assert_eq!(fetch_policy_verified(Ok(()), 23), FetchAction::Reply(EFI_BUFFER_TOO_SMALL));
    assert_eq!(
        fetch_policy_verified(Err(EFI_SECURITY_VIOLATION), 64),
        FetchAction::Reply(EFI_SECURITY_VIOLATION)
    );
    assert_eq!(fetch_policy_written(Ok(100)), (EFI_SUCCESS, 124));
    let small = fetch_policy_written(Err(PolicyError::InternalError));
    assert_eq!(small, (EFI_BUFFER_TOO_SMALL, 24));
    let other = fetch_policy_written(Err(PolicyError::AccessDenied));
    assert_eq!(other, (EFI_DEVICE_ERROR, 24));
}

#[test]
fn ready_to_lock_takes_one_snapshot() {
    assert_eq!(mm_ready_to_lock_handler(None), LockAction::Return(EFI_NOT_READY));
    assert_eq!(mm_ready_to_lock_handler(Some(true)), LockAction::Return(EFI_SUCCESS));
    assert_eq!(mm_ready_to_lock_handler(Some(false)), LockAction::TakeSnapshot);
    let mut tracker = UnblockedMemoryTracker::new();
    let failed = ready_to_lock_snapshot_taken(&mut tracker, Err(PolicyError::InternalError));
    assert_eq!(failed, EFI_DEVICE_ERROR);
    assert!(!tracker.is_core_init_complete());
}

#[test]
fn handlers_are_found_by_their_guid() {
    let handlers = core_handlers();
    assert_eq!(handlers.len(), 2);
    let lock = find_handler(&handlers, EFI_DXE_MM_READY_TO_LOCK_PROTOCOL_GUID).unwrap();
    let supv = find_handler(&handlers, MM_SUPERVISOR_REQUEST_HANDLER_GUID).unwrap();
    assert_ne!(lock, supv);
    assert_eq!(find_handler(&handlers, 7), None);
}

#[test]
fn snapshots_are_verified_in_scratch_memory() {
    let mut pages = PageAllocator::new();
    assert_eq!(verify_policy_snapshot(None, &mut pages), VerifyAction::Done(Ok(())));
    assert_eq!(
        verify_policy_snapshot(Some(3), &mut pages),
        VerifyAction::Done(Err(EFI_OUT_OF_RESOURCES))
    );
    assert_eq!(
        verify_policy_snapshot(Some(usize::MAX), &mut pages),
        VerifyAction::Done(Err(EFI_DEVICE_ERROR))
    );
    assert_eq!(
        policy_snapshot_compared(&mut pages, 0x1000, 1, Err(PolicyError::AccessDenied)),
        Err(EFI_SECURITY_VIOLATION)
    );
    assert_eq!(policy_snapshot_compared(&mut pages, 0x1000, 1, Ok(())), Ok(()));

    // With memory, the scratch pages are taken and given back.
    let mut pages = smram();
    assert_eq!(pages.free_page_count(), 15);
    assert_eq!(
        verify_policy_snapshot(Some(200), &mut pages),
        VerifyAction::Compare { scratch_base: 0x10_1000, pages: 2, max_count: 341 }
    );
    assert_eq!(pages.free_page_count(), 13);
    assert_eq!(policy_snapshot_compared(&mut pages, 0x10_1000, 2, Ok(())), Ok(()));
    assert_eq!(pages.free_page_count(), 15);
}

/// 16 pages of SMRAM at 0x10_0000.
fn smram() -> PageAllocator {
    let mut data: Vec<u8> = Vec::new();
    data.extend(1u64.to_le_bytes());
    for field in [0x10_0000u64, 0x10_0000, 0x1_0000, 0] {
        data.extend(field.to_le_bytes());
    }
    let hobs = vec![Hob::GuidHob { name: SMM_SMRAM_MEMORY_GUID, data }];
    let mut pages = PageAllocator::new();
    pages.init_from_hob_list(Some(&hobs)).unwrap();
    pages
}

#[test]
fn memory_that_shares_a_page_with_mmram_stays_blocked() {
    let mmram = smram();
    let mut tracker = UnblockedMemoryTracker::new();
    for start in [0x0f_f000, 0x10_0000, 0x10_f000] {
        let mut buffer = unblock_request(start, 2, 0, 1);
        let mut size = buffer.len();
        let action =
            mm_supv_request_handler(&tracker, &mmram, None, &mut buffer, &mut size);
        assert_eq!(action, SupvRequestAction::Return(EFI_SUCCESS));
        assert_eq!(result(&buffer), EFI_SECURITY_VIOLATION);
        assert_eq!(
            tracker.unblock_memory(&mmram, start, 0x2000, 1),
            Err(UnblockError::OverlapsWithMmram)
        );
    }
    assert_eq!(tracker.unblock_memory(&mmram, 0x0f_e000, 0x2000, 1), Ok(()));
    assert_eq!(tracker.region_count(), 1);
}
