//! Supervisor MMI handlers.
//!
//! A request on the supervisor channel goes to the handler registered for its GUID. The core
//! has two: the ready-to-lock handler, and the handler of the supervisor request protocol.
//!
//! What a handler needs from the page table or from the policy snapshot it asks for: it
//! returns an action, the platform performs it, and hands the outcome to the function that
//! goes on from there.

use crate::bytes::{le64, same_but, write_u32, write_u64};
use crate::efi::{
    Guid, Status, EFI_ACCESS_DENIED, EFI_BUFFER_TOO_SMALL, EFI_DEVICE_ERROR, EFI_INVALID_PARAMETER,
    EFI_NOT_READY, EFI_OUT_OF_RESOURCES, EFI_SECURITY_VIOLATION, EFI_SUCCESS, EFI_UNSUPPORTED,
};
use crate::policy::gate::PolicyError;
use crate::policy::types::MEM_DESCRIPTOR_SIZE;
use crate::protocol::mm_supervisor_request::requests;
use crate::protocol::mm_supervisor_request::{
    request_header_at, unblock_params_at, version_info_at, MmSupervisorRequestHeader,
    MmSupervisorUnblockMemoryParams, MmSupervisorVersionInfo, MM_SUPERVISOR_REQUEST_HANDLER_GUID,
    RESULT_OFFSET, REVISION, SIGNATURE,
};
use crate::supervisor::mm_mem::{
    same_pages, AllocationType, PageAllocator, PAGE_BYTES, PAGE_SIZE,
};
use crate::supervisor::page_table::{PtError, EXECUTE_PROTECT, SUPERVISOR_ONLY};
use crate::supervisor::unblock_memory::{
    exact_match, law_unblock_idempotent, UnblockError, UnblockedMemoryEntry, UnblockedMemoryTracker,
    EFI_MEMORY_SP,
};
use vstd::prelude::*;

verus! {

/// `gEfiDxeMmReadyToLockProtocolGuid`, {60ff8964-e906-41d0-afed-f241e974e08e}.
pub const EFI_DXE_MM_READY_TO_LOCK_PROTOCOL_GUID: Guid = 0x8ee074e941f2edaf41d0e90660ff8964;

/// Supervisor version: major in the upper, minor in the lower 16 bits.
pub const VERSION: u32 = 0x00130008;

/// Supervisor patch level.
pub const PATCH_LEVEL: u32 = 0x00010001;

/// Maximum supported supervisor request level, that of
/// [`requests::COMM_UPDATE`].
pub const MAX_REQUEST_LEVEL: u64 = 0x0004;

/// Size in bytes of the request header.
pub const HEADER_SIZE: usize = 24;

/// A supervisor MMI handler, by which requests are matched to it.
#[derive(Debug, Clone, Copy, PartialEq, Eq)]
pub struct SupervisorMmiHandler {
    /// Name of the handler.
    pub name: &'static str,
    /// GUID identifying the request type this handler processes.
    pub handler_guid: Guid,
}

/// The index of the first handler, from `from` on, for a GUID.
pub open spec fn handler_for(
    handlers: Seq<SupervisorMmiHandler>,
    guid: Guid,
    from: int,
) -> Option<int>
    decreases handlers.len() - from,
{
    if from >= handlers.len() {
        None
    } else if handlers[from].handler_guid == guid {
        Some(from)
    } else {
        handler_for(handlers, guid, from + 1)
    }
}

/// Finds the handler for a GUID.
pub fn find_handler(handlers: &Vec<SupervisorMmiHandler>, guid: Guid) -> (r: Option<usize>)
    ensures
        match r {
            Some(i) => handler_for(handlers@, guid, 0) == Some(i as int) && i < handlers@.len(),
            None => handler_for(handlers@, guid, 0) is None,
        },
{
    let mut i: usize = 0;
    while i < handlers.len()
        invariant
            i <= handlers@.len(),
            handler_for(handlers@, guid, 0) == handler_for(handlers@, guid, i as int),
        decreases handlers@.len() - i,
    {
        if handlers[i].handler_guid == guid {
            return Some(i);
        }
        i = i + 1;
    }
    None
}

/// The handlers of the core.
pub fn core_handlers() -> (r: Vec<SupervisorMmiHandler>)
    ensures
        r@.len() == 2,
        r@[0].name == "MmReadyToLock",
        r@[0].handler_guid == EFI_DXE_MM_READY_TO_LOCK_PROTOCOL_GUID,
        r@[1].name == "MmSupvRequest",
        r@[1].handler_guid == MM_SUPERVISOR_REQUEST_HANDLER_GUID,
{
    let mut handlers: Vec<SupervisorMmiHandler> = Vec::new();
    handlers.push(
        SupervisorMmiHandler {
            name: "MmReadyToLock",
            handler_guid: EFI_DXE_MM_READY_TO_LOCK_PROTOCOL_GUID,
        },
    );
    handlers.push(
        SupervisorMmiHandler {
            name: "MmSupvRequest",
            handler_guid: MM_SUPERVISOR_REQUEST_HANDLER_GUID,
        },
    );
    handlers
}

// ============================================================================
// Ready to lock
// ============================================================================

/// What the ready-to-lock handler does next.
#[derive(Debug, Clone, Copy, PartialEq, Eq, Structural)]
pub enum LockAction {
    /// Return this status.
    Return(Status),
    /// Take a snapshot of the memory policy, which locks the policy gate.
    TakeSnapshot,
}

/// Ready-to-lock handler: a locked gate stays as it is, another one takes its snapshot.
///
/// `gate_locked` is whether the policy gate is locked, if there is one.
pub fn mm_ready_to_lock_handler(gate_locked: Option<bool>) -> (r: LockAction)
    ensures
        r == match gate_locked {
            None => LockAction::Return(EFI_NOT_READY),
            Some(true) => LockAction::Return(EFI_SUCCESS),
            Some(false) => LockAction::TakeSnapshot,
        },
{
    match gate_locked {
        None => LockAction::Return(EFI_NOT_READY),
        Some(locked) => if locked {
            LockAction::Return(EFI_SUCCESS)
        } else {
            LockAction::TakeSnapshot
        },
    }
}

/// Goes on with the ready-to-lock handler when the snapshot has been taken: no more memory
/// can be unblocked from now on.
pub fn ready_to_lock_snapshot_taken(
    tracker: &mut UnblockedMemoryTracker,
    snapshot: Result<(), PolicyError>,
) -> (r: Status)
    requires
        old(tracker).wf(),
    ensures
        final(tracker).wf(),
        final(tracker).ready() == old(tracker).ready(),
        final(tracker).regions() == old(tracker).regions(),
        match snapshot {
            Ok(()) => r == EFI_SUCCESS && final(tracker).enforcing(),
            Err(_) => r == EFI_DEVICE_ERROR && final(tracker).enforcing() == old(
                tracker,
            ).enforcing(),
        },
{
    match snapshot {
        Ok(()) => {
            tracker.set_core_init_complete();
            EFI_SUCCESS
        },
        Err(_) => EFI_DEVICE_ERROR,
    }
}

// ============================================================================
// Version info and communication buffer update
// ============================================================================

/// `after` is `before` with `status` as the result of the request.
pub open spec fn result_written(before: Seq<u8>, after: Seq<u8>, status: Status) -> bool {
    same_but(before, after, RESULT_OFFSET as int, 8) && le64(after, RESULT_OFFSET as int) == status
}

/// Writes a status into the result field of the request header.
pub fn write_request_result(comm_buffer: &mut Vec<u8>, status: Status)
    requires
        HEADER_SIZE <= old(comm_buffer).len(),
    ensures
        result_written(old(comm_buffer)@, final(comm_buffer)@, status),
{
    write_u64(comm_buffer, RESULT_OFFSET, status);
}

/// The version info of this supervisor.
pub open spec fn supervisor_version() -> MmSupervisorVersionInfo {
    MmSupervisorVersionInfo {
        version: VERSION,
        patch_level: PATCH_LEVEL,
        max_supervisor_request_level: MAX_REQUEST_LEVEL,
    }
}

/// Handles a `VERSION_INFO` request: writes the version info behind the header.
pub fn handle_version_info(comm_buffer: &mut Vec<u8>, comm_buffer_size: &mut usize) -> (r: Status)
    requires
        *old(comm_buffer_size) <= old(comm_buffer).len(),
    ensures
        if *old(comm_buffer_size) < 40 {
            &&& r == EFI_BUFFER_TOO_SMALL
            &&& *final(comm_buffer_size) == HEADER_SIZE
            &&& final(comm_buffer)@ == old(comm_buffer)@
        } else {
            &&& r == EFI_SUCCESS
            &&& *final(comm_buffer_size) == 40
            &&& version_info_at(final(comm_buffer)@, 24) == supervisor_version()
            &&& same_but(old(comm_buffer)@, final(comm_buffer)@, 24, 16)
        },
{
    let response_size: usize = MmSupervisorRequestHeader::SIZE + MmSupervisorVersionInfo::SIZE;
    if *comm_buffer_size < response_size {
        *comm_buffer_size = HEADER_SIZE;
        return EFI_BUFFER_TOO_SMALL;
    }
    write_u32(comm_buffer, 24, VERSION);
    write_u32(comm_buffer, 28, PATCH_LEVEL);
    write_u64(comm_buffer, 32, MAX_REQUEST_LEVEL);
    *comm_buffer_size = response_size;
    EFI_SUCCESS
}

/// Handles a `COMM_UPDATE` request, which is not supported: the communication buffer stays
/// where it is.
pub fn handle_comm_update(comm_buffer_size: &mut usize) -> (r: Status)
    ensures
        r == EFI_ACCESS_DENIED,
        *final(comm_buffer_size) == HEADER_SIZE,
{
    *comm_buffer_size = HEADER_SIZE;
    EFI_ACCESS_DENIED
}

// ============================================================================
// Unblock memory
// ============================================================================

/// A region that is about to be unblocked.
#[derive(Debug, Clone, Copy, PartialEq, Eq, Structural)]
pub struct UnblockRequest {
    /// Start of the region.
    pub address: u64,
    /// Size of the region in bytes.
    pub size: u64,
    /// Whether the region is for the supervisor alone.
    pub supervisor_only: bool,
}

/// What the handler of an `UNBLOCK_MEM` request does next.
#[derive(Debug, Clone, Copy, PartialEq, Eq, Structural)]
pub enum UnblockAction {
    /// Answer with this status.
    Reply(Status),
    /// Query the page table for the region.
    Query(UnblockRequest),
    /// Map the region with these attributes.
    MapPages { address: u64, size: u64, attributes: u64 },
}

/// The region that the parameters name is for the supervisor alone.
pub open spec fn for_supervisor(p: MmSupervisorUnblockMemoryParams) -> bool {
    p.memory_descriptor.attribute & EFI_MEMORY_SP != 0
}

/// The attributes under which a region is tracked: readable and writable, with a tag for
/// regions of the supervisor.
pub open spec fn tracked_attributes(supervisor_only: bool) -> u32 {
    if supervisor_only {
        0x8000_0003
    } else {
        0x3
    }
}

/// The attributes under which a region is tracked.
fn track_attributes(supervisor_only: bool) -> (r: u32)
    ensures
        r == tracked_attributes(supervisor_only),
{
    if supervisor_only {
        0x8000_0003
    } else {
        0x3
    }
}

/// What is wrong with the parameters themselves: no identifier, a start off a page boundary,
/// no pages, a region past the address space, or one that shares memory with MMRAM.
pub open spec fn params_fault(
    p: MmSupervisorUnblockMemoryParams,
    mmram: &PageAllocator,
) -> Option<Status> {
    let start = p.memory_descriptor.physical_start;
    let pages = p.memory_descriptor.number_of_pages;
    if p.identifier_guid == 0 || start as int % PAGE_SIZE as int != 0 || pages == 0 || start + pages
        * PAGE_SIZE > u64::MAX {
        Some(EFI_INVALID_PARAMETER)
    } else if mmram.overlaps_mmram(start, (pages * PAGE_SIZE) as u64) {
        Some(EFI_SECURITY_VIOLATION)
    } else {
        None
    }
}

/// What an `UNBLOCK_MEM` request leads to.
pub open spec fn unblock_action(
    tracker: &UnblockedMemoryTracker,
    mmram: &PageAllocator,
    buffer: Seq<u8>,
    size: int,
) -> UnblockAction {
    let p = unblock_params_at(buffer, 24);
    let region_size = (p.memory_descriptor.number_of_pages * PAGE_SIZE) as u64;
    let attributes = tracked_attributes(for_supervisor(p));
    if tracker.enforcing() {
        UnblockAction::Reply(EFI_ACCESS_DENIED)
    } else if size < 80 {
        UnblockAction::Reply(EFI_BUFFER_TOO_SMALL)
    } else if params_fault(p, mmram) is Some {
        UnblockAction::Reply(params_fault(p, mmram)->0)
    } else {
        match tracker.verdict(mmram, p.memory_descriptor.physical_start, region_size, attributes) {
            Ok(()) => if exact_match(
                tracker.regions(),
                p.memory_descriptor.physical_start,
                region_size,
                0,
            ) is Some {
                UnblockAction::Reply(EFI_SUCCESS)
            } else {
                UnblockAction::Query(
                    UnblockRequest {
                        address: p.memory_descriptor.physical_start,
                        size: region_size,
                        supervisor_only: for_supervisor(p),
                    },
                )
            },
            Err(UnblockError::ConflictingAttributes) => UnblockAction::Reply(
                EFI_SECURITY_VIOLATION,
            ),
            Err(_) => UnblockAction::Reply(EFI_INVALID_PARAMETER),
        }
    }
}

/// Handles an `UNBLOCK_MEM` request, up to the point where the page table is needed.
///
/// A request after ready-to-lock, one that is too short, one with faulty parameters, and one
/// that the tracker rejects is answered. So is one for a region that is already unblocked. A
/// request that the tracker would grant goes on to [`unblock_queried`]. No region is unblocked
/// here: that is the last step, [`unblock_mapped`].
pub fn handle_unblock_mem(
    tracker: &UnblockedMemoryTracker,
    mmram: &PageAllocator,
    comm_buffer: &[u8],
    comm_buffer_size: usize,
) -> (r: UnblockAction)
    requires
        tracker.wf(),
        mmram.addressable(),
        comm_buffer_size <= comm_buffer.len(),
    ensures
        r == unblock_action(tracker, mmram, comm_buffer@, comm_buffer_size as int),
{
    if tracker.is_core_init_complete() {
        return UnblockAction::Reply(EFI_ACCESS_DENIED);
    }
    let min_size: usize = MmSupervisorRequestHeader::SIZE + MmSupervisorUnblockMemoryParams::SIZE;
    if comm_buffer_size < min_size {
        return UnblockAction::Reply(EFI_BUFFER_TOO_SMALL);
    }
    let params = MmSupervisorUnblockMemoryParams::from_bytes(comm_buffer, 24);
    let physical_start: u64 = params.memory_descriptor.physical_start;
    if params.identifier_guid == 0 {
        return UnblockAction::Reply(EFI_INVALID_PARAMETER);
    }
    assert(physical_start & 0xfff == physical_start % 4096) by (bit_vector);
    if physical_start & 0xfff != 0 {
        return UnblockAction::Reply(EFI_INVALID_PARAMETER);
    }
    if params.memory_descriptor.number_of_pages == 0 {
        return UnblockAction::Reply(EFI_INVALID_PARAMETER);
    }
    let region_size: u64 = match params.memory_descriptor.number_of_pages.checked_mul(PAGE_BYTES) {
        Some(s) => s,
        None => {
            return UnblockAction::Reply(EFI_INVALID_PARAMETER);
        },
    };
    if physical_start.checked_add(region_size).is_none() {
        return UnblockAction::Reply(EFI_INVALID_PARAMETER);
    }
    if mmram.is_region_overlapping_mmram(physical_start, region_size) {
        return UnblockAction::Reply(EFI_SECURITY_VIOLATION);
    }
    let is_supervisor_page = (params.memory_descriptor.attribute & EFI_MEMORY_SP) != 0;
    let attributes: u32 = track_attributes(is_supervisor_page);
    match tracker.check_unblock(mmram, physical_start, region_size, attributes) {
        Ok(()) => {
            if tracker.find_region(physical_start, region_size).is_some() {
                return UnblockAction::Reply(EFI_SUCCESS);
            }
            UnblockAction::Query(
                UnblockRequest {
                    address: physical_start,
                    size: region_size,
                    supervisor_only: is_supervisor_page,
                },
            )
        },
        Err(UnblockError::ConflictingAttributes) => UnblockAction::Reply(EFI_SECURITY_VIOLATION),
        Err(_) => UnblockAction::Reply(EFI_INVALID_PARAMETER),
    }
}

/// The attributes with which an unblocked region is mapped: present, writable, not
/// executable, and for the supervisor alone where that was asked for.
pub open spec fn unblocked_attributes(supervisor_only: bool) -> u64 {
    if supervisor_only {
        0x4_4000
    } else {
        EXECUTE_PROTECT
    }
}

/// What an `UNBLOCK_MEM` request leads to when the page table has been queried.
pub open spec fn queried_action(
    request: UnblockRequest,
    queried: Option<Result<u64, PtError>>,
) -> UnblockAction {
    match queried {
        None => UnblockAction::Reply(EFI_NOT_READY),
        Some(Ok(_)) => UnblockAction::Reply(EFI_SECURITY_VIOLATION),
        Some(Err(PtError::NoMapping)) => UnblockAction::MapPages {
            address: request.address,
            size: request.size,
            attributes: unblocked_attributes(request.supervisor_only),
        },
        Some(Err(_)) => UnblockAction::Reply(EFI_DEVICE_ERROR),
    }
}

/// Goes on with an `UNBLOCK_MEM` request when the page table has been queried: only pages
/// that are not present may be unblocked. `queried` is `None` if there is no page table, and
/// else what the query gave.
pub fn unblock_queried(request: UnblockRequest, queried: Option<Result<u64, PtError>>) -> (r:
    UnblockAction)
    ensures
        r == queried_action(request, queried),
{
    match queried {
        None => UnblockAction::Reply(EFI_NOT_READY),
        Some(Ok(_)) => UnblockAction::Reply(EFI_SECURITY_VIOLATION),
        Some(Err(PtError::NoMapping)) => {
            let mut attributes: u64 = EXECUTE_PROTECT;
            if request.supervisor_only {
                assert(0x4000u64 | 0x4_0000u64 == 0x4_4000u64) by (bit_vector);
                attributes = attributes | SUPERVISOR_ONLY;
            }
            UnblockAction::MapPages { address: request.address, size: request.size, attributes }
        },
        Some(Err(_)) => UnblockAction::Reply(EFI_DEVICE_ERROR),
    }
}

/// The status of an `UNBLOCK_MEM` request when the page table has been updated.
pub open spec fn mapped_status(
    tracker: &UnblockedMemoryTracker,
    mmram: &PageAllocator,
    request: UnblockRequest,
    mapped: Result<(), PtError>,
) -> Status {
    if mapped is Err {
        EFI_DEVICE_ERROR
    } else {
        match tracker.verdict(
            mmram,
            request.address,
            request.size,
            tracked_attributes(request.supervisor_only),
        ) {
            Ok(()) => EFI_SUCCESS,
            Err(UnblockError::ConflictingAttributes) => EFI_SECURITY_VIOLATION,
            Err(_) => EFI_INVALID_PARAMETER,
        }
    }
}

/// The unblocked regions after an `UNBLOCK_MEM` request for which the page table has been
/// updated.
pub open spec fn mapped_regions(
    tracker: &UnblockedMemoryTracker,
    mmram: &PageAllocator,
    request: UnblockRequest,
    mapped: Result<(), PtError>,
) -> Seq<UnblockedMemoryEntry> {
    if mapped is Err {
        tracker.regions()
    } else {
        tracker.regions_after(
            mmram,
            request.address,
            request.size,
            tracked_attributes(request.supervisor_only),
        )
    }
}

/// Ends an `UNBLOCK_MEM` request when the page table has been updated: the region is
/// unblocked, unless the update failed.
///
/// The tracker checks the region again. What it would have granted when the request came in,
/// it grants, unless other regions have been unblocked in between.
pub fn unblock_mapped(
    tracker: &mut UnblockedMemoryTracker,
    mmram: &PageAllocator,
    request: UnblockRequest,
    mapped: Result<(), PtError>,
) -> (r: Status)
    requires
        old(tracker).wf(),
        mmram.addressable(),
    ensures
        final(tracker).wf(),
        final(tracker).ready() == old(tracker).ready(),
        final(tracker).enforcing() == old(tracker).enforcing(),
        old(tracker).apart() ==> final(tracker).apart(),
        r == mapped_status(old(tracker), mmram, request, mapped),
        final(tracker).regions() == mapped_regions(old(tracker), mmram, request, mapped),
{
    match mapped {
        Ok(()) => {},
        Err(_) => {
            return EFI_DEVICE_ERROR;
        },
    }
    match tracker.unblock_memory(
        mmram,
        request.address,
        request.size,
        track_attributes(request.supervisor_only),
    ) {
        Ok(()) => EFI_SUCCESS,
        Err(UnblockError::ConflictingAttributes) => EFI_SECURITY_VIOLATION,
        Err(_) => EFI_INVALID_PARAMETER,
    }
}

/// The status of a whole `UNBLOCK_MEM` request, given what the page table answers to a query
/// and to an update, where it is asked.
pub open spec fn unblock_status(
    tracker: &UnblockedMemoryTracker,
    mmram: &PageAllocator,
    buffer: Seq<u8>,
    size: int,
    queried: Option<Result<u64, PtError>>,
    mapped: Result<(), PtError>,
) -> Status {
    match unblock_action(tracker, mmram, buffer, size) {
        UnblockAction::Query(request) => match queried_action(request, queried) {
            UnblockAction::Reply(status) => status,
            _ => mapped_status(tracker, mmram, request, mapped),
        },
        UnblockAction::Reply(status) => status,
        UnblockAction::MapPages { .. } => EFI_SUCCESS,
    }
}

/// The unblocked regions after a whole `UNBLOCK_MEM` request.
pub open spec fn unblock_regions(
    tracker: &UnblockedMemoryTracker,
    mmram: &PageAllocator,
    buffer: Seq<u8>,
    size: int,
    queried: Option<Result<u64, PtError>>,
    mapped: Result<(), PtError>,
) -> Seq<UnblockedMemoryEntry> {
    match unblock_action(tracker, mmram, buffer, size) {
        UnblockAction::Query(request) => match queried_action(request, queried) {
            UnblockAction::MapPages { .. } => mapped_regions(tracker, mmram, request, mapped),
            _ => tracker.regions(),
        },
        _ => tracker.regions(),
    }
}

// ============================================================================
// Fetch policy
// ============================================================================

/// What the handler of a `FETCH_POLICY` request does next.
#[derive(Debug, Clone, Copy, PartialEq, Eq, Structural)]
pub enum FetchAction {
    /// Answer with this status, and with no data behind the header.
    Reply(Status),
    /// Take a snapshot of the memory policy, which locks the policy gate.
    TakeSnapshot,
    /// Verify the memory policy against the snapshot.
    VerifySnapshot,
    /// Write the policy, in at most `capacity` bytes, behind the header.
    WritePolicy { capacity: usize },
}

/// Handles a `FETCH_POLICY` request, up to the point where the snapshot is needed: the first
/// one takes the snapshot, later ones verify it.
pub fn handle_fetch_policy(gate_locked: Option<bool>) -> (r: FetchAction)
    ensures
        r == match gate_locked {
            None => FetchAction::Reply(EFI_NOT_READY),
            Some(false) => FetchAction::TakeSnapshot,
            Some(true) => FetchAction::VerifySnapshot,
        },
{
    match gate_locked {
        None => FetchAction::Reply(EFI_NOT_READY),
        Some(locked) => if locked {
            FetchAction::VerifySnapshot
        } else {
            FetchAction::TakeSnapshot
        },
    }
}

/// The writing of the policy into a buffer of `size` bytes.
pub open spec fn write_policy_action(size: usize) -> FetchAction {
    if size < HEADER_SIZE {
        FetchAction::Reply(EFI_BUFFER_TOO_SMALL)
    } else {
        FetchAction::WritePolicy { capacity: (size - HEADER_SIZE) as usize }
    }
}

fn write_policy(comm_buffer_size: usize) -> (r: FetchAction)
    ensures
        r == write_policy_action(comm_buffer_size),
{
    match comm_buffer_size.checked_sub(HEADER_SIZE) {
        Some(capacity) => FetchAction::WritePolicy { capacity },
        None => FetchAction::Reply(EFI_BUFFER_TOO_SMALL),
    }
}

/// Goes on with a `FETCH_POLICY` request when the snapshot has been taken. With it comes the
/// lock: no more memory can be unblocked from now on.
pub fn fetch_policy_snapshot_taken(
    tracker: &mut UnblockedMemoryTracker,
    snapshot: Result<(), PolicyError>,
    comm_buffer_size: usize,
) -> (r: FetchAction)
    requires
        old(tracker).wf(),
    ensures
        final(tracker).wf(),
        final(tracker).ready() == old(tracker).ready(),
        final(tracker).regions() == old(tracker).regions(),
        match snapshot {
            Ok(()) => r == write_policy_action(comm_buffer_size) && final(tracker).enforcing(),
            Err(_) => r == FetchAction::Reply(EFI_DEVICE_ERROR) && final(tracker).enforcing()
                == old(tracker).enforcing(),
        },
{
    match snapshot {
        Ok(()) => {
            tracker.set_core_init_complete();
            write_policy(comm_buffer_size)
        },
        Err(_) => FetchAction::Reply(EFI_DEVICE_ERROR),
    }
}

/// Goes on with a `FETCH_POLICY` request when the snapshot has been verified.
pub fn fetch_policy_verified(verified: Result<(), Status>, comm_buffer_size: usize) -> (r:
    FetchAction)
    ensures
        r == match verified {
            Ok(()) => write_policy_action(comm_buffer_size),
            Err(status) => FetchAction::Reply(status),
        },
{
    match verified {
        Ok(()) => write_policy(comm_buffer_size),
        Err(status) => FetchAction::Reply(status),
    }
}

/// Ends a `FETCH_POLICY` request when the policy has been written: its status, and the size
/// of the response.
pub fn fetch_policy_written(written: Result<usize, PolicyError>) -> (r: (Status, usize))
    requires
        written matches Ok(n) ==> n + HEADER_SIZE <= usize::MAX,
    ensures
        match written {
            Ok(n) => r.0 == EFI_SUCCESS && r.1 == HEADER_SIZE + n,
            Err(PolicyError::InternalError) => r == (EFI_BUFFER_TOO_SMALL, HEADER_SIZE),
            Err(_) => r == (EFI_DEVICE_ERROR, HEADER_SIZE),
        },
{
    match written {
        Ok(n) => (EFI_SUCCESS, HEADER_SIZE + n),
        Err(PolicyError::InternalError) => (EFI_BUFFER_TOO_SMALL, HEADER_SIZE),
        Err(_) => (EFI_DEVICE_ERROR, HEADER_SIZE),
    }
}

/// What the verification of the snapshot does next.
#[derive(Debug, Clone, Copy, PartialEq, Eq)]
pub enum VerifyAction {
    /// The verification is over.
    Done(Result<(), Status>),
    /// Walk the page table into the scratch memory, in at most `max_count` descriptors, and
    /// compare.
    Compare { scratch_base: u64, pages: usize, max_count: usize },
}

/// The pages of scratch memory for `count` descriptors.
pub open spec fn scratch_pages(count: int) -> int {
    (count * MEM_DESCRIPTOR_SIZE + 0xfff) / 0x1000
}

/// Begins the verification of the snapshot, with the number of its descriptors, if there is
/// one: allocates scratch memory for a fresh walk of the page table.
pub fn verify_policy_snapshot(snapshot_count: Option<usize>, pages: &mut PageAllocator) -> (r:
    VerifyAction)
    requires
        old(pages).wf(),
        old(pages).addressable(),
        snapshot_count matches Some(count) ==> (count * MEM_DESCRIPTOR_SIZE <= usize::MAX ==> count
            * MEM_DESCRIPTOR_SIZE + 0xfff <= usize::MAX),
    ensures
        final(pages).wf(),
        final(pages).same_layout(old(pages)),
        r is Done ==> *final(pages) == *old(pages),
        match snapshot_count {
            None => r == VerifyAction::Done(Ok(())),
            Some(count) => {
                let n = scratch_pages(count as int);
                if count * MEM_DESCRIPTOR_SIZE > usize::MAX {
                    r == VerifyAction::Done(Err(EFI_DEVICE_ERROR))
                } else {
                    match r {
                        VerifyAction::Done(done) => done == Err::<(), Status>(EFI_OUT_OF_RESOURCES)
                            && (!old(pages).ready() || n == 0 || old(pages).no_run(n)),
                        VerifyAction::Compare { scratch_base, pages: taken, max_count } => {
                            &&& old(pages).ready()
                            &&& n > 0
                            &&& taken == n
                            &&& max_count == n * 0x1000 / MEM_DESCRIPTOR_SIZE as int
                            &&& count <= max_count
                            &&& old(pages).allocates(
                                final(pages),
                                n,
                                AllocationType::Supervisor,
                                scratch_base,
                            )
                        },
                    }
                }
            },
        },
{
    let saved_count: usize = match snapshot_count {
        Some(c) => c,
        None => {
            return VerifyAction::Done(Ok(()));
        },
    };
    let needed_bytes: usize = match saved_count.checked_mul(MEM_DESCRIPTOR_SIZE) {
        Some(bytes) => bytes,
        None => {
            return VerifyAction::Done(Err(EFI_DEVICE_ERROR));
        },
    };
    let needed_pages: usize = (needed_bytes + 0xfff) / 0x1000;
    match pages.allocate_pages(needed_pages) {
        Ok(scratch_base) => {
            let max_count: usize = (needed_pages * 0x1000) / MEM_DESCRIPTOR_SIZE;
            VerifyAction::Compare { scratch_base, pages: needed_pages, max_count }
        },
        Err(_) => VerifyAction::Done(Err(EFI_OUT_OF_RESOURCES)),
    }
}

/// Ends the verification of the snapshot: frees the scratch memory, whatever the comparison
/// gave, and says that a difference is a security violation.
pub fn policy_snapshot_compared(
    pages: &mut PageAllocator,
    scratch_base: u64,
    num_pages: usize,
    compared: Result<(), PolicyError>,
) -> (r: Result<(), Status>)
    requires
        old(pages).wf(),
        old(pages).addressable(),
    ensures
        final(pages).wf(),
        final(pages).same_layout(old(pages)),
        if old(pages).free_verdict(scratch_base, num_pages as int) is Ok {
            old(pages).clears(
                final(pages),
                old(pages).bit_of_address(scratch_base)->0,
                num_pages as int,
            )
        } else {
            *final(pages) == *old(pages)
        },
        r == match compared {
            Ok(()) => Ok::<(), Status>(()),
            Err(_) => Err(EFI_SECURITY_VIOLATION),
        },
{
    let _ = pages.free_pages(scratch_base, num_pages);
    match compared {
        Ok(()) => Ok(()),
        Err(_) => Err(EFI_SECURITY_VIOLATION),
    }
}

// ============================================================================
// Supervisor requests
// ============================================================================

/// What the handler of supervisor requests does next.
#[derive(Debug, Clone, Copy, PartialEq, Eq, Structural)]
pub enum SupvRequestAction {
    /// Return this status. The request has been answered, or could not be read.
    Return(Status),
    /// Go on with an `UNBLOCK_MEM` request: query the page table.
    QueryPages(UnblockRequest),
    /// Go on with a `FETCH_POLICY` request: take a snapshot.
    TakeSnapshot,
    /// Go on with a `FETCH_POLICY` request: verify the snapshot.
    VerifySnapshot,
}

/// What is wrong with the header of a request.
pub open spec fn header_fault(buffer: Seq<u8>, size: int) -> Option<Status> {
    if size < HEADER_SIZE {
        Some(EFI_INVALID_PARAMETER)
    } else if request_header_at(buffer).signature != SIGNATURE {
        Some(EFI_INVALID_PARAMETER)
    } else if request_header_at(buffer).revision > REVISION {
        Some(EFI_UNSUPPORTED)
    } else {
        None
    }
}

/// A request has been answered with no data: the result is `status`, and the response is the
/// header alone.
pub open spec fn answered(
    before: Seq<u8>,
    after: Seq<u8>,
    size_after: usize,
    status: Status,
) -> bool {
    size_after == HEADER_SIZE && result_written(before, after, status)
}

/// A `VERSION_INFO` request has been answered.
pub open spec fn version_answered(
    before: Seq<u8>,
    after: Seq<u8>,
    size: usize,
    size_after: usize,
) -> bool {
    if size < 40 {
        answered(before, after, size_after, EFI_BUFFER_TOO_SMALL)
    } else {
        &&& size_after == 40
        &&& version_info_at(after, 24) == supervisor_version()
        &&& le64(after, RESULT_OFFSET as int) == EFI_SUCCESS
        &&& same_but(before, after, RESULT_OFFSET as int, 24)
    }
}

/// Handles a supervisor request: reads the header, and answers the request or goes on with
/// it.
///
/// The status of the request goes into its header. What the handler returns says only
/// whether there was a request to handle.
pub fn mm_supv_request_handler(
    tracker: &UnblockedMemoryTracker,
    mmram: &PageAllocator,
    gate_locked: Option<bool>,
    comm_buffer: &mut Vec<u8>,
    comm_buffer_size: &mut usize,
) -> (r: SupvRequestAction)
    requires
        tracker.wf(),
        mmram.addressable(),
        *old(comm_buffer_size) <= old(comm_buffer).len(),
    ensures
        ({
            let before = old(comm_buffer)@;
            let after = final(comm_buffer)@;
            let size = *old(comm_buffer_size);
            let size_after = *final(comm_buffer_size);
            let request = request_header_at(before).request;
            let unblock = unblock_action(tracker, mmram, before, size as int);
            if header_fault(before, size as int) is Some {
                &&& r == SupvRequestAction::Return(header_fault(before, size as int)->0)
                &&& after == before
                &&& size_after == size
            } else if request == requests::VERSION_INFO {
                &&& r == SupvRequestAction::Return(EFI_SUCCESS)
                &&& version_answered(before, after, size, size_after)
            } else if request == requests::COMM_UPDATE {
                &&& r == SupvRequestAction::Return(EFI_SUCCESS)
                &&& answered(before, after, size_after, EFI_ACCESS_DENIED)
            } else if request == requests::UNBLOCK_MEM {
                match unblock {
                    UnblockAction::Query(q) => {
                        &&& r == SupvRequestAction::QueryPages(q)
                        &&& after == before
                        &&& size_after == size
                    },
                    UnblockAction::Reply(status) => {
                        &&& r == SupvRequestAction::Return(EFI_SUCCESS)
                        &&& answered(before, after, size_after, status)
                    },
                    _ => false,
                }
            } else if request == requests::FETCH_POLICY {
                match gate_locked {
                    None => {
                        &&& r == SupvRequestAction::Return(EFI_SUCCESS)
                        &&& answered(before, after, size_after, EFI_NOT_READY)
                    },
                    Some(locked) => {
                        &&& r == if locked {
                            SupvRequestAction::VerifySnapshot
                        } else {
                            SupvRequestAction::TakeSnapshot
                        }
                        &&& after == before
                        &&& size_after == size
                    },
                }
            } else {
                &&& r == SupvRequestAction::Return(EFI_SUCCESS)
                &&& answered(before, after, size_after, EFI_UNSUPPORTED)
            }
        }),
{
    if *comm_buffer_size < HEADER_SIZE {
        return SupvRequestAction::Return(EFI_INVALID_PARAMETER);
    }
    let header = match MmSupervisorRequestHeader::from_bytes(comm_buffer.as_slice()) {
        Some(h) => h,
        None => {
            return SupvRequestAction::Return(EFI_INVALID_PARAMETER);
        },
    };
    if header.signature != SIGNATURE {
        return SupvRequestAction::Return(EFI_INVALID_PARAMETER);
    }
    if header.revision > REVISION {
        return SupvRequestAction::Return(EFI_UNSUPPORTED);
    }
    let status: Status = match header.request {
        requests::VERSION_INFO => handle_version_info(comm_buffer, comm_buffer_size),
        requests::FETCH_POLICY => match handle_fetch_policy(gate_locked) {
            FetchAction::TakeSnapshot => {
                return SupvRequestAction::TakeSnapshot;
            },
            FetchAction::VerifySnapshot => {
                return SupvRequestAction::VerifySnapshot;
            },
            FetchAction::Reply(status) => {
                *comm_buffer_size = HEADER_SIZE;
                status
            },
            FetchAction::WritePolicy { capacity: _ } => EFI_SUCCESS,
        },
        requests::COMM_UPDATE => handle_comm_update(comm_buffer_size),
        requests::UNBLOCK_MEM => match handle_unblock_mem(
            tracker,
            mmram,
            comm_buffer.as_slice(),
            *comm_buffer_size,
        ) {
            UnblockAction::Query(query) => {
                return SupvRequestAction::QueryPages(query);
            },
            UnblockAction::Reply(status) => {
                *comm_buffer_size = HEADER_SIZE;
                status
            },
            UnblockAction::MapPages { address: _, size: _, attributes: _ } => EFI_SUCCESS,
        },
        _ => {
            *comm_buffer_size = HEADER_SIZE;
            EFI_UNSUPPORTED
        },
    };
    write_request_result(comm_buffer, status);
    SupvRequestAction::Return(EFI_SUCCESS)
}

/// Answers a request that went on: the size of the response and its status, and what the
/// handler then returns.
pub fn finish_request(
    comm_buffer: &mut Vec<u8>,
    comm_buffer_size: &mut usize,
    status: Status,
    response_size: usize,
) -> (r: Status)
    requires
        HEADER_SIZE <= old(comm_buffer).len(),
    ensures
        r == EFI_SUCCESS,
        *final(comm_buffer_size) == response_size,
        result_written(old(comm_buffer)@, final(comm_buffer)@, status),
{
    *comm_buffer_size = response_size;
    write_request_result(comm_buffer, status);
    EFI_SUCCESS
}

// ============================================================================
// What holds of the handlers
// ============================================================================

/// After ready-to-lock every request to unblock memory is refused, and changes nothing.
pub proof fn law_locked_refuses_unblock(
    tracker: &UnblockedMemoryTracker,
    mmram: &PageAllocator,
    buffer: Seq<u8>,
    size: int,
    queried: Option<Result<u64, PtError>>,
    mapped: Result<(), PtError>,
)
    requires
        tracker.enforcing(),
    ensures
        unblock_status(tracker, mmram, buffer, size, queried, mapped) == EFI_ACCESS_DENIED,
        unblock_regions(tracker, mmram, buffer, size, queried, mapped) == tracker.regions(),
{
}

/// A region that gets as far as the page table consists of whole pages within the address
/// space, shares no memory with MMRAM, and is not among the unblocked regions. It is added to
/// them, and the request succeeds, exactly if its pages are not present and can be mapped.
pub proof fn law_unblocked_region_is_safe(
    tracker: &UnblockedMemoryTracker,
    mmram: &PageAllocator,
    buffer: Seq<u8>,
    size: int,
    q: UnblockRequest,
    queried: Option<Result<u64, PtError>>,
    mapped: Result<(), PtError>,
)
    requires
        unblock_action(tracker, mmram, buffer, size) == UnblockAction::Query(q),
    ensures
        q.size > 0,
        q.address as int % PAGE_SIZE as int == 0,
        q.size as int % PAGE_SIZE as int == 0,
        q.address + q.size <= u64::MAX,
        !mmram.overlaps_mmram(q.address, q.size),
        exact_match(tracker.regions(), q.address, q.size, 0) is None,
        ({
            let granted = queried == Some(Err::<u64, PtError>(PtError::NoMapping)) && mapped is Ok;
            &&& unblock_status(tracker, mmram, buffer, size, queried, mapped) == EFI_SUCCESS
                <==> granted
            &&& unblock_regions(tracker, mmram, buffer, size, queried, mapped) == if granted {
                tracker.regions().push(
                    UnblockedMemoryEntry::of(
                        q.address,
                        q.size,
                        tracked_attributes(q.supervisor_only),
                    ),
                )
            } else {
                tracker.regions()
            }
        }),
{
}

/// A request to unblock memory that does not succeed leaves the unblocked regions as they
/// were.
pub proof fn law_refused_unblock_changes_nothing(
    tracker: &UnblockedMemoryTracker,
    mmram: &PageAllocator,
    buffer: Seq<u8>,
    size: int,
    queried: Option<Result<u64, PtError>>,
    mapped: Result<(), PtError>,
)
    requires
        unblock_status(tracker, mmram, buffer, size, queried, mapped) != EFI_SUCCESS,
    ensures
        unblock_regions(tracker, mmram, buffer, size, queried, mapped) == tracker.regions(),
{
}

/// The same request to unblock memory gets the same status again, and then changes nothing: one
/// that was refused is refused again while the page table answers as it did, and one that was
/// granted is granted again whatever the page table says.
pub proof fn law_unblock_again(
    before: &UnblockedMemoryTracker,
    after: &UnblockedMemoryTracker,
    mmram: &PageAllocator,
    buffer: Seq<u8>,
    size: int,
    queried: Option<Result<u64, PtError>>,
    mapped: Result<(), PtError>,
    queried_again: Option<Result<u64, PtError>>,
    mapped_again: Result<(), PtError>,
)
    requires
        after.enforcing() == before.enforcing(),
        after.regions() == unblock_regions(before, mmram, buffer, size, queried, mapped),
        unblock_status(before, mmram, buffer, size, queried, mapped) == EFI_SUCCESS || (
        queried_again == queried && mapped_again == mapped),
    ensures
        unblock_status(after, mmram, buffer, size, queried_again, mapped_again) == unblock_status(
            before,
            mmram,
            buffer,
            size,
            queried,
            mapped,
        ),
        unblock_regions(after, mmram, buffer, size, queried_again, mapped_again)
            == after.regions(),
{
    if let UnblockAction::Query(q) = unblock_action(before, mmram, buffer, size) {
        if unblock_status(before, mmram, buffer, size, queried, mapped) == EFI_SUCCESS {
            let attributes = tracked_attributes(q.supervisor_only);
            law_unblock_idempotent(before, after, mmram, q.address, q.size, attributes);
        }
    }
}

/// What has been answered keeps the header of the request but for its result.
pub proof fn law_answer_keeps_header(before: Seq<u8>, after: Seq<u8>, status: Status)
    requires
        before.len() >= HEADER_SIZE,
        result_written(before, after, status),
    ensures
        request_header_at(after) == (MmSupervisorRequestHeader {
            result: status,
            ..request_header_at(before)
        }),
{
}

/// The verification of the snapshot leaves every page as it was, whatever it finds.
pub proof fn law_verification_gives_pages_back(
    before: &PageAllocator,
    held: &PageAllocator,
    after: &PageAllocator,
    n: int,
    scratch_base: u64,
)
    requires
        before.wf(),
        before.ready(),
        before.addressable(),
        crate::supervisor::mm_mem::regions_apart(before.region_list()),
        n > 0,
        held.same_layout(before),
        before.allocates(held, n, AllocationType::Supervisor, scratch_base),
        held.free_verdict(scratch_base, n) is Ok ==> held.clears(
            after,
            held.bit_of_address(scratch_base)->0,
            n,
        ),
    ensures
        same_pages(before, after),
{
    crate::supervisor::mm_mem::law_allocate_then_free(
        before,
        held,
        after,
        n,
        AllocationType::Supervisor,
        scratch_base,
    );
}

/// What a request to unblock memory leads to, in the order of the tests: nothing once the memory is
/// locked; a refusal of a buffer without room for the parameters, of parameters without an
/// identifier, without pages, off a page boundary or past the address space; a refusal of memory
/// that MMRAM has; and then what the tracker says of the region of whole pages. A region that can
/// be unblocked is asked about in the page table, unless it is unblocked already.
pub proof fn law_unblock_request_decision(
    tracker: &UnblockedMemoryTracker,
    mmram: &PageAllocator,
    buffer: Seq<u8>,
    size: int,
)
    ensures
        ({
            let r = unblock_action(tracker, mmram, buffer, size);
            let d = unblock_params_at(buffer, 24).memory_descriptor;
            let start = d.physical_start;
            let bytes = d.number_of_pages * 4096;
            let good = unblock_params_at(buffer, 24).identifier_guid != 0 && start as int % 4096
                == 0 && d.number_of_pages > 0 && start + bytes <= u64::MAX;
            let supervisor = d.attribute & EFI_MEMORY_SP != 0;
            let attributes: u32 = if supervisor {
                0x8000_0003
            } else {
                0x3
            };
            let verdict = tracker.verdict(mmram, start, bytes as u64, attributes);
            let open = !tracker.enforcing() && size >= 80;
            &&& tracker.enforcing() ==> r == UnblockAction::Reply(EFI_ACCESS_DENIED)
            &&& !tracker.enforcing() && size < 80 ==> r == UnblockAction::Reply(
                EFI_BUFFER_TOO_SMALL,
            )
            &&& open && !good ==> r == UnblockAction::Reply(EFI_INVALID_PARAMETER)
            &&& open && good && mmram.overlaps_mmram(start, bytes as u64) ==> r
                == UnblockAction::Reply(EFI_SECURITY_VIOLATION)
            &&& open && good && !mmram.overlaps_mmram(start, bytes as u64) ==> {
                &&& verdict == Err::<(), UnblockError>(UnblockError::ConflictingAttributes) ==> r
                    == UnblockAction::Reply(EFI_SECURITY_VIOLATION)
                &&& verdict is Err && verdict != Err::<(), UnblockError>(
                    UnblockError::ConflictingAttributes,
                ) ==> r == UnblockAction::Reply(EFI_INVALID_PARAMETER)
                &&& verdict is Ok && exact_match(
                    tracker.regions(),
                    start,
                    bytes as u64,
                    0,
                ) is Some ==> r == UnblockAction::Reply(EFI_SUCCESS)
                &&& verdict is Ok && exact_match(
                    tracker.regions(),
                    start,
                    bytes as u64,
                    0,
                ) is None ==> (r matches UnblockAction::Query(q) && q.address == start && q.size
                    == bytes && (q.supervisor_only <==> supervisor))
            }
        }),
{
}

/// What the page table says of a region decides on it: a region that is mapped is refused, one that
/// is not is to be mapped, as data that nobody executes, and for the supervisor alone if that was
/// asked for; any other answer is an error of the device, and without a page table nothing is
/// ready.
pub proof fn law_page_table_decides(request: UnblockRequest, attributes: u64, e: PtError)
    ensures
        queried_action(request, None) == UnblockAction::Reply(EFI_NOT_READY),
        queried_action(request, Some(Ok(attributes))) == UnblockAction::Reply(
            EFI_SECURITY_VIOLATION,
        ),
        e == PtError::NoMapping ==> (queried_action(request, Some(Err(e)))
            matches UnblockAction::MapPages { address, size, attributes } && address
            == request.address && size == request.size && attributes & EXECUTE_PROTECT != 0 && (
        request.supervisor_only <==> attributes & SUPERVISOR_ONLY != 0)),
        e != PtError::NoMapping ==> queried_action(request, Some(Err(e))) == UnblockAction::Reply(
            EFI_DEVICE_ERROR,
        ),
{
    assert(0x4_4000u64 & 0x4000u64 != 0 && 0x4_4000u64 & 0x4_0000u64 != 0 && 0x4000u64 & 0x4000u64
        != 0 && 0x4000u64 & 0x4_0000u64 == 0) by (bit_vector);
}

/// A region that has been mapped is tracked for reads and writes, and a region for the supervisor
/// is told from one for the user. A region that could not be mapped is not tracked.
pub proof fn law_mapped_region_is_tracked(
    tracker: &UnblockedMemoryTracker,
    mmram: &PageAllocator,
    request: UnblockRequest,
    mapped: Result<(), PtError>,
)
    ensures
        ({
            let attributes: u32 = if request.supervisor_only {
                0x8000_0003
            } else {
                0x3
            };
            let verdict = tracker.verdict(mmram, request.address, request.size, attributes);
            let status = mapped_status(tracker, mmram, request, mapped);
            let regions = mapped_regions(tracker, mmram, request, mapped);
            &&& mapped is Err ==> status == EFI_DEVICE_ERROR && regions == tracker.regions()
            &&& mapped is Ok ==> regions == tracker.regions_after(
                mmram,
                request.address,
                request.size,
                attributes,
            )
            &&& mapped is Ok && verdict is Ok ==> status == EFI_SUCCESS
            &&& mapped is Ok && verdict == Err::<(), UnblockError>(
                UnblockError::ConflictingAttributes,
            ) ==> status == EFI_SECURITY_VIOLATION
            &&& mapped is Ok && verdict is Err && verdict != Err::<(), UnblockError>(
                UnblockError::ConflictingAttributes,
            ) ==> status == EFI_INVALID_PARAMETER
        }),
{
}

/// When a request is understood: if the buffer has room for the header, and the header has the
/// signature and a revision that is known. Of the header nothing but its own fields counts.
pub proof fn law_header_decision(buffer: Seq<u8>, size: int)
    ensures
        size < 24 ==> header_fault(buffer, size) == Some(EFI_INVALID_PARAMETER),
        size >= 24 ==> {
            let signature = crate::bytes::le32(buffer, 0) as u32;
            let revision = crate::bytes::le32(buffer, 4) as u32;
            &&& signature != SIGNATURE ==> header_fault(buffer, size) == Some(EFI_INVALID_PARAMETER)
            &&& signature == SIGNATURE && revision > REVISION ==> header_fault(buffer, size)
                == Some(EFI_UNSUPPORTED)
            &&& signature == SIGNATURE && revision <= REVISION ==> header_fault(buffer, size) is None
        },
{
}

/// An answer is a status in the header, and nothing else in the buffer changes. An answer about the
/// version has the version behind the header, if there is room for it.
pub proof fn law_answers(
    before: Seq<u8>,
    after: Seq<u8>,
    size: usize,
    size_after: usize,
    status: Status,
    i: int,
)
    requires
        before.len() >= 40,
        0 <= i < before.len(),
    ensures
        answered(before, after, size_after, status) ==> {
            &&& size_after == 24
            &&& after.len() == before.len()
            &&& le64(after, 16) == status
            &&& i < 16 || i >= 24 ==> after[i] == before[i]
        },
        version_answered(before, after, size, size_after) && size < 40 ==> answered(
            before,
            after,
            size_after,
            EFI_BUFFER_TOO_SMALL,
        ),
        version_answered(before, after, size, size_after) && size >= 40 ==> {
            &&& size_after == 40
            &&& after.len() == before.len()
            &&& le64(after, 16) == EFI_SUCCESS
            &&& crate::bytes::le32(after, 24) as u32 == VERSION
            &&& crate::bytes::le32(after, 28) as u32 == PATCH_LEVEL
            &&& le64(after, 32) as u64 == MAX_REQUEST_LEVEL
            &&& i < 16 || i >= 40 ==> after[i] == before[i]
        },
{
}

/// The handler of a request is the first for its GUID, and none is found only if there is none.
pub proof fn law_handler_lookup(handlers: Seq<SupervisorMmiHandler>, guid: Guid, from: int)
    requires
        0 <= from,
    ensures
        match handler_for(handlers, guid, from) {
            Some(i) => from <= i < handlers.len() && handlers[i].handler_guid == guid
                && forall|j: int|
                from <= j < i ==> (#[trigger] handlers[j]).handler_guid != guid,
            None => forall|j: int|
                from <= j < handlers.len() ==> (#[trigger] handlers[j]).handler_guid != guid,
        },
    decreases handlers.len() - from,
{
    if from < handlers.len() {
        law_handler_lookup(handlers, guid, from + 1);
    }
}

/// The policy is written behind the header, into all the room that the buffer has there.
pub proof fn law_policy_is_written_behind_header(size: usize)
    ensures
        size < 24 ==> write_policy_action(size) == FetchAction::Reply(EFI_BUFFER_TOO_SMALL),
        size >= 24 ==> (write_policy_action(size) matches FetchAction::WritePolicy { capacity }
            && capacity + 24 == size),
{
}

/// The pages that are taken to verify a snapshot hold its descriptors, and are no more than that
/// needs.
pub proof fn law_scratch_pages(count: int)
    requires
        0 <= count,
    ensures
        count * 24 <= scratch_pages(count) * 4096,
        count > 0 ==> (scratch_pages(count) - 1) * 4096 < count * 24,
        count == 0 ==> scratch_pages(count) == 0,
{
}

/// The version that is told is the one of this supervisor, with the highest request it takes.
pub proof fn law_version_told()
    ensures
        supervisor_version().version == VERSION,
        supervisor_version().patch_level == PATCH_LEVEL,
        supervisor_version().max_supervisor_request_level == MAX_REQUEST_LEVEL,
{
}

} // verus!
