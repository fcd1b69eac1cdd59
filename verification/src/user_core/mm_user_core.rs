//! The user core: what the supervisor's commands lead to.
//!
//! - `StartUserCore` initializes the core: it finds the communication buffer in the HOB list,
//!   and the drivers are dispatched.
//! - `UserRequest` dispatches an MMI: a synchronous one to the handlers for the GUID in the
//!   communication buffer, and then, always, an asynchronous one to the root handlers.
//! - `UserApProcedure` runs a procedure on an AP.

use crate::bytes::{le64, read_u64};
use crate::efi::{
    guid_at, read_guid, Guid, Status, EFI_ALREADY_STARTED, EFI_BAD_BUFFER_SIZE,
    EFI_INVALID_PARAMETER, EFI_NOT_FOUND, EFI_SUCCESS,
};
use crate::hob::Hob;
use crate::mm_common::{
    common_buffer_at, communicate_header_at, EfiMmCommunicateHeader, MmCommBufferStatus,
    MmCommonBufferHobData, UserCommandType, MM_COMM_BUFFER_HOB_GUID,
};
use crate::user_core::mmi::{EntryView, MmiDatabase, MmiHandler};
use crate::user_core::protocol_db::ProtocolDatabase;
use vstd::prelude::*;

verus! {

/// GUID identifying the MM Supervisor Core module, which is skipped during driver discovery,
/// {4e4c89dc-a452-4b6b-b183-f16a2a223733}.
pub const MM_SUPERVISOR_CORE_GUID: Guid = 0x3337222a6af183b14b6ba4524e4c89dc;

/// GUID for depex data HOBs paired with driver module HOBs,
/// {b17f0049-affd-4530-acd6-e245e19deaf1}.
pub const MM_SUPERVISOR_DEPEX_HOB_GUID: Guid = 0xf1ea9de145e2d6ac4530affdb17f0049;

/// The head of a depex HOB's data; the dependency expression follows it.
#[derive(Debug, Clone, Copy, PartialEq, Eq, Structural)]
pub struct DepexHobData {
    /// The GUID of the driver.
    pub name: Guid,
    /// Size in bytes of the dependency expression.
    pub depex_expression_size: u64,
}

/// The depex data at the start of `s`.
pub open spec fn depex_at(s: Seq<u8>) -> DepexHobData {
    DepexHobData { name: guid_at(s, 0), depex_expression_size: le64(s, 16) as u64 }
}

impl DepexHobData {
    /// Size in bytes of the head.
    pub const SIZE: usize = 24;

    /// Reads the head of a depex HOB's data.
    pub fn from_bytes(data: &[u8]) -> (r: Self)
        requires
            Self::SIZE <= data.len(),
        ensures
            r == depex_at(data@),
    {
        DepexHobData { name: read_guid(data, 0), depex_expression_size: read_u64(data, 16) }
    }
}

/// Platform configuration for the MM User Core.
pub trait PlatformInfo {
    /// Maximum number of MMI handlers that can be registered.
    const MAX_HANDLERS: usize;
}

/// What a command of the supervisor leads to.
#[derive(Debug, Clone, Copy, PartialEq, Eq, Structural)]
pub enum UserCoreAction {
    /// Return this status.
    Return(Status),
    /// Start the user core, with the HOB list at this address.
    Start { hob_list: u64 },
    /// Handle a request, with the hand-off data at this address, and the status in it behind
    /// the context.
    Request { supv_to_user_buffer: u64, context_size: u64 },
    /// Call a procedure, and return success.
    CallProcedure { procedure: u64, argument: u64 },
}

/// The answer to a command.
pub open spec fn command_action(op_code: u64, arg1: u64, arg2: u64) -> UserCoreAction {
    match UserCommandType::of_number(op_code) {
        Err(_) => UserCoreAction::Return(EFI_INVALID_PARAMETER),
        Ok(UserCommandType::StartUserCore) => UserCoreAction::Start { hob_list: arg1 },
        Ok(UserCommandType::UserRequest) => if arg1 == 0 {
            UserCoreAction::Return(EFI_INVALID_PARAMETER)
        } else {
            UserCoreAction::Request { supv_to_user_buffer: arg1, context_size: arg2 }
        },
        Ok(UserCommandType::UserApProcedure) => if arg1 == 0 {
            UserCoreAction::Return(EFI_INVALID_PARAMETER)
        } else {
            UserCoreAction::CallProcedure { procedure: arg1, argument: arg2 }
        },
    }
}

/// The communication buffer HOB, with all of its data.
pub open spec fn is_comm_buffer_hob(hob: Hob) -> bool {
    hob matches Hob::GuidHob { name, data } && name == MM_COMM_BUFFER_HOB_GUID && data@.len()
        >= MmCommonBufferHobData::SIZE
}

/// The data of the first communication buffer HOB from `from` on.
pub open spec fn comm_buffer_data(hobs: Seq<Hob>, from: int) -> Option<MmCommonBufferHobData>
    decreases hobs.len() - from,
{
    if from >= hobs.len() {
        None
    } else if is_comm_buffer_hob(hobs[from]) {
        Some(common_buffer_at(hobs[from]->data@, 0))
    } else {
        comm_buffer_data(hobs, from + 1)
    }
}

/// The size in bytes of a number of pages, up to the largest size.
pub open spec fn pages_size(number_of_pages: u64) -> u64 {
    if number_of_pages * 4096 > u64::MAX {
        u64::MAX
    } else {
        (number_of_pages * 4096) as u64
    }
}

/// Discovers the communication buffer from HOBs: its address and its size.
pub fn discover_comm_buffer(hobs: &Vec<Hob>) -> (r: Option<(u64, u64)>)
    ensures
        r == match comm_buffer_data(hobs@, 0) {
            Some(data) => Some((data.physical_start, pages_size(data.number_of_pages))),
            None => None,
        },
{
    let mut i: usize = 0;
    while i < hobs.len()
        invariant
            i <= hobs@.len(),
            comm_buffer_data(hobs@, 0) == comm_buffer_data(hobs@, i as int),
        decreases hobs@.len() - i,
    {
        match &hobs[i] {
            Hob::GuidHob { name, data } => {
                if *name == MM_COMM_BUFFER_HOB_GUID {
                    if data.len() >= MmCommonBufferHobData::SIZE {
                        let found = MmCommonBufferHobData::read(data.as_slice(), 0);
                        let size: u64 = match found.number_of_pages.checked_mul(4096) {
                            Some(size) => size,
                            None => u64::MAX,
                        };
                        return Some((found.physical_start, size));
                    }
                }
            },
            _ => {},
        }
        i = i + 1;
    }
    None
}

// ============================================================================
// Synchronous requests
// ============================================================================

/// The layout of the third version of the communicate header, which a GUID of its own in front
/// tells from the first.
#[derive(Debug, Clone, Copy, PartialEq, Eq, Structural)]
pub struct CommunicateV3Layout {
    /// The GUID that marks a header of this version.
    pub header_guid: Guid,
    /// Size in bytes of the header.
    pub header_size: usize,
    /// Offset of the 64-bit size of header and message.
    pub buffer_size_offset: usize,
    /// Offset of the GUID that identifies the handler.
    pub message_guid_offset: usize,
}

impl CommunicateV3Layout {
    /// The fields lie within the header, which is at least as large as that of the first
    /// version.
    pub open spec fn wf(&self) -> bool {
        &&& EfiMmCommunicateHeader::HEADER_SIZE <= self.header_size
        &&& self.buffer_size_offset + 8 <= self.header_size
        &&& self.message_guid_offset + 16 <= self.header_size
    }

    /// Whether the fields lie within the header, and that is large enough.
    pub fn is_valid(&self) -> (r: bool)
        ensures
            r == self.wf(),
    {
        EfiMmCommunicateHeader::HEADER_SIZE <= self.header_size && self.buffer_size_offset
            <= self.header_size - 8 && self.message_guid_offset <= self.header_size - 16
    }
}

/// A message in the communication buffer.
#[derive(Debug, Clone, Copy, PartialEq, Eq, Structural)]
pub struct SyncMessage {
    /// The GUID of its handlers.
    pub guid: Guid,
    /// Where its data starts.
    pub header_size: usize,
    /// How much data there is.
    pub data_size: usize,
}

/// The message that a communication buffer holds, or why it holds none.
pub open spec fn message_in(buffer: Seq<u8>, v3: CommunicateV3Layout) -> Result<
    SyncMessage,
    Status,
> {
    let header = communicate_header_at(buffer, 0);
    if buffer.len() < EfiMmCommunicateHeader::HEADER_SIZE {
        Err(EFI_BAD_BUFFER_SIZE)
    } else if header.header_guid == v3.header_guid {
        let total = le64(buffer, v3.buffer_size_offset as int);
        if buffer.len() < v3.header_size || total > buffer.len() {
            Err(EFI_BAD_BUFFER_SIZE)
        } else {
            Ok(
                SyncMessage {
                    guid: guid_at(buffer, v3.message_guid_offset as int),
                    header_size: v3.header_size,
                    data_size: (if total < v3.header_size {
                        0
                    } else {
                        total - v3.header_size
                    }) as usize,
                },
            )
        }
    } else if EfiMmCommunicateHeader::HEADER_SIZE + header.message_length > buffer.len() {
        Err(EFI_BAD_BUFFER_SIZE)
    } else {
        Ok(
            SyncMessage {
                guid: header.header_guid,
                header_size: EfiMmCommunicateHeader::HEADER_SIZE,
                data_size: header.message_length as usize,
            },
        )
    }
}

/// Parses the header of the communication buffer, and zeroes what is behind the message. A
/// buffer that is too short for its header, or for its message, holds none.
///
/// The message goes to the MMI handlers for its GUID, with its data.
pub fn dispatch_synchronous_mmi(buffer: &mut Vec<u8>, v3: &CommunicateV3Layout) -> (r: Result<
    SyncMessage,
    Status,
>)
    requires
        v3.wf(),
    ensures
        r == message_in(old(buffer)@, *v3),
        final(buffer)@.len() == old(buffer)@.len(),
        match r {
            Err(_) => final(buffer)@ == old(buffer)@,
            Ok(message) => {
                let used = message.header_size + message.data_size;
                &&& used <= old(buffer)@.len()
                &&& forall|i: int| 0 <= i < used ==> final(buffer)@[i] == old(buffer)@[i]
                &&& forall|i: int| used <= i < old(buffer)@.len() ==> final(buffer)@[i] == 0
            },
        },
{
    let buffer_size: usize = buffer.len();
    if buffer_size < EfiMmCommunicateHeader::HEADER_SIZE {
        return Err(EFI_BAD_BUFFER_SIZE);
    }
    let header = EfiMmCommunicateHeader::read(buffer.as_slice(), 0);
    let message: SyncMessage;
    if header.header_guid == v3.header_guid {
        if buffer_size < v3.header_size {
            return Err(EFI_BAD_BUFFER_SIZE);
        }
        let total: u64 = read_u64(buffer.as_slice(), v3.buffer_size_offset);
        if total > buffer_size as u64 {
            return Err(EFI_BAD_BUFFER_SIZE);
        }
        let guid: Guid = read_guid(buffer.as_slice(), v3.message_guid_offset);
        let data_size: usize = (total as usize).saturating_sub(v3.header_size);
        message = SyncMessage { guid, header_size: v3.header_size, data_size };
    } else {
        let room: usize = buffer_size - EfiMmCommunicateHeader::HEADER_SIZE;
        if header.message_length > room as u64 {
            return Err(EFI_BAD_BUFFER_SIZE);
        }
        message = SyncMessage {
            guid: header.header_guid,
            header_size: EfiMmCommunicateHeader::HEADER_SIZE,
            data_size: header.message_length as usize,
        };
    }
    let used: usize = message.header_size + message.data_size;
    let mut i: usize = used;
    while i < buffer_size
        invariant
            used <= i <= buffer_size,
            buffer_size == buffer@.len(),
            buffer@.len() == old(buffer)@.len(),
            forall|j: int| 0 <= j < used ==> buffer@[j] == old(buffer)@[j],
            forall|j: int| used <= j < i ==> buffer@[j] == 0,
        decreases buffer_size - i,
    {
        buffer.set(i, 0);
        i = i + 1;
    }
    Ok(message)
}

/// The size of the response to a message: the header, and the data as the handlers left it.
pub fn response_size(message: &SyncMessage, data_size: usize) -> (r: u64)
    requires
        data_size + message.header_size <= usize::MAX,
    ensures
        r == data_size + message.header_size,
{
    (data_size + message.header_size) as u64
}

/// The status that answers a request: any failure is reported as a handler that was not found.
pub open spec fn answered(sync_status: Status, return_buffer_size: u64) -> MmCommBufferStatus {
    MmCommBufferStatus {
        is_comm_buffer_valid: 0,
        talk_to_supervisor: 0,
        return_status: if sync_status == EFI_SUCCESS {
            EFI_SUCCESS
        } else {
            EFI_NOT_FOUND
        },
        return_buffer_size,
    }
}

/// Ends the handling of a request, with the status of its synchronous part: what is to be
/// written behind the context.
pub fn finish_user_request(sync_status: Status, return_buffer_size: u64) -> (r: MmCommBufferStatus)
    ensures
        r == answered(sync_status, return_buffer_size),
{
    MmCommBufferStatus {
        is_comm_buffer_valid: 0,
        talk_to_supervisor: 0,
        return_status: if sync_status == EFI_SUCCESS {
            EFI_SUCCESS
        } else {
            EFI_NOT_FOUND
        },
        return_buffer_size,
    }
}

// ============================================================================
// User core
// ============================================================================

/// What the start of the user core leads to.
#[derive(Debug, Clone, Copy, PartialEq, Eq, Structural)]
pub enum StartAction {
    /// Return this status.
    Return(Status),
    /// Dispatch the drivers.
    DispatchDrivers,
}

/// The MM User Core responsible for driver dispatch and MMI handling in user mode.
pub struct MmUserCore {
    /// The MMI handler database.
    pub mmi_db: MmiDatabase,
    /// The protocol database.
    pub protocol_db: ProtocolDatabase,
    /// Whether the core has been started.
    started: bool,
    /// Whether the core has completed initialization.
    initialized: bool,
    /// Address of the communication buffer, or 0.
    comm_buffer_base: u64,
    /// Size in bytes of the communication buffer.
    comm_buffer_size: u64,
}

impl MmUserCore {
    /// The MMI handler database.
    pub closed spec fn mmi(&self) -> MmiDatabase {
        self.mmi_db
    }

    /// The protocol database.
    pub closed spec fn protocols(&self) -> ProtocolDatabase {
        self.protocol_db
    }

    /// The core has been started.
    pub closed spec fn has_started(&self) -> bool {
        self.started
    }

    /// The core has completed initialization.
    pub closed spec fn ready(&self) -> bool {
        self.initialized
    }

    /// Where the communication buffer is, and how large.
    pub closed spec fn comm_buffer(&self) -> (u64, u64) {
        (self.comm_buffer_base, self.comm_buffer_size)
    }

    /// Creates a new instance of the MM User Core.
    pub fn new() -> (r: Self)
        ensures
            !r.has_started(),
            !r.ready(),
            r.comm_buffer() == (0u64, 0u64),
            r.mmi().roots() == Seq::<MmiHandler>::empty(),
            r.mmi().entry_list() == Seq::<EntryView>::empty(),
            r.mmi().depth() == 0,
            r.protocols().list() == Seq::<Guid>::empty(),
    {
        MmUserCore {
            mmi_db: MmiDatabase::new(),
            protocol_db: ProtocolDatabase::new(),
            started: false,
            initialized: false,
            comm_buffer_base: 0,
            comm_buffer_size: 0,
        }
    }

    /// Checks if the core has completed initialization.
    pub fn is_initialized(&self) -> (r: bool)
        ensures
            r == self.ready(),
    {
        self.initialized
    }

    /// Main entry point for the MM User Core: what a command leads to.
    pub fn entry_point_worker(&self, op_code: u64, arg1: u64, arg2: u64) -> (r: UserCoreAction)
        ensures
            r == command_action(op_code, arg1, arg2),
    {
        let command = match UserCommandType::try_from(op_code) {
            Ok(command) => command,
            Err(_) => {
                return UserCoreAction::Return(EFI_INVALID_PARAMETER);
            },
        };
        match command {
            UserCommandType::StartUserCore => UserCoreAction::Start { hob_list: arg1 },
            UserCommandType::UserRequest => {
                if arg1 == 0 {
                    return UserCoreAction::Return(EFI_INVALID_PARAMETER);
                }
                UserCoreAction::Request { supv_to_user_buffer: arg1, context_size: arg2 }
            },
            UserCommandType::UserApProcedure => self.handle_user_ap_procedure(arg1, arg2),
        }
    }

    /// Handles the `UserApProcedure` command: the procedure is called, unless it is null.
    pub fn handle_user_ap_procedure(&self, procedure: u64, argument: u64) -> (r: UserCoreAction)
        ensures
            r == if procedure == 0 {
                UserCoreAction::Return(EFI_INVALID_PARAMETER)
            } else {
                UserCoreAction::CallProcedure { procedure, argument }
            },
    {
        if procedure == 0 {
            return UserCoreAction::Return(EFI_INVALID_PARAMETER);
        }
        UserCoreAction::CallProcedure { procedure, argument }
    }

    /// Handles the `StartUserCore` command: finds the communication buffer in the HOB list. A
    /// core is started once, even if there was no HOB list then.
    pub fn handle_start_user_core(&mut self, hob_list: Option<&Vec<Hob>>) -> (r: StartAction)
        ensures
            final(self).mmi() == old(self).mmi(),
            final(self).protocols() == old(self).protocols(),
            final(self).has_started(),
            final(self).ready() == old(self).ready(),
            r == if old(self).has_started() {
                StartAction::Return(EFI_ALREADY_STARTED)
            } else if hob_list is None {
                StartAction::Return(EFI_INVALID_PARAMETER)
            } else {
                StartAction::DispatchDrivers
            },
            final(self).comm_buffer() == match hob_list {
                Some(hobs) => if old(self).has_started() {
                    old(self).comm_buffer()
                } else {
                    match comm_buffer_data(hobs@, 0) {
                        Some(data) => (data.physical_start, pages_size(data.number_of_pages)),
                        None => old(self).comm_buffer(),
                    }
                },
                None => old(self).comm_buffer(),
            },
    {
        if self.started {
            return StartAction::Return(EFI_ALREADY_STARTED);
        }
        self.started = true;
        let hobs = match hob_list {
            Some(hobs) => hobs,
            None => {
                return StartAction::Return(EFI_INVALID_PARAMETER);
            },
        };
        match discover_comm_buffer(hobs) {
            Some(found) => {
                self.comm_buffer_base = found.0;
                self.comm_buffer_size = found.1;
            },
            None => {},
        }
        StartAction::DispatchDrivers
    }

    /// Goes on with the start when the drivers have been dispatched: the core is initialized,
    /// unless that failed.
    pub fn drivers_dispatched(&mut self, dispatched: Result<usize, Status>) -> (r: Status)
        ensures
            final(self).mmi() == old(self).mmi(),
            final(self).protocols() == old(self).protocols(),
            final(self).has_started() == old(self).has_started(),
            final(self).comm_buffer() == old(self).comm_buffer(),
            match dispatched {
                Ok(_) => r == EFI_SUCCESS && final(self).ready(),
                Err(status) => r == status && final(self).ready() == old(self).ready(),
            },
    {
        match dispatched {
            Ok(_) => {
                self.initialized = true;
                EFI_SUCCESS
            },
            Err(status) => status,
        }
    }

    /// Handles the `UserRequest` command, given the status of the communication buffer: the
    /// buffer that is to be validated by the supervisor, and dispatched if it is a communication
    /// buffer. Without one the request has no synchronous part, whose status then is that of a
    /// handler that was not found.
    pub fn handle_user_request(&self, status: &MmCommBufferStatus) -> (r: Option<(u64, u64)>)
        ensures
            r == if self.comm_buffer().0 != 0 && status.is_comm_buffer_valid != 0 {
                Some(self.comm_buffer())
            } else {
                None
            },
    {
        if self.comm_buffer_base != 0 && status.is_comm_buffer_valid != 0 {
            Some((self.comm_buffer_base, self.comm_buffer_size))
        } else {
            None
        }
    }
}

// ============================================================================
// Laws
// ============================================================================

/// A message that is dispatched lies within the communication buffer, whatever its header says.
pub proof fn law_message_within_buffer(buffer: Seq<u8>, v3: CommunicateV3Layout)
    requires
        buffer.len() <= usize::MAX,
    ensures
        message_in(buffer, v3) matches Ok(message) ==> message.header_size + message.data_size
            <= buffer.len(),
{
}

/// A request that has been answered is not valid any more, and its status is success or not
/// found.
pub proof fn law_answer_status(sync_status: Status, return_buffer_size: u64)
    ensures
        answered(sync_status, return_buffer_size).is_comm_buffer_valid == 0,
        answered(sync_status, return_buffer_size).return_status == EFI_SUCCESS || answered(
            sync_status,
            return_buffer_size,
        ).return_status == EFI_NOT_FOUND,
{
}

/// What the user module does on a call: it starts with the hand-off blocks, serves a request in the
/// buffer that it is given, or calls a procedure with its argument; a request without a buffer, a
/// procedure that is not there and any other call are refused.
pub proof fn law_command_decision(op_code: u64, arg1: u64, arg2: u64)
    ensures
        op_code == 0 ==> command_action(op_code, arg1, arg2) == (UserCoreAction::Start {
            hob_list: arg1,
        }),
        op_code == 1 && arg1 != 0 ==> command_action(op_code, arg1, arg2) == (
        UserCoreAction::Request { supv_to_user_buffer: arg1, context_size: arg2 }),
        op_code == 2 && arg1 != 0 ==> command_action(op_code, arg1, arg2) == (
        UserCoreAction::CallProcedure { procedure: arg1, argument: arg2 }),
        op_code > 2 || op_code > 0 && arg1 == 0 ==> command_action(op_code, arg1, arg2)
            == UserCoreAction::Return(EFI_INVALID_PARAMETER),
{
}

/// The communication buffer is that of the first block that describes one, and none is found only
/// if no block does. A block that is too short does not.
pub proof fn law_comm_buffer_lookup(hobs: Seq<Hob>, from: int)
    requires
        0 <= from,
    ensures
        match comm_buffer_data(hobs, from) {
            Some(found) => exists|i: int|
                from <= i < hobs.len() && (#[trigger] hobs[i] matches Hob::GuidHob { name, data }
                    && name == MM_COMM_BUFFER_HOB_GUID && data@.len() >= 24 && found
                    == common_buffer_at(data@, 0)) && forall|j: int|
                    from <= j < i ==> !is_comm_buffer_hob(#[trigger] hobs[j]),
            None => forall|j: int|
                from <= j < hobs.len() ==> !is_comm_buffer_hob(#[trigger] hobs[j]),
        },
        forall|j: int|
            0 <= j < hobs.len() ==> (is_comm_buffer_hob(#[trigger] hobs[j]) <==> (hobs[j]
                matches Hob::GuidHob { name, data } && name == MM_COMM_BUFFER_HOB_GUID
                && data@.len() >= 24)),
    decreases hobs.len() - from,
{
    if from < hobs.len() && !is_comm_buffer_hob(hobs[from]) {
        law_comm_buffer_lookup(hobs, from + 1);
    }
}

/// The size of pages, up to the largest that there is.
pub proof fn law_pages_size(number_of_pages: u64)
    ensures
        number_of_pages * 4096 <= u64::MAX ==> pages_size(number_of_pages) == number_of_pages * 4096,
        number_of_pages * 4096 > u64::MAX ==> pages_size(number_of_pages) == u64::MAX,
{
}

/// The message in a buffer. By the GUID in its header it is one of the third version, whose own
/// header says where it goes and how long it is with its header; or it goes where the GUID says,
/// and the header says how long it is. A buffer without room for the header, or for what the header
/// announces, has none.
pub proof fn law_message_decision(buffer: Seq<u8>, v3: CommunicateV3Layout)
    requires
        buffer.len() <= usize::MAX,
    ensures
        ({
            let r = message_in(buffer, v3);
            let guid = guid_at(buffer, 0);
            let length = le64(buffer, 16) as u64;
            let total = le64(buffer, v3.buffer_size_offset as int);
            let third = buffer.len() >= 24 && guid == v3.header_guid;
            let plain = buffer.len() >= 24 && guid != v3.header_guid;
            let bad = Err::<SyncMessage, Status>(EFI_BAD_BUFFER_SIZE);
            &&& buffer.len() < 24 ==> r == bad
            &&& plain && 24 + length > buffer.len() ==> r == bad
            &&& plain && 24 + length <= buffer.len() ==> (r matches Ok(m) && m.guid == guid
                && m.header_size == 24 && m.data_size == length)
            &&& third && (buffer.len() < v3.header_size || total > buffer.len()) ==> r == bad
            &&& third && buffer.len() >= v3.header_size && total <= buffer.len() ==> (r matches Ok(
                m,
            ) && m.guid == guid_at(buffer, v3.message_guid_offset as int) && m.header_size
                == v3.header_size && (total >= v3.header_size ==> m.header_size + m.data_size
                == total) && (0 <= total < v3.header_size ==> m.data_size == 0))
        }),
{
}

/// The answer of the user module: success of a success, and else nothing found; with the size of
/// the response; and the buffer is not valid any more.
pub proof fn law_answer(sync_status: Status, return_buffer_size: u64)
    ensures
        ({
            let r = answered(sync_status, return_buffer_size);
            &&& sync_status == EFI_SUCCESS ==> r.return_status == EFI_SUCCESS
            &&& sync_status != EFI_SUCCESS ==> r.return_status == EFI_NOT_FOUND
            &&& r.return_buffer_size == return_buffer_size
            &&& r.is_comm_buffer_valid == 0 && r.talk_to_supervisor == 0
        }),
{
}

/// The data of a dependency expression has a GUID, and the size of the expression behind it.
pub proof fn law_depex_layout(s: Seq<u8>)
    ensures
        depex_at(s).name == guid_at(s, 0),
        depex_at(s).depex_expression_size == le64(s, 0x10) as u64,
{
}

} // verus!
