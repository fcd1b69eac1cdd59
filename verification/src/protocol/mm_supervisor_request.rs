//! MM Supervisor request protocol.
//!
//! Requests are sent in the MM communicate buffer: an [`MmSupervisorRequestHeader`] and the
//! data of the request. The supervisor writes the result into the header and puts the data
//! of the response behind it.

use crate::bytes::{le32, le64, read_u32, read_u64};
use crate::efi::{
    guid_at, memory_descriptor_at, read_guid, read_memory_descriptor, Guid, MemoryDescriptor,
};
use vstd::prelude::*;

pub mod requests;
pub mod responses;

verus! {

/// `gMmSupervisorRequestHandlerGuid`, {8c633b23-1260-4ea6-830f-7ddc97382111}.
pub const MM_SUPERVISOR_REQUEST_HANDLER_GUID: Guid = 0x11213897dc7d0f834ea612608c633b23;

/// The expected signature value ('MSUP', little-endian).
pub const SIGNATURE: u32 = 0x5055534D;

/// Current revision of the request protocol.
pub const REVISION: u32 = 1;

/// MM Supervisor request header.
///
/// ```text
/// Offset  Size  Field
/// 0x00    4     signature
/// 0x04    4     revision
/// 0x08    4     request
/// 0x0C    4     reserved
/// 0x10    8     result
/// ```
#[derive(Debug, Clone, Copy, PartialEq, Eq, Structural)]
pub struct MmSupervisorRequestHeader {
    /// Signature to identify the request ([`SIGNATURE`]).
    pub signature: u32,
    /// Revision of the request protocol, at most [`REVISION`].
    pub revision: u32,
    /// The specific request type (see [`requests`]).
    pub request: u32,
    /// Reserved for alignment, must be 0.
    pub reserved: u32,
    /// Result status, set by the supervisor on response (0 = success).
    pub result: u64,
}

/// Where the result stands in the header.
pub const RESULT_OFFSET: usize = 16;

/// The header that starts `s`.
pub open spec fn request_header_at(s: Seq<u8>) -> MmSupervisorRequestHeader {
    MmSupervisorRequestHeader {
        signature: le32(s, 0) as u32,
        revision: le32(s, 4) as u32,
        request: le32(s, 8) as u32,
        reserved: le32(s, 12) as u32,
        result: le64(s, 16) as u64,
    }
}

impl MmSupervisorRequestHeader {
    /// Size of the header in bytes.
    pub const SIZE: usize = 24;

    /// The signature and the revision are those of a request that is understood.
    pub open spec fn valid(self) -> bool {
        self.signature == SIGNATURE && self.revision <= REVISION
    }

    /// Validates the header signature and revision.
    pub fn is_valid(&self) -> (r: bool)
        ensures
            r == self.valid(),
    {
        self.signature == SIGNATURE && self.revision <= REVISION
    }

    /// Reads a header from a byte slice, or returns `None` if the slice is too small.
    pub fn from_bytes(bytes: &[u8]) -> (r: Option<Self>)
        ensures
            r == if bytes@.len() < 24 {
                None
            } else {
                Some(request_header_at(bytes@))
            },
    {
        if bytes.len() < Self::SIZE {
            return None;
        }
        Some(
            MmSupervisorRequestHeader {
                signature: read_u32(bytes, 0),
                revision: read_u32(bytes, 4),
                request: read_u32(bytes, 8),
                reserved: read_u32(bytes, 12),
                result: read_u64(bytes, 16),
            },
        )
    }
}

/// Response to a version info request, behind the header.
///
/// ```text
/// Offset  Size  Field
/// 0x00    4     version
/// 0x04    4     patch_level
/// 0x08    8     max_supervisor_request_level
/// ```
#[derive(Debug, Clone, Copy, PartialEq, Eq, Structural)]
pub struct MmSupervisorVersionInfo {
    /// Version of the MM Supervisor.
    pub version: u32,
    /// Patch level.
    pub patch_level: u32,
    /// Maximum supported supervisor request level (highest valid request type value).
    pub max_supervisor_request_level: u64,
}

/// The version info at byte `at` of `s`.
pub open spec fn version_info_at(s: Seq<u8>, at: int) -> MmSupervisorVersionInfo {
    MmSupervisorVersionInfo {
        version: le32(s, at) as u32,
        patch_level: le32(s, at + 4) as u32,
        max_supervisor_request_level: le64(s, at + 8) as u64,
    }
}

impl MmSupervisorVersionInfo {
    /// Size of the version info structure in bytes.
    pub const SIZE: usize = 16;

    /// Reads version info from a byte slice, or returns `None` if the slice is too small.
    pub fn from_bytes(bytes: &[u8]) -> (r: Option<Self>)
        ensures
            r == if bytes@.len() < 16 {
                None
            } else {
                Some(version_info_at(bytes@, 0))
            },
    {
        if bytes.len() < Self::SIZE {
            return None;
        }
        Some(
            MmSupervisorVersionInfo {
                version: read_u32(bytes, 0),
                patch_level: read_u32(bytes, 4),
                max_supervisor_request_level: read_u64(bytes, 8),
            },
        )
    }
}

/// MM Supervisor unblock memory parameters.
///
/// ```text
/// Offset  Size  Field
/// 0x00    40    memory_descriptor
/// 0x28    16    identifier_guid
/// ```
#[derive(Debug, Clone, Copy, PartialEq, Eq, Structural)]
pub struct MmSupervisorUnblockMemoryParams {
    /// Memory descriptor identifying the region to unblock.
    pub memory_descriptor: MemoryDescriptor,
    /// GUID identifying the requesting driver or module.
    pub identifier_guid: Guid,
}

/// The unblock memory parameters at byte `at` of `s`.
pub open spec fn unblock_params_at(s: Seq<u8>, at: int) -> MmSupervisorUnblockMemoryParams {
    MmSupervisorUnblockMemoryParams {
        memory_descriptor: memory_descriptor_at(s, at),
        identifier_guid: guid_at(s, at + 40),
    }
}

impl MmSupervisorUnblockMemoryParams {
    /// Size of this structure in bytes.
    pub const SIZE: usize = 56;

    /// Reads the parameters at byte `at`.
    pub fn from_bytes(bytes: &[u8], at: usize) -> (r: Self)
        requires
            at + 56 <= bytes.len(),
        ensures
            r == unblock_params_at(bytes@, at as int),
    {
        MmSupervisorUnblockMemoryParams {
            memory_descriptor: read_memory_descriptor(bytes, at),
            identifier_guid: read_guid(bytes, at + 40),
        }
    }
}

/// Where the fields of a request are: of its header, of the version and of the memory to unblock,
/// whose identifier stands behind its descriptor.
pub proof fn law_request_layouts(s: Seq<u8>, at: int)
    ensures
        ({
            let h = request_header_at(s);
            &&& h.signature == le32(s, 0) as u32
            &&& h.revision == le32(s, 4) as u32
            &&& h.request == le32(s, 8) as u32
            &&& h.reserved == le32(s, 12) as u32
            &&& h.result == le64(s, 16) as u64
            &&& h.valid() <==> h.signature == SIGNATURE && h.revision <= REVISION
        }),
        ({
            let v = version_info_at(s, at);
            &&& v.version == le32(s, at) as u32
            &&& v.patch_level == le32(s, at + 4) as u32
            &&& v.max_supervisor_request_level == le64(s, at + 8) as u64
        }),
        ({
            let p = unblock_params_at(s, at);
            &&& p.memory_descriptor.memory_type == le32(s, at) as u32
            &&& p.memory_descriptor.physical_start == le64(s, at + 8) as u64
            &&& p.memory_descriptor.virtual_start == le64(s, at + 16) as u64
            &&& p.memory_descriptor.number_of_pages == le64(s, at + 24) as u64
            &&& p.memory_descriptor.attribute == le64(s, at + 32) as u64
            &&& p.identifier_guid == guid_at(s, at + 40)
        }),
{
}

/// The requests are numbered from 1 on; a header is told by the letters MSUP.
pub proof fn law_request_numbers()
    ensures
        requests::UNBLOCK_MEM == 1,
        requests::FETCH_POLICY == requests::UNBLOCK_MEM + 1,
        requests::VERSION_INFO == requests::FETCH_POLICY + 1,
        requests::COMM_UPDATE == requests::VERSION_INFO + 1,
        SIGNATURE == 'M' as int + 0x100 * ('S' as int) + 0x1_0000 * ('U' as int) + 0x100_0000 * (
        'P' as int),
        REVISION == 1,
{
}

} // verus!
