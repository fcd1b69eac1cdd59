//! What the supervisor asks of the page table.
//!
//! The page table itself is patina_paging's and is driven by the platform. Here stand the
//! attributes that the supervisor asks for and the way in which it reads an answer.

use crate::supervisor::mm_mem::{AllocationType, PAGE_BYTES, PAGE_SIZE};
use vstd::prelude::*;

verus! {

/// The page is not present.
pub const READ_PROTECT: u64 = 0x2000;

/// The page is not executable.
pub const EXECUTE_PROTECT: u64 = 0x4000;

/// The page is not writable.
pub const READ_ONLY: u64 = 0x2_0000;

/// The page belongs to the supervisor.
pub const SUPERVISOR_ONLY: u64 = 0x4_0000;

/// Paging errors.
#[derive(Debug, Clone, Copy, PartialEq, Eq, Structural)]
pub enum PtError {
    /// Invalid parameter.
    InvalidParameter,
    /// Out of resources.
    OutOfResources,
    /// No mapping exists for the entire range.
    NoMapping,
    /// The attributes are incompatible.
    IncompatibleMemoryAttributes,
    /// The base address is not aligned to the page size.
    UnalignedPageBase,
    /// The address is not aligned to the page size.
    UnalignedAddress,
    /// The size is not aligned to the page size.
    UnalignedMemoryRange,
    /// A memory range is not valid.
    InvalidMemoryRange,
    /// Some pages of the range are mapped and some are not.
    InconsistentMappingAcrossRange,
    /// The paging type is not supported.
    UnsupportedPagingType,
    /// The base address and the range would overflow.
    AdditionOverflow,
    /// The base address and the range would underflow.
    SubtractionUnderflow,
    /// An internal error.
    InternalError,
    /// A page table could not be allocated.
    AllocationFailure,
    /// The attributes are not the same across the range.
    NonUniformMemoryAttributes,
}

/// A request to the page table.
#[derive(Debug, Clone, Copy, PartialEq, Eq, Structural)]
pub enum PageTableRequest {
    /// Map a region with attributes.
    MapRegion { address: u64, size: u64, attributes: u64 },
    /// Unmap a region.
    UnmapRegion { address: u64, size: u64 },
}

/// The attributes of data pages: writable, not executable, and for the supervisor alone
/// where it has allocated them.
pub open spec fn data_attributes(alloc_type: AllocationType) -> u64 {
    if alloc_type == AllocationType::Supervisor {
        0x4_4000
    } else {
        EXECUTE_PROTECT
    }
}

/// How newly allocated pages are to be mapped.
pub fn data_page_request(addr: u64, num_pages: usize, alloc_type: AllocationType) -> (r:
    PageTableRequest)
    requires
        num_pages * PAGE_SIZE <= u64::MAX,
    ensures
        r == (PageTableRequest::MapRegion {
            address: addr,
            size: (num_pages * PAGE_SIZE) as u64,
            attributes: data_attributes(alloc_type),
        }),
{
    let mut attributes: u64 = EXECUTE_PROTECT;
    if alloc_type == AllocationType::Supervisor {
        assert(0x4000u64 | 0x4_0000u64 == 0x4_4000u64) by (bit_vector);
        attributes = attributes | SUPERVISOR_ONLY;
    }
    PageTableRequest::MapRegion { address: addr, size: num_pages as u64 * PAGE_BYTES, attributes }
}

/// What is to be done with freed pages: they are unmapped, so that no access to them is
/// possible.
pub fn freed_page_request(addr: u64, num_pages: usize) -> (r: PageTableRequest)
    requires
        num_pages * PAGE_SIZE <= u64::MAX,
    ensures
        r == (PageTableRequest::UnmapRegion {
            address: addr,
            size: (num_pages * PAGE_SIZE) as u64,
        }),
{
    PageTableRequest::UnmapRegion { address: addr, size: num_pages as u64 * PAGE_BYTES }
}

/// The start of the page that holds `x`.
pub open spec fn page_floor(x: int) -> int {
    x - x % PAGE_SIZE as int
}

/// The start of the first page at or after `x`.
pub open spec fn page_ceil(x: int) -> int {
    page_floor(x + PAGE_SIZE - 1)
}

/// `x` unless that is not an address, and then the last address.
pub open spec fn capped_address(x: int) -> int {
    if x > u64::MAX {
        u64::MAX as int
    } else {
        x
    }
}

/// Aligns an address and a size to page boundaries.
///
/// The address is rounded down, and the size is adjusted upward so that the range is
/// covered, up to the last page boundary of the address space.
pub fn page_align_range(address: u64, size: u64) -> (r: (u64, u64))
    ensures
        r.0 == page_floor(address as int),
        r.0 + r.1 == page_floor(capped_address(capped_address(address + size) + PAGE_SIZE - 1)),
        capped_address(address + size) + PAGE_SIZE - 1 <= u64::MAX ==> r.0 + r.1 == page_ceil(
            address + size,
        ),
{
    assert(forall|x: u64| #[trigger] (x & !0xfffu64) == x - x % 4096) by (bit_vector);
    let aligned_start: u64 = address & !0xfffu64;
    let end: u64 = address.saturating_add(size);
    let aligned_end: u64 = end.saturating_add(0xfff) & !0xfffu64;
    (aligned_start, aligned_end.saturating_sub(aligned_start))
}

/// Who owns a page.
#[derive(Debug, Clone, Copy, PartialEq, Eq, Structural)]
pub enum PageOwnership {
    /// The page is accessible to the user.
    User,
    /// The page is for the supervisor alone.
    Supervisor,
}

/// The owner of a range, from what the page table answered for it; a range that is not mapped
/// as a whole, or a page table that is not there, has none.
pub open spec fn range_owner(queried: Option<Result<u64, PtError>>) -> Option<PageOwnership> {
    match queried {
        Some(Ok(attributes)) => if attributes & SUPERVISOR_ONLY != 0 {
            Some(PageOwnership::Supervisor)
        } else {
            Some(PageOwnership::User)
        },
        _ => None,
    }
}

/// Determines the ownership (user or supervisor) of a range. `queried` is what the page table,
/// if there is one, answers for the range as [`page_align_range`] aligns it.
pub fn query_address_ownership(queried: Option<Result<u64, PtError>>) -> (r: Option<PageOwnership>)
    ensures
        r == range_owner(queried),
{
    match queried {
        None => None,
        Some(answer) => match answer {
            Err(_) => None,
            Ok(attributes) => if attributes & SUPERVISOR_ONLY != 0 {
                Some(PageOwnership::Supervisor)
            } else {
                Some(PageOwnership::User)
            },
        },
    }
}

/// Determines whether a range is mapped, whoever owns it. `queried` is what the page table, if
/// there is one, answers for the range as [`page_align_range`] aligns it.
pub fn is_address_mapped(queried: Option<Result<u64, PtError>>) -> (r: Result<bool, PtError>)
    ensures
        r == match queried {
            None => Ok::<bool, PtError>(false),
            Some(Ok(_)) => Ok(true),
            Some(Err(e)) => Err(e),
        },
{
    match queried {
        None => Ok(false),
        Some(answer) => match answer {
            Ok(_) => Ok(true),
            Err(e) => Err(e),
        },
    }
}

/// A page-aligned range covers the range it was made from, wherever that ends at least a
/// page before the end of the address space; it starts and ends on a page boundary; and it
/// is less than two pages larger.
pub proof fn law_page_align_covers(address: u64, size: u64, start: u64, len: u64)
    requires
        address + size + PAGE_SIZE <= u64::MAX,
        start == page_floor(address as int),
        start + len == page_ceil(address + size),
    ensures
        start <= address,
        address + size <= start + len,
        start as int % PAGE_SIZE as int == 0,
        len as int % PAGE_SIZE as int == 0,
        len < size + 2 * PAGE_SIZE,
{
}

/// Memory is mapped for its owner: nobody executes it, and only memory of the supervisor is for the
/// supervisor alone.
pub proof fn law_data_is_mapped_for_its_owner(alloc_type: AllocationType)
    ensures
        data_attributes(alloc_type) & EXECUTE_PROTECT != 0,
        data_attributes(alloc_type) & SUPERVISOR_ONLY != 0 <==> alloc_type
            == AllocationType::Supervisor,
        data_attributes(alloc_type) & READ_PROTECT == 0,
        data_attributes(alloc_type) & READ_ONLY == 0,
{
    assert(0x4_4000u64 & 0x4000u64 != 0 && 0x4_4000u64 & 0x4_0000u64 != 0 && 0x4000u64 & 0x4000u64
        != 0 && 0x4000u64 & 0x4_0000u64 == 0 && 0x4_4000u64 & 0x2000u64 == 0 && 0x4000u64 & 0x2000u64
        == 0 && 0x4_4000u64 & 0x2_0000u64 == 0 && 0x4000u64 & 0x2_0000u64 == 0) by (bit_vector);
}

/// Memory belongs to the one it is mapped for, and to nobody if it is not mapped: what has been
/// mapped for an owner is told as that owner's.
pub proof fn law_owner_is_told(alloc_type: AllocationType, attributes: u64, e: PtError)
    ensures
        range_owner(None) is None,
        range_owner(Some(Err(e))) is None,
        range_owner(Some(Ok(attributes))) == (if attributes & SUPERVISOR_ONLY != 0 {
            Some(PageOwnership::Supervisor)
        } else {
            Some(PageOwnership::User)
        }),
        range_owner(Some(Ok(data_attributes(alloc_type)))) == (if alloc_type
            == AllocationType::Supervisor {
            Some(PageOwnership::Supervisor)
        } else {
            Some(PageOwnership::User)
        }),
{
    law_data_is_mapped_for_its_owner(alloc_type);
}

/// Rounding to page boundaries goes to the nearest one below, or above.
pub proof fn law_page_rounding(x: int)
    requires
        0 <= x,
    ensures
        page_floor(x) <= x < page_floor(x) + 4096,
        page_floor(x) % 4096 == 0,
        page_ceil(x) - 4096 < x <= page_ceil(x),
        page_ceil(x) % 4096 == 0,
{
}

/// Every address stays as it is, and what is beyond the addresses becomes the last one.
pub proof fn law_capped_address(x: int)
    ensures
        x <= u64::MAX ==> capped_address(x) == x,
        x > u64::MAX ==> capped_address(x) == u64::MAX,
{
}

/// The attributes of mapped memory are those of the firmware's memory map.
pub proof fn law_memory_attributes()
    ensures
        READ_PROTECT == 0x2000,
        EXECUTE_PROTECT == 2 * READ_PROTECT,
        READ_ONLY == 0x2_0000,
        SUPERVISOR_ONLY == 2 * READ_ONLY,
        SUPERVISOR_ONLY == crate::supervisor::unblock_memory::EFI_MEMORY_SP,
{
}

} // verus!
