//! Page allocator of the paging subsystem.
//!
//! Page tables take their pages from a pool of their own, so that the page allocator can
//! ask the page table to change attributes without the page table asking it for pages. The
//! pool only grows: pages of page tables are not given back.

use crate::mm_alloc::{is_power_of_two, law_padding_is_least, lemma_padding, padding};
use crate::supervisor::mm_mem::{PAGE_BYTES, PAGE_SIZE};
use crate::supervisor::page_table::PtError;
use vstd::prelude::*;

verus! {

/// Default number of pages to reserve for page tables (512 KB).
pub const DEFAULT_PAGING_POOL_PAGES: usize = 128;

/// Errors that can occur during paging allocator operations.
#[derive(Debug, Clone, Copy, PartialEq, Eq, Structural)]
pub enum PagingAllocError {
    /// The allocator has not been initialized.
    NotInitialized,
    /// Already initialized.
    AlreadyInitialized,
    /// No free pages available to satisfy the request.
    OutOfMemory,
    /// Invalid alignment requested.
    InvalidAlignment,
    /// The pool region is too small.
    PoolTooSmall,
}

impl PagingAllocError {
    /// The error as the page table sees it.
    pub open spec fn pt_error(self) -> PtError {
        if self == PagingAllocError::OutOfMemory {
            PtError::OutOfResources
        } else {
            PtError::InvalidParameter
        }
    }

    /// Converts to the error that the page table is told.
    pub fn to_pt_error(self) -> (r: PtError)
        ensures
            r == self.pt_error(),
    {
        match self {
            PagingAllocError::NotInitialized => PtError::InvalidParameter,
            PagingAllocError::AlreadyInitialized => PtError::InvalidParameter,
            PagingAllocError::OutOfMemory => PtError::OutOfResources,
            PagingAllocError::InvalidAlignment => PtError::InvalidParameter,
            PagingAllocError::PoolTooSmall => PtError::InvalidParameter,
        }
    }
}

/// The larger of `x` and the page size.
pub open spec fn at_least_page(x: u64) -> int {
    if x < PAGE_BYTES {
        PAGE_BYTES as int
    } else {
        x as int
    }
}

/// The pages that `size` bytes take up, at least one.
pub open spec fn pages_for(size: u64) -> int {
    (at_least_page(size) + PAGE_SIZE - 1) / PAGE_SIZE as int
}

/// Whether a number is a power of two.
fn check_power_of_two(n: u64) -> (r: bool)
    requires
        n > 0,
    ensures
        r == is_power_of_two(n as int),
{
    let mut m: u64 = n;
    while m > 1 && m % 2 == 0
        invariant
            m > 0,
            is_power_of_two(n as int) == is_power_of_two(m as int),
        decreases m,
    {
        m = m / 2;
    }
    m == 1
}

/// A page allocator for page tables: a bump allocator over a reserved pool of pages.
pub struct PagingPoolAllocator {
    /// Base address of the pool.
    pool_base: u64,
    /// Total number of pages in the pool.
    pool_pages: usize,
    /// Current allocation offset in bytes.
    current_offset: usize,
    /// Number of pages allocated.
    allocated_pages: usize,
    /// Whether the allocator has been initialized.
    initialized: bool,
}

impl PagingPoolAllocator {
    /// The allocator has been initialized.
    pub closed spec fn ready(&self) -> bool {
        self.initialized
    }

    /// Where the pool starts.
    pub closed spec fn base(&self) -> int {
        self.pool_base as int
    }

    /// How many bytes the pool has.
    pub closed spec fn bytes(&self) -> int {
        self.pool_pages * PAGE_SIZE
    }

    /// How many bytes of the pool are used.
    pub closed spec fn used(&self) -> int {
        self.current_offset as int
    }

    /// How many pages have been allocated.
    pub closed spec fn allocated(&self) -> int {
        self.allocated_pages as int
    }

    /// The pool lies within the address space on page boundaries, its used part within the
    /// pool, and the allocated pages within its used part.
    pub closed spec fn wf(&self) -> bool {
        &&& self.pool_pages * PAGE_SIZE <= usize::MAX
        &&& self.pool_base + self.pool_pages * PAGE_SIZE <= u64::MAX
        &&& self.pool_base as int % PAGE_SIZE as int == 0
        &&& self.current_offset <= self.pool_pages * PAGE_SIZE
        &&& self.allocated_pages * PAGE_SIZE <= self.current_offset
    }

    /// Where the next allocation with alignment `align` starts.
    pub open spec fn next_address(&self, align: u64) -> int {
        self.base() + self.used() + padding(self.base() + self.used(), at_least_page(align))
    }

    /// Where the next allocation ends.
    pub open spec fn next_end(&self, align: u64, size: u64) -> int {
        self.next_address(align) + pages_for(size) * PAGE_SIZE
    }

    /// The answer to a request for pages.
    pub open spec fn verdict(&self, align: u64, size: u64) -> Result<u64, PagingAllocError> {
        if !self.ready() {
            Err(PagingAllocError::NotInitialized)
        } else if !is_power_of_two(at_least_page(align)) {
            Err(PagingAllocError::InvalidAlignment)
        } else if self.next_end(align, size) > self.base() + self.bytes() {
            Err(PagingAllocError::OutOfMemory)
        } else {
            Ok(self.next_address(align) as u64)
        }
    }

    /// Creates a new uninitialized paging page allocator.
    pub fn new() -> (r: Self)
        ensures
            r.wf(),
            !r.ready(),
            r.base() == 0,
            r.bytes() == 0,
            r.used() == 0,
            r.allocated() == 0,
    {
        PagingPoolAllocator {
            pool_base: 0,
            pool_pages: 0,
            current_offset: 0,
            allocated_pages: 0,
            initialized: false,
        }
    }

    /// Initializes the paging allocator with a reserved memory region.
    pub fn init(&mut self, pool_base: u64, pool_pages: usize) -> (r: Result<(), PagingAllocError>)
        requires
            old(self).wf(),
            !old(self).ready() && pool_base != 0 && pool_base as int % PAGE_SIZE as int == 0 ==> {
                &&& pool_pages * PAGE_SIZE <= usize::MAX
                &&& pool_base + pool_pages * PAGE_SIZE <= u64::MAX
            },
        ensures
            final(self).wf(),
            r == if old(self).ready() {
                Err::<(), PagingAllocError>(PagingAllocError::AlreadyInitialized)
            } else if pool_base == 0 || pool_pages == 0 {
                Err(PagingAllocError::PoolTooSmall)
            } else if pool_base as int % PAGE_SIZE as int != 0 {
                Err(PagingAllocError::InvalidAlignment)
            } else {
                Ok(())
            },
            r is Err ==> *final(self) == *old(self),
            r is Ok ==> {
                &&& final(self).ready()
                &&& final(self).base() == pool_base
                &&& final(self).bytes() == pool_pages * PAGE_SIZE
                &&& final(self).used() == 0
                &&& final(self).allocated() == 0
            },
    {
        if self.initialized {
            return Err(PagingAllocError::AlreadyInitialized);
        }
        if pool_base == 0 || pool_pages == 0 {
            return Err(PagingAllocError::PoolTooSmall);
        }
        if pool_base % PAGE_BYTES != 0 {
            return Err(PagingAllocError::InvalidAlignment);
        }
        self.pool_base = pool_base;
        self.pool_pages = pool_pages;
        self.current_offset = 0;
        self.allocated_pages = 0;
        self.initialized = true;
        Ok(())
    }

    /// Allocates pages for page table structures.
    ///
    /// An alignment or a size below that of a page counts as that of a page. Whether the
    /// pages are for the root of a page table makes no difference.
    pub fn allocate_page_internal(&mut self, align: u64, size: u64, _is_root: bool) -> (r: Result<
        u64,
        PagingAllocError,
    >)
        requires
            old(self).wf(),
        ensures
            final(self).wf(),
            r == old(self).verdict(align, size),
            r is Err ==> *final(self) == *old(self),
            r is Ok ==> {
                &&& final(self).ready()
                &&& final(self).base() == old(self).base()
                &&& final(self).bytes() == old(self).bytes()
                &&& final(self).base() + final(self).used() == old(self).next_end(align, size)
                &&& final(self).allocated() == old(self).allocated() + pages_for(size)
            },
    {
        if !self.initialized {
            return Err(PagingAllocError::NotInitialized);
        }
        let align: u64 = if align < PAGE_BYTES {
            PAGE_BYTES
        } else {
            align
        };
        if !check_power_of_two(align) {
            return Err(PagingAllocError::InvalidAlignment);
        }
        let size: u64 = if size < PAGE_BYTES {
            PAGE_BYTES
        } else {
            size
        };
        let mut pages_needed: u64 = size / PAGE_BYTES;
        if size % PAGE_BYTES != 0 {
            pages_needed = pages_needed + 1;
        }
        let current_addr: u64 = self.pool_base + self.current_offset as u64;
        proof {
            lemma_padding(current_addr as int, align as int);
        }
        let over: u64 = current_addr % align;
        let pad: u64 = if over == 0 {
            0
        } else {
            align - over
        };
        let total_bytes: u128 = pad as u128 + pages_needed as u128 * PAGE_SIZE as u128;
        let pool_bytes: usize = self.pool_pages * PAGE_SIZE;
        if self.current_offset as u128 + total_bytes > pool_bytes as u128 {
            return Err(PagingAllocError::OutOfMemory);
        }
        self.current_offset = self.current_offset + total_bytes as usize;
        self.allocated_pages = self.allocated_pages + pages_needed as usize;
        Ok(current_addr + pad)
    }

    /// Returns whether the allocator has been initialized.
    pub fn is_initialized(&self) -> (r: bool)
        ensures
            r == self.ready(),
    {
        self.initialized
    }

    /// Returns the number of pages allocated.
    pub fn allocated_page_count(&self) -> (r: usize)
        ensures
            r == self.allocated(),
    {
        self.allocated_pages
    }

    /// Returns the number of free pages remaining.
    pub fn free_page_count(&self) -> (r: usize)
        requires
            self.wf(),
        ensures
            r == if self.ready() {
                (self.bytes() - self.used()) / PAGE_SIZE as int
            } else {
                0
            },
    {
        if !self.initialized {
            return 0;
        }
        let mut used_pages: usize = self.current_offset / PAGE_SIZE;
        if self.current_offset % PAGE_SIZE != 0 {
            used_pages = used_pages + 1;
        }
        self.pool_pages.saturating_sub(used_pages)
    }

    /// Returns the base address of the pool.
    pub fn pool_base(&self) -> (r: u64)
        ensures
            r == self.base(),
    {
        self.pool_base
    }

    /// Returns the total size of the pool in bytes.
    pub fn pool_size(&self) -> (r: usize)
        requires
            self.wf(),
        ensures
            r == self.bytes(),
    {
        self.pool_pages * PAGE_SIZE
    }
}

/// Pages that have been allocated lie within the pool, on a multiple of the alignment that
/// was asked for and on a page boundary, behind all that was used before. The pool itself lies
/// within the address space.
pub proof fn law_pages_within_pool(a: &PagingPoolAllocator, align: u64, size: u64)
    requires
        a.wf(),
        a.verdict(align, size) is Ok,
    ensures
        0 <= a.base() + a.used(),
        a.base() + a.bytes() <= u64::MAX,
        a.base() + a.used() <= a.next_address(align),
        a.next_end(align, size) <= a.base() + a.bytes(),
        a.next_address(align) % at_least_page(align) == 0,
        size <= a.next_end(align, size) - a.next_address(align),
{
    lemma_padding(a.base() + a.used(), at_least_page(align));
}

/// The decision on an allocation of page tables: the pool has to be ready and the alignment a power
/// of two, of a page at least. The pages are then at the lowest address behind those in use that
/// has the alignment, as many as the size needs, one at least; and they have to end within the
/// pool.
pub proof fn law_page_table_decision(a: &PagingPoolAllocator, align: u64, size: u64, x: int)
    requires
        a.wf(),
    ensures
        ({
            let at: int = if align < 4096 {
                4096
            } else {
                align as int
            };
            let r = a.verdict(align, size);
            &&& !a.ready() ==> r == Err::<u64, PagingAllocError>(PagingAllocError::NotInitialized)
            &&& a.ready() && !is_power_of_two(at) ==> r == Err::<u64, PagingAllocError>(
                PagingAllocError::InvalidAlignment,
            )
            &&& a.ready() && is_power_of_two(at) && a.next_address(align) + pages_for(size) * 4096
                > a.base() + a.bytes() ==> r == Err::<u64, PagingAllocError>(
                PagingAllocError::OutOfMemory,
            )
            &&& a.ready() && is_power_of_two(at) && a.next_address(align) + pages_for(size) * 4096
                <= a.base() + a.bytes() ==> r is Ok && r->Ok_0 == a.next_address(align)
            &&& a.next_address(align) % at == 0
            &&& a.base() + a.used() <= a.next_address(align)
            &&& a.base() + a.used() <= x && x % at == 0 ==> a.next_address(align) <= x
        }),
        size <= pages_for(size) * 4096,
        size > 4096 ==> (pages_for(size) - 1) * 4096 < size,
        size <= 4096 ==> pages_for(size) == 1,
{
    let at = a.base() + a.used();
    lemma_padding(at, at_least_page(align));
    if at <= x && x % at_least_page(align) == 0 {
        law_padding_is_least(at, at_least_page(align), x);
    }
}

/// Page tables that are allocated one after the other do not share memory, and each allocation
/// takes away as much as it gets, and what the alignment leaves out.
pub proof fn law_page_tables_apart(
    first: &PagingPoolAllocator,
    second: &PagingPoolAllocator,
    align1: u64,
    size1: u64,
    align2: u64,
    size2: u64,
)
    requires
        first.wf(),
        second.wf(),
        first.verdict(align1, size1) is Ok,
        second.base() == first.base(),
        second.base() + second.used() == first.next_end(align1, size1),
        second.verdict(align2, size2) is Ok,
    ensures
        first.verdict(align1, size1)->Ok_0 + size1 <= second.verdict(align2, size2)->Ok_0,
{
    law_page_table_decision(first, align1, size1, 0);
    law_page_table_decision(second, align2, size2, 0);
}

/// Only a lack of memory is told as a lack of resources.
pub proof fn law_paging_errors(e: PagingAllocError)
    ensures
        e == PagingAllocError::OutOfMemory ==> e.pt_error() == PtError::OutOfResources,
        e != PagingAllocError::OutOfMemory ==> e.pt_error() == PtError::InvalidParameter,
{
}

} // verus!
