use patina_mm::hob::Hob;
use patina_mm::mm_alloc;
use patina_mm::mm_alloc::PageAllocatorBackend;
use patina_mm::supervisor::mm_core::reserve_paging_pool;
use patina_mm::supervisor::mm_mem::{
    check_smram_hobs, count_smram_pages, AllocationType, PageAllocError, PageAllocator,
    EFI_ALLOCATED, MM_PEI_MMRAM_MEMORY_RESERVE_GUID, PAGE_BYTES, PAGE_SIZE, SMM_SMRAM_MEMORY_GUID,
};
use patina_mm::supervisor::page_table::{
    data_page_request, freed_page_request, is_address_mapped, page_align_range,
    query_address_ownership, PageOwnership, PageTableRequest, PtError,
};
use patina_mm::supervisor::paging_allocator::{
    PagingAllocError, PagingPoolAllocator, DEFAULT_PAGING_POOL_PAGES,
};
use patina_mm::supervisor::pool_allocator::{PoolAllocator, PoolBlock};

fn smram_hob(name: u128, regions: &[(u64, u64, u64)]) -> Hob {
    let mut data: Vec<u8> = Vec::new();
    data.extend((regions.len() as u32).to_le_bytes());
    data.extend(0u32.to_le_bytes());
    for (start, size, state) in regions {
        for field in [start, start, size, state] {
            data.extend(field.to_le_bytes());
        }
    }
    Hob::GuidHob { name, data }
}

/// Two regions: 16 free pages at 0x10_0000, of which the first is taken for the bitmaps, and 4
/// pages that are allocated at 0x20_0000.
fn pages() -> PageAllocator {
    let hobs = vec![
        Hob::Other,
        smram_hob(
            MM_PEI_MMRAM_MEMORY_RESERVE_GUID,
            &[(0x10_0000, 0x1_0000, 0), (0x20_0000, 0x4000, EFI_ALLOCATED)],
        ),
    ];
    assert!(check_smram_hobs(&hobs));
    let mut pages = PageAllocator::new();
    pages.init_from_hob_list(Some(&hobs)).unwrap();
    pages
}

// ---- Pages ----

#[test]
fn page_allocator_needs_smram() {
    let mut pages = PageAllocator::new();
    assert!(!pages.is_initialized());
    assert_eq!(pages.allocate_pages(1), Err(PageAllocError::NotInitialized));
    assert_eq!(pages.free_pages(0x1000, 1), Err(PageAllocError::NotInitialized));
    assert!(pages.init_from_hob_list(None).is_err());
}

#[test]
fn smram_pages_are_counted() {
    let hobs = vec![smram_hob(SMM_SMRAM_MEMORY_GUID, &[(0x10_0000, 0x1_0000, 0)])];
    assert_eq!(count_smram_pages(&hobs), 16);
    let pages = pages();
    assert!(pages.is_initialized());
    assert_eq!(pages.total_page_count(), 20);
    assert_eq!(pages.free_page_count(), 15);
    assert_eq!(pages.region_count(), 2);
}

#[test]
fn smram_regions_are_not_limited_in_number() {
    let regions: Vec<(u64, u64, u64)> =
        (0..300u64).map(|i| (0x10_0000 + i * 0x1_0000, 0x4000, 0)).collect();
    let hobs = vec![
        smram_hob(SMM_SMRAM_MEMORY_GUID, &regions[..200]),
        smram_hob(MM_PEI_MMRAM_MEMORY_RESERVE_GUID, &regions[200..]),
    ];
    assert_eq!(count_smram_pages(&hobs), 1200);
    let mut pages = PageAllocator::new();
    assert_eq!(pages.init_from_hob_list(Some(&hobs)), Ok(()));
    assert_eq!(pages.region_count(), 300);
    assert_eq!(pages.total_page_count(), 1200);
    // 300 region entries of 24 bytes and two bitmaps of 150 bytes take two pages.
    assert_eq!(pages.free_page_count(), 1198);
    assert!(pages.is_region_inside_mmram(0x10_0000 + 299 * 0x1_0000, 0x4000));
}

#[test]
fn regions_past_the_address_space_are_told() {
    assert!(pages().is_addressable());
    let hobs = vec![smram_hob(
        SMM_SMRAM_MEMORY_GUID,
        &[(0x10_0000, 0x1_0000, 0), (u64::MAX - 0xfff, 0x2000, EFI_ALLOCATED)],
    )];
    let mut pages = PageAllocator::new();
    assert_eq!(pages.init_from_hob_list(Some(&hobs)), Ok(()));
    assert!(!pages.is_addressable());
}

#[test]
fn pages_are_taken_from_the_first_run() {
    let mut pages = pages();
    assert_eq!(pages.allocate_pages(2), Ok(0x10_1000));
    assert_eq!(pages.allocate_pages_with_type(3, AllocationType::User), Ok(0x10_3000));
    assert_eq!(pages.get_allocation_type(0x10_3000), Some(AllocationType::User));
    assert_eq!(pages.get_allocation_type(0x10_1000), Some(AllocationType::Supervisor));
    assert_eq!(pages.get_allocation_type(0x10_6000), None);
    assert_eq!(pages.allocated_page_count(AllocationType::User), 3);
    assert_eq!(pages.allocate_pages(11), Err(PageAllocError::OutOfMemory));
    assert_eq!(pages.allocate_pages(0), Err(PageAllocError::OutOfMemory));
    let user = AllocationType::User;
    assert!(pages.free_pages_checked(0x10_1000, 2, user).is_err());
    assert_eq!(pages.free_pages(0x10_1000, 2), Ok(()));
    assert_eq!(pages.free_pages(0x10_1000, 2), Err(PageAllocError::NotAllocated));
    assert_eq!(pages.free_pages(0x10_1001, 1), Err(PageAllocError::NotAligned));
    assert_eq!(pages.free_pages(0x30_0000, 1), Err(PageAllocError::InvalidAddress));
    // What was freed can be allocated again.
    assert_eq!(pages.allocate_pages(1), Ok(0x10_1000));
    assert_eq!(pages.free_pages_checked(0x10_3000, 3, user), Ok(()));
    assert_eq!(pages.free_page_count(), 14);
}

#[test]
fn mmram_is_told_from_other_memory() {
    let pages = pages();
    assert!(pages.is_region_inside_mmram(0x10_0000, 0x1_0000));
    assert!(!pages.is_region_inside_mmram(0x10_0000, 0x1_0001));
    assert!(pages.is_region_overlapping_mmram(0x0f_f000, 0x1001));
    assert!(!pages.is_region_overlapping_mmram(0x0f_f000, 0x1000));
}

#[test]
fn pages_are_mapped_for_their_owner() {
    assert_eq!(
        data_page_request(0x1000, 2, AllocationType::User),
        PageTableRequest::MapRegion { address: 0x1000, size: 0x2000, attributes: 0x4000 }
    );
    assert_eq!(
        data_page_request(0x1000, 1, AllocationType::Supervisor),
        PageTableRequest::MapRegion { address: 0x1000, size: 0x1000, attributes: 0x4_4000 }
    );
    assert_eq!(
        freed_page_request(0x1000, 3),
        PageTableRequest::UnmapRegion { address: 0x1000, size: 0x3000 }
    );
    assert_eq!(page_align_range(0x1234, 0x1000), (0x1000, 0x2000));
    assert_eq!(query_address_ownership(Some(Ok(0x4_4000))), Some(PageOwnership::Supervisor));
    assert_eq!(query_address_ownership(Some(Ok(0x4000))), Some(PageOwnership::User));
    assert_eq!(query_address_ownership(Some(Err(PtError::NoMapping))), None);
    assert_eq!(is_address_mapped(Some(Ok(0))), Ok(true));
    assert_eq!(is_address_mapped(Some(Err(PtError::NoMapping))), Err(PtError::NoMapping));
    assert_eq!(is_address_mapped(None), Ok(false));
}

// ---- Pages for page tables ----

fn aligned_buffer(pages: usize) -> (Vec<u8>, u64) {
    let buffer = vec![0u8; pages * PAGE_SIZE];
    let base = buffer.as_ptr() as usize as u64;
    let aligned_base = (base + PAGE_BYTES - 1) & !(PAGE_BYTES - 1);
    (buffer, aligned_base)
}

#[test]
fn test_paging_allocator_not_initialized() {
    let allocator = PagingPoolAllocator::new();
    assert!(!allocator.is_initialized());
    assert_eq!(allocator.free_page_count(), 0);
    assert_eq!(allocator.allocated_page_count(), 0);
}

#[test]
fn test_paging_allocator_init() {
    let mut allocator = PagingPoolAllocator::new();
    let (_buffer, aligned_base) = aligned_buffer(16);

    assert!(allocator.init(aligned_base, 8).is_ok());

    assert!(allocator.is_initialized());
    assert_eq!(allocator.free_page_count(), 8);
    assert_eq!(allocator.allocated_page_count(), 0);
}

#[test]
fn test_paging_allocator_double_init() {
    let mut allocator = PagingPoolAllocator::new();
    let (_buffer, aligned_base) = aligned_buffer(16);

    assert!(allocator.init(aligned_base, 8).is_ok());
    assert_eq!(allocator.init(aligned_base, 8), Err(PagingAllocError::AlreadyInitialized));
}

#[test]
fn test_paging_allocator_allocate() {
    let mut allocator = PagingPoolAllocator::new();
    let (_buffer, aligned_base) = aligned_buffer(32);

    allocator.init(aligned_base, 16).unwrap();

    let result = allocator.allocate_page_internal(PAGE_SIZE as u64, PAGE_SIZE as u64, false);
    assert!(result.is_ok());
    let addr = result.unwrap();
    assert_eq!(addr, aligned_base);
    assert_eq!(allocator.allocated_page_count(), 1);

    let result2 = allocator.allocate_page_internal(PAGE_SIZE as u64, PAGE_SIZE as u64, false);
    assert!(result2.is_ok());
    let addr2 = result2.unwrap();
    assert_eq!(addr2, aligned_base + PAGE_SIZE as u64);
    assert_eq!(allocator.allocated_page_count(), 2);
}

#[test]
fn page_tables_are_allocated_within_the_pool() {
    let mut allocator = PagingPoolAllocator::new();
    assert_eq!(
        allocator.allocate_page_internal(0, 0, false),
        Err(PagingAllocError::NotInitialized)
    );
    assert_eq!(allocator.init(0x1000, 0), Err(PagingAllocError::PoolTooSmall));
    assert_eq!(allocator.init(0x1001, 1), Err(PagingAllocError::InvalidAlignment));
    allocator.init(0x1000, 4).unwrap();
    assert_eq!((allocator.pool_base(), allocator.pool_size()), (0x1000, 0x4000));
    assert_eq!(allocator.allocate_page_internal(0x2000, 1, true), Ok(0x2000));
    assert_eq!(
        allocator.allocate_page_internal(0x3000, 1, true),
        Err(PagingAllocError::InvalidAlignment)
    );
    assert_eq!(
        allocator.allocate_page_internal(1, 0x3000, false),
        Err(PagingAllocError::OutOfMemory)
    );
    assert_eq!(PagingAllocError::OutOfMemory.to_pt_error(), PtError::OutOfResources);
}

#[test]
fn paging_pool_is_reserved() {
    let mut pages = pages();
    let mut paging = PagingPoolAllocator::new();
    assert_eq!(
        reserve_paging_pool(&mut pages, &mut paging),
        Err(PageAllocError::OutOfMemory)
    );
    let hobs = vec![smram_hob(SMM_SMRAM_MEMORY_GUID, &[(0x10_0000, 0x10_0000, 0)])];
    let mut larger = PageAllocator::new();
    larger.init_from_hob_list(Some(&hobs)).unwrap();
    assert_eq!(reserve_paging_pool(&mut larger, &mut paging), Ok(Ok(())));
    assert_eq!(paging.pool_base(), 0x10_1000);
    assert_eq!(paging.free_page_count(), DEFAULT_PAGING_POOL_PAGES);
    assert_eq!(larger.free_page_count(), 255 - DEFAULT_PAGING_POOL_PAGES);
}

// ---- Pools ----

#[test]
fn pool_blocks_are_filled_and_given_back() {
    let mut pages = pages();
    let mut pool = PoolAllocator::new();
    assert_eq!(pool.allocate(&mut pages, 100, 8), Some(0x10_1000));
    assert_eq!(pool.allocate(&mut pages, 8, 64), Some(0x10_1080));
    assert_eq!(pages.free_page_count(), 14);
    assert_eq!(pool.allocate(&mut pages, 0x2000, 8), Some(0x10_2000));
    assert_eq!(pages.free_page_count(), 12);
    pool.dealloc(&mut pages, 0x10_2000);
    assert_eq!(pages.free_page_count(), 14);
    pool.dealloc(&mut pages, 0x10_1000);
    assert_eq!(pages.free_page_count(), 14);
    pool.dealloc(&mut pages, 0x10_1080);
    assert_eq!(pages.free_page_count(), 15);
    assert_eq!(pool.allocate(&mut pages, 0x10_0000, 8), None);
}

#[test]
fn pool_blocks_hand_out_their_room() {
    let mut block = PoolBlock::new();
    assert!(!block.is_valid());
    block = PoolBlock { base: 0x1000, num_pages: 1, offset: 0, alloc_count: 0 };
    assert_eq!((block.capacity(), block.remaining()), (4096, 4096));
    assert_eq!(block.try_alloc(4000, 16), Some(0x1000));
    assert_eq!(block.try_alloc(100, 16), None);
    assert!(!block.is_empty());
    block.record_dealloc();
    assert!(block.is_empty());
}

/// Pages from 0x4000_0000 on.
struct Backend {
    ready: bool,
    next: u64,
    freed: Vec<(u64, usize)>,
}

impl PageAllocatorBackend for Backend {
    fn allocate_pages(&mut self, num_pages: usize) -> Result<u64, mm_alloc::PageAllocError> {
        let base = self.next;
        self.next += (num_pages * mm_alloc::PAGE_SIZE) as u64;
        Ok(base)
    }

    fn free_pages(&mut self, addr: u64, n: usize) -> Result<(), mm_alloc::PageAllocError> {
        self.freed.push((addr, n));
        Ok(())
    }

    fn is_initialized(&self) -> bool {
        self.ready
    }
}

#[test]
fn pool_on_a_backend() {
    let backend = Backend { ready: true, next: 0x4000_0000, freed: Vec::new() };
    let mut pool = mm_alloc::PoolAllocator::new(backend);
    // The first bytes of a block are its header.
    assert_eq!(pool.allocate(100, 8), Some(0x4000_0020));
    assert_eq!(pool.allocate(16, 64), Some(0x4000_00C0));
    assert_eq!(pool.allocate(4096, 8), Some(0x4000_1020));
    assert_eq!(pool.release(0x4000_1020), Some((0x4000_1000, 2)));
    assert_eq!(pool.release(0x4000_0020), None);
    pool.dealloc(0x4000_00C0);
    let unready = Backend { ready: false, next: 0, freed: Vec::new() };
    assert_eq!(mm_alloc::PoolAllocator::new(unready).allocate(8, 8), None);
    assert_eq!(mm_alloc::PoolAllocator::<Backend>::pages_for(4096 - 32), 1);
    assert_eq!(mm_alloc::PoolAllocator::<Backend>::pages_for(4096 - 31), 2);
}
