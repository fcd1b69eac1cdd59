//! Page and pool allocators of the supervisor.
//!
//! # Page allocator
//!
//! The page allocator hands out whole pages of SMRAM. It learns of the SMRAM regions from
//! the hand-off blocks. Regions that come in as allocated are marked so; all other pages
//! are free, but for those that the bookkeeping of the allocator takes up. A bitmap notes
//! for each page whether it is allocated, a second one whether it was allocated for the
//! user.
//!
//! # Pool allocator
//!
//! Built on top of the page allocator, the pool allocator subdivides pages for smaller
//! allocations and takes more pages as it needs them.

use crate::bytes::{le32, le64, read_u32, read_u64};
use crate::efi::Guid;
use crate::hob::Hob;
use vstd::prelude::*;

verus! {

// ============================================================================
// Constants
// ============================================================================

/// Standard UEFI page size (4 KB).
pub const PAGE_SIZE: usize = 4096;

/// [`PAGE_SIZE`] as an address distance.
pub const PAGE_BYTES: u64 = 4096;

/// Maximum number of pool page blocks that are tracked.
pub const MAX_POOL_BLOCKS: usize = 64;

/// `EFI_ALLOCATED` bit in the state of a region.
pub const EFI_ALLOCATED: u64 = 0x10;

/// `gEfiSmmSmramMemoryGuid`, {6dadf1d1-d4cc-4910-bb6e-82b1fd80ff3d}.
pub const SMM_SMRAM_MEMORY_GUID: Guid = 0x3dff80fdb1826ebb4910d4cc6dadf1d1;

/// `gEfiMmPeiMmramMemoryReserveGuid`, {0703f912-bf8d-4e2a-be07-ab272525c592}.
pub const MM_PEI_MMRAM_MEMORY_RESERVE_GUID: Guid = 0x92c5252527ab07be4e2abf8d0703f912;

/// Type of memory allocation: supervisor-internal or for the user.
#[derive(Debug, Clone, Copy, PartialEq, Eq, Structural)]
pub enum AllocationType {
    /// Supervisor-internal allocation.
    Supervisor,
    /// User or driver allocation.
    User,
}

/// Errors that can occur during page allocation.
#[derive(Debug, Clone, Copy, PartialEq, Eq, Structural)]
pub enum PageAllocError {
    /// The allocator has not been initialized.
    NotInitialized,
    /// No free pages available to satisfy the request.
    OutOfMemory,
    /// The requested address is not aligned to a page boundary.
    NotAligned,
    /// The address is not within any known SMRAM region.
    InvalidAddress,
    /// The address was not previously allocated.
    NotAllocated,
    /// Too many regions to track.
    TooManyRegions,
}

// ============================================================================
// Bitmaps
// ============================================================================

/// Bit `i` of a byte.
pub open spec fn bit_of(byte: u8, i: int) -> bool {
    (byte >> (i as u8)) & 1u8 == 1u8
}

/// Bit `i` of a bitmap: bit `i % 8` of byte `i / 8`.
pub open spec fn bitmap_bit(bitmap: Seq<u8>, i: int) -> bool {
    bit_of(bitmap[i / 8], i % 8)
}

/// How many bytes a bitmap of `bits` bits takes up.
pub open spec fn bitmap_bytes(bits: int) -> int {
    (bits + 7) / 8
}

proof fn lemma_bits(byte: u8, i: u8, j: u8)
    requires
        i < 8,
        j < 8,
    ensures
        bit_of(byte | (1u8 << i), j as int) == (bit_of(byte, j as int) || i == j),
        bit_of(byte & !(1u8 << i), j as int) == (bit_of(byte, j as int) && i != j),
        (byte & (1u8 << i) != 0) == bit_of(byte, i as int),
{
    assert(((byte | (1u8 << i)) >> j) & 1u8 == 1u8 <==> ((byte >> j) & 1u8 == 1u8 || i == j))
        by (bit_vector)
        requires
            i < 8,
            j < 8,
    ;
    assert(((byte & !(1u8 << i)) >> j) & 1u8 == 1u8 <==> ((byte >> j) & 1u8 == 1u8 && i != j))
        by (bit_vector)
        requires
            i < 8,
            j < 8,
    ;
    assert((byte & (1u8 << i) != 0) <==> ((byte >> i) & 1u8 == 1u8)) by (bit_vector)
        requires
            i < 8,
    ;
}

/// Reads bit `i` of a bitmap.
fn get_bit(bitmap: &Vec<u8>, i: usize) -> (r: bool)
    requires
        i < bitmap@.len() * 8,
    ensures
        r == bitmap_bit(bitmap@, i as int),
{
    let bit_offset: u8 = (i % 8) as u8;
    proof {
        lemma_bits(bitmap@[i as int / 8], bit_offset, bit_offset);
    }
    (bitmap[i / 8] & (1u8 << bit_offset)) != 0
}

/// Writes bit `i` of a bitmap.
fn put_bit(bitmap: &mut Vec<u8>, i: usize, value: bool)
    requires
        i < old(bitmap)@.len() * 8,
    ensures
        final(bitmap)@.len() == old(bitmap)@.len(),
        forall|j: int|
            0 <= j < old(bitmap)@.len() * 8 ==> #[trigger] bitmap_bit(final(bitmap)@, j) == if j
                == i {
                value
            } else {
                bitmap_bit(old(bitmap)@, j)
            },
{
    let byte_index: usize = i / 8;
    let bit_offset: u8 = (i % 8) as u8;
    let byte: u8 = bitmap[byte_index];
    let new_byte: u8 = if value {
        byte | (1u8 << bit_offset)
    } else {
        byte & !(1u8 << bit_offset)
    };
    let ghost before = bitmap@;
    bitmap.set(byte_index, new_byte);
    proof {
        assert forall|j: int| 0 <= j < before.len() * 8 implies #[trigger] bitmap_bit(bitmap@, j)
            == if j == i {
            value
        } else {
            bitmap_bit(before, j)
        } by {
            lemma_bits(byte, bit_offset, (j % 8) as u8);
        }
    }
}

/// Makes a bitmap of zeros.
fn zero_bitmap(bytes: usize) -> (r: Vec<u8>)
    ensures
        r@.len() == bytes,
        forall|j: int| 0 <= j < bytes * 8 ==> !#[trigger] bitmap_bit(r@, j),
{
    let mut bitmap: Vec<u8> = Vec::new();
    while bitmap.len() < bytes
        invariant
            bitmap.len() <= bytes,
            forall|j: int| 0 <= j < bitmap@.len() ==> bitmap@[j] == 0,
        decreases bytes - bitmap.len(),
    {
        bitmap.push(0);
    }
    proof {
        assert forall|j: int| 0 <= j < bytes * 8 implies !#[trigger] bitmap_bit(bitmap@, j) by {
            let k = (j % 8) as u8;
            assert((0u8 >> k) & 1u8 == 0u8) by (bit_vector);
        }
    }
    bitmap
}

// ============================================================================
// SMRAM descriptors
// ============================================================================

/// SMRAM descriptor, as `EFI_SMRAM_DESCRIPTOR` lays it out.
#[derive(Clone, Copy, Debug, PartialEq, Eq, Structural)]
pub struct SmramDescriptor {
    /// Physical start address of the SMRAM region.
    pub physical_start: u64,
    /// CPU start address (may differ from the physical one).
    pub cpu_start: u64,
    /// Size of the SMRAM region in bytes.
    pub physical_size: u64,
    /// Region state flags ([`EFI_ALLOCATED`] and others).
    pub region_state: u64,
}

/// Size in bytes of [`SmramDescriptor`].
pub const SMRAM_DESCRIPTOR_SIZE: usize = 32;

/// The head of an SMRAM reserve block, in front of its descriptors.
#[derive(Clone, Copy, Debug, PartialEq, Eq, Structural)]
pub struct SmramReserveHobData {
    /// Number of SMRAM descriptors that follow.
    pub number_of_smram_regions: u32,
    /// Reserved for alignment.
    pub reserved: u32,
}

/// Size in bytes of [`SmramReserveHobData`].
pub const SMRAM_RESERVE_SIZE: usize = 8;

/// The descriptor at byte `at` of `s`.
pub open spec fn smram_descriptor_at(s: Seq<u8>, at: int) -> SmramDescriptor {
    SmramDescriptor {
        physical_start: le64(s, at) as u64,
        cpu_start: le64(s, at + 8) as u64,
        physical_size: le64(s, at + 16) as u64,
        region_state: le64(s, at + 24) as u64,
    }
}

/// A block names SMRAM regions.
pub open spec fn is_smram_hob(hob: Hob) -> bool {
    hob matches Hob::GuidHob { name, data } && (name == SMM_SMRAM_MEMORY_GUID || name
        == MM_PEI_MMRAM_MEMORY_RESERVE_GUID) && data@.len() >= SMRAM_RESERVE_SIZE
}

/// How many SMRAM regions the data of a block names.
pub open spec fn smram_count(data: Seq<u8>) -> int {
    le32(data, 0)
}

/// The SMRAM regions that a block names.
pub open spec fn hob_descriptors(hob: Hob) -> Seq<SmramDescriptor> {
    match hob {
        Hob::GuidHob { name, data } => if is_smram_hob(hob) {
            Seq::new(
                smram_count(data@) as nat,
                |i: int|
                    smram_descriptor_at(data@, SMRAM_RESERVE_SIZE + i * SMRAM_DESCRIPTOR_SIZE),
            )
        } else {
            Seq::empty()
        },
        _ => Seq::empty(),
    }
}

/// The descriptors of a block that names SMRAM regions lie within its data.
pub open spec fn smram_hob_valid(hob: Hob) -> bool {
    is_smram_hob(hob) ==> (hob matches Hob::GuidHob { data, .. } && SMRAM_RESERVE_SIZE
        + smram_count(data@) * SMRAM_DESCRIPTOR_SIZE <= data@.len())
}

/// Every block that names SMRAM regions holds all their descriptors.
pub open spec fn smram_hobs_valid(hobs: Seq<Hob>) -> bool {
    forall|i: int| 0 <= i < hobs.len() ==> #[trigger] smram_hob_valid(hobs[i])
}

/// The SMRAM regions that the first `n` blocks name.
pub open spec fn smram_descriptors(hobs: Seq<Hob>, n: int) -> Seq<SmramDescriptor>
    decreases n,
{
    if n <= 0 {
        Seq::empty()
    } else {
        smram_descriptors(hobs, n - 1) + hob_descriptors(hobs[n - 1])
    }
}

/// The SMRAM regions of a hand-off block list: all that its blocks name, in order.
pub open spec fn smram_regions(hobs: Seq<Hob>) -> Seq<SmramDescriptor> {
    smram_descriptors(hobs, hobs.len() as int)
}

/// The region comes in as allocated.
pub open spec fn pre_allocated(d: SmramDescriptor) -> bool {
    d.region_state & EFI_ALLOCATED != 0
}

/// The whole pages in a region.
pub open spec fn pages_of(d: SmramDescriptor) -> int {
    d.physical_size as int / PAGE_SIZE as int
}

/// The pages of the first `n` regions together.
pub open spec fn page_total(ds: Seq<SmramDescriptor>, n: int) -> int
    decreases n,
{
    if n <= 0 {
        0
    } else {
        page_total(ds, n - 1) + pages_of(ds[n - 1])
    }
}

/// The first region, from index `from` on, that does not come in as allocated.
pub open spec fn first_free_region(ds: Seq<SmramDescriptor>, from: int) -> Option<SmramDescriptor>
    decreases ds.len() - from,
{
    if from >= ds.len() {
        None
    } else if !pre_allocated(ds[from]) {
        Some(ds[from])
    } else {
        first_free_region(ds, from + 1)
    }
}

/// The pages that the bookkeeping takes up: a header of 32 bytes, 24 bytes for each region,
/// and two bitmaps with a bit for each page.
pub open spec fn bookkeeping_pages(region_count: int, total_pages: int) -> int {
    (32 + region_count * 24 + bitmap_bytes(total_pages) * 2 + (PAGE_SIZE - 1)) / PAGE_SIZE as int
}

/// The pages of region `i`, from its first one on, that are allocated from the start: all of
/// a region that comes in as allocated, and those of the bookkeeping in a region at its base.
pub open spec fn marked_pages(
    ds: Seq<SmramDescriptor>,
    i: int,
    bookkeeping_base: u64,
    bookkeeping: int,
) -> int {
    if pre_allocated(ds[i]) {
        pages_of(ds[i])
    } else if ds[i].physical_start == bookkeeping_base {
        bookkeeping
    } else {
        0
    }
}

/// Bit `b` is marked from the start because of one of the first `n` regions.
pub open spec fn marked_at_start(
    ds: Seq<SmramDescriptor>,
    n: int,
    bookkeeping_base: u64,
    bookkeeping: int,
    b: int,
) -> bool {
    exists|i: int|
        0 <= i < n && #[trigger] page_total(ds, i) <= b < page_total(ds, i) + marked_pages(
            ds,
            i,
            bookkeeping_base,
            bookkeeping,
        )
}

/// Checks that every block that names SMRAM regions holds all their descriptors.
pub fn check_smram_hobs(hobs: &Vec<Hob>) -> (r: bool)
    ensures
        r == smram_hobs_valid(hobs@),
{
    let mut i: usize = 0;
    while i < hobs.len()
        invariant
            i <= hobs.len(),
            forall|j: int| 0 <= j < i ==> #[trigger] smram_hob_valid(hobs@[j]),
        decreases hobs.len() - i,
    {
        match &hobs[i] {
            Hob::GuidHob { name, data } => {
                if (*name == SMM_SMRAM_MEMORY_GUID || *name == MM_PEI_MMRAM_MEMORY_RESERVE_GUID)
                    && data.len() >= SMRAM_RESERVE_SIZE {
                    let count: u64 = read_u32(data.as_slice(), 0) as u64;
                    if 8 + count * 32 > data.len() as u64 {
                        assert(!smram_hob_valid(hobs@[i as int]));
                        return false;
                    }
                }
            },
            _ => {},
        }
        assert(smram_hob_valid(hobs@[i as int]));
        i = i + 1;
    }
    true
}

/// Collects the SMRAM regions of a hand-off block list.
fn collect_regions(hobs: &Vec<Hob>) -> (r: Vec<SmramDescriptor>)
    requires
        smram_hobs_valid(hobs@),
    ensures
        r@ == smram_regions(hobs@),
{
    let mut regions: Vec<SmramDescriptor> = Vec::new();
    let mut h: usize = 0;
    assert(regions@ =~= smram_descriptors(hobs@, 0));
    while h < hobs.len()
        invariant
            h <= hobs.len(),
            smram_hobs_valid(hobs@),
            regions@ == smram_descriptors(hobs@, h as int),
        decreases hobs.len() - h,
    {
        let ghost before = smram_descriptors(hobs@, h as int);
        let ghost of_hob = hob_descriptors(hobs@[h as int]);
        assert(smram_hob_valid(hobs@[h as int]));
        match &hobs[h] {
            Hob::GuidHob { name, data } => {
                if (*name == SMM_SMRAM_MEMORY_GUID || *name == MM_PEI_MMRAM_MEMORY_RESERVE_GUID)
                    && data.len() >= SMRAM_RESERVE_SIZE {
                    let bytes = data.as_slice();
                    let reserve = SmramReserveHobData {
                        number_of_smram_regions: read_u32(bytes, 0),
                        reserved: read_u32(bytes, 4),
                    };
                    let count: usize = reserve.number_of_smram_regions as usize;
                    let len: usize = bytes.len();
                    let mut i: usize = 0;
                    assert(before + of_hob.take(0) =~= before);
                    while i < count
                        invariant
                            i <= count,
                            len == bytes@.len(),
                            count == of_hob.len(),
                            8 + count * 32 <= len,
                            of_hob == Seq::new(
                                count as nat,
                                |j: int| smram_descriptor_at(bytes@, 8 + j * 32),
                            ),
                            regions@ == before + of_hob.take(i as int),
                        decreases count - i,
                    {
                        assert(8 + i * 32 + 32 <= len) by (nonlinear_arith)
                            requires
                                i < count,
                                8 + count * 32 <= len,
                        ;
                        let at: usize = 8 + i * 32;
                        regions.push(
                            SmramDescriptor {
                                physical_start: read_u64(bytes, at),
                                cpu_start: read_u64(bytes, at + 8),
                                physical_size: read_u64(bytes, at + 16),
                                region_state: read_u64(bytes, at + 24),
                            },
                        );
                        i = i + 1;
                        assert(before + of_hob.take(i as int) =~= (before + of_hob.take(
                            i - 1,
                        )).push(of_hob[i - 1]));
                    }
                    assert(of_hob.take(i as int) =~= of_hob);
                } else {
                    assert(before + of_hob =~= before);
                }
            },
            _ => {
                assert(before + of_hob =~= before);
            },
        }
        h = h + 1;
    }
    regions
}

// ============================================================================
// Page allocator
// ============================================================================

/// One SMRAM region of the allocator.
#[derive(Clone, Copy, Debug, PartialEq, Eq, Structural)]
pub struct RegionInfo {
    /// Base physical address of the region.
    pub base: u64,
    /// Total number of pages in this region.
    pub total_pages: usize,
    /// Index of the bit of its first page in the bitmaps.
    pub bitmap_start_bit: usize,
}

impl RegionInfo {
    /// The address one past the region.
    pub open spec fn end(self) -> int {
        self.base + self.total_pages * PAGE_SIZE
    }

    /// The region holds `addr`.
    pub open spec fn holds(self, addr: u64) -> bool {
        self.base <= addr < self.end()
    }
}

/// The pages of the first `n` regions together.
pub open spec fn region_pages(regions: Seq<RegionInfo>, n: int) -> int
    decreases n,
{
    if n <= 0 {
        0
    } else {
        region_pages(regions, n - 1) + regions[n - 1].total_pages
    }
}

/// The index of the first region, from `from` on, that holds `addr`.
pub open spec fn region_of(regions: Seq<RegionInfo>, addr: u64, from: int) -> Option<int>
    decreases regions.len() - from,
{
    if from >= regions.len() {
        None
    } else if regions[from].holds(addr) {
        Some(from)
    } else {
        region_of(regions, addr, from + 1)
    }
}

/// The regions that the descriptors give: their bits follow one another.
pub open spec fn region_infos(ds: Seq<SmramDescriptor>) -> Seq<RegionInfo> {
    Seq::new(
        ds.len(),
        |i: int|
            RegionInfo {
                base: ds[i].physical_start,
                total_pages: pages_of(ds[i]) as usize,
                bitmap_start_bit: page_total(ds, i) as usize,
            },
    )
}

/// Page-granularity allocator for SMRAM.
///
/// Every page of every region has a bit. The bits of one region follow those of the region
/// before it, so that bit and page number each other.
pub struct PageAllocator {
    /// Whether the allocator has been initialized.
    initialized: bool,
    /// The regions.
    regions: Vec<RegionInfo>,
    /// Total number of pages across all regions.
    total_pages: usize,
    /// Number of pages used for bookkeeping.
    bookkeeping_pages: usize,
    /// Base address of the bookkeeping memory.
    bookkeeping_base: u64,
    /// Which pages are allocated.
    alloc_bitmap: Vec<u8>,
    /// Which pages are allocated for the user.
    type_bitmap: Vec<u8>,
}

impl PageAllocator {
    /// The allocator has been initialized.
    pub closed spec fn ready(&self) -> bool {
        self.initialized
    }

    /// The regions.
    pub closed spec fn region_list(&self) -> Seq<RegionInfo> {
        self.regions@
    }

    /// The number of pages across all regions.
    pub closed spec fn page_count(&self) -> int {
        self.total_pages as int
    }

    /// Where the bookkeeping lies.
    pub closed spec fn bookkeeping(&self) -> (u64, int) {
        (self.bookkeeping_base, self.bookkeeping_pages as int)
    }

    /// The number of bits in each bitmap: one for each page, and up to a whole byte.
    pub open spec fn bit_count(&self) -> int {
        bitmap_bytes(self.page_count()) * 8
    }

    /// The page of bit `b` is allocated. There are no free pages past the bitmaps.
    pub closed spec fn allocated(&self, b: int) -> bool {
        b >= self.bit_count() || bitmap_bit(self.alloc_bitmap@, b)
    }

    /// For whom the page of bit `b` is allocated.
    pub closed spec fn owner(&self, b: int) -> AllocationType {
        if b < self.bit_count() && bitmap_bit(self.type_bitmap@, b) {
            AllocationType::User
        } else {
            AllocationType::Supervisor
        }
    }

    /// The regions lie next to each other in the bitmaps, the bitmaps have a bit for each
    /// page, and no free page has an owner other than the supervisor.
    pub closed spec fn wf(&self) -> bool {
        &&& self.total_pages <= usize::MAX / 2
        &&& self.total_pages == region_pages(self.regions@, self.regions@.len() as int)
        &&& forall|i: int|
            0 <= i < self.regions@.len() ==> (#[trigger] self.regions@[i]).bitmap_start_bit
                == region_pages(self.regions@, i)
        &&& self.alloc_bitmap@.len() == bitmap_bytes(self.total_pages as int)
        &&& self.type_bitmap@.len() == bitmap_bytes(self.total_pages as int)
        &&& forall|b: int|
            0 <= b < self.bit_count() && !bitmap_bit(
                self.alloc_bitmap@,
                b,
            ) ==> !#[trigger] bitmap_bit(self.type_bitmap@, b)
    }

    /// Every region ends within the address space.
    pub open spec fn addressable(&self) -> bool {
        forall|i: int|
            0 <= i < self.region_list().len() ==> (#[trigger] self.region_list()[i]).end()
                <= u64::MAX
    }

    /// Nothing but what the bitmaps say has changed.
    pub open spec fn same_layout(&self, other: &Self) -> bool {
        &&& self.ready() == other.ready()
        &&& self.region_list() == other.region_list()
        &&& self.page_count() == other.page_count()
        &&& self.bookkeeping() == other.bookkeeping()
    }

    /// `n` pages from page `p` of region `i` on are free.
    pub open spec fn run_free(&self, i: int, p: int, n: int) -> bool {
        &&& 0 <= p
        &&& p + n <= self.region_list()[i].total_pages
        &&& forall|b: int|
            self.region_list()[i].bitmap_start_bit + p <= b < self.region_list()[i].bitmap_start_bit
                + p + n ==> !#[trigger] self.allocated(b)
    }

    /// No region has a run of `n` free pages.
    pub open spec fn no_run(&self, n: int) -> bool {
        forall|i: int, p: int| 0 <= i < self.region_list().len() ==> !#[trigger] self.run_free(
            i,
            p,
            n,
        )
    }

    /// The first run of `n` free pages, in the order of the regions and then of the pages,
    /// is at page `p` of region `i`.
    pub open spec fn first_run(&self, i: int, p: int, n: int) -> bool {
        &&& 0 <= i < self.region_list().len()
        &&& self.run_free(i, p, n)
        &&& forall|q: int| q < p ==> !#[trigger] self.run_free(i, q, n)
        &&& forall|j: int, q: int| 0 <= j < i ==> !#[trigger] self.run_free(j, q, n)
    }

    /// `n` bits from `start` on have been marked as allocated for `alloc_type`, and no
    /// others have changed.
    pub open spec fn marks(
        &self,
        after: &Self,
        start: int,
        n: int,
        alloc_type: AllocationType,
    ) -> bool {
        &&& forall|b: int|
            0 <= b ==> #[trigger] after.allocated(b) == (self.allocated(b) || start <= b < start
                + n)
        &&& forall|b: int|
            0 <= b ==> #[trigger] after.owner(b) == (if start <= b < start + n && b
                < self.bit_count() {
                alloc_type
            } else {
                self.owner(b)
            })
    }

    /// `n` bits from `start` on have been marked as free, and no others have changed.
    pub open spec fn clears(&self, after: &Self, start: int, n: int) -> bool {
        &&& forall|b: int|
            0 <= b ==> #[trigger] after.allocated(b) == (self.allocated(b) && !(start <= b < start
                + n && b < self.bit_count()))
        &&& forall|b: int|
            0 <= b ==> #[trigger] after.owner(b) == (if start <= b < start + n {
                AllocationType::Supervisor
            } else {
                self.owner(b)
            })
    }

    /// An allocation of `n` pages that gives `addr`: those of the first run that is free. They
    /// are then allocated for `alloc_type`.
    pub open spec fn allocates(
        &self,
        after: &Self,
        n: int,
        alloc_type: AllocationType,
        addr: u64,
    ) -> bool {
        exists|i: int, p: int|
            #![trigger self.first_run(i, p, n)]
            self.first_run(i, p, n) && addr == self.region_list()[i].base + p * PAGE_SIZE
                && self.marks(
                after,
                self.region_list()[i].bitmap_start_bit + p,
                n,
                alloc_type,
            ) && after.held_for(self.region_list()[i].bitmap_start_bit + p, n, alloc_type)
    }

    /// `n` bits from `start` on are those of pages that are allocated for `alloc_type`.
    pub open spec fn held_for(&self, start: int, n: int, alloc_type: AllocationType) -> bool {
        forall|b: int|
            #![trigger self.allocated(b)]
            #![trigger self.owner(b)]
            start <= b < start + n ==> self.allocated(b) && b < self.bit_count() && self.owner(b)
                == alloc_type
    }

    /// The bit of the page at `addr`, in the first region that holds it.
    pub open spec fn bit_of_address(&self, addr: u64) -> Option<int> {
        match region_of(self.region_list(), addr, 0) {
            Some(i) => Some(
                self.region_list()[i].bitmap_start_bit + (addr - self.region_list()[i].base)
                    / PAGE_SIZE as int,
            ),
            None => None,
        }
    }

    /// Creates a new uninitialized page allocator.
    pub fn new() -> (r: Self)
        ensures
            r.wf(),
            !r.ready(),
            r.region_list() == Seq::<RegionInfo>::empty(),
            r.page_count() == 0,
            r.bookkeeping() == (0u64, 0int),
            forall|b: int| 0 <= b ==> #[trigger] r.allocated(b),
            forall|b: int| 0 <= b ==> #[trigger] r.owner(b) == AllocationType::Supervisor,
    {
        PageAllocator {
            initialized: false,
            regions: Vec::new(),
            total_pages: 0,
            bookkeeping_pages: 0,
            bookkeeping_base: 0,
            alloc_bitmap: Vec::new(),
            type_bitmap: Vec::new(),
        }
    }

    /// Calculates the number of pages needed for bookkeeping.
    fn calculate_bookkeeping_pages(region_count: usize, total_pages: usize) -> (r: usize)
        ensures
            r == bookkeeping_pages(region_count as int, total_pages as int),
    {
        let bitmap_bytes: u128 = (total_pages as u128 + 7) / 8;
        let total_bytes: u128 = 32 + region_count as u128 * 24 + bitmap_bytes * 2;
        ((total_bytes + PAGE_SIZE as u128 - 1) / PAGE_SIZE as u128) as usize
    }

    /// Checks if the page of a bit is allocated.
    fn is_bit_allocated(&self, bit_index: usize) -> (r: bool)
        requires
            self.wf(),
        ensures
            r == self.allocated(bit_index as int),
    {
        if bit_index / 8 >= self.alloc_bitmap.len() {
            return true;
        }
        get_bit(&self.alloc_bitmap, bit_index)
    }

    /// Gets the allocation type of the page of a bit.
    fn get_bit_type(&self, bit_index: usize) -> (r: AllocationType)
        requires
            self.wf(),
        ensures
            r == self.owner(bit_index as int),
    {
        if bit_index / 8 >= self.type_bitmap.len() {
            return AllocationType::Supervisor;
        }
        if get_bit(&self.type_bitmap, bit_index) {
            AllocationType::User
        } else {
            AllocationType::Supervisor
        }
    }

    /// Marks the page of a bit as allocated with the given type.
    fn set_bit_allocated(&mut self, bit_index: usize, alloc_type: AllocationType)
        requires
            old(self).wf(),
        ensures
            final(self).wf(),
            final(self).same_layout(old(self)),
            old(self).marks(final(self), bit_index as int, 1, alloc_type),
    {
        if bit_index / 8 < self.alloc_bitmap.len() {
            let user = match alloc_type {
                AllocationType::User => true,
                AllocationType::Supervisor => false,
            };
            put_bit(&mut self.alloc_bitmap, bit_index, true);
            put_bit(&mut self.type_bitmap, bit_index, user);
        }
    }

    /// Marks the page of a bit as free.
    fn set_bit_free(&mut self, bit_index: usize)
        requires
            old(self).wf(),
        ensures
            final(self).wf(),
            final(self).same_layout(old(self)),
            old(self).clears(final(self), bit_index as int, 1),
    {
        if bit_index / 8 < self.alloc_bitmap.len() {
            put_bit(&mut self.alloc_bitmap, bit_index, false);
            put_bit(&mut self.type_bitmap, bit_index, false);
        }
    }

    /// Marks the pages of a range of bits as allocated.
    fn mark_range(&mut self, start: usize, count: usize, alloc_type: AllocationType)
        requires
            old(self).wf(),
            start + count <= usize::MAX,
        ensures
            final(self).wf(),
            final(self).same_layout(old(self)),
            old(self).marks(final(self), start as int, count as int, alloc_type),
    {
        let ghost before = *self;
        let mut p: usize = 0;
        while p < count
            invariant
                p <= count,
                start + count <= usize::MAX,
                self.wf(),
                self.same_layout(&before),
                before.marks(self, start as int, p as int, alloc_type),
            decreases count - p,
        {
            let ghost prev = *self;
            self.set_bit_allocated(start + p, alloc_type);
            p = p + 1;
            proof {
                lemma_marks_step(&before, &prev, self, start as int, p - 1, alloc_type);
            }
        }
    }

    /// Marks the pages of a range of bits as free. Bits past the bitmaps stay as they are.
    fn clear_range(&mut self, start: usize, count: usize)
        requires
            old(self).wf(),
            start <= old(self).bit_count(),
        ensures
            final(self).wf(),
            final(self).same_layout(old(self)),
            old(self).clears(final(self), start as int, count as int),
    {
        let ghost before = *self;
        let bits: usize = self.alloc_bitmap.len() * 8;
        let mut p: usize = 0;
        while p < count && p < bits - start
            invariant
                p <= count,
                bits == before.bit_count(),
                start <= bits,
                self.wf(),
                self.same_layout(&before),
                before.clears(self, start as int, p as int),
            decreases count - p,
        {
            let ghost prev = *self;
            self.set_bit_free(start + p);
            p = p + 1;
            proof {
                lemma_clears_step(&before, &prev, self, start as int, p - 1);
            }
        }
    }

    /// Finds which region contains an address and returns its index and the page in it.
    fn find_region_for_address(&self, addr: u64) -> (r: Option<(usize, usize)>)
        requires
            self.wf(),
            self.addressable(),
        ensures
            match r {
                Some((i, page)) => region_of(self.region_list(), addr, 0) == Some(i as int) && i
                    < self.region_list().len() && self.region_list()[i as int].holds(addr) && page
                    == (addr - self.region_list()[i as int].base) / PAGE_SIZE as int && page
                    < self.region_list()[i as int].total_pages,
                None => region_of(self.region_list(), addr, 0) is None,
            },
    {
        let mut i: usize = 0;
        while i < self.regions.len()
            invariant
                i <= self.regions.len(),
                self.addressable(),
                region_of(self.regions@, addr, 0) == region_of(self.regions@, addr, i as int),
            decreases self.regions.len() - i,
        {
            let region = self.regions[i];
            assert(self.region_list()[i as int].end() <= u64::MAX);
            let region_end: u64 = region.base + region.total_pages as u64 * PAGE_BYTES;
            if addr >= region.base && addr < region_end {
                let page_in_region: usize = ((addr - region.base) / PAGE_BYTES) as usize;
                return Some((i, page_in_region));
            }
            i = i + 1;
        }
        None
    }

    /// The bit of the page at an address.
    fn find_bit(&self, addr: u64) -> (r: Option<usize>)
        requires
            self.wf(),
            self.addressable(),
        ensures
            match r {
                Some(b) => self.bit_of_address(addr) == Some(b as int) && b < self.page_count(),
                None => self.bit_of_address(addr) is None,
            },
    {
        match self.find_region_for_address(addr) {
            Some((i, page)) => {
                proof {
                    lemma_region_pages_bound(self.regions@, i as int);
                }
                Some(self.regions[i].bitmap_start_bit + page)
            },
            None => None,
        }
    }
}

proof fn lemma_marks_step(
    a: &PageAllocator,
    b: &PageAllocator,
    c: &PageAllocator,
    start: int,
    n: int,
    alloc_type: AllocationType,
)
    requires
        0 <= start,
        0 <= n,
        b.page_count() == a.page_count(),
        a.marks(b, start, n, alloc_type),
        b.marks(c, start + n, 1, alloc_type),
    ensures
        a.marks(c, start, n + 1, alloc_type),
{
}

proof fn lemma_clears_step(
    a: &PageAllocator,
    b: &PageAllocator,
    c: &PageAllocator,
    start: int,
    n: int,
)
    requires
        0 <= start,
        0 <= n,
        b.page_count() == a.page_count(),
        a.clears(b, start, n),
        b.clears(c, start + n, 1),
    ensures
        a.clears(c, start, n + 1),
{
}

/// A region's bits end at or before those of all regions.
proof fn lemma_region_pages_bound(regions: Seq<RegionInfo>, i: int)
    requires
        0 <= i < regions.len(),
    ensures
        0 <= region_pages(regions, i),
        region_pages(regions, i) + regions[i].total_pages <= region_pages(
            regions,
            regions.len() as int,
        ),
{
    lemma_region_pages_mono(regions, 0, i);
    lemma_region_pages_mono(regions, i + 1, regions.len() as int);
}

proof fn lemma_region_pages_mono(regions: Seq<RegionInfo>, i: int, j: int)
    requires
        0 <= i <= j <= regions.len(),
    ensures
        region_pages(regions, i) <= region_pages(regions, j),
    decreases j - i,
{
    if i < j {
        lemma_region_pages_mono(regions, i, j - 1);
    }
}

impl PageAllocator {
    /// The state that initialization from the regions `ds` gives, with the bookkeeping in
    /// `home`.
    pub open spec fn initialized_from(
        &self,
        ds: Seq<SmramDescriptor>,
        home: SmramDescriptor,
    ) -> bool {
        let n = ds.len() as int;
        let pages = bookkeeping_pages(n, page_total(ds, n));
        &&& self.ready()
        &&& self.region_list() == region_infos(ds)
        &&& self.page_count() == page_total(ds, n)
        &&& self.bookkeeping() == (home.physical_start, pages)
        &&& forall|b: int|
            0 <= b ==> #[trigger] self.allocated(b) == (b >= self.bit_count() || marked_at_start(
                ds,
                n,
                home.physical_start,
                pages,
                b,
            ))
        &&& forall|b: int| 0 <= b ==> #[trigger] self.owner(b) == AllocationType::Supervisor
    }

    /// Initializes the page allocator from the hand-off blocks.
    ///
    /// The regions and their pages are counted, the first region that is not allocated takes
    /// the bookkeeping, and the pages of allocated regions and of the bookkeeping are marked
    /// as allocated for the supervisor. Without any region, or without blocks, the allocator
    /// stays as it was; so it does without a region that has room for the bookkeeping.
    pub fn init_from_hob_list(&mut self, hob_list: Option<&Vec<Hob>>) -> (r: Result<
        (),
        PageAllocError,
    >)
        requires
            old(self).wf(),
            hob_list matches Some(hobs) ==> smram_hobs_valid(hobs@) && page_total(
                smram_regions(hobs@),
                smram_regions(hobs@).len() as int,
            ) <= usize::MAX / 2,
        ensures
            final(self).wf(),
            r is Err ==> *final(self) == *old(self),
            match hob_list {
                None => r == Err::<(), PageAllocError>(PageAllocError::NotInitialized),
                Some(hobs) => {
                    let ds = smram_regions(hobs@);
                    let n = ds.len() as int;
                    if n == 0 {
                        r == Err::<(), PageAllocError>(PageAllocError::NotInitialized)
                    } else {
                        match first_free_region(ds, 0) {
                            None => r == Err::<(), PageAllocError>(PageAllocError::OutOfMemory),
                            Some(home) => if bookkeeping_pages(n, page_total(ds, n)) * PAGE_SIZE
                                > home.physical_size {
                                r == Err::<(), PageAllocError>(PageAllocError::OutOfMemory)
                            } else {
                                r is Ok && final(self).initialized_from(ds, home)
                            },
                        }
                    }
                },
            },
    {
        let hobs = match hob_list {
            None => {
                return Err(PageAllocError::NotInitialized);
            },
            Some(hobs) => hobs,
        };
        let ds = collect_regions(hobs);
        let region_count: usize = ds.len();
        if region_count == 0 {
            return Err(PageAllocError::NotInitialized);
        }
        let ghost n = region_count as int;
        // First pass: count the pages, and find the first region for the bookkeeping.
        let mut total_pages: usize = 0;
        let mut home: Option<SmramDescriptor> = None;
        let mut regions: Vec<RegionInfo> = Vec::new();
        let mut i: usize = 0;
        while i < region_count
            invariant
                i <= region_count,
                region_count == ds@.len(),
                total_pages == page_total(ds@, i as int),
                page_total(ds@, region_count as int) <= usize::MAX / 2,
                regions@ == region_infos(ds@).take(i as int),
                match home {
                    Some(h) => first_free_region(ds@, 0) == Some(h),
                    None => first_free_region(ds@, 0) == first_free_region(ds@, i as int),
                },
            decreases region_count - i,
        {
            let descriptor = ds[i];
            proof {
                lemma_page_total_bound(ds@, i as int);
            }
            let pages: usize = (descriptor.physical_size / PAGE_BYTES) as usize;
            if home.is_none() && (descriptor.region_state & EFI_ALLOCATED) == 0 {
                home = Some(descriptor);
            }
            regions.push(
                RegionInfo {
                    base: descriptor.physical_start,
                    total_pages: pages,
                    bitmap_start_bit: total_pages,
                },
            );
            total_pages = total_pages + pages;
            i = i + 1;
            assert(regions@ =~= region_infos(ds@).take(i as int));
        }
        assert(regions@ =~= region_infos(ds@));
        let bookkeeping: usize = Self::calculate_bookkeeping_pages(region_count, total_pages);
        let home = match home {
            None => {
                return Err(PageAllocError::OutOfMemory);
            },
            Some(h) => h,
        };
        if bookkeeping as u128 * PAGE_SIZE as u128 > home.physical_size as u128 {
            return Err(PageAllocError::OutOfMemory);
        }
        proof {
            lemma_first_free_region(ds@, 0);
            lemma_regions_layout(ds@, n);
        }
        let bitmap_len: usize = (total_pages + 7) / 8;
        let mut next = PageAllocator {
            initialized: true,
            regions,
            total_pages,
            bookkeeping_pages: bookkeeping,
            bookkeeping_base: home.physical_start,
            alloc_bitmap: zero_bitmap(bitmap_len),
            type_bitmap: zero_bitmap(bitmap_len),
        };
        // Second pass: mark the allocated regions and the bookkeeping.
        let ghost layout = next;
        let mut i: usize = 0;
        while i < region_count
            invariant
                i <= region_count,
                region_count == ds@.len(),
                n == region_count,
                next.wf(),
                next.same_layout(&layout),
                layout.region_list() == region_infos(ds@),
                layout.page_count() == page_total(ds@, n),
                page_total(ds@, n) <= usize::MAX / 2,
                bookkeeping <= page_total(ds@, n),
                forall|b: int|
                    0 <= b ==> #[trigger] next.allocated(b) == (b >= next.bit_count()
                        || marked_at_start(
                        ds@,
                        i as int,
                        home.physical_start,
                        bookkeeping as int,
                        b,
                    )),
                forall|b: int| 0 <= b ==> #[trigger] next.owner(b) == AllocationType::Supervisor,
            decreases region_count - i,
        {
            let descriptor = ds[i];
            proof {
                lemma_page_total_bound(ds@, i as int);
            }
            let count: usize = if (descriptor.region_state & EFI_ALLOCATED) != 0 {
                (descriptor.physical_size / PAGE_BYTES) as usize
            } else if descriptor.physical_start == home.physical_start {
                bookkeeping
            } else {
                0
            };
            let start: usize = next.regions[i].bitmap_start_bit;
            let ghost before = next;
            next.mark_range(start, count, AllocationType::Supervisor);
            proof {
                assert forall|b: int| 0 <= b implies #[trigger] next.allocated(b) == (b
                    >= next.bit_count() || marked_at_start(
                    ds@,
                    i + 1,
                    home.physical_start,
                    bookkeeping as int,
                    b,
                )) by {
                    lemma_marked_step(ds@, i as int, home.physical_start, bookkeeping as int, b);
                    assert(before.allocated(b) == (b >= before.bit_count() || marked_at_start(
                        ds@,
                        i as int,
                        home.physical_start,
                        bookkeeping as int,
                        b,
                    )));
                }
                assert forall|b: int| 0 <= b implies #[trigger] next.owner(b)
                    == AllocationType::Supervisor by {
                    assert(before.owner(b) == AllocationType::Supervisor);
                }
            }
            i = i + 1;
        }
        *self = next;
        Ok(())
    }

    /// Finds the first run of free pages in a region.
    fn find_run(&self, region_index: usize, num_pages: usize) -> (r: Option<usize>)
        requires
            self.wf(),
            region_index < self.region_list().len(),
            num_pages > 0,
        ensures
            match r {
                Some(p) => self.run_free(region_index as int, p as int, num_pages as int)
                    && forall|q: int|
                    q < p ==> !#[trigger] self.run_free(region_index as int, q, num_pages as int),
                None => forall|q: int|
                    !#[trigger] self.run_free(region_index as int, q, num_pages as int),
            },
    {
        let region = self.regions[region_index];
        let ghost ri = region_index as int;
        let ghost n = num_pages as int;
        proof {
            lemma_region_pages_bound(self.regions@, ri);
        }
        let mut run_start: usize = 0;
        let mut run_length: usize = 0;
        let mut page: usize = 0;
        while page < region.total_pages
            invariant
                self.wf(),
                num_pages > 0,
                n == num_pages,
                ri == region_index,
                region_index < self.regions@.len(),
                region == self.regions@[ri],
                region.bitmap_start_bit + region.total_pages <= usize::MAX / 2,
                page <= region.total_pages,
                run_start + run_length == page,
                run_length < num_pages,
                forall|b: int|
                    region.bitmap_start_bit + run_start <= b < region.bitmap_start_bit + page
                        ==> !#[trigger] self.allocated(b),
                forall|q: int| q < run_start ==> !#[trigger] self.run_free(ri, q, n),
            decreases region.total_pages - page,
        {
            let bit_index: usize = region.bitmap_start_bit + page;
            if self.is_bit_allocated(bit_index) {
                proof {
                    assert forall|q: int| q < page + 1 implies !#[trigger] self.run_free(
                        ri,
                        q,
                        n,
                    ) by {
                        if q >= run_start && self.run_free(ri, q, n) {
                            assert(!self.allocated(bit_index as int));
                        }
                    }
                }
                run_start = page + 1;
                run_length = 0;
            } else {
                run_length = run_length + 1;
                if run_length == num_pages {
                    assert(self.run_free(ri, run_start as int, n));
                    return Some(run_start);
                }
            }
            page = page + 1;
        }
        assert forall|q: int| !#[trigger] self.run_free(ri, q, n) by {}
        None
    }

    /// Allocates contiguous pages from SMRAM for supervisor use.
    pub fn allocate_pages(&mut self, num_pages: usize) -> (r: Result<u64, PageAllocError>)
        requires
            old(self).wf(),
            old(self).addressable(),
        ensures
            final(self).wf(),
            final(self).same_layout(old(self)),
            r is Err ==> *final(self) == *old(self),
            match r {
                Ok(addr) => old(self).ready() && num_pages > 0 && old(self).allocates(
                    final(self),
                    num_pages as int,
                    AllocationType::Supervisor,
                    addr,
                ),
                Err(e) => if !old(self).ready() {
                    e == PageAllocError::NotInitialized
                } else {
                    e == PageAllocError::OutOfMemory && (num_pages == 0 || old(self).no_run(
                        num_pages as int,
                    ))
                },
            },
    {
        self.allocate_pages_with_type(num_pages, AllocationType::Supervisor)
    }

    /// Allocates contiguous pages from SMRAM with the specified allocation type: those of
    /// the first run that is long enough.
    /// [`data_page_request`](crate::supervisor::page_table::data_page_request) says how they
    /// are to be mapped.
    pub fn allocate_pages_with_type(
        &mut self,
        num_pages: usize,
        alloc_type: AllocationType,
    ) -> (r: Result<u64, PageAllocError>)
        requires
            old(self).wf(),
            old(self).addressable(),
        ensures
            final(self).wf(),
            final(self).same_layout(old(self)),
            r is Err ==> *final(self) == *old(self),
            match r {
                Ok(addr) => old(self).ready() && num_pages > 0 && old(self).allocates(
                    final(self),
                    num_pages as int,
                    alloc_type,
                    addr,
                ),
                Err(e) => if !old(self).ready() {
                    e == PageAllocError::NotInitialized
                } else {
                    e == PageAllocError::OutOfMemory && (num_pages == 0 || old(self).no_run(
                        num_pages as int,
                    ))
                },
            },
    {
        if !self.initialized {
            return Err(PageAllocError::NotInitialized);
        }
        if num_pages == 0 {
            return Err(PageAllocError::OutOfMemory);
        }
        let ghost before = *self;
        let ghost n = num_pages as int;
        let mut i: usize = 0;
        while i < self.regions.len()
            invariant
                i <= self.regions.len(),
                *self == before,
                before == *old(self),
                self.wf(),
                self.ready(),
                self.addressable(),
                n == num_pages,
                num_pages > 0,
                forall|j: int, q: int| 0 <= j < i ==> !#[trigger] self.run_free(j, q, n),
            decreases self.regions.len() - i,
        {
            match self.find_run(i, num_pages) {
                Some(run_start) => {
                    let region = self.regions[i];
                    proof {
                        lemma_region_pages_bound(self.regions@, i as int);
                        assert(self.region_list()[i as int].end() <= u64::MAX);
                        assert(before.first_run(i as int, run_start as int, n));
                    }
                    self.mark_range(region.bitmap_start_bit + run_start, num_pages, alloc_type);
                    proof {
                        let start = region.bitmap_start_bit + run_start;
                        assert forall|b: int| start <= b < start + n implies #[trigger]
                            self.allocated(b) && b < self.bit_count() && self.owner(b)
                            == alloc_type by {
                            assert(!before.allocated(b));
                        }
                    }
                    let addr: u64 = region.base + run_start as u64 * PAGE_BYTES;
                    return Ok(addr);
                },
                None => {},
            }
            i = i + 1;
        }
        Err(PageAllocError::OutOfMemory)
    }

    /// Some page of the range is free.
    pub open spec fn some_free(&self, start: int, n: int) -> bool {
        exists|b: int| start <= b < start + n && !#[trigger] self.allocated(b)
    }

    /// Frees previously allocated pages.
    /// [`freed_page_request`](crate::supervisor::page_table::freed_page_request) says what is
    /// to be unmapped.
    ///
    /// The pages are those of `num_pages` bits from that of `addr` on. Pages past the
    /// bitmaps count as allocated, and freeing them changes nothing.
    pub fn free_pages(&mut self, addr: u64, num_pages: usize) -> (r: Result<(), PageAllocError>)
        requires
            old(self).wf(),
            old(self).addressable(),
        ensures
            final(self).wf(),
            final(self).same_layout(old(self)),
            r is Err ==> *final(self) == *old(self),
            r == old(self).free_verdict(addr, num_pages as int),
            r is Ok ==> old(self).clears(
                final(self),
                old(self).bit_of_address(addr)->0,
                num_pages as int,
            ),
    {
        if !self.initialized {
            return Err(PageAllocError::NotInitialized);
        }
        if addr % PAGE_BYTES != 0 {
            return Err(PageAllocError::NotAligned);
        }
        let start: usize = match self.find_bit(addr) {
            Some(b) => b,
            None => {
                return Err(PageAllocError::InvalidAddress);
            },
        };
        let bits: usize = self.alloc_bitmap.len() * 8;
        let mut p: usize = 0;
        while p < num_pages && p < bits - start
            invariant
                p <= num_pages,
                self.wf(),
                *self == *old(self),
                bits == self.bit_count(),
                start <= bits,
                self.ready(),
                addr as int % PAGE_SIZE as int == 0,
                self.bit_of_address(addr) == Some(start as int),
                forall|b: int| start <= b < start + p ==> #[trigger] self.allocated(b),
            decreases num_pages - p,
        {
            if !self.is_bit_allocated(start + p) {
                assert(self.some_free(start as int, num_pages as int));
                return Err(PageAllocError::NotAllocated);
            }
            p = p + 1;
        }
        self.clear_range(start, num_pages);
        Ok(())
    }

    /// The answer to a request to free pages.
    pub open spec fn free_verdict(&self, addr: u64, n: int) -> Result<(), PageAllocError> {
        if !self.ready() {
            Err(PageAllocError::NotInitialized)
        } else if addr as int % PAGE_SIZE as int != 0 {
            Err(PageAllocError::NotAligned)
        } else {
            match self.bit_of_address(addr) {
                None => Err(PageAllocError::InvalidAddress),
                Some(start) => if self.some_free(start, n) {
                    Err(PageAllocError::NotAllocated)
                } else {
                    Ok(())
                },
            }
        }
    }

    /// What is wrong with freeing the page of bit `b` as one of `expected` type.
    pub open spec fn page_fault(&self, b: int, expected: AllocationType) -> Option<PageAllocError> {
        if !self.allocated(b) {
            Some(PageAllocError::NotAllocated)
        } else if self.owner(b) != expected {
            Some(PageAllocError::InvalidAddress)
        } else {
            None
        }
    }

    /// What is wrong with freeing pages as ones of `expected` type: the fault of the first
    /// page that has one.
    pub open spec fn range_fault(
        &self,
        start: int,
        n: int,
        expected: AllocationType,
    ) -> Option<PageAllocError>
        decreases n,
    {
        if n <= 0 {
            None
        } else if self.page_fault(start, expected) is Some {
            self.page_fault(start, expected)
        } else {
            self.range_fault(start + 1, n - 1, expected)
        }
    }

    /// The answer to a request to free pages of `expected` type.
    pub open spec fn free_checked_verdict(
        &self,
        addr: u64,
        n: int,
        expected: AllocationType,
    ) -> Result<(), PageAllocError> {
        if !self.ready() {
            Err(PageAllocError::NotInitialized)
        } else if addr as int % PAGE_SIZE as int != 0 {
            Err(PageAllocError::NotAligned)
        } else {
            match self.bit_of_address(addr) {
                None => Err(PageAllocError::InvalidAddress),
                Some(start) => match self.range_fault(start, n, expected) {
                    Some(e) => Err(e),
                    None => Ok(()),
                },
            }
        }
    }

    /// Frees previously allocated pages, verifying the allocation type matches.
    pub fn free_pages_checked(
        &mut self,
        addr: u64,
        num_pages: usize,
        expected_type: AllocationType,
    ) -> (r: Result<(), PageAllocError>)
        requires
            old(self).wf(),
            old(self).addressable(),
        ensures
            final(self).wf(),
            final(self).same_layout(old(self)),
            r is Err ==> *final(self) == *old(self),
            r == old(self).free_checked_verdict(addr, num_pages as int, expected_type),
            r is Ok ==> old(self).clears(
                final(self),
                old(self).bit_of_address(addr)->0,
                num_pages as int,
            ),
    {
        if !self.initialized {
            return Err(PageAllocError::NotInitialized);
        }
        if addr % PAGE_BYTES != 0 {
            return Err(PageAllocError::NotAligned);
        }
        let start: usize = match self.find_bit(addr) {
            Some(b) => b,
            None => {
                return Err(PageAllocError::InvalidAddress);
            },
        };
        let bits: usize = self.alloc_bitmap.len() * 8;
        let mut p: usize = 0;
        while p < num_pages && p < bits - start
            invariant
                p <= num_pages,
                self.wf(),
                *self == *old(self),
                bits == self.bit_count(),
                start <= bits,
                self.ready(),
                addr as int % PAGE_SIZE as int == 0,
                self.bit_of_address(addr) == Some(start as int),
                self.range_fault(start as int, num_pages as int, expected_type)
                    == self.range_fault(start + p, num_pages - p, expected_type),
            decreases num_pages - p,
        {
            let bit: usize = start + p;
            if !self.is_bit_allocated(bit) {
                return Err(PageAllocError::NotAllocated);
            }
            if self.get_bit_type(bit) != expected_type {
                return Err(PageAllocError::InvalidAddress);
            }
            p = p + 1;
        }
        proof {
            lemma_range_fault_past(self, start + p, num_pages - p, expected_type);
        }
        // What is left lies past the bitmaps, where every page is the supervisor's.
        if p < num_pages && expected_type != AllocationType::Supervisor {
            return Err(PageAllocError::InvalidAddress);
        }
        self.clear_range(start, num_pages);
        Ok(())
    }

    /// The number of free pages among the first `n`.
    pub open spec fn free_in(&self, n: int) -> int
        decreases n,
    {
        if n <= 0 {
            0
        } else {
            self.free_in(n - 1) + if self.allocated(n - 1) {
                0int
            } else {
                1
            }
        }
    }

    /// The number of pages among the first `n` that are allocated for `alloc_type`.
    pub open spec fn allocated_in(&self, alloc_type: AllocationType, n: int) -> int
        decreases n,
    {
        if n <= 0 {
            0
        } else {
            self.allocated_in(alloc_type, n - 1) + if self.allocated(n - 1) && self.owner(n - 1)
                == alloc_type {
                1int
            } else {
                0
            }
        }
    }

    /// Returns the total number of free pages across all regions.
    pub fn free_page_count(&self) -> (r: usize)
        requires
            self.wf(),
        ensures
            r == if self.ready() {
                self.free_in(self.page_count())
            } else {
                0
            },
    {
        if !self.initialized {
            return 0;
        }
        let mut free: usize = 0;
        let mut bit: usize = 0;
        while bit < self.total_pages
            invariant
                self.wf(),
                bit <= self.total_pages,
                free <= bit,
                free == self.free_in(bit as int),
            decreases self.total_pages - bit,
        {
            if !self.is_bit_allocated(bit) {
                free = free + 1;
            }
            bit = bit + 1;
        }
        free
    }

    /// Returns the number of pages allocated for a specific type.
    pub fn allocated_page_count(&self, alloc_type: AllocationType) -> (r: usize)
        requires
            self.wf(),
        ensures
            r == if self.ready() {
                self.allocated_in(alloc_type, self.page_count())
            } else {
                0
            },
    {
        if !self.initialized {
            return 0;
        }
        let mut count: usize = 0;
        let mut bit: usize = 0;
        while bit < self.total_pages
            invariant
                self.wf(),
                bit <= self.total_pages,
                count <= bit,
                count == self.allocated_in(alloc_type, bit as int),
            decreases self.total_pages - bit,
        {
            if self.is_bit_allocated(bit) && self.get_bit_type(bit) == alloc_type {
                count = count + 1;
            }
            bit = bit + 1;
        }
        count
    }

    /// Returns the allocation type for a given address.
    pub fn get_allocation_type(&self, addr: u64) -> (r: Option<AllocationType>)
        requires
            self.wf(),
            self.addressable(),
        ensures
            r == match self.bit_of_address(addr) {
                Some(b) => if self.ready() && self.allocated(b) {
                    Some(self.owner(b))
                } else {
                    None
                },
                None => None,
            },
    {
        if !self.initialized {
            return None;
        }
        match self.find_bit(addr) {
            Some(bit) => if self.is_bit_allocated(bit) {
                Some(self.get_bit_type(bit))
            } else {
                None
            },
            None => None,
        }
    }

    /// Returns whether the allocator has been initialized.
    pub fn is_initialized(&self) -> (r: bool)
        ensures
            r == self.ready(),
    {
        self.initialized
    }

    /// Returns the total number of pages across all regions.
    pub fn total_page_count(&self) -> (r: usize)
        ensures
            r == if self.ready() {
                self.page_count()
            } else {
                0
            },
    {
        if !self.initialized {
            return 0;
        }
        self.total_pages
    }

    /// Returns the number of regions.
    pub fn region_count(&self) -> (r: usize)
        ensures
            r == if self.ready() {
                self.region_list().len()
            } else {
                0
            },
    {
        if !self.initialized {
            return 0;
        }
        self.regions.len()
    }

    /// One region holds all of `size` bytes at `addr`.
    pub open spec fn inside_mmram(&self, addr: u64, size: u64) -> bool {
        self.ready() && exists|i: int|
            0 <= i < self.region_list().len() && (#[trigger] self.region_list()[i]).base <= addr
                && addr + size <= self.region_list()[i].end()
    }

    /// Checks whether one region holds all of a range of memory.
    pub fn is_region_inside_mmram(&self, addr: u64, size: u64) -> (r: bool)
        requires
            self.addressable(),
        ensures
            r == self.inside_mmram(addr, size),
    {
        if !self.initialized {
            return false;
        }
        let mut i: usize = 0;
        while i < self.regions.len()
            invariant
                i <= self.regions.len(),
                self.addressable(),
                self.ready(),
                forall|j: int|
                    0 <= j < i ==> !((#[trigger] self.region_list()[j]).base <= addr && addr + size
                        <= self.region_list()[j].end()),
            decreases self.regions.len() - i,
        {
            let region = self.regions[i];
            assert(self.region_list()[i as int] == region);
            let region_end: u64 = region.base + region.total_pages as u64 * PAGE_BYTES;
            if addr >= region.base && addr as u128 + size as u128 <= region_end as u128 {
                return true;
            }
            i = i + 1;
        }
        false
    }

    /// Some region shares a byte with `size` bytes at `addr`.
    pub open spec fn overlaps_mmram(&self, addr: u64, size: u64) -> bool {
        self.ready() && exists|i: int|
            0 <= i < self.region_list().len() && (#[trigger] self.region_list()[i]).base < addr
                + size && addr < self.region_list()[i].end()
    }

    /// Checks whether a range of memory shares a byte with some region.
    pub fn is_region_overlapping_mmram(&self, addr: u64, size: u64) -> (r: bool)
        requires
            self.addressable(),
        ensures
            r == self.overlaps_mmram(addr, size),
    {
        if !self.initialized {
            return false;
        }
        let mut i: usize = 0;
        while i < self.regions.len()
            invariant
                i <= self.regions.len(),
                self.addressable(),
                self.ready(),
                forall|j: int|
                    0 <= j < i ==> !((#[trigger] self.region_list()[j]).base < addr + size && addr
                        < self.region_list()[j].end()),
            decreases self.regions.len() - i,
        {
            let region = self.regions[i];
            assert(self.region_list()[i as int] == region);
            let region_end: u64 = region.base + region.total_pages as u64 * PAGE_BYTES;
            if (region.base as u128) < addr as u128 + size as u128 && addr < region_end {
                return true;
            }
            i = i + 1;
        }
        false
    }

    /// Checks that every region ends within the address space, so that pages can be allocated
    /// and looked up.
    pub fn is_addressable(&self) -> (r: bool)
        ensures
            r == self.addressable(),
    {
        let mut i: usize = 0;
        while i < self.regions.len()
            invariant
                i <= self.regions@.len(),
                forall|j: int|
                    0 <= j < i ==> (#[trigger] self.region_list()[j]).end() <= u64::MAX,
            decreases self.regions@.len() - i,
        {
            let region = self.regions[i];
            let end: u128 = region.base as u128 + region.total_pages as u128 * PAGE_SIZE as u128;
            if end > u64::MAX as u128 {
                assert(self.region_list()[i as int].end() > u64::MAX);
                return false;
            }
            i = i + 1;
        }
        true
    }
}

/// Counts the pages of the SMRAM regions of a hand-off block list.
pub fn count_smram_pages(hobs: &Vec<Hob>) -> (r: u128)
    requires
        smram_hobs_valid(hobs@),
    ensures
        r == page_total(smram_regions(hobs@), smram_regions(hobs@).len() as int),
{
    let ds = collect_regions(hobs);
    let mut total: u128 = 0;
    let mut i: usize = 0;
    while i < ds.len()
        invariant
            i <= ds.len(),
            total == page_total(ds@, i as int),
            total <= i * 0x10_0000_0000_0000,
        decreases ds.len() - i,
    {
        total = total + (ds[i].physical_size / PAGE_BYTES) as u128;
        i = i + 1;
    }
    total
}

proof fn lemma_page_total_bound(ds: Seq<SmramDescriptor>, i: int)
    requires
        0 <= i < ds.len(),
    ensures
        0 <= page_total(ds, i),
        page_total(ds, i) + pages_of(ds[i]) <= page_total(ds, ds.len() as int),
{
    lemma_page_total_mono(ds, 0, i);
    lemma_page_total_mono(ds, i + 1, ds.len() as int);
}

proof fn lemma_page_total_mono(ds: Seq<SmramDescriptor>, i: int, j: int)
    requires
        0 <= i <= j <= ds.len(),
    ensures
        page_total(ds, i) <= page_total(ds, j),
    decreases j - i,
{
    if i < j {
        lemma_page_total_mono(ds, i, j - 1);
    }
}

/// The first region for the bookkeeping is one of the regions.
proof fn lemma_first_free_region(ds: Seq<SmramDescriptor>, from: int)
    requires
        0 <= from <= ds.len(),
    ensures
        first_free_region(ds, from) matches Some(home) ==> pages_of(home) <= page_total(
            ds,
            ds.len() as int,
        ),
    decreases ds.len() - from,
{
    if from < ds.len() {
        if pre_allocated(ds[from]) {
            lemma_first_free_region(ds, from + 1);
        } else {
            lemma_page_total_bound(ds, from);
        }
    }
}

/// The regions made of descriptors have the pages of the descriptors.
proof fn lemma_regions_layout(ds: Seq<SmramDescriptor>, n: int)
    requires
        0 <= n <= ds.len(),
        page_total(ds, ds.len() as int) <= usize::MAX / 2,
    ensures
        region_pages(region_infos(ds), n) == page_total(ds, n),
        forall|i: int|
            0 <= i < n ==> (#[trigger] region_infos(ds)[i]).bitmap_start_bit == region_pages(
                region_infos(ds),
                i,
            ),
    decreases n,
{
    if n > 0 {
        lemma_regions_layout(ds, n - 1);
        lemma_page_total_bound(ds, n - 1);
    }
}

proof fn lemma_marked_step(
    ds: Seq<SmramDescriptor>,
    n: int,
    base: u64,
    bookkeeping: int,
    b: int,
)
    requires
        0 <= n < ds.len(),
    ensures
        marked_at_start(ds, n + 1, base, bookkeeping, b) == (marked_at_start(
            ds,
            n,
            base,
            bookkeeping,
            b,
        ) || page_total(ds, n) <= b < page_total(ds, n) + marked_pages(
            ds,
            n,
            base,
            bookkeeping,
        )),
{
    if marked_at_start(ds, n, base, bookkeeping, b) {
        let i = choose|i: int|
            0 <= i < n && #[trigger] page_total(ds, i) <= b < page_total(ds, i) + marked_pages(
                ds,
                i,
                base,
                bookkeeping,
            );
        assert(page_total(ds, i) <= b);
    }
}

/// Past the bitmaps every page is allocated for the supervisor.
proof fn lemma_range_fault_past(
    a: &PageAllocator,
    start: int,
    n: int,
    expected: AllocationType,
)
    requires
        start >= a.bit_count() || n <= 0,
    ensures
        a.range_fault(start, n, expected) == if n > 0 && expected != AllocationType::Supervisor {
            Some(PageAllocError::InvalidAddress)
        } else {
            None
        },
    decreases n,
{
    if n > 0 {
        lemma_range_fault_past(a, start + 1, n - 1, expected);
    }
}

// ============================================================================
// What holds of the page allocator
// ============================================================================

/// The regions start on page boundaries and no two of them share an address.
pub open spec fn regions_apart(regions: Seq<RegionInfo>) -> bool {
    &&& forall|i: int|
        0 <= i < regions.len() ==> (#[trigger] regions[i]).base as int % PAGE_SIZE as int == 0
    &&& forall|i: int, j: int|
        0 <= i < j < regions.len() ==> (#[trigger] regions[i]).end() <= (
        #[trigger] regions[j]).base || regions[j].end() <= regions[i].base
}

/// Among regions that are apart, an address is found in the region that holds it.
proof fn lemma_region_found(regions: Seq<RegionInfo>, addr: u64, from: int, i: int)
    requires
        regions_apart(regions),
        0 <= from <= i < regions.len(),
        regions[i].holds(addr),
    ensures
        region_of(regions, addr, from) == Some(i),
    decreases i - from,
{
    if from < i {
        assert(regions[from].end() <= regions[i].base || regions[i].end() <= regions[from].base);
        lemma_region_found(regions, addr, from + 1, i);
    }
}

proof fn lemma_no_range_fault(a: &PageAllocator, start: int, n: int, expected: AllocationType)
    requires
        a.held_for(start, n, expected),
    ensures
        a.range_fault(start, n, expected) is None,
    decreases n,
{
    if n > 0 {
        assert(a.allocated(start) && a.owner(start) == expected);
        lemma_no_range_fault(a, start + 1, n - 1, expected);
    }
}

/// Every page has the same state in both allocators.
pub open spec fn same_pages(a: &PageAllocator, b: &PageAllocator) -> bool {
    &&& forall|i: int| 0 <= i ==> #[trigger] b.allocated(i) == a.allocated(i)
    &&& forall|i: int| 0 <= i ==> #[trigger] b.owner(i) == a.owner(i)
}

/// Clearing the bits that have just been marked, all of them free before, leaves every page as
/// it was.
proof fn lemma_clears_undo_marks(
    before: &PageAllocator,
    held: &PageAllocator,
    after: &PageAllocator,
    start: int,
    n: int,
    alloc_type: AllocationType,
)
    requires
        before.wf(),
        0 <= start,
        held.bit_count() == before.bit_count(),
        forall|b: int| start <= b < start + n ==> !#[trigger] before.allocated(b),
        before.marks(held, start, n, alloc_type),
        held.clears(after, start, n),
    ensures
        same_pages(before, after),
{
    assert forall|b: int| 0 <= b implies #[trigger] after.allocated(b) == before.allocated(b) by {
        assert(held.allocated(b) == (before.allocated(b) || start <= b < start + n));
        if start <= b < start + n {
            assert(!before.allocated(b));
        }
    }
    assert forall|b: int| 0 <= b implies #[trigger] after.owner(b) == before.owner(b) by {
        if start <= b < start + n {
            assert(!before.allocated(b));
        } else {
            assert(held.owner(b) == before.owner(b));
        }
    }
}

/// The page at the address of a free run is that of the first bit of the run.
proof fn lemma_run_address(a: &PageAllocator, i: int, p: int, n: int, addr: u64)
    requires
        a.addressable(),
        regions_apart(a.region_list()),
        0 <= i < a.region_list().len(),
        n > 0,
        a.run_free(i, p, n),
        addr == a.region_list()[i].base + p * PAGE_SIZE,
    ensures
        a.bit_of_address(addr) == Some(a.region_list()[i].bitmap_start_bit + p),
        addr as int % PAGE_SIZE as int == 0,
{
    let region = a.region_list()[i];
    assert(region.end() <= u64::MAX);
    assert(region.holds(addr));
    lemma_region_found(a.region_list(), addr, 0, i);
    assert((addr - region.base) / PAGE_SIZE as int == p);
    assert(region.base as int % PAGE_SIZE as int == 0);
}

/// Pages that have been allocated can be freed, under their own type too, and that leaves
/// every page as it was before the allocation. The regions have to be apart and to start on
/// page boundaries.
pub proof fn law_allocate_then_free(
    before: &PageAllocator,
    held: &PageAllocator,
    after: &PageAllocator,
    n: int,
    alloc_type: AllocationType,
    addr: u64,
)
    requires
        before.wf(),
        before.ready(),
        before.addressable(),
        regions_apart(before.region_list()),
        n > 0,
        held.same_layout(before),
        before.allocates(held, n, alloc_type, addr),
    ensures
        held.free_verdict(addr, n) is Ok,
        held.free_checked_verdict(addr, n, alloc_type) is Ok,
        held.clears(after, held.bit_of_address(addr)->0, n) ==> same_pages(before, after),
{
    let (i, p) = choose|i: int, p: int|
        #![trigger before.first_run(i, p, n)]
        before.first_run(i, p, n) && addr == before.region_list()[i].base + p * PAGE_SIZE
            && before.marks(
            held,
            before.region_list()[i].bitmap_start_bit + p,
            n,
            alloc_type,
        ) && held.held_for(before.region_list()[i].bitmap_start_bit + p, n, alloc_type);
    let start = before.region_list()[i].bitmap_start_bit + p;
    lemma_run_address(before, i, p, n, addr);
    assert(held.bit_of_address(addr) == Some(start));
    lemma_no_range_fault(held, start, n, alloc_type);
    if held.clears(after, start, n) {
        lemma_clears_undo_marks(before, held, after, start, n, alloc_type);
    }
}

/// Two allocations, the second made while the first is held, share no memory.
pub proof fn law_allocations_apart(
    first: &PageAllocator,
    second: &PageAllocator,
    third: &PageAllocator,
    n1: int,
    n2: int,
    type1: AllocationType,
    type2: AllocationType,
    addr1: u64,
    addr2: u64,
)
    requires
        first.wf(),
        regions_apart(first.region_list()),
        n1 > 0,
        n2 > 0,
        second.same_layout(first),
        first.allocates(second, n1, type1, addr1),
        second.allocates(third, n2, type2, addr2),
    ensures
        addr1 + n1 * PAGE_SIZE <= addr2 || addr2 + n2 * PAGE_SIZE <= addr1,
{
    let (i1, p1) = choose|i: int, p: int|
        #![trigger first.first_run(i, p, n1)]
        first.first_run(i, p, n1) && addr1 == first.region_list()[i].base + p * PAGE_SIZE
            && first.marks(second, first.region_list()[i].bitmap_start_bit + p, n1, type1);
    let (i2, p2) = choose|i: int, p: int|
        #![trigger second.first_run(i, p, n2)]
        second.first_run(i, p, n2) && addr2 == second.region_list()[i].base + p * PAGE_SIZE
            && second.marks(third, second.region_list()[i].bitmap_start_bit + p, n2, type2);
    let r1 = first.region_list()[i1];
    let r2 = first.region_list()[i2];
    if i1 == i2 {
        if p1 < p2 + n2 && p2 < p1 + n1 {
            let p = if p1 < p2 {
                p2
            } else {
                p1
            };
            assert(second.allocated(r1.bitmap_start_bit + p));
            assert(!second.allocated(r2.bitmap_start_bit + p));
        }
    } else if i1 < i2 {
        assert(r1.end() <= r2.base || r2.end() <= r1.base);
    } else {
        assert(r2.end() <= r1.base || r1.end() <= r2.base);
    }
}

/// Every page is free, allocated for the supervisor, or allocated for the user.
pub proof fn law_page_counts_add_up(a: &PageAllocator, n: int)
    requires
        0 <= n,
    ensures
        a.free_in(n) + a.allocated_in(AllocationType::Supervisor, n) + a.allocated_in(
            AllocationType::User,
            n,
        ) == n,
    decreases n,
{
    if n > 0 {
        law_page_counts_add_up(a, n - 1);
    }
}

/// The bits of the pages of two regions are apart, and a page has a bit of its region.
proof fn lemma_region_bits(a: &PageAllocator, i: int, p: int, j: int, q: int)
    requires
        a.wf(),
        0 <= i < a.region_list().len(),
        0 <= j < a.region_list().len(),
        0 <= p < a.region_list()[i].total_pages,
        0 <= q < a.region_list()[j].total_pages,
    ensures
        a.region_list()[i].bitmap_start_bit + p < a.page_count(),
        a.region_list()[i].bitmap_start_bit + p == a.region_list()[j].bitmap_start_bit + q ==> i
            == j && p == q,
{
    let regions = a.regions@;
    lemma_region_pages_bound(regions, i);
    lemma_region_pages_bound(regions, j);
    if i < j {
        lemma_region_pages_mono(regions, i + 1, j);
    } else if j < i {
        lemma_region_pages_mono(regions, j + 1, i);
    }
}

proof fn lemma_region_of_holds(regions: Seq<RegionInfo>, addr: u64, from: int)
    requires
        0 <= from,
    ensures
        region_of(regions, addr, from) matches Some(i) ==> from <= i < regions.len()
            && regions[i].holds(addr),
    decreases regions.len() - from,
{
    if from < regions.len() && !regions[from].holds(addr) {
        lemma_region_of_holds(regions, addr, from + 1);
    }
}

/// Addresses from a page boundary on are in the same page if and only if they are as many whole
/// pages away from it.
proof fn lemma_same_page(base: int, x: int, y: int)
    requires
        base % 4096 == 0,
        base <= x,
        base <= y,
    ensures
        (x - base) / 4096 == (y - base) / 4096 <==> x / 4096 == y / 4096,
{
}

/// Addresses on different sides of a page boundary are in different pages.
proof fn lemma_pages_differ(base: int, pages: int, x: int, y: int)
    requires
        base % 4096 == 0,
        x < base + pages * 4096 <= y,
    ensures
        x / 4096 != y / 4096,
{
}

/// Addresses in two regions that are apart are in different pages.
proof fn lemma_regions_pages_differ(regions: Seq<RegionInfo>, i: int, j: int, x: u64, y: u64)
    requires
        regions_apart(regions),
        0 <= i < regions.len(),
        0 <= j < regions.len(),
        i != j,
        regions[i].holds(x),
        regions[j].holds(y),
    ensures
        x as int / 4096 != y as int / 4096,
{
    let (k, l) = if i < j {
        (i, j)
    } else {
        (j, i)
    };
    assert(regions[k].end() <= regions[l].base || regions[l].end() <= regions[k].base);
    assert(regions[i].base as int % 4096 == 0);
    assert(regions[j].base as int % 4096 == 0);
    if regions[i].end() <= regions[j].base {
        lemma_pages_differ(
            regions[i].base as int,
            regions[i].total_pages as int,
            x as int,
            y as int,
        );
    } else {
        lemma_pages_differ(
            regions[j].base as int,
            regions[j].total_pages as int,
            y as int,
            x as int,
        );
    }
}

/// Two pages have the same bit only if they are the same page: where the regions are apart, two
/// addresses in them have the same bit if and only if no page boundary parts them.
pub proof fn law_pages_have_bits_of_their_own(
    a: &PageAllocator,
    i: int,
    j: int,
    addr1: u64,
    addr2: u64,
)
    requires
        a.wf(),
        regions_apart(a.region_list()),
        0 <= i < a.region_list().len(),
        0 <= j < a.region_list().len(),
        a.region_list()[i].base <= addr1 < a.region_list()[i].base
            + a.region_list()[i].total_pages * PAGE_SIZE,
        a.region_list()[j].base <= addr2 < a.region_list()[j].base
            + a.region_list()[j].total_pages * PAGE_SIZE,
    ensures
        a.bit_of_address(addr1) is Some,
        a.bit_of_address(addr2) is Some,
        a.bit_of_address(addr1) == a.bit_of_address(addr2) <==> addr1 as int / 4096 == addr2 as int
            / 4096,
{
    let regions = a.region_list();
    lemma_region_found(regions, addr1, 0, i);
    lemma_region_found(regions, addr2, 0, j);
    let p1 = (addr1 - regions[i].base) / PAGE_SIZE as int;
    let p2 = (addr2 - regions[j].base) / PAGE_SIZE as int;
    lemma_region_bits(a, i, p1, j, p2);
    assert(regions[i].base as int % 4096 == 0);
    if i == j {
        lemma_same_page(regions[i].base as int, addr1 as int, addr2 as int);
    } else {
        lemma_regions_pages_differ(regions, i, j, addr1, addr2);
    }
}

/// The regions of one more block come behind those of the blocks before it, one for each
/// descriptor that a block of SMRAM regions says it holds, with the fields of the descriptor; and
/// other blocks name none.
pub proof fn law_regions_of_blocks(hobs: Seq<Hob>, hob: Hob)
    ensures
        smram_regions(Seq::<Hob>::empty()).len() == 0,
        ({
            let before = smram_regions(hobs);
            let after = smram_regions(hobs.push(hob));
            &&& after.len() >= before.len()
            &&& forall|i: int| 0 <= i < before.len() ==> #[trigger] after[i] == before[i]
            &&& match hob {
                Hob::GuidHob { name, data } => if (name == SMM_SMRAM_MEMORY_GUID || name
                    == MM_PEI_MMRAM_MEMORY_RESERVE_GUID) && data@.len() >= 8 {
                    &&& after.len() == before.len() + le32(data@, 0)
                    &&& forall|k: int|
                        #![trigger after[before.len() + k]]
                        0 <= k < le32(data@, 0) ==> {
                            let d = after[before.len() + k];
                            &&& d.physical_start == le64(data@, 8 + 32 * k) as u64
                            &&& d.cpu_start == le64(data@, 16 + 32 * k) as u64
                            &&& d.physical_size == le64(data@, 24 + 32 * k) as u64
                            &&& d.region_state == le64(data@, 32 + 32 * k) as u64
                        }
                } else {
                    after.len() == before.len()
                },
                _ => after.len() == before.len(),
            }
        }),
{
    lemma_descriptors_prefix(hobs, hobs.push(hob), hobs.len() as int);
    let before = smram_regions(hobs);
    let after = smram_regions(hobs.push(hob));
    assert(after == before + hob_descriptors(hob));
}

proof fn lemma_descriptors_prefix(a: Seq<Hob>, b: Seq<Hob>, n: int)
    requires
        0 <= n <= a.len(),
        n <= b.len(),
        forall|i: int| 0 <= i < n ==> a[i] == b[i],
    ensures
        smram_descriptors(a, n) == smram_descriptors(b, n),
    decreases n,
{
    if n > 0 {
        lemma_descriptors_prefix(a, b, n - 1);
    }
}

/// The bookkeeping goes into the first region that does not come in as allocated, and there is none
/// for it only where every region does. It takes up as many pages as its bytes need, and no more.
pub proof fn law_bookkeeping_home(ds: Seq<SmramDescriptor>)
    ensures
        match first_free_region(ds, 0) {
            Some(home) => exists|i: int|
                0 <= i < ds.len() && #[trigger] ds[i] == home && ds[i].region_state & EFI_ALLOCATED
                    == 0 && forall|j: int|
                    0 <= j < i ==> (#[trigger] ds[j]).region_state & EFI_ALLOCATED != 0,
            None => forall|i: int|
                0 <= i < ds.len() ==> (#[trigger] ds[i]).region_state & EFI_ALLOCATED != 0,
        },
        ({
            let total = page_total(ds, ds.len() as int);
            let bytes = 32 + 24 * ds.len() + 2 * ((total + 7) / 8);
            let pages = bookkeeping_pages(ds.len() as int, total);
            (pages - 1) * PAGE_SIZE < bytes <= pages * PAGE_SIZE
        }),
{
    lemma_first_free(ds, 0);
}

proof fn lemma_first_free(ds: Seq<SmramDescriptor>, from: int)
    requires
        0 <= from <= ds.len(),
    ensures
        match first_free_region(ds, from) {
            Some(home) => exists|i: int|
                from <= i < ds.len() && #[trigger] ds[i] == home && ds[i].region_state
                    & EFI_ALLOCATED == 0 && forall|j: int|
                    from <= j < i ==> (#[trigger] ds[j]).region_state & EFI_ALLOCATED != 0,
            None => forall|i: int|
                from <= i < ds.len() ==> (#[trigger] ds[i]).region_state & EFI_ALLOCATED != 0,
        },
    decreases ds.len() - from,
{
    if from < ds.len() {
        if ds[from].region_state & EFI_ALLOCATED == 0 {
            assert(ds[from] == first_free_region(ds, from)->0);
        } else {
            lemma_first_free(ds, from + 1);
        }
    }
}

/// The pages of the first `n` regions together are the whole pages of each, added up: one more
/// region adds the whole pages that its size has room for.
pub proof fn law_pages_add_up(ds: Seq<SmramDescriptor>, d: SmramDescriptor)
    ensures
        page_total(Seq::<SmramDescriptor>::empty(), 0) == 0,
        ({
            let before = page_total(ds, ds.len() as int);
            let after = page_total(ds.push(d), ds.len() as int + 1);
            (after - before) * PAGE_SIZE <= d.physical_size < (after - before + 1) * PAGE_SIZE
        }),
{
    lemma_page_total_prefix(ds, ds.push(d), ds.len() as int);
}

proof fn lemma_page_total_prefix(a: Seq<SmramDescriptor>, b: Seq<SmramDescriptor>, n: int)
    requires
        0 <= n <= a.len(),
        n <= b.len(),
        forall|i: int| 0 <= i < n ==> a[i] == b[i],
    ensures
        page_total(a, n) == page_total(b, n),
    decreases n,
{
    if n > 0 {
        lemma_page_total_prefix(a, b, n - 1);
    }
}

/// After initialization every page of a region that comes in with the allocated bit, whatever its
/// other bits, is allocated for the supervisor.
pub proof fn law_reserved_pages_at_start(
    a: &PageAllocator,
    ds: Seq<SmramDescriptor>,
    home: SmramDescriptor,
    i: int,
    p: int,
)
    requires
        page_total(ds, ds.len() as int) <= usize::MAX / 2,
        a.initialized_from(ds, home),
        0 <= i < ds.len(),
        ds[i].region_state & 0x10 != 0,
        0 <= p < ds[i].physical_size as int / 4096,
    ensures
        a.region_list()[i].base == ds[i].physical_start,
        a.region_list()[i].total_pages == ds[i].physical_size as int / 4096,
        a.allocated(a.region_list()[i].bitmap_start_bit + p),
        a.owner(a.region_list()[i].bitmap_start_bit + p) == AllocationType::Supervisor,
{
    let n = ds.len() as int;
    let pages = bookkeeping_pages(n, page_total(ds, n));
    lemma_page_total_bound(ds, i);
    let b = page_total(ds, i) + p;
    assert(page_total(ds, i) <= b < page_total(ds, i) + marked_pages(
        ds,
        i,
        home.physical_start,
        pages,
    ));
    assert(marked_at_start(ds, n, home.physical_start, pages, b));
}

/// Of the regions that do not come in as allocated, one at most starts at `start`.
pub open spec fn one_free_region_at(ds: Seq<SmramDescriptor>, start: u64) -> bool {
    forall|i: int, j: int|
        0 <= i < j < ds.len() && (#[trigger] ds[i]).physical_start == start && ds[i].region_state
            & EFI_ALLOCATED == 0 && (#[trigger] ds[j]).physical_start == start
            ==> ds[j].region_state & EFI_ALLOCATED != 0
}

/// After initialization the allocator has the regions with their whole pages. Of those without the
/// allocated bit only the pages of the bookkeeping are allocated, at the start of the region that
/// is its home; every other page is free. No other free region may start where the home does.
pub proof fn law_pages_at_start(
    a: &PageAllocator,
    ds: Seq<SmramDescriptor>,
    home: SmramDescriptor,
    i: int,
    p: int,
)
    requires
        page_total(ds, ds.len() as int) <= usize::MAX / 2,
        first_free_region(ds, 0) == Some(home),
        one_free_region_at(ds, home.physical_start),
        bookkeeping_pages(ds.len() as int, page_total(ds, ds.len() as int)) * PAGE_SIZE
            <= home.physical_size,
        a.initialized_from(ds, home),
        0 <= i < ds.len(),
        0 <= p < ds[i].physical_size as int / 4096,
    ensures
        a.ready(),
        a.region_list().len() == ds.len(),
        a.region_list()[i].base == ds[i].physical_start,
        a.region_list()[i].total_pages == ds[i].physical_size as int / 4096,
        a.bookkeeping().0 == home.physical_start,
        home.region_state & EFI_ALLOCATED == 0,
        ({
            let b = a.region_list()[i].bitmap_start_bit + p;
            &&& a.owner(b) == AllocationType::Supervisor
            &&& ds[i].region_state & EFI_ALLOCATED != 0 ==> a.allocated(b)
            &&& ds[i].region_state & EFI_ALLOCATED == 0 && ds[i].physical_start
                != home.physical_start ==> !a.allocated(b)
            &&& ds[i].region_state & EFI_ALLOCATED == 0 && ds[i].physical_start
                == home.physical_start ==> (a.allocated(b) <==> p < a.bookkeeping().1)
        }),
{
    let n = ds.len() as int;
    let pages = bookkeeping_pages(n, page_total(ds, n));
    lemma_first_free(ds, 0);
    let h = choose|h: int|
        0 <= h < ds.len() && #[trigger] ds[h] == home && ds[h].region_state & EFI_ALLOCATED == 0;
    lemma_page_total_bound(ds, i);
    let b = page_total(ds, i) + p;
    assert(b < a.bit_count());
    if marked_at_start(ds, n, home.physical_start, pages, b) {
        let j = choose|j: int|
            0 <= j < n && #[trigger] page_total(ds, j) <= b < page_total(ds, j) + marked_pages(
                ds,
                j,
                home.physical_start,
                pages,
            );
        lemma_page_total_bound(ds, j);
        if !pre_allocated(ds[j]) {
            assert(ds[j].physical_start == ds[h].physical_start);
            assert(j == h);
        }
        assert(marked_pages(ds, j, home.physical_start, pages) <= pages_of(ds[j]));
        if j < i {
            lemma_page_total_mono(ds, j + 1, i);
        } else if i < j {
            lemma_page_total_mono(ds, i + 1, j);
        }
        assert(j == i);
    } else {
        assert(!(page_total(ds, i) <= b < page_total(ds, i) + marked_pages(
            ds,
            i,
            home.physical_start,
            pages,
        )));
    }
}

/// The bit of an address is one of the `n` from that of page `p` of region `i` on if and only if
/// the address is in one of those pages.
proof fn lemma_bits_of_pages(a: &PageAllocator, i: int, p: int, n: int, q: u64, b: int)
    requires
        a.wf(),
        regions_apart(a.region_list()),
        0 <= i < a.region_list().len(),
        0 <= p,
        p + n <= a.region_list()[i].total_pages,
        a.bit_of_address(q) == Some(b),
    ensures
        0 <= b < a.page_count(),
        ({
            let r = a.region_list()[i];
            r.base + p * PAGE_SIZE <= q < r.base + (p + n) * PAGE_SIZE <==> r.bitmap_start_bit + p
                <= b < r.bitmap_start_bit + p + n
        }),
{
    let regions = a.region_list();
    let r = regions[i];
    lemma_region_of_holds(regions, q, 0);
    let j = region_of(regions, q, 0)->0;
    let pq = (q - regions[j].base) / PAGE_SIZE as int;
    assert(b == regions[j].bitmap_start_bit + pq);
    lemma_region_bits(a, j, pq, j, pq);
    if r.base + p * PAGE_SIZE <= q < r.base + (p + n) * PAGE_SIZE {
        assert(r.holds(q));
        lemma_region_found(regions, q, 0, i);
    } else if r.bitmap_start_bit + p <= b < r.bitmap_start_bit + p + n {
        lemma_region_bits(a, j, pq, i, b - r.bitmap_start_bit);
    }
}

/// An allocation gives whole pages of memory, all of them free before and held for their owner
/// after; every other page stays as it was. `addr` is where the memory begins, `q` any address in
/// the regions.
pub proof fn law_allocation_takes_free_pages(
    before: &PageAllocator,
    after: &PageAllocator,
    n: int,
    alloc_type: AllocationType,
    addr: u64,
    q: u64,
    b: int,
)
    requires
        before.wf(),
        before.addressable(),
        regions_apart(before.region_list()),
        n > 0,
        after.same_layout(before),
        before.allocates(after, n, alloc_type, addr),
        before.bit_of_address(q) == Some(b),
    ensures
        addr as int % PAGE_SIZE as int == 0,
        after.bit_of_address(q) == Some(b),
        addr <= q < addr + n * PAGE_SIZE ==> !before.allocated(b) && after.allocated(b)
            && after.owner(b) == alloc_type,
        !(addr <= q < addr + n * PAGE_SIZE) ==> after.allocated(b) == before.allocated(b)
            && after.owner(b) == before.owner(b),
{
    let (i, p) = choose|i: int, p: int|
        #![trigger before.first_run(i, p, n)]
        before.first_run(i, p, n) && addr == before.region_list()[i].base + p * PAGE_SIZE
            && before.marks(
            after,
            before.region_list()[i].bitmap_start_bit + p,
            n,
            alloc_type,
        ) && after.held_for(before.region_list()[i].bitmap_start_bit + p, n, alloc_type);
    lemma_run_address(before, i, p, n, addr);
    lemma_bits_of_pages(before, i, p, n, q, b);
    let start = before.region_list()[i].bitmap_start_bit + p;
    assert((p + n) * PAGE_SIZE == p * PAGE_SIZE + n * PAGE_SIZE);
    if start <= b < start + n {
        assert(!before.allocated(b));
    }
    assert(after.allocated(b) == (before.allocated(b) || start <= b < start + n));
}

/// The memory that an allocation gives lies within one region.
pub proof fn law_allocation_within_a_region(
    before: &PageAllocator,
    after: &PageAllocator,
    n: int,
    alloc_type: AllocationType,
    addr: u64,
)
    requires
        n > 0,
        before.allocates(after, n, alloc_type, addr),
    ensures
        exists|i: int|
            0 <= i < before.region_list().len() && (#[trigger] before.region_list()[i]).base
                <= addr && addr + n * PAGE_SIZE <= before.region_list()[i].base
                + before.region_list()[i].total_pages * PAGE_SIZE,
{
    let (i, p) = choose|i: int, p: int|
        #![trigger before.first_run(i, p, n)]
        before.first_run(i, p, n) && addr == before.region_list()[i].base + p * PAGE_SIZE;
    assert(before.region_list()[i].base <= addr);
}

/// Memory that comes in as allocated is not handed out: an allocation right after initialization
/// shares no byte with the whole pages of a region that has the allocated bit, nor with the
/// bookkeeping.
pub proof fn law_reserved_memory_is_not_handed_out(
    a: &PageAllocator,
    after: &PageAllocator,
    ds: Seq<SmramDescriptor>,
    home: SmramDescriptor,
    n: int,
    alloc_type: AllocationType,
    addr: u64,
    i: int,
)
    requires
        a.wf(),
        a.addressable(),
        regions_apart(a.region_list()),
        page_total(ds, ds.len() as int) <= usize::MAX / 2,
        first_free_region(ds, 0) == Some(home),
        one_free_region_at(ds, home.physical_start),
        bookkeeping_pages(ds.len() as int, page_total(ds, ds.len() as int)) * PAGE_SIZE
            <= home.physical_size,
        a.initialized_from(ds, home),
        n > 0,
        after.same_layout(a),
        a.allocates(after, n, alloc_type, addr),
        0 <= i < ds.len(),
    ensures
        ds[i].region_state & EFI_ALLOCATED != 0 ==> addr + n * PAGE_SIZE <= ds[i].physical_start
            || ds[i].physical_start + ds[i].physical_size as int / PAGE_SIZE as int * PAGE_SIZE
            <= addr,
        addr + n * PAGE_SIZE <= a.bookkeeping().0 || a.bookkeeping().0 + a.bookkeeping().1
            * PAGE_SIZE <= addr,
{
    lemma_first_free(ds, 0);
    let h = choose|h: int|
        0 <= h < ds.len() && #[trigger] ds[h] == home && ds[h].region_state & EFI_ALLOCATED == 0;
    lemma_run_misses_marked(a, after, ds, home, n, alloc_type, addr, h, a.bookkeeping().1);
    if ds[i].region_state & EFI_ALLOCATED != 0 {
        lemma_run_misses_marked(a, after, ds, home, n, alloc_type, addr, i, pages_of(ds[i]));
    }
}

/// An allocation shares no byte with the first `m` pages of region `i`, which are allocated.
proof fn lemma_run_misses_marked(
    a: &PageAllocator,
    after: &PageAllocator,
    ds: Seq<SmramDescriptor>,
    home: SmramDescriptor,
    n: int,
    alloc_type: AllocationType,
    addr: u64,
    i: int,
    m: int,
)
    requires
        a.wf(),
        a.addressable(),
        regions_apart(a.region_list()),
        page_total(ds, ds.len() as int) <= usize::MAX / 2,
        first_free_region(ds, 0) == Some(home),
        one_free_region_at(ds, home.physical_start),
        bookkeeping_pages(ds.len() as int, page_total(ds, ds.len() as int)) * PAGE_SIZE
            <= home.physical_size,
        a.initialized_from(ds, home),
        n > 0,
        after.same_layout(a),
        a.allocates(after, n, alloc_type, addr),
        0 <= i < ds.len(),
        m == marked_pages(
            ds,
            i,
            home.physical_start,
            bookkeeping_pages(ds.len() as int, page_total(ds, ds.len() as int)),
        ),
        m <= pages_of(ds[i]),
    ensures
        addr + n * PAGE_SIZE <= ds[i].physical_start || ds[i].physical_start + m * PAGE_SIZE
            <= addr,
{
    let r = a.region_list()[i];
    lemma_page_total_bound(ds, i);
    assert(r.base == ds[i].physical_start);
    assert(r.total_pages == pages_of(ds[i]));
    assert(r.end() <= u64::MAX);
    if addr < r.base + m * PAGE_SIZE && r.base < addr + n * PAGE_SIZE {
        let q: u64 = if addr < r.base {
            r.base
        } else {
            addr
        };
        assert(r.holds(q));
        lemma_region_found(a.region_list(), q, 0, i);
        let p = (q - r.base) / PAGE_SIZE as int;
        assert(0 <= p < m);
        law_pages_at_start(a, ds, home, i, p);
        law_allocation_takes_free_pages(
            a,
            after,
            n,
            alloc_type,
            addr,
            q,
            r.bitmap_start_bit + p,
        );
    }
}

/// Memory is handed out from the lowest place: where `n` pages from page `q` of region `j` on are
/// free, an allocation of `n` pages succeeds, with memory in that region at that page or before it,
/// or in a region before it.
pub proof fn law_allocation_is_first_fit(
    before: &PageAllocator,
    after: &PageAllocator,
    n: int,
    alloc_type: AllocationType,
    addr: u64,
    j: int,
    q: int,
)
    requires
        0 <= j < before.region_list().len(),
        0 <= q,
        q + n <= before.region_list()[j].total_pages,
        forall|b: int|
            before.region_list()[j].bitmap_start_bit + q <= b
                < before.region_list()[j].bitmap_start_bit + q + n ==> !#[trigger] before.allocated(
                b,
            ),
    ensures
        !before.no_run(n),
        before.allocates(after, n, alloc_type, addr) ==> exists|i: int, p: int|
            #![trigger before.run_free(i, p, n)]
            0 <= i <= j && 0 <= p && p + n <= before.region_list()[i].total_pages && (i == j ==> p
                <= q) && addr == before.region_list()[i].base + p * PAGE_SIZE,
{
    assert(before.run_free(j, q, n));
    if before.allocates(after, n, alloc_type, addr) {
        let (i, p) = choose|i: int, p: int|
            #![trigger before.first_run(i, p, n)]
            before.first_run(i, p, n) && addr == before.region_list()[i].base + p * PAGE_SIZE;
        assert(before.run_free(i, p, n));
    }
}

/// Memory is not handed out only where no region has enough free pages next to each other.
pub proof fn law_out_of_memory(before: &PageAllocator, n: int, j: int, q: int)
    requires
        before.no_run(n),
        0 <= j < before.region_list().len(),
        0 <= q,
        q + n <= before.region_list()[j].total_pages,
    ensures
        exists|b: int|
            before.region_list()[j].bitmap_start_bit + q <= b
                < before.region_list()[j].bitmap_start_bit + q + n && #[trigger] before.allocated(b),
{
    assert(!before.run_free(j, q, n));
}

/// Of the `n` pages from that of bit `start` on, the one of bit `k` is the first that is not
/// allocated for `expected`, for the reason `e`: it is free, or it belongs to another.
pub open spec fn stands_in_the_way(
    a: &PageAllocator,
    start: int,
    n: int,
    expected: AllocationType,
    k: int,
    e: PageAllocError,
) -> bool {
    &&& start <= k < start + n
    &&& forall|b: int|
        #![trigger a.allocated(b)]
        #![trigger a.owner(b)]
        start <= b < k ==> a.allocated(b) && a.owner(b) == expected
    &&& {
        ||| e == PageAllocError::NotAllocated && !a.allocated(k)
        ||| e == PageAllocError::InvalidAddress && a.allocated(k) && a.owner(k) != expected
    }
}

/// When pages can be freed: if and only if the address is that of a page in a region, and every
/// page from it on is allocated; with a type given, every one for that type. What stands in the way
/// is told, for a type by the first page that does.
pub proof fn law_free_verdict(a: &PageAllocator, addr: u64, n: int, expected: AllocationType)
    requires
        0 <= n,
    ensures
        !a.ready() ==> a.free_verdict(addr, n) == Err::<(), PageAllocError>(
            PageAllocError::NotInitialized,
        ) && a.free_checked_verdict(addr, n, expected) == Err::<(), PageAllocError>(
            PageAllocError::NotInitialized,
        ),
        a.ready() && addr as int % 4096 != 0 ==> a.free_verdict(addr, n) == Err::<
            (),
            PageAllocError,
        >(PageAllocError::NotAligned) && a.free_checked_verdict(addr, n, expected) == Err::<
            (),
            PageAllocError,
        >(PageAllocError::NotAligned),
        a.ready() && addr as int % 4096 == 0 && a.bit_of_address(addr) is None
            ==> a.free_verdict(addr, n) == Err::<(), PageAllocError>(PageAllocError::InvalidAddress)
            && a.free_checked_verdict(addr, n, expected) == Err::<(), PageAllocError>(
            PageAllocError::InvalidAddress,
        ),
        a.ready() && addr as int % 4096 == 0 && a.bit_of_address(addr) is Some ==> {
            let start = a.bit_of_address(addr)->0;
            &&& a.free_verdict(addr, n) is Ok <==> forall|b: int|
                start <= b < start + n ==> #[trigger] a.allocated(b)
            &&& a.free_verdict(addr, n) matches Err(e) ==> e == PageAllocError::NotAllocated
            &&& a.free_checked_verdict(addr, n, expected) is Ok <==> forall|b: int|
                #![trigger a.allocated(b)]
                #![trigger a.owner(b)]
                start <= b < start + n ==> a.allocated(b) && a.owner(b) == expected
            &&& a.free_checked_verdict(addr, n, expected) matches Err(e) ==> exists|k: int|
                stands_in_the_way(a, start, n, expected, k, e)
        },
{
    if a.ready() && addr as int % 4096 == 0 && a.bit_of_address(addr) is Some {
        let start = a.bit_of_address(addr)->0;
        if a.some_free(start, n) {
            let b = choose|b: int| start <= b < start + n && !#[trigger] a.allocated(b);
            assert(!a.allocated(b));
        }
        lemma_range_fault_first(a, start, n, expected);
        if a.range_fault(start, n, expected) is Some {
            let e = a.range_fault(start, n, expected)->0;
            let k = choose|k: int| stands_in_the_way(a, start, n, expected, k, e);
            assert(!(a.allocated(k) && a.owner(k) == expected));
        }
    }
}

proof fn lemma_range_fault_first(a: &PageAllocator, start: int, n: int, expected: AllocationType)
    requires
        0 <= n,
    ensures
        a.range_fault(start, n, expected) is None ==> forall|b: int|
            #![trigger a.allocated(b)]
            #![trigger a.owner(b)]
            start <= b < start + n ==> a.allocated(b) && a.owner(b) == expected,
        a.range_fault(start, n, expected) matches Some(e) ==> exists|k: int|
            stands_in_the_way(a, start, n, expected, k, e),
    decreases n,
{
    if n > 0 {
        let fault = a.page_fault(start, expected);
        if fault is Some {
            assert(stands_in_the_way(a, start, n, expected, start, fault->0));
        } else {
            assert(a.allocated(start) && a.owner(start) == expected);
            let next = start + 1;
            let left = n - 1;
            lemma_range_fault_first(a, next, left, expected);
            assert(a.range_fault(start, n, expected) == a.range_fault(next, left, expected));
            if a.range_fault(next, left, expected) is Some {
                let e = a.range_fault(next, left, expected)->0;
                let k = choose|k: int| stands_in_the_way(a, next, left, expected, k, e);
                assert forall|b: int|
                    #![trigger a.allocated(b)]
                    #![trigger a.owner(b)]
                    start <= b < k implies a.allocated(b) && a.owner(b) == expected by {
                    assert(b == start || next <= b < k);
                }
                assert(stands_in_the_way(a, start, n, expected, k, e));
            } else {
                assert forall|b: int|
                    #![trigger a.allocated(b)]
                    #![trigger a.owner(b)]
                    start <= b < start + n implies a.allocated(b) && a.owner(b) == expected by {
                    assert(b == start || next <= b < next + left);
                }
            }
        }
    }
}

/// The page of a page-aligned address in a region.
proof fn lemma_page_of_address(a: &PageAllocator, i: int, addr: u64) -> (p: int)
    requires
        regions_apart(a.region_list()),
        0 <= i < a.region_list().len(),
        a.region_list()[i].holds(addr),
        addr as int % PAGE_SIZE as int == 0,
    ensures
        addr == a.region_list()[i].base + p * PAGE_SIZE,
        a.bit_of_address(addr) == Some(a.region_list()[i].bitmap_start_bit + p),
        0 <= p,
{
    let region = a.region_list()[i];
    assert(region.base as int % PAGE_SIZE as int == 0);
    lemma_region_found(a.region_list(), addr, 0, i);
    (addr - region.base) / PAGE_SIZE as int
}

/// Clearing bits that are all marked makes their pages free.
proof fn lemma_cleared_bit(
    before: &PageAllocator,
    after: &PageAllocator,
    start: int,
    n: int,
    b: int,
)
    requires
        before.clears(after, start, n),
        !before.some_free(start, n),
        0 <= b < before.bit_count(),
    ensures
        start <= b < start + n ==> before.allocated(b) && !after.allocated(b) && after.owner(b)
            == AllocationType::Supervisor,
        !(start <= b < start + n) ==> after.allocated(b) == before.allocated(b) && after.owner(b)
            == before.owner(b),
{
    assert(after.allocated(b) == (before.allocated(b) && !(start <= b < start + n && b
        < before.bit_count())));
}

/// Freeing pages of a region makes them free, and leaves every other page as it was. `q` is any
/// address in the regions.
pub proof fn law_free_gives_pages_back(
    before: &PageAllocator,
    after: &PageAllocator,
    i: int,
    addr: u64,
    n: int,
    q: u64,
    b: int,
)
    requires
        before.wf(),
        before.addressable(),
        regions_apart(before.region_list()),
        0 <= i < before.region_list().len(),
        n > 0,
        before.region_list()[i].base <= addr,
        addr + n * PAGE_SIZE <= before.region_list()[i].base + before.region_list()[i].total_pages
            * PAGE_SIZE,
        after.same_layout(before),
        before.free_verdict(addr, n) is Ok,
        before.clears(after, before.bit_of_address(addr)->0, n),
        before.bit_of_address(q) == Some(b),
    ensures
        after.bit_of_address(q) == Some(b),
        addr <= q < addr + n * PAGE_SIZE ==> before.allocated(b) && !after.allocated(b)
            && after.owner(b) == AllocationType::Supervisor,
        !(addr <= q < addr + n * PAGE_SIZE) ==> after.allocated(b) == before.allocated(b)
            && after.owner(b) == before.owner(b),
{
    let p = lemma_page_of_address(before, i, addr);
    let start = before.region_list()[i].bitmap_start_bit + p;
    assert((p + n) * PAGE_SIZE == p * PAGE_SIZE + n * PAGE_SIZE);
    lemma_bits_of_pages(before, i, p, n, q, b);
    lemma_cleared_bit(before, after, start, n, b);
}

/// The pages go on to another state: pages are allocated, or others than the one of bit `b` are
/// freed, or nothing changes.
pub open spec fn page_step(before: &PageAllocator, after: &PageAllocator, b: int) -> bool {
    &&& after.wf()
    &&& after.same_layout(before)
    &&& {
        ||| exists|n: int, alloc_type: AllocationType, addr: u64|
            n > 0 && #[trigger] before.allocates(after, n, alloc_type, addr)
        ||| exists|start: int, n: int|
            #[trigger] before.clears(after, start, n) && !(start <= b < start + n)
        ||| same_pages(before, after)
    }
}

/// A page that is allocated stays so until it is freed, whatever else is allocated and freed; and
/// as long as it is, no allocation gives memory with it. So memory that comes in as allocated is
/// never handed out before it has been freed.
pub proof fn law_held_page_is_not_handed_out(
    states: Seq<PageAllocator>,
    q: u64,
    b: int,
    k: int,
    after: &PageAllocator,
    n: int,
    alloc_type: AllocationType,
    addr: u64,
)
    requires
        0 <= k < states.len(),
        states[0].wf(),
        states[0].addressable(),
        regions_apart(states[0].region_list()),
        states[0].bit_of_address(q) == Some(b),
        states[0].allocated(b),
        forall|j: int|
            0 <= j < states.len() - 1 ==> #[trigger] page_step(&states[j], &states[j + 1], b),
    ensures
        states[k].allocated(b),
        n > 0 && after.same_layout(&states[k]) && states[k].allocates(after, n, alloc_type, addr)
            ==> q < addr || addr + n * PAGE_SIZE <= q,
{
    lemma_held_through(states, q, b, k);
    if n > 0 && after.same_layout(&states[k]) && states[k].allocates(after, n, alloc_type, addr) {
        law_allocation_takes_free_pages(&states[k], after, n, alloc_type, addr, q, b);
    }
}

proof fn lemma_held_through(states: Seq<PageAllocator>, q: u64, b: int, k: int)
    requires
        0 <= k < states.len(),
        states[0].wf(),
        states[0].addressable(),
        regions_apart(states[0].region_list()),
        states[0].bit_of_address(q) == Some(b),
        states[0].allocated(b),
        forall|j: int|
            0 <= j < states.len() - 1 ==> #[trigger] page_step(&states[j], &states[j + 1], b),
    ensures
        states[k].wf(),
        states[k].same_layout(&states[0]),
        states[k].addressable(),
        regions_apart(states[k].region_list()),
        states[k].bit_of_address(q) == Some(b),
        states[k].allocated(b),
        0 <= b,
    decreases k,
{
    lemma_region_of_holds(states[0].region_list(), q, 0);
    if k > 0 {
        lemma_held_through(states, q, b, k - 1);
        let before = &states[k - 1];
        let after = &states[k];
        assert(page_step(&states[k - 1], &states[k - 1 + 1], b));
        lemma_step_keeps_page(before, after, b);
        assert forall|i: int| 0 <= i < after.region_list().len() implies (
        #[trigger] after.region_list()[i]).end() <= u64::MAX by {
            assert(before.region_list()[i].end() <= u64::MAX);
        }
    }
}

proof fn lemma_step_keeps_page(before: &PageAllocator, after: &PageAllocator, b: int)
    requires
        page_step(before, after, b),
        0 <= b,
        before.allocated(b),
    ensures
        after.allocated(b),
{
    if exists|n: int, alloc_type: AllocationType, addr: u64|
        n > 0 && #[trigger] before.allocates(after, n, alloc_type, addr) {
        let (n, alloc_type, addr) = choose|n: int, alloc_type: AllocationType, addr: u64|
            n > 0 && #[trigger] before.allocates(after, n, alloc_type, addr);
        let (i, p) = choose|i: int, p: int|
            #![trigger before.first_run(i, p, n)]
            before.first_run(i, p, n) && before.marks(
                after,
                before.region_list()[i].bitmap_start_bit + p,
                n,
                alloc_type,
            );
        assert(before.marks(after, before.region_list()[i].bitmap_start_bit + p, n, alloc_type));
    } else if exists|start: int, n: int|
        #[trigger] before.clears(after, start, n) && !(start <= b < start + n) {
        let (start, n) = choose|start: int, n: int|
            #[trigger] before.clears(after, start, n) && !(start <= b < start + n);
        assert(before.clears(after, start, n));
    }
}

/// The free pages that are counted are those that are free: as many as there are free pages among
/// the first `n`; and so for those that are allocated for an owner.
pub proof fn law_counts_are_exact(a: &PageAllocator, alloc_type: AllocationType, n: int)
    requires
        0 <= n,
    ensures
        ({
            let free = vstd::set_lib::set_int_range(0, n).filter(|b: int| !a.allocated(b));
            let held = vstd::set_lib::set_int_range(0, n).filter(
                |b: int| a.allocated(b) && a.owner(b) == alloc_type,
            );
            &&& a.free_in(n) == free.len()
            &&& a.allocated_in(alloc_type, n) == held.len()
        }),
    decreases n,
{
    let free = |b: int| !a.allocated(b);
    let held = |b: int| a.allocated(b) && a.owner(b) == alloc_type;
    let range = vstd::set_lib::set_int_range(0, n);
    vstd::set_lib::lemma_int_range(0, n);
    if n > 0 {
        law_counts_are_exact(a, alloc_type, n - 1);
        let fewer = vstd::set_lib::set_int_range(0, n - 1);
        vstd::set_lib::lemma_int_range(0, n - 1);
        fewer.lemma_len_filter(free);
        fewer.lemma_len_filter(held);
        if free(n - 1) {
            assert(range.filter(free) =~= fewer.filter(free).insert(n - 1));
        } else {
            assert(range.filter(free) =~= fewer.filter(free));
        }
        if held(n - 1) {
            assert(range.filter(held) =~= fewer.filter(held).insert(n - 1));
        } else {
            assert(range.filter(held) =~= fewer.filter(held));
        }
    } else {
        assert(range.filter(free) =~= Set::empty());
        assert(range.filter(held) =~= Set::empty());
    }
}

/// Memory inside MMRAM has all its bytes in one region, and any memory that has is inside; memory
/// that shares a byte with a region overlaps MMRAM, and memory overlaps MMRAM only where some
/// region shares a byte with it or is an empty one in its midst. Before initialization there is no
/// MMRAM.
pub proof fn law_mmram_bounds(a: &PageAllocator, addr: u64, size: u64, i: int, x: int)
    requires
        0 <= i < a.region_list().len(),
        addr <= x < addr + size,
    ensures
        !a.ready() ==> !a.inside_mmram(addr, size) && !a.overlaps_mmram(addr, size),
        ({
            let base = a.region_list()[i].base;
            let end = base + a.region_list()[i].total_pages * PAGE_SIZE;
            &&& a.ready() && base <= x < end ==> a.overlaps_mmram(addr, size)
            &&& a.ready() && base <= addr && addr + size <= end ==> a.inside_mmram(addr, size)
        }),
        a.inside_mmram(addr, size) ==> exists|j: int|
            0 <= j < a.region_list().len() && (#[trigger] a.region_list()[j]).base <= x
                < a.region_list()[j].base + a.region_list()[j].total_pages * PAGE_SIZE && a.region_list(
            )[j].base <= addr && addr + size <= a.region_list()[j].base
                + a.region_list()[j].total_pages * PAGE_SIZE,
        a.inside_mmram(addr, size) ==> a.overlaps_mmram(addr, size),
        a.overlaps_mmram(addr, size) ==> exists|j: int|
            0 <= j < a.region_list().len() && {
                let base = (#[trigger] a.region_list()[j]).base;
                let end = base + a.region_list()[j].total_pages * PAGE_SIZE;
                ||| base <= addr < end
                ||| addr < base < addr + size
            },
{
    if a.inside_mmram(addr, size) {
        let j = choose|j: int|
            0 <= j < a.region_list().len() && (#[trigger] a.region_list()[j]).base <= addr && addr
                + size <= a.region_list()[j].end();
        assert(a.region_list()[j].base <= x);
    }
    if a.overlaps_mmram(addr, size) {
        let j = choose|j: int|
            0 <= j < a.region_list().len() && (#[trigger] a.region_list()[j]).base < addr + size
                && addr < a.region_list()[j].end();
        assert(a.region_list()[j].base <= addr || addr < a.region_list()[j].base);
    }
}

/// A page is 4 KiB, and a region that comes in as allocated is told by the bit 0x10.
pub proof fn law_page_and_region_numbers()
    ensures
        PAGE_SIZE == 4 * 1024,
        PAGE_BYTES == PAGE_SIZE,
        EFI_ALLOCATED == 0x10,
        SMRAM_RESERVE_SIZE == 8,
        SMRAM_DESCRIPTOR_SIZE == 4 * 8,
{
}

/// What is said to keep the layout keeps whether the allocator is ready, its regions, the number of
/// its pages and where its bookkeeping is.
pub proof fn law_layout_stays(before: &PageAllocator, after: &PageAllocator)
    requires
        after.same_layout(before),
    ensures
        after.ready() == before.ready(),
        after.region_list() == before.region_list(),
        after.page_count() == before.page_count(),
        after.bookkeeping() == before.bookkeeping(),
{
}

/// After initialization the allocator counts the pages of all regions, and its bookkeeping starts
/// where its home does.
pub proof fn law_allocator_at_start(
    a: &PageAllocator,
    ds: Seq<SmramDescriptor>,
    home: SmramDescriptor,
)
    requires
        a.initialized_from(ds, home),
    ensures
        a.ready(),
        a.page_count() == page_total(ds, ds.len() as int),
        a.bookkeeping().0 == home.physical_start,
        a.bookkeeping().1 == bookkeeping_pages(
            ds.len() as int,
            page_total(ds, ds.len() as int),
        ),
{
}

} // verus!
