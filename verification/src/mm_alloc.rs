//! Pool allocator over a page allocation backend.
//!
//! The allocator requests whole pages from the backend and subdivides them by bump
//! allocation. Each block of pages starts with its own header, so that nothing bounds the
//! number of blocks. A block whose last allocation is released goes back to the backend.

use vstd::prelude::*;

verus! {

/// Standard UEFI page size (4 KB).
pub const PAGE_SIZE: usize = 4096;

/// Minimum allocation alignment of the pool allocator.
pub const MIN_POOL_ALLOC_SIZE: usize = 16;

/// Size in bytes of the header at the start of each block.
pub const BLOCK_HEADER_SIZE: usize = 32;

/// Errors that can occur during page allocation.
#[derive(Debug, Clone, Copy, PartialEq, Eq, Structural)]
pub enum PageAllocError {
    /// The allocator has not been initialized.
    NotInitialized,
    /// No free pages available to satisfy the request.
    OutOfMemory,
    /// The requested address is not aligned to a page boundary.
    NotAligned,
    /// The address is not within any known SMRAM region.
    InvalidAddress,
    /// The address was not previously allocated.
    NotAllocated,
    /// Too many regions to track.
    TooManyRegions,
    /// A syscall to the supervisor failed.
    SyscallFailed(u64),
}

/// Page-granularity memory allocation, which the core that uses the pool provides.
pub trait PageAllocatorBackend {
    /// Allocates `num_pages` contiguous pages, which lie within the address space, and
    /// returns the base address of the region.
    fn allocate_pages(&mut self, num_pages: usize) -> (r: Result<u64, PageAllocError>)
        ensures
            r matches Ok(addr) ==> addr + num_pages * PAGE_SIZE <= u64::MAX,
    ;

    /// Frees `num_pages` contiguous pages starting at `addr`.
    fn free_pages(&mut self, addr: u64, num_pages: usize) -> (r: Result<(), PageAllocError>);

    /// Returns whether the page allocator has been initialized and is ready for use.
    fn is_initialized(&self) -> (r: bool);
}

/// `n` is a power of two.
pub open spec fn is_power_of_two(n: int) -> bool
    decreases n,
{
    n == 1 || (n > 1 && n % 2 == 0 && is_power_of_two(n / 2))
}

/// The size and the alignment of an allocation make a layout: the alignment is a power of
/// two, and the size rounded up to it is not too large for an object.
pub open spec fn is_layout(size: usize, align: usize) -> bool {
    is_power_of_two(align as int) && size + align - 1 <= isize::MAX
}

/// The alignment that an allocation gets.
pub open spec fn pool_align(align: usize) -> int {
    if align < MIN_POOL_ALLOC_SIZE {
        MIN_POOL_ALLOC_SIZE as int
    } else {
        align as int
    }
}

/// The bytes from `at` to the next multiple of `align`.
pub open spec fn padding(at: int, align: int) -> int {
    if at % align == 0 {
        0
    } else {
        align - at % align
    }
}

/// The alignment that an allocation gets.
pub fn effective_align(align: usize) -> (r: usize)
    ensures
        r == pool_align(align),
{
    if align < MIN_POOL_ALLOC_SIZE {
        MIN_POOL_ALLOC_SIZE
    } else {
        align
    }
}

/// Adding the padding gives the first multiple of the alignment.
pub proof fn lemma_padding(at: int, align: int)
    requires
        0 <= at,
        0 < align,
    ensures
        0 <= padding(at, align) < align,
        (at + padding(at, align)) % align == 0,
{
    vstd::arithmetic::div_mod::lemma_fundamental_div_mod(at, align);
    let q = at / align;
    let m = at % align;
    if m != 0 {
        assert(at + padding(at, align) == align * (q + 1)) by (nonlinear_arith)
            requires
                at == align * q + m,
                padding(at, align) == align - m,
        ;
        vstd::arithmetic::div_mod::lemma_mod_multiples_basic(q + 1, align);
        assert(align * (q + 1) == (q + 1) * align) by (nonlinear_arith);
    }
}

/// A block of pages, as its header describes it.
#[derive(Debug, Clone, Copy, PartialEq, Eq, Structural)]
pub struct PoolBlockHeader {
    /// Base address of the block, where the header itself lies.
    pub base: u64,
    /// Number of pages backing this block (the header included).
    pub num_pages: usize,
    /// Current bump offset in bytes from the block base. Starts just past the header.
    pub offset: usize,
    /// Number of live allocations served from this block.
    pub alloc_count: usize,
}

impl PoolBlockHeader {
    /// The block lies within the address space, and its bump offset within the block.
    pub open spec fn wf(self) -> bool {
        &&& self.num_pages * PAGE_SIZE <= usize::MAX
        &&& self.base + self.num_pages * PAGE_SIZE <= u64::MAX
        &&& self.offset <= self.num_pages * PAGE_SIZE
    }

    /// The block holds the address.
    pub open spec fn holds(self, addr: u64) -> bool {
        self.base <= addr < self.base + self.num_pages * PAGE_SIZE
    }

    /// The bytes that an allocation takes up, its padding included.
    pub open spec fn cost(self, size: usize, align: usize) -> int {
        padding(self.base + self.offset, pool_align(align)) + size
    }

    /// The block has room for an allocation.
    pub open spec fn fits(self, size: usize, align: usize) -> bool {
        self.offset + self.cost(size, align) <= self.num_pages * PAGE_SIZE
    }

    /// Where the next allocation goes.
    pub open spec fn next_address(self, align: usize) -> int {
        self.base + self.offset + padding(self.base + self.offset, pool_align(align))
    }

    /// The block after an allocation.
    pub open spec fn after_alloc(self, size: usize, align: usize) -> Self {
        PoolBlockHeader {
            offset: (self.offset + self.cost(size, align)) as usize,
            alloc_count: (self.alloc_count + 1) as usize,
            ..self
        }
    }

    /// The block after a deallocation.
    pub open spec fn after_dealloc(self) -> Self {
        PoolBlockHeader {
            alloc_count: if self.alloc_count > 0 {
                (self.alloc_count - 1) as usize
            } else {
                0
            },
            ..self
        }
    }

    /// Base address of this block.
    pub fn base(&self) -> (r: u64)
        ensures
            r == self.base,
    {
        self.base
    }

    /// Total capacity of this block in bytes.
    pub fn capacity(&self) -> (r: usize)
        requires
            self.num_pages * PAGE_SIZE <= usize::MAX,
        ensures
            r == self.num_pages * PAGE_SIZE,
    {
        self.num_pages * PAGE_SIZE
    }

    /// Remaining bytes available for bump allocation.
    pub fn remaining(&self) -> (r: usize)
        requires
            self.num_pages * PAGE_SIZE <= usize::MAX,
        ensures
            r == if self.offset <= self.num_pages * PAGE_SIZE {
                self.num_pages * PAGE_SIZE - self.offset
            } else {
                0
            },
    {
        self.capacity().saturating_sub(self.offset)
    }

    /// Returns `true` if the given address falls within this block's page range.
    pub fn contains(&self, addr: u64) -> (r: bool)
        requires
            self.wf(),
        ensures
            r == self.holds(addr),
    {
        addr >= self.base && addr < self.base + self.capacity() as u64
    }

    /// Tries to allocate from this block by moving the bump offset.
    pub fn try_alloc(&mut self, size: usize, align: usize) -> (r: Option<u64>)
        requires
            old(self).wf(),
            is_layout(size, align),
            old(self).alloc_count < usize::MAX,
        ensures
            final(self).wf(),
            if old(self).fits(size, align) {
                r == Some(old(self).next_address(align) as u64) && *final(self) == old(
                    self,
                ).after_alloc(size, align)
            } else {
                r is None && *final(self) == *old(self)
            },
    {
        let current_ptr: u64 = self.base + self.offset as u64;
        let align: u64 = effective_align(align) as u64;
        proof {
            lemma_padding(current_ptr as int, align as int);
        }
        let over: u64 = current_ptr % align;
        let padding: u64 = if over == 0 {
            0
        } else {
            align - over
        };
        let total_size: u64 = padding + size as u64;
        if total_size > self.remaining() as u64 {
            return None;
        }
        self.offset = self.offset + total_size as usize;
        self.alloc_count = self.alloc_count + 1;
        Some(current_ptr + padding)
    }
}

/// Pool allocator built on top of a [`PageAllocatorBackend`].
pub struct PoolAllocator<P: PageAllocatorBackend> {
    /// The underlying page allocator.
    page_allocator: P,
    /// The blocks, the one added last in front.
    blocks: Vec<PoolBlockHeader>,
}

/// The index of the first block, from `from` on, that has room for an allocation.
pub open spec fn block_with_room(
    blocks: Seq<PoolBlockHeader>,
    size: usize,
    align: usize,
    from: int,
) -> Option<int>
    decreases blocks.len() - from,
{
    if from >= blocks.len() {
        None
    } else if blocks[from].fits(size, align) {
        Some(from)
    } else {
        block_with_room(blocks, size, align, from + 1)
    }
}

/// A block that is found has room.
proof fn lemma_block_with_room(
    blocks: Seq<PoolBlockHeader>,
    size: usize,
    align: usize,
    from: int,
)
    requires
        0 <= from,
    ensures
        block_with_room(blocks, size, align, from) matches Some(i) ==> from <= i < blocks.len()
            && blocks[i].fits(size, align),
    decreases blocks.len() - from,
{
    if from < blocks.len() && !blocks[from].fits(size, align) {
        lemma_block_with_room(blocks, size, align, from + 1);
    }
}

/// The index of the first block, from `from` on, that holds an address.
pub open spec fn block_of(blocks: Seq<PoolBlockHeader>, addr: u64, from: int) -> Option<int>
    decreases blocks.len() - from,
{
    if from >= blocks.len() {
        None
    } else if blocks[from].holds(addr) {
        Some(from)
    } else {
        block_of(blocks, addr, from + 1)
    }
}

/// A new block of pages.
pub open spec fn new_block(base: u64, num_pages: usize) -> PoolBlockHeader {
    PoolBlockHeader { base, num_pages, offset: BLOCK_HEADER_SIZE, alloc_count: 0 }
}

/// The pages that a block for an allocation of `size` bytes needs, its header included.
pub open spec fn block_pages(size: int) -> int {
    (size + BLOCK_HEADER_SIZE + PAGE_SIZE - 1) / PAGE_SIZE as int
}

/// What is left of the blocks when one allocation at `addr` is released: the block that
/// holds it has one allocation less, and is gone if that was its last one.
pub open spec fn blocks_after_dealloc(blocks: Seq<PoolBlockHeader>, addr: u64) -> Seq<
    PoolBlockHeader,
> {
    match block_of(blocks, addr, 0) {
        Some(i) => if blocks[i].after_dealloc().alloc_count == 0 {
            blocks.remove(i)
        } else {
            blocks.update(i, blocks[i].after_dealloc())
        },
        None => blocks,
    }
}

/// The blocks after an allocation that an existing block has room for.
pub open spec fn blocks_after_alloc(
    blocks: Seq<PoolBlockHeader>,
    size: usize,
    align: usize,
    i: int,
) -> Seq<PoolBlockHeader> {
    blocks.update(i, blocks[i].after_alloc(size, align))
}

/// `ready` is an answer of the backend to the question whether it is ready.
pub open spec fn answers_ready<P: PageAllocatorBackend>(backend: P, ready: bool) -> bool {
    call_ensures(P::is_initialized, (&backend,), ready)
}

impl<P: PageAllocatorBackend> PoolAllocator<P> {
    /// The page allocator that the blocks come from.
    pub closed spec fn backend(&self) -> P {
        self.page_allocator
    }

    /// The blocks, the one added last in front.
    pub closed spec fn block_list(&self) -> Seq<PoolBlockHeader> {
        self.blocks@
    }

    /// What an allocation that a block has room for leads to: the block serves it, and the
    /// backend is not asked.
    pub open spec fn served(
        &self,
        after: &Self,
        size: usize,
        align: usize,
        i: int,
        r: Option<u64>,
    ) -> bool {
        let blocks = self.block_list();
        &&& r matches Some(ptr) && ptr == blocks[i].next_address(align)
        &&& after.block_list() == blocks_after_alloc(blocks, size, align, i)
        &&& after.backend() == self.backend()
    }

    /// What an allocation that no block has room for leads to, given the answer of the backend
    /// to a request for a block. Without one there is no allocation. A new block goes in front
    /// of the others, and serves the allocation if it has room.
    pub open spec fn answered(
        &self,
        after: &Self,
        size: usize,
        align: usize,
        answer: Result<u64, PageAllocError>,
        r: Option<u64>,
    ) -> bool {
        let blocks = self.block_list();
        match answer {
            Ok(base) => {
                let block = new_block(base, block_pages(size as int) as usize);
                if block.fits(size, align) {
                    &&& r matches Some(ptr) && ptr == block.next_address(align)
                    &&& after.block_list() == seq![block.after_alloc(size, align)] + blocks
                } else {
                    r is None && after.block_list() == seq![block] + blocks
                }
            },
            Err(_) => r is None && after.block_list() == blocks,
        }
    }

    /// Every block is well-formed.
    pub open spec fn wf(&self) -> bool {
        forall|i: int| 0 <= i < self.block_list().len() ==> (#[trigger] self.block_list()[i]).wf()
    }

    /// Every block can count one more allocation.
    pub open spec fn countable(&self) -> bool {
        forall|i: int|
            0 <= i < self.block_list().len() ==> (#[trigger] self.block_list()[i]).alloc_count
                < usize::MAX
    }

    /// Creates a new pool allocator backed by the given page allocator.
    pub fn new(page_allocator: P) -> (r: Self)
        ensures
            r.wf(),
            r.backend() == page_allocator,
            r.block_list() == Seq::<PoolBlockHeader>::empty(),
    {
        PoolAllocator { page_allocator, blocks: Vec::new() }
    }

    /// Allocates from the first block that has room.
    pub fn alloc_from_blocks(&mut self, size: usize, align: usize) -> (r: Option<u64>)
        requires
            old(self).wf(),
            old(self).countable(),
            is_layout(size, align),
        ensures
            final(self).wf(),
            final(self).backend() == old(self).backend(),
            match block_with_room(old(self).block_list(), size, align, 0) {
                Some(i) => 0 <= i < old(self).block_list().len() && r == Some(
                    old(self).block_list()[i].next_address(align) as u64,
                ) && final(self).block_list() == blocks_after_alloc(
                    old(self).block_list(),
                    size,
                    align,
                    i,
                ),
                None => r is None && final(self).block_list() == old(self).block_list(),
            },
    {
        let mut i: usize = 0;
        while i < self.blocks.len()
            invariant
                i <= self.blocks@.len(),
                self.blocks@ == old(self).blocks@,
                self.backend() == old(self).backend(),
                self.wf(),
                self.countable(),
                is_layout(size, align),
                block_with_room(old(self).blocks@, size, align, 0) == block_with_room(
                    old(self).blocks@,
                    size,
                    align,
                    i as int,
                ),
            decreases self.blocks@.len() - i,
        {
            let mut block = self.blocks[i];
            assert(block == self.block_list()[i as int]);
            match block.try_alloc(size, align) {
                Some(ptr) => {
                    self.blocks.set(i, block);
                    return Some(ptr);
                },
                None => {},
            }
            i = i + 1;
        }
        None
    }

    /// Puts a new block of pages in front of the others.
    pub fn add_block(&mut self, base: u64, num_pages: usize)
        requires
            old(self).wf(),
            num_pages > 0,
            num_pages * PAGE_SIZE <= usize::MAX,
            base + num_pages * PAGE_SIZE <= u64::MAX,
        ensures
            final(self).wf(),
            final(self).backend() == old(self).backend(),
            final(self).block_list() == seq![new_block(base, num_pages)] + old(self).block_list(),
    {
        let ghost before = self.blocks@;
        self.blocks.insert(
            0,
            PoolBlockHeader { base, num_pages, offset: BLOCK_HEADER_SIZE, alloc_count: 0 },
        );
        assert(self.blocks@ =~= seq![new_block(base, num_pages)] + before);
        assert forall|i: int|
            0 <= i < self.blocks@.len() implies (#[trigger] self.blocks@[i]).wf() by {
            if i > 0 {
                assert(self.blocks@[i] == before[i - 1]);
                assert(old(self).block_list()[i - 1].wf());
            }
        }
    }

    /// The number of pages to request for an allocation that no block has room for.
    pub fn pages_for(size: usize) -> (r: usize)
        requires
            size <= isize::MAX,
        ensures
            r == block_pages(size as int),
            r > 0,
            r * PAGE_SIZE <= usize::MAX,
    {
        (size + BLOCK_HEADER_SIZE + PAGE_SIZE - 1) / PAGE_SIZE
    }

    /// Allocates memory, from an existing block where one has room, and else from a new
    /// block of pages from the backend. The backend decides whether it is ready, and whether
    /// there are pages: a backend that is not ready gives nothing.
    pub fn allocate(&mut self, size: usize, align: usize) -> (r: Option<u64>)
        requires
            old(self).wf(),
            old(self).countable(),
            is_layout(size, align),
        ensures
            final(self).wf(),
            exists|ready: bool| #[trigger]
                answers_ready(old(self).backend(), ready) && if ready {
                    match block_with_room(old(self).block_list(), size, align, 0) {
                        Some(i) => old(self).served(final(self), size, align, i, r),
                        None => exists|backend: &mut P, answer: Result<u64, PageAllocError>|
                            {
                                &&& #[trigger] call_ensures(
                                    P::allocate_pages,
                                    (backend, block_pages(size as int) as usize),
                                    answer,
                                )
                                &&& *backend == old(self).backend()
                                &&& *final(backend) == final(self).backend()
                                &&& old(self).answered(final(self), size, align, answer, r)
                            },
                    }
                } else {
                    &&& r is None
                    &&& final(self).block_list() == old(self).block_list()
                    &&& final(self).backend() == old(self).backend()
                },
    {
        let ready = self.page_allocator.is_initialized();
        assert(answers_ready(old(self).backend(), ready));
        if !ready {
            return None;
        }
        let ghost blocks = self.block_list();
        match self.alloc_from_blocks(size, align) {
            Some(ptr) => {
                proof {
                    let i = block_with_room(blocks, size, align, 0)->0;
                    lemma_block_with_room(blocks, size, align, 0);
                    law_alloc_within_block(blocks[i], size, align);
                }
                return Some(ptr);
            },
            None => {},
        }
        let num_pages: usize = Self::pages_for(size);
        assert(num_pages == block_pages(size as int) as usize);
        let answer = self.page_allocator.allocate_pages(num_pages);
        assert(exists|backend: &mut P|
            {
                &&& #[trigger] call_ensures(P::allocate_pages, (backend, num_pages), answer)
                &&& *backend == old(self).backend()
                &&& *final(backend) == self.backend()
            });
        let base: u64 = match answer {
            Ok(addr) => addr,
            Err(_) => {
                assert(old(self).answered(self, size, align, answer, None));
                return None;
            },
        };
        self.add_block(base, num_pages);
        let mut block = self.blocks[0];
        let ghost fresh = new_block(base, block_pages(size as int) as usize);
        assert(block == fresh);
        assert(self.blocks@ =~= seq![fresh] + blocks);
        let r = block.try_alloc(size, align);
        let ghost held = self.blocks@;
        self.blocks.set(0, block);
        proof {
            assert(self.blocks@ =~= seq![block] + blocks);
            assert forall|i: int| 0 <= i < self.block_list().len() implies (
            #[trigger] self.block_list()[i]).wf() by {
                if i > 0 {
                    assert(self.block_list()[i] == blocks[i - 1]);
                    assert(old(self).block_list()[i - 1].wf());
                }
            }
        }
        r
    }

    /// Takes one allocation off the block that holds an address, and takes the block itself
    /// off if it was the last one. Returns the pages that are then to be freed.
    pub fn release(&mut self, addr: u64) -> (r: Option<(u64, usize)>)
        requires
            old(self).wf(),
        ensures
            final(self).wf(),
            final(self).backend() == old(self).backend(),
            final(self).block_list() == blocks_after_dealloc(old(self).block_list(), addr),
            r == match block_of(old(self).block_list(), addr, 0) {
                Some(i) => {
                    let block = old(self).block_list()[i];
                    if block.after_dealloc().alloc_count == 0 {
                        Some((block.base, block.num_pages))
                    } else {
                        None
                    }
                },
                None => None,
            },
    {
        let mut i: usize = 0;
        while i < self.blocks.len()
            invariant
                i <= self.blocks@.len(),
                self.blocks@ == old(self).blocks@,
                self.backend() == old(self).backend(),
                self.wf(),
                block_of(old(self).blocks@, addr, 0) == block_of(old(self).blocks@, addr, i as int),
            decreases self.blocks@.len() - i,
        {
            let mut block = self.blocks[i];
            assert(block == self.block_list()[i as int]);
            if block.contains(addr) {
                block.alloc_count = block.alloc_count.saturating_sub(1);
                if block.alloc_count == 0 {
                    let ghost before = self.blocks@;
                    self.blocks.remove(i);
                    assert forall|j: int| 0 <= j < self.block_list().len() implies (
                    #[trigger] self.block_list()[j]).wf() by {
                        let from = if j < i {
                            j
                        } else {
                            j + 1
                        };
                        assert(self.block_list()[j] == before[from]);
                        assert(old(self).block_list()[from].wf());
                    }
                    return Some((block.base, block.num_pages));
                }
                self.blocks.set(i, block);
                return None;
            }
            i = i + 1;
        }
        None
    }

    /// Deallocates memory. A block whose last allocation this was goes back to the backend.
    pub fn dealloc(&mut self, ptr: u64)
        requires
            old(self).wf(),
        ensures
            final(self).wf(),
            final(self).block_list() == if ptr == 0 {
                old(self).block_list()
            } else {
                blocks_after_dealloc(old(self).block_list(), ptr)
            },
            match block_of(old(self).block_list(), ptr, 0) {
                Some(i) => {
                    let block = old(self).block_list()[i];
                    if ptr != 0 && block.after_dealloc().alloc_count == 0 {
                        exists|backend: &mut P, answer: Result<(), PageAllocError>|
                            {
                                &&& #[trigger] call_ensures(
                                    P::free_pages,
                                    (backend, block.base, block.num_pages),
                                    answer,
                                )
                                &&& *backend == old(self).backend()
                                &&& *final(backend) == final(self).backend()
                            }
                    } else {
                        final(self).backend() == old(self).backend()
                    }
                },
                None => final(self).backend() == old(self).backend(),
            },
    {
        if ptr == 0 {
            return;
        }
        match self.release(ptr) {
            Some((base, num_pages)) => {
                let _ = self.page_allocator.free_pages(base, num_pages);
            },
            None => {},
        }
    }
}

/// An allocation lies within its block, past the header where the offset does, and at a
/// multiple of its alignment.
pub proof fn law_alloc_within_block(block: PoolBlockHeader, size: usize, align: usize)
    requires
        block.wf(),
        is_layout(size, align),
        block.fits(size, align),
    ensures
        block.base + block.offset <= block.next_address(align),
        block.next_address(align) + size <= block.base + block.num_pages * PAGE_SIZE,
        block.next_address(align) % pool_align(align) == 0,
        pool_align(align) >= MIN_POOL_ALLOC_SIZE,
{
    lemma_padding(block.base + block.offset, pool_align(align));
}

/// Two allocations from one block, one after the other, do not overlap.
pub proof fn law_allocs_apart(
    block: PoolBlockHeader,
    size1: usize,
    align1: usize,
    size2: usize,
    align2: usize,
)
    requires
        block.wf(),
        is_layout(size1, align1),
        is_layout(size2, align2),
        block.fits(size1, align1),
        block.after_alloc(size1, align1).fits(size2, align2),
    ensures
        block.next_address(align1) + size1 <= block.after_alloc(size1, align1).next_address(align2),
{
    lemma_padding(block.base + block.offset, pool_align(align1));
    lemma_padding(
        block.base + block.after_alloc(size1, align1).offset,
        pool_align(align2),
    );
}

/// A new block has room for the allocation that it was made for, if that asks for no more
/// than the smallest alignment and the block starts on a page.
pub proof fn law_new_block_fits(base: u64, size: usize, align: usize)
    requires
        size <= isize::MAX,
        align <= MIN_POOL_ALLOC_SIZE,
        base as int % PAGE_SIZE as int == 0,
    ensures
        new_block(base, block_pages(size as int) as usize).fits(size, align),
{
    lemma_page_is_aligned(base as int);
    lemma_pages_hold(size + BLOCK_HEADER_SIZE);
    assert(pool_align(align) == 16);
    assert(padding(base + BLOCK_HEADER_SIZE, 16) == 0);
}

proof fn lemma_page_is_aligned(base: int)
    requires
        base % 4096 == 0,
    ensures
        (base + 32) % 16 == 0,
{
}

proof fn lemma_pages_hold(bytes: int)
    requires
        0 <= bytes,
    ensures
        bytes <= (bytes + 4095) / 4096 * 4096,
        (bytes + 4095) / 4096 <= bytes,
{
}

/// The padding in front of an address is the least that brings it to the alignment: every aligned
/// address from `at` on is at or behind the padded one.
pub proof fn law_padding_is_least(at: int, align: int, x: int)
    requires
        0 <= at <= x,
        0 < align,
        x % align == 0,
    ensures
        at <= at + padding(at, align) <= x,
        (at + padding(at, align)) % align == 0,
{
    lemma_padding(at, align);
    vstd::arithmetic::div_mod::lemma_fundamental_div_mod(at, align);
    vstd::arithmetic::div_mod::lemma_fundamental_div_mod(x, align);
    let q = at / align;
    let s = x / align;
    if at % align != 0 {
        if s <= q {
            assert(align * s <= align * q) by (nonlinear_arith)
                requires
                    s <= q,
                    0 < align,
            ;
        }
        assert(align * (q + 1) <= align * s) by (nonlinear_arith)
            requires
                q + 1 <= s,
                0 < align,
        ;
        assert(align * (q + 1) == align * q + align) by (nonlinear_arith);
    }
}

/// An allocation gets the alignment that it asks for, and the least one at least.
pub proof fn law_pool_align(align: usize)
    ensures
        pool_align(align) >= align,
        pool_align(align) >= 16,
        pool_align(align) == align || align < 16 && pool_align(align) == 16,
{
}

/// An allocation from a block is at the lowest address behind what is in use that has the
/// alignment; it fits if and only if it then ends within the block; and the block is then in use up
/// to its end, with one more allocation and the same pages.
pub proof fn law_alloc_is_lowest(block: PoolBlockHeader, size: usize, align: usize, x: int)
    requires
        block.wf(),
        is_layout(size, align),
    ensures
        block.base + block.offset <= x && x % pool_align(align) == 0 ==> block.next_address(align)
            <= x,
        block.fits(size, align) <==> block.next_address(align) + size <= block.base
            + block.num_pages * 4096,
        block.fits(size, align) && block.alloc_count < usize::MAX ==> {
            let after = block.after_alloc(size, align);
            &&& after.base == block.base && after.num_pages == block.num_pages
            &&& after.base + after.offset == block.next_address(align) + size
            &&& after.alloc_count == block.alloc_count + 1
        },
{
    let at = block.base + block.offset;
    lemma_padding(at, pool_align(align));
    if at <= x && x % pool_align(align) == 0 {
        law_padding_is_least(at, pool_align(align), x);
    }
}

/// An allocation is served by the first block that it fits into, and none is found only if it fits
/// into none.
pub proof fn law_first_block_serves(
    blocks: Seq<PoolBlockHeader>,
    size: usize,
    align: usize,
    from: int,
)
    requires
        0 <= from,
    ensures
        match block_with_room(blocks, size, align, from) {
            Some(i) => from <= i < blocks.len() && blocks[i].fits(size, align) && forall|j: int|
                from <= j < i ==> !(#[trigger] blocks[j]).fits(size, align),
            None => forall|j: int|
                from <= j < blocks.len() ==> !(#[trigger] blocks[j]).fits(size, align),
        },
    decreases blocks.len() - from,
{
    if from < blocks.len() && !blocks[from].fits(size, align) {
        law_first_block_serves(blocks, size, align, from + 1);
    }
}

proof fn lemma_block_of_first(blocks: Seq<PoolBlockHeader>, addr: u64, from: int)
    requires
        0 <= from,
    ensures
        match block_of(blocks, addr, from) {
            Some(i) => from <= i < blocks.len() && blocks[i].holds(addr) && forall|j: int|
                from <= j < i ==> !(#[trigger] blocks[j]).holds(addr),
            None => forall|j: int| from <= j < blocks.len() ==> !(#[trigger] blocks[j]).holds(addr),
        },
    decreases blocks.len() - from,
{
    if from < blocks.len() && !blocks[from].holds(addr) {
        lemma_block_of_first(blocks, addr, from + 1);
    }
}

/// Giving memory back changes the first block that holds it and no other: the block has one
/// allocation less, and goes with its last one. Memory that no block holds changes nothing.
pub proof fn law_dealloc_changes_its_block(blocks: Seq<PoolBlockHeader>, addr: u64, i: int)
    ensures
        ({
            let after = blocks_after_dealloc(blocks, addr);
            let first = 0 <= i < blocks.len() && blocks[i].base <= addr < blocks[i].base
                + blocks[i].num_pages * 4096 && forall|j: int|
                0 <= j < i ==> !((#[trigger] blocks[j]).base <= addr < blocks[j].base
                    + blocks[j].num_pages * 4096);
            &&& first && blocks[i].alloc_count > 1 ==> {
                &&& after.len() == blocks.len()
                &&& after[i].alloc_count == blocks[i].alloc_count - 1
                &&& after[i].base == blocks[i].base && after[i].num_pages == blocks[i].num_pages
                    && after[i].offset == blocks[i].offset
                &&& forall|j: int|
                    0 <= j < blocks.len() && j != i ==> #[trigger] after[j] == blocks[j]
            }
            &&& first && blocks[i].alloc_count <= 1 ==> {
                &&& after.len() == blocks.len() - 1
                &&& forall|j: int| 0 <= j < i ==> #[trigger] after[j] == blocks[j]
                &&& forall|j: int| i <= j < after.len() ==> #[trigger] after[j] == blocks[j + 1]
            }
            &&& (forall|j: int|
                0 <= j < blocks.len() ==> !((#[trigger] blocks[j]).base <= addr < blocks[j].base
                    + blocks[j].num_pages * 4096)) ==> after == blocks
        }),
{
    lemma_block_of_first(blocks, addr, 0);
    match block_of(blocks, addr, 0) {
        Some(k) => {
            assert(blocks[k].holds(addr));
            if 0 <= i < blocks.len() && blocks[i].holds(addr) && forall|j: int|
                0 <= j < i ==> !(#[trigger] blocks[j]).holds(addr) {
                assert(i == k);
            }
            if 0 <= i < blocks.len() && blocks[i].base <= addr < blocks[i].base
                + blocks[i].num_pages * 4096 && forall|j: int|
                0 <= j < i ==> !((#[trigger] blocks[j]).base <= addr < blocks[j].base
                    + blocks[j].num_pages * 4096) {
                if k < i {
                    assert(!(blocks[k].base <= addr < blocks[k].base + blocks[k].num_pages * 4096));
                }
                if i < k {
                    assert(!blocks[i].holds(addr));
                }
                assert(i == k);
            }
        },
        None => {},
    }
}

/// A new block has as many pages as its head and the allocation need, and no more.
pub proof fn law_block_pages(size: int)
    requires
        0 <= size,
    ensures
        size + 32 <= block_pages(size) * 4096,
        (block_pages(size) - 1) * 4096 < size + 32,
{
}

/// What is done with the pages that the backend gives: a block of them is put in front of the
/// others, and the allocation, where it fits, is in that block, behind its head and with the
/// alignment. If the backend gives none, nothing changes.
pub proof fn law_new_block_serves<P: PageAllocatorBackend>(
    before: &PoolAllocator<P>,
    after: &PoolAllocator<P>,
    size: usize,
    align: usize,
    answer: Result<u64, PageAllocError>,
    r: Option<u64>,
)
    requires
        size <= isize::MAX,
        is_layout(size, align),
        answer matches Ok(base) ==> base + block_pages(size as int) * 4096 <= u64::MAX,
        before.answered(after, size, align, answer, r),
    ensures
        answer is Err ==> r is None && after.block_list() == before.block_list(),
        answer matches Ok(base) ==> {
            let pages = block_pages(size as int);
            let block = after.block_list()[0];
            &&& after.block_list().len() == before.block_list().len() + 1
            &&& after.block_list().skip(1) == before.block_list()
            &&& block.base == base && block.num_pages == pages
            &&& base as int % 4096 == 0 && align <= 16 ==> r is Some
            &&& r matches Some(ptr) ==> {
                &&& base + 32 <= ptr && ptr + size <= base + pages * 4096
                &&& ptr as int % pool_align(align) == 0
                &&& block.alloc_count == 1 && block.base + block.offset == ptr + size
            }
            &&& r is None ==> block.alloc_count == 0
        },
{
    if answer is Ok {
        let base = answer->Ok_0;
        law_block_pages(size as int);
        let n = block_pages(size as int) as usize;
        let block = new_block(base, n);
        lemma_padding(block.base + block.offset, pool_align(align));
        if base as int % 4096 == 0 && align <= 16 {
            law_new_block_fits(base, size, align);
        }
        assert(after.block_list().skip(1) =~= before.block_list());
    }
}

/// An allocation from a block is in that block, behind what was used of it and with the alignment,
/// and the block is used up to its end. The other blocks and the backend stay as they are.
pub proof fn law_block_serves<P: PageAllocatorBackend>(
    before: &PoolAllocator<P>,
    after: &PoolAllocator<P>,
    size: usize,
    align: usize,
    i: int,
    r: Option<u64>,
)
    requires
        before.wf(),
        0 <= i < before.block_list().len(),
        before.block_list()[i].alloc_count < usize::MAX,
        is_layout(size, align),
        before.block_list()[i].fits(size, align),
        before.served(after, size, align, i, r),
    ensures
        after.backend() == before.backend(),
        after.block_list().len() == before.block_list().len(),
        forall|j: int|
            0 <= j < before.block_list().len() && j != i ==> #[trigger] after.block_list()[j]
                == before.block_list()[j],
        ({
            let block = before.block_list()[i];
            let used = after.block_list()[i];
            &&& used.base == block.base && used.num_pages == block.num_pages
            &&& used.alloc_count == block.alloc_count + 1
            &&& (r matches Some(ptr) && {
                &&& block.base + block.offset <= ptr
                &&& ptr + size <= block.base + block.num_pages * 4096
                &&& ptr as int % pool_align(align) == 0
                &&& used.base + used.offset == ptr + size
            })
        }),
{
    let block = before.block_list()[i];
    law_alloc_within_block(block, size, align);
    lemma_padding(block.base + block.offset, pool_align(align));
}

} // verus!
