//! Pool allocator of the supervisor.
//!
//! Allocations smaller than a page are bump-allocated from blocks of pages that come from
//! the page allocator. When all allocations of a block have been released, the block goes
//! back.

use crate::mm_alloc::{
    effective_align, is_layout, law_padding_is_least, lemma_padding, padding, pool_align,
    MIN_POOL_ALLOC_SIZE,
};
use crate::supervisor::mm_mem::{AllocationType, PageAllocator, MAX_POOL_BLOCKS, PAGE_SIZE};
use vstd::prelude::*;

verus! {

/// A block of pages that the pool subdivides.
#[derive(Debug, Clone, Copy, PartialEq, Eq, Structural)]
pub struct PoolBlock {
    /// Base address of this pool block.
    pub base: u64,
    /// Number of pages in this block.
    pub num_pages: usize,
    /// Current offset into the block for bump allocation.
    pub offset: usize,
    /// Number of active allocations from this block.
    pub alloc_count: usize,
}

impl PoolBlock {
    /// The block stands for pages.
    pub open spec fn valid(self) -> bool {
        self.base != 0 && self.num_pages > 0
    }

    /// The block lies within the address space, and its offset within the block.
    pub open spec fn wf(self) -> bool {
        &&& self.num_pages * PAGE_SIZE <= usize::MAX
        &&& self.base + self.num_pages * PAGE_SIZE <= u64::MAX
        &&& self.offset <= self.num_pages * PAGE_SIZE
    }

    /// The block holds the address.
    pub open spec fn holds(self, addr: u64) -> bool {
        self.valid() && self.base <= addr < self.base + self.num_pages * PAGE_SIZE
    }

    /// The bytes that an allocation takes up, its padding included.
    pub open spec fn cost(self, size: usize, align: usize) -> int {
        padding(self.base + self.offset, pool_align(align)) + size
    }

    /// The block has room for an allocation.
    pub open spec fn fits(self, size: usize, align: usize) -> bool {
        self.valid() && self.offset + self.cost(size, align) <= self.num_pages * PAGE_SIZE
    }

    /// Where the next allocation goes.
    pub open spec fn next_address(self, align: usize) -> int {
        self.base + self.offset + padding(self.base + self.offset, pool_align(align))
    }

    /// The block after an allocation.
    pub open spec fn after_alloc(self, size: usize, align: usize) -> Self {
        PoolBlock {
            offset: (self.offset + self.cost(size, align)) as usize,
            alloc_count: (self.alloc_count + 1) as usize,
            ..self
        }
    }

    /// The block after a deallocation.
    pub open spec fn after_dealloc(self) -> Self {
        PoolBlock {
            alloc_count: if self.alloc_count > 0 {
                (self.alloc_count - 1) as usize
            } else {
                0
            },
            ..self
        }
    }

    /// A block that stands for no pages.
    pub open spec fn none() -> Self {
        PoolBlock { base: 0, num_pages: 0, offset: 0, alloc_count: 0 }
    }

    /// Creates a block that stands for no pages.
    pub fn new() -> (r: Self)
        ensures
            r == Self::none(),
    {
        PoolBlock { base: 0, num_pages: 0, offset: 0, alloc_count: 0 }
    }

    /// Whether the block stands for pages.
    pub fn is_valid(&self) -> (r: bool)
        ensures
            r == self.valid(),
    {
        self.base != 0 && self.num_pages > 0
    }

    /// The capacity of the block in bytes.
    pub fn capacity(&self) -> (r: usize)
        requires
            self.num_pages * PAGE_SIZE <= usize::MAX,
        ensures
            r == self.num_pages * PAGE_SIZE,
    {
        self.num_pages * PAGE_SIZE
    }

    /// The bytes that are left in the block.
    pub fn remaining(&self) -> (r: usize)
        requires
            self.num_pages * PAGE_SIZE <= usize::MAX,
        ensures
            r == if self.offset <= self.num_pages * PAGE_SIZE {
                self.num_pages * PAGE_SIZE - self.offset
            } else {
                0
            },
    {
        self.capacity().saturating_sub(self.offset)
    }

    /// Tries to allocate from this block by moving the bump offset.
    pub fn try_alloc(&mut self, size: usize, align: usize) -> (r: Option<u64>)
        requires
            old(self).wf(),
            is_layout(size, align),
            old(self).alloc_count < usize::MAX,
        ensures
            final(self).wf(),
            if old(self).fits(size, align) {
                r == Some(old(self).next_address(align) as u64) && *final(self) == old(
                    self,
                ).after_alloc(size, align)
            } else {
                r is None && *final(self) == *old(self)
            },
    {
        if !self.is_valid() {
            return None;
        }
        let current_ptr: u64 = self.base + self.offset as u64;
        let align: u64 = effective_align(align) as u64;
        proof {
            lemma_padding(current_ptr as int, align as int);
        }
        let over: u64 = current_ptr % align;
        let padding: u64 = if over == 0 {
            0
        } else {
            align - over
        };
        let total_size: u64 = padding + size as u64;
        if total_size > self.remaining() as u64 {
            return None;
        }
        self.offset = self.offset + total_size as usize;
        self.alloc_count = self.alloc_count + 1;
        Some(current_ptr + padding)
    }

    /// Records a deallocation from this block.
    pub fn record_dealloc(&mut self)
        ensures
            *final(self) == old(self).after_dealloc(),
    {
        if self.alloc_count > 0 {
            self.alloc_count = self.alloc_count - 1;
        }
    }

    /// Returns true if this block has no active allocations and can be freed.
    pub fn is_empty(&self) -> (r: bool)
        ensures
            r == (self.alloc_count == 0),
    {
        self.alloc_count == 0
    }
}

/// The index of the first block, from `from` on, that has room for an allocation.
pub open spec fn block_with_room(
    blocks: Seq<PoolBlock>,
    size: usize,
    align: usize,
    from: int,
) -> Option<int>
    decreases blocks.len() - from,
{
    if from >= blocks.len() {
        None
    } else if blocks[from].fits(size, align) {
        Some(from)
    } else {
        block_with_room(blocks, size, align, from + 1)
    }
}

/// The index of the first block, from `from` on, that holds an address.
pub open spec fn block_of(blocks: Seq<PoolBlock>, addr: u64, from: int) -> Option<int>
    decreases blocks.len() - from,
{
    if from >= blocks.len() {
        None
    } else if blocks[from].holds(addr) {
        Some(from)
    } else {
        block_of(blocks, addr, from + 1)
    }
}

/// The pages that a block for an allocation of `size` bytes needs: at least one.
pub open spec fn block_pages(size: int) -> int {
    if size <= 0 {
        1
    } else {
        (size + PAGE_SIZE - 1) / PAGE_SIZE as int
    }
}

/// A new block of pages.
pub open spec fn new_block(base: u64, num_pages: usize) -> PoolBlock {
    PoolBlock { base, num_pages, offset: 0, alloc_count: 0 }
}

/// What the reclaiming of empty blocks does to one block, and to the pages as it gets to it:
/// an empty block whose pages can be freed stands for no pages any more.
pub open spec fn reclaimed(
    block: PoolBlock,
    block_after: PoolBlock,
    pages: &PageAllocator,
    pages_after: &PageAllocator,
) -> bool {
    if block.valid() && block.alloc_count == 0 && pages.free_verdict(
        block.base,
        block.num_pages as int,
    ) is Ok {
        &&& block_after == PoolBlock::none()
        &&& pages_after.same_layout(pages)
        &&& pages.clears(
            pages_after,
            pages.bit_of_address(block.base)->0,
            block.num_pages as int,
        )
    } else {
        block_after == block && *pages_after == *pages
    }
}

/// The empty blocks have been reclaimed, one after the other: `steps` are the states of the
/// pages in between.
pub open spec fn all_reclaimed(
    blocks: Seq<PoolBlock>,
    after: Seq<PoolBlock>,
    steps: Seq<PageAllocator>,
) -> bool {
    &&& after.len() == blocks.len()
    &&& steps.len() == blocks.len() + 1
    &&& forall|i: int|
        0 <= i < blocks.len() ==> reclaimed(
            blocks[i],
            #[trigger] after[i],
            &steps[i],
            &steps[i + 1],
        )
}

/// Pool allocator built on top of the page allocator.
pub struct PoolAllocator {
    /// The blocks that have been made, the valid ones and those that went back.
    blocks: Vec<PoolBlock>,
}

impl PoolAllocator {
    /// The blocks.
    pub closed spec fn block_list(&self) -> Seq<PoolBlock> {
        self.blocks@
    }

    /// There are no more blocks than are tracked, and each is well-formed.
    pub open spec fn wf(&self) -> bool {
        &&& self.block_list().len() <= MAX_POOL_BLOCKS
        &&& forall|i: int|
            0 <= i < self.block_list().len() ==> (#[trigger] self.block_list()[i]).wf()
    }

    /// Every block can count one more allocation.
    pub open spec fn countable(&self) -> bool {
        forall|i: int|
            0 <= i < self.block_list().len() ==> (#[trigger] self.block_list()[i]).alloc_count
                < usize::MAX
    }

    /// Creates a new pool allocator.
    pub fn new() -> (r: Self)
        ensures
            r.wf(),
            r.block_list() == Seq::<PoolBlock>::empty(),
    {
        PoolAllocator { blocks: Vec::new() }
    }

    /// Allocates a new pool block from the page allocator.
    fn allocate_new_block(&mut self, pages: &mut PageAllocator, min_size: usize) -> (r: Option<
        usize,
    >)
        requires
            old(self).wf(),
            old(pages).wf(),
            old(pages).addressable(),
            min_size <= isize::MAX,
        ensures
            final(self).wf(),
            final(pages).wf(),
            final(pages).same_layout(old(pages)),
            ({
                let n = block_pages(min_size as int);
                match r {
                    Some(i) => {
                        &&& i == old(self).block_list().len()
                        &&& old(pages).ready()
                        &&& final(self).block_list() == old(self).block_list().push(
                            new_block(final(self).block_list()[i as int].base, n as usize),
                        )
                        &&& old(pages).allocates(
                            final(pages),
                            n,
                            AllocationType::Supervisor,
                            final(self).block_list()[i as int].base,
                        )
                    },
                    None => {
                        &&& *final(self) == *old(self)
                        &&& *final(pages) == *old(pages)
                        &&& old(self).block_list().len() == MAX_POOL_BLOCKS || !old(pages).ready()
                            || old(pages).no_run(n)
                    },
                }
            }),
    {
        let block_count: usize = self.blocks.len();
        if block_count >= MAX_POOL_BLOCKS {
            return None;
        }
        let mut num_pages: usize = (min_size + PAGE_SIZE - 1) / PAGE_SIZE;
        if num_pages < 1 {
            num_pages = 1;
        }
        let base: u64 = match pages.allocate_pages(num_pages) {
            Ok(addr) => addr,
            Err(_) => {
                return None;
            },
        };
        let ghost before = self.blocks@;
        proof {
            lemma_allocation_addressable(old(pages), pages, num_pages as int, base);
        }
        self.blocks.push(PoolBlock { base, num_pages, offset: 0, alloc_count: 0 });
        assert forall|i: int| 0 <= i < self.block_list().len() implies (
        #[trigger] self.block_list()[i]).wf() by {
            if i < before.len() {
                assert(self.block_list()[i] == before[i]);
                assert(old(self).block_list()[i].wf());
            }
        }
        Some(block_count)
    }

    /// Allocates memory: from the first block that has room, and else from a new block.
    ///
    /// A new block is made for the size alone. Where the alignment makes it too small, the
    /// allocation fails, and the block stays.
    pub fn allocate(&mut self, pages: &mut PageAllocator, size: usize, align: usize) -> (r: Option<
        u64,
    >)
        requires
            old(self).wf(),
            old(self).countable(),
            old(pages).wf(),
            old(pages).addressable(),
            is_layout(size, align),
        ensures
            final(self).wf(),
            final(pages).wf(),
            final(pages).same_layout(old(pages)),
            ({
                let blocks = old(self).block_list();
                let n = block_pages(size as int);
                if !old(pages).ready() {
                    r is None && *final(self) == *old(self) && *final(pages) == *old(pages)
                } else {
                    match block_with_room(blocks, size, align, 0) {
                        Some(i) => {
                            &&& r == Some(blocks[i].next_address(align) as u64)
                            &&& final(self).block_list() == blocks.update(
                                i,
                                blocks[i].after_alloc(size, align),
                            )
                            &&& *final(pages) == *old(pages)
                        },
                        None => if blocks.len() == MAX_POOL_BLOCKS || old(pages).no_run(n) {
                            r is None && *final(self) == *old(self) && *final(pages) == *old(pages)
                        } else {
                            exists|base: u64|
                                {
                                    let block = #[trigger] new_block(base, n as usize);
                                    &&& old(pages).allocates(
                                        final(pages),
                                        n,
                                        AllocationType::Supervisor,
                                        base,
                                    )
                                    &&& if block.fits(size, align) {
                                        &&& r == Some(block.next_address(align) as u64)
                                        &&& final(self).block_list() == blocks.push(
                                            block.after_alloc(size, align),
                                        )
                                    } else {
                                        r is None && final(self).block_list() == blocks.push(block)
                                    }
                                }
                        },
                    }
                }
            }),
    {
        if !pages.is_initialized() {
            return None;
        }
        let mut i: usize = 0;
        while i < self.blocks.len()
            invariant
                i <= self.blocks@.len(),
                *self == *old(self),
                *pages == *old(pages),
                pages.wf(),
                pages.ready(),
                self.wf(),
                self.countable(),
                is_layout(size, align),
                block_with_room(old(self).blocks@, size, align, 0) == block_with_room(
                    old(self).blocks@,
                    size,
                    align,
                    i as int,
                ),
            decreases self.blocks@.len() - i,
        {
            let mut block = self.blocks[i];
            assert(block == self.block_list()[i as int]);
            match block.try_alloc(size, align) {
                Some(ptr) => {
                    self.blocks.set(i, block);
                    return Some(ptr);
                },
                None => {},
            }
            i = i + 1;
        }
        let ghost n = block_pages(size as int);
        match self.allocate_new_block(pages, size) {
            Some(block_index) => {
                let ghost before = self.blocks@;
                let mut block = self.blocks[block_index];
                let ghost fresh = new_block(block.base, n as usize);
                proof {
                    assert(block == fresh);
                    assert(self.block_list()[block_index as int].wf());
                    lemma_allocates_not_no_run(
                        old(pages),
                        pages,
                        n,
                        AllocationType::Supervisor,
                        block.base,
                    );
                }
                let r = block.try_alloc(size, align);
                self.blocks.set(block_index, block);
                proof {
                    assert(self.blocks@ =~= old(self).blocks@.push(block));
                    assert forall|j: int| 0 <= j < self.block_list().len() implies (
                    #[trigger] self.block_list()[j]).wf() by {
                        if j < block_index {
                            assert(self.block_list()[j] == old(self).block_list()[j]);
                        }
                    }
                }
                r
            },
            None => None,
        }
    }

    /// Reclaims empty blocks back to the page allocator.
    fn try_reclaim_empty_blocks(&mut self, pages: &mut PageAllocator)
        requires
            old(self).wf(),
            old(pages).wf(),
            old(pages).addressable(),
        ensures
            final(self).wf(),
            final(pages).wf(),
            final(pages).same_layout(old(pages)),
            exists|steps: Seq<PageAllocator>|
                #[trigger] all_reclaimed(old(self).block_list(), final(self).block_list(), steps)
                    && steps[0] == *old(pages) && steps.last() == *final(pages),
    {
        let ghost blocks = self.blocks@;
        let ghost mut steps: Seq<PageAllocator> = seq![*pages];
        let mut i: usize = 0;
        while i < self.blocks.len()
            invariant
                i <= self.blocks@.len(),
                blocks == old(self).blocks@,
                self.blocks@.len() == blocks.len(),
                blocks.len() <= MAX_POOL_BLOCKS,
                self.wf(),
                pages.wf(),
                pages.same_layout(old(pages)),
                old(pages).addressable(),
                steps.len() == i + 1,
                steps[0] == *old(pages),
                steps.last() == *pages,
                forall|j: int| i <= j < blocks.len() ==> self.blocks@[j] == blocks[j],
                forall|j: int|
                    0 <= j < i ==> reclaimed(
                        blocks[j],
                        #[trigger] self.blocks@[j],
                        &steps[j],
                        &steps[j + 1],
                    ),
            decreases self.blocks@.len() - i,
        {
            let ghost pages_before = *pages;
            let block = self.blocks[i];
            assert(self.blocks@[i as int] == blocks[i as int]);
            if block.is_valid() && block.is_empty() {
                match pages.free_pages(block.base, block.num_pages) {
                    Ok(()) => {
                        let ghost held = self.blocks@;
                        self.blocks.set(i, PoolBlock::new());
                        assert forall|j: int| 0 <= j < self.block_list().len() implies (
                        #[trigger] self.block_list()[j]).wf() by {
                            if j != i {
                                assert(self.block_list()[j] == held[j]);
                            }
                        }
                    },
                    Err(_) => {},
                }
            }
            proof {
                let prev = steps;
                steps = steps.push(*pages);
                assert(reclaimed(blocks[i as int], self.blocks@[i as int], &pages_before, pages));
                assert forall|j: int| 0 <= j < i + 1 implies reclaimed(
                    blocks[j],
                    #[trigger] self.blocks@[j],
                    &steps[j],
                    &steps[j + 1],
                ) by {
                    if j < i {
                        assert(steps[j] == prev[j] && steps[j + 1] == prev[j + 1]);
                    }
                }
            }
            i = i + 1;
        }
        proof {
            assert(all_reclaimed(old(self).block_list(), self.block_list(), steps));
        }
    }

    /// Finds which block contains the given address.
    fn find_block_for_address(&self, addr: u64) -> (r: Option<usize>)
        requires
            self.wf(),
        ensures
            match r {
                Some(i) => block_of(self.block_list(), addr, 0) == Some(i as int) && i
                    < self.block_list().len(),
                None => block_of(self.block_list(), addr, 0) is None,
            },
    {
        let mut i: usize = 0;
        while i < self.blocks.len()
            invariant
                i <= self.blocks@.len(),
                self.wf(),
                block_of(self.blocks@, addr, 0) == block_of(self.blocks@, addr, i as int),
            decreases self.blocks@.len() - i,
        {
            let block = self.blocks[i];
            assert(block == self.block_list()[i as int]);
            if block.is_valid() {
                let block_end: u64 = block.base + block.capacity() as u64;
                if addr >= block.base && addr < block_end {
                    return Some(i);
                }
            }
            i = i + 1;
        }
        None
    }

    /// Deallocates memory. When that empties a block, all empty blocks are reclaimed.
    pub fn dealloc(&mut self, pages: &mut PageAllocator, ptr: u64)
        requires
            old(self).wf(),
            old(pages).wf(),
            old(pages).addressable(),
        ensures
            final(self).wf(),
            final(pages).wf(),
            final(pages).same_layout(old(pages)),
            ({
                let blocks = old(self).block_list();
                match block_of(blocks, ptr, 0) {
                    Some(i) => if ptr != 0 {
                        let released = blocks.update(i, blocks[i].after_dealloc());
                        if blocks[i].after_dealloc().alloc_count != 0 {
                            final(self).block_list() == released && *final(pages) == *old(pages)
                        } else {
                            exists|steps: Seq<PageAllocator>|
                                #[trigger] all_reclaimed(
                                    released,
                                    final(self).block_list(),
                                    steps,
                                ) && steps[0] == *old(pages) && steps.last() == *final(pages)
                        }
                    } else {
                        *final(self) == *old(self) && *final(pages) == *old(pages)
                    },
                    None => *final(self) == *old(self) && *final(pages) == *old(pages),
                }
            }),
    {
        if ptr == 0 {
            return;
        }
        match self.find_block_for_address(ptr) {
            Some(block_index) => {
                let ghost before = self.blocks@;
                let mut block = self.blocks[block_index];
                assert(self.block_list()[block_index as int].wf());
                block.record_dealloc();
                self.blocks.set(block_index, block);
                assert forall|j: int| 0 <= j < self.block_list().len() implies (
                #[trigger] self.block_list()[j]).wf() by {
                    if j != block_index {
                        assert(self.block_list()[j] == before[j]);
                        assert(old(self).block_list()[j].wf());
                    }
                }
                if block.is_empty() {
                    self.try_reclaim_empty_blocks(pages);
                }
            },
            None => {},
        }
    }
}

/// The memory of an allocation of pages lies within the address space.
proof fn lemma_allocation_addressable(
    before: &PageAllocator,
    after: &PageAllocator,
    n: int,
    addr: u64,
)
    requires
        before.addressable(),
        n > 0,
        before.allocates(after, n, AllocationType::Supervisor, addr),
    ensures
        addr + n * PAGE_SIZE <= u64::MAX,
{
    let (i, p) = choose|i: int, p: int|
        #![trigger before.first_run(i, p, n)]
        before.first_run(i, p, n) && addr == before.region_list()[i].base + p * PAGE_SIZE
            && before.marks(
            after,
            before.region_list()[i].bitmap_start_bit + p,
            n,
            AllocationType::Supervisor,
        );
    assert(before.region_list()[i].end() <= u64::MAX);
}

/// An allocation of pages that succeeds had a run of pages to take.
proof fn lemma_allocates_not_no_run(
    before: &PageAllocator,
    after: &PageAllocator,
    n: int,
    alloc_type: AllocationType,
    addr: u64,
)
    requires
        before.allocates(after, n, alloc_type, addr),
    ensures
        !before.no_run(n),
{
    let (i, p) = choose|i: int, p: int|
        #![trigger before.first_run(i, p, n)]
        before.first_run(i, p, n) && addr == before.region_list()[i].base + p * PAGE_SIZE
            && before.marks(
            after,
            before.region_list()[i].bitmap_start_bit + p,
            n,
            alloc_type,
        );
    assert(before.run_free(i, p, n));
}

/// An allocation lies within its block, past what was allocated before, and at a multiple of
/// its alignment.
pub proof fn law_alloc_within_block(block: PoolBlock, size: usize, align: usize)
    requires
        block.wf(),
        is_layout(size, align),
        block.fits(size, align),
    ensures
        block.base + block.offset <= block.next_address(align),
        block.next_address(align) + size <= block.base + block.num_pages * PAGE_SIZE,
        block.next_address(align) % pool_align(align) == 0,
        pool_align(align) >= MIN_POOL_ALLOC_SIZE,
{
    lemma_padding(block.base + block.offset, pool_align(align));
}

/// Two allocations from one block, one after the other, do not overlap.
pub proof fn law_allocs_apart(
    block: PoolBlock,
    size1: usize,
    align1: usize,
    size2: usize,
    align2: usize,
)
    requires
        block.wf(),
        is_layout(size1, align1),
        is_layout(size2, align2),
        block.fits(size1, align1),
        block.after_alloc(size1, align1).fits(size2, align2),
    ensures
        block.next_address(align1) + size1 <= block.after_alloc(size1, align1).next_address(align2),
{
    lemma_padding(block.base + block.offset, pool_align(align1));
    lemma_padding(block.base + block.after_alloc(size1, align1).offset, pool_align(align2));
}

/// A deallocation undoes the count of an allocation: the block is as empty as it was.
pub proof fn law_dealloc_undoes_count(block: PoolBlock, size: usize, align: usize)
    requires
        block.alloc_count < usize::MAX,
    ensures
        block.after_alloc(size, align).after_dealloc().alloc_count == block.alloc_count,
{
}

/// An allocation that is not empty is found again by its address: some block holds it.
pub proof fn law_allocation_is_found(
    blocks: Seq<PoolBlock>,
    i: int,
    size: usize,
    align: usize,
    from: int,
)
    requires
        0 <= from <= i < blocks.len(),
        blocks[i].wf(),
        is_layout(size, align),
        size > 0,
        blocks[i].fits(size, align),
    ensures
        block_of(
            blocks.update(i, blocks[i].after_alloc(size, align)),
            blocks[i].next_address(align) as u64,
            from,
        ) matches Some(j) && from <= j <= i,
    decreases i - from,
{
    law_alloc_within_block(blocks[i], size, align);
    let after = blocks.update(i, blocks[i].after_alloc(size, align));
    let addr = blocks[i].next_address(align) as u64;
    assert(after[i].holds(addr));
    if from < i && !after[from].holds(addr) {
        law_allocation_is_found(blocks, i, size, align, from + 1);
    }
}

/// An allocation from a block is at the lowest address behind what is in use that has the
/// alignment; it fits if and only if the block is in use and it then ends within it; and the block
/// is then in use up to its end, with one more allocation and the same pages.
pub proof fn law_alloc_is_lowest(block: PoolBlock, size: usize, align: usize, x: int)
    requires
        block.wf(),
        is_layout(size, align),
    ensures
        block.base + block.offset <= x && x % pool_align(align) == 0 ==> block.next_address(align)
            <= x,
        block.fits(size, align) <==> block.base != 0 && block.num_pages > 0 && block.next_address(
            align,
        ) + size <= block.base + block.num_pages * 4096,
        block.fits(size, align) && block.alloc_count < usize::MAX ==> {
            let after = block.after_alloc(size, align);
            &&& after.base == block.base && after.num_pages == block.num_pages
            &&& after.base + after.offset == block.next_address(align) + size
            &&& after.alloc_count == block.alloc_count + 1
        },
{
    let at = block.base + block.offset;
    lemma_padding(at, pool_align(align));
    if at <= x && x % pool_align(align) == 0 {
        law_padding_is_least(at, pool_align(align), x);
    }
}

/// An allocation is served by the first block that it fits into, and none is found only if it fits
/// into none.
pub proof fn law_first_block_serves(blocks: Seq<PoolBlock>, size: usize, align: usize, from: int)
    requires
        0 <= from,
    ensures
        match block_with_room(blocks, size, align, from) {
            Some(i) => from <= i < blocks.len() && blocks[i].fits(size, align) && forall|j: int|
                from <= j < i ==> !(#[trigger] blocks[j]).fits(size, align),
            None => forall|j: int|
                from <= j < blocks.len() ==> !(#[trigger] blocks[j]).fits(size, align),
        },
    decreases blocks.len() - from,
{
    if from < blocks.len() && !blocks[from].fits(size, align) {
        law_first_block_serves(blocks, size, align, from + 1);
    }
}

/// The block of an address is the first one in use that has it among its pages, and none is found
/// only if none has.
pub proof fn law_block_of_address(blocks: Seq<PoolBlock>, addr: u64, from: int)
    requires
        0 <= from,
    ensures
        match block_of(blocks, addr, from) {
            Some(i) => from <= i < blocks.len() && blocks[i].base != 0 && blocks[i].base <= addr
                < blocks[i].base + blocks[i].num_pages * 4096 && forall|j: int|
                from <= j < i ==> (#[trigger] blocks[j]).base == 0 || !(blocks[j].base <= addr
                    < blocks[j].base + blocks[j].num_pages * 4096),
            None => forall|j: int|
                from <= j < blocks.len() ==> (#[trigger] blocks[j]).base == 0 || !(blocks[j].base
                    <= addr < blocks[j].base + blocks[j].num_pages * 4096),
        },
    decreases blocks.len() - from,
{
    if from < blocks.len() {
        assert(blocks[from].holds(addr) <==> blocks[from].base != 0 && blocks[from].base <= addr
            < blocks[from].base + blocks[from].num_pages * 4096);
        if !blocks[from].holds(addr) {
            law_block_of_address(blocks, addr, from + 1);
        }
    }
}

/// A new block has as many pages as the allocation needs, one at least, and no more; and it starts
/// with no allocation.
pub proof fn law_new_block(base: u64, size: int)
    requires
        0 <= size <= usize::MAX,
    ensures
        size <= block_pages(size) * 4096,
        size > 0 ==> (block_pages(size) - 1) * 4096 < size,
        size == 0 ==> block_pages(size) == 1,
        ({
            let block = new_block(base, block_pages(size) as usize);
            &&& block.base == base && block.num_pages == block_pages(size)
            &&& block.offset == 0 && block.alloc_count == 0
        }),
{
}

/// Reclaiming gives back the pages of blocks without allocations, and of no others: a block with
/// an allocation stays as it is, and so does one whose pages cannot be freed.
pub proof fn law_reclaim_spares_blocks_in_use(
    blocks: Seq<PoolBlock>,
    after: Seq<PoolBlock>,
    steps: Seq<PageAllocator>,
    i: int,
)
    requires
        all_reclaimed(blocks, after, steps),
        0 <= i < blocks.len(),
    ensures
        after.len() == blocks.len(),
        steps.len() == blocks.len() + 1,
        blocks[i].alloc_count > 0 ==> after[i] == blocks[i] && steps[i + 1] == steps[i],
        after[i] == blocks[i] || (blocks[i].alloc_count == 0 && after[i].base == 0
            && after[i].num_pages == 0),
        blocks[i].base != 0 && blocks[i].num_pages > 0 && blocks[i].alloc_count == 0
            && steps[i].free_verdict(blocks[i].base, blocks[i].num_pages as int) is Ok ==> {
            &&& after[i].base == 0 && after[i].num_pages == 0 && after[i].offset == 0
                && after[i].alloc_count == 0
            &&& steps[i].clears(
                &steps[i + 1],
                steps[i].bit_of_address(blocks[i].base)->0,
                blocks[i].num_pages as int,
            )
        },
        blocks[i].base == 0 || blocks[i].num_pages == 0 || steps[i].free_verdict(
            blocks[i].base,
            blocks[i].num_pages as int,
        ) is Err ==> after[i] == blocks[i] && steps[i + 1] == steps[i],
{
    assert(reclaimed(blocks[i], after[i], &steps[i], &steps[i + 1]));
}

/// Giving memory back takes one allocation off its block, down to none, and leaves the rest of the
/// block as it is.
pub proof fn law_dealloc_takes_one(block: PoolBlock)
    ensures
        block.alloc_count > 0 ==> block.after_dealloc().alloc_count == block.alloc_count - 1,
        block.alloc_count == 0 ==> block.after_dealloc().alloc_count == 0,
        block.after_dealloc().base == block.base,
        block.after_dealloc().num_pages == block.num_pages,
        block.after_dealloc().offset == block.offset,
{
}

} // verus!
