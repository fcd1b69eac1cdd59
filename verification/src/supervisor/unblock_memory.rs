//! Unblocked memory region management.
//!
//! By default, all memory outside MMRAM is blocked. The tracker holds the regions that have
//! been unblocked for access.
//!
//! - It is initialized from memory policy descriptors.
//! - Regions can be added by [`UnblockedMemoryTracker::unblock_memory`].
//! - [`UnblockedMemoryTracker::is_memory_blocked`] validates accesses.
//! - A request to unblock a region a second time, with the same attributes, is granted.
//! - A request that overlaps an unblocked region in any other way is rejected.

use crate::policy::types::{
    MemDescriptorV1_0, RESOURCE_ATTR_EXECUTE, RESOURCE_ATTR_READ, RESOURCE_ATTR_WRITE,
};
use crate::supervisor::mm_mem::PageAllocator;
use vstd::prelude::*;

verus! {

/// Maximum number of unblocked memory regions that can be tracked.
pub const MAX_UNBLOCKED_REGIONS: usize = 256;

/// `EFI_MEMORY_SP` attribute bit: supervisor page.
pub const EFI_MEMORY_SP: u64 = 0x4_0000;

/// Errors that can occur during unblock memory operations.
#[derive(Debug, Clone, Copy, PartialEq, Eq, Structural)]
pub enum UnblockError {
    /// The region tracker has not been initialized.
    NotInitialized,
    /// Already initialized (cannot re-initialize).
    AlreadyInitialized,
    /// Too many regions to track.
    TooManyRegions,
    /// The requested region overlaps with MMRAM.
    OverlapsWithMmram,
    /// The requested region overlaps with an existing unblocked region but is not the same,
    /// or has different attributes.
    ConflictingAttributes,
    /// The requested region is already unblocked (identical request).
    AlreadyUnblocked,
    /// Invalid parameters (zero length).
    InvalidParameter,
    /// The region's address + size would overflow.
    AddressOverflow,
}

/// The end of `size` bytes at `base`, or the last address.
pub open spec fn range_end(base: u64, size: u64) -> int {
    if base + size > u64::MAX {
        u64::MAX as int
    } else {
        base + size
    }
}

/// A single entry in the unblocked memory region list.
#[derive(Clone, Copy, Debug, Default, PartialEq, Eq, Structural)]
pub struct UnblockedMemoryEntry {
    /// Base address of the unblocked region.
    pub base_address: u64,
    /// Size of the unblocked region in bytes.
    pub size: u64,
    /// Memory attributes (combination of `RESOURCE_ATTR_*`).
    pub attributes: u32,
    /// Whether this entry is valid (in use).
    pub valid: bool,
}

impl UnblockedMemoryEntry {
    /// The entry of a region.
    pub open spec fn of(base_address: u64, size: u64, attributes: u32) -> Self {
        UnblockedMemoryEntry { base_address, size, attributes, valid: true }
    }

    /// The end of the region, exclusive.
    pub open spec fn end(self) -> int {
        range_end(self.base_address, self.size)
    }

    /// The entry holds all of `size` bytes at `base`, of which there is at least one.
    pub open spec fn holds(self, base: u64, size: u64) -> bool {
        self.valid && size > 0 && self.base_address <= base && range_end(base, size) <= self.end()
    }

    /// The entry shares a byte with `size` bytes at `base`.
    pub open spec fn meets(self, base: u64, size: u64) -> bool {
        self.valid && size > 0 && base < self.end() && self.base_address < range_end(base, size)
    }

    /// The entry has this base and size.
    pub open spec fn is_region(self, base: u64, size: u64) -> bool {
        self.valid && self.base_address == base && self.size == size
    }

    /// Creates a new empty (invalid) entry.
    pub fn empty() -> (r: Self)
        ensures
            r == (UnblockedMemoryEntry { base_address: 0, size: 0, attributes: 0, valid: false }),
    {
        UnblockedMemoryEntry { base_address: 0, size: 0, attributes: 0, valid: false }
    }

    /// Creates a new valid entry from base, size, and attributes.
    pub fn new(base_address: u64, size: u64, attributes: u32) -> (r: Self)
        ensures
            r == Self::of(base_address, size, attributes),
    {
        UnblockedMemoryEntry { base_address, size, attributes, valid: true }
    }

    /// Returns the end address (exclusive) of this region.
    pub fn end_address(&self) -> (r: u64)
        ensures
            r == self.end(),
    {
        self.base_address.saturating_add(self.size)
    }

    /// Checks if the given range is fully contained within this entry.
    pub fn contains(&self, base: u64, size: u64) -> (r: bool)
        ensures
            r == self.holds(base, size),
    {
        if !self.valid || size == 0 {
            return false;
        }
        let query_end: u64 = base.saturating_add(size);
        base >= self.base_address && query_end <= self.end_address()
    }

    /// Checks if the given range overlaps with this entry.
    pub fn overlaps(&self, base: u64, size: u64) -> (r: bool)
        ensures
            r == self.meets(base, size),
    {
        if !self.valid || size == 0 {
            return false;
        }
        let query_end: u64 = base.saturating_add(size);
        let entry_end: u64 = self.end_address();
        base < entry_end && self.base_address < query_end
    }

    /// Checks if this entry has the base, the size, and the attributes of the query.
    pub fn is_identical(&self, base: u64, size: u64, attributes: u32) -> (r: bool)
        ensures
            r == (self.is_region(base, size) && self.attributes == attributes),
    {
        self.valid && self.base_address == base && self.size == size && self.attributes
            == attributes
    }
}

/// The first entry, from index `from` on, that has this base and size.
pub open spec fn exact_match(
    entries: Seq<UnblockedMemoryEntry>,
    base: u64,
    size: u64,
    from: int,
) -> Option<UnblockedMemoryEntry>
    decreases entries.len() - from,
{
    if from >= entries.len() {
        None
    } else if entries[from].is_region(base, size) {
        Some(entries[from])
    } else {
        exact_match(entries, base, size, from + 1)
    }
}

/// The entries among the first `n` that share a byte with `size` bytes at `base`.
pub open spec fn overlapping(
    entries: Seq<UnblockedMemoryEntry>,
    base: u64,
    size: u64,
    n: int,
) -> Seq<UnblockedMemoryEntry>
    decreases n,
{
    if n <= 0 {
        Seq::empty()
    } else if entries[n - 1].meets(base, size) {
        overlapping(entries, base, size, n - 1).push(entries[n - 1])
    } else {
        overlapping(entries, base, size, n - 1)
    }
}

/// Some entry shares a byte with `size` bytes at `base`.
pub open spec fn some_meets(entries: Seq<UnblockedMemoryEntry>, base: u64, size: u64) -> bool {
    exists|i: int| 0 <= i < entries.len() && (#[trigger] entries[i]).meets(base, size)
}

/// Some entry holds all of `size` bytes at `base`.
pub open spec fn some_holds(entries: Seq<UnblockedMemoryEntry>, base: u64, size: u64) -> bool {
    exists|i: int| 0 <= i < entries.len() && (#[trigger] entries[i]).holds(base, size)
}

/// The list of unblocked memory regions.
pub struct UnblockedMemoryState {
    /// The entries.
    entries: Vec<UnblockedMemoryEntry>,
}

impl UnblockedMemoryState {
    /// The entries.
    pub closed spec fn list(&self) -> Seq<UnblockedMemoryEntry> {
        self.entries@
    }

    /// There are no more entries than can be tracked, and each is valid.
    pub open spec fn wf(&self) -> bool {
        &&& self.list().len() <= MAX_UNBLOCKED_REGIONS
        &&& forall|i: int| 0 <= i < self.list().len() ==> (#[trigger] self.list()[i]).valid
    }

    /// Creates a new empty state.
    pub fn new() -> (r: Self)
        ensures
            r.wf(),
            r.list() == Seq::<UnblockedMemoryEntry>::empty(),
    {
        UnblockedMemoryState { entries: Vec::new() }
    }

    /// Finds an entry that exactly matches the given base and size.
    pub fn find_exact_match(&self, base: u64, size: u64) -> (r: Option<UnblockedMemoryEntry>)
        ensures
            r == exact_match(self.list(), base, size, 0),
    {
        let mut i: usize = 0;
        while i < self.entries.len()
            invariant
                i <= self.entries@.len(),
                exact_match(self.entries@, base, size, 0) == exact_match(
                    self.entries@,
                    base,
                    size,
                    i as int,
                ),
            decreases self.entries@.len() - i,
        {
            let e = self.entries[i];
            if e.valid && e.base_address == base && e.size == size {
                return Some(e);
            }
            i = i + 1;
        }
        None
    }

    /// Finds all entries that overlap with the given range.
    pub fn find_overlapping(&self, base: u64, size: u64) -> (r: Vec<UnblockedMemoryEntry>)
        ensures
            r@ == overlapping(self.list(), base, size, self.list().len() as int),
            (r@.len() > 0) == some_meets(self.list(), base, size),
    {
        let mut found: Vec<UnblockedMemoryEntry> = Vec::new();
        let mut i: usize = 0;
        while i < self.entries.len()
            invariant
                i <= self.entries@.len(),
                found@ == overlapping(self.entries@, base, size, i as int),
                found@.len() > 0 ==> some_meets(self.entries@, base, size),
                found@.len() == 0 ==> forall|j: int|
                    0 <= j < i ==> !(#[trigger] self.entries@[j]).meets(base, size),
            decreases self.entries@.len() - i,
        {
            if self.entries[i].overlaps(base, size) {
                assert(self.entries@[i as int].meets(base, size));
                found.push(self.entries[i]);
            }
            i = i + 1;
        }
        found
    }

    /// Adds a new entry if there is space.
    pub fn add_entry(&mut self, base: u64, size: u64, attributes: u32) -> (r: Result<
        (),
        UnblockError,
    >)
        requires
            old(self).wf(),
        ensures
            final(self).wf(),
            if old(self).list().len() < MAX_UNBLOCKED_REGIONS {
                r is Ok && final(self).list() == old(self).list().push(
                    UnblockedMemoryEntry::of(base, size, attributes),
                )
            } else {
                r == Err::<(), UnblockError>(UnblockError::TooManyRegions) && *final(self) == *old(
                    self,
                )
            },
    {
        if self.entries.len() >= MAX_UNBLOCKED_REGIONS {
            return Err(UnblockError::TooManyRegions);
        }
        self.entries.push(UnblockedMemoryEntry::new(base, size, attributes));
        assert forall|i: int|
            0 <= i < self.list().len() implies (#[trigger] self.list()[i]).valid by {
            if i < old(self).list().len() {
                assert(self.list()[i] == old(self).list()[i]);
            }
        }
        Ok(())
    }
}

/// The entries that the first `n` descriptors give: one for each region that is not empty
/// and not inside MMRAM.
pub open spec fn kept_entries(
    mmram: &PageAllocator,
    descriptors: Seq<MemDescriptorV1_0>,
    n: int,
) -> Seq<UnblockedMemoryEntry>
    decreases n,
{
    if n <= 0 {
        Seq::empty()
    } else {
        let d = descriptors[n - 1];
        if d.size == 0 || mmram.inside_mmram(d.base_address, d.size) {
            kept_entries(mmram, descriptors, n - 1)
        } else {
            kept_entries(mmram, descriptors, n - 1).push(
                UnblockedMemoryEntry::of(d.base_address, d.size, d.mem_attributes),
            )
        }
    }
}

/// One record of a dump of the unblocked regions.
#[derive(Debug, Clone, Copy, PartialEq, Eq, Structural)]
pub struct RegionRecord {
    /// Index of the region.
    pub index: usize,
    /// Base address of the region.
    pub first: u64,
    /// End address of the region, exclusive.
    pub end: u64,
    /// Whether it can be read.
    pub read: bool,
    /// Whether it can be written.
    pub write: bool,
    /// Whether it can be executed.
    pub execute: bool,
}

/// The record of an entry.
pub open spec fn region_record(index: int, e: UnblockedMemoryEntry) -> RegionRecord {
    RegionRecord {
        index: index as usize,
        first: e.base_address,
        end: e.end() as u64,
        read: e.attributes & RESOURCE_ATTR_READ != 0,
        write: e.attributes & RESOURCE_ATTR_WRITE != 0,
        execute: e.attributes & RESOURCE_ATTR_EXECUTE != 0,
    }
}

/// The descriptor of an entry.
pub open spec fn entry_descriptor(e: UnblockedMemoryEntry) -> MemDescriptorV1_0 {
    MemDescriptorV1_0 {
        base_address: e.base_address,
        size: e.size,
        mem_attributes: e.attributes,
        reserved: 0,
    }
}

/// Unblocked memory region tracker.
pub struct UnblockedMemoryTracker {
    /// Whether the tracker has been initialized.
    initialized: bool,
    /// Whether core initialization is complete, after which checks are enforced.
    core_init_complete: bool,
    /// The regions.
    state: UnblockedMemoryState,
}

impl UnblockedMemoryTracker {
    /// The tracker has been initialized.
    pub closed spec fn ready(&self) -> bool {
        self.initialized
    }

    /// Checks are enforced.
    pub closed spec fn enforcing(&self) -> bool {
        self.core_init_complete
    }

    /// The unblocked regions.
    pub closed spec fn regions(&self) -> Seq<UnblockedMemoryEntry> {
        self.state.list()
    }

    /// The list of regions is well-formed.
    pub closed spec fn wf(&self) -> bool {
        self.state.wf()
    }

    /// No two regions share a byte.
    pub open spec fn apart(&self) -> bool {
        forall|i: int, j: int|
            0 <= i < j < self.regions().len() ==> !(#[trigger] self.regions()[i]).meets(
                (#[trigger] self.regions()[j]).base_address,
                self.regions()[j].size,
            )
    }

    /// The answer to a request to unblock a region.
    pub open spec fn verdict(
        &self,
        mmram: &PageAllocator,
        base: u64,
        size: u64,
        attributes: u32,
    ) -> Result<(), UnblockError> {
        if size == 0 {
            Err(UnblockError::InvalidParameter)
        } else if base + size > u64::MAX {
            Err(UnblockError::AddressOverflow)
        } else if mmram.overlaps_mmram(base, size) {
            Err(UnblockError::OverlapsWithMmram)
        } else {
            match exact_match(self.regions(), base, size, 0) {
                Some(e) => if e.attributes == attributes {
                    Ok(())
                } else {
                    Err(UnblockError::ConflictingAttributes)
                },
                None => if some_meets(self.regions(), base, size) {
                    Err(UnblockError::ConflictingAttributes)
                } else if self.regions().len() >= MAX_UNBLOCKED_REGIONS {
                    Err(UnblockError::TooManyRegions)
                } else {
                    Ok(())
                },
            }
        }
    }

    /// The regions after a request to unblock one: a region that is granted is added, unless
    /// it was there.
    pub open spec fn regions_after(
        &self,
        mmram: &PageAllocator,
        base: u64,
        size: u64,
        attributes: u32,
    ) -> Seq<UnblockedMemoryEntry> {
        if self.verdict(mmram, base, size, attributes) is Ok && exact_match(
            self.regions(),
            base,
            size,
            0,
        ) is None {
            self.regions().push(UnblockedMemoryEntry::of(base, size, attributes))
        } else {
            self.regions()
        }
    }

    /// An access to `size` bytes at `base` is blocked.
    pub open spec fn blocked(&self, base: u64, size: u64) -> bool {
        self.enforcing() && (size == 0 || base + size > u64::MAX || !some_holds(
            self.regions(),
            base,
            size,
        ))
    }

    /// Creates a new unblocked memory tracker.
    pub fn new() -> (r: Self)
        ensures
            r.wf(),
            !r.ready(),
            !r.enforcing(),
            r.regions() == Seq::<UnblockedMemoryEntry>::empty(),
            r.apart(),
    {
        UnblockedMemoryTracker {
            initialized: false,
            core_init_complete: false,
            state: UnblockedMemoryState::new(),
        }
    }

    /// Initializes the tracker from memory policy descriptors.
    ///
    /// Fails if the tracker has been initialized, and if there are too many regions to
    /// track, in which case as many as can be tracked are.
    pub fn init_from_descriptors(
        &mut self,
        mmram: &PageAllocator,
        descriptors: &[MemDescriptorV1_0],
    ) -> (r: Result<(), UnblockError>)
        requires
            old(self).wf(),
            mmram.addressable(),
        ensures
            final(self).wf(),
            final(self).ready(),
            final(self).enforcing() == old(self).enforcing(),
            if old(self).ready() {
                r == Err::<(), UnblockError>(UnblockError::AlreadyInitialized)
                    && final(self).regions() == old(self).regions()
            } else {
                let all = old(self).regions() + kept_entries(
                    mmram,
                    descriptors@,
                    descriptors@.len() as int,
                );
                if all.len() <= MAX_UNBLOCKED_REGIONS {
                    r is Ok && final(self).regions() == all
                } else {
                    r == Err::<(), UnblockError>(UnblockError::TooManyRegions)
                        && final(self).regions() == all.take(MAX_UNBLOCKED_REGIONS as int)
                }
            },
    {
        if self.initialized {
            return Err(UnblockError::AlreadyInitialized);
        }
        self.initialized = true;
        let ghost before = self.regions();
        let ghost n = descriptors@.len() as int;
        let mut i: usize = 0;
        assert(before + kept_entries(mmram, descriptors@, 0) =~= before);
        while i < descriptors.len()
            invariant
                i <= descriptors@.len(),
                n == descriptors@.len(),
                self.wf(),
                self.ready(),
                !old(self).ready(),
                mmram.addressable(),
                before == old(self).regions(),
                self.enforcing() == old(self).enforcing(),
                self.regions() == before + kept_entries(mmram, descriptors@, i as int),
            decreases descriptors@.len() - i,
        {
            let desc = descriptors[i];
            if desc.size != 0 && !mmram.is_region_inside_mmram(desc.base_address, desc.size) {
                match self.state.add_entry(desc.base_address, desc.size, desc.mem_attributes) {
                    Ok(()) => {
                        assert(self.regions() =~= before + kept_entries(
                            mmram,
                            descriptors@,
                            i + 1,
                        ));
                    },
                    Err(e) => {
                        proof {
                            lemma_kept_entries_grow(mmram, descriptors@, i as int, n);
                            lemma_kept_entries_grow(mmram, descriptors@, i + 1, n);
                            let all = before + kept_entries(mmram, descriptors@, n);
                            assert(self.regions() =~= all.take(MAX_UNBLOCKED_REGIONS as int));
                        }
                        return Err(e);
                    },
                }
            }
            i = i + 1;
        }
        Ok(())
    }

    /// Initializes the tracker from a buffer of memory policy descriptors. Without a buffer,
    /// or with an empty one, the tracker starts with no further regions.
    pub fn init_from_buffer(
        &mut self,
        mmram: &PageAllocator,
        buffer: Option<&[MemDescriptorV1_0]>,
    ) -> (r: Result<(), UnblockError>)
        requires
            old(self).wf(),
            mmram.addressable(),
        ensures
            final(self).wf(),
            final(self).ready(),
            final(self).enforcing() == old(self).enforcing(),
            if old(self).ready() {
                r == Err::<(), UnblockError>(UnblockError::AlreadyInitialized)
                    && final(self).regions() == old(self).regions()
            } else {
                let kept = match buffer {
                    Some(d) => kept_entries(mmram, d@, d@.len() as int),
                    None => Seq::empty(),
                };
                let all = old(self).regions() + kept;
                if all.len() <= MAX_UNBLOCKED_REGIONS {
                    r is Ok && final(self).regions() == all
                } else {
                    r == Err::<(), UnblockError>(UnblockError::TooManyRegions)
                        && final(self).regions() == all.take(MAX_UNBLOCKED_REGIONS as int)
                }
            },
    {
        match buffer {
            Some(descriptors) => {
                if descriptors.len() > 0 {
                    return self.init_from_descriptors(mmram, descriptors);
                }
            },
            None => {},
        }
        if self.initialized {
            return Err(UnblockError::AlreadyInitialized);
        }
        self.initialized = true;
        assert(self.regions() + Seq::<UnblockedMemoryEntry>::empty() =~= self.regions());
        Ok(())
    }

    /// Marks core initialization as complete: from now on, checks are enforced.
    pub fn set_core_init_complete(&mut self)
        requires
            old(self).wf(),
        ensures
            final(self).wf(),
            final(self).enforcing(),
            final(self).ready() == old(self).ready(),
            final(self).regions() == old(self).regions(),
    {
        self.core_init_complete = true;
    }

    /// Checks if core initialization is complete.
    pub fn is_core_init_complete(&self) -> (r: bool)
        ensures
            r == self.enforcing(),
    {
        self.core_init_complete
    }

    /// Checks a request to unblock a region, without unblocking it.
    pub fn check_unblock(
        &self,
        mmram: &PageAllocator,
        base: u64,
        size: u64,
        attributes: u32,
    ) -> (r: Result<(), UnblockError>)
        requires
            self.wf(),
            mmram.addressable(),
        ensures
            r == self.verdict(mmram, base, size, attributes),
    {
        if size == 0 {
            return Err(UnblockError::InvalidParameter);
        }
        if base.checked_add(size).is_none() {
            return Err(UnblockError::AddressOverflow);
        }
        if mmram.is_region_overlapping_mmram(base, size) {
            return Err(UnblockError::OverlapsWithMmram);
        }
        match self.state.find_exact_match(base, size) {
            Some(existing) => {
                if existing.attributes == attributes {
                    return Ok(());
                } else {
                    return Err(UnblockError::ConflictingAttributes);
                }
            },
            None => {},
        }
        if self.state.find_overlapping(base, size).len() > 0 {
            return Err(UnblockError::ConflictingAttributes);
        }
        if self.state.entries.len() >= MAX_UNBLOCKED_REGIONS {
            return Err(UnblockError::TooManyRegions);
        }
        Ok(())
    }

    /// Finds the unblocked region that has exactly the given base and size.
    pub fn find_region(&self, base: u64, size: u64) -> (r: Option<UnblockedMemoryEntry>)
        ensures
            r == exact_match(self.regions(), base, size, 0),
    {
        self.state.find_exact_match(base, size)
    }

    /// Unblocks a memory region for access.
    ///
    /// The region must not overlap with MMRAM, nor with an unblocked region other than
    /// itself. To unblock a region again with the same attributes changes nothing.
    pub fn unblock_memory(
        &mut self,
        mmram: &PageAllocator,
        base: u64,
        size: u64,
        attributes: u32,
    ) -> (r: Result<(), UnblockError>)
        requires
            old(self).wf(),
            mmram.addressable(),
        ensures
            final(self).wf(),
            final(self).ready() == old(self).ready(),
            final(self).enforcing() == old(self).enforcing(),
            r == old(self).verdict(mmram, base, size, attributes),
            final(self).regions() == old(self).regions_after(mmram, base, size, attributes),
            old(self).apart() ==> final(self).apart(),
    {
        match self.check_unblock(mmram, base, size, attributes) {
            Ok(()) => {},
            Err(e) => {
                return Err(e);
            },
        }
        if self.find_region(base, size).is_some() {
            return Ok(());
        }
        match self.state.add_entry(base, size, attributes) {
            Ok(()) => {
                proof {
                    if old(self).apart() {
                        assert forall|i: int, j: int|
                            0 <= i < j < self.regions().len() implies !(
                        #[trigger] self.regions()[i]).meets(
                            (#[trigger] self.regions()[j]).base_address,
                            self.regions()[j].size,
                        ) by {
                            assert(self.regions()[i] == old(self).regions()[i]);
                            if j < old(self).regions().len() {
                                assert(self.regions()[j] == old(self).regions()[j]);
                            } else {
                                assert(!old(self).regions()[i].meets(base, size));
                            }
                        }
                    }
                }
                Ok(())
            },
            Err(e) => Err(e),
        }
    }

    /// Checks if a memory region is blocked. Before core initialization is complete, nothing
    /// is.
    pub fn is_memory_blocked(&self, base: u64, size: u64) -> (r: bool)
        ensures
            r == self.blocked(base, size),
    {
        if !self.core_init_complete {
            return false;
        }
        if size == 0 {
            return true;
        }
        if base.checked_add(size).is_none() {
            return true;
        }
        let mut i: usize = 0;
        while i < self.state.entries.len()
            invariant
                i <= self.regions().len(),
                self.enforcing(),
                size > 0,
                base + size <= u64::MAX,
                self.regions() == self.state.entries@,
                forall|j: int| 0 <= j < i ==> !(#[trigger] self.regions()[j]).holds(base, size),
            decreases self.regions().len() - i,
        {
            if self.state.entries[i].contains(base, size) {
                assert(self.regions()[i as int].holds(base, size));
                return false;
            }
            i = i + 1;
        }
        true
    }

    /// Checks if a memory region is within the unblocked regions.
    pub fn is_within_unblocked_region(&self, base: u64, size: u64) -> (r: bool)
        ensures
            r == !self.blocked(base, size),
    {
        !self.is_memory_blocked(base, size)
    }

    /// Gets the current count of unblocked regions.
    pub fn region_count(&self) -> (r: usize)
        ensures
            r == self.regions().len(),
    {
        self.state.entries.len()
    }

    /// Collects unblocked regions, from `start_index` on, into a buffer, as many as both
    /// have. Returns how many those were.
    pub fn collect_regions(&self, start_index: usize, buffer: &mut Vec<MemDescriptorV1_0>) -> (r:
        usize)
        requires
            self.wf(),
        ensures
            ({
                let left = self.regions().len() - start_index;
                &&& r == if left <= 0 {
                    0
                } else if left < old(buffer)@.len() {
                    left
                } else {
                    old(buffer)@.len() as int
                }
                &&& final(buffer)@.len() == old(buffer)@.len()
                &&& forall|i: int|
                    0 <= i < old(buffer)@.len() ==> #[trigger] final(buffer)@[i] == if i < r {
                        entry_descriptor(self.regions()[start_index + i])
                    } else {
                        old(buffer)@[i]
                    }
            }),
    {
        let count: usize = self.state.entries.len();
        if start_index >= count || buffer.len() == 0 {
            return 0;
        }
        let ghost before = buffer@;
        let mut copied: usize = 0;
        while copied < count - start_index && copied < buffer.len()
            invariant
                self.wf(),
                start_index < count,
                count == self.regions().len(),
                self.regions() == self.state.entries@,
                copied <= count - start_index,
                copied <= buffer@.len(),
                buffer@.len() == before.len(),
                forall|i: int|
                    0 <= i < before.len() ==> #[trigger] buffer@[i] == if i < copied {
                        entry_descriptor(self.regions()[start_index + i])
                    } else {
                        before[i]
                    },
            decreases count - start_index - copied,
        {
            let entry = self.state.entries[start_index + copied];
            buffer.set(
                copied,
                MemDescriptorV1_0 {
                    base_address: entry.base_address,
                    size: entry.size,
                    mem_attributes: entry.attributes,
                    reserved: 0,
                },
            );
            copied = copied + 1;
        }
        copied
    }

    /// Dumps the unblocked regions.
    pub fn dump_regions(&self) -> (r: Vec<RegionRecord>)
        requires
            self.wf(),
        ensures
            r@.len() == self.regions().len(),
            forall|i: int|
                0 <= i < r@.len() ==> #[trigger] r@[i] == region_record(i, self.regions()[i]),
    {
        let mut records: Vec<RegionRecord> = Vec::new();
        let mut i: usize = 0;
        while i < self.state.entries.len()
            invariant
                i <= self.regions().len(),
                self.regions() == self.state.entries@,
                records@.len() == i,
                forall|j: int|
                    0 <= j < i ==> #[trigger] records@[j] == region_record(j, self.regions()[j]),
            decreases self.regions().len() - i,
        {
            let entry = self.state.entries[i];
            records.push(
                RegionRecord {
                    index: i,
                    first: entry.base_address,
                    end: entry.end_address(),
                    read: (entry.attributes & RESOURCE_ATTR_READ) != 0,
                    write: (entry.attributes & RESOURCE_ATTR_WRITE) != 0,
                    execute: (entry.attributes & RESOURCE_ATTR_EXECUTE) != 0,
                },
            );
            i = i + 1;
        }
        records
    }
}

/// The entries of more descriptors start with those of fewer.
proof fn lemma_kept_entries_grow(
    mmram: &PageAllocator,
    descriptors: Seq<MemDescriptorV1_0>,
    i: int,
    n: int,
)
    requires
        0 <= i <= n,
    ensures
        kept_entries(mmram, descriptors, i).len() <= kept_entries(mmram, descriptors, n).len(),
        kept_entries(mmram, descriptors, i) == kept_entries(mmram, descriptors, n).take(
            kept_entries(mmram, descriptors, i).len() as int,
        ),
    decreases n - i,
{
    if i < n {
        lemma_kept_entries_grow(mmram, descriptors, i, n - 1);
        let a = kept_entries(mmram, descriptors, i);
        let b = kept_entries(mmram, descriptors, n - 1);
        let c = kept_entries(mmram, descriptors, n);
        assert(b.take(a.len() as int) =~= c.take(a.len() as int));
    } else {
        let a = kept_entries(mmram, descriptors, i);
        assert(a.take(a.len() as int) =~= a);
    }
}

proof fn lemma_exact_match_push(
    entries: Seq<UnblockedMemoryEntry>,
    e: UnblockedMemoryEntry,
    base: u64,
    size: u64,
    from: int,
)
    requires
        0 <= from <= entries.len(),
        exact_match(entries, base, size, from) is None,
        e.is_region(base, size),
    ensures
        exact_match(entries.push(e), base, size, from) == Some(e),
    decreases entries.len() - from,
{
    if from < entries.len() {
        assert(entries.push(e)[from] == entries[from]);
        lemma_exact_match_push(entries, e, base, size, from + 1);
    }
}

proof fn lemma_exact_match_found(
    entries: Seq<UnblockedMemoryEntry>,
    base: u64,
    size: u64,
    from: int,
)
    requires
        0 <= from,
    ensures
        exact_match(entries, base, size, from) matches Some(e) ==> exists|i: int|
            from <= i < entries.len() && #[trigger] entries[i] == e && e.is_region(base, size),
    decreases entries.len() - from,
{
    if from < entries.len() && !entries[from].is_region(base, size) {
        lemma_exact_match_found(entries, base, size, from + 1);
    }
}

/// To unblock a region is idempotent: a request that was granted is granted again, and the
/// regions then stay as they are.
pub proof fn law_unblock_idempotent(
    before: &UnblockedMemoryTracker,
    after: &UnblockedMemoryTracker,
    mmram: &PageAllocator,
    base: u64,
    size: u64,
    attributes: u32,
)
    requires
        before.verdict(mmram, base, size, attributes) is Ok,
        after.regions() == before.regions_after(mmram, base, size, attributes),
    ensures
        after.verdict(mmram, base, size, attributes) is Ok,
        after.regions_after(mmram, base, size, attributes) == after.regions(),
        exact_match(after.regions(), base, size, 0) matches Some(e) && e.attributes == attributes,
{
    if exact_match(before.regions(), base, size, 0) is None {
        lemma_exact_match_push(
            before.regions(),
            UnblockedMemoryEntry::of(base, size, attributes),
            base,
            size,
            0,
        );
    }
}

/// What has been unblocked is not blocked, nor is any part of it.
pub proof fn law_unblocked_is_accessible(
    before: &UnblockedMemoryTracker,
    after: &UnblockedMemoryTracker,
    mmram: &PageAllocator,
    base: u64,
    size: u64,
    attributes: u32,
    inner_base: u64,
    inner_size: u64,
)
    requires
        before.verdict(mmram, base, size, attributes) is Ok,
        after.regions() == before.regions_after(mmram, base, size, attributes),
        inner_size > 0,
        base <= inner_base,
        inner_base + inner_size <= base + size,
    ensures
        !after.blocked(inner_base, inner_size),
{
    let regions = after.regions();
    if exact_match(before.regions(), base, size, 0) is None {
        let last = regions.len() - 1;
        assert(regions[last] == UnblockedMemoryEntry::of(base, size, attributes));
        assert(regions[last].holds(inner_base, inner_size));
    } else {
        lemma_exact_match_found(before.regions(), base, size, 0);
        let i = choose|i: int|
            0 <= i < regions.len() && (#[trigger] regions[i]).is_region(base, size);
        assert(regions[i].holds(inner_base, inner_size));
    }
}

/// Unblocking a region takes no access away.
pub proof fn law_unblock_only_adds(
    before: &UnblockedMemoryTracker,
    after: &UnblockedMemoryTracker,
    mmram: &PageAllocator,
    base: u64,
    size: u64,
    attributes: u32,
    query_base: u64,
    query_size: u64,
)
    requires
        after.enforcing() == before.enforcing(),
        after.regions() == before.regions_after(mmram, base, size, attributes),
        !before.blocked(query_base, query_size),
    ensures
        !after.blocked(query_base, query_size),
{
    if some_holds(before.regions(), query_base, query_size) {
        let i = choose|i: int|
            0 <= i < before.regions().len() && (#[trigger] before.regions()[i]).holds(
                query_base,
                query_size,
            );
        assert(after.regions()[i] == before.regions()[i]);
    }
}

/// Before core initialization is complete nothing is blocked; after it, everything is that
/// no unblocked region holds.
pub proof fn law_default_blocked(t: &UnblockedMemoryTracker, base: u64, size: u64)
    ensures
        !t.enforcing() ==> !t.blocked(base, size),
        t.enforcing() && t.regions().len() == 0 ==> t.blocked(base, size),
{
}

/// One MMRAM region holds all of `size` bytes at `base`.
pub open spec fn in_one_region(mmram: &PageAllocator, base: u64, size: u64) -> bool {
    mmram.ready() && exists|j: int|
        0 <= j < mmram.region_list().len() && (#[trigger] mmram.region_list()[j]).base <= base
            && base + size <= mmram.region_list()[j].base + mmram.region_list()[j].total_pages
            * 4096
}

proof fn lemma_in_one_region(mmram: &PageAllocator, base: u64, size: u64)
    ensures
        mmram.inside_mmram(base, size) == in_one_region(mmram, base, size),
{
    if mmram.inside_mmram(base, size) {
        let j = choose|j: int|
            0 <= j < mmram.region_list().len() && (#[trigger] mmram.region_list()[j]).base <= base
                && base + size <= mmram.region_list()[j].end();
        assert(mmram.region_list()[j].base <= base);
    }
    if in_one_region(mmram, base, size) {
        let j = choose|j: int|
            0 <= j < mmram.region_list().len() && (#[trigger] mmram.region_list()[j]).base <= base
                && base + size <= mmram.region_list()[j].base + mmram.region_list()[j].total_pages
                * 4096;
        assert(mmram.region_list()[j].base <= base);
    }
}

/// What one more descriptor adds to the regions that are tracked from the start: nothing if it is
/// empty or inside MMRAM, and else its own region, with its attributes, behind the others.
pub proof fn law_descriptor_is_tracked(
    mmram: &PageAllocator,
    descriptors: Seq<MemDescriptorV1_0>,
    d: MemDescriptorV1_0,
)
    ensures
        kept_entries(mmram, Seq::<MemDescriptorV1_0>::empty(), 0).len() == 0,
        ({
            let before = kept_entries(mmram, descriptors, descriptors.len() as int);
            let after = kept_entries(mmram, descriptors.push(d), descriptors.len() as int + 1);
            &&& d.size == 0 || in_one_region(mmram, d.base_address, d.size) ==> after == before
            &&& d.size != 0 && !in_one_region(mmram, d.base_address, d.size) ==> after
                == before.push(
                UnblockedMemoryEntry {
                    base_address: d.base_address,
                    size: d.size,
                    attributes: d.mem_attributes,
                    valid: true,
                },
            )
        }),
{
    lemma_in_one_region(mmram, d.base_address, d.size);
    lemma_kept_entries_prefix(mmram, descriptors, descriptors.push(d), descriptors.len() as int);
}

proof fn lemma_kept_entries_prefix(
    mmram: &PageAllocator,
    a: Seq<MemDescriptorV1_0>,
    b: Seq<MemDescriptorV1_0>,
    n: int,
)
    requires
        0 <= n <= a.len(),
        n <= b.len(),
        forall|i: int| 0 <= i < n ==> a[i] == b[i],
    ensures
        kept_entries(mmram, a, n) == kept_entries(mmram, b, n),
    decreases n,
{
    if n > 0 {
        lemma_kept_entries_prefix(mmram, a, b, n - 1);
    }
}

/// The entry is that of the descriptor, which is not empty and not inside MMRAM.
pub open spec fn tracks(
    mmram: &PageAllocator,
    d: MemDescriptorV1_0,
    e: UnblockedMemoryEntry,
) -> bool {
    &&& d.size != 0
    &&& !in_one_region(mmram, d.base_address, d.size)
    &&& e.base_address == d.base_address
    &&& e.size == d.size
    &&& e.attributes == d.mem_attributes
    &&& e.valid
}

/// Every entry that the descriptors give is that of a descriptor that is not empty and not inside
/// MMRAM, and every such descriptor has its entry.
pub proof fn law_tracked_descriptors(
    mmram: &PageAllocator,
    descriptors: Seq<MemDescriptorV1_0>,
    n: int,
)
    requires
        0 <= n <= descriptors.len(),
    ensures
        forall|k: int|
            0 <= k < kept_entries(mmram, descriptors, n).len() ==> exists|i: int|
                0 <= i < n && tracks(
                    mmram,
                    #[trigger] descriptors[i],
                    #[trigger] kept_entries(mmram, descriptors, n)[k],
                ),
        forall|i: int|
            0 <= i < n && (#[trigger] descriptors[i]).size != 0 && !in_one_region(
                mmram,
                descriptors[i].base_address,
                descriptors[i].size,
            ) ==> exists|k: int|
                0 <= k < kept_entries(mmram, descriptors, n).len() && tracks(
                    mmram,
                    descriptors[i],
                    #[trigger] kept_entries(mmram, descriptors, n)[k],
                ),
    decreases n,
{
    if n > 0 {
        law_tracked_descriptors(mmram, descriptors, n - 1);
        let before = kept_entries(mmram, descriptors, n - 1);
        let after = kept_entries(mmram, descriptors, n);
        let d = descriptors[n - 1];
        lemma_in_one_region(mmram, d.base_address, d.size);
        assert forall|k: int| 0 <= k < after.len() implies exists|i: int|
            0 <= i < n && tracks(mmram, #[trigger] descriptors[i], #[trigger] after[k]) by {
            if k < before.len() {
                assert(after[k] == before[k]);
                let i = choose|i: int|
                    0 <= i < n - 1 && tracks(mmram, #[trigger] descriptors[i], before[k]);
                assert(tracks(mmram, descriptors[i], after[k]));
            } else {
                assert(tracks(mmram, descriptors[n - 1], after[k]));
            }
        }
        assert forall|i: int|
            0 <= i < n && (#[trigger] descriptors[i]).size != 0 && !in_one_region(
                mmram,
                descriptors[i].base_address,
                descriptors[i].size,
            ) implies exists|k: int|
            0 <= k < after.len() && tracks(mmram, descriptors[i], #[trigger] after[k]) by {
            if i < n - 1 {
                let k = choose|k: int|
                    0 <= k < before.len() && tracks(mmram, descriptors[i], #[trigger] before[k]);
                assert(after[k] == before[k]);
            } else {
                assert(tracks(mmram, descriptors[i], after[before.len() as int]));
            }
        }
    }
}

/// When a tracker starts from descriptors and checks are enforced, an access is blocked if every
/// descriptor that holds it is inside MMRAM; so MMRAM itself stays blocked. An access that a
/// descriptor outside MMRAM holds is not blocked, unless there were too many regions.
pub proof fn law_mmram_stays_blocked(
    mmram: &PageAllocator,
    descriptors: Seq<MemDescriptorV1_0>,
    after: &UnblockedMemoryTracker,
    base: u64,
    size: u64,
)
    requires
        after.enforcing(),
        size > 0,
        base + size <= u64::MAX,
        ({
            let all = kept_entries(mmram, descriptors, descriptors.len() as int);
            if all.len() <= MAX_UNBLOCKED_REGIONS {
                after.regions() == all
            } else {
                after.regions() == all.take(MAX_UNBLOCKED_REGIONS as int)
            }
        }),
    ensures
        (forall|i: int|
            0 <= i < descriptors.len() && (#[trigger] descriptors[i]).base_address <= base && base
                + size <= descriptors[i].base_address + descriptors[i].size ==> in_one_region(
                mmram,
                descriptors[i].base_address,
                descriptors[i].size,
            )) ==> after.blocked(base, size),
        forall|i: int|
            0 <= i < descriptors.len() && (#[trigger] descriptors[i]).base_address <= base && base
                + size <= descriptors[i].base_address + descriptors[i].size && !in_one_region(
                mmram,
                descriptors[i].base_address,
                descriptors[i].size,
            ) && kept_entries(mmram, descriptors, descriptors.len() as int).len()
                <= MAX_UNBLOCKED_REGIONS ==> !after.blocked(base, size),
{
    let n = descriptors.len() as int;
    let all = kept_entries(mmram, descriptors, n);
    law_tracked_descriptors(mmram, descriptors, n);
    if (forall|i: int|
        0 <= i < descriptors.len() && (#[trigger] descriptors[i]).base_address <= base && base
            + size <= descriptors[i].base_address + descriptors[i].size ==> in_one_region(
            mmram,
            descriptors[i].base_address,
            descriptors[i].size,
        )) && some_holds(after.regions(), base, size) {
        let k = choose|k: int|
            0 <= k < after.regions().len() && (#[trigger] after.regions()[k]).holds(base, size);
        assert(after.regions()[k] == all[k]);
        let i = choose|i: int| 0 <= i < n && tracks(mmram, #[trigger] descriptors[i], all[k]);
        assert(descriptors[i].base_address <= base);
        assert(false);
    }
    assert forall|i: int|
        0 <= i < descriptors.len() && (#[trigger] descriptors[i]).base_address <= base && base
            + size <= descriptors[i].base_address + descriptors[i].size && !in_one_region(
            mmram,
            descriptors[i].base_address,
            descriptors[i].size,
        ) && all.len() <= MAX_UNBLOCKED_REGIONS implies !after.blocked(base, size) by {
        let k = choose|k: int|
            0 <= k < all.len() && tracks(mmram, descriptors[i], #[trigger] all[k]);
        assert(after.regions()[k].holds(base, size));
    }
}

/// The decision on a request to unblock a region, in the order of the tests: an empty region is no
/// parameter, one past the address space overflows, and one that shares memory with MMRAM is
/// refused. A region that is unblocked already is granted with the attributes that it has, and
/// refused with others; any other is refused if it shares a byte with an unblocked one, and else
/// granted as long as there is room.
pub proof fn law_unblock_decision(
    t: &UnblockedMemoryTracker,
    mmram: &PageAllocator,
    base: u64,
    size: u64,
    attributes: u32,
    i: int,
)
    requires
        t.wf(),
    ensures
        ({
            let r = t.verdict(mmram, base, size, attributes);
            let meets_mmram = mmram.ready() && exists|j: int|
                0 <= j < mmram.region_list().len() && (#[trigger] mmram.region_list()[j]).base
                    < base + size && base < mmram.region_list()[j].base
                    + mmram.region_list()[j].total_pages * 4096;
            let ok = size > 0 && base + size <= u64::MAX && !meets_mmram;
            let first = 0 <= i < t.regions().len() && t.regions()[i].base_address == base
                && t.regions()[i].size == size && forall|j: int|
                0 <= j < i ==> (#[trigger] t.regions()[j]).base_address != base
                    || t.regions()[j].size != size;
            let new = forall|j: int|
                0 <= j < t.regions().len() ==> (#[trigger] t.regions()[j]).base_address != base
                    || t.regions()[j].size != size;
            let clear = forall|j: int|
                0 <= j < t.regions().len() ==> (#[trigger] t.regions()[j]).end() <= base || base
                    + size <= t.regions()[j].base_address;
            &&& size == 0 ==> r == Err::<(), UnblockError>(UnblockError::InvalidParameter)
            &&& size > 0 && base + size > u64::MAX ==> r == Err::<(), UnblockError>(
                UnblockError::AddressOverflow,
            )
            &&& size > 0 && base + size <= u64::MAX && meets_mmram ==> r == Err::<(), UnblockError>(
                UnblockError::OverlapsWithMmram,
            )
            &&& ok && first && t.regions()[i].attributes == attributes ==> r is Ok
            &&& ok && first && t.regions()[i].attributes != attributes ==> r == Err::<
                (),
                UnblockError,
            >(UnblockError::ConflictingAttributes)
            &&& ok && new && !clear ==> r == Err::<(), UnblockError>(
                UnblockError::ConflictingAttributes,
            )
            &&& ok && new && clear && t.regions().len() < 256 ==> r is Ok
            &&& ok && new && clear && t.regions().len() >= 256 ==> r == Err::<(), UnblockError>(
                UnblockError::TooManyRegions,
            )
        }),
{
    let regions = t.regions();
    lemma_exact_match_first(regions, base, size, 0);
    if mmram.overlaps_mmram(base, size) {
        let j = choose|j: int|
            0 <= j < mmram.region_list().len() && (#[trigger] mmram.region_list()[j]).base < base
                + size && base < mmram.region_list()[j].end();
        assert(mmram.region_list()[j].base < base + size);
    } else if mmram.ready() {
        assert forall|j: int| 0 <= j < mmram.region_list().len() implies !((
        #[trigger] mmram.region_list()[j]).base < base + size && base < mmram.region_list()[j].base
            + mmram.region_list()[j].total_pages * 4096) by {
            assert(!(mmram.region_list()[j].base < base + size && base
                < mmram.region_list()[j].end()));
        }
    }
    match exact_match(regions, base, size, 0) {
        Some(e) => {
            let k = choose|k: int|
                0 <= k < regions.len() && #[trigger] regions[k] == e && regions[k].is_region(
                    base,
                    size,
                ) && forall|j: int| 0 <= j < k ==> !(#[trigger] regions[j]).is_region(base, size);
            assert(regions[k].base_address == base);
            if 0 <= i < regions.len() && regions[i].base_address == base && regions[i].size == size
                && forall|j: int|
                0 <= j < i ==> (#[trigger] regions[j]).base_address != base || regions[j].size
                    != size {
                assert(regions[i].valid);
                if k < i {
                    assert(regions[k].base_address != base || regions[k].size != size);
                }
                if i < k {
                    assert(!regions[i].is_region(base, size));
                }
                assert(i == k);
            }
        },
        None => {
            if 0 <= i < regions.len() {
                assert(regions[i].valid);
                assert(!regions[i].is_region(base, size));
            }
        },
    }
    if size > 0 && base + size <= u64::MAX {
        if some_meets(regions, base, size) {
            let j = choose|j: int|
                0 <= j < regions.len() && (#[trigger] regions[j]).meets(base, size);
            assert(!(regions[j].end() <= base || base + size <= regions[j].base_address));
        } else {
            assert forall|j: int| 0 <= j < regions.len() implies (#[trigger] regions[j]).end()
                <= base || base + size <= regions[j].base_address by {
                assert(regions[j].valid);
                assert(!regions[j].meets(base, size));
            }
        }
    }
}

proof fn lemma_exact_match_first(
    entries: Seq<UnblockedMemoryEntry>,
    base: u64,
    size: u64,
    from: int,
)
    requires
        0 <= from,
    ensures
        match exact_match(entries, base, size, from) {
            Some(e) => exists|i: int|
                from <= i < entries.len() && #[trigger] entries[i] == e && entries[i].is_region(
                    base,
                    size,
                ) && forall|j: int| from <= j < i ==> !(#[trigger] entries[j]).is_region(base, size),
            None => forall|i: int|
                from <= i < entries.len() ==> !(#[trigger] entries[i]).is_region(base, size),
        },
    decreases entries.len() - from,
{
    if from < entries.len() && !entries[from].is_region(base, size) {
        lemma_exact_match_first(entries, base, size, from + 1);
    }
}

/// What a request to unblock a region does: if it is granted and the region was not unblocked
/// already, the region is added, with its attributes, behind the others; and else nothing changes.
pub proof fn law_unblock_effect(
    before: &UnblockedMemoryTracker,
    after: &UnblockedMemoryTracker,
    mmram: &PageAllocator,
    base: u64,
    size: u64,
    attributes: u32,
)
    requires
        before.wf(),
        after.regions() == before.regions_after(mmram, base, size, attributes),
    ensures
        before.verdict(mmram, base, size, attributes) is Err ==> after.regions() == before.regions(),
        (exists|i: int|
            0 <= i < before.regions().len() && (#[trigger] before.regions()[i]).base_address == base
                && before.regions()[i].size == size) ==> after.regions() == before.regions(),
        before.verdict(mmram, base, size, attributes) is Ok && (forall|i: int|
            0 <= i < before.regions().len() ==> (#[trigger] before.regions()[i]).base_address
                != base || before.regions()[i].size != size) ==> {
            &&& after.regions().len() == before.regions().len() + 1
            &&& forall|i: int|
                0 <= i < before.regions().len() ==> #[trigger] after.regions()[i]
                    == before.regions()[i]
            &&& after.regions().last().base_address == base
            &&& after.regions().last().size == size
            &&& after.regions().last().attributes == attributes
            &&& after.regions().last().valid
        },
{
    let regions = before.regions();
    lemma_exact_match_first(regions, base, size, 0);
    if exact_match(regions, base, size, 0) is None {
        assert forall|i: int| 0 <= i < regions.len() implies (#[trigger] regions[i]).base_address
            != base || regions[i].size != size by {
            assert(regions[i].valid);
            assert(!regions[i].is_region(base, size));
        }
    } else {
        let e = exact_match(regions, base, size, 0)->0;
        let i = choose|i: int|
            0 <= i < regions.len() && #[trigger] regions[i] == e && regions[i].is_region(base, size);
        assert(regions[i].base_address == base);
    }
}

/// The decision on an access when checks are enforced: it is blocked if it is empty or runs past
/// the address space, and else if and only if no unblocked region holds all of it.
pub proof fn law_access_decision(t: &UnblockedMemoryTracker, base: u64, size: u64)
    requires
        t.wf(),
        t.enforcing(),
    ensures
        size == 0 || base + size > u64::MAX ==> t.blocked(base, size),
        size > 0 && base + size <= u64::MAX ==> (t.blocked(base, size) <==> forall|i: int|
            0 <= i < t.regions().len() ==> base < (#[trigger] t.regions()[i]).base_address
                || t.regions()[i].base_address + t.regions()[i].size < base + size),
{
    let regions = t.regions();
    if size > 0 && base + size <= u64::MAX {
        if some_holds(regions, base, size) {
            let i = choose|i: int|
                0 <= i < regions.len() && (#[trigger] regions[i]).holds(base, size);
            assert(!(base < regions[i].base_address || regions[i].base_address + regions[i].size
                < base + size));
        } else {
            assert forall|i: int| 0 <= i < regions.len() implies base < (
            #[trigger] regions[i]).base_address || regions[i].base_address + regions[i].size < base
                + size by {
                assert(regions[i].valid);
                assert(!regions[i].holds(base, size));
            }
        }
    }
}

/// A region shares memory with a range if and only if some byte is in both, and it holds a range
/// if and only if it has every byte of it. Neither is empty, and both end within the address
/// space.
pub proof fn law_region_bytes(e: UnblockedMemoryEntry, base: u64, size: u64)
    requires
        e.valid,
        e.size > 0,
        e.base_address + e.size <= u64::MAX,
        size > 0,
        base + size <= u64::MAX,
    ensures
        e.meets(base, size) <==> exists|x: u64|
            #![trigger shared(e, base, size, x)]
            shared(e, base, size, x),
        e.holds(base, size) <==> forall|x: u64|
            #![trigger shared(e, base, size, x)]
            base <= x < base + size ==> shared(e, base, size, x),
{
    if e.meets(base, size) {
        let x = if base < e.base_address {
            e.base_address
        } else {
            base
        };
        assert(shared(e, base, size, x));
    }
    let last = (base + size - 1) as u64;
    if forall|x: u64|
        #![trigger shared(e, base, size, x)]
        base <= x < base + size ==> shared(e, base, size, x) {
        assert(shared(e, base, size, base));
        assert(shared(e, base, size, last));
    }
}

/// Byte `x` is in the region and in `size` bytes at `base`.
pub open spec fn shared(e: UnblockedMemoryEntry, base: u64, size: u64, x: u64) -> bool {
    &&& e.base_address <= x < e.base_address + e.size
    &&& base <= x < base + size
}

/// What is told of a region is the region: its descriptor gives its entry back, and its record has
/// its bounds and attributes.
pub proof fn law_regions_are_told(index: int, e: UnblockedMemoryEntry)
    requires
        e.valid,
        0 <= index <= usize::MAX,
    ensures
        ({
            let d = entry_descriptor(e);
            &&& UnblockedMemoryEntry::of(d.base_address, d.size, d.mem_attributes) == e
            &&& d.base_address == e.base_address && d.size == e.size && d.mem_attributes
                == e.attributes && d.reserved == 0
        }),
        ({
            let r = region_record(index, e);
            &&& r.index == index
            &&& r.first == e.base_address
            &&& e.base_address + e.size <= u64::MAX ==> r.end == e.base_address + e.size
            &&& e.base_address + e.size > u64::MAX ==> r.end == u64::MAX
            &&& r.read <==> e.attributes & RESOURCE_ATTR_READ != 0
            &&& r.write <==> e.attributes & RESOURCE_ATTR_WRITE != 0
            &&& r.execute <==> e.attributes & RESOURCE_ATTR_EXECUTE != 0
        }),
{
}

/// The regions that overlap a range are all those that share a byte with it, in their order.
pub proof fn law_overlapping_regions(
    entries: Seq<UnblockedMemoryEntry>,
    base: u64,
    size: u64,
    n: int,
)
    requires
        0 <= n <= entries.len(),
    ensures
        overlapping(entries, base, size, n) == entries.take(n).filter(
            |e: UnblockedMemoryEntry| e.meets(base, size),
        ),
    decreases n,
{
    reveal(Seq::filter);
    if n > 0 {
        law_overlapping_regions(entries, base, size, n - 1);
        assert(entries.take(n).drop_last() =~= entries.take(n - 1));
    }
}

} // verus!
