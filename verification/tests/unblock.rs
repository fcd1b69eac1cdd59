use patina_mm::policy::types::{MemDescriptorV1_0, RESOURCE_ATTR_READ, RESOURCE_ATTR_WRITE};
use patina_mm::supervisor::mm_mem::PageAllocator;
use patina_mm::supervisor::unblock_memory::{
    UnblockError, UnblockedMemoryEntry, UnblockedMemoryTracker, MAX_UNBLOCKED_REGIONS,
};

fn create_test_tracker() -> (UnblockedMemoryTracker, PageAllocator) {
    (UnblockedMemoryTracker::new(), PageAllocator::new())
}

#[test]
fn test_empty_entry() {
    let entry = UnblockedMemoryEntry::empty();
    assert!(!entry.valid);
    assert_eq!(entry.base_address, 0);
    assert_eq!(entry.size, 0);
}

#[test]
fn test_entry_contains() {
    let entry = UnblockedMemoryEntry::new(0x1000, 0x1000, RESOURCE_ATTR_READ);

    assert!(entry.contains(0x1000, 0x1000));
    assert!(entry.contains(0x1000, 0x800));
    assert!(entry.contains(0x1800, 0x800));

    assert!(!entry.contains(0x0800, 0x1000));
    assert!(!entry.contains(0x1800, 0x1000));

    assert!(!entry.contains(0x3000, 0x1000));
}

#[test]
fn test_entry_overlaps() {
    let entry = UnblockedMemoryEntry::new(0x1000, 0x1000, RESOURCE_ATTR_READ);

    assert!(entry.overlaps(0x1000, 0x1000));
    assert!(entry.overlaps(0x0800, 0x1000));
    assert!(entry.overlaps(0x1800, 0x1000));
    assert!(entry.overlaps(0x0800, 0x2000));

    assert!(!entry.overlaps(0x2000, 0x1000));
    assert!(!entry.overlaps(0x0000, 0x1000));
    assert!(!entry.overlaps(0x3000, 0x1000));
}

#[test]
fn test_tracker_before_init_complete() {
    let (tracker, _) = create_test_tracker();

    assert!(!tracker.is_memory_blocked(0x1000, 0x1000));
    assert!(!tracker.is_memory_blocked(0x0, 0x100000));
}

#[test]
fn test_tracker_after_init_complete_empty() {
    let (mut tracker, _) = create_test_tracker();
    tracker.set_core_init_complete();

    assert!(tracker.is_memory_blocked(0x1000, 0x1000));
}

#[test]
fn test_unblock_memory() {
    let (mut tracker, mmram) = create_test_tracker();

    assert!(tracker
        .unblock_memory(&mmram, 0x1000, 0x1000, RESOURCE_ATTR_READ | RESOURCE_ATTR_WRITE)
        .is_ok());

    tracker.set_core_init_complete();

    assert!(!tracker.is_memory_blocked(0x1000, 0x1000));
    assert!(!tracker.is_memory_blocked(0x1000, 0x800));

    assert!(tracker.is_memory_blocked(0x3000, 0x1000));
}

#[test]
fn test_idempotent_unblock() {
    let (mut tracker, mmram) = create_test_tracker();

    assert!(tracker.unblock_memory(&mmram, 0x1000, 0x1000, RESOURCE_ATTR_READ).is_ok());

    assert!(tracker.unblock_memory(&mmram, 0x1000, 0x1000, RESOURCE_ATTR_READ).is_ok());

    assert_eq!(
        tracker.unblock_memory(&mmram, 0x1000, 0x1000, RESOURCE_ATTR_READ | RESOURCE_ATTR_WRITE),
        Err(UnblockError::ConflictingAttributes)
    );
}

#[test]
fn test_overlapping_unblock_fails() {
    let (mut tracker, mmram) = create_test_tracker();

    assert!(tracker.unblock_memory(&mmram, 0x1000, 0x1000, RESOURCE_ATTR_READ).is_ok());

    assert_eq!(
        tracker.unblock_memory(&mmram, 0x1800, 0x1000, RESOURCE_ATTR_READ),
        Err(UnblockError::ConflictingAttributes)
    );
}

#[test]
fn test_invalid_parameters() {
    let (mut tracker, mmram) = create_test_tracker();
    tracker.set_core_init_complete();

    assert_eq!(
        tracker.unblock_memory(&mmram, 0x1000, 0, RESOURCE_ATTR_READ),
        Err(UnblockError::InvalidParameter)
    );

    assert_eq!(
        tracker.unblock_memory(&mmram, u64::MAX, 0x1000, RESOURCE_ATTR_READ),
        Err(UnblockError::AddressOverflow)
    );
}

#[test]
fn test_region_count() {
    let (mut tracker, mmram) = create_test_tracker();

    assert_eq!(tracker.region_count(), 0);

    tracker.unblock_memory(&mmram, 0x1000, 0x1000, RESOURCE_ATTR_READ).unwrap();
    assert_eq!(tracker.region_count(), 1);

    tracker.unblock_memory(&mmram, 0x3000, 0x1000, RESOURCE_ATTR_WRITE).unwrap();
    assert_eq!(tracker.region_count(), 2);
}

#[test]
fn tracker_starts_from_descriptors() {
    let (mut tracker, mmram) = create_test_tracker();
    let descriptor = |base_address: u64, size: u64| MemDescriptorV1_0 {
        base_address,
        size,
        mem_attributes: RESOURCE_ATTR_READ,
        reserved: 0,
    };
    let descriptors = [descriptor(0x1000, 0x1000), descriptor(0x5000, 0), descriptor(0x8000, 0x10)];
    assert!(tracker.init_from_buffer(&mmram, Some(&descriptors)).is_ok());
    assert_eq!(tracker.region_count(), 2);
    assert_eq!(
        tracker.init_from_buffer(&mmram, None),
        Err(UnblockError::AlreadyInitialized)
    );
    assert!(tracker.is_within_unblocked_region(0x9000, 0x10));
    tracker.set_core_init_complete();
    assert!(!tracker.is_within_unblocked_region(0x9000, 0x10));
    assert!(tracker.is_within_unblocked_region(0x8000, 0x10));
    assert!(!tracker.is_within_unblocked_region(0x8000, 0x11));
    let mut regions: Vec<MemDescriptorV1_0> = vec![descriptor(0, 0); 2];
    assert_eq!(tracker.collect_regions(1, &mut regions), 1);
    assert_eq!(tracker.dump_regions().len(), 2);
}

#[test]
fn tracker_has_room_for_so_many_regions() {
    let (mut tracker, mmram) = create_test_tracker();
    let descriptors: Vec<MemDescriptorV1_0> = (0..MAX_UNBLOCKED_REGIONS as u64 + 1)
        .map(|i| MemDescriptorV1_0 {
            base_address: i * 0x1000,
            size: 0x1000,
            mem_attributes: 1,
            reserved: 0,
        })
        .collect();
    assert_eq!(
        tracker.init_from_descriptors(&mmram, &descriptors),
        Err(UnblockError::TooManyRegions)
    );
    assert_eq!(tracker.region_count(), MAX_UNBLOCKED_REGIONS);
}
