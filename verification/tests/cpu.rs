use patina_mm::supervisor::cpu::{get_current_cpu_id, ApState, CpuInfo, CpuManager, CpuSlot};
use patina_mm::supervisor::mm_core::PlatformInfo;
use patina_mm::supervisor::perf_timer::{
    begin_wait, frequency, init, spin_until, us_to_ticks, PerfTimer, SpinWait,
};

struct TestPlatform;

impl CpuInfo for TestPlatform {}

impl PlatformInfo for TestPlatform {
    type CpuInfo = Self;
    const MAX_CPU_COUNT: usize = 4;
    const MAX_HANDLERS: usize = 8;
}

#[test]
fn test_cpu_info_defaults() {
    assert_eq!(<TestPlatform as CpuInfo>::ap_poll_timeout_us(), 1000);
    assert_eq!(TestPlatform::MAX_CPU_COUNT, 4);
    assert_eq!(TestPlatform::MAX_HANDLERS, 8);
}

#[test]
fn test_cpu_manager_creation() {
    let manager: CpuManager<4> = CpuManager::new();
    assert_eq!(manager.registered_count(), 0);
    assert!(manager.bsp_id().is_none());
    assert_eq!(manager.max_cpus(), 4);
}

#[test]
fn test_cpu_manager_is_const() {
    // A manager can be shared as a static instance.
    static _MANAGER: std::sync::OnceLock<CpuManager<8>> = std::sync::OnceLock::new();
    assert_eq!(_MANAGER.get_or_init(CpuManager::new).max_cpus(), 8);
}

#[test]
fn test_cpu_registration() {
    let mut manager: CpuManager<4> = CpuManager::new();

    let bsp_idx = manager.register_cpu(0, true);
    assert_eq!(bsp_idx, Some(0));
    assert_eq!(manager.bsp_id(), Some(0));
    assert!(manager.is_bsp(0));

    let ap1_idx = manager.register_cpu(1, false);
    assert_eq!(ap1_idx, Some(1));
    assert!(!manager.is_bsp(1));

    let ap2_idx = manager.register_cpu(2, false);
    assert_eq!(ap2_idx, Some(2));

    assert_eq!(manager.registered_count(), 3);
}

#[test]
fn test_duplicate_registration() {
    let mut manager: CpuManager<4> = CpuManager::new();

    assert!(manager.register_cpu(1, false).is_some());
    assert!(manager.register_cpu(1, false).is_none());
}

#[test]
fn test_ap_state_management() {
    let mut manager: CpuManager<4> = CpuManager::new();
    manager.register_cpu(0, true);
    manager.register_cpu(1, false);

    assert_eq!(manager.get_ap_state(1), Some(ApState::InHoldingPen));

    assert!(manager.set_ap_state(1, ApState::Busy));
    assert_eq!(manager.get_ap_state(1), Some(ApState::Busy));

    assert!(!manager.set_ap_state(0, ApState::Halted));
}

#[test]
fn test_for_each_ap() {
    let mut manager: CpuManager<4> = CpuManager::new();
    manager.register_cpu(0, true);
    manager.register_cpu(1, false);
    manager.register_cpu(2, false);

    let mut ap_ids = [0u32; 4];
    let mut count = 0;
    for id in manager.for_each_ap() {
        if count < 4 {
            ap_ids[count] = id;
            count += 1;
        }
    }

    assert_eq!(count, 2);
    assert!(ap_ids[..count].contains(&1));
    assert!(ap_ids[..count].contains(&2));
}

#[test]
fn test_max_cpu_limit() {
    let mut manager: CpuManager<2> = CpuManager::new();
    assert!(manager.register_cpu(0, true).is_some());
    assert!(manager.register_cpu(1, false).is_some());
    assert!(manager.register_cpu(2, false).is_none());
}

#[test]
fn test_count_aps_in_state() {
    let mut manager: CpuManager<4> = CpuManager::new();
    manager.register_cpu(0, true);
    manager.register_cpu(1, false);
    manager.register_cpu(2, false);

    assert_eq!(manager.count_aps_in_state(ApState::InHoldingPen), 2);
    assert_eq!(manager.count_aps_in_state(ApState::Busy), 0);

    manager.set_ap_state(1, ApState::Busy);
    assert_eq!(manager.count_aps_in_state(ApState::InHoldingPen), 1);
    assert_eq!(manager.count_aps_in_state(ApState::Busy), 1);
}

#[test]
fn cpus_are_found_by_id_and_by_index() {
    let mut manager: CpuManager<4> = CpuManager::default();
    manager.register_cpu(0x20, true);
    manager.register_cpu(0x21, false);
    assert_eq!(manager.find_slot(0x21), Some(1));
    assert_eq!(manager.find_slot(0x22), None);
    assert_eq!(manager.get_cpu_id_by_index(0), Some(0x20));
    assert_eq!(manager.get_cpu_id_by_index(2), None);
    assert_eq!(manager.get_cpu_id_by_index(9), None);
    assert_eq!(manager.get_ap_state(9), None);
    assert!(!manager.set_ap_state(9, ApState::Busy));
}

#[test]
fn ap_states_round_trip() {
    for state in [ApState::NotPresent, ApState::InHoldingPen, ApState::Busy, ApState::Halted] {
        assert_eq!(ApState::from(state.as_u8()), state);
    }
    assert_eq!(ApState::from(77), ApState::NotPresent);
    assert!(!CpuSlot::new().is_used());
    assert_eq!(CpuSlot::new().get_cpu_id(), None);
}

#[test]
fn apic_id_is_the_top_byte() {
    assert_eq!(get_current_cpu_id(0x1234_5678), 0x12);
}

#[test]
fn test_init_with_known_frequency() {
    let mut timer = PerfTimer::new();
    init(&mut timer, 1_000_000_000, 0);
    assert!(frequency(&timer) > 0);
    // The first frequency stays.
    init(&mut timer, 7, 7);
    assert_eq!(frequency(&timer), 1_000_000_000);
}

#[test]
fn test_us_to_ticks_basic() {
    let mut timer = PerfTimer::new();
    assert_eq!(frequency(&timer), 0);
    assert_eq!(us_to_ticks(&timer, 1000), None);
    // For a 1 GHz counter, 1 us = 1000 ticks.
    init(&mut timer, 0, 1_000_000_000);
    assert_eq!(us_to_ticks(&timer, 1), Some(1000));
}

#[test]
fn test_spin_until_immediate_true() {
    let timer = PerfTimer::new();
    let mut wait = begin_wait(&timer, 1_000, 0);
    let result = spin_until(&mut wait, true, 0);
    assert_eq!(result, Some(true));
}

#[test]
fn waits_end_in_time() {
    let mut timer = PerfTimer::new();
    let mut blind = begin_wait(&timer, 1, 0);
    assert_eq!(blind, SpinWait::Iterations { left: 10 });
    let mut looks = 0;
    while spin_until(&mut blind, false, 0).is_none() {
        looks += 1;
    }
    assert_eq!(looks, 9);

    init(&mut timer, 1_000_000, 0);
    let mut wait = begin_wait(&timer, 100, u64::MAX - 9);
    assert_eq!(spin_until(&mut wait, false, 89), None);
    assert_eq!(spin_until(&mut wait, false, 90), Some(false));
    assert_eq!(spin_until(&mut wait, true, 90), Some(true));
}
