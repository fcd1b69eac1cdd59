use patina_mm::efi::{EFI_INVALID_PARAMETER, EFI_NOT_FOUND, EFI_OUT_OF_RESOURCES};
use patina_mm::sdk::mm_services::{service_done, service_value, AllocType, StandardMmServices};
use patina_mm::sdk::service_table::{
    install_protocol_interface, interface_arguments, protocol_ref, protocol_ref_maybe_empty,
    uninstall_protocol_interface, ProtocolRef, ProtocolType, PtrMetadata,
};
use patina_mm::sdk::timer::{
    arch_perf_frequency, calibrate_tsc_from_pm_timer, pm_timer_read, tsc_read, Calibration,
    TscLeaf, ACPI_PM_TIMER_FREQUENCY, MAX_WAIT_CYCLES, TARGET_TICKS,
};

/// An interface of 4 bytes.
const TEST_PROTOCOL: ProtocolType =
    ProtocolType { guid: 0x100f0e0d0c0b0a090807060504030201, size: 4 };

/// A marker, with no interface.
const TEST_PROTOCOL_EMPTY: ProtocolType =
    ProtocolType { guid: 0x0102030405060708090a0b0c0d0e0f10, size: 0 };

#[test]
fn test_install_then_uninstall_recovers_interface() {
    // The interface 42 lies at 0x1000.
    let memory = |address: u64| if address == 0x1000 { 42 } else { 0 };
    let key = PtrMetadata { ptr_value: 0x1000 };
    let arguments = interface_arguments(TEST_PROTOCOL, key);
    assert_eq!(TEST_PROTOCOL.guid, arguments.protocol);
    assert!(arguments.interface != 0);

    let (handle, key) = install_protocol_interface(Ok(7), key).unwrap();
    assert_eq!(7, handle);

    let again = interface_arguments(TEST_PROTOCOL, key);
    assert_eq!(TEST_PROTOCOL.guid, again.protocol);
    assert_eq!(arguments.interface, again.interface);
    let recovered = uninstall_protocol_interface(Ok(()), key, true).unwrap();
    assert_eq!(42, memory(recovered));
}

#[test]
fn test_install_propagates_error_and_reclaims() {
    let key = PtrMetadata { ptr_value: 0x1000 };
    let result = install_protocol_interface(Err(EFI_OUT_OF_RESOURCES), key);
    assert!(matches!(result, Err(EFI_OUT_OF_RESOURCES)));
}

#[test]
fn test_uninstall_propagates_error() {
    let key = PtrMetadata { ptr_value: 0x1000 };
    let result = uninstall_protocol_interface(Err(EFI_NOT_FOUND), key, true).map(|_| ());
    assert_eq!(Err(EFI_NOT_FOUND), result);
}

#[test]
fn test_protocol_ref_returns_typed_reference() {
    // The interface 7 lies at 0x1000.
    let memory = |address: u64| if address == 0x1000 { 7 } else { 0 };
    match protocol_ref(TEST_PROTOCOL, Ok(0x1000)).unwrap() {
        ProtocolRef::Interface(address) => assert_eq!(7, memory(address)),
        ProtocolRef::Marker => unreachable!(),
    }
}

#[test]
fn test_protocol_ref_maybe_empty_maps_null_to_none() {
    let interface = protocol_ref_maybe_empty(Ok(0)).unwrap();
    assert!(interface.is_none());
}

#[test]
fn test_protocol_ref_zero_sized_marker_yields_reference() {
    let result = protocol_ref(TEST_PROTOCOL_EMPTY, Ok(0));
    assert!(result.is_ok());
}

#[test]
fn test_protocol_ref_propagates_error() {
    let result = protocol_ref(TEST_PROTOCOL, Err(EFI_NOT_FOUND));
    assert_eq!(Err(EFI_NOT_FOUND), result.map(|_| ()));
}

#[test]
fn references_agree_with_the_size_of_their_type() {
    assert_eq!(protocol_ref(TEST_PROTOCOL, Ok(0)), Err(EFI_INVALID_PARAMETER));
    assert_eq!(protocol_ref(TEST_PROTOCOL_EMPTY, Ok(0x1000)), Err(EFI_INVALID_PARAMETER));
    let key = PtrMetadata { ptr_value: 0x1000 };
    assert_eq!(interface_arguments(TEST_PROTOCOL_EMPTY, key).interface, 0);
    assert_eq!(uninstall_protocol_interface(Ok(()), key, false), Err(EFI_INVALID_PARAMETER));
    assert_eq!(protocol_ref_maybe_empty(Ok(0x1000)), Ok(Some(0x1000)));
}

#[test]
fn test_debug_print_works_before_init() {
    let mm = StandardMmServices::new_uninit();
    let output = mm.debug_text();
    assert!(output.contains("Not Initialized"));
}

#[test]
fn test_debug_print_works_after_init() {
    let mm = StandardMmServices::new(0x1000);
    let output = mm.debug_text();
    assert!(output.contains("StandardMmServices"));
}

#[test]
fn services_are_described_as_the_structure_they_are() {
    let uninit = StandardMmServices::new_uninit().debug_text();
    assert_eq!(uninit, "StandardMmServices { table: \"Not Initialized\" }");
    for table in [0, 9, 0xf, 0x10, 0x1234_5678_9abc_def0, u64::MAX] {
        let shown = StandardMmServices::new(table).debug_text();
        assert_eq!(shown, format!("StandardMmServices {{ table: {table:#x} }}"));
    }
}

#[test]
fn test_clone_uninit() {
    let mm = StandardMmServices::new_uninit();
    let clone = mm.clone();
    assert!(!clone.is_init());
}

#[test]
fn test_clone_initialized() {
    let mm = StandardMmServices::new(0x1000);
    let clone = mm.clone();
    assert!(clone.is_init());
    assert_eq!(mm.as_mut_ptr(), clone.as_mut_ptr());
}

#[test]
fn services_report_their_status() {
    let mut mm = StandardMmServices::new_uninit();
    mm.init(0x2000);
    assert_eq!(mm.as_mut_ptr(), 0x2000);
    assert_eq!(service_value(0, 9), Ok(9));
    assert_eq!(service_value(EFI_NOT_FOUND, 9), Err(EFI_NOT_FOUND));
    assert_eq!(service_done(0), Ok(()));
    assert_eq!(service_done(EFI_NOT_FOUND), Err(EFI_NOT_FOUND));
    assert_eq!((AllocType::AnyPage.as_u32(), AllocType::AnyPage.initial_address()), (0, 0));
    let below = AllocType::MaxAddress(0x1000);
    assert_eq!((below.as_u32(), below.initial_address()), (1, 0x1000));
    assert_eq!(AllocType::Address(0x3000).as_u32(), 2);
}

#[test]
fn test_arch_perf_frequency_is_non_negative() {
    let none = TscLeaf { eax: 0, ebx: 0, ecx: 0 };
    assert_eq!(arch_perf_frequency(none, 0), 0);
    assert_eq!(arch_perf_frequency(none, 2400), 2_400_000_000);
    let leaf = TscLeaf { eax: 2, ebx: 176, ecx: 24_000_000 };
    assert_eq!(arch_perf_frequency(leaf, 2400), 2_112_000_000);
}

#[test]
fn calibration_measures_the_counter() {
    let state = calibrate_tsc_from_pm_timer(5);
    let state = pm_timer_read(&state, 5);
    assert_eq!(state, Calibration::Edge { start_pm: 5, cycles_left: MAX_WAIT_CYCLES - 1 });
    let state = tsc_read(&pm_timer_read(&state, 6), 1_000);
    assert_eq!(pm_timer_read(&state, 7), Calibration::Interval {
        start_pm: 6,
        start_tsc: 1_000,
        cycles_left: MAX_WAIT_CYCLES - 1
    });
    let state = pm_timer_read(&state, 6 + TARGET_TICKS);
    // The ticks take 49,999,930 ns.
    assert_eq!(tsc_read(&state, 1_000 + 150_000_000), Calibration::Done(3_000_004_200));
}

#[test]
fn calibration_gives_up() {
    let mut state = calibrate_tsc_from_pm_timer(5);
    for _ in 0..MAX_WAIT_CYCLES {
        state = pm_timer_read(&state, 5);
    }
    assert_eq!(state, Calibration::ReadStart { start_pm: 5 });
    state = tsc_read(&state, 0);
    for _ in 0..MAX_WAIT_CYCLES {
        state = pm_timer_read(&state, 5);
    }
    assert_eq!(state, Calibration::Done(ACPI_PM_TIMER_FREQUENCY));
}
