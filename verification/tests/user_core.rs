use patina_mm::efi::{
    EFI_ALREADY_STARTED, EFI_BAD_BUFFER_SIZE, EFI_BUFFER_TOO_SMALL, EFI_INVALID_PARAMETER,
    EFI_NOT_FOUND, EFI_OUT_OF_RESOURCES, EFI_SUCCESS, EFI_UNSUPPORTED,
};
use patina_mm::hob::Hob;
use patina_mm::mm_common::{MmCommBufferStatus, UserCommandType, MM_COMM_BUFFER_HOB_GUID};
use patina_mm::user_core::mm_services::{
    allocation_status, mm_allocate_pages_impl, mm_allocate_pool_impl, mm_free_pages_impl,
    mm_free_pool_impl, mm_handle_protocol_impl, mm_install_protocol_interface_impl,
    mm_locate_handle_impl, mm_locate_protocol_impl, mm_register_protocol_notify_impl,
    mm_uninstall_protocol_interface_impl, mmi_handler_register_impl, mmi_handler_unregister_impl,
    MmProtocolDatabase, PendingNotify, ALL_HANDLES, BY_PROTOCOL,
};
use patina_mm::user_core::mm_user_core::{
    discover_comm_buffer, dispatch_synchronous_mmi, finish_user_request, response_size,
    CommunicateV3Layout, DepexHobData, MmUserCore, StartAction, SyncMessage, UserCoreAction,
};
use patina_mm::user_core::mmi::{MmiDatabase, INTERRUPT_PENDING, WARN_INTERRUPT_SOURCE_QUIESCED};
use patina_mm::user_core::protocol_db::{find_guid, ProtocolDatabase};
use patina_mm::user_core::system_table::{
    get_mm_system_table, init_mm_system_table, update_cpu_context, MmServiceTable,
};

// ---- Protocols by their GUID ----

#[test]
fn protocols_are_installed_and_uninstalled() {
    let mut db = ProtocolDatabase::new();
    assert_eq!(db.uninstall_protocol(1), Err(EFI_NOT_FOUND));
    assert_eq!(db.install_protocol(1), Ok(()));
    assert_eq!(db.install_protocol(2), Ok(()));
    assert!(db.is_protocol_installed(1));
    assert_eq!(db.uninstall_protocol(1), Ok(()));
    assert!(!db.is_protocol_installed(1));
    assert_eq!(db.registered_protocols(), vec![2]);
    assert_eq!(find_guid(&vec![5, 6, 5], 5), Some(0));
    assert_eq!(find_guid(&vec![5, 6, 5], 7), None);
}

// ---- MMI handlers ----

fn manage(db: &mut MmiDatabase, guid: Option<u128>, returned: &[(u64, u64)]) -> (u64, Vec<u64>) {
    let mut dispatch = db.mmi_manage(guid);
    let mut called = Vec::new();
    while let Some(handler) = dispatch.next_handler() {
        called.push(handler);
        let status = returned.iter().find(|(h, _)| *h == handler).unwrap().1;
        dispatch.dispatch_handlers(status);
    }
    (db.end_manage(&dispatch), called)
}

#[test]
fn handlers_come_and_go_through_the_services() {
    let mut db = MmiDatabase::new();
    assert_eq!(
        mmi_handler_register_impl(&mut db, 0x10, Some(7), false),
        Err(EFI_INVALID_PARAMETER)
    );
    assert_eq!(mmi_handler_unregister_impl(&mut db, 0x10), EFI_NOT_FOUND);
    assert_eq!(mmi_handler_register_impl(&mut db, 0x10, Some(7), true), Ok(0x10));
    let answers = [(0x10, EFI_SUCCESS)];
    assert_eq!(manage(&mut db, Some(7), &answers), (EFI_SUCCESS, vec![0x10]));
    assert_eq!(mmi_handler_unregister_impl(&mut db, 0x10), EFI_SUCCESS);
    assert_eq!(manage(&mut db, Some(7), &answers), (EFI_NOT_FOUND, vec![]));
}

#[test]
fn root_handlers_are_all_called() {
    let mut db = MmiDatabase::new();
    assert_eq!(manage(&mut db, None, &[]), (EFI_NOT_FOUND, vec![]));
    assert_eq!(db.mmi_handler_register(0x10, None), Ok(0x10));
    assert_eq!(db.mmi_handler_register(0x20, None), Ok(0x20));
    let answers = [(0x10, EFI_SUCCESS), (0x20, INTERRUPT_PENDING)];
    assert_eq!(manage(&mut db, None, &answers), (EFI_SUCCESS, vec![0x10, 0x20]));
    let answers = [(0x10, EFI_UNSUPPORTED), (0x20, INTERRUPT_PENDING)];
    assert_eq!(manage(&mut db, None, &answers), (INTERRUPT_PENDING, vec![0x10, 0x20]));
    assert_eq!(db.mmi_handler_unregister(0x10), Ok(()));
    let answers = [(0x20, WARN_INTERRUPT_SOURCE_QUIESCED)];
    assert_eq!(manage(&mut db, None, &answers), (EFI_SUCCESS, vec![0x20]));
    assert!(db.mmi_handler_unregister(0x10).is_err());
}

#[test]
fn guid_handlers_stop_at_a_success() {
    let mut db = MmiDatabase::new();
    for handler in [0x10, 0x20, 0x30] {
        db.mmi_handler_register(handler, Some(7)).unwrap();
    }
    let answers = [(0x10, EFI_NOT_FOUND), (0x20, EFI_SUCCESS)];
    assert_eq!(manage(&mut db, Some(7), &answers), (EFI_SUCCESS, vec![0x10, 0x20]));
    let answers = [(0x10, INTERRUPT_PENDING)];
    assert_eq!(manage(&mut db, Some(7), &answers), (INTERRUPT_PENDING, vec![0x10]));
    assert_eq!(manage(&mut db, Some(8), &answers), (EFI_NOT_FOUND, vec![]));
}

#[test]
fn handlers_unregistered_in_a_dispatch_are_removed_behind_it() {
    let mut db = MmiDatabase::new();
    db.mmi_handler_register(0x10, None).unwrap();
    db.mmi_handler_register(0x20, None).unwrap();
    let mut dispatch = db.mmi_manage(None);
    assert_eq!(dispatch.next_handler(), Some(0x10));
    db.mmi_handler_unregister(0x20).unwrap();
    dispatch.dispatch_handlers(EFI_SUCCESS);
    assert_eq!(dispatch.next_handler(), Some(0x20));
    dispatch.dispatch_handlers(EFI_SUCCESS);
    assert_eq!(dispatch.next_handler(), None);
    assert_eq!(db.end_manage(&dispatch), EFI_SUCCESS);
    assert_eq!(manage(&mut db, None, &[(0x10, EFI_SUCCESS)]), (EFI_SUCCESS, vec![0x10]));
}

// ---- Protocols on handles ----

#[test]
fn interfaces_are_found_on_their_handles() {
    let mut db = MmProtocolDatabase::new();
    let (first, notifies) = db.install_protocol(0, 7, 0x1000).unwrap();
    assert!(first != 0 && notifies.is_empty());
    let (second, _) = db.install_protocol(0, 7, 0x2000).unwrap();
    assert_ne!(first, second);
    assert_eq!(db.install_protocol(first, 7, 0x3000), Err(EFI_INVALID_PARAMETER));
    assert_eq!(db.install_protocol(first, 8, 0x3000).unwrap().0, first);
    assert_eq!(db.handle_protocol(second, 7), Some(0x2000));
    assert_eq!(db.handle_protocol(second, 8), None);
    assert_eq!(db.locate_protocol(7), Some(0x1000));
    assert_eq!(db.locate_handle_by_protocol(7), vec![first, second]);
    assert_eq!(db.locate_handle_by_protocol(8), vec![first]);
    assert_eq!(db.all_handles(), vec![first, second]);
    assert_eq!(db.registered_protocols().len(), 2);
    assert!(db.is_protocol_installed(8));
    assert_eq!(db.uninstall_protocol(second, 7, 0x2000), Ok(()));
    assert_eq!(db.all_handles(), vec![first]);
    assert_eq!(db.uninstall_protocol(second, 7, 0x2000), Err(EFI_INVALID_PARAMETER));
    assert_eq!(db.uninstall_protocol(first, 7, 0x9999), Err(EFI_NOT_FOUND));
}

#[test]
fn registered_functions_are_notified() {
    let mut db = MmProtocolDatabase::new();
    let token = db.register_protocol_notify(7, 0xF0);
    assert_eq!(db.register_protocol_notify(7, 0xF0), token);
    assert_ne!(db.register_protocol_notify(7, 0xF1), token);
    let (handle, notifies) = db.install_protocol(0, 7, 0x1000).unwrap();
    assert_eq!(notifies.len(), 2);
    assert_eq!(
        notifies[0],
        PendingNotify { function: 0xF0, guid: 7, interface: 0x1000, handle }
    );
    assert_eq!(db.unregister_protocol_notify(7, token), Ok(()));
    assert_eq!(db.unregister_protocol_notify(7, token), Err(EFI_NOT_FOUND));
    assert_eq!(db.install_protocol(0, 7, 0x2000).unwrap().1.len(), 1);
    assert!(db.install_protocol(0, 8, 0x2000).unwrap().1.is_empty());
}

#[test]
fn services_check_their_parameters() {
    let mut db = MmProtocolDatabase::new();
    let none = mm_install_protocol_interface_impl(&mut db, None, Some(7), 0x1000);
    assert_eq!(none.status, EFI_INVALID_PARAMETER);
    let installed = mm_install_protocol_interface_impl(&mut db, Some(0), Some(7), 0x1000);
    assert_eq!(installed.status, EFI_SUCCESS);
    let handle = installed.handle.unwrap();

    let found = mm_handle_protocol_impl(&db, handle, Some(7), true);
    assert_eq!((found.status, found.interface), (EFI_SUCCESS, Some(0x1000)));
    assert_eq!(mm_handle_protocol_impl(&db, 0, Some(7), true).status, EFI_INVALID_PARAMETER);
    assert_eq!(mm_locate_protocol_impl(&db, Some(7), true).interface, Some(0x1000));
    assert_eq!(mm_locate_protocol_impl(&db, Some(8), true).status, EFI_NOT_FOUND);

    let found = mm_locate_handle_impl(&db, ALL_HANDLES, None, Some(8), true);
    assert_eq!((found.status, found.handles), (EFI_SUCCESS, vec![handle]));
    let small = mm_locate_handle_impl(&db, BY_PROTOCOL, Some(7), Some(7), true);
    assert_eq!((small.status, small.required_size), (EFI_BUFFER_TOO_SMALL, Some(8)));
    let missing = mm_locate_handle_impl(&db, BY_PROTOCOL, Some(8), Some(8), true);
    assert_eq!(missing.status, EFI_NOT_FOUND);
    assert_eq!(mm_locate_handle_impl(&db, 1, None, Some(8), true).status, EFI_UNSUPPORTED);
    let sizeless = mm_locate_handle_impl(&db, ALL_HANDLES, None, None, true);
    assert_eq!(sizeless.status, EFI_INVALID_PARAMETER);

    let notify = mm_register_protocol_notify_impl(&mut db, Some(7), 0xF0, Some(0));
    assert_eq!(notify.status, EFI_SUCCESS);
    let gone = mm_register_protocol_notify_impl(&mut db, Some(7), 0, notify.registration);
    assert_eq!(gone.status, EFI_SUCCESS);
    let again = mm_register_protocol_notify_impl(&mut db, Some(7), 0, notify.registration);
    assert_eq!(again.status, EFI_NOT_FOUND);

    let removed = mm_uninstall_protocol_interface_impl(&mut db, handle, Some(7), 0x1000);
    assert_eq!(removed, EFI_SUCCESS);
    let null = mm_uninstall_protocol_interface_impl(&mut db, 0, Some(7), 0x1000);
    assert_eq!(null, EFI_INVALID_PARAMETER);
}

#[test]
fn memory_services_check_their_parameters() {
    assert_eq!(mm_allocate_pool_impl(true, 16), Ok(16));
    assert_eq!(mm_allocate_pool_impl(false, 16), Err(EFI_INVALID_PARAMETER));
    assert_eq!(mm_allocate_pool_impl(true, 0), Err(EFI_INVALID_PARAMETER));
    assert_eq!(mm_allocate_pool_impl(true, u64::MAX), Err(EFI_INVALID_PARAMETER));
    assert_eq!(allocation_status(None), EFI_OUT_OF_RESOURCES);
    assert_eq!(allocation_status(Some(0x1000)), EFI_SUCCESS);
    assert_eq!(mm_free_pool_impl(0), Some(EFI_INVALID_PARAMETER));
    assert_eq!(mm_free_pool_impl(0x1000), None);
    assert_eq!(mm_allocate_pages_impl(true, 0), Some(EFI_INVALID_PARAMETER));
    assert_eq!(mm_allocate_pages_impl(true, 1), None);
    assert_eq!(mm_free_pages_impl(0x1000, 1, true), EFI_SUCCESS);
    assert_eq!(mm_free_pages_impl(0x1000, 1, false), EFI_INVALID_PARAMETER);
    assert_eq!(mm_free_pages_impl(0, 1, true), EFI_INVALID_PARAMETER);
}

// ---- The user core ----

fn comm_buffer_hob(pages: u64) -> Hob {
    let mut data: Vec<u8> = Vec::new();
    for field in [0x8000u64, pages, 0x9000] {
        data.extend(field.to_le_bytes());
    }
    Hob::GuidHob { name: MM_COMM_BUFFER_HOB_GUID, data }
}

#[test]
fn commands_lead_to_actions() {
    let core = MmUserCore::new();
    let invalid = UserCoreAction::Return(EFI_INVALID_PARAMETER);
    assert_eq!(core.entry_point_worker(99, 1, 2), invalid);
    let start = core.entry_point_worker(UserCommandType::StartUserCore.as_u64(), 0x1000, 0);
    assert_eq!(start, UserCoreAction::Start { hob_list: 0x1000 });
    let request = UserCommandType::UserRequest.as_u64();
    assert_eq!(
        core.entry_point_worker(request, 0x1000, 40),
        UserCoreAction::Request { supv_to_user_buffer: 0x1000, context_size: 40 }
    );
    assert_eq!(core.entry_point_worker(request, 0, 40), invalid);
    let procedure = UserCommandType::UserApProcedure.as_u64();
    assert_eq!(
        core.entry_point_worker(procedure, 0x99, 5),
        UserCoreAction::CallProcedure { procedure: 0x99, argument: 5 }
    );
    assert_eq!(core.handle_user_ap_procedure(0, 5), invalid);
}

#[test]
fn the_core_starts_once() {
    let mut core = MmUserCore::new();
    let hobs = vec![Hob::Other, comm_buffer_hob(2)];
    assert_eq!(discover_comm_buffer(&hobs), Some((0x8000, 0x2000)));
    assert_eq!(discover_comm_buffer(&vec![comm_buffer_hob(u64::MAX)]), Some((0x8000, u64::MAX)));
    assert_eq!(core.handle_start_user_core(Some(&hobs)), StartAction::DispatchDrivers);
    assert_eq!(core.drivers_dispatched(Err(EFI_NOT_FOUND)), EFI_NOT_FOUND);
    assert!(!core.is_initialized());
    assert_eq!(core.drivers_dispatched(Ok(3)), EFI_SUCCESS);
    assert!(core.is_initialized());
    let again = core.handle_start_user_core(Some(&hobs));
    assert_eq!(again, StartAction::Return(EFI_ALREADY_STARTED));
    let mut status = MmCommBufferStatus {
        is_comm_buffer_valid: 1,
        talk_to_supervisor: 0,
        return_status: 0,
        return_buffer_size: 0,
    };
    assert_eq!(core.handle_user_request(&status), Some((0x8000, 0x2000)));
    status.is_comm_buffer_valid = 0;
    assert_eq!(core.handle_user_request(&status), None);
    let mut other = MmUserCore::new();
    let missing = other.handle_start_user_core(None);
    assert_eq!(missing, StartAction::Return(EFI_INVALID_PARAMETER));
}

const V3: CommunicateV3Layout = CommunicateV3Layout {
    header_guid: 0x33,
    header_size: 48,
    buffer_size_offset: 16,
    message_guid_offset: 32,
};

fn first_version(guid: u128, length: u64, size: usize) -> Vec<u8> {
    let mut bytes: Vec<u8> = guid.to_le_bytes().to_vec();
    bytes.extend(length.to_le_bytes());
    bytes.resize(size, 0xEE);
    bytes
}

#[test]
fn layouts_keep_their_fields_within_the_header() {
    assert!(V3.is_valid());
    assert!(!CommunicateV3Layout { header_size: 23, ..V3 }.is_valid());
    assert!(!CommunicateV3Layout { buffer_size_offset: 41, ..V3 }.is_valid());
    assert!(!CommunicateV3Layout { message_guid_offset: usize::MAX, ..V3 }.is_valid());
}

#[test]
fn messages_are_parsed() {
    let mut buffer = first_version(7, 8, 64);
    let message = SyncMessage { guid: 7, header_size: 24, data_size: 8 };
    assert_eq!(dispatch_synchronous_mmi(&mut buffer, &V3), Ok(message));
    // What is behind the message is zeroed.
    assert_eq!(buffer[24..32], [0xEE; 8]);
    assert_eq!(buffer[32..64], [0; 32]);
    assert_eq!(response_size(&message, 16), 40);

    let mut buffer = first_version(0x33, 60, 64);
    buffer[32..48].copy_from_slice(&9u128.to_le_bytes());
    let message = SyncMessage { guid: 9, header_size: 48, data_size: 12 };
    assert_eq!(dispatch_synchronous_mmi(&mut buffer, &V3), Ok(message));
    assert_eq!(buffer[59..], [0xEE, 0, 0, 0, 0]);

    for (guid, length) in [(7, 41), (7, u64::MAX), (0x33, 65)] {
        let mut buffer = first_version(guid, length, 64);
        assert_eq!(dispatch_synchronous_mmi(&mut buffer, &V3), Err(EFI_BAD_BUFFER_SIZE));
        assert_eq!(buffer, first_version(guid, length, 64));
    }
    assert_eq!(dispatch_synchronous_mmi(&mut vec![0; 23], &V3), Err(EFI_BAD_BUFFER_SIZE));
    // A header of the third version that the buffer has no room for.
    let mut short = first_version(0x33, 24, 47);
    assert_eq!(dispatch_synchronous_mmi(&mut short, &V3), Err(EFI_BAD_BUFFER_SIZE));
    assert_eq!(short, first_version(0x33, 24, 47));
}

#[test]
fn answers_report_a_missing_handler() {
    let done = finish_user_request(EFI_SUCCESS, 40);
    assert_eq!((done.is_comm_buffer_valid, done.return_buffer_size), (0, 40));
    assert_eq!(done.return_status, EFI_SUCCESS);
    assert_eq!(finish_user_request(EFI_UNSUPPORTED, 40).return_status, EFI_NOT_FOUND);
}

#[test]
fn dependency_hobs_name_their_driver() {
    let mut bytes: Vec<u8> = 0xABCDu128.to_le_bytes().to_vec();
    bytes.extend(5u64.to_le_bytes());
    let depex = DepexHobData::from_bytes(&bytes);
    assert_eq!((depex.name, depex.depex_expression_size), (0xABCD, 5));
}

// ---- The system table ----

fn services() -> MmServiceTable {
    MmServiceTable {
        mm_install_configuration_table: 1,
        mm_io: 0,
        mm_allocate_pool: 2,
        mm_free_pool: 3,
        mm_allocate_pages: 4,
        mm_free_pages: 5,
        mm_startup_this_ap: 6,
        mm_install_protocol_interface: 7,
        mm_uninstall_protocol_interface: 8,
        mm_handle_protocol: 9,
        mm_register_protocol_notify: 10,
        mm_locate_handle: 11,
        mm_locate_protocol: 12,
        mmi_manage: 13,
        mmi_handler_register: 14,
        mmi_handler_unregister: 15,
    }
}

#[test]
fn the_system_table_is_made_once() {
    let mut table = None;
    assert_eq!(get_mm_system_table(&table), None);
    update_cpu_context(&mut table, 1, 4);
    assert_eq!(table, None);
    let made = init_mm_system_table(&mut table, 0x534D4D53, 0x10032, 24, services());
    assert_eq!((made.hdr.signature, made.services.mmi_manage), (0x534D4D53, 13));
    update_cpu_context(&mut table, 1, 4);
    let again = init_mm_system_table(&mut table, 9, 9, 9, services());
    assert_eq!((again.currently_executing_cpu, again.number_of_cpus), (1, 4));
    assert_eq!(again.hdr, made.hdr);
}
