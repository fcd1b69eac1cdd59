use patina_mm::efi;
use patina_mm::mm_common::MM_COMM_BUFFER_HOB_GUID;
use patina_mm::protocol::mm_supervisor_request::MM_SUPERVISOR_REQUEST_HANDLER_GUID;
use patina_mm::supervisor::mm_mem::{MM_PEI_MMRAM_MEMORY_RESERVE_GUID, SMM_SMRAM_MEMORY_GUID};
use patina_mm::supervisor::page_table::{
    EXECUTE_PROTECT, READ_ONLY, READ_PROTECT, SUPERVISOR_ONLY,
};
use patina_mm::supervisor::pass_down::{
    MM_SUPERVISOR_HOB_MEMORY_ALLOC_MODULE_GUID, MM_SUPERVISOR_USER_GUID,
    MM_SUPV_PASS_DOWN_HOB_GUID,
};
use patina_mm::supervisor::supervisor_handlers::EFI_DXE_MM_READY_TO_LOCK_PROTOCOL_GUID;
use patina_mm::user_core::mm_user_core::{MM_SUPERVISOR_CORE_GUID, MM_SUPERVISOR_DEPEX_HOB_GUID};
use patina_paging::MemoryAttributes;
use r_efi::efi::{Guid, Status};

fn value(guid: &Guid) -> u128 {
    u128::from_le_bytes(*guid.as_bytes())
}

#[test]
fn guids_hold_the_bytes_of_their_fields() {
    assert_eq!(
        MM_SUPERVISOR_HOB_MEMORY_ALLOC_MODULE_GUID,
        value(&Guid::from_fields(
            0x3efafe72,
            0x3dbf,
            0x4341,
            0xad,
            0x04,
            &[0x1c, 0xb6, 0xe8, 0xb6, 0x8e, 0x5e]
        ))
    );
    assert_eq!(
        MM_SUPERVISOR_USER_GUID,
        value(&Guid::from_fields(
            0x30d1cc3f,
            0xc1db,
            0x41ed,
            0xb1,
            0x13,
            &[0xab, 0xce, 0x21, 0xb0, 0x2b, 0xce]
        ))
    );
    assert_eq!(
        MM_SUPV_PASS_DOWN_HOB_GUID,
        value(&Guid::from_fields(
            0x3f2d2d1a,
            0x7c6a,
            0x4e2e,
            0x91,
            0x2e,
            &[0x5c, 0x4f, 0x5b, 0x8c, 0x2a, 0x9d]
        ))
    );
    assert_eq!(
        MM_SUPERVISOR_CORE_GUID,
        value(&Guid::from_fields(
            0x4e4c89dc,
            0xa452,
            0x4b6b,
            0xb1,
            0x83,
            &[0xf1, 0x6a, 0x2a, 0x22, 0x37, 0x33]
        ))
    );
    assert_eq!(
        MM_SUPERVISOR_DEPEX_HOB_GUID,
        value(&Guid::from_fields(
            0xb17f0049,
            0xaffd,
            0x4530,
            0xac,
            0xd6,
            &[0xe2, 0x45, 0xe1, 0x9d, 0xea, 0xf1]
        ))
    );
    assert_eq!(
        MM_COMM_BUFFER_HOB_GUID,
        value(&Guid::from_fields(
            0x6c2a2520,
            0x0131,
            0x4aee,
            0xa7,
            0x50,
            &[0xcc, 0x38, 0x4a, 0xac, 0xe8, 0xc6]
        ))
    );
    assert_eq!(
        MM_SUPERVISOR_REQUEST_HANDLER_GUID,
        value(&Guid::from_fields(
            0x8c633b23,
            0x1260,
            0x4ea6,
            0x83,
            0x0F,
            &[0x7d, 0xdc, 0x97, 0x38, 0x21, 0x11]
        ))
    );
    assert_eq!(
        SMM_SMRAM_MEMORY_GUID,
        value(&Guid::from_fields(
            0x6dadf1d1,
            0xd4cc,
            0x4910,
            0xbb,
            0x6e,
            &[0x82, 0xb1, 0xfd, 0x80, 0xff, 0x3d]
        ))
    );
    assert_eq!(
        MM_PEI_MMRAM_MEMORY_RESERVE_GUID,
        value(&Guid::from_fields(
            0x0703f912,
            0xbf8d,
            0x4e2a,
            0xbe,
            0x07,
            &[0xab, 0x27, 0x25, 0x25, 0xc5, 0x92]
        ))
    );
    assert_eq!(
        EFI_DXE_MM_READY_TO_LOCK_PROTOCOL_GUID,
        value(&Guid::from_fields(
            0x60ff8964,
            0xe906,
            0x41d0,
            0xaf,
            0xed,
            &[0xf2, 0x41, 0xe9, 0x74, 0xe0, 0x8e]
        ))
    );
}

#[test]
fn statuses_are_those_of_uefi() {
    assert_eq!(efi::EFI_SUCCESS, Status::SUCCESS.as_usize() as u64);
    assert_eq!(efi::EFI_INVALID_PARAMETER, Status::INVALID_PARAMETER.as_usize() as u64);
    assert_eq!(efi::EFI_UNSUPPORTED, Status::UNSUPPORTED.as_usize() as u64);
    assert_eq!(efi::EFI_BAD_BUFFER_SIZE, Status::BAD_BUFFER_SIZE.as_usize() as u64);
    assert_eq!(efi::EFI_BUFFER_TOO_SMALL, Status::BUFFER_TOO_SMALL.as_usize() as u64);
    assert_eq!(efi::EFI_NOT_READY, Status::NOT_READY.as_usize() as u64);
    assert_eq!(efi::EFI_DEVICE_ERROR, Status::DEVICE_ERROR.as_usize() as u64);
    assert_eq!(efi::EFI_OUT_OF_RESOURCES, Status::OUT_OF_RESOURCES.as_usize() as u64);
    assert_eq!(efi::EFI_NOT_FOUND, Status::NOT_FOUND.as_usize() as u64);
    assert_eq!(efi::EFI_ACCESS_DENIED, Status::ACCESS_DENIED.as_usize() as u64);
    assert_eq!(efi::EFI_TIMEOUT, Status::TIMEOUT.as_usize() as u64);
    assert_eq!(efi::EFI_ALREADY_STARTED, Status::ALREADY_STARTED.as_usize() as u64);
    assert_eq!(efi::EFI_ABORTED, Status::ABORTED.as_usize() as u64);
    assert_eq!(efi::EFI_SECURITY_VIOLATION, Status::SECURITY_VIOLATION.as_usize() as u64);
}

#[test]
fn page_attributes_are_those_of_the_page_table() {
    assert_eq!(READ_PROTECT, MemoryAttributes::ReadProtect.bits());
    assert_eq!(EXECUTE_PROTECT, MemoryAttributes::ExecuteProtect.bits());
    assert_eq!(READ_ONLY, MemoryAttributes::ReadOnly.bits());
    assert_eq!(SUPERVISOR_ONLY, MemoryAttributes::Supervisor.bits());
}

#[test]
fn fields_are_little_endian() {
    let bytes: Vec<u8> = (1..=16).collect();
    assert_eq!(efi::read_guid(&bytes, 0), 0x100f0e0d0c0b0a090807060504030201);
    let mut buffer = vec![0xffu8; 20];
    patina_mm::bytes::write_u32(&mut buffer, 1, 0x0403_0201);
    patina_mm::bytes::write_u64(&mut buffer, 8, 0x0807_0605_0403_0201);
    assert_eq!(buffer[0..6], [0xff, 1, 2, 3, 4, 0xff]);
    assert_eq!(buffer[7..17], [0xff, 1, 2, 3, 4, 5, 6, 7, 8, 0xff]);
}
