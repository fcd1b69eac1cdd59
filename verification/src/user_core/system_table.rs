//! The MM system table, which drivers are handed.
//!
//! The table is made once. Its services are addresses of functions, and 0 stands for one that
//! is not there.

use vstd::prelude::*;

verus! {

/// The head of the table.
#[derive(Debug, Clone, Copy, PartialEq, Eq, Structural)]
pub struct TableHeader {
    /// Signature.
    pub signature: u64,
    /// Revision.
    pub revision: u32,
    /// Size of the table.
    pub header_size: u32,
    /// Checksum.
    pub crc32: u32,
    /// Reserved.
    pub reserved: u32,
}

/// The services of the table.
#[derive(Debug, Clone, Copy, PartialEq, Eq, Structural)]
pub struct MmServiceTable {
    /// `MmInstallConfigurationTable`.
    pub mm_install_configuration_table: u64,
    /// Any access of the CPU I/O protocol.
    pub mm_io: u64,
    /// `MmAllocatePool`.
    pub mm_allocate_pool: u64,
    /// `MmFreePool`.
    pub mm_free_pool: u64,
    /// `MmAllocatePages`.
    pub mm_allocate_pages: u64,
    /// `MmFreePages`.
    pub mm_free_pages: u64,
    /// `MmStartupThisAp`.
    pub mm_startup_this_ap: u64,
    /// `MmInstallProtocolInterface`.
    pub mm_install_protocol_interface: u64,
    /// `MmUninstallProtocolInterface`.
    pub mm_uninstall_protocol_interface: u64,
    /// `MmHandleProtocol`.
    pub mm_handle_protocol: u64,
    /// `MmRegisterProtocolNotify`.
    pub mm_register_protocol_notify: u64,
    /// `MmLocateHandle`.
    pub mm_locate_handle: u64,
    /// `MmLocateProtocol`.
    pub mm_locate_protocol: u64,
    /// `MmiManage`.
    pub mmi_manage: u64,
    /// `MmiHandlerRegister`.
    pub mmi_handler_register: u64,
    /// `MmiHandlerUnRegister`.
    pub mmi_handler_unregister: u64,
}

/// The MM system table.
#[derive(Debug, Clone, Copy, PartialEq, Eq, Structural)]
pub struct MmSystemTable {
    /// The head.
    pub hdr: TableHeader,
    /// Name of the firmware vendor.
    pub mm_firmware_vendor: u64,
    /// Revision of the firmware.
    pub mm_firmware_revision: u32,
    /// The services.
    pub services: MmServiceTable,
    /// Index of the CPU that executes.
    pub currently_executing_cpu: usize,
    /// Number of CPUs.
    pub number_of_cpus: usize,
    /// Sizes of the save states.
    pub cpu_save_state_size: u64,
    /// The save states.
    pub cpu_save_state: u64,
    /// Number of configuration tables.
    pub number_of_table_entries: usize,
    /// The configuration tables.
    pub mm_configuration_table: u64,
}

/// A table that has just been made: it has a head and services, no checksum, and nothing else
/// yet.
pub open spec fn new_table(
    signature: u64,
    revision: u32,
    header_size: u32,
    services: MmServiceTable,
) -> MmSystemTable {
    MmSystemTable {
        hdr: TableHeader { signature, revision, header_size, crc32: 0, reserved: 0 },
        mm_firmware_vendor: 0,
        mm_firmware_revision: 0,
        services,
        currently_executing_cpu: 0,
        number_of_cpus: 0,
        cpu_save_state_size: 0,
        cpu_save_state: 0,
        number_of_table_entries: 0,
        mm_configuration_table: 0,
    }
}

/// Initializes the MM system table, unless that has been done before, and returns it.
pub fn init_mm_system_table(
    table: &mut Option<MmSystemTable>,
    signature: u64,
    revision: u32,
    header_size: u32,
    services: MmServiceTable,
) -> (r: MmSystemTable)
    ensures
        *final(table) == Some(r),
        r == match *old(table) {
            Some(existing) => existing,
            None => new_table(signature, revision, header_size, services),
        },
{
    match *table {
        Some(existing) => existing,
        None => {
            let new = MmSystemTable {
                hdr: TableHeader { signature, revision, header_size, crc32: 0, reserved: 0 },
                mm_firmware_vendor: 0,
                mm_firmware_revision: 0,
                services,
                currently_executing_cpu: 0,
                number_of_cpus: 0,
                cpu_save_state_size: 0,
                cpu_save_state: 0,
                number_of_table_entries: 0,
                mm_configuration_table: 0,
            };
            *table = Some(new);
            new
        },
    }
}

/// Returns the MM system table, or `None` if it has not been initialized.
pub fn get_mm_system_table(table: &Option<MmSystemTable>) -> (r: Option<MmSystemTable>)
    ensures
        r == *table,
{
    *table
}

/// Updates the table's CPU information, if there is a table.
pub fn update_cpu_context(
    table: &mut Option<MmSystemTable>,
    currently_executing_cpu: usize,
    number_of_cpus: usize,
)
    ensures
        *final(table) == match *old(table) {
            Some(existing) => Some(
                MmSystemTable { currently_executing_cpu, number_of_cpus, ..existing },
            ),
            None => None,
        },
{
    match *table {
        Some(existing) => {
            *table = Some(MmSystemTable { currently_executing_cpu, number_of_cpus, ..existing });
        },
        None => {},
    }
}

/// A system table starts with its header and services, without a processor, a save state or a
/// configuration table.
pub proof fn law_new_table(
    signature: u64,
    revision: u32,
    header_size: u32,
    services: MmServiceTable,
)
    ensures
        ({
            let t = new_table(signature, revision, header_size, services);
            &&& t.hdr.signature == signature
            &&& t.hdr.revision == revision
            &&& t.hdr.header_size == header_size
            &&& t.hdr.crc32 == 0 && t.hdr.reserved == 0
            &&& t.services == services
            &&& t.mm_firmware_vendor == 0 && t.mm_firmware_revision == 0
            &&& t.currently_executing_cpu == 0 && t.number_of_cpus == 0
            &&& t.cpu_save_state_size == 0 && t.cpu_save_state == 0
            &&& t.number_of_table_entries == 0 && t.mm_configuration_table == 0
        }),
{
}

} // verus!
