//! MM Supervisor Core.

pub mod cpu;
pub mod mm_core;
pub mod mm_mem;
pub mod page_table;
pub mod paging_allocator;
pub mod pass_down;
pub mod perf_timer;
pub mod pool_allocator;
pub mod privilege_mgmt;
pub mod request_handler;
pub mod save_state;
pub mod smi_entry;
pub mod supervisor_handlers;
pub mod unblock_memory;
