//! Verified core of a standalone Management Mode (MM) environment.

pub mod bytes;
pub mod efi;
pub mod hob;
pub mod mm_alloc;
pub mod mm_common;
pub mod mm_cpu;
pub mod mm_supervisor;
pub mod policy;
pub mod protocol;
pub mod save_state;
pub mod sdk;
pub mod supervisor;
pub mod user_core;
