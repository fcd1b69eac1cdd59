//! MM User Core, the ring 3 part of the standalone MM environment.

pub mod mm_services;
pub mod mm_user_core;
pub mod mmi;
pub mod protocol_db;
pub mod system_table;
