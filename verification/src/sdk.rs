//! What drivers use of the MM environment: its services, protocols, and timers.

pub mod mm_services;
pub mod service_table;
pub mod timer;
