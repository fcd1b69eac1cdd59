//! Protocols between the supervisor and its clients.

pub mod mm_supervisor_request;
