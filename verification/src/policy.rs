//! Secure policy: data structures, access validation and helpers.
//!
//! The supervisor uses a security policy to control what user-mode drivers may
//! touch. A policy is one block of bytes: a header, an array of policy roots and,
//! for each root, an array of descriptors.
//!
//! - [`types`]: the layout of the block and the values in it.
//! - [`gate`]: whether one I/O, MSR, instruction or save state access is allowed.
//! - [`helpers`]: dumping, comparing and validating policies, and building a memory
//!   policy out of page table entries.

pub mod gate;
pub mod helpers;
pub mod types;
