//! Typed, host-side views over kernel-resident key/value maps.
//!
//! The kernel calls themselves are made by the caller. This crate decides
//! which call is made with which arguments, and what each answer means:
//! every operation is split into a function that builds a [`syscall::Call`]
//! and a function that interprets the raw answer.

pub mod descriptor;
pub mod error;
pub mod hash_map;
pub mod kernel;
pub mod lpm_trie_map;
pub mod percpu_array_map;
pub mod syscall;
