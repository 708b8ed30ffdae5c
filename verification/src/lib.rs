//! Filesystem staging primitives for an application-bundling tool.
//!
//! The verified core covers three concerns:
//! - mapping arbitrary resource paths (absolute, relative, or containing
//!   parent traversals) to safe relative paths inside a resource directory;
//! - the validation and per-entry dispatch logic of recursive directory
//!   replication, expressed over observed filesystem state so that the
//!   unverified shell only performs the raw syscalls;
//! - validation and decoding decisions for whole-file reads.

pub mod errors;
pub mod normalize;
pub mod replicate;
pub mod retina;
pub mod segments;
pub mod text;
