//! A package-registry client library: a remote object store holds versioned
//! artifacts, and this crate provides the verified core around it — catalog
//! key handling, version-conflict policy, lock and backup bookkeeping,
//! checksum verification, and the optional encryption pipeline.

pub mod catalog;
pub mod checksum;
pub mod conflict;
pub mod errors;
pub mod keys;
pub mod models;
pub mod operations;
pub mod registry;
pub mod security;
pub mod strutil;
