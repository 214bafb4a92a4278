//! The failures the registry logic can report. Transport and configuration
//! failures stay with the caller that performs the I/O; everything here is
//! decided by the verified core itself.

use vstd::prelude::*;

verus! {

#[derive(Debug)]
pub enum PackageError {
    /// The artifact bytes do not hash to the digest stored beside them.
    ChecksumMismatch { name: String, version: String, expected: String, actual: String },
    /// The sibling digest object is absent.
    MissingChecksum,
    /// The requested (name, version) already exists in the catalog.
    VersionExists { name: String, version: String },
    /// A strictly higher version of the same name exists in the catalog.
    HigherVersionExists { name: String, version: String, existing: String },
    /// The exact (name, version) is locked against modification.
    PackageLocked { name: String, version: String, reason: String },
    /// The requested version does not parse as a semantic version.
    InvalidVersion { version: String },
    /// No artifact with this (name, version) is in the catalog.
    PackageNotFound { name: String, version: String },
    /// The (name, version) already carries a lock record.
    AlreadyLocked { name: String, version: String },
    /// The (name, version) carries no lock record.
    NotLocked { name: String, version: String },
    /// No backup record decomposes to the requested (name, version).
    NoBackupFound { name: String, version: String },
    /// No matching backup record's timestamp starts with the given prefix.
    NoBackupForTimestamp { timestamp: String },
    /// A package argument is not of the form name@version.
    InvalidPackageSpec { raw: String },
    /// The manifest inside a pulled artifact declares another identity.
    MetadataMismatch { name: String, version: String, found_name: String, found_version: String },
}

} // verus!
