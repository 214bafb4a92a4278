//! The entity types shared by the registry components: packages as derived
//! from the catalog, author-declared manifests, and the single shared control
//! document that records locks and backups.

use vstd::prelude::*;

verus! {

/// Author-declared encryption settings that travel inside a package manifest.
/// The salt and nonce are persisted so that a future decryption can re-derive
/// the same key and open the same ciphertext.
#[derive(Debug)]
pub struct EncryptionConfig {
    pub algorithm: Option<String>,
    pub enabled: bool,
    pub encrypted_password: Option<String>,
    pub salt: Option<String>,
    pub nonce: Option<String>,
}

/// Storage descriptor of one artifact as the object store reports it.
#[derive(Debug)]
pub struct Storage {
    pub path: String,
    pub checksum: String,
    pub size: u64,
    pub created_at: String,
}

/// One package version as derived from the object-store listing. Identity is
/// the pair (name, version); entries are recomputed on every listing and have
/// no independent lifecycle.
#[derive(Debug)]
pub struct Package {
    pub name: String,
    pub version: String,
    pub author: String,
    pub description: String,
    pub dependencies: Vec<(String, String)>,
    pub storage: Storage,
    pub is_locked: bool,
    pub lock_reason: Option<String>,
}

/// A project file listing several packages under one schema version.
#[derive(Debug)]
pub struct Project {
    pub schema_version: String,
    pub packages: Vec<Package>,
}

/// The author-declared manifest that travels inside an artifact. Dependencies
/// are stored as declared (name, range) pairs and are never resolved.
#[derive(Debug)]
pub struct PackageMetadata {
    pub name: String,
    pub version: String,
    pub author: String,
    pub description: String,
    pub includes: Vec<String>,
    pub excludes: Vec<String>,
    pub dependencies: Vec<(String, String)>,
    pub encryption: Option<EncryptionConfig>,
}

/// One lock record: the (name, version) it protects, why and by whom it was
/// taken, and a snapshot of the artifact's checksum at lock time.
#[derive(Debug)]
pub struct LockedPackage {
    pub name: String,
    pub version: String,
    pub lock_reason: String,
    pub locked_at: String,
    pub locked_by: String,
    pub checksum: String,
}

/// One backup record: where the artifact lived, where its copy went, and when.
#[derive(Debug)]
pub struct PackageBackup {
    pub original_path: String,
    pub backup_path: String,
    pub timestamp: String,
    pub reason: String,
}

/// The one shared control document: lock and backup indices plus the time of
/// the last successful save.
#[derive(Debug)]
pub struct RegistryMetadata {
    pub registry_name: String,
    pub backup_enabled: bool,
    pub locked_packages: Vec<LockedPackage>,
    pub backups: Vec<PackageBackup>,
    pub last_updated: String,
}

/// Whether a lock record is the one protecting the given (name, version).
pub open spec fn lock_is_for(lp: LockedPackage, name: Seq<char>, version: Seq<char>) -> bool {
    lp.name@ == name && lp.version@ == version
}

/// Whether a catalog entry carries the given (name, version).
pub open spec fn package_is(p: Package, name: Seq<char>, version: Seq<char>) -> bool {
    p.name@ == name && p.version@ == version
}

/// Whether some lock record in the list protects the given (name, version).
pub open spec fn is_locked_in(locks: Seq<LockedPackage>, name: Seq<char>, version: Seq<char>) -> bool {
    exists|i: int| 0 <= i < locks.len() && lock_is_for(#[trigger] locks[i], name, version)
}

/// Whether some catalog entry carries the given (name, version).
pub open spec fn catalog_has(cat: Seq<Package>, name: Seq<char>, version: Seq<char>) -> bool {
    exists|i: int| 0 <= i < cat.len() && package_is(#[trigger] cat[i], name, version)
}

} // verus!
