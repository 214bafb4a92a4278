//! Lock and backup bookkeeping over the one shared control document. Every
//! mutation is a read-whole, modify, write-whole cycle; the functions here are
//! the modify step, and the caller that owns the transport loads and saves the
//! document around them.

use vstd::prelude::*;

use crate::catalog::{catalog_wf, find_lock_index, find_package_index};
use crate::conflict::first_pkg_idx;
use crate::errors::PackageError;
use crate::keys::{key_name_of, key_parses, key_version_of};
use crate::models::{
    catalog_has, is_locked_in, lock_is_for, package_is, LockedPackage, Package, PackageBackup,
    RegistryMetadata,
};

verus! {

/// Relies on chrono::Utc::now().to_rfc3339(): the current instant as ISO-8601
/// text. The clock decides the value; nothing is promised of it. The format
/// sorts lexicographically in chronological order within one epoch.
#[verifier::external_body]
fn now_rfc3339() -> String {
    chrono::Utc::now().to_rfc3339()
}

/// Relies on chrono::Utc::now().timestamp(): the current Unix second as
/// decimal text. The clock decides the value; nothing is promised of it.
#[verifier::external_body]
fn now_unix_label() -> String {
    format!("{}", chrono::Utc::now().timestamp())
}

/// Whether a lock record carries exactly these fields.
pub open spec fn lock_record_for(
    lp: LockedPackage,
    name: Seq<char>,
    version: Seq<char>,
    reason: Seq<char>,
    user: Seq<char>,
    at: Seq<char>,
    checksum: Seq<char>,
) -> bool {
    &&& lp.name@ == name
    &&& lp.version@ == version
    &&& lp.lock_reason@ == reason
    &&& lp.locked_at@ == at
    &&& lp.locked_by@ == user
    &&& lp.checksum@ == checksum
}

/// At most one lock record per (name, version).
pub open spec fn locks_unique(locks: Seq<LockedPackage>) -> bool {
    forall|i: int, j: int|
        0 <= i < j < locks.len() ==> !((#[trigger] locks[i]).name@ == (#[trigger] locks[j]).name@
            && locks[i].version@ == locks[j].version@)
}

/// The index of the first lock record for (name, version), or -1.
pub open spec fn first_lock_idx(locks: Seq<LockedPackage>, name: Seq<char>, version: Seq<char>) -> int
    decreases locks.len(),
{
    if locks.len() == 0 {
        -1
    } else if lock_is_for(locks[0], name, version) {
        0
    } else {
        let rest = first_lock_idx(locks.drop_first(), name, version);
        if rest < 0 {
            -1
        } else {
            rest + 1
        }
    }
}

/// The first lock index is in range, matches, is minimal, and exists exactly
/// when a lock record for the pair does.
pub proof fn lemma_first_lock_idx(locks: Seq<LockedPackage>, name: Seq<char>, version: Seq<char>)
    ensures
        first_lock_idx(locks, name, version) == -1 <==> !is_locked_in(locks, name, version),
        first_lock_idx(locks, name, version) >= 0 ==> {
            let fi = first_lock_idx(locks, name, version);
            &&& fi < locks.len()
            &&& lock_is_for(locks[fi], name, version)
            &&& forall|j: int| 0 <= j < fi ==> !lock_is_for(#[trigger] locks[j], name, version)
        },
    decreases locks.len(),
{
    if locks.len() == 0 {
    } else if lock_is_for(locks[0], name, version) {
    } else {
        lemma_first_lock_idx(locks.drop_first(), name, version);
        let rest = locks.drop_first();
        assert(forall|i: int| 0 <= i < rest.len() ==> rest[i] == locks[i + 1]);
        if is_locked_in(rest, name, version) {
            let i = choose|i: int| 0 <= i < rest.len() && lock_is_for(#[trigger] rest[i], name, version);
            assert(lock_is_for(locks[i + 1], name, version));
        }
        if is_locked_in(locks, name, version) {
            let i = choose|i: int|
                0 <= i < locks.len() && lock_is_for(#[trigger] locks[i], name, version);
            assert(i != 0);
            assert(lock_is_for(rest[i - 1], name, version));
        }
        if first_lock_idx(locks, name, version) >= 0 {
            let fi = first_lock_idx(locks, name, version);
            assert forall|j: int| 0 <= j < fi implies !lock_is_for(
                #[trigger] locks[j],
                name,
                version,
            ) by {
                if j > 0 {
                    assert(!lock_is_for(rest[j - 1], name, version));
                }
            }
        }
    }
}

/// What taking a lock promises: it goes through exactly on a catalogued,
/// not-yet-locked pair; one record is appended carrying the reason, the actor,
/// the given instant, and a snapshot of the artifact's current checksum; and
/// the document's update time moves to that instant. On failure the document
/// is untouched.
pub open spec fn lock_post(
    old_meta: RegistryMetadata,
    new_meta: RegistryMetadata,
    cat: Seq<Package>,
    name: Seq<char>,
    version: Seq<char>,
    reason: Seq<char>,
    user: Seq<char>,
    now: Seq<char>,
    r: Result<(), PackageError>,
) -> bool {
    &&& (r is Ok <==> catalog_has(cat, name, version) && !is_locked_in(
        old_meta.locked_packages@,
        name,
        version,
    ))
    &&& (!catalog_has(cat, name, version) ==> (r matches Err(
        PackageError::PackageNotFound { name: en, version: ev },
    ) && en@ == name && ev@ == version))
    &&& (catalog_has(cat, name, version) && is_locked_in(old_meta.locked_packages@, name, version)
        ==> (r matches Err(PackageError::AlreadyLocked { name: en, version: ev }) && en@ == name
        && ev@ == version))
    &&& (r is Ok ==> {
        let locks = new_meta.locked_packages@;
        &&& locks.len() == old_meta.locked_packages@.len() + 1
        &&& locks.drop_last() == old_meta.locked_packages@
        &&& lock_record_for(
            locks.last(),
            name,
            version,
            reason,
            user,
            now,
            cat[first_pkg_idx(cat, name, version)].storage.checksum@,
        )
        &&& new_meta.last_updated@ == now
        &&& new_meta.backups@ == old_meta.backups@
        &&& new_meta.registry_name == old_meta.registry_name
        &&& new_meta.backup_enabled == old_meta.backup_enabled
    })
    &&& (r is Err ==> new_meta == old_meta)
}

/// What releasing a lock promises: it goes through exactly on a locked pair,
/// removes the first record for it, and moves the update time; on failure the
/// document is untouched.
pub open spec fn unlock_post(
    old_meta: RegistryMetadata,
    new_meta: RegistryMetadata,
    name: Seq<char>,
    version: Seq<char>,
    now: Seq<char>,
    r: Result<(), PackageError>,
) -> bool {
    &&& (r is Ok <==> is_locked_in(old_meta.locked_packages@, name, version))
    &&& (!is_locked_in(old_meta.locked_packages@, name, version) ==> (r matches Err(
        PackageError::NotLocked { name: en, version: ev },
    ) && en@ == name && ev@ == version))
    &&& (r is Ok ==> {
        &&& new_meta.locked_packages@ == old_meta.locked_packages@.remove(
            first_lock_idx(old_meta.locked_packages@, name, version),
        )
        &&& new_meta.last_updated@ == now
        &&& new_meta.backups@ == old_meta.backups@
        &&& new_meta.registry_name == old_meta.registry_name
        &&& new_meta.backup_enabled == old_meta.backup_enabled
    })
    &&& (r is Err ==> new_meta == old_meta)
}

impl RegistryMetadata {
    /// Locks (name, version) at the given instant: the artifact must be in the
    /// catalog and not locked yet; the new record snapshots the artifact's
    /// current checksum.
    pub fn lock_package_at(
        &mut self,
        cat: &Vec<Package>,
        name: &str,
        version: &str,
        reason: &str,
        user: &str,
        now: String,
    ) -> (r: Result<(), PackageError>)
        ensures
            lock_post(*old(self), *final(self), cat@, name@, version@, reason@, user@, now@, r),
    {
        proof {
            crate::conflict::lemma_first_pkg_idx(cat@, name@, version@);
        }
        let pi = match find_package_index(cat, name, version) {
            Some(pi) => pi,
            None => {
                return Err(
                    PackageError::PackageNotFound {
                        name: name.to_owned(),
                        version: version.to_owned(),
                    },
                );
            },
        };
        if find_lock_index(&self.locked_packages, name, version).is_some() {
            return Err(
                PackageError::AlreadyLocked { name: name.to_owned(), version: version.to_owned() },
            );
        }
        proof {
            let fi = first_pkg_idx(cat@, name@, version@);
            assert(package_is(cat@[pi as int], name@, version@));
            assert(!(fi < pi) && !(pi < fi));
        }
        let rec = LockedPackage {
            name: name.to_owned(),
            version: version.to_owned(),
            lock_reason: reason.to_owned(),
            locked_at: now.clone(),
            locked_by: user.to_owned(),
            checksum: cat[pi].storage.checksum.clone(),
        };
        let ghost locks0 = self.locked_packages@;
        self.locked_packages.push(rec);
        self.last_updated = now;
        proof {
            assert(self.locked_packages@.drop_last() =~= locks0);
        }
        Ok(())
    }

    /// Locks (name, version) now: as `lock_package_at`, with the instant read
    /// from the clock, so the record's times are not pinned by the contract.
    pub fn lock_package(
        &mut self,
        cat: &Vec<Package>,
        name: &str,
        version: &str,
        reason: &str,
        user: &str,
    ) -> (r: Result<(), PackageError>)
        ensures
            exists|now: Seq<char>|
                lock_post(
                    *old(self),
                    *final(self),
                    cat@,
                    name@,
                    version@,
                    reason@,
                    user@,
                    now,
                    r,
                ),
    {
        let now = now_rfc3339();
        let ghost n = now@;
        let r = self.lock_package_at(cat, name, version, reason, user, now);
        proof {
            assert(lock_post(*old(self), *final(self), cat@, name@, version@, reason@, user@, n, r));
        }
        r
    }

    /// Releases the lock on (name, version) at the given instant; fails when
    /// no lock record for the pair exists.
    pub fn unlock_package_at(&mut self, name: &str, version: &str, now: String) -> (r: Result<
        (),
        PackageError,
    >)
        ensures
            unlock_post(*old(self), *final(self), name@, version@, now@, r),
    {
        proof {
            lemma_first_lock_idx(self.locked_packages@, name@, version@);
        }
        match find_lock_index(&self.locked_packages, name, version) {
            Some(i) => {
                proof {
                    let fi = first_lock_idx(self.locked_packages@, name@, version@);
                    assert(lock_is_for(self.locked_packages@[i as int], name@, version@));
                    assert(!(fi < i) && !(i < fi));
                }
                self.locked_packages.remove(i);
                self.last_updated = now;
                Ok(())
            },
            None => Err(
                PackageError::NotLocked { name: name.to_owned(), version: version.to_owned() },
            ),
        }
    }

    /// Releases the lock on (name, version) now, with the instant read from
    /// the clock.
    pub fn unlock_package(&mut self, name: &str, version: &str) -> (r: Result<(), PackageError>)
        ensures
            exists|now: Seq<char>|
                unlock_post(*old(self), *final(self), name@, version@, now, r),
    {
        let now = now_rfc3339();
        let ghost n = now@;
        let r = self.unlock_package_at(name, version, now);
        proof {
            assert(unlock_post(*old(self), *final(self), name@, version@, n, r));
        }
        r
    }
}

/// The key a backup of (name, version) taken at the given Unix second goes
/// under.
pub open spec fn spec_backup_key(name: Seq<char>, version: Seq<char>, unix_label: Seq<char>) -> Seq<
    char,
> {
    name + seq!['-'] + version + "-backup-"@ + unix_label + crate::keys::artifact_suffix()
}

/// What a backup run needs from the store: where the artifact's current bytes
/// live and where their copy goes.
#[derive(Debug)]
pub struct BackupPlan {
    pub source_key: String,
    pub backup_key: String,
}

/// Whether a backup record's original key decomposes to (name, version) under
/// the same suffix-then-split rule the catalog uses.
pub open spec fn backup_matches(b: PackageBackup, name: Seq<char>, version: Seq<char>) -> bool {
    &&& key_parses(b.original_path@)
    &&& key_name_of(b.original_path@) == name
    &&& key_version_of(b.original_path@) == version
}

/// Whether any record in the list decomposes to (name, version).
pub open spec fn has_matching_backup(
    backups: Seq<PackageBackup>,
    name: Seq<char>,
    version: Seq<char>,
) -> bool {
    exists|i: int| 0 <= i < backups.len() && backup_matches(#[trigger] backups[i], name, version)
}

/// Whether any matching record's timestamp starts with the given prefix.
pub open spec fn has_ts_backup(
    backups: Seq<PackageBackup>,
    name: Seq<char>,
    version: Seq<char>,
    ts: Seq<char>,
) -> bool {
    exists|i: int|
        0 <= i < backups.len() && backup_matches(#[trigger] backups[i], name, version)
            && crate::strutil::is_prefix_of(ts, backups[i].timestamp@)
}

/// Whether index `i` names the record a restore without a timestamp picks:
/// a matching record whose timestamp no matching record exceeds, and the
/// earliest such record.
pub open spec fn latest_selection(
    backups: Seq<PackageBackup>,
    name: Seq<char>,
    version: Seq<char>,
    i: int,
) -> bool {
    &&& 0 <= i < backups.len()
    &&& backup_matches(backups[i], name, version)
    &&& forall|j: int|
        0 <= j < backups.len() && backup_matches(#[trigger] backups[j], name, version)
            ==> !crate::strutil::lex_lt(backups[i].timestamp@, backups[j].timestamp@)
    &&& forall|j: int|
        0 <= j < i && backup_matches(#[trigger] backups[j], name, version)
            ==> crate::strutil::lex_lt(backups[j].timestamp@, backups[i].timestamp@)
}

/// Whether index `i` names the record a restore with a timestamp prefix picks:
/// the first matching record whose timestamp starts with the prefix.
pub open spec fn ts_selection(
    backups: Seq<PackageBackup>,
    name: Seq<char>,
    version: Seq<char>,
    ts: Seq<char>,
    i: int,
) -> bool {
    &&& 0 <= i < backups.len()
    &&& backup_matches(backups[i], name, version)
    &&& crate::strutil::is_prefix_of(ts, backups[i].timestamp@)
    &&& forall|j: int|
        0 <= j < i ==> !(backup_matches(#[trigger] backups[j], name, version)
            && crate::strutil::is_prefix_of(ts, backups[j].timestamp@))
}

/// Whether a backup record decomposes to (name, version).
fn backup_matches_exec(b: &PackageBackup, name: &str, version: &str) -> (r: bool)
    ensures
        r == backup_matches(*b, name@, version@),
{
    match crate::keys::parse_artifact_key(b.original_path.as_str()) {
        Some((n, v)) => crate::strutil::str_eq(n.as_str(), name) && crate::strutil::str_eq(
            v.as_str(),
            version,
        ),
        None => false,
    }
}

/// What planning a backup promises: it goes through exactly on a catalogued
/// pair; the plan copies the artifact's current bytes to a fresh backup key
/// formed from name, version and the Unix-second label; one record is
/// appended; taking any backup switches the backup flag on; and the update
/// time moves to the given instant. On failure the document is untouched.
pub open spec fn backup_post(
    old_meta: RegistryMetadata,
    new_meta: RegistryMetadata,
    cat: Seq<Package>,
    name: Seq<char>,
    version: Seq<char>,
    reason: Seq<char>,
    at: Seq<char>,
    unix_label: Seq<char>,
    r: Result<BackupPlan, PackageError>,
) -> bool {
    &&& (r is Ok <==> catalog_has(cat, name, version))
    &&& (!catalog_has(cat, name, version) ==> (r matches Err(
        PackageError::PackageNotFound { name: en, version: ev },
    ) && en@ == name && ev@ == version))
    &&& (r matches Ok(plan) ==> {
        let backups = new_meta.backups@;
        &&& plan.source_key@ == cat[first_pkg_idx(cat, name, version)].storage.path@
        &&& plan.backup_key@ == spec_backup_key(name, version, unix_label)
        &&& backups.len() == old_meta.backups@.len() + 1
        &&& backups.drop_last() == old_meta.backups@
        &&& backups.last().original_path@ == plan.source_key@
        &&& backups.last().backup_path@ == plan.backup_key@
        &&& backups.last().timestamp@ == at
        &&& backups.last().reason@ == reason
        &&& new_meta.backup_enabled == true
        &&& new_meta.last_updated@ == at
        &&& new_meta.locked_packages@ == old_meta.locked_packages@
        &&& new_meta.registry_name == old_meta.registry_name
        &&& (catalog_wf(cat) ==> backup_matches(backups.last(), name, version))
    })
    &&& (r is Err ==> new_meta == old_meta)
}

impl RegistryMetadata {
    /// Plans a backup of (name, version) at the given instant and Unix-second
    /// label: the artifact must be in the catalog; its current bytes — in
    /// whatever encryption state they are — are to be copied under the
    /// returned backup key, and the appended record indexes that copy.
    pub fn plan_backup_at(
        &mut self,
        cat: &Vec<Package>,
        name: &str,
        version: &str,
        reason: &str,
        at: String,
        unix_label: &str,
    ) -> (r: Result<BackupPlan, PackageError>)
        ensures
            backup_post(
                *old(self),
                *final(self),
                cat@,
                name@,
                version@,
                reason@,
                at@,
                unix_label@,
                r,
            ),
    {
        proof {
            crate::conflict::lemma_first_pkg_idx(cat@, name@, version@);
        }
        let pi = match find_package_index(cat, name, version) {
            Some(pi) => pi,
            None => {
                return Err(
                    PackageError::PackageNotFound {
                        name: name.to_owned(),
                        version: version.to_owned(),
                    },
                );
            },
        };
        proof {
            let fi = first_pkg_idx(cat@, name@, version@);
            assert(package_is(cat@[pi as int], name@, version@));
            assert(!(fi < pi) && !(pi < fi));
        }
        let mut backup_key = name.to_owned();
        backup_key.append("-");
        backup_key.append(version);
        backup_key.append("-backup-");
        backup_key.append(unix_label);
        backup_key.append(".zip");
        proof {
            reveal_strlit("-");
            reveal_strlit(".zip");
            assert("-"@ =~= seq!['-']);
            assert(".zip"@ =~= crate::keys::artifact_suffix());
            assert(backup_key@ =~= spec_backup_key(name@, version@, unix_label@));
        }
        let source_key = cat[pi].storage.path.clone();
        let rec = PackageBackup {
            original_path: source_key.clone(),
            backup_path: backup_key.clone(),
            timestamp: at.clone(),
            reason: reason.to_owned(),
        };
        let ghost backups0 = self.backups@;
        self.backups.push(rec);
        self.backup_enabled = true;
        self.last_updated = at;
        proof {
            assert(self.backups@.drop_last() =~= backups0);
        }
        Ok(BackupPlan { source_key, backup_key })
    }

    /// Plans a backup now, with the instant and the Unix-second label read
    /// from the clock, so the contract does not pin the time-derived parts.
    pub fn plan_backup(
        &mut self,
        cat: &Vec<Package>,
        name: &str,
        version: &str,
        reason: &str,
    ) -> (r: Result<BackupPlan, PackageError>)
        ensures
            exists|at: Seq<char>, unix_label: Seq<char>|
                backup_post(
                    *old(self),
                    *final(self),
                    cat@,
                    name@,
                    version@,
                    reason@,
                    at,
                    unix_label,
                    r,
                ),
    {
        let at = now_rfc3339();
        let unix_label = now_unix_label();
        let ghost a = at@;
        let ghost u = unix_label@;
        let r = self.plan_backup_at(cat, name, version, reason, at, unix_label.as_str());
        proof {
            assert(backup_post(*old(self), *final(self), cat@, name@, version@, reason@, a, u, r));
        }
        r
    }
}

impl RegistryMetadata {
    /// After a successful upload, refreshes the checksum snapshot of the lock
    /// record for (name, version), if one exists; everything else in the
    /// document stays as it was.
    pub fn update_checksum_record(&mut self, name: &str, version: &str, checksum: &str)
        ensures
            ({
                let locks0 = old(self).locked_packages@;
                let fi = first_lock_idx(locks0, name@, version@);
                &&& (!is_locked_in(locks0, name@, version@) ==> *final (self) == *old(self))
                &&& (is_locked_in(locks0, name@, version@) ==> {
                    let locks1 = final (self).locked_packages@;
                    &&& locks1.len() == locks0.len()
                    &&& (forall|j: int| 0 <= j < locks0.len() && j != fi ==> locks1[j] == locks0[j])
                    &&& locks1[fi].name == locks0[fi].name
                    &&& locks1[fi].version == locks0[fi].version
                    &&& locks1[fi].lock_reason == locks0[fi].lock_reason
                    &&& locks1[fi].locked_at == locks0[fi].locked_at
                    &&& locks1[fi].locked_by == locks0[fi].locked_by
                    &&& locks1[fi].checksum@ == checksum@
                    &&& final (self).backups == old(self).backups
                    &&& final (self).registry_name == old(self).registry_name
                    &&& final (self).backup_enabled == old(self).backup_enabled
                    &&& final (self).last_updated == old(self).last_updated
                })
            }),
    {
        proof {
            lemma_first_lock_idx(self.locked_packages@, name@, version@);
        }
        match find_lock_index(&self.locked_packages, name, version) {
            Some(i) => {
                proof {
                    let fi = first_lock_idx(self.locked_packages@, name@, version@);
                    assert(lock_is_for(self.locked_packages@[i as int], name@, version@));
                    assert(!(fi < i) && !(i < fi));
                }
                let ghost locks0 = self.locked_packages@;
                let old_rec = self.locked_packages.remove(i);
                let new_rec = LockedPackage {
                    name: old_rec.name,
                    version: old_rec.version,
                    lock_reason: old_rec.lock_reason,
                    locked_at: old_rec.locked_at,
                    locked_by: old_rec.locked_by,
                    checksum: checksum.to_owned(),
                };
                self.locked_packages.insert(i, new_rec);
                proof {
                    assert forall|j: int| 0 <= j < locks0.len() && j != i implies self
                        .locked_packages@[j] == locks0[j] by {
                        if j < i {
                            assert(self.locked_packages@[j] == locks0.remove(i as int)[j]);
                        } else {
                            assert(self.locked_packages@[j] == locks0.remove(i as int)[j - 1]);
                        }
                    }
                }
            },
            None => {},
        }
    }
}

/// Selects which backup record a restore of (name, version) uses: with a
/// timestamp prefix, the first matching record whose timestamp starts with it;
/// without one, the matching record with the lexicographically greatest
/// timestamp — the most recent, since the stored format sorts chronologically.
pub fn select_backup(
    backups: &Vec<PackageBackup>,
    name: &str,
    version: &str,
    timestamp: Option<&str>,
) -> (r: Result<usize, PackageError>)
    ensures
        (!has_matching_backup(backups@, name@, version@) ==> (r matches Err(
            PackageError::NoBackupFound { name: en, version: ev },
        ) && en@ == name@ && ev@ == version@)),
        (has_matching_backup(backups@, name@, version@) ==> (match timestamp {
            None => (r matches Ok(i) && latest_selection(backups@, name@, version@, i as int)),
            Some(ts) => {
                &&& (has_ts_backup(backups@, name@, version@, ts@) ==> (r matches Ok(i)
                    && ts_selection(backups@, name@, version@, ts@, i as int)))
                &&& (!has_ts_backup(backups@, name@, version@, ts@) ==> (r matches Err(
                    PackageError::NoBackupForTimestamp { timestamp: et },
                ) && et@ == ts@))
            },
        })),
{
    let n = backups.len();
    let mut any_match = false;
    let mut best: usize = 0;
    let mut have_best = false;
    let ghost bs = backups@;
    let mut i: usize = 0;
    match timestamp {
        Some(ts) => {
            while i < n
                invariant
                    timestamp == Some(ts),
                    0 <= i <= n,
                    n == bs.len(),
                    bs == backups@,
                    any_match <==> exists|j: int|
                        0 <= j < i && backup_matches(#[trigger] bs[j], name@, version@),
                    forall|j: int|
                        0 <= j < i ==> !(backup_matches(#[trigger] bs[j], name@, version@)
                            && crate::strutil::is_prefix_of(ts@, bs[j].timestamp@)),
                decreases n - i,
            {
                let b = &backups[i];
                if backup_matches_exec(b, name, version) {
                    any_match = true;
                    if crate::strutil::str_starts_with(b.timestamp.as_str(), ts) {
                        proof {
                            assert(backup_matches(bs[i as int], name@, version@));
                            assert(has_matching_backup(bs, name@, version@));
                            assert(has_ts_backup(bs, name@, version@, ts@));
                        }
                        return Ok(i);
                    }
                }
                i = i + 1;
            }
            if any_match {
                Err(PackageError::NoBackupForTimestamp { timestamp: ts.to_owned() })
            } else {
                Err(
                    PackageError::NoBackupFound {
                        name: name.to_owned(),
                        version: version.to_owned(),
                    },
                )
            }
        },
        None => {
            while i < n
                invariant
                    timestamp is None,
                    0 <= i <= n,
                    n == bs.len(),
                    bs == backups@,
                    !have_best ==> forall|j: int|
                        0 <= j < i ==> !backup_matches(#[trigger] bs[j], name@, version@),
                    have_best ==> {
                        &&& best < i
                        &&& backup_matches(bs[best as int], name@, version@)
                        &&& forall|j: int|
                            0 <= j < i && backup_matches(#[trigger] bs[j], name@, version@)
                                ==> !crate::strutil::lex_lt(
                                bs[best as int].timestamp@,
                                bs[j].timestamp@,
                            )
                        &&& forall|j: int|
                            0 <= j < best && backup_matches(#[trigger] bs[j], name@, version@)
                                ==> crate::strutil::lex_lt(
                                bs[j].timestamp@,
                                bs[best as int].timestamp@,
                            )
                    },
                decreases n - i,
            {
                let b = &backups[i];
                if backup_matches_exec(b, name, version) {
                    if !have_best {
                        have_best = true;
                        best = i;
                        proof {
                            crate::strutil::lemma_lex_irrefl(bs[i as int].timestamp@, 0);
                        }
                    } else {
                        let better = crate::strutil::str_lex_less(
                            backups[best].timestamp.as_str(),
                            b.timestamp.as_str(),
                        );
                        if better {
                            proof {
                                let old_best = best as int;
                                crate::strutil::lemma_lex_irrefl(bs[i as int].timestamp@, 0);
                                assert forall|j: int|
                                    0 <= j < i && backup_matches(
                                        #[trigger] bs[j],
                                        name@,
                                        version@,
                                    ) implies !crate::strutil::lex_lt(
                                    bs[i as int].timestamp@,
                                    bs[j].timestamp@,
                                ) by {
                                    if crate::strutil::lex_lt(
                                        bs[i as int].timestamp@,
                                        bs[j].timestamp@,
                                    ) {
                                        crate::strutil::lemma_lex_trans(
                                            bs[old_best].timestamp@,
                                            bs[i as int].timestamp@,
                                            bs[j].timestamp@,
                                            0,
                                        );
                                    }
                                }
                                assert forall|j: int|
                                    0 <= j < i && backup_matches(
                                        #[trigger] bs[j],
                                        name@,
                                        version@,
                                    ) implies crate::strutil::lex_lt(
                                    bs[j].timestamp@,
                                    bs[i as int].timestamp@,
                                ) by {
                                    crate::strutil::lemma_lex_le_lt_trans(
                                        bs[j].timestamp@,
                                        bs[old_best].timestamp@,
                                        bs[i as int].timestamp@,
                                        0,
                                    );
                                }
                            }
                            best = i;
                        }
                    }
                }
                i = i + 1;
            }
            if have_best {
                Ok(best)
            } else {
                Err(
                    PackageError::NoBackupFound {
                        name: name.to_owned(),
                        version: version.to_owned(),
                    },
                )
            }
        },
    }
}

/// A fresh control document, synthesized where none can be loaded: no locks,
/// no backups, backups disabled, stamped with the given instant.
pub fn default_registry_metadata(now: String) -> (r: RegistryMetadata)
    ensures
        r.registry_name@ == "MinIO Package Registry"@,
        r.backup_enabled == false,
        r.locked_packages@ == Seq::<LockedPackage>::empty(),
        r.backups@ == Seq::<PackageBackup>::empty(),
        r.last_updated == now,
{
    let mut r = RegistryMetadata {
        registry_name: String::from_str("MinIO Package Registry"),
        backup_enabled: false,
        locked_packages: Vec::new(),
        backups: Vec::new(),
        last_updated: now,
    };
    proof {
        assert(r.locked_packages@ =~= Seq::<LockedPackage>::empty());
        assert(r.backups@ =~= Seq::<PackageBackup>::empty());
    }
    r
}

/// Law: appending a lock for a pair that holds none keeps lock records unique.
pub proof fn lemma_lock_preserves_unique(locks: Seq<LockedPackage>, rec: LockedPackage)
    requires
        locks_unique(locks),
        !is_locked_in(locks, rec.name@, rec.version@),
    ensures
        locks_unique(locks.push(rec)),
{
    let pushed = locks.push(rec);
    assert forall|i: int, j: int| 0 <= i < j < pushed.len() implies !((#[trigger] pushed[i]).name@
        == (#[trigger] pushed[j]).name@ && pushed[i].version@ == pushed[j].version@) by {
        if j == locks.len() {
            assert(pushed[i] == locks[i]);
            if locks[i].name@ == rec.name@ && locks[i].version@ == rec.version@ {
                assert(lock_is_for(locks[i], rec.name@, rec.version@));
            }
        } else {
            assert(pushed[i] == locks[i] && pushed[j] == locks[j]);
        }
    }
}

/// Law: every mutation here either leaves the document untouched or stamps it
/// with the instant it was given, so a caller whose clock reads no earlier
/// than the stored time never moves the update time backwards.
pub proof fn lemma_update_time_monotone(
    old_meta: RegistryMetadata,
    new_meta: RegistryMetadata,
    now: Seq<char>,
)
    requires
        new_meta == old_meta || new_meta.last_updated@ == now,
        !crate::strutil::lex_lt(now, old_meta.last_updated@),
    ensures
        !crate::strutil::lex_lt(new_meta.last_updated@, old_meta.last_updated@),
{
    if new_meta == old_meta {
        crate::strutil::lemma_lex_irrefl(old_meta.last_updated@, 0);
    }
}

/// Law: a fresh backup record whose timestamp sorts above every older
/// matching record's is a record a restore without a timestamp may pick: it
/// matches, nothing exceeds it, and no earlier record ties it.
pub proof fn lemma_fresh_backup_is_latest(
    backups: Seq<PackageBackup>,
    rec: PackageBackup,
    name: Seq<char>,
    version: Seq<char>,
)
    requires
        backup_matches(rec, name, version),
        forall|j: int|
            0 <= j < backups.len() && backup_matches(#[trigger] backups[j], name, version)
                ==> crate::strutil::lex_lt(backups[j].timestamp@, rec.timestamp@),
    ensures
        latest_selection(backups.push(rec), name, version, backups.len() as int),
{
    let pushed = backups.push(rec);
    let n = backups.len() as int;
    assert(pushed[n] == rec);
    assert forall|j: int|
        0 <= j < pushed.len() && backup_matches(#[trigger] pushed[j], name, version)
            implies !crate::strutil::lex_lt(pushed[n].timestamp@, pushed[j].timestamp@) by {
        if j < n {
            assert(pushed[j] == backups[j]);
            if crate::strutil::lex_lt(rec.timestamp@, backups[j].timestamp@) {
                crate::strutil::lemma_lex_trans(
                    backups[j].timestamp@,
                    rec.timestamp@,
                    backups[j].timestamp@,
                    0,
                );
                crate::strutil::lemma_lex_irrefl(backups[j].timestamp@, 0);
            }
        } else {
            crate::strutil::lemma_lex_irrefl(rec.timestamp@, 0);
        }
    }
    assert forall|j: int| 0 <= j < n && backup_matches(#[trigger] pushed[j], name, version)
        implies crate::strutil::lex_lt(pushed[j].timestamp@, pushed[n].timestamp@) by {
        assert(pushed[j] == backups[j]);
    }
}

/// Law: that record is the only one such a restore can pick — any index the
/// selection conditions admit on the extended list is the fresh record's.
pub proof fn lemma_fresh_backup_selected(
    backups: Seq<PackageBackup>,
    rec: PackageBackup,
    name: Seq<char>,
    version: Seq<char>,
    i: int,
)
    requires
        backup_matches(rec, name, version),
        forall|j: int|
            0 <= j < backups.len() && backup_matches(#[trigger] backups[j], name, version)
                ==> crate::strutil::lex_lt(backups[j].timestamp@, rec.timestamp@),
        latest_selection(backups.push(rec), name, version, i),
    ensures
        i == backups.len(),
{
    let pushed = backups.push(rec);
    let n = backups.len() as int;
    if i < n {
        assert(pushed[i] == backups[i]);
        assert(backup_matches(backups[i], name, version));
        assert(crate::strutil::lex_lt(backups[i].timestamp@, rec.timestamp@));
        assert(pushed[n] == rec);
        assert(backup_matches(pushed[n], name, version));
        assert(!crate::strutil::lex_lt(pushed[i].timestamp@, pushed[n].timestamp@));
    }
}

/// Law: with unique lock records, releasing a held lock clears it — nothing
/// for the pair remains after the first record is removed.
pub proof fn lemma_unlock_clears(locks: Seq<LockedPackage>, name: Seq<char>, version: Seq<char>)
    requires
        locks_unique(locks),
        is_locked_in(locks, name, version),
    ensures
        !is_locked_in(locks.remove(first_lock_idx(locks, name, version)), name, version),
{
    lemma_first_lock_idx(locks, name, version);
    let fi = first_lock_idx(locks, name, version);
    let cleared = locks.remove(fi);
    assert forall|i: int| 0 <= i < cleared.len() implies !lock_is_for(
        #[trigger] cleared[i],
        name,
        version,
    ) by {
        if i < fi {
            assert(cleared[i] == locks[i]);
        } else {
            assert(cleared[i] == locks[i + 1]);
            if lock_is_for(cleared[i], name, version) {
                assert(locks[fi].name@ == locks[i + 1].name@ && locks[fi].version@ == locks[i
                    + 1].version@);
            }
        }
    }
}

} // verus!
