//! Conflict policy, lock bookkeeping and backup selection.

use beepkg::catalog::{catalog_from_entries, find_lock_index, with_lock_state, ObjectEntry};
use beepkg::conflict::{check_package_conflict, check_push_allowed, PackageConflictStatus};
use beepkg::errors::PackageError;
use beepkg::models::{PackageBackup, RegistryMetadata};
use beepkg::registry::{default_registry_metadata, select_backup};

fn catalog(keys: &[&str]) -> Vec<beepkg::models::Package> {
    let entries: Vec<ObjectEntry> = keys
        .iter()
        .map(|k| ObjectEntry { key: k.to_string(), size: Some(1), last_modified: None })
        .collect();
    catalog_from_entries(&entries)
}

fn fresh_meta() -> RegistryMetadata {
    default_registry_metadata("2024-01-01T00:00:00Z".to_string())
}

#[test]
fn absent_name_means_no_conflict() {
    let cat = catalog(&["other-1.0.0.zip"]);
    let r = check_package_conflict(&cat, "demo", "not-even-semver");
    assert!(matches!(r, Ok(PackageConflictStatus::NoConflict)));
}

#[test]
fn same_version_reports_version_exists() {
    let cat = catalog(&["demo-1.0.0.zip", "demo-0.9.0.zip"]);
    let r = check_package_conflict(&cat, "demo", "1.0.0");
    assert!(matches!(r, Ok(PackageConflictStatus::VersionExists)));
}

#[test]
fn locked_version_fails_with_reason() {
    let cat = catalog(&["demo-1.0.0.zip"]);
    let mut meta = fresh_meta();
    meta.lock_package_at(&cat, "demo", "1.0.0", "frozen for audit", "alice", "t1".to_string())
        .unwrap();
    let cat = with_lock_state(&cat, &meta.locked_packages);
    match check_package_conflict(&cat, "demo", "1.0.0") {
        Err(PackageError::PackageLocked { name, version, reason }) => {
            assert_eq!(name, "demo");
            assert_eq!(version, "1.0.0");
            assert_eq!(reason, "frozen for audit");
        },
        other => panic!("expected a locked-package failure, got {:?}", other),
    }
}

#[test]
fn higher_version_is_reported() {
    let cat = catalog(&["demo-2.1.0.zip", "demo-0.9.0.zip"]);
    match check_package_conflict(&cat, "demo", "1.0.0") {
        Ok(PackageConflictStatus::HigherVersionExists(h)) => assert_eq!(h, "2.1.0"),
        other => panic!("expected a higher version, got {:?}", other),
    }
}

#[test]
fn highest_of_several_higher_versions_is_named() {
    let cat = catalog(&["demo-1.2.0.zip", "demo-3.0.1.zip", "demo-2.0.0.zip"]);
    match check_package_conflict(&cat, "demo", "1.0.0") {
        Ok(PackageConflictStatus::HigherVersionExists(h)) => assert_eq!(h, "3.0.1"),
        other => panic!("expected a higher version, got {:?}", other),
    }
}

#[test]
fn unparsed_existing_versions_are_ignored() {
    let cat = catalog(&["demo-weird.zip", "demo-0.5.0.zip"]);
    let r = check_package_conflict(&cat, "demo", "1.0.0");
    assert!(matches!(r, Ok(PackageConflictStatus::NoConflict)));
}

#[test]
fn invalid_requested_version_is_rejected() {
    let cat = catalog(&["demo-1.0.0.zip"]);
    match check_package_conflict(&cat, "demo", "one-point-oh") {
        Err(PackageError::InvalidVersion { version }) => assert_eq!(version, "one-point-oh"),
        other => panic!("expected an invalid-version failure, got {:?}", other),
    }
}

#[test]
fn normal_push_rejects_conflicts_and_forced_push_bypasses_them() {
    let cat = catalog(&["demo-1.0.0.zip", "demo-2.0.0.zip"]);
    assert!(matches!(
        check_push_allowed(&cat, "demo", "1.0.0", false),
        Err(PackageError::VersionExists { .. })
    ));
    assert!(matches!(
        check_push_allowed(&cat, "demo", "1.5.0", false),
        Err(PackageError::HigherVersionExists { .. })
    ));
    assert!(check_push_allowed(&cat, "demo", "1.0.0", true).is_ok());
    assert!(check_push_allowed(&cat, "demo", "1.5.0", true).is_ok());
    // A forced push bypasses even a lock.
    let mut meta = fresh_meta();
    meta.lock_package_at(&cat, "demo", "1.0.0", "frozen", "alice", "t1".to_string()).unwrap();
    let locked_cat = with_lock_state(&cat, &meta.locked_packages);
    assert!(matches!(
        check_push_allowed(&locked_cat, "demo", "1.0.0", false),
        Err(PackageError::PackageLocked { .. })
    ));
    assert!(check_push_allowed(&locked_cat, "demo", "1.0.0", true).is_ok());
}

#[test]
fn lock_requires_existing_package() {
    let cat = catalog(&["other-1.0.0.zip"]);
    let mut meta = fresh_meta();
    match meta.lock_package_at(&cat, "demo", "1.0.0", "r", "u", "t1".to_string()) {
        Err(PackageError::PackageNotFound { name, version }) => {
            assert_eq!(name, "demo");
            assert_eq!(version, "1.0.0");
        },
        other => panic!("expected a missing-package failure, got {:?}", other),
    }
    assert!(meta.locked_packages.is_empty());
    assert_eq!(meta.last_updated, "2024-01-01T00:00:00Z");
}

#[test]
fn lock_records_reason_actor_time_and_checksum_snapshot() {
    let entries = vec![ObjectEntry {
        key: "demo-1.0.0.zip".to_string(),
        size: Some(3),
        last_modified: None,
    }];
    let mut cat = catalog_from_entries(&entries);
    cat[0].storage.checksum = "abc123".to_string();
    let mut meta = fresh_meta();
    meta.lock_package_at(&cat, "demo", "1.0.0", "frozen", "alice", "t1".to_string()).unwrap();
    assert_eq!(meta.locked_packages.len(), 1);
    let rec = &meta.locked_packages[0];
    assert_eq!(rec.name, "demo");
    assert_eq!(rec.version, "1.0.0");
    assert_eq!(rec.lock_reason, "frozen");
    assert_eq!(rec.locked_by, "alice");
    assert_eq!(rec.locked_at, "t1");
    assert_eq!(rec.checksum, "abc123");
    assert_eq!(meta.last_updated, "t1");
}

#[test]
fn locking_twice_fails_and_unlock_clears_exactly_once() {
    let cat = catalog(&["demo-1.0.0.zip"]);
    let mut meta = fresh_meta();
    meta.lock_package_at(&cat, "demo", "1.0.0", "r", "u", "t1".to_string()).unwrap();
    // Locking an already-locked pair fails.
    assert!(matches!(
        meta.lock_package_at(&cat, "demo", "1.0.0", "r2", "u2", "t2".to_string()),
        Err(PackageError::AlreadyLocked { .. })
    ));
    assert_eq!(meta.locked_packages.len(), 1);
    // Unlocking a locked pair succeeds and clears the record.
    meta.unlock_package_at("demo", "1.0.0", "t3".to_string()).unwrap();
    assert!(meta.locked_packages.is_empty());
    assert_eq!(meta.last_updated, "t3");
    assert_eq!(find_lock_index(&meta.locked_packages, "demo", "1.0.0"), None);
    // Unlocking an unlocked pair fails.
    assert!(matches!(
        meta.unlock_package_at("demo", "1.0.0", "t4".to_string()),
        Err(PackageError::NotLocked { .. })
    ));
}

#[test]
fn backup_plan_names_keys_and_enables_backups() {
    let cat = catalog(&["demo-1.0.0.zip"]);
    let mut meta = fresh_meta();
    assert!(!meta.backup_enabled);
    let plan = meta
        .plan_backup_at(&cat, "demo", "1.0.0", "pre-release", "t5".to_string(), "1700000000")
        .unwrap();
    assert_eq!(plan.source_key, "demo-1.0.0.zip");
    assert_eq!(plan.backup_key, "demo-1.0.0-backup-1700000000.zip");
    assert!(meta.backup_enabled);
    assert_eq!(meta.backups.len(), 1);
    assert_eq!(meta.backups[0].original_path, "demo-1.0.0.zip");
    assert_eq!(meta.backups[0].backup_path, "demo-1.0.0-backup-1700000000.zip");
    assert_eq!(meta.backups[0].timestamp, "t5");
    assert_eq!(meta.backups[0].reason, "pre-release");
    assert_eq!(meta.last_updated, "t5");
}

#[test]
fn backup_requires_existing_package() {
    let cat = catalog(&[]);
    let mut meta = fresh_meta();
    assert!(matches!(
        meta.plan_backup_at(&cat, "demo", "1.0.0", "r", "t".to_string(), "1"),
        Err(PackageError::PackageNotFound { .. })
    ));
    assert!(!meta.backup_enabled);
}

fn backup(original: &str, ts: &str) -> PackageBackup {
    PackageBackup {
        original_path: original.to_string(),
        backup_path: format!("{}-at-{}", original, ts),
        timestamp: ts.to_string(),
        reason: "r".to_string(),
    }
}

#[test]
fn restore_without_timestamp_picks_most_recent() {
    let backups = vec![
        backup("demo-1.0.0.zip", "2024-01-02T00:00:00Z"),
        backup("demo-1.0.0.zip", "2024-03-01T00:00:00Z"),
        backup("other-1.0.0.zip", "2024-09-01T00:00:00Z"),
        backup("demo-1.0.0.zip", "2024-02-01T00:00:00Z"),
    ];
    assert_eq!(select_backup(&backups, "demo", "1.0.0", None).unwrap(), 1);
}

#[test]
fn restore_with_timestamp_prefix_picks_first_match() {
    let backups = vec![
        backup("demo-1.0.0.zip", "2024-01-02T00:00:00Z"),
        backup("demo-1.0.0.zip", "2024-03-01T00:00:00Z"),
        backup("demo-1.0.0.zip", "2024-03-04T00:00:00Z"),
    ];
    assert_eq!(select_backup(&backups, "demo", "1.0.0", Some("2024-03")).unwrap(), 1);
    assert_eq!(select_backup(&backups, "demo", "1.0.0", Some("2024-03-04")).unwrap(), 2);
    match select_backup(&backups, "demo", "1.0.0", Some("2023")) {
        Err(PackageError::NoBackupForTimestamp { timestamp }) => assert_eq!(timestamp, "2023"),
        other => panic!("expected a no-backup-for-timestamp failure, got {:?}", other),
    }
}

#[test]
fn restore_needs_a_matching_backup() {
    let backups = vec![backup("other-1.0.0.zip", "2024-01-01T00:00:00Z")];
    assert!(matches!(
        select_backup(&backups, "demo", "1.0.0", None),
        Err(PackageError::NoBackupFound { .. })
    ));
}

#[test]
fn backup_then_restore_picks_the_fresh_backup() {
    let cat = catalog(&["demo-1.0.0.zip"]);
    let mut meta = fresh_meta();
    meta.backups.push(backup("demo-1.0.0.zip", "2024-01-01T00:00:00Z"));
    meta.plan_backup_at(&cat, "demo", "1.0.0", "r", "2024-06-01T00:00:00Z".to_string(), "99")
        .unwrap();
    assert_eq!(select_backup(&meta.backups, "demo", "1.0.0", None).unwrap(), 1);
}

#[test]
fn checksum_record_update_touches_only_the_lock_record() {
    let cat = catalog(&["demo-1.0.0.zip", "other-2.0.0.zip"]);
    let mut meta = fresh_meta();
    meta.lock_package_at(&cat, "demo", "1.0.0", "r", "u", "t1".to_string()).unwrap();
    meta.lock_package_at(&cat, "other", "2.0.0", "r", "u", "t2".to_string()).unwrap();
    meta.update_checksum_record("demo", "1.0.0", "deadbeef");
    assert_eq!(meta.locked_packages[0].checksum, "deadbeef");
    assert_eq!(meta.locked_packages[0].lock_reason, "r");
    assert_eq!(meta.locked_packages[1].checksum, "");
    // Updating an unlocked pair changes nothing.
    meta.update_checksum_record("ghost", "9", "ffff");
    assert_eq!(meta.locked_packages.len(), 2);
}

#[test]
fn lock_with_clock_stamps_a_real_instant() {
    let cat = catalog(&["demo-1.0.0.zip"]);
    let mut meta = fresh_meta();
    meta.lock_package(&cat, "demo", "1.0.0", "frozen", "alice").unwrap();
    assert_eq!(meta.locked_packages.len(), 1);
    let rec = &meta.locked_packages[0];
    assert_eq!(rec.name, "demo");
    assert_eq!(rec.lock_reason, "frozen");
    assert_eq!(rec.locked_by, "alice");
    // The instant came from the clock as ISO-8601 text.
    assert!(rec.locked_at.contains('T'));
    assert_eq!(meta.last_updated, rec.locked_at);
    meta.unlock_package("demo", "1.0.0").unwrap();
    assert!(meta.locked_packages.is_empty());
}

#[test]
fn backup_with_clock_forms_a_dated_key() {
    let cat = catalog(&["demo-1.0.0.zip"]);
    let mut meta = fresh_meta();
    let plan = meta.plan_backup(&cat, "demo", "1.0.0", "routine").unwrap();
    assert_eq!(plan.source_key, "demo-1.0.0.zip");
    assert!(plan.backup_key.starts_with("demo-1.0.0-backup-"));
    assert!(plan.backup_key.ends_with(".zip"));
    assert_eq!(meta.backups.len(), 1);
    assert!(meta.backups[0].timestamp.contains('T'));
}

#[test]
fn default_document_is_empty_and_disabled() {
    let meta = fresh_meta();
    assert_eq!(meta.registry_name, "MinIO Package Registry");
    assert!(!meta.backup_enabled);
    assert!(meta.locked_packages.is_empty());
    assert!(meta.backups.is_empty());
    assert_eq!(meta.last_updated, "2024-01-01T00:00:00Z");
}
