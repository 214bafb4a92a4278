//! Artifact-key decomposition and catalog derivation.

use beepkg::catalog::{catalog_from_entries, find_lock_index, with_lock_state, ObjectEntry};
use beepkg::keys::{format_artifact_key, format_checksum_key, parse_artifact_key};
use beepkg::models::LockedPackage;

fn entry(key: &str, size: Option<u64>, modified: Option<&str>) -> ObjectEntry {
    ObjectEntry { key: key.to_string(), size, last_modified: modified.map(|m| m.to_string()) }
}

#[test]
fn artifact_key_is_name_dash_version_zip() {
    assert_eq!(format_artifact_key("demo", "1.0.0"), "demo-1.0.0.zip");
    assert_eq!(format_checksum_key("demo-1.0.0.zip"), "demo-1.0.0.zip.sha1");
}

#[test]
fn parse_splits_on_last_separator() {
    assert_eq!(
        parse_artifact_key("demo-1.0.0.zip"),
        Some(("demo".to_string(), "1.0.0".to_string()))
    );
    // A name may itself hold separators: only the last one splits.
    assert_eq!(
        parse_artifact_key("my-lib-2.3.1.zip"),
        Some(("my-lib".to_string(), "2.3.1".to_string()))
    );
}

#[test]
fn parse_skips_foreign_keys() {
    assert_eq!(parse_artifact_key("README.md"), None);
    // No separator in the stem.
    assert_eq!(parse_artifact_key("demo.zip"), None);
    // Too short to carry the suffix.
    assert_eq!(parse_artifact_key("zip"), None);
    // The suffix must close the key.
    assert_eq!(parse_artifact_key("demo-1.0.0.zip.bak"), None);
}

#[test]
fn parse_format_round_trip() {
    for (n, v) in [("a", "1"), ("my-long-name", "0.1.0"), ("x", "")] {
        let key = format_artifact_key(n, v);
        assert_eq!(parse_artifact_key(&key), Some((n.to_string(), v.to_string())));
    }
}

#[test]
fn catalog_derives_identity_and_storage() {
    let entries = vec![
        entry("demo-1.0.0.zip", Some(42), Some("2024-01-01T00:00:00Z")),
        entry("notes.txt", Some(7), None),
        entry("my-lib-2.0.0.zip", None, None),
    ];
    let cat = catalog_from_entries(&entries);
    assert_eq!(cat.len(), 2);
    assert_eq!(cat[0].name, "demo");
    assert_eq!(cat[0].version, "1.0.0");
    assert_eq!(cat[0].storage.path, "demo-1.0.0.zip");
    assert_eq!(cat[0].storage.size, 42);
    assert_eq!(cat[0].storage.created_at, "2024-01-01T00:00:00Z");
    assert_eq!(cat[0].storage.checksum, "");
    assert!(!cat[0].is_locked);
    assert_eq!(cat[1].name, "my-lib");
    assert_eq!(cat[1].version, "2.0.0");
    assert_eq!(cat[1].storage.size, 0);
    assert_eq!(cat[1].storage.created_at, "");
}

fn lock(name: &str, version: &str, reason: &str) -> LockedPackage {
    LockedPackage {
        name: name.to_string(),
        version: version.to_string(),
        lock_reason: reason.to_string(),
        locked_at: "2024-01-01T00:00:00Z".to_string(),
        locked_by: "alice".to_string(),
        checksum: String::new(),
    }
}

#[test]
fn lock_state_is_applied_from_first_matching_record() {
    let entries = vec![
        entry("demo-1.0.0.zip", None, None),
        entry("demo-2.0.0.zip", None, None),
    ];
    let cat = catalog_from_entries(&entries);
    let locks = vec![lock("demo", "1.0.0", "frozen"), lock("demo", "1.0.0", "shadowed")];
    let cat = with_lock_state(&cat, &locks);
    assert!(cat[0].is_locked);
    assert_eq!(cat[0].lock_reason.as_deref(), Some("frozen"));
    assert!(!cat[1].is_locked);
    assert_eq!(cat[1].lock_reason, None);
}

#[test]
fn first_lock_record_wins() {
    let locks = vec![lock("a", "1", "x"), lock("b", "2", "y"), lock("a", "1", "z")];
    assert_eq!(find_lock_index(&locks, "a", "1"), Some(0));
    assert_eq!(find_lock_index(&locks, "b", "2"), Some(1));
    assert_eq!(find_lock_index(&locks, "c", "1"), None);
}
