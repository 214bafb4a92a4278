//! Checksum and encryption pipelines, and the push/pull plumbing.

use beepkg::checksum::{compute_checksum, to_hex_lower, verify_checksum, verify_pulled_artifact};
use beepkg::errors::PackageError;
use beepkg::models::{EncryptionConfig, PackageMetadata};
use beepkg::operations::{
    encrypted_content_bytes, normalize_endpoint, parse_package_spec, prepare_push_artifacts,
    record_encryption, verify_manifest_identity,
};
use beepkg::security::{decrypt_with_key, encrypt_with_key, SecurityError, SecurityManager};

#[test]
fn hex_encoding_is_lowercase_two_digits_per_byte() {
    assert_eq!(to_hex_lower(&vec![]), "");
    assert_eq!(to_hex_lower(&vec![0x00, 0xbe, 0xef, 0x0a]), "00beef0a");
}

#[test]
fn checksum_has_known_values() {
    // SHA-1 of the empty input and of "abc".
    assert_eq!(compute_checksum(&vec![]), "da39a3ee5e6b4b0d3255bfef95601890afd80709");
    assert_eq!(compute_checksum(&b"abc".to_vec()), "a9993e364706816aba3e25717850c26c9cd0d89d");
}

#[test]
fn matching_checksum_verifies() {
    let data = b"payload".to_vec();
    let digest = compute_checksum(&data);
    assert!(verify_checksum(&data, &digest, "demo", "1.0.0").is_ok());
}

#[test]
fn tampered_artifact_fails_with_both_digests_and_identity() {
    let data = b"payload".to_vec();
    let digest = compute_checksum(&data);
    let mut tampered = data.clone();
    tampered[0] ^= 0x01;
    match verify_checksum(&tampered, &digest, "demo", "1.0.0") {
        Err(PackageError::ChecksumMismatch { name, version, expected, actual }) => {
            assert_eq!(name, "demo");
            assert_eq!(version, "1.0.0");
            assert_eq!(expected, digest);
            assert_eq!(actual, compute_checksum(&tampered));
            assert_ne!(expected, actual);
        },
        other => panic!("expected a checksum mismatch, got {:?}", other),
    }
}

#[test]
fn missing_digest_object_is_its_own_failure() {
    let data = b"payload".to_vec();
    assert!(matches!(
        verify_pulled_artifact(&data, None, "demo", "1.0.0"),
        Err(PackageError::MissingChecksum)
    ));
    let digest = compute_checksum(&data);
    assert!(verify_pulled_artifact(&data, Some(&digest), "demo", "1.0.0").is_ok());
}

#[test]
fn encryption_round_trip_reproduces_bytes() {
    let secret = b"correct horse battery staple".to_vec();
    for len in [0usize, 1, 13, 1024] {
        let plain: Vec<u8> = (0..len).map(|i| (i % 251) as u8).collect();
        let payload = SecurityManager::encrypt_data(Some(&secret), &plain).unwrap();
        let back = SecurityManager::decrypt_data(
            Some(&secret),
            &payload.ciphertext,
            &payload.salt,
            &payload.nonce,
        )
        .unwrap();
        assert_eq!(back, plain);
    }
}

#[test]
fn wrong_secret_fails_authentication() {
    let secret = b"right secret".to_vec();
    let plain = b"artifact bytes".to_vec();
    let payload = SecurityManager::encrypt_data(Some(&secret), &plain).unwrap();
    let wrong = b"wrong secret".to_vec();
    match SecurityManager::decrypt_data(
        Some(&wrong),
        &payload.ciphertext,
        &payload.salt,
        &payload.nonce,
    ) {
        Err(SecurityError::AuthenticationFailed) => {},
        other => panic!("expected an authentication failure, got {:?}", other),
    }
}

#[test]
fn tampered_ciphertext_fails_authentication() {
    let secret = b"right secret".to_vec();
    let plain = b"artifact bytes".to_vec();
    let payload = SecurityManager::encrypt_data(Some(&secret), &plain).unwrap();
    // Flip one character of the base64 text to another valid character.
    let mut chars: Vec<char> = payload.ciphertext.chars().collect();
    chars[0] = if chars[0] == 'A' { 'B' } else { 'A' };
    let tampered: String = chars.into_iter().collect();
    match SecurityManager::decrypt_data(Some(&secret), &tampered, &payload.salt, &payload.nonce) {
        Err(SecurityError::AuthenticationFailed) => {},
        other => panic!("expected an authentication failure, got {:?}", other),
    }
}

#[test]
fn missing_secret_is_a_hard_failure() {
    let plain = b"bytes".to_vec();
    assert!(matches!(
        SecurityManager::encrypt_data(None, &plain),
        Err(SecurityError::MissingSecret)
    ));
    assert!(matches!(
        SecurityManager::decrypt_data(None, "ct", "salt", "nonce"),
        Err(SecurityError::MissingSecret)
    ));
}

#[test]
fn unusable_stored_values_are_distinguished() {
    let secret = b"secret".to_vec();
    let plain = b"bytes".to_vec();
    let payload = SecurityManager::encrypt_data(Some(&secret), &plain).unwrap();
    // Salt text that is not base64.
    assert!(matches!(
        SecurityManager::decrypt_data(Some(&secret), &payload.ciphertext, "!!", &payload.nonce),
        Err(SecurityError::KeyDerivationFailed)
    ));
    // Nonce text that is not base64, and one of the wrong length.
    assert!(matches!(
        SecurityManager::decrypt_data(Some(&secret), &payload.ciphertext, &payload.salt, "!!"),
        Err(SecurityError::InvalidNonce)
    ));
    assert!(matches!(
        SecurityManager::decrypt_data(Some(&secret), &payload.ciphertext, &payload.salt, "AAAA"),
        Err(SecurityError::InvalidNonce)
    ));
    // Ciphertext that is not base64.
    assert!(matches!(
        SecurityManager::decrypt_data(Some(&secret), "!!", &payload.salt, &payload.nonce),
        Err(SecurityError::InvalidCiphertext)
    ));
}

#[test]
fn key_level_round_trip_is_exact() {
    let key: Vec<u8> = (0..32u8).collect();
    let nonce: Vec<u8> = (0..12u8).collect();
    let plain = b"exact bytes".to_vec();
    let ct = encrypt_with_key(&key, &nonce, &plain).unwrap();
    assert_eq!(decrypt_with_key(&key, &nonce, &ct).unwrap(), plain);
    // A different nonce must not open it.
    let other_nonce: Vec<u8> = (1..13u8).collect();
    assert!(matches!(
        decrypt_with_key(&key, &other_nonce, &ct),
        Err(SecurityError::AuthenticationFailed)
    ));
}

#[test]
fn package_spec_splits_at_first_separator() {
    assert_eq!(
        parse_package_spec("demo@1.0.0").unwrap(),
        ("demo".to_string(), "1.0.0".to_string())
    );
    assert_eq!(parse_package_spec("a@b@c").unwrap(), ("a".to_string(), "b@c".to_string()));
    match parse_package_spec("demo-1.0.0") {
        Err(PackageError::InvalidPackageSpec { raw }) => assert_eq!(raw, "demo-1.0.0"),
        other => panic!("expected an invalid-spec failure, got {:?}", other),
    }
}

#[test]
fn endpoints_gain_a_scheme_and_lose_trailing_slashes() {
    assert_eq!(normalize_endpoint("minio.local:9000"), "https://minio.local:9000");
    assert_eq!(normalize_endpoint("http://minio.local/"), "http://minio.local");
    assert_eq!(normalize_endpoint("https://minio.local///"), "https://minio.local");
    assert_eq!(normalize_endpoint("https://minio.local"), "https://minio.local");
}

#[test]
fn push_artifacts_name_keys_and_digest() {
    let content = b"abc".to_vec();
    let arts = prepare_push_artifacts("demo", "1.0.0", &content);
    assert_eq!(arts.artifact_key, "demo-1.0.0.zip");
    assert_eq!(arts.checksum_key, "demo-1.0.0.zip.sha1");
    assert_eq!(arts.checksum, "a9993e364706816aba3e25717850c26c9cd0d89d");
    // What push wrote beside the artifact verifies against the same bytes.
    assert!(verify_checksum(&content, &arts.checksum, "demo", "1.0.0").is_ok());
}

#[test]
fn encrypted_push_checksums_the_ciphertext_bytes() {
    let secret = b"secret".to_vec();
    let plain = b"artifact".to_vec();
    let payload = SecurityManager::encrypt_data(Some(&secret), &plain).unwrap();
    let content = encrypted_content_bytes(&payload);
    assert_eq!(content, payload.ciphertext.as_bytes().to_vec());
    let arts = prepare_push_artifacts("demo", "1.0.0", &content);
    assert!(verify_checksum(&content, &arts.checksum, "demo", "1.0.0").is_ok());
    // Tampering with the stored ciphertext is caught by the digest alone.
    let mut tampered = content.clone();
    tampered[0] ^= 0x01;
    assert!(matches!(
        verify_checksum(&tampered, &arts.checksum, "demo", "1.0.0"),
        Err(PackageError::ChecksumMismatch { .. })
    ));
}

#[test]
fn manifest_identity_is_reverified_after_pull() {
    let manifest = PackageMetadata {
        name: "demo".to_string(),
        version: "1.0.0".to_string(),
        author: "alice".to_string(),
        description: "d".to_string(),
        includes: vec![],
        excludes: vec![],
        dependencies: vec![("dep1".to_string(), "1.0".to_string())],
        encryption: None,
    };
    assert!(verify_manifest_identity(&manifest, "demo", "1.0.0").is_ok());
    match verify_manifest_identity(&manifest, "demo", "2.0.0") {
        Err(PackageError::MetadataMismatch { name, version, found_name, found_version }) => {
            assert_eq!(name, "demo");
            assert_eq!(version, "2.0.0");
            assert_eq!(found_name, "demo");
            assert_eq!(found_version, "1.0.0");
        },
        other => panic!("expected a metadata mismatch, got {:?}", other),
    }
}

#[test]
fn encryption_results_are_recorded_in_the_manifest() {
    let secret = b"secret".to_vec();
    let plain = b"artifact".to_vec();
    let payload = SecurityManager::encrypt_data(Some(&secret), &plain).unwrap();
    let mut manifest = PackageMetadata {
        name: "demo".to_string(),
        version: "1.0.0".to_string(),
        author: "alice".to_string(),
        description: "d".to_string(),
        includes: vec![],
        excludes: vec![],
        dependencies: vec![],
        encryption: Some(EncryptionConfig {
            algorithm: Some("aes-256-gcm".to_string()),
            enabled: true,
            encrypted_password: None,
            salt: None,
            nonce: None,
        }),
    };
    record_encryption(&mut manifest, &payload);
    let cfg = manifest.encryption.unwrap();
    assert_eq!(cfg.algorithm.as_deref(), Some("aes-256-gcm"));
    assert!(cfg.enabled);
    assert_eq!(cfg.salt.as_deref(), Some(payload.salt.as_str()));
    assert_eq!(cfg.nonce.as_deref(), Some(payload.nonce.as_str()));
    // The recorded salt and nonce are what decryption needs.
    let back = SecurityManager::decrypt_data(
        Some(&secret),
        &payload.ciphertext,
        cfg.salt.as_deref().unwrap(),
        cfg.nonce.as_deref().unwrap(),
    )
    .unwrap();
    assert_eq!(back, plain);
}
