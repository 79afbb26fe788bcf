use base64::Engine;
use rust_edge_compute::encryption::{
    check_password_strength, hash_data, secure_random_bytes, secure_zeroize, storage_file_path, EncryptionConfig,
    EncryptionManager,
};
use rust_edge_compute::updates::{
    is_newer_version, parse_u32_text, verify_checksum, UpdateConfig, UpdateManager, UpdateStatus, VersionError,
    VersionInfo,
};

fn info(version: &str, checksum: &str, algorithm: &str) -> VersionInfo {
    VersionInfo {
        version: version.to_string(),
        release_date: "2024-01-01T00:00:00Z".to_string(),
        changelog: vec!["fixes".to_string()],
        minimum_version: None,
        download_url: "https://updates.example.com/v".to_string(),
        checksum: checksum.to_string(),
        checksum_algorithm: algorithm.to_string(),
        size_bytes: 3,
        mandatory: false,
    }
}

const ABC_SHA256: &str = "ba7816bf8f01cfea414140de5dae2223b00361a396177a9cb410ff61f20015ad";

#[test]
fn encryption_round_trip() {
    let mut m = EncryptionManager::new(EncryptionConfig::default());
    m.set_master_key(vec![7u8; 32]);
    let sealed = m.encrypt(b"hello edge", "k1").unwrap();
    assert_eq!(sealed.len(), 12 + 10 + 16);
    assert_eq!(m.decrypt(&sealed, "k1").unwrap(), b"hello edge".to_vec());
    assert!(m.decrypt(&sealed, "k2").is_err());
    assert_eq!(m.key_cache_size(), 2);
    m.clear_key_cache();
    assert_eq!(m.key_cache_size(), 0);
    let text = m.encrypt_string("grüße", "k1").unwrap();
    assert_eq!(m.decrypt_string(&text, "k1").unwrap(), "grüße");
    assert!(m.decrypt_string("not base64!", "k1").unwrap_err().starts_with("Failed to decode base64: "));
}

#[test]
fn short_ciphertext_is_refused() {
    let mut m = EncryptionManager::new(EncryptionConfig::default());
    m.set_master_key(vec![1u8; 32]);
    assert!(m.decrypt(&[1, 2, 3], "k").is_err());
}

#[test]
fn password_derived_master_key() {
    let mut m = EncryptionManager::new(EncryptionConfig::default());
    assert!(m.derive_master_key("correct horse battery staple").is_ok());
    let sealed = m.encrypt(b"x", "k").unwrap();
    assert_eq!(m.decrypt(&sealed, "k").unwrap(), b"x".to_vec());
}

#[test]
fn argon2_password_hashes_verify() {
    let m = EncryptionManager::new(EncryptionConfig::default());
    let h = m.hash_password("Sup3r$ecret").unwrap();
    assert_eq!(m.verify_password("Sup3r$ecret", &h), Ok(true));
    assert_eq!(m.verify_password("wrong", &h), Ok(false));
    assert!(m.verify_password("x", "not a hash").is_err());
}

#[test]
fn password_strength_rules() {
    assert_eq!(check_password_strength("Ab1!"), Err("Password must be at least 8 characters long".to_string()));
    assert_eq!(
        check_password_strength("abcdefgh"),
        Err("Password must contain uppercase, lowercase, digit, and special characters".to_string())
    );
    assert!(check_password_strength("Abcdef1!").is_ok());
}

#[test]
fn helpers_of_encryption() {
    assert_eq!(storage_file_path("/data", "key1"), "/data/key1");
    let mut v = vec![1u8, 2, 3];
    secure_zeroize(&mut v);
    assert_eq!(v, vec![0, 0, 0]);
    assert_eq!(secure_random_bytes(16).unwrap().len(), 16);
    assert_eq!(hash_data(b"abc"), "ungWv48Bz+pBQUDeXa4iI7ADYaOWF3qctBD/YfIAFa0=");
    assert_eq!(EncryptionManager::generate_random_key(24).len(), 24);
}

#[test]
fn version_comparison() {
    assert_eq!(is_newer_version("0.1.0", "0.2.0"), Ok(true));
    assert_eq!(is_newer_version("1.2.3", "1.2.3"), Ok(false));
    assert_eq!(is_newer_version("2.0.0", "1.9.9"), Ok(false));
    assert_eq!(is_newer_version("1.0", "1.0.1"), Err(VersionError::FormatMismatch));
    assert!(matches!(is_newer_version("1.a.0", "1.0.0"), Err(VersionError::BadPart(_))));
    assert_eq!(parse_u32_text("42"), Ok(42));
    assert!(parse_u32_text("").is_err());
    assert!(parse_u32_text("4294967296").is_err());
}

#[test]
fn checksums_are_checked() {
    assert!(verify_checksum(b"abc", &info("1.0.0", ABC_SHA256, "SHA256")).is_ok());
    assert_eq!(
        verify_checksum(b"abc", &info("1.0.0", "00", "SHA256")),
        Err(format!("Checksum verification failed. Expected: 00, Actual: {}", ABC_SHA256))
    );
    assert_eq!(verify_checksum(b"abc", &info("1.0.0", "x", "MD5")), Err("Unsupported checksum algorithm: MD5".to_string()));
}

#[test]
fn update_flow() {
    let mut m = UpdateManager::new(UpdateConfig::default());
    assert_eq!(m.latest_version_url(), "https://updates.example.com/api/v1/updates/latest");
    assert!(matches!(m.check_for_updates(info("0.1.0", ABC_SHA256, "SHA256")), Ok(UpdateStatus::UpToDate)));
    let newer = info("0.2.0", ABC_SHA256, "SHA256");
    assert!(matches!(m.check_for_updates(newer.clone()), Ok(UpdateStatus::Available(_))));
    m.start_download(&newer);
    let n = m.record_chunk(&newer, 0, 2);
    assert_eq!(n, 2);
    match m.get_update_status() {
        UpdateStatus::Downloading { version, downloaded_bytes, total_bytes } => {
            assert_eq!((version.as_str(), downloaded_bytes, total_bytes), ("0.2.0", 2, 3))
        }
        other => panic!("unexpected {:?}", other),
    }
    assert!(m.finish_download(&newer, b"abc").is_ok());
    assert!(matches!(m.get_update_status(), UpdateStatus::Downloaded(v) if v == "0.2.0"));
    m.begin_install("0.2.0");
    m.finish_install("0.2.0");
    assert!(matches!(m.get_update_status(), UpdateStatus::Installed(v) if v == "0.2.0"));
    let msg = m.rollback_backup_missing("0.1.0", "./updates/backup-0.1.0.bin");
    assert_eq!(msg, "Backup file not found: ./updates/backup-0.1.0.bin");
    assert!(m.get_update_history().is_empty());
    assert_eq!(UpdateManager::download_file_name("0.2.0"), "update-0.2.0.bin");
    assert_eq!(UpdateManager::backup_file_name("0.1.0"), "backup-0.1.0.bin");
    assert_eq!(UpdateManager::server_status_error("503"), "Update server returned status: 503");
}

#[test]
fn rejected_download_may_be_retried() {
    let mut m = UpdateManager::new(UpdateConfig::default());
    let v = info("0.3.0", "x", "SHA256");
    assert_eq!(m.download_rejected(&v, "404 Not Found"), "Download failed with status: 404 Not Found");
    match m.get_update_status() {
        UpdateStatus::Failed { version, can_retry, .. } => {
            assert_eq!(version, "0.3.0");
            assert!(can_retry);
        }
        other => panic!("unexpected {:?}", other),
    }
}

#[test]
fn tokens_are_base64_of_the_asked_length() {
    let t = EncryptionManager::generate_token(24);
    let bytes = base64::engine::general_purpose::STANDARD.decode(&t).expect("standard base64");
    assert_eq!(bytes.len(), 24);
    assert_eq!(t.len(), 32);
}

#[test]
fn master_keys_of_another_length_are_refused() {
    let config = EncryptionConfig { key_length: 16, ..EncryptionConfig::default() };
    let mut m = EncryptionManager::new(config);
    assert_eq!(
        m.derive_master_key("correct horse battery staple"),
        Err("Derived key length 32 does not match expected length 16".to_string())
    );
    let mut d = EncryptionManager::default();
    assert!(d.derive_master_key("pw").is_ok());
}
