use pkgbundle::checksum::verify_checksum;
use pkgbundle::errors::BuildError;
use pkgbundle::hashes::{md5_hash, sha256_hash, sha512_hash};
use pkgbundle::metadata::Metadata;

fn base_metadata() -> Metadata {
    Metadata::default()
}

#[test]
fn accepts_matching_digest_in_strongest_list() {
    let mut m = base_metadata();
    m.sha256sums = vec![sha256_hash(b"artifact bytes")];
    assert!(verify_checksum(&m, b"artifact bytes").is_ok());
}

#[test]
fn accepts_digest_case_insensitively() {
    let mut m = base_metadata();
    m.sha256sums = vec![sha256_hash(b"artifact bytes").to_uppercase()];
    assert!(verify_checksum(&m, b"artifact bytes").is_ok());
}

#[test]
fn accepts_any_matching_entry() {
    let mut m = base_metadata();
    m.sha256sums = vec!["0000".to_string(), sha256_hash(b"x")];
    assert!(verify_checksum(&m, b"x").is_ok());
}

#[test]
fn skip_sentinel_always_passes() {
    let mut m = base_metadata();
    m.sha256sums = vec!["deadbeef".to_string(), "SKIP".to_string()];
    assert!(verify_checksum(&m, b"anything at all").is_ok());
}

#[test]
fn skip_sentinel_passes_in_any_casing() {
    let mut m = base_metadata();
    m.sha512sums = vec!["sKiP".to_string()];
    assert!(verify_checksum(&m, b"whatever").is_ok());
}

#[test]
fn rejects_mismatch_with_diagnostics() {
    let mut m = base_metadata();
    m.sha256sums = vec!["00ff".to_string()];
    let e = verify_checksum(&m, b"data").unwrap_err();
    match e {
        BuildError::ChecksumMismatch { expected, actual } => {
            assert_eq!(expected, vec!["00ff".to_string()]);
            assert_eq!(actual, sha256_hash(b"data"));
        }
        other => panic!("unexpected error: {:?}", other),
    }
}

#[test]
fn stronger_list_decides_even_when_weaker_matches() {
    let mut m = base_metadata();
    m.sha512sums = vec!["not-the-digest".to_string()];
    m.md5sums = vec![md5_hash(b"data")];
    let e = verify_checksum(&m, b"data").unwrap_err();
    match e {
        BuildError::ChecksumMismatch { expected, actual } => {
            assert_eq!(expected, vec!["not-the-digest".to_string()]);
            assert_eq!(actual, sha512_hash(b"data"));
        }
        other => panic!("unexpected error: {:?}", other),
    }
}

#[test]
fn md5_list_is_used_when_alone() {
    let mut m = base_metadata();
    m.md5sums = vec![md5_hash(b"data")];
    assert!(verify_checksum(&m, b"data").is_ok());
}

#[test]
fn no_lists_is_a_no_op_success() {
    let m = base_metadata();
    assert!(verify_checksum(&m, b"data").is_ok());
}
