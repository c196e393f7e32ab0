use pkgbundle::hashes::{
    blake2b512_hash, md5_hash, sha1_hash, sha224_hash, sha256_hash, sha384_hash, sha512_hash,
};

#[test]
fn md5_of_empty_input() {
    assert_eq!(md5_hash(b""), "d41d8cd98f00b204e9800998ecf8427e");
}

#[test]
fn md5_of_abc() {
    assert_eq!(md5_hash(b"abc"), "900150983cd24fb0d6963f7d28e17f72");
}

#[test]
fn sha1_of_abc() {
    assert_eq!(sha1_hash(b"abc"), "a9993e364706816aba3e25717850c26c9cd0d89d");
}

#[test]
fn sha224_of_abc() {
    assert_eq!(
        sha224_hash(b"abc"),
        "23097d223405d8228642a477bda255b32aadbce4bda0b3f7e36c9da7"
    );
}

#[test]
fn sha256_of_abc() {
    assert_eq!(
        sha256_hash(b"abc"),
        "ba7816bf8f01cfea414140de5dae2223b00361a396177a9cb410ff61f20015ad"
    );
}

#[test]
fn sha256_of_empty_input() {
    assert_eq!(
        sha256_hash(b""),
        "e3b0c44298fc1c149afbf4c8996fb92427ae41e4649b934ca495991b7852b855"
    );
}

#[test]
fn sha384_of_abc() {
    assert_eq!(
        sha384_hash(b"abc"),
        "cb00753f45a35e8bb5a03d699ac65007272c32ab0eded1631a8b605a43ff5bed8086072ba1e7cc2358baeca134c825a7"
    );
}

#[test]
fn sha512_of_abc() {
    assert_eq!(
        sha512_hash(b"abc"),
        "ddaf35a193617abacc417349ae20413112e6fa4e89a97ea20a9eeee64b55d39a2192992a274fc1a836ba3c23a3feebbd454d4423643ce80e2a9ac94fa54ca49f"
    );
}

#[test]
fn blake2b512_of_abc() {
    assert_eq!(
        blake2b512_hash(b"abc"),
        "ba80a53f981c4d0d6a2797b69f12f6e94c212f14685ac4b74b12bb6fdbffa2d17d87c5392aab792dc252d5de4533cc9518d38aa8dbf1925ab92386edd4009923"
    );
}

#[test]
fn digests_are_lowercase_hex() {
    let d = sha256_hash(b"Case Test");
    assert!(d.chars().all(|c| c.is_ascii_digit() || ('a'..='f').contains(&c)));
    assert_eq!(d.len(), 64);
}
