use sha2::Digest as _;
use registry_core::digest::{sha256_digest, Digest, DigestAlgorithm};

fn hex_string(bytes: &[u8]) -> String {
    let mut s = String::new();
    for b in bytes {
        s.push_str(&format!("{:02x}", b));
    }
    s
}

#[test]
fn parse_valid_sha256() {
    let h = "ba7816bf8f01cfea414140de5dae2223b00361a396177a9cb410ff61f20015ad";
    let s = format!("sha256:{}", h);
    let d = Digest::parse(&s).unwrap();
    assert_eq!(d.algorithm(), DigestAlgorithm::Sha256);
    assert_eq!(d.hash(), h);
    assert_eq!(d.canonical(), s);
    assert_eq!(d.hash_prefix(), "ba");
}

#[test]
fn parse_valid_sha512() {
    let h: String = std::iter::repeat('a').take(128).collect();
    let s = format!("sha512:{}", h);
    let d = Digest::parse(&s).unwrap();
    assert_eq!(d.algorithm(), DigestAlgorithm::Sha512);
    assert_eq!(d.canonical(), s);
}

#[test]
fn parse_rejects_unknown_algorithm() {
    let h = "ba7816bf8f01cfea414140de5dae2223b00361a396177a9cb410ff61f20015ad";
    let r = Digest::parse(&format!("md5:{}", h));
    assert!(matches!(r, Err(registry_core::error::RegistryError::DigestInvalid)));
}

#[test]
fn parse_rejects_wrong_length() {
    let r = Digest::parse("sha256:ba7816");
    assert!(matches!(r, Err(registry_core::error::RegistryError::DigestInvalid)));
}

#[test]
fn parse_rejects_uppercase_hex() {
    let h = "BA7816BF8F01CFEA414140DE5DAE2223B00361A396177A9CB410FF61F20015AD";
    let r = Digest::parse(&format!("sha256:{}", h));
    assert!(matches!(r, Err(registry_core::error::RegistryError::DigestInvalid)));
}

#[test]
fn parse_rejects_non_hex() {
    let h = "zz7816bf8f01cfea414140de5dae2223b00361a396177a9cb410ff61f20015ad";
    let r = Digest::parse(&format!("sha256:{}", h));
    assert!(matches!(r, Err(registry_core::error::RegistryError::DigestInvalid)));
}

#[test]
fn parse_rejects_empty() {
    assert!(Digest::parse("").is_err());
    assert!(Digest::parse("sha256").is_err());
    assert!(Digest::parse("sha256:").is_err());
}

#[test]
fn sha256_digest_known_vector() {
    let d = sha256_digest(b"abc");
    assert_eq!(
        d.canonical(),
        "sha256:ba7816bf8f01cfea414140de5dae2223b00361a396177a9cb410ff61f20015ad"
    );
}

#[test]
fn sha256_digest_empty_input() {
    let d = sha256_digest(b"");
    assert_eq!(
        d.canonical(),
        "sha256:e3b0c44298fc1c149afbf4c8996fb92427ae41e4649b934ca495991b7852b855"
    );
}

#[test]
fn sha256_digest_matches_reference_implementation() {
    let data = b"the quick brown fox jumps over the lazy dog, twice";
    let expected = hex_string(sha2::Sha256::digest(data).as_slice());
    let d = sha256_digest(data);
    assert_eq!(d.hash(), expected);
}

#[test]
fn digests_compare_by_canonical_value() {
    let a = sha256_digest(b"abc");
    let b = Digest::parse(
        "sha256:ba7816bf8f01cfea414140de5dae2223b00361a396177a9cb410ff61f20015ad",
    )
    .unwrap();
    assert!(a.same_as(&b));
    let c = sha256_digest(b"abd");
    assert!(!a.same_as(&c));
}
