use sha2::Digest as _;
use registry_core::digest::Digest;
use registry_core::error::RegistryError;
use registry_core::registry::{BlobData, NewUpload, Registry};

fn hex_string(bytes: &[u8]) -> String {
    let mut s = String::new();
    for b in bytes {
        s.push_str(&format!("{:02x}", b));
    }
    s
}

fn sha256_of(data: &[u8]) -> Digest {
    let hex = hex_string(sha2::Sha256::digest(data).as_slice());
    Digest::parse(&format!("sha256:{}", hex)).unwrap()
}

fn start_session(r: &mut Registry, ns: &str) -> u64 {
    match r.start_upload(ns, None, 7).unwrap() {
        NewUpload::Session(_, id) => id,
        NewUpload::ExistingBlob(_) => panic!("no blob was stored yet"),
    }
}

#[test]
fn upload_round_trip_single_chunk() {
    let mut r = Registry::new();
    let id = start_session(&mut r, "testrepo");
    r.patch_upload("testrepo", id, Some(0), b"hello world").unwrap();
    let claimed = sha256_of(b"hello world");
    r.complete_upload("testrepo", id, claimed.clone(), b"").unwrap();
    match r.get_blob("testrepo", &claimed, None).unwrap() {
        BlobData::Reader(bytes, total) => {
            assert_eq!(bytes, b"hello world".to_vec());
            assert_eq!(total, 11);
        }
        _ => panic!("expected the whole content"),
    }
}

#[test]
fn upload_round_trip_many_chunks() {
    let mut r = Registry::new();
    let id = start_session(&mut r, "testrepo");
    let mut offset = 0u64;
    let chunks: Vec<&[u8]> = vec![b"he", b"llo", b"", b" wor", b"ld"];
    for c in &chunks {
        offset = r.patch_upload("testrepo", id, Some(offset), c).unwrap();
    }
    assert_eq!(offset, 11);
    let claimed = sha256_of(b"hello world");
    r.complete_upload("testrepo", id, claimed.clone(), b"").unwrap();
    match r.get_blob("testrepo", &claimed, None).unwrap() {
        BlobData::Reader(bytes, _) => assert_eq!(bytes, b"hello world".to_vec()),
        _ => panic!("expected the whole content"),
    }
}

#[test]
fn upload_final_bytes_on_completion() {
    let mut r = Registry::new();
    let id = start_session(&mut r, "testrepo");
    r.patch_upload("testrepo", id, Some(0), b"hello ").unwrap();
    let claimed = sha256_of(b"hello world");
    r.complete_upload("testrepo", id, claimed.clone(), b"world").unwrap();
    match r.get_blob("testrepo", &claimed, None).unwrap() {
        BlobData::Reader(bytes, _) => assert_eq!(bytes, b"hello world".to_vec()),
        _ => panic!("expected the whole content"),
    }
}

#[test]
fn start_upload_location_names_the_session() {
    let mut r = Registry::new();
    match r.start_upload("testrepo", None, 7).unwrap() {
        NewUpload::Session(location, id) => {
            assert_eq!(location, format!("/v2/testrepo/blobs/uploads/{}", id));
        }
        NewUpload::ExistingBlob(_) => panic!("no blob was stored yet"),
    }
}

#[test]
fn start_upload_short_circuits_on_existing_blob() {
    let mut r = Registry::new();
    let id = start_session(&mut r, "testrepo");
    r.patch_upload("testrepo", id, Some(0), b"abc").unwrap();
    let claimed = sha256_of(b"abc");
    r.complete_upload("testrepo", id, claimed.clone(), b"").unwrap();
    match r.start_upload("testrepo", Some(claimed.clone()), 9).unwrap() {
        NewUpload::ExistingBlob(d) => assert!(d.same_as(&claimed)),
        NewUpload::Session(_, _) => panic!("the blob already exists"),
    }
}

#[test]
fn patch_rejects_non_contiguous_offset() {
    let mut r = Registry::new();
    let id = start_session(&mut r, "testrepo");
    r.patch_upload("testrepo", id, Some(0), b"hello").unwrap();
    let e = r.patch_upload("testrepo", id, Some(3), b"x").unwrap_err();
    assert!(matches!(e, RegistryError::RangeNotSatisfiable));
    assert_eq!(r.get_upload_range_max("testrepo", id).unwrap(), 5);
}

#[test]
fn range_max_is_idempotent_between_patches() {
    let mut r = Registry::new();
    let id = start_session(&mut r, "testrepo");
    r.patch_upload("testrepo", id, Some(0), b"hello").unwrap();
    let a = r.get_upload_range_max("testrepo", id).unwrap();
    let b = r.get_upload_range_max("testrepo", id).unwrap();
    assert_eq!(a, b);
    assert_eq!(a, 5);
}

#[test]
fn complete_with_wrong_digest_keeps_session() {
    let mut r = Registry::new();
    let id = start_session(&mut r, "testrepo");
    r.patch_upload("testrepo", id, Some(0), b"hello").unwrap();
    let wrong = sha256_of(b"goodbye");
    let e = r.complete_upload("testrepo", id, wrong.clone(), b"").unwrap_err();
    assert!(matches!(e, RegistryError::DigestInvalid));
    assert_eq!(r.get_upload_range_max("testrepo", id).unwrap(), 5);
    let right = sha256_of(b"hello");
    r.complete_upload("testrepo", id, right.clone(), b"").unwrap();
    assert_eq!(r.head_blob("testrepo", right).unwrap().size, 5);
}

#[test]
fn delete_upload_destroys_the_session() {
    let mut r = Registry::new();
    let id = start_session(&mut r, "testrepo");
    r.patch_upload("testrepo", id, Some(0), b"hello").unwrap();
    r.delete_upload("testrepo", id).unwrap();
    let e = r.get_upload_range_max("testrepo", id).unwrap_err();
    assert!(matches!(e, RegistryError::UploadUnknown));
    let e2 = r.delete_upload("testrepo", id).unwrap_err();
    assert!(matches!(e2, RegistryError::UploadUnknown));
}

#[test]
fn upload_session_is_scoped_to_its_namespace() {
    let mut r = Registry::new();
    let id = start_session(&mut r, "repo-a");
    let e = r.patch_upload("repo-b", id, Some(0), b"x").unwrap_err();
    assert!(matches!(e, RegistryError::UploadUnknown));
}

#[test]
fn invalid_namespace_is_rejected() {
    let mut r = Registry::new();
    let e = r.start_upload("Bad/Name", None, 0).unwrap_err();
    assert!(matches!(e, RegistryError::NameInvalid));
    let e2 = r.start_upload("", None, 0).unwrap_err();
    assert!(matches!(e2, RegistryError::NameInvalid));
    let e3 = r.start_upload("a..b", None, 0).unwrap_err();
    assert!(matches!(e3, RegistryError::NameInvalid));
    assert!(r.start_upload("a.b-c_d9", None, 0).is_ok());
}
