use sha2::Digest as _;
use registry_core::digest::Digest;
use registry_core::error::RegistryError;
use registry_core::manifest::Reference;
use registry_core::registry::{BlobData, NewUpload, Registry};

fn hex_string(bytes: &[u8]) -> String {
    let mut s = String::new();
    for b in bytes {
        s.push_str(&format!("{:02x}", b));
    }
    s
}

fn sha256_of(data: &[u8]) -> Digest {
    let hex = hex_string(sha2::Sha256::digest(data).as_slice());
    Digest::parse(&format!("sha256:{}", hex)).unwrap()
}

fn upload_blob(r: &mut Registry, ns: &str, data: &[u8]) -> Digest {
    let id = match r.start_upload(ns, None, 1).unwrap() {
        NewUpload::Session(_, id) => id,
        NewUpload::ExistingBlob(_) => panic!("no blob was stored yet"),
    };
    r.patch_upload(ns, id, Some(0), data).unwrap();
    let d = sha256_of(data);
    r.complete_upload(ns, id, d.clone(), b"").unwrap();
    d
}

const MEDIA: &str = "application/vnd.oci.image.manifest.v1+json";

fn manifest_with_layer(layer: &Digest, comment: &str) -> String {
    format!(
        "{{\"mediaType\":\"{}\",\"layers\":[{{\"digest\":\"{}\"}}],\
         \"annotations\":{{\"note\":\"{}\"}}}}",
        MEDIA,
        layer.canonical(),
        comment
    )
}

#[test]
fn head_blob_reports_size() {
    let mut r = Registry::new();
    let d = upload_blob(&mut r, "ns", b"payload");
    let s = r.head_blob("ns", d).unwrap();
    assert_eq!(s.size, 7);
    let missing = sha256_of(b"other");
    let e = r.head_blob("ns", missing).unwrap_err();
    assert!(matches!(e, RegistryError::BlobUnknown));
}

#[test]
fn get_blob_serves_ranges() {
    let mut r = Registry::new();
    let d = upload_blob(&mut r, "ns", b"0123456789");
    match r.get_blob("ns", &d, Some((2, 5))).unwrap() {
        BlobData::RangedReader(bytes, (start, end), total) => {
            assert_eq!(bytes, b"2345".to_vec());
            assert_eq!((start, end), (2, 5));
            assert_eq!(total, 10);
        }
        _ => panic!("expected a ranged read"),
    }
    match r.get_blob("ns", &d, Some((7, 99))).unwrap() {
        BlobData::RangedReader(bytes, _, _) => assert_eq!(bytes, b"789".to_vec()),
        _ => panic!("expected a ranged read"),
    }
}

#[test]
fn get_blob_range_start_beyond_length_fails() {
    let mut r = Registry::new();
    let d = upload_blob(&mut r, "ns", b"short");
    let e = r.get_blob("ns", &d, Some((6, 10))).unwrap_err();
    assert!(matches!(e, RegistryError::RangeNotSatisfiable));
    assert!(r.get_blob("ns", &d, Some((5, 10))).is_ok());
}

#[test]
fn shared_blob_delete_protection() {
    let mut r = Registry::new();
    let x = upload_blob(&mut r, "repo-a", b"shared layer");
    let body_b = manifest_with_layer(&x, "holds the layer in b");
    let mb = sha256_of(body_b.as_bytes());
    r.put_manifest("repo-b", Reference::Digest(mb.clone()), MEDIA, body_b.as_bytes())
        .unwrap();
    let e = r.delete_blob("repo-a", x.clone()).unwrap_err();
    assert!(matches!(e, RegistryError::Denied));
    assert!(r.head_blob("repo-a", x.clone()).is_ok());
    r.delete_manifest("repo-b", Reference::Digest(mb)).unwrap();
    r.delete_blob("repo-a", x.clone()).unwrap();
    let e2 = r.head_blob("repo-a", x).unwrap_err();
    assert!(matches!(e2, RegistryError::BlobUnknown));
}

#[test]
fn delete_blob_needs_a_reference_from_the_namespace() {
    let mut r = Registry::new();
    let x = upload_blob(&mut r, "repo-a", b"content");
    let e = r.delete_blob("repo-b", x).unwrap_err();
    assert!(matches!(e, RegistryError::BlobUnknown));
}
