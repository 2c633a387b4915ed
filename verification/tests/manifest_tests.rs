use sha2::Digest as _;
use registry_core::digest::Digest;
use registry_core::error::RegistryError;
use registry_core::manifest::Reference;
use registry_core::registry::Registry;

fn hex_string(bytes: &[u8]) -> String {
    let mut s = String::new();
    for b in bytes {
        s.push_str(&format!("{:02x}", b));
    }
    s
}

fn sha256_of(data: &[u8]) -> Digest {
    let hex = hex_string(sha2::Sha256::digest(data).as_slice());
    Digest::parse(&format!("sha256:{}", hex)).unwrap()
}

const MEDIA: &str = "application/vnd.oci.image.manifest.v1+json";

fn manifest_body(comment: &str) -> String {
    format!(
        "{{\"mediaType\":\"{}\",\"layers\":[],\"annotations\":{{\"note\":\"{}\"}}}}",
        MEDIA, comment
    )
}

#[test]
fn put_and_get_by_tag() {
    let mut r = Registry::new();
    let body = manifest_body("one");
    let s = r
        .put_manifest("ns", Reference::Tag("latest".to_string()), MEDIA, body.as_bytes())
        .unwrap();
    assert!(s.subject.is_none());
    let md = r.get_manifest("ns", Reference::Tag("latest".to_string())).unwrap();
    assert_eq!(md.content, body.as_bytes().to_vec());
    assert_eq!(md.media_type, MEDIA);
    assert_eq!(md.size, body.len() as u64);
    assert!(md.digest.same_as(&sha256_of(body.as_bytes())));
}

#[test]
fn tag_overwrite_keeps_older_revision() {
    let mut r = Registry::new();
    let body1 = manifest_body("first");
    let body2 = manifest_body("second");
    let d1 = sha256_of(body1.as_bytes());
    let d2 = sha256_of(body2.as_bytes());
    r.put_manifest("ns", Reference::Tag("t".to_string()), MEDIA, body1.as_bytes()).unwrap();
    r.put_manifest("ns", Reference::Tag("t".to_string()), MEDIA, body2.as_bytes()).unwrap();
    let by_tag = r.get_manifest("ns", Reference::Tag("t".to_string())).unwrap();
    assert_eq!(by_tag.content, body2.as_bytes().to_vec());
    assert!(by_tag.digest.same_as(&d2));
    let m1 = r.get_manifest("ns", Reference::Digest(d1.clone())).unwrap();
    assert_eq!(m1.content, body1.as_bytes().to_vec());
    let m2 = r.get_manifest("ns", Reference::Digest(d2)).unwrap();
    assert_eq!(m2.content, body2.as_bytes().to_vec());
}

#[test]
fn head_manifest_reports_size_and_digest() {
    let mut r = Registry::new();
    let body = manifest_body("head");
    let d = sha256_of(body.as_bytes());
    r.put_manifest("ns", Reference::Tag("v1".to_string()), MEDIA, body.as_bytes()).unwrap();
    let mh = r.head_manifest("ns", Reference::Tag("v1".to_string())).unwrap();
    assert_eq!(mh.size, body.len() as u64);
    assert!(mh.digest.same_as(&d));
    assert_eq!(mh.media_type, MEDIA);
}

#[test]
fn get_unknown_tag_and_digest() {
    let r = Registry::new();
    let e = r.get_manifest("ns", Reference::Tag("missing".to_string())).unwrap_err();
    assert!(matches!(e, RegistryError::TagUnknown));
    let d = sha256_of(b"whatever");
    let e2 = r.get_manifest("ns", Reference::Digest(d)).unwrap_err();
    assert!(matches!(e2, RegistryError::ManifestUnknown));
}

#[test]
fn put_manifest_rejects_malformed_documents() {
    let mut r = Registry::new();
    let e = r
        .put_manifest("ns", Reference::Tag("t".to_string()), MEDIA, b"not json at all")
        .unwrap_err();
    assert!(matches!(e, RegistryError::ManifestInvalid));
    let bad_layer = format!("{{\"mediaType\":\"{}\",\"layers\":[{{\"digest\":\"sha256:xyz\"}}]}}", MEDIA);
    let e2 = r
        .put_manifest("ns", Reference::Tag("t".to_string()), MEDIA, bad_layer.as_bytes())
        .unwrap_err();
    assert!(matches!(e2, RegistryError::ManifestInvalid));
    let e3 = r
        .put_manifest("ns", Reference::Tag("t".to_string()), "", manifest_body("x").as_bytes())
        .unwrap_err();
    assert!(matches!(e3, RegistryError::ManifestInvalid));
}

#[test]
fn referrers_record_subject_and_fields() {
    let mut r = Registry::new();
    let subject_body = manifest_body("subject");
    let subject_digest = sha256_of(subject_body.as_bytes());
    r.put_manifest("ns", Reference::Tag("base".to_string()), MEDIA, subject_body.as_bytes())
        .unwrap();
    let referrer_body = format!(
        "{{\"mediaType\":\"{}\",\"artifactType\":\"application/spdx+json\",\"layers\":[],\
         \"subject\":{{\"digest\":\"{}\"}},\"annotations\":{{\"a\":\"b\"}}}}",
        MEDIA,
        subject_digest.canonical()
    );
    let s = r
        .put_manifest(
            "ns",
            Reference::Digest(sha256_of(referrer_body.as_bytes())),
            MEDIA,
            referrer_body.as_bytes(),
        )
        .unwrap();
    assert!(s.subject.is_some());
    let ds = r.get_referrers("ns", subject_digest).unwrap();
    assert_eq!(ds.len(), 1);
    assert!(ds[0].digest.same_as(&sha256_of(referrer_body.as_bytes())));
    assert_eq!(ds[0].media_type, MEDIA);
    assert_eq!(ds[0].artifact_type.as_deref(), Some("application/spdx+json"));
    assert_eq!(ds[0].annotations, vec![("a".to_string(), "b".to_string())]);
    assert_eq!(ds[0].size, referrer_body.len() as u64);
}

#[test]
fn delete_manifest_by_tag_keeps_revision() {
    let mut r = Registry::new();
    let body = manifest_body("kept");
    let d = sha256_of(body.as_bytes());
    r.put_manifest("ns", Reference::Tag("t".to_string()), MEDIA, body.as_bytes()).unwrap();
    r.delete_manifest("ns", Reference::Tag("t".to_string())).unwrap();
    let e = r.get_manifest("ns", Reference::Tag("t".to_string())).unwrap_err();
    assert!(matches!(e, RegistryError::TagUnknown));
    assert!(r.get_manifest("ns", Reference::Digest(d)).is_ok());
}

#[test]
fn delete_manifest_by_digest_removes_referrer_entry() {
    let mut r = Registry::new();
    let subject_body = manifest_body("subject2");
    let subject_digest = sha256_of(subject_body.as_bytes());
    r.put_manifest("ns", Reference::Tag("base".to_string()), MEDIA, subject_body.as_bytes())
        .unwrap();
    let referrer_body = format!(
        "{{\"mediaType\":\"{}\",\"layers\":[],\"subject\":{{\"digest\":\"{}\"}}}}",
        MEDIA,
        subject_digest.canonical()
    );
    let rd = sha256_of(referrer_body.as_bytes());
    r.put_manifest("ns", Reference::Digest(rd.clone()), MEDIA, referrer_body.as_bytes())
        .unwrap();
    assert_eq!(r.get_referrers("ns", subject_digest.clone()).unwrap().len(), 1);
    r.delete_manifest("ns", Reference::Digest(rd.clone())).unwrap();
    assert_eq!(r.get_referrers("ns", subject_digest).unwrap().len(), 0);
    let e = r.get_manifest("ns", Reference::Digest(rd)).unwrap_err();
    assert!(matches!(e, RegistryError::ManifestUnknown));
}
