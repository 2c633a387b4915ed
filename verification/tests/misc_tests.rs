use registry_core::config::{Config, DataSize, IdentityConfig, RepositoryConfig, ServerConfig, StorageBackendConfig, StorageConfig, StorageFSConfig};
use registry_core::digest::Digest;
use registry_core::error::RegistryError;
use registry_core::registry::namespace_ok;
use registry_core::link::LinkReference;
use registry_core::policy::{AccessControl, ClientAction, ClientIdentity, PolicyOutcome};
use registry_core::text::{parse_u64, str_lt, to_hex, u64_to_dec};
use registry_core::api::{BlobParameters, ManifestParameters, NewUploadParameters, ReferrerParameters, TagsParameters, UploadParameters};
use registry_core::manifest::Reference;
use registry_core::tree::{hashstate_offsets, TreeManager};

fn sample_digest() -> Digest {
    Digest::parse("sha256:ba7816bf8f01cfea414140de5dae2223b00361a396177a9cb410ff61f20015ad")
        .unwrap()
}

#[test]
fn tree_paths_are_deterministic() {
    let t = TreeManager { root_dir: "/srv/registry".to_string() };
    let d = sample_digest();
    assert_eq!(t.blobs_root_dir(), "/srv/registry/v2/blobs");
    assert_eq!(
        t.blob_path(&d),
        "/srv/registry/v2/blobs/sha256/ba/ba7816bf8f01cfea414140de5dae2223b00361a396177a9cb410ff61f20015ad/data"
    );
    assert_eq!(
        t.blob_ref_path(&d),
        "/srv/registry/v2/blobs/sha256/ba/ba7816bf8f01cfea414140de5dae2223b00361a396177a9cb410ff61f20015ad/ref"
    );
    assert_eq!(t.uploads_root_dir("ns"), "/srv/registry/v2/repositories/ns/_uploads");
    assert_eq!(t.upload_path("ns", "42"), "/srv/registry/v2/repositories/ns/_uploads/42/data");
    assert_eq!(
        t.upload_hash_context_path("ns", "42", "sha256", 1024),
        "/srv/registry/v2/repositories/ns/_uploads/42/hashstates/sha256/1024"
    );
    assert_eq!(
        t.upload_start_date_path("ns", "42"),
        "/srv/registry/v2/repositories/ns/_uploads/42/startedat"
    );
    assert_eq!(
        t.manifest_tag_link_path("ns", "latest"),
        "/srv/registry/v2/repositories/ns/_manifests/tags/latest/current/link"
    );
    assert_eq!(
        t.manifest_revisions_link_path("ns", &d),
        format!(
            "/srv/registry/v2/repositories/ns/_manifests/revisions/sha256/{}/link",
            d.hash()
        )
    );
    assert_eq!(
        t.manifest_layer_link_path("ns", &d),
        format!("/srv/registry/v2/repositories/ns/_layers/sha256/{}/link", d.hash())
    );
    let other = sample_digest();
    assert_eq!(
        t.manifest_referrer_link_path("ns", &d, &other),
        format!(
            "/srv/registry/v2/repositories/ns/_manifests/referrers/sha256/{}/{}/link",
            d.hash(),
            other.canonical()
        )
    );
    assert_eq!(
        t.get_link_path(&LinkReference::Tag("v1".to_string()), "ns"),
        "/srv/registry/v2/repositories/ns/_manifests/tags/v1/current/link"
    );
    assert_eq!(
        t.get_link_parent_path(&LinkReference::Tag("v1".to_string()), "ns"),
        "/srv/registry/v2/repositories/ns/_manifests/tags/v1/current"
    );
    assert_eq!(
        t.get_link_container_path(&LinkReference::Layer(sample_digest()), "ns"),
        format!("/srv/registry/v2/repositories/ns/_layers/sha256/{}", d.hash())
    );
}

#[test]
fn decimal_rendering_and_parsing_round_trip() {
    assert_eq!(u64_to_dec(0), "0");
    assert_eq!(u64_to_dec(1024), "1024");
    assert_eq!(u64_to_dec(u64::MAX), "18446744073709551615");
    assert_eq!(parse_u64("0"), Some(0));
    assert_eq!(parse_u64("1024"), Some(1024));
    assert_eq!(parse_u64("18446744073709551615"), Some(u64::MAX));
    assert_eq!(parse_u64("18446744073709551616"), None);
    assert_eq!(parse_u64(""), None);
    assert_eq!(parse_u64("12a"), None);
    assert_eq!(parse_u64(&u64_to_dec(987654321)), Some(987654321));
}

#[test]
fn hex_rendering() {
    assert_eq!(to_hex(&[]), "");
    assert_eq!(to_hex(&[0x00, 0xff, 0x1a]), "00ff1a");
}

#[test]
fn lexicographic_order() {
    assert!(str_lt("abc", "abd"));
    assert!(str_lt("ab", "abc"));
    assert!(!str_lt("abc", "abc"));
    assert!(!str_lt("b", "abc"));
    assert!(str_lt("", "a"));
}

#[test]
fn hashstate_offsets_are_sorted_and_filtered() {
    let names = vec![
        "1024".to_string(),
        "0".to_string(),
        "tmp".to_string(),
        "512".to_string(),
        "99999999999999999999999".to_string(),
    ];
    assert_eq!(hashstate_offsets(&names), vec![0, 512, 1024]);
}

#[test]
fn data_size_as_bytes() {
    assert_eq!(DataSize::WithoutUnit(123).as_bytes(), 123);
    assert_eq!(DataSize::WithUnit(2, "KB".to_string()).as_bytes(), 2000);
    assert_eq!(DataSize::WithUnit(2, "KIB".to_string()).as_bytes(), 2048);
    assert_eq!(DataSize::WithUnit(3, "M".to_string()).as_bytes(), 3_000_000);
    assert_eq!(DataSize::WithUnit(1, "GI".to_string()).as_bytes(), 1_073_741_824);
    assert_eq!(DataSize::WithUnit(7, "XX".to_string()).as_bytes(), 7);
}

#[test]
fn data_size_parse() {
    assert!(matches!(DataSize::parse("1234"), Some(DataSize::WithoutUnit(1234))));
    match DataSize::parse("10mb") {
        Some(DataSize::WithUnit(10, u)) => assert_eq!(u, "MB"),
        _ => panic!("expected ten megabytes"),
    }
    match DataSize::parse("2GiB") {
        Some(DataSize::WithUnit(2, u)) => assert_eq!(u, "GIB"),
        _ => panic!("expected two gibibytes"),
    }
    assert!(DataSize::parse("10xyz").is_none());
    assert!(DataSize::parse("10 MB").is_none());
    assert!(matches!(DataSize::parse(""), Some(DataSize::WithoutUnit(0))));
}

#[test]
fn error_codes_and_statuses() {
    assert_eq!(RegistryError::BlobUnknown.code(), "BLOB_UNKNOWN");
    assert_eq!(RegistryError::BlobUnknown.status(), 404);
    assert_eq!(RegistryError::DigestInvalid.code(), "DIGEST_INVALID");
    assert_eq!(RegistryError::DigestInvalid.status(), 400);
    assert_eq!(RegistryError::RangeNotSatisfiable.status(), 416);
    assert_eq!(RegistryError::Denied.status(), 403);
    assert_eq!(RegistryError::Unauthorized(None).status(), 401);
    assert_eq!(RegistryError::NameInvalid.code(), "NAME_INVALID");
    assert_eq!(RegistryError::Unsupported.status(), 405);
    assert_eq!(
        RegistryError::InternalServerError.message(),
        "Internal server error"
    );
}

fn sample_config() -> Config {
    Config {
        server: ServerConfig {
            bind_address: "127.0.0.1".to_string(),
            port: 8000,
            query_timeout: ServerConfig::default_query_timeout(),
            query_timeout_grace_period: ServerConfig::default_query_timeout_grace_period(),
            tls: None,
        },
        storage: StorageConfig {
            backend: StorageBackendConfig::FS(StorageFSConfig { root_dir: "/tmp/reg".to_string() }),
        },
        identity: vec![(
            "admin-id".to_string(),
            IdentityConfig { username: "admin".to_string(), password: "letmein-test".to_string() },
        )],
        repository: vec![
            RepositoryConfig {
                namespace: "good.repo".to_string(),
                policy_default_allow: true,
                policies: vec![],
            },
            RepositoryConfig {
                namespace: "Bad Repo".to_string(),
                policy_default_allow: false,
                policies: vec![],
            },
        ],
    }
}

#[test]
fn config_builders() {
    let c = sample_config();
    assert_eq!(ServerConfig::default_query_timeout(), 3600);
    assert_eq!(ServerConfig::default_query_timeout_grace_period(), 60);
    let creds = c.build_credentials();
    let entry = creds.get("admin").unwrap();
    assert_eq!(entry.0, "admin-id");
    let repos = c.build_repositories_list();
    assert_eq!(repos, vec!["good.repo".to_string()]);
    let allow = c.build_repository_default_allow_list();
    assert_eq!(allow.get("good.repo"), Some(&true));
    assert_eq!(allow.get("Bad Repo"), Some(&false));
}

#[test]
fn policy_decisions() {
    let c = sample_config();
    let access = AccessControl {
        credentials: c.build_credentials(),
        repositories: c.build_repositories_list(),
        default_allow: c.build_repository_default_allow_list(),
    };
    let mut anon = ClientIdentity::new();
    let action = ClientAction::GetBlob("good.repo".to_string());
    assert!(anon.can_do(&access, &action, None).is_ok());
    assert!(anon.can_do(&access, &ClientAction::ListCatalog, None).is_ok());
    let unknown = ClientAction::GetBlob("other.repo".to_string());
    assert!(anon.can_do(&access, &unknown, None).is_err());
    anon.set_credentials("admin".to_string(), "wrong".to_string());
    assert!(anon.can_do(&access, &action, None).is_err());
    anon.set_credentials("admin".to_string(), "letmein-test".to_string());
    assert!(anon.can_do(&access, &action, None).is_ok());
    let deny = vec![PolicyOutcome::Verdict(false)];
    assert!(anon.can_do(&access, &action, Some(&deny)).is_err());
    let undecided = vec![PolicyOutcome::Verdict(true)];
    assert!(anon.can_do(&access, &action, Some(&undecided)).is_ok());
    let invalid = vec![PolicyOutcome::Invalid];
    assert!(anon.can_do(&access, &action, Some(&invalid)).is_err());
}

#[test]
fn parameter_records_carry_their_fields() {
    let p = NewUploadParameters { name: "ns".to_string() };
    assert_eq!(p.name, "ns");
    let u = UploadParameters { name: "ns".to_string(), id: 3 };
    assert_eq!(u.id, 3);
    let m = ManifestParameters { name: "ns".to_string(), reference: Reference::Tag("v".to_string()) };
    assert!(matches!(m.reference, Reference::Tag(_)));
    let rf = ReferrerParameters { name: "ns".to_string(), reference: sample_digest() };
    assert_eq!(rf.reference.hash_prefix(), "ba");
    let t = TagsParameters { name: "ns".to_string() };
    assert_eq!(t.name, "ns");
    let b = BlobParameters { name: "ns".to_string(), digest: sample_digest() };
    assert_eq!(b.digest.canonical().len(), 71);
}

#[test]
fn namespace_grammar() {
    assert!(namespace_ok("abc"));
    assert!(namespace_ok("a.b-c_d"));
    assert!(namespace_ok("a0.b1"));
    assert!(!namespace_ok(""));
    assert!(!namespace_ok("A"));
    assert!(!namespace_ok(".a"));
    assert!(!namespace_ok("a."));
    assert!(!namespace_ok("a..b"));
    assert!(!namespace_ok("a/b"));
}
