use registry_core::manifest::Reference;
use registry_core::registry::Registry;

const MEDIA: &str = "application/vnd.oci.image.manifest.v1+json";

fn manifest_body(comment: &str) -> String {
    format!("{{\"mediaType\":\"{}\",\"layers\":[],\"annotations\":{{\"note\":\"{}\"}}}}", MEDIA, comment)
}

fn put_tagged(r: &mut Registry, ns: &str, tag: &str, comment: &str) {
    let body = manifest_body(comment);
    r.put_manifest(ns, Reference::Tag(tag.to_string()), MEDIA, body.as_bytes()).unwrap();
}

#[test]
fn catalog_pages_cover_everything_once() {
    let mut r = Registry::new();
    for ns in ["edelta", "calpha", "agamma", "dbeta", "bepsilon"] {
        put_tagged(&mut r, ns, "latest", ns);
    }
    let (p1, c1) = r.list_catalog(Some(2), None);
    assert_eq!(p1, vec!["agamma".to_string(), "bepsilon".to_string()]);
    let c1 = c1.unwrap();
    assert_eq!(c1, "bepsilon");
    let (p2, c2) = r.list_catalog(Some(2), Some(&c1));
    assert_eq!(p2, vec!["calpha".to_string(), "dbeta".to_string()]);
    let c2 = c2.unwrap();
    assert_eq!(c2, "dbeta");
    let (p3, c3) = r.list_catalog(Some(2), Some(&c2));
    assert_eq!(p3, vec!["edelta".to_string()]);
    assert!(c3.is_none());
}

#[test]
fn catalog_with_empty_string_cursor_starts_from_the_beginning() {
    let mut r = Registry::new();
    for ns in ["aa", "bb", "cc"] {
        put_tagged(&mut r, ns, "latest", ns);
    }
    let (p1, c1) = r.list_catalog(Some(2), Some(""));
    assert_eq!(p1, vec!["aa".to_string(), "bb".to_string()]);
    let (p2, c2) = r.list_catalog(Some(2), Some(&c1.unwrap()));
    assert_eq!(p2, vec!["cc".to_string()]);
    assert!(c2.is_none());
}

#[test]
fn catalog_without_limit_returns_all_sorted() {
    let mut r = Registry::new();
    for ns in ["zeta", "alpha", "mid"] {
        put_tagged(&mut r, ns, "latest", ns);
    }
    let (all, next) = r.list_catalog(None, None);
    assert_eq!(all, vec!["alpha".to_string(), "mid".to_string(), "zeta".to_string()]);
    assert!(next.is_none());
}

#[test]
fn list_tags_is_sorted_and_paginated() {
    let mut r = Registry::new();
    for tag in ["v2", "latest", "v1", "edge"] {
        put_tagged(&mut r, "ns", tag, tag);
    }
    let (all, next) = r.list_tags("ns", None, None).unwrap();
    assert_eq!(
        all,
        vec!["edge".to_string(), "latest".to_string(), "v1".to_string(), "v2".to_string()]
    );
    assert!(next.is_none());
    let (page, next) = r.list_tags("ns", Some(3), None).unwrap();
    assert_eq!(page, vec!["edge".to_string(), "latest".to_string(), "v1".to_string()]);
    assert_eq!(next.unwrap(), "v1");
    let (page2, next2) = r.list_tags("ns", Some(3), Some("v1")).unwrap();
    assert_eq!(page2, vec!["v2".to_string()]);
    assert!(next2.is_none());
}

#[test]
fn list_tags_with_exact_page_has_no_next() {
    let mut r = Registry::new();
    put_tagged(&mut r, "ns", "only", "only");
    let (page, next) = r.list_tags("ns", Some(1), None).unwrap();
    assert_eq!(page, vec!["only".to_string()]);
    assert!(next.is_none());
}

#[test]
fn empty_catalog_and_tags() {
    let r = Registry::new();
    let (page, next) = r.list_catalog(Some(10), None);
    assert!(page.is_empty());
    assert!(next.is_none());
    let (tags, tnext) = r.list_tags("ns", Some(10), None).unwrap();
    assert!(tags.is_empty());
    assert!(tnext.is_none());
}

#[test]
fn zero_page_size_returns_nothing() {
    let mut r = Registry::new();
    put_tagged(&mut r, "ns", "a", "a");
    let (page, next) = r.list_tags("ns", Some(0), None).unwrap();
    assert!(page.is_empty());
    assert!(next.is_none());
}
