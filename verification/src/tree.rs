//! Deterministic mapping from logical entities (blob, upload session,
//! manifest revision, tag, referrer, layer) to filesystem paths. The same
//! identity always yields the same path: the engine re-reads what it wrote
//! by recomputing the path, with no separate index.

use vstd::prelude::*;

use crate::digest::Digest;
use crate::link::LinkReference;
use crate::listing::{insert_sorted_unique_u64, sorted_u64, u64_set};
use crate::text::{dec_of, dec_val, is_dec_str, parse_u64, u64_to_dec};

verus! {

pub struct TreeManager {
    pub root_dir: String,
}

impl TreeManager {
    pub open spec fn spec_blobs_root_dir(&self) -> Seq<char> {
        self.root_dir@ + "/v2/blobs"@
    }

    pub fn blobs_root_dir(&self) -> (r: String)
        ensures
            r@ == self.spec_blobs_root_dir(),
    {
        let mut r = self.root_dir.clone();
        r.append("/v2/blobs");
        r
    }

    pub open spec fn spec_blob_container_dir(&self, digest: Digest) -> Seq<char> {
        self.spec_blobs_root_dir() + "/"@ + digest.algorithm.spec_name() + "/"@
            + digest.hash@.subrange(0, 2) + "/"@ + digest.hash@
    }

    pub fn blob_container_dir(&self, digest: &Digest) -> (r: String)
        requires
            digest.hash@.len() >= 2,
        ensures
            r@ == self.spec_blob_container_dir(*digest),
    {
        let mut r = self.blobs_root_dir();
        r.append("/");
        r.append(digest.algorithm().name());
        r.append("/");
        r.append(digest.hash_prefix().as_str());
        r.append("/");
        r.append(digest.hash());
        r
    }

    pub open spec fn spec_blob_path(&self, digest: Digest) -> Seq<char> {
        self.spec_blob_container_dir(digest) + "/data"@
    }

    pub fn blob_path(&self, digest: &Digest) -> (r: String)
        requires
            digest.hash@.len() >= 2,
        ensures
            r@ == self.spec_blob_path(*digest),
    {
        let mut r = self.blob_container_dir(digest);
        r.append("/data");
        r
    }

    pub open spec fn spec_blob_ref_path(&self, digest: Digest) -> Seq<char> {
        self.spec_blob_container_dir(digest) + "/ref"@
    }

    pub fn blob_ref_path(&self, digest: &Digest) -> (r: String)
        requires
            digest.hash@.len() >= 2,
        ensures
            r@ == self.spec_blob_ref_path(*digest),
    {
        let mut r = self.blob_container_dir(digest);
        r.append("/ref");
        r
    }

    pub open spec fn spec_repository_dir(&self) -> Seq<char> {
        self.root_dir@ + "/v2/repositories"@
    }

    pub fn repository_dir(&self) -> (r: String)
        ensures
            r@ == self.spec_repository_dir(),
    {
        let mut r = self.root_dir.clone();
        r.append("/v2/repositories");
        r
    }

    pub open spec fn spec_uploads_root_dir(&self, namespace: Seq<char>) -> Seq<char> {
        self.spec_repository_dir() + "/"@ + namespace + "/_uploads"@
    }

    pub fn uploads_root_dir(&self, namespace: &str) -> (r: String)
        ensures
            r@ == self.spec_uploads_root_dir(namespace@),
    {
        let mut r = self.repository_dir();
        r.append("/");
        r.append(namespace);
        r.append("/_uploads");
        r
    }

    pub open spec fn spec_upload_container_path(
        &self,
        name: Seq<char>,
        id: Seq<char>,
    ) -> Seq<char> {
        self.spec_uploads_root_dir(name) + "/"@ + id
    }

    pub fn upload_container_path(&self, name: &str, id: &str) -> (r: String)
        ensures
            r@ == self.spec_upload_container_path(name@, id@),
    {
        let mut r = self.uploads_root_dir(name);
        r.append("/");
        r.append(id);
        r
    }

    pub open spec fn spec_upload_path(&self, name: Seq<char>, id: Seq<char>) -> Seq<char> {
        self.spec_upload_container_path(name, id) + "/data"@
    }

    pub fn upload_path(&self, name: &str, id: &str) -> (r: String)
        ensures
            r@ == self.spec_upload_path(name@, id@),
    {
        let mut r = self.upload_container_path(name, id);
        r.append("/data");
        r
    }

    pub open spec fn spec_upload_hash_context_container_path(
        &self,
        name: Seq<char>,
        id: Seq<char>,
        algorithm: Seq<char>,
    ) -> Seq<char> {
        self.spec_uploads_root_dir(name) + "/"@ + id + "/hashstates/"@ + algorithm
    }

    pub fn upload_hash_context_container_path(&self, name: &str, id: &str, algorithm: &str) -> (r:
        String)
        ensures
            r@ == self.spec_upload_hash_context_container_path(name@, id@, algorithm@),
    {
        let mut r = self.uploads_root_dir(name);
        r.append("/");
        r.append(id);
        r.append("/hashstates/");
        r.append(algorithm);
        r
    }

    pub open spec fn spec_upload_hash_context_path(
        &self,
        name: Seq<char>,
        id: Seq<char>,
        algorithm: Seq<char>,
        offset: u64,
    ) -> Seq<char> {
        self.spec_upload_hash_context_container_path(name, id, algorithm) + "/"@ + dec_of(
            offset as nat,
        )
    }

    pub fn upload_hash_context_path(
        &self,
        name: &str,
        id: &str,
        algorithm: &str,
        offset: u64,
    ) -> (r: String)
        ensures
            r@ == self.spec_upload_hash_context_path(name@, id@, algorithm@, offset),
    {
        let mut r = self.upload_hash_context_container_path(name, id, algorithm);
        r.append("/");
        let off = u64_to_dec(offset);
        r.append(off.as_str());
        r
    }

    pub open spec fn spec_upload_start_date_container_dir(
        &self,
        name: Seq<char>,
        id: Seq<char>,
    ) -> Seq<char> {
        self.spec_uploads_root_dir(name) + "/"@ + id
    }

    pub fn upload_start_date_container_dir(&self, name: &str, id: &str) -> (r: String)
        ensures
            r@ == self.spec_upload_start_date_container_dir(name@, id@),
    {
        let mut r = self.uploads_root_dir(name);
        r.append("/");
        r.append(id);
        r
    }

    pub open spec fn spec_upload_start_date_path(
        &self,
        name: Seq<char>,
        id: Seq<char>,
    ) -> Seq<char> {
        self.spec_upload_start_date_container_dir(name, id) + "/startedat"@
    }

    pub fn upload_start_date_path(&self, name: &str, id: &str) -> (r: String)
        ensures
            r@ == self.spec_upload_start_date_path(name@, id@),
    {
        let mut r = self.upload_start_date_container_dir(name, id);
        r.append("/startedat");
        r
    }

    pub open spec fn spec_manifests_root_dir(&self, namespace: Seq<char>) -> Seq<char> {
        self.spec_repository_dir() + "/"@ + namespace + "/_manifests"@
    }

    pub fn manifests_root_dir(&self, namespace: &str) -> (r: String)
        ensures
            r@ == self.spec_manifests_root_dir(namespace@),
    {
        let mut r = self.repository_dir();
        r.append("/");
        r.append(namespace);
        r.append("/_manifests");
        r
    }

    pub open spec fn spec_manifest_revisions_link_container_dir(
        &self,
        name: Seq<char>,
        digest: Digest,
    ) -> Seq<char> {
        self.spec_manifests_root_dir(name) + "/revisions/"@ + digest.algorithm.spec_name() + "/"@
            + digest.hash@
    }

    pub fn manifest_revisions_link_container_dir(&self, name: &str, digest: &Digest) -> (r: String)
        ensures
            r@ == self.spec_manifest_revisions_link_container_dir(name@, *digest),
    {
        let mut r = self.manifests_root_dir(name);
        r.append("/revisions/");
        r.append(digest.algorithm().name());
        r.append("/");
        r.append(digest.hash());
        r
    }

    pub open spec fn spec_manifest_revisions_link_path(
        &self,
        name: Seq<char>,
        digest: Digest,
    ) -> Seq<char> {
        self.spec_manifest_revisions_link_container_dir(name, digest) + "/link"@
    }

    pub fn manifest_revisions_link_path(&self, name: &str, digest: &Digest) -> (r: String)
        ensures
            r@ == self.spec_manifest_revisions_link_path(name@, *digest),
    {
        let mut r = self.manifest_revisions_link_container_dir(name, digest);
        r.append("/link");
        r
    }

    pub open spec fn spec_layers_root_dir(&self, namespace: Seq<char>) -> Seq<char> {
        self.spec_repository_dir() + "/"@ + namespace + "/_layers"@
    }

    pub fn layers_root_dir(&self, namespace: &str) -> (r: String)
        ensures
            r@ == self.spec_layers_root_dir(namespace@),
    {
        let mut r = self.repository_dir();
        r.append("/");
        r.append(namespace);
        r.append("/_layers");
        r
    }

    pub open spec fn spec_manifest_layer_link_container_dir(
        &self,
        name: Seq<char>,
        digest: Digest,
    ) -> Seq<char> {
        self.spec_layers_root_dir(name) + "/"@ + digest.algorithm.spec_name() + "/"@
            + digest.hash@
    }

    pub fn manifest_layer_link_container_dir(&self, name: &str, digest: &Digest) -> (r: String)
        ensures
            r@ == self.spec_manifest_layer_link_container_dir(name@, *digest),
    {
        let mut r = self.layers_root_dir(name);
        r.append("/");
        r.append(digest.algorithm().name());
        r.append("/");
        r.append(digest.hash());
        r
    }

    pub open spec fn spec_manifest_layer_link_path(
        &self,
        name: Seq<char>,
        digest: Digest,
    ) -> Seq<char> {
        self.spec_manifest_layer_link_container_dir(name, digest) + "/link"@
    }

    pub fn manifest_layer_link_path(&self, name: &str, digest: &Digest) -> (r: String)
        ensures
            r@ == self.spec_manifest_layer_link_path(name@, *digest),
    {
        let mut r = self.manifest_layer_link_container_dir(name, digest);
        r.append("/link");
        r
    }

    pub open spec fn spec_manifest_referrers_dir(
        &self,
        name: Seq<char>,
        subject: Digest,
    ) -> Seq<char> {
        self.spec_manifests_root_dir(name) + "/referrers/"@ + subject.algorithm.spec_name() + "/"@
            + subject.hash@
    }

    pub fn manifest_referrers_dir(&self, name: &str, subject: &Digest) -> (r: String)
        ensures
            r@ == self.spec_manifest_referrers_dir(name@, *subject),
    {
        let mut r = self.manifests_root_dir(name);
        r.append("/referrers/");
        r.append(subject.algorithm().name());
        r.append("/");
        r.append(subject.hash());
        r
    }

    pub open spec fn spec_manifest_referrer_link_container_dir(
        &self,
        name: Seq<char>,
        subject: Digest,
        referrer: Digest,
    ) -> Seq<char> {
        self.spec_manifest_referrers_dir(name, subject) + "/"@ + referrer.spec_canonical()
    }

    pub fn manifest_referrer_link_container_dir(
        &self,
        name: &str,
        subject: &Digest,
        referrer: &Digest,
    ) -> (r: String)
        ensures
            r@ == self.spec_manifest_referrer_link_container_dir(name@, *subject, *referrer),
    {
        let mut r = self.manifest_referrers_dir(name, subject);
        r.append("/");
        r.append(referrer.canonical().as_str());
        r
    }

    pub open spec fn spec_manifest_referrer_link_path(
        &self,
        name: Seq<char>,
        subject: Digest,
        referrer: Digest,
    ) -> Seq<char> {
        self.spec_manifest_referrer_link_container_dir(name, subject, referrer) + "/link"@
    }

    pub fn manifest_referrer_link_path(&self, name: &str, subject: &Digest, referrer: &Digest) -> (
        r: String)
        ensures
            r@ == self.spec_manifest_referrer_link_path(name@, *subject, *referrer),
    {
        let mut r = self.manifest_referrer_link_container_dir(name, subject, referrer);
        r.append("/link");
        r
    }

    pub open spec fn spec_manifest_tags_dir(&self, namespace: Seq<char>) -> Seq<char> {
        self.spec_manifests_root_dir(namespace) + "/tags"@
    }

    pub fn manifest_tags_dir(&self, namespace: &str) -> (r: String)
        ensures
            r@ == self.spec_manifest_tags_dir(namespace@),
    {
        let mut r = self.manifests_root_dir(namespace);
        r.append("/tags");
        r
    }

    pub open spec fn spec_manifest_tag_link_container_dir(
        &self,
        namespace: Seq<char>,
        tag: Seq<char>,
    ) -> Seq<char> {
        self.spec_manifests_root_dir(namespace) + "/tags/"@ + tag
    }

    pub fn manifest_tag_link_container_dir(&self, namespace: &str, tag: &str) -> (r: String)
        ensures
            r@ == self.spec_manifest_tag_link_container_dir(namespace@, tag@),
    {
        let mut r = self.manifests_root_dir(namespace);
        r.append("/tags/");
        r.append(tag);
        r
    }

    pub open spec fn spec_manifest_tag_link_parent_dir(
        &self,
        namespace: Seq<char>,
        tag: Seq<char>,
    ) -> Seq<char> {
        self.spec_manifest_tag_link_container_dir(namespace, tag) + "/current"@
    }

    pub fn manifest_tag_link_parent_dir(&self, namespace: &str, tag: &str) -> (r: String)
        ensures
            r@ == self.spec_manifest_tag_link_parent_dir(namespace@, tag@),
    {
        let mut r = self.manifest_tag_link_container_dir(namespace, tag);
        r.append("/current");
        r
    }

    pub open spec fn spec_manifest_tag_link_path(
        &self,
        namespace: Seq<char>,
        tag: Seq<char>,
    ) -> Seq<char> {
        self.spec_manifest_tag_link_parent_dir(namespace, tag) + "/link"@
    }

    pub fn manifest_tag_link_path(&self, namespace: &str, tag: &str) -> (r: String)
        ensures
            r@ == self.spec_manifest_tag_link_path(namespace@, tag@),
    {
        let mut r = self.manifest_tag_link_parent_dir(namespace, tag);
        r.append("/link");
        r
    }

    /// Path of the link file for a reference, by its kind.
    pub open spec fn spec_get_link_path(
        &self,
        reference: LinkReference,
        name: Seq<char>,
    ) -> Seq<char> {
        match reference {
            LinkReference::Tag(tag) => self.spec_manifest_tag_link_path(name, tag@),
            LinkReference::Digest(digest) => self.spec_manifest_revisions_link_path(name, digest),
            LinkReference::Layer(digest) => self.spec_manifest_layer_link_path(name, digest),
            LinkReference::Referrer(subject, referrer) => self.spec_manifest_referrer_link_path(
                name,
                subject,
                referrer,
            ),
        }
    }

    pub fn get_link_path(&self, reference: &LinkReference, name: &str) -> (r: String)
        ensures
            r@ == self.spec_get_link_path(*reference, name@),
    {
        match reference {
            LinkReference::Tag(tag) => self.manifest_tag_link_path(name, tag.as_str()),
            LinkReference::Digest(digest) => self.manifest_revisions_link_path(name, digest),
            LinkReference::Layer(digest) => self.manifest_layer_link_path(name, digest),
            LinkReference::Referrer(subject, referrer) => self.manifest_referrer_link_path(
                name,
                subject,
                referrer,
            ),
        }
    }

    /// Directory whose removal erases the link, by its kind: for a tag the
    /// `current` pointer directory, else the link's container.
    pub open spec fn spec_get_link_parent_path(
        &self,
        reference: LinkReference,
        name: Seq<char>,
    ) -> Seq<char> {
        match reference {
            LinkReference::Tag(tag) => self.spec_manifest_tag_link_parent_dir(name, tag@),
            _ => self.spec_get_link_container_path(reference, name),
        }
    }

    pub fn get_link_parent_path(&self, reference: &LinkReference, name: &str) -> (r: String)
        ensures
            r@ == self.spec_get_link_parent_path(*reference, name@),
    {
        match reference {
            LinkReference::Tag(tag) => self.manifest_tag_link_parent_dir(name, tag.as_str()),
            _ => self.get_link_container_path(reference, name),
        }
    }

    pub open spec fn spec_get_link_container_path(
        &self,
        reference: LinkReference,
        name: Seq<char>,
    ) -> Seq<char> {
        match reference {
            LinkReference::Tag(tag) => self.spec_manifest_tag_link_container_dir(name, tag@),
            LinkReference::Digest(digest) => self.spec_manifest_revisions_link_container_dir(
                name,
                digest,
            ),
            LinkReference::Layer(digest) => self.spec_manifest_layer_link_container_dir(
                name,
                digest,
            ),
            LinkReference::Referrer(subject, referrer) => self
                .spec_manifest_referrer_link_container_dir(name, subject, referrer),
        }
    }

    pub fn get_link_container_path(&self, reference: &LinkReference, name: &str) -> (r: String)
        ensures
            r@ == self.spec_get_link_container_path(*reference, name@),
    {
        match reference {
            LinkReference::Tag(tag) => self.manifest_tag_link_container_dir(name, tag.as_str()),
            LinkReference::Digest(digest) => self.manifest_revisions_link_container_dir(
                name,
                digest,
            ),
            LinkReference::Layer(digest) => self.manifest_layer_link_container_dir(name, digest),
            LinkReference::Referrer(subject, referrer) => self
                .manifest_referrer_link_container_dir(name, subject, referrer),
        }
    }
}

/// The checkpoint offsets named by the entries of a hash-state
/// directory, sorted ascending; an entry whose name is not a decimal
/// offset is ignored.
pub fn hashstate_offsets(names: &Vec<String>) -> (r: Vec<u64>)
    ensures
        sorted_u64(r@),
        forall|v: u64|
            u64_set(r@).contains(v) <==> exists|j: int|
                0 <= j < names@.len() && is_dec_str(#[trigger] names.deep_view()[j]) && dec_val(
                    names.deep_view()[j],
                ) == v,
{
    let mut offsets: Vec<u64> = Vec::new();
    let n = names.len();
    let mut i: usize = 0;
    while i < n
        invariant
            0 <= i <= n,
            n == names@.len(),
            sorted_u64(offsets@),
            forall|v: u64|
                u64_set(offsets@).contains(v) <==> exists|j: int|
                    0 <= j < i && is_dec_str(#[trigger] names.deep_view()[j]) && dec_val(
                        names.deep_view()[j],
                    ) == v,
        decreases n - i,
    {
        match parse_u64(names[i].as_str()) {
            Some(v) => {
                insert_sorted_unique_u64(&mut offsets, v);
                proof {
                    assert(is_dec_str(names.deep_view()[i as int]) && dec_val(
                        names.deep_view()[i as int],
                    ) == v);
                }
            },
            None => {
                proof {
                    assert(!is_dec_str(names.deep_view()[i as int]) || dec_val(
                        names.deep_view()[i as int],
                    ) > u64::MAX);
                }
            },
        }
        i = i + 1;
    }
    offsets
}

} // verus!
