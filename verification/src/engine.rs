//! The storage engine: blob, link and upload-session state with the
//! operation contracts of the storage layer. Blobs are keyed by their
//! canonical digest string; links map a namespace-scoped reference to a
//! digest; sessions are keyed by an engine-assigned identifier.

use vstd::hash_map::{HashMapWithView, StringHashMap};
use vstd::prelude::*;
use vstd::slice::slice_to_vec;

use crate::digest::{digest_view_canonical, spec_sha256_digest_str, Digest, DigestView};
use crate::error::RegistryError;
use crate::link::{
    digest_view_eq, lemma_links_map_from_entries, lemma_links_map_value, link_key, referrer_key,
    LinkRefView, LinkReference, LinkTable,
};
use crate::listing::{insert_sorted_unique, name_set, sorted_strict};
use crate::text::str_eq;
use crate::upload::UploadSession;

verus! {

broadcast use vstd::std_specs::hash::group_hash_axioms;

/// What a progress query may report: success exactly for a session of
/// the given namespace, carrying the byte count it has received so far.
pub open spec fn upload_range_max_post(
    e: StorageEngine,
    namespace: Seq<char>,
    id: u64,
    r: Result<u64, RegistryError>,
) -> bool {
    match r {
        Ok(n) => e.uploads@.contains_key(id) && e.uploads@[id].namespace@ == namespace && n
            == e.uploads@[id].data@.len(),
        Err(er) => !(e.uploads@.contains_key(id) && e.uploads@[id].namespace@ == namespace)
            && er is UploadUnknown,
    }
}

/// The set of namespaces holding any link whose target is the digest:
/// the blob's current reference set, as recomputed from link state.
pub open spec fn spec_referencing(
    m: Map<(Seq<char>, LinkRefView), DigestView>,
    d: DigestView,
) -> Set<Seq<char>> {
    Set::new(
        |ns: Seq<char>|
            exists|k: (Seq<char>, LinkRefView)|
                #[trigger] m.dom().contains(k) && k.0 == ns && m[k] == d,
    )
}

/// The referrer digests recorded for a subject in a namespace, in entry
/// order.
pub open spec fn referrers_in(
    s: Seq<crate::link::LinkEntry>,
    ns: Seq<char>,
    subject: DigestView,
) -> Seq<DigestView>
    decreases s.len(),
{
    if s.len() == 0 {
        Seq::empty()
    } else {
        referrers_in(s.drop_last(), ns, subject) + (match s.last().reference@ {
            LinkRefView::Referrer(subj, r) => if s.last().namespace@ == ns && subj == subject {
                seq![r]
            } else {
                Seq::empty()
            },
            _ => Seq::empty(),
        })
    }
}

/// A digest is among the recorded referrers exactly when some entry holds
/// its referrer key.
pub proof fn lemma_referrers_in_iff(
    s: Seq<crate::link::LinkEntry>,
    ns: Seq<char>,
    subject: DigestView,
    d: DigestView,
)
    ensures
        referrers_in(s, ns, subject).contains(d) <==> exists|j: int|
            0 <= j < s.len() && link_key(#[trigger] s[j]) == referrer_key(ns, subject, d),
    decreases s.len(),
{
    if s.len() > 0 {
        lemma_referrers_in_iff(s.drop_last(), ns, subject, d);
        let head = referrers_in(s.drop_last(), ns, subject);
        let whole = referrers_in(s, ns, subject);
        if head.contains(d) {
            let x = choose|x: int| 0 <= x < head.len() && head[x] == d;
            assert(whole[x] == d);
            let j = choose|j: int|
                0 <= j < s.drop_last().len() && link_key(#[trigger] s.drop_last()[j])
                    == referrer_key(ns, subject, d);
            assert(s.drop_last()[j] == s[j]);
        }
        if link_key(s.last()) == referrer_key(ns, subject, d) {
            assert(whole.last() == d);
            assert(whole.contains(d));
            assert(link_key(s[s.len() - 1]) == referrer_key(ns, subject, d));
        }
        if whole.contains(d) {
            let x = choose|x: int| 0 <= x < whole.len() && whole[x] == d;
            if x < head.len() {
                assert(head[x] == d);
            } else {
                assert(link_key(s[s.len() - 1]) == referrer_key(ns, subject, d));
            }
        }
        if exists|j: int|
            0 <= j < s.len() && link_key(#[trigger] s[j]) == referrer_key(ns, subject, d) {
            let j = choose|j: int|
                0 <= j < s.len() && link_key(#[trigger] s[j]) == referrer_key(ns, subject, d);
            if j < s.len() - 1 {
                assert(s.drop_last()[j] == s[j]);
                let x = choose|x: int| 0 <= x < head.len() && head[x] == d;
                assert(whole[x] == d);
            }
        }
    }
}

pub struct StorageEngine {
    pub blobs: StringHashMap<Vec<u8>>,
    pub links: LinkTable,
    pub uploads: HashMapWithView<u64, UploadSession>,
    pub next_upload_id: u64,
}

impl StorageEngine {
    pub open spec fn wf(&self) -> bool {
        &&& self.links.wf()
        &&& forall|id: u64|
            #[trigger] self.uploads@.contains_key(id) ==> self.uploads@[id].wf() && id
                < self.next_upload_id
    }

    /// Blob store as a map from canonical digest string to content bytes.
    pub open spec fn spec_blobs(&self) -> Map<Seq<char>, Seq<u8>> {
        Map::new(|k: Seq<char>| self.blobs@.dom().contains(k), |k: Seq<char>| self.blobs@[k]@)
    }

    /// Link table as a map from (namespace, reference) to target digest.
    pub open spec fn spec_links(&self) -> Map<(Seq<char>, LinkRefView), crate::digest::DigestView> {
        self.links@
    }

    pub fn new() -> (r: Self)
        ensures
            r.wf(),
            r.spec_blobs() =~= Map::<Seq<char>, Seq<u8>>::empty(),
            r.spec_links() == Map::<(Seq<char>, LinkRefView), crate::digest::DigestView>::empty(),
            r.uploads@ == Map::<u64, UploadSession>::empty(),
            r.next_upload_id == 0,
    {
        let r = StorageEngine {
            blobs: StringHashMap::new(),
            links: LinkTable::new(),
            uploads: HashMapWithView::new(),
            next_upload_id: 0,
        };
        proof {
            assert(r.spec_blobs() =~= Map::<Seq<char>, Seq<u8>>::empty());
        }
        r
    }

    /// Whether a blob with this digest is stored.
    pub fn blob_exists(&self, digest: &Digest) -> (r: bool)
        ensures
            r == self.spec_blobs().contains_key(digest.spec_canonical()),
    {
        let key = digest.canonical();
        self.blobs.contains_key(key.as_str())
    }

    /// Size of a stored blob; `BlobUnknown` when absent.
    pub fn get_blob_size(&self, digest: &Digest) -> (r: Result<u64, RegistryError>)
        ensures
            match r {
                Ok(n) => self.spec_blobs().contains_key(digest.spec_canonical()) && n
                    == self.spec_blobs()[digest.spec_canonical()].len(),
                Err(e) => !self.spec_blobs().contains_key(digest.spec_canonical())
                    && e is BlobUnknown,
            },
    {
        let key = digest.canonical();
        match self.blobs.get(key.as_str()) {
            Some(v) => Ok(v.len() as u64),
            None => Err(RegistryError::BlobUnknown),
        }
    }

    /// Content of a stored blob; `BlobUnknown` when absent.
    pub fn read_blob(&self, digest: &Digest) -> (r: Result<Vec<u8>, RegistryError>)
        ensures
            match r {
                Ok(v) => self.spec_blobs().contains_key(digest.spec_canonical()) && v@
                    == self.spec_blobs()[digest.spec_canonical()],
                Err(e) => !self.spec_blobs().contains_key(digest.spec_canonical())
                    && e is BlobUnknown,
            },
    {
        let key = digest.canonical();
        match self.blobs.get(key.as_str()) {
            Some(v) => Ok(slice_to_vec(v.as_slice())),
            None => Err(RegistryError::BlobUnknown),
        }
    }

    /// Commits content under its canonical digest key. The canonical path
    /// only ever carries fully written content.
    pub fn put_blob(&mut self, digest: &Digest, data: Vec<u8>)
        requires
            old(self).wf(),
        ensures
            final(self).wf(),
            final(self).spec_blobs() == old(self).spec_blobs().insert(
                digest.spec_canonical(),
                data@,
            ),
            final(self).spec_links() == old(self).spec_links(),
            final(self).uploads@ == old(self).uploads@,
            final(self).next_upload_id == old(self).next_upload_id,
    {
        let key = digest.canonical();
        self.blobs.insert(key, data);
        proof {
            assert(self.spec_blobs() =~= old(self).spec_blobs().insert(
                digest.spec_canonical(),
                data@,
            ));
        }
    }

    /// Unlinks a blob; `BlobUnknown` when absent.
    pub fn delete_blob(&mut self, digest: &Digest) -> (r: Result<(), RegistryError>)
        requires
            old(self).wf(),
        ensures
            final(self).wf(),
            final(self).spec_links() == old(self).spec_links(),
            final(self).uploads@ == old(self).uploads@,
            final(self).next_upload_id == old(self).next_upload_id,
            match r {
                Ok(()) => old(self).spec_blobs().contains_key(digest.spec_canonical())
                    && final(self).spec_blobs() == old(self).spec_blobs().remove(
                    digest.spec_canonical(),
                ),
                Err(e) => !old(self).spec_blobs().contains_key(digest.spec_canonical())
                    && e is BlobUnknown && final(self).spec_blobs() == old(self).spec_blobs(),
            },
    {
        let key = digest.canonical();
        if self.blobs.contains_key(key.as_str()) {
            self.blobs.remove(key.as_str());
            proof {
                assert(self.spec_blobs() =~= old(self).spec_blobs().remove(
                    digest.spec_canonical(),
                ));
            }
            Ok(())
        } else {
            proof {
                assert(self.spec_blobs() =~= old(self).spec_blobs());
            }
            Err(RegistryError::BlobUnknown)
        }
    }

    /// Opens a new upload session and returns its fresh identifier.
    pub fn create_upload(&mut self, namespace: &str, started_at: u64) -> (id: u64)
        requires
            old(self).wf(),
            old(self).next_upload_id < u64::MAX,
        ensures
            final(self).wf(),
            !old(self).uploads@.contains_key(id),
            final(self).uploads@ == old(self).uploads@.insert(id, final(self).uploads@[id]),
            final(self).uploads@.contains_key(id),
            final(self).uploads@[id].namespace@ == namespace@,
            final(self).uploads@[id].data@ == Seq::<u8>::empty(),
            final(self).uploads@[id].started_at == started_at,
            final(self).spec_blobs() == old(self).spec_blobs(),
            final(self).spec_links() == old(self).spec_links(),
    {
        let id = self.next_upload_id;
        let session = UploadSession::new(String::from_str(namespace), started_at);
        self.uploads.insert(id, session);
        self.next_upload_id = id + 1;
        id
    }

    /// Appends a chunk to a session. The start offset, when given, must be
    /// exactly the bytes already received; a non-contiguous offset is
    /// rejected without touching the session. Returns the new max offset.
    pub fn patch_upload(
        &mut self,
        namespace: &str,
        id: u64,
        expected_offset: Option<u64>,
        bytes: &[u8],
    ) -> (r: Result<u64, RegistryError>)
        requires
            old(self).wf(),
        ensures
            final(self).wf(),
            final(self).spec_blobs() == old(self).spec_blobs(),
            final(self).spec_links() == old(self).spec_links(),
            final(self).next_upload_id == old(self).next_upload_id,
            match r {
                Ok(n) => {
                    &&& old(self).uploads@.contains_key(id)
                    &&& old(self).uploads@[id].namespace@ == namespace@
                    &&& (expected_offset matches Some(o) ==> o == old(self).uploads@[id].data@.len())
                    &&& final(self).uploads@ == old(self).uploads@.insert(
                        id,
                        final(self).uploads@[id],
                    )
                    &&& final(self).uploads@[id].data@ == old(self).uploads@[id].data@ + bytes@
                    &&& final(self).uploads@[id].namespace@ == namespace@
                    &&& final(self).uploads@[id].started_at == old(self).uploads@[id].started_at
                    &&& n == old(self).uploads@[id].data@.len() + bytes@.len()
                },
                Err(RegistryError::UploadUnknown) => {
                    &&& !(old(self).uploads@.contains_key(id) && old(self).uploads@[id].namespace@
                        == namespace@)
                    &&& final(self).uploads@ == old(self).uploads@
                },
                Err(RegistryError::RangeNotSatisfiable) => {
                    &&& old(self).uploads@.contains_key(id)
                    &&& old(self).uploads@[id].namespace@ == namespace@
                    &&& expected_offset matches Some(o) && o != old(self).uploads@[id].data@.len()
                    &&& final(self).uploads@ == old(self).uploads@
                },
                Err(_) => false,
            },
    {
        let session = match self.uploads.remove(&id) {
            Some(s) => s,
            None => {
                return Err(RegistryError::UploadUnknown);
            },
        };
        if !str_eq(session.namespace.as_str(), namespace) {
            self.uploads.insert(id, session);
            proof {
                assert(self.uploads@ =~= old(self).uploads@);
            }
            return Err(RegistryError::UploadUnknown);
        }
        if let Some(o) = expected_offset {
            if o != session.range_max() {
                self.uploads.insert(id, session);
                proof {
                    assert(self.uploads@ =~= old(self).uploads@);
                }
                return Err(RegistryError::RangeNotSatisfiable);
            }
        }
        let mut session = session;
        session.append_chunk(bytes);
        let n = session.range_max();
        self.uploads.insert(id, session);
        Ok(n)
    }

    /// Read-only: the current max offset of a session.
    pub fn upload_range_max(&self, namespace: &str, id: u64) -> (r: Result<u64, RegistryError>)
        ensures
            upload_range_max_post(*self, namespace@, id, r),
    {
        match self.uploads.get(&id) {
            Some(s) => {
                if str_eq(s.namespace.as_str(), namespace) {
                    Ok(s.range_max())
                } else {
                    Err(RegistryError::UploadUnknown)
                }
            },
            None => Err(RegistryError::UploadUnknown),
        }
    }

    /// Completes a session: appends any final bytes, recomputes the
    /// digest from the nearest checkpoint, and on a match commits the
    /// bytes as a blob and destroys the session. On a mismatch the
    /// session is kept, final bytes included, so the caller may retry.
    pub fn complete_upload(
        &mut self,
        namespace: &str,
        id: u64,
        claimed: &Digest,
        final_bytes: &[u8],
    ) -> (r: Result<(), RegistryError>)
        requires
            old(self).wf(),
            claimed.wf(),
        ensures
            final(self).wf(),
            final(self).spec_links() == old(self).spec_links(),
            final(self).next_upload_id == old(self).next_upload_id,
            match r {
                Ok(()) => {
                    let data = old(self).uploads@[id].data@ + final_bytes@;
                    &&& old(self).uploads@.contains_key(id)
                    &&& old(self).uploads@[id].namespace@ == namespace@
                    &&& digest_view_canonical(claimed@) == spec_sha256_digest_str(data)
                    &&& final(self).spec_blobs() == old(self).spec_blobs().insert(
                        spec_sha256_digest_str(data),
                        data,
                    )
                    &&& final(self).uploads@ == old(self).uploads@.remove(id)
                },
                Err(RegistryError::DigestInvalid) => {
                    let data = old(self).uploads@[id].data@ + final_bytes@;
                    &&& old(self).uploads@.contains_key(id)
                    &&& old(self).uploads@[id].namespace@ == namespace@
                    &&& digest_view_canonical(claimed@) != spec_sha256_digest_str(data)
                    &&& final(self).spec_blobs() == old(self).spec_blobs()
                    &&& final(self).uploads@ == old(self).uploads@.insert(
                        id,
                        final(self).uploads@[id],
                    )
                    &&& final(self).uploads@.contains_key(id)
                    &&& final(self).uploads@[id].data@ == data
                    &&& final(self).uploads@[id].namespace@ == namespace@
                },
                Err(RegistryError::UploadUnknown) => {
                    &&& !(old(self).uploads@.contains_key(id) && old(self).uploads@[id].namespace@
                        == namespace@)
                    &&& final(self).spec_blobs() == old(self).spec_blobs()
                    &&& final(self).uploads@ == old(self).uploads@
                },
                Err(_) => false,
            },
    {
        let session = match self.uploads.remove(&id) {
            Some(s) => s,
            None => {
                return Err(RegistryError::UploadUnknown);
            },
        };
        if !str_eq(session.namespace.as_str(), namespace) {
            self.uploads.insert(id, session);
            proof {
                assert(self.uploads@ =~= old(self).uploads@);
            }
            return Err(RegistryError::UploadUnknown);
        }
        let mut session = session;
        session.append_tail(final_bytes);
        let computed = session.compute_digest();
        if computed.same_as(claimed) {
            proof {
                assert(digest_view_canonical(claimed@) == digest_view_canonical(computed@));
            }
            self.put_blob(claimed, session.data);
            Ok(())
        } else {
            proof {
                if digest_view_canonical(claimed@) == digest_view_canonical(computed@) {
                    crate::digest::lemma_canonical_injective(*claimed, computed);
                }
            }
            self.uploads.insert(id, session);
            Err(RegistryError::DigestInvalid)
        }
    }

    /// Destroys a session and its checkpoints; fails when it is absent.
    pub fn delete_upload(&mut self, namespace: &str, id: u64) -> (r: Result<(), RegistryError>)
        requires
            old(self).wf(),
        ensures
            final(self).wf(),
            final(self).spec_blobs() == old(self).spec_blobs(),
            final(self).spec_links() == old(self).spec_links(),
            final(self).next_upload_id == old(self).next_upload_id,
            match r {
                Ok(()) => old(self).uploads@.contains_key(id) && old(self).uploads@[id].namespace@
                    == namespace@ && final(self).uploads@ == old(self).uploads@.remove(id),
                Err(e) => !(old(self).uploads@.contains_key(id)
                    && old(self).uploads@[id].namespace@ == namespace@) && e is UploadUnknown
                    && final(self).uploads@ == old(self).uploads@,
            },
    {
        let session = match self.uploads.remove(&id) {
            Some(s) => s,
            None => {
                return Err(RegistryError::UploadUnknown);
            },
        };
        if !str_eq(session.namespace.as_str(), namespace) {
            self.uploads.insert(id, session);
            proof {
                assert(self.uploads@ =~= old(self).uploads@);
            }
            return Err(RegistryError::UploadUnknown);
        }
        Ok(())
    }

    /// Writes or overwrites a link (last write wins).
    pub fn write_link(&mut self, namespace: &str, reference: LinkReference, target: Digest)
        requires
            old(self).wf(),
            target.wf(),
        ensures
            final(self).wf(),
            final(self).spec_links() == old(self).spec_links().insert(
                (namespace@, reference@),
                target@,
            ),
            final(self).spec_blobs() == old(self).spec_blobs(),
            final(self).uploads@ == old(self).uploads@,
            final(self).next_upload_id == old(self).next_upload_id,
    {
        self.links.write_link(namespace, reference, target);
    }

    /// Reads the target of a link, when it exists.
    pub fn read_link(&self, namespace: &str, reference: &LinkReference) -> (r: Option<Digest>)
        requires
            self.wf(),
        ensures
            match r {
                Some(d) => self.spec_links().contains_key((namespace@, reference@)) && d@
                    == self.spec_links()[(namespace@, reference@)] && d.wf(),
                None => !self.spec_links().contains_key((namespace@, reference@)),
            },
    {
        self.links.read_link(namespace, reference)
    }

    /// The tag names of a namespace, lexicographically sorted, free of
    /// duplicates, re-read from current link state.
    pub fn list_tag_names(&self, namespace: &str) -> (r: Vec<String>)
        requires
            self.wf(),
        ensures
            sorted_strict(r.deep_view()),
            forall|t: Seq<char>|
                name_set(r.deep_view()).contains(t) <==> self.spec_links().contains_key(
                    (namespace@, LinkRefView::Tag(t)),
                ),
    {
        let mut acc: Vec<String> = Vec::new();
        let n = self.links.entries.len();
        let mut i: usize = 0;
        while i < n
            invariant
                0 <= i <= n,
                n == self.links.entries@.len(),
                sorted_strict(acc.deep_view()),
                forall|t: Seq<char>|
                    name_set(acc.deep_view()).contains(t) <==> exists|j: int|
                        0 <= j < i && link_key(#[trigger] self.links.entries@[j]) == (
                        namespace@,
                        LinkRefView::Tag(t),
                        ),
            decreases n - i,
        {
            let e = &self.links.entries[i];
            if str_eq(e.namespace.as_str(), namespace) {
                if let LinkReference::Tag(t) = &e.reference {
                    insert_sorted_unique(&mut acc, t.clone());
                    proof {
                        assert(link_key(self.links.entries@[i as int]) == (
                            namespace@,
                            LinkRefView::Tag(t@),
                        ));
                    }
                }
            }
            i = i + 1;
        }
        proof {
            assert forall|t: Seq<char>|
                name_set(acc.deep_view()).contains(t) == self.spec_links().contains_key(
                    (namespace@, LinkRefView::Tag(t)),
                ) by {
                if name_set(acc.deep_view()).contains(t) {
                    let j = choose|j: int|
                        0 <= j < n && link_key(#[trigger] self.links.entries@[j]) == (
                        namespace@,
                        LinkRefView::Tag(t),
                        );
                    crate::link::lemma_links_map_covers(self.links.entries@, j);
                }
                if self.spec_links().contains_key((namespace@, LinkRefView::Tag(t))) {
                    lemma_links_map_from_entries(
                        self.links.entries@,
                        (namespace@, LinkRefView::Tag(t)),
                    );
                }
            }
        }
        acc
    }

    /// The namespaces that currently hold any link, lexicographically
    /// sorted and free of duplicates: the catalog.
    pub fn catalog_namespaces(&self) -> (r: Vec<String>)
        requires
            self.wf(),
        ensures
            sorted_strict(r.deep_view()),
            forall|ns: Seq<char>|
                name_set(r.deep_view()).contains(ns) <==> exists|k: (Seq<char>, LinkRefView)|
                    #[trigger] self.spec_links().dom().contains(k) && k.0 == ns,
    {
        let mut acc: Vec<String> = Vec::new();
        let n = self.links.entries.len();
        let mut i: usize = 0;
        while i < n
            invariant
                0 <= i <= n,
                n == self.links.entries@.len(),
                sorted_strict(acc.deep_view()),
                forall|ns: Seq<char>|
                    name_set(acc.deep_view()).contains(ns) <==> exists|j: int|
                        0 <= j < i && (#[trigger] self.links.entries@[j]).namespace@ == ns,
            decreases n - i,
        {
            let e = &self.links.entries[i];
            insert_sorted_unique(&mut acc, e.namespace.clone());
            i = i + 1;
        }
        proof {
            assert forall|ns: Seq<char>|
                name_set(acc.deep_view()).contains(ns) == exists|k: (Seq<char>, LinkRefView)|
                    #[trigger] self.spec_links().dom().contains(k) && k.0 == ns by {
                if name_set(acc.deep_view()).contains(ns) {
                    let j = choose|j: int|
                        0 <= j < n && (#[trigger] self.links.entries@[j]).namespace@ == ns;
                    crate::link::lemma_links_map_covers(self.links.entries@, j);
                    assert(self.spec_links().dom().contains(link_key(self.links.entries@[j])));
                }
                if exists|k: (Seq<char>, LinkRefView)|
                    #[trigger] self.spec_links().dom().contains(k) && k.0 == ns {
                    let k = choose|k: (Seq<char>, LinkRefView)|
                        #[trigger] self.spec_links().dom().contains(k) && k.0 == ns;
                    lemma_links_map_from_entries(self.links.entries@, k);
                }
            }
        }
        acc
    }

    /// The digests of the manifests recorded as referrers of a subject in
    /// a namespace.
    pub fn referrer_digests(&self, namespace: &str, subject: &Digest) -> (r: Vec<Digest>)
        requires
            self.wf(),
        ensures
            forall|d: DigestView|
                #![trigger referrer_key(namespace@, subject@, d)]
                r.deep_view().contains(d) <==> self.spec_links().contains_key(
                    referrer_key(namespace@, subject@, d),
                ),
    {
        let mut acc: Vec<Digest> = Vec::new();
        let n = self.links.entries.len();
        let mut i: usize = 0;
        proof {
            assert(self.links.entries@.take(0) =~= Seq::<crate::link::LinkEntry>::empty());
        }
        while i < n
            invariant
                0 <= i <= n,
                n == self.links.entries@.len(),
                acc.deep_view() == referrers_in(
                    self.links.entries@.take(i as int),
                    namespace@,
                    subject@,
                ),
            decreases n - i,
        {
            let e = &self.links.entries[i];
            let ghost prefix = self.links.entries@.take(i as int);
            proof {
                assert(self.links.entries@.take(i + 1).drop_last() =~= prefix);
                assert(self.links.entries@.take(i + 1).last() == self.links.entries@[i as int]);
            }
            let ghost prev = acc.deep_view();
            let mut pushed = false;
            if str_eq(e.namespace.as_str(), namespace) {
                if let LinkReference::Referrer(subj, referrer) = &e.reference {
                    if digest_view_eq(subj, subject) {
                        acc.push(referrer.clone());
                        pushed = true;
                        proof {
                            assert(acc.deep_view() =~= prev + seq![referrer@]);
                        }
                    }
                }
            }
            proof {
                if !pushed {
                    assert(acc.deep_view() =~= prev + Seq::<DigestView>::empty());
                }
            }
            i = i + 1;
        }
        proof {
            assert(self.links.entries@.take(n as int) =~= self.links.entries@);
            assert forall|d: DigestView|
                #![trigger referrer_key(namespace@, subject@, d)]
                acc.deep_view().contains(d) == self.spec_links().contains_key(
                    referrer_key(namespace@, subject@, d),
                ) by {
                lemma_referrers_in_iff(self.links.entries@, namespace@, subject@, d);
                if acc.deep_view().contains(d) {
                    let j = choose|j: int|
                        0 <= j < self.links.entries@.len() && link_key(
                            #[trigger] self.links.entries@[j],
                        ) == referrer_key(namespace@, subject@, d);
                    crate::link::lemma_links_map_covers(self.links.entries@, j);
                }
                if self.spec_links().contains_key(referrer_key(namespace@, subject@, d)) {
                    lemma_links_map_from_entries(
                        self.links.entries@,
                        referrer_key(namespace@, subject@, d),
                    );
                }
            }
        }
        acc
    }

    /// The set of namespaces that currently hold any link whose target is
    /// this digest, recomputed from link state: the blob's reference set.
    pub fn namespaces_referencing(&self, digest: &Digest) -> (r: Vec<String>)
        requires
            self.wf(),
        ensures
            sorted_strict(r.deep_view()),
            forall|ns: Seq<char>|
                #![trigger name_set(r.deep_view()).contains(ns)]
                name_set(r.deep_view()).contains(ns) <==> spec_referencing(
                    self.spec_links(),
                    digest@,
                ).contains(ns),
    {
        let mut acc: Vec<String> = Vec::new();
        let n = self.links.entries.len();
        let mut i: usize = 0;
        while i < n
            invariant
                0 <= i <= n,
                n == self.links.entries@.len(),
                self.wf(),
                sorted_strict(acc.deep_view()),
                forall|ns: Seq<char>|
                    name_set(acc.deep_view()).contains(ns) <==> exists|j: int|
                        0 <= j < i && (#[trigger] self.links.entries@[j]).namespace@ == ns
                            && self.links.entries@[j].target@ == digest@,
            decreases n - i,
        {
            let e = &self.links.entries[i];
            if digest_view_eq(&e.target, digest) {
                insert_sorted_unique(&mut acc, e.namespace.clone());
            }
            i = i + 1;
        }
        proof {
            assert forall|ns: Seq<char>|
                name_set(acc.deep_view()).contains(ns) == exists|k: (Seq<char>, LinkRefView)|
                    #[trigger] self.spec_links().dom().contains(k) && k.0 == ns
                        && self.spec_links()[k] == digest@ by {
                if name_set(acc.deep_view()).contains(ns) {
                    let j = choose|j: int|
                        0 <= j < n && (#[trigger] self.links.entries@[j]).namespace@ == ns
                            && self.links.entries@[j].target@ == digest@;
                    lemma_links_map_value(self.links.entries@, j);
                    assert(self.spec_links().dom().contains(link_key(self.links.entries@[j])));
                }
                if exists|k: (Seq<char>, LinkRefView)|
                    #[trigger] self.spec_links().dom().contains(k) && k.0 == ns
                        && self.spec_links()[k] == digest@ {
                    let k = choose|k: (Seq<char>, LinkRefView)|
                        #[trigger] self.spec_links().dom().contains(k) && k.0 == ns
                            && self.spec_links()[k] == digest@;
                    lemma_links_map_from_entries(self.links.entries@, k);
                    let j = choose|j: int|
                        0 <= j < self.links.entries@.len() && link_key(
                            #[trigger] self.links.entries@[j],
                        ) == k;
                    lemma_links_map_value(self.links.entries@, j);
                }
            }
        }
        acc
    }

    /// Deletes a link; reports whether it existed.
    pub fn delete_link(&mut self, namespace: &str, reference: &LinkReference) -> (r: bool)
        requires
            old(self).wf(),
        ensures
            final(self).wf(),
            final(self).spec_links() == old(self).spec_links().remove((namespace@, reference@)),
            r == old(self).spec_links().contains_key((namespace@, reference@)),
            final(self).spec_blobs() == old(self).spec_blobs(),
            final(self).uploads@ == old(self).uploads@,
            final(self).next_upload_id == old(self).next_upload_id,
    {
        self.links.delete_link(namespace, reference)
    }
}

} // verus!
