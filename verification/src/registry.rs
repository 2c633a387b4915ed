//! Registry orchestration over the storage engine: namespace validation,
//! blob reads with range handling, shared-blob delete protection, the
//! resumable upload flow, and paginated tag and catalog listings.
//!
//! Concurrent access is governed by the advisory per-digest reader/writer
//! locks of the lock table; the program driving these operations brackets
//! each one with the matching acquisition, readers for reads and a writer
//! for deletes.

use vstd::prelude::*;
use vstd::slice::slice_subrange;

use crate::digest::Digest;
use crate::engine::{spec_referencing, StorageEngine};
use crate::error::RegistryError;
use crate::link::{LinkRefView, LinkReference};
use crate::listing::{name_set, paginate, sorted_strict, spec_page};
use crate::text::{dec_of, str_eq, u64_to_dec};

verus! {

pub open spec fn is_name_char(c: char) -> bool {
    ('a' <= c && c <= 'z') || ('0' <= c && c <= '9')
}

pub open spec fn is_name_sep(c: char) -> bool {
    c == '.' || c == '_' || c == '-'
}

/// Namespace grammar: lowercase alphanumeric segments joined by single
/// `.`, `_` or `-` separators.
pub open spec fn is_valid_namespace(s: Seq<char>) -> bool {
    &&& s.len() > 0
    &&& is_name_char(s[0])
    &&& is_name_char(s[s.len() - 1])
    &&& forall|i: int| 0 <= i < s.len() ==> is_name_char(#[trigger] s[i]) || is_name_sep(s[i])
    &&& forall|i: int| 0 <= i < s.len() - 1 ==> !(is_name_sep(#[trigger] s[i]) && is_name_sep(s[i + 1]))
}

/// Outcome of a blob read: the whole content, a range of it, or an
/// explicit empty result.
#[derive(Debug)]
pub enum BlobData {
    Empty,
    Reader(Vec<u8>, u64),
    RangedReader(Vec<u8>, (u64, u64), u64),
}

#[derive(Debug)]
pub struct BlobSummary {
    pub digest: Digest,
    pub size: u64,
}

/// Outcome of starting an upload: an already-stored blob, or a new
/// session with its location path and identifier.
#[derive(Debug)]
pub enum NewUpload {
    ExistingBlob(Digest),
    Session(String, u64),
}

pub struct Registry {
    pub storage: StorageEngine,
}

/// Decides the namespace grammar.
pub fn namespace_ok(namespace: &str) -> (r: bool)
    ensures
        r == is_valid_namespace(namespace@),
{
    let n = namespace.unicode_len();
    if n == 0 {
        return false;
    }
    let mut i: usize = 0;
    let mut prev_sep = true;
    while i < n
        invariant
            0 <= i <= n,
            n == namespace@.len(),
            forall|j: int|
                0 <= j < i ==> is_name_char(#[trigger] namespace@[j]) || is_name_sep(
                    namespace@[j],
                ),
            forall|j: int|
                0 <= j < i - 1 ==> !(is_name_sep(#[trigger] namespace@[j]) && is_name_sep(
                    namespace@[j + 1],
                )),
            prev_sep == if i == 0 {
                true
            } else {
                is_name_sep(namespace@[i - 1])
            },
            i > 0 ==> is_name_char(namespace@[0]),
        decreases n - i,
    {
        let c = namespace.get_char(i);
        let is_char = ('a' <= c && c <= 'z') || ('0' <= c && c <= '9');
        let is_sep = c == '.' || c == '_' || c == '-';
        if !is_char && !is_sep {
            return false;
        }
        if is_sep && prev_sep {
            proof {
                if i == 0 {
                    assert(!is_name_char(namespace@[0]));
                }
            }
            return false;
        }
        prev_sep = is_sep;
        i = i + 1;
    }
    !prev_sep
}

impl Registry {
    pub open spec fn wf(&self) -> bool {
        self.storage.wf()
    }

    pub fn new() -> (r: Self)
        ensures
            r.wf(),
            r.storage.spec_blobs() =~= Map::<Seq<char>, Seq<u8>>::empty(),
            r.storage.spec_links() == Map::<
                (Seq<char>, LinkRefView),
                crate::digest::DigestView,
            >::empty(),
            r.storage.uploads@ == Map::<u64, crate::upload::UploadSession>::empty(),
            r.storage.next_upload_id == 0,
    {
        Registry { storage: StorageEngine::new() }
    }

    /// Checks a namespace against the naming grammar.
    pub fn validate_namespace(&self, namespace: &str) -> (r: Result<(), RegistryError>)
        ensures
            match r {
                Ok(()) => is_valid_namespace(namespace@),
                Err(e) => !is_valid_namespace(namespace@) && e is NameInvalid,
            },
    {
        if namespace_ok(namespace) {
            Ok(())
        } else {
            Err(RegistryError::NameInvalid)
        }
    }

    /// Digest and size of a stored blob.
    pub fn head_blob(&self, namespace: &str, digest: Digest) -> (r: Result<
        BlobSummary,
        RegistryError,
    >)
        ensures
            match r {
                Ok(s) => is_valid_namespace(namespace@) && self.storage.spec_blobs().contains_key(
                    digest.spec_canonical(),
                ) && s.size == self.storage.spec_blobs()[digest.spec_canonical()].len() && s.digest
                    == digest,
                Err(RegistryError::NameInvalid) => !is_valid_namespace(namespace@),
                Err(RegistryError::BlobUnknown) => is_valid_namespace(namespace@)
                    && !self.storage.spec_blobs().contains_key(digest.spec_canonical()),
                Err(_) => false,
            },
    {
        self.validate_namespace(namespace)?;
        let size = self.storage.get_blob_size(&digest)?;
        Ok(BlobSummary { digest, size })
    }

    /// Blob content, optionally restricted to a byte range. A range start
    /// beyond the total length is not satisfiable; the range end is
    /// clamped to the content.
    pub fn get_blob(&self, namespace: &str, digest: &Digest, range: Option<(u64, u64)>) -> (r:
        Result<BlobData, RegistryError>)
        ensures
            match r {
                Ok(b) => is_valid_namespace(namespace@) && self.storage.spec_blobs().contains_key(
                    digest.spec_canonical(),
                ) && ({
                    let content = self.storage.spec_blobs()[digest.spec_canonical()];
                    match range {
                        Some((start, end)) => b matches BlobData::RangedReader(v, se, total)
                            && se == (start, end) && total == content.len() && start
                            <= content.len() && v@ == content.subrange(
                            start as int,
                            if end >= content.len() {
                                content.len() as int
                            } else if start <= end {
                                end + 1
                            } else {
                                start as int
                            },
                        ),
                        None => b matches BlobData::Reader(v, total) && v@ == content && total
                            == content.len(),
                    }
                }),
                Err(RegistryError::NameInvalid) => !is_valid_namespace(namespace@),
                Err(RegistryError::BlobUnknown) => is_valid_namespace(namespace@)
                    && !self.storage.spec_blobs().contains_key(digest.spec_canonical()),
                Err(RegistryError::RangeNotSatisfiable) => is_valid_namespace(namespace@)
                    && self.storage.spec_blobs().contains_key(digest.spec_canonical()) && (
                range matches Some((start, _))
                    && start > self.storage.spec_blobs()[digest.spec_canonical()].len()),
                Err(_) => false,
            },
    {
        self.validate_namespace(namespace)?;
        let total_length = self.storage.get_blob_size(digest)?;
        if let Some((start, _)) = range {
            if start > total_length {
                return Err(RegistryError::RangeNotSatisfiable);
            }
        }
        let data = match self.storage.read_blob(digest) {
            Ok(d) => d,
            Err(_) => {
                // A missing backing file degrades a validated read to an
                // explicit empty result; with the sequential in-memory
                // state the size probe above rules this arm out, and the
                // contract proves it unreachable.
                return Ok(BlobData::Empty);
            },
        };
        match range {
            Some((start, end)) => {
                let len = data.len();
                let start_us = start as usize;
                let end_excl: usize = if end >= len as u64 {
                    len
                } else if start <= end {
                    (end + 1) as usize
                } else {
                    start_us
                };
                let part = slice_subrange(data.as_slice(), start_us, end_excl);
                let part = vstd::slice::slice_to_vec(part);
                Ok(BlobData::RangedReader(part, (start, end), total_length))
            },
            None => Ok(BlobData::Reader(data, total_length)),
        }
    }

    /// Deletes a blob, unless it is still referenced from another
    /// namespace: a blob shared across namespaces may not be removed
    /// through one of them.
    pub fn delete_blob(&mut self, namespace: &str, digest: Digest) -> (r: Result<
        (),
        RegistryError,
    >)
        requires
            old(self).wf(),
        ensures
            final(self).wf(),
            final(self).storage.spec_links() == old(self).storage.spec_links(),
            final(self).storage.uploads@ == old(self).storage.uploads@,
            match r {
                Ok(()) => is_valid_namespace(namespace@) && spec_referencing(
                    old(self).storage.spec_links(),
                    digest@,
                ).contains(namespace@) && !(exists|ns2: Seq<char>|
                    spec_referencing(old(self).storage.spec_links(), digest@)
                        .contains(ns2) && ns2 != namespace@) && old(self).storage.spec_blobs().contains_key(digest.spec_canonical()) && final(self).storage.spec_blobs() == old(self).storage.spec_blobs().remove(
                    digest.spec_canonical(),
                ),
                Err(RegistryError::NameInvalid) => !is_valid_namespace(namespace@) && final(self).storage.spec_blobs() == old(self).storage.spec_blobs(),
                Err(RegistryError::Denied) => is_valid_namespace(namespace@)
                    && spec_referencing(
                    old(self).storage.spec_links(),
                    digest@,
                ).contains(namespace@) && (exists|ns2: Seq<char>|
                    spec_referencing(old(self).storage.spec_links(), digest@)
                        .contains(ns2) && ns2 != namespace@) && final(self).storage.spec_blobs()
                    == old(self).storage.spec_blobs(),
                Err(RegistryError::BlobUnknown) => is_valid_namespace(namespace@) && (
                !spec_referencing(old(self).storage.spec_links(), digest@).contains(
                    namespace@,
                ) || !old(self).storage.spec_blobs().contains_key(digest.spec_canonical()))
                    && final(self).storage.spec_blobs() == old(self).storage.spec_blobs(),
                Err(_) => false,
            },
    {
        self.validate_namespace(namespace)?;
        let refs = self.storage.namespaces_referencing(&digest);
        let mut held_here = false;
        let mut i: usize = 0;
        let n = refs.len();
        while i < n
            invariant
                0 <= i <= n,
                n == refs@.len(),
                held_here == exists|j: int| 0 <= j < i && refs.deep_view()[j] == namespace@,
            decreases n - i,
        {
            if str_eq(refs[i].as_str(), namespace) {
                held_here = true;
                proof {
                    assert(refs.deep_view()[i as int] == namespace@);
                }
            } else {
                proof {
                    assert(refs.deep_view()[i as int] != namespace@);
                }
            }
            i = i + 1;
        }
        if !held_here {
            proof {
                if spec_referencing(self.storage.spec_links(), digest@).contains(
                    namespace@,
                ) {
                    assert(name_set(refs.deep_view()).contains(namespace@));
                    let j = choose|j: int|
                        0 <= j < refs.deep_view().len() && refs.deep_view()[j] == namespace@;
                }
            }
            return Err(RegistryError::BlobUnknown);
        }
        proof {
            let j = choose|j: int| 0 <= j < n && refs.deep_view()[j] == namespace@;
            assert(name_set(refs.deep_view()).contains(namespace@));
        }
        if refs.len() > 1 {
            proof {
                let s = refs.deep_view();
                assert(crate::text::lex_lt(s[0], s[1]));
                crate::text::lemma_lex_lt_irreflexive(s[0]);
                assert(s[0] != s[1]);
                assert(name_set(s).contains(s[0]));
                assert(name_set(s).contains(s[1]));
                if s[0] != namespace@ {
                    assert(spec_referencing(
                        self.storage.spec_links(),
                        digest@,
                    ).contains(s[0]));
                } else {
                    assert(spec_referencing(
                        self.storage.spec_links(),
                        digest@,
                    ).contains(s[1]));
                }
            }
            return Err(RegistryError::Denied);
        }
        proof {
            if exists|ns2: Seq<char>|
                spec_referencing(self.storage.spec_links(), digest@).contains(ns2)
                    && ns2 != namespace@ {
                let ns2 = choose|ns2: Seq<char>|
                    spec_referencing(self.storage.spec_links(), digest@).contains(
                        ns2,
                    ) && ns2 != namespace@;
                assert(name_set(refs.deep_view()).contains(ns2));
                let j = choose|j: int|
                    0 <= j < refs.deep_view().len() && refs.deep_view()[j] == ns2;
                let k = choose|k: int|
                    0 <= k < refs.deep_view().len() && refs.deep_view()[k] == namespace@;
                assert(refs.deep_view().len() == 1);
                assert(j == 0 && k == 0);
                assert(false);
            }
        }
        self.storage.delete_blob(&digest)?;
        Ok(())
    }

    /// Starts an upload. With a digest whose blob already exists the call
    /// short-circuits to that blob; otherwise a fresh session is opened
    /// and its location path returned.
    pub fn start_upload(&mut self, namespace: &str, digest: Option<Digest>, started_at: u64) -> (r:
        Result<NewUpload, RegistryError>)
        requires
            old(self).wf(),
            old(self).storage.next_upload_id < u64::MAX,
        ensures
            final(self).wf(),
            final(self).storage.spec_blobs() == old(self).storage.spec_blobs(),
            final(self).storage.spec_links() == old(self).storage.spec_links(),
            match r {
                Ok(NewUpload::ExistingBlob(d)) => is_valid_namespace(namespace@) && (
                digest matches Some(q) && d == q) && old(self).storage.spec_blobs().contains_key(
                    d.spec_canonical(),
                ) && final(self).storage.uploads@ == old(self).storage.uploads@,
                Ok(NewUpload::Session(location, id)) => is_valid_namespace(namespace@) && (
                match digest {
                    Some(q) => !old(self).storage.spec_blobs().contains_key(q.spec_canonical()),
                    None => true,
                }) && !old(self).storage.uploads@.contains_key(id) && final(self).storage.uploads@ == old(self).storage.uploads@.insert(
                    id,
                    final(self).storage.uploads@[id],
                ) && final(self).storage.uploads@.contains_key(id) && final(self).storage.uploads@[id].namespace@ == namespace@ && final(self).storage.uploads@[id].data@ == Seq::<u8>::empty() && final(self).storage.uploads@[id].started_at == started_at && location@ == "/v2/"@
                    + namespace@ + "/blobs/uploads/"@ + dec_of(id as nat),
                Err(e) => !is_valid_namespace(namespace@) && e is NameInvalid && final(self).storage.uploads@ == old(self).storage.uploads@,
            },
    {
        self.validate_namespace(namespace)?;
        if let Some(d) = digest {
            if self.storage.blob_exists(&d) {
                return Ok(NewUpload::ExistingBlob(d));
            }
            let id = self.storage.create_upload(namespace, started_at);
            let location = upload_location(namespace, id);
            return Ok(NewUpload::Session(location, id));
        }
        let id = self.storage.create_upload(namespace, started_at);
        let location = upload_location(namespace, id);
        Ok(NewUpload::Session(location, id))
    }

    /// Appends a chunk to an upload session; see the engine contract for
    /// the offset discipline.
    pub fn patch_upload(
        &mut self,
        namespace: &str,
        id: u64,
        start_offset: Option<u64>,
        bytes: &[u8],
    ) -> (r: Result<u64, RegistryError>)
        requires
            old(self).wf(),
        ensures
            final(self).wf(),
            final(self).storage.spec_blobs() == old(self).storage.spec_blobs(),
            final(self).storage.spec_links() == old(self).storage.spec_links(),
            match r {
                Ok(n) => {
                    &&& is_valid_namespace(namespace@)
                    &&& old(self).storage.uploads@.contains_key(id)
                    &&& old(self).storage.uploads@[id].namespace@ == namespace@
                    &&& (start_offset matches Some(o) ==> o == old(self).storage.uploads@[id].data@.len())
                    &&& final(self).storage.uploads@ == old(self).storage.uploads@.insert(
                        id,
                        final(self).storage.uploads@[id],
                    )
                    &&& final(self).storage.uploads@[id].data@ == old(self).storage.uploads@[id].data@ + bytes@
                    &&& n == old(self).storage.uploads@[id].data@.len() + bytes@.len()
                },
                Err(RegistryError::NameInvalid) => !is_valid_namespace(namespace@) && final(self).storage.uploads@ == old(self).storage.uploads@,
                Err(RegistryError::UploadUnknown) => is_valid_namespace(namespace@) && !(old(self).storage.uploads@.contains_key(id) && old(self).storage.uploads@[id].namespace@
                    == namespace@) && final(self).storage.uploads@ == old(self).storage.uploads@,
                Err(RegistryError::RangeNotSatisfiable) => is_valid_namespace(namespace@) && old(self).storage.uploads@.contains_key(id) && old(self).storage.uploads@[id].namespace@
                    == namespace@ && (start_offset matches Some(o) && o != old(self).storage.uploads@[id].data@.len()) && final(self).storage.uploads@ == old(self).storage.uploads@,
                Err(_) => false,
            },
    {
        self.validate_namespace(namespace)?;
        self.storage.patch_upload(namespace, id, start_offset, bytes)
    }

    /// Read-only progress report: the current max offset of a session.
    pub fn get_upload_range_max(&self, namespace: &str, id: u64) -> (r: Result<
        u64,
        RegistryError,
    >)
        ensures
            match r {
                Ok(n) => is_valid_namespace(namespace@) && self.storage.uploads@.contains_key(id)
                    && self.storage.uploads@[id].namespace@ == namespace@ && n
                    == self.storage.uploads@[id].data@.len(),
                Err(RegistryError::NameInvalid) => !is_valid_namespace(namespace@),
                Err(RegistryError::UploadUnknown) => is_valid_namespace(namespace@) && !(
                self.storage.uploads@.contains_key(id) && self.storage.uploads@[id].namespace@
                    == namespace@),
                Err(_) => false,
            },
    {
        self.validate_namespace(namespace)?;
        self.storage.upload_range_max(namespace, id)
    }

    /// Completes an upload: on a digest match the session bytes become a
    /// blob, a layer link records this namespace's reference to it, and
    /// the session is destroyed. On a mismatch the session survives.
    pub fn complete_upload(
        &mut self,
        namespace: &str,
        id: u64,
        claimed: Digest,
        final_bytes: &[u8],
    ) -> (r: Result<Digest, RegistryError>)
        requires
            old(self).wf(),
            claimed.wf(),
        ensures
            final(self).wf(),
            match r {
                Ok(d) => {
                    let data = old(self).storage.uploads@[id].data@ + final_bytes@;
                    &&& is_valid_namespace(namespace@)
                    &&& old(self).storage.uploads@.contains_key(id)
                    &&& old(self).storage.uploads@[id].namespace@ == namespace@
                    &&& crate::digest::digest_view_canonical(claimed@)
                        == crate::digest::spec_sha256_digest_str(data)
                    &&& d == claimed
                    &&& final(self).storage.spec_blobs() == old(self).storage.spec_blobs().insert(crate::digest::spec_sha256_digest_str(data), data)
                    &&& final(self).storage.uploads@ == old(self).storage.uploads@.remove(id)
                    &&& final(self).storage.spec_links() == old(self).storage.spec_links().insert(
                        (namespace@, LinkRefView::Layer(claimed@)),
                        claimed@,
                    )
                },
                Err(RegistryError::NameInvalid) => !is_valid_namespace(namespace@) && final(self).storage.spec_blobs() == old(self).storage.spec_blobs() && final(self).storage.uploads@ == old(self).storage.uploads@ && final(self).storage.spec_links() == old(self).storage.spec_links(),
                Err(RegistryError::UploadUnknown) => is_valid_namespace(namespace@) && !(old(self).storage.uploads@.contains_key(id) && old(self).storage.uploads@[id].namespace@
                    == namespace@) && final(self).storage.spec_blobs() == old(self).storage.spec_blobs() && final(self).storage.uploads@ == old(self).storage.uploads@ && final(self).storage.spec_links() == old(self).storage.spec_links(),
                Err(RegistryError::DigestInvalid) => {
                    let data = old(self).storage.uploads@[id].data@ + final_bytes@;
                    &&& is_valid_namespace(namespace@)
                    &&& old(self).storage.uploads@.contains_key(id)
                    &&& old(self).storage.uploads@[id].namespace@ == namespace@
                    &&& crate::digest::digest_view_canonical(claimed@)
                        != crate::digest::spec_sha256_digest_str(data)
                    &&& final(self).storage.spec_blobs() == old(self).storage.spec_blobs()
                    &&& final(self).storage.spec_links() == old(self).storage.spec_links()
                    &&& final(self).storage.uploads@.contains_key(id)
                    &&& final(self).storage.uploads@ == old(self).storage.uploads@.insert(
                        id,
                        final(self).storage.uploads@[id],
                    )
                    &&& final(self).storage.uploads@[id].data@ == data
                    &&& final(self).storage.uploads@[id].namespace@ == namespace@
                },
                Err(_) => false,
            },
    {
        self.validate_namespace(namespace)?;
        self.storage.complete_upload(namespace, id, &claimed, final_bytes)?;
        let link_target = claimed.clone();
        self.storage.write_link(namespace, LinkReference::Layer(claimed.clone()), link_target);
        Ok(claimed)
    }

    /// Destroys an upload session without completing it.
    pub fn delete_upload(&mut self, namespace: &str, id: u64) -> (r: Result<(), RegistryError>)
        requires
            old(self).wf(),
        ensures
            final(self).wf(),
            final(self).storage.spec_blobs() == old(self).storage.spec_blobs(),
            final(self).storage.spec_links() == old(self).storage.spec_links(),
            match r {
                Ok(()) => is_valid_namespace(namespace@) && old(self).storage.uploads@.contains_key(id) && old(self).storage.uploads@[id].namespace@
                    == namespace@ && final(self).storage.uploads@ == old(self).storage.uploads@.remove(id),
                Err(RegistryError::NameInvalid) => !is_valid_namespace(namespace@) && final(self).storage.uploads@ == old(self).storage.uploads@,
                Err(RegistryError::UploadUnknown) => is_valid_namespace(namespace@) && !(old(self).storage.uploads@.contains_key(id) && old(self).storage.uploads@[id].namespace@
                    == namespace@) && final(self).storage.uploads@ == old(self).storage.uploads@,
                Err(_) => false,
            },
    {
        self.validate_namespace(namespace)?;
        self.storage.delete_upload(namespace, id)
    }

    /// Paginated catalog of namespaces, lexicographically sorted, with an
    /// exclusive cursor.
    pub fn list_catalog(&self, n: Option<u32>, last: Option<&str>) -> (r: (
        Vec<String>,
        Option<String>,
    ))
        requires
            self.wf(),
        ensures
            ({
                let cur = match last {
                    Some(c) => Some(c@),
                    None => None,
                };
                (exists|all: Seq<Seq<char>>|
                    #![trigger sorted_strict(all)]
                    {
                        &&& sorted_strict(all)
                        &&& (forall|ns: Seq<char>|
                            #[trigger] name_set(all).contains(ns) <==> exists|k: (Seq<char>, LinkRefView)|
                                #[trigger] self.storage.spec_links().dom().contains(k) && k.0
                                    == ns)
                        &&& r.0.deep_view() == spec_page(all, n, cur).0
                        &&& (match r.1 {
                            Some(next) => spec_page(all, n, cur).1 && spec_page(all, n, cur).0.len()
                                > 0 && next@ == spec_page(all, n, cur).0.last(),
                            None => !spec_page(all, n, cur).1 || spec_page(all, n, cur).0.len()
                                == 0,
                        })
                    })
            }),
    {
        let all = self.storage.catalog_namespaces();
        let (page, next) = paginate(&all, n, last);
        proof {
            assert(sorted_strict(all.deep_view()));
        }
        (page, next)
    }

    /// Paginated tag listing of a namespace, lexicographically sorted,
    /// with an exclusive cursor.
    pub fn list_tags(&self, namespace: &str, n: Option<u32>, last: Option<&str>) -> (r: Result<
        (Vec<String>, Option<String>),
        RegistryError,
    >)
        requires
            self.wf(),
        ensures
            match r {
                Ok((page, next)) => is_valid_namespace(namespace@) && ({
                    let cur = match last {
                        Some(c) => Some(c@),
                        None => None,
                    };
                    (exists|all: Seq<Seq<char>>|
                        #![trigger sorted_strict(all)]
                        {
                            &&& sorted_strict(all)
                            &&& (forall|t: Seq<char>|
                                #[trigger] name_set(all).contains(t)
                                    <==> self.storage.spec_links().contains_key(
                                    (namespace@, LinkRefView::Tag(t)),
                                ))
                            &&& page.deep_view() == spec_page(all, n, cur).0
                            &&& (match next {
                                Some(nx) => spec_page(all, n, cur).1 && spec_page(
                                    all,
                                    n,
                                    cur,
                                ).0.len() > 0 && nx@ == spec_page(all, n, cur).0.last(),
                                None => !spec_page(all, n, cur).1 || spec_page(all, n, cur).0.len()
                                    == 0,
                            })
                        })
                }),
                Err(e) => !is_valid_namespace(namespace@) && e is NameInvalid,
            },
    {
        self.validate_namespace(namespace)?;
        let all = self.storage.list_tag_names(namespace);
        let (page, next) = paginate(&all, n, last);
        proof {
            assert(sorted_strict(all.deep_view()));
        }
        Ok((page, next))
    }
}

/// The location path of an upload session.
fn upload_location(namespace: &str, id: u64) -> (r: String)
    ensures
        r@ == "/v2/"@ + namespace@ + "/blobs/uploads/"@ + dec_of(id as nat),
{
    let mut r = String::from_str("/v2/");
    r.append(namespace);
    r.append("/blobs/uploads/");
    let ids = u64_to_dec(id);
    r.append(ids.as_str());
    r
}

} // verus!
