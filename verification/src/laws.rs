//! Laws the registry core obeys, stated over the same mathematical
//! models its operation contracts use and proved once and for all.

use vstd::prelude::*;
use vstd::seq_lib::*;

use crate::digest::{digest_view_canonical, spec_sha256_digest_str, DigestView};
use crate::engine::{spec_referencing, upload_range_max_post, StorageEngine};
use crate::error::RegistryError;
use crate::link::LinkRefView;
use crate::manifest::{spec_put_manifest_links, with_layer_links};

verus! {

/// The session bytes after a fresh session receives these chunks, one
/// patch each, in order.
pub open spec fn data_after_patches(chunks: Seq<Seq<u8>>) -> Seq<u8>
    decreases chunks.len(),
{
    if chunks.len() == 0 {
        Seq::empty()
    } else {
        data_after_patches(chunks.drop_last()) + chunks.last()
    }
}

/// Patching chunks in order assembles exactly their concatenation.
pub proof fn lemma_data_after_patches_is_flatten(chunks: Seq<Seq<u8>>)
    ensures
        data_after_patches(chunks) == chunks.flatten(),
    decreases chunks.len(),
{
    chunks.lemma_flatten_and_flatten_alt_are_equivalent();
    if chunks.len() > 0 {
        lemma_data_after_patches_is_flatten(chunks.drop_last());
        chunks.drop_last().lemma_flatten_and_flatten_alt_are_equivalent();
    }
}

/// For every byte payload and every chunking of it: a fresh upload
/// session patched with the chunks in order holds exactly the payload,
/// completing it with the payload's own digest satisfies the digest
/// check, and the committed blob reads back as exactly the payload.
pub proof fn lemma_upload_round_trip(
    blobs0: Map<Seq<char>, Seq<u8>>,
    chunks: Seq<Seq<u8>>,
    payload: Seq<u8>,
)
    requires
        chunks.flatten() == payload,
    ensures
        data_after_patches(chunks) == payload,
        ({
            let blobs1 = blobs0.insert(spec_sha256_digest_str(payload), payload);
            &&& blobs1.contains_key(spec_sha256_digest_str(data_after_patches(chunks)))
            &&& blobs1[spec_sha256_digest_str(data_after_patches(chunks))] == payload
        }),
{
    lemma_data_after_patches_is_flatten(chunks);
}

/// A progress query is idempotent absent an intervening patch: on one
/// and the same state, any two results its contract admits agree, and
/// the query itself leaves the state untouched (it only borrows it).
pub proof fn lemma_upload_range_max_idempotent(
    e: StorageEngine,
    namespace: Seq<char>,
    id: u64,
    r1: Result<u64, RegistryError>,
    r2: Result<u64, RegistryError>,
)
    requires
        upload_range_max_post(e, namespace, id, r1),
        upload_range_max_post(e, namespace, id, r2),
    ensures
        r1 is Ok <==> r2 is Ok,
        r1 is Ok ==> r1->Ok_0 == r2->Ok_0,
{
}

/// After a completion failed the digest check, the session is still
/// there: a progress query on the resulting state must succeed and
/// reports everything received, final bytes included.
pub proof fn lemma_failed_complete_session_retrievable(
    e1: StorageEngine,
    namespace: Seq<char>,
    id: u64,
    r: Result<u64, RegistryError>,
)
    requires
        e1.uploads@.contains_key(id),
        e1.uploads@[id].namespace@ == namespace,
        upload_range_max_post(e1, namespace, id, r),
    ensures
        r is Ok,
        r->Ok_0 == e1.uploads@[id].data@.len(),
{
}

/// Recording layer back-links touches no key of another kind.
pub proof fn lemma_with_layer_links_other(
    m: Map<(Seq<char>, LinkRefView), DigestView>,
    ns: Seq<char>,
    layers: Seq<DigestView>,
    k: (Seq<char>, LinkRefView),
)
    requires
        !(k.1 is Layer),
    ensures
        with_layer_links(m, ns, layers).contains_key(k) == m.contains_key(k),
        m.contains_key(k) ==> with_layer_links(m, ns, layers)[k] == m[k],
    decreases layers.len(),
{
    if layers.len() > 0 {
        lemma_with_layer_links_other(m, ns, layers.drop_last(), k);
    }
}

/// Tag writes are last-write-wins and digest addressing is immutable:
/// after putting a manifest with digest `d1` under tag `t` and then one
/// with digest `d2` under the same tag, the tag resolves to `d2`, while
/// both manifests stay addressable by their own digests, and both blobs
/// keep their own bytes.
pub proof fn lemma_tag_overwrite_keeps_revisions(
    m0: Map<(Seq<char>, LinkRefView), DigestView>,
    blobs0: Map<Seq<char>, Seq<u8>>,
    ns: Seq<char>,
    t: Seq<char>,
    d1: DigestView,
    d2: DigestView,
    body1: Seq<u8>,
    body2: Seq<u8>,
    ls1: Seq<DigestView>,
    ls2: Seq<DigestView>,
    s1: Option<DigestView>,
    s2: Option<DigestView>,
)
    requires
        digest_view_canonical(d1) == spec_sha256_digest_str(body1),
        digest_view_canonical(d2) == spec_sha256_digest_str(body2),
        spec_sha256_digest_str(body1) != spec_sha256_digest_str(body2),
    ensures
        ({
            let m1 = spec_put_manifest_links(m0, ns, crate::manifest::ReferenceView::Tag(t), d1, ls1, s1);
            let m2 = spec_put_manifest_links(m1, ns, crate::manifest::ReferenceView::Tag(t), d2, ls2, s2);
            let blobs2 = blobs0.insert(spec_sha256_digest_str(body1), body1).insert(
                spec_sha256_digest_str(body2),
                body2,
            );
            &&& m2.contains_key((ns, LinkRefView::Tag(t))) && m2[(ns, LinkRefView::Tag(t))] == d2
            &&& m2.contains_key((ns, LinkRefView::Digest(d1))) && m2[(ns, LinkRefView::Digest(d1))]
                == d1
            &&& m2.contains_key((ns, LinkRefView::Digest(d2))) && m2[(ns, LinkRefView::Digest(d2))]
                == d2
            &&& blobs2.contains_key(digest_view_canonical(d1)) && blobs2[digest_view_canonical(d1)]
                == body1
            &&& blobs2.contains_key(digest_view_canonical(d2)) && blobs2[digest_view_canonical(d2)]
                == body2
        }),
{
    assert(d1 != d2);
    let m1 = spec_put_manifest_links(m0, ns, crate::manifest::ReferenceView::Tag(t), d1, ls1, s1);
    let m2 = spec_put_manifest_links(m1, ns, crate::manifest::ReferenceView::Tag(t), d2, ls2, s2);
    let m1a = m0.insert((ns, LinkRefView::Digest(d1)), d1);
    let m2a = m1.insert((ns, LinkRefView::Digest(d2)), d2);
    lemma_with_layer_links_other(m1a, ns, ls1, (ns, LinkRefView::Digest(d1)));
    lemma_with_layer_links_other(m2a, ns, ls2, (ns, LinkRefView::Digest(d1)));
    lemma_with_layer_links_other(m2a, ns, ls2, (ns, LinkRefView::Digest(d2)));
    lemma_with_layer_links_other(m1a, ns, ls1, (ns, LinkRefView::Tag(t)));
    lemma_with_layer_links_other(m2a, ns, ls2, (ns, LinkRefView::Tag(t)));
}

/// Shared-blob delete protection: while two namespaces hold layer links
/// to a blob, a delete through either is denied; once the other
/// namespace's reference is removed, and no further reference exists,
/// the deleting namespace is the sole holder.
pub proof fn lemma_shared_blob_delete_protection(
    m0: Map<(Seq<char>, LinkRefView), DigestView>,
    x: DigestView,
    a: Seq<char>,
    b: Seq<char>,
)
    requires
        a != b,
        m0.contains_key((a, LinkRefView::Layer(x))) && m0[(a, LinkRefView::Layer(x))] == x,
        m0.contains_key((b, LinkRefView::Layer(x))) && m0[(b, LinkRefView::Layer(x))] == x,
    ensures
        spec_referencing(m0, x).contains(a),
        exists|ns2: Seq<char>| spec_referencing(m0, x).contains(ns2) && ns2 != a,
        ({
            let m1 = m0.remove((b, LinkRefView::Layer(x)));
            &&& spec_referencing(m1, x).contains(a)
            &&& ((forall|k: (Seq<char>, LinkRefView)|
                #[trigger] m0.dom().contains(k) && m0[k] == x ==> k == (
                    a,
                    LinkRefView::Layer(x),
                ) || k == (b, LinkRefView::Layer(x))) ==> !(exists|ns2: Seq<char>|
                spec_referencing(m1, x).contains(ns2) && ns2 != a))
        }),
{
    let ka = (a, LinkRefView::Layer(x));
    let kb = (b, LinkRefView::Layer(x));
    assert(m0.dom().contains(ka) && m0[ka] == x);
    assert(spec_referencing(m0, x).contains(a));
    assert(m0.dom().contains(kb) && m0[kb] == x);
    assert(spec_referencing(m0, x).contains(b));
    let m1 = m0.remove(kb);
    assert(m1.dom().contains(ka) && m1[ka] == x);
    assert(spec_referencing(m1, x).contains(a));
    if forall|k: (Seq<char>, LinkRefView)|
        #[trigger] m0.dom().contains(k) && m0[k] == x ==> k == ka || k == kb {
        if exists|ns2: Seq<char>| spec_referencing(m1, x).contains(ns2) && ns2 != a {
            let ns2 = choose|ns2: Seq<char>|
                spec_referencing(m1, x).contains(ns2) && ns2 != a;
            let k = choose|k: (Seq<char>, LinkRefView)|
                #[trigger] m1.dom().contains(k) && k.0 == ns2 && m1[k] == x;
            assert(m0.dom().contains(k) && m0[k] == x);
            assert(k == ka || k == kb);
            assert(false);
        }
    }
}

} // verus!
