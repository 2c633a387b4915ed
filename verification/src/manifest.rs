//! Manifests: blobs that additionally declare a media type, referenced
//! layer digests and an optional subject. Putting a manifest stores its
//! literal bytes under their own digest and records revision, layer,
//! referrer and tag links; deleting one removes the links that pointed
//! from it.

use vstd::prelude::*;
use vstd::slice::slice_to_vec;

use crate::digest::{
    digest_view_canonical, sha256_digest, spec_parse_digest, spec_sha256_digest_str, Digest,
    DigestView,
};
use crate::error::RegistryError;
use crate::link::{referrer_key, LinkRefView, LinkReference};
use crate::registry::{is_valid_namespace, Registry};

verus! {

/// A manifest reference as addressed by clients: a tag name or a digest.
#[derive(Debug)]
pub enum Reference {
    Tag(String),
    Digest(Digest),
}

pub enum ReferenceView {
    Tag(Seq<char>),
    Digest(DigestView),
}

impl View for Reference {
    type V = ReferenceView;

    open spec fn view(&self) -> ReferenceView {
        match self {
            Reference::Tag(t) => ReferenceView::Tag(t@),
            Reference::Digest(d) => ReferenceView::Digest(d@),
        }
    }
}

impl Clone for Reference {
    fn clone(&self) -> (r: Self)
        ensures
            r@ == self@,
    {
        match self {
            Reference::Tag(t) => Reference::Tag(t.clone()),
            Reference::Digest(d) => Reference::Digest(d.clone()),
        }
    }
}

/// The fields a manifest document declares.
pub struct ManifestFields {
    pub media_type: Option<String>,
    pub artifact_type: Option<String>,
    pub subject: Option<String>,
    pub layers: Vec<String>,
    pub annotations: Vec<(String, String)>,
}

pub struct ManifestFieldsView {
    pub media_type: Option<Seq<char>>,
    pub artifact_type: Option<Seq<char>>,
    pub subject: Option<Seq<char>>,
    pub layers: Seq<Seq<char>>,
    pub annotations: Seq<(Seq<char>, Seq<char>)>,
}

impl View for ManifestFields {
    type V = ManifestFieldsView;

    open spec fn view(&self) -> ManifestFieldsView {
        ManifestFieldsView {
            media_type: match self.media_type {
                Some(ref s) => Some(s@),
                None => None,
            },
            artifact_type: match self.artifact_type {
                Some(ref s) => Some(s@),
                None => None,
            },
            subject: match self.subject {
                Some(ref s) => Some(s@),
                None => None,
            },
            layers: self.layers.deep_view(),
            annotations: self.annotations.deep_view(),
        }
    }
}

/// Named result of reading a manifest's scalar fields through
/// `serde_json`: the declared media type, artifact type and subject
/// digest string, or nothing when the bytes are not a JSON document. It
/// depends on the bytes alone.
pub uninterp spec fn manifest_scalars_of(b: Seq<u8>) -> Option<
    (Option<Seq<char>>, Option<Seq<char>>, Option<Seq<char>>),
>;

/// Named result of reading a manifest's list fields through
/// `serde_json`: the declared layer digest strings and annotations, or
/// nothing when the bytes are not a JSON document of that shape. It
/// depends on the bytes alone.
pub uninterp spec fn manifest_lists_of(b: Seq<u8>) -> Option<
    (Seq<Seq<char>>, Seq<(Seq<char>, Seq<char>)>),
>;

/// The fields a manifest document declares, when both reads succeed.
pub open spec fn manifest_fields_of(b: Seq<u8>) -> Option<ManifestFieldsView> {
    match (manifest_scalars_of(b), manifest_lists_of(b)) {
        (Some(sc), Some(ls)) => Some(
            ManifestFieldsView {
                media_type: sc.0,
                artifact_type: sc.1,
                subject: sc.2,
                layers: ls.0,
                annotations: ls.1,
            },
        ),
        _ => None,
    }
}

/// Relies on `serde_json::from_slice` and the `serde_json::Value`
/// accessors: the scalar manifest fields the literal document declares.
#[verifier::external_body]
fn read_manifest_scalars(b: &[u8]) -> (r: Option<(Option<String>, Option<String>, Option<String>)>)
    ensures
        match r {
            Some(t) => manifest_scalars_of(b@) == Some(
                (
                    match t.0 {
                        Some(x) => Some(x@),
                        None => None,
                    },
                    match t.1 {
                        Some(x) => Some(x@),
                        None => None,
                    },
                    match t.2 {
                        Some(x) => Some(x@),
                        None => None,
                    },
                ),
            ),
            None => manifest_scalars_of(b@) is None,
        },
{
    let v: serde_json::Value = serde_json::from_slice(b).ok()?;
    let media_type = v.get("mediaType").and_then(|x| x.as_str()).map(String::from);
    let artifact_type = v.get("artifactType").and_then(|x| x.as_str()).map(String::from);
    let subject = v.get("subject").and_then(|s| s.get("digest")).and_then(|x| x.as_str()).map(String::from);
    Some((media_type, artifact_type, subject))
}

/// Relies on `serde_json::from_slice` and the `serde_json::Value`
/// accessors: the layer digest strings and annotations the literal
/// document declares.
#[verifier::external_body]
fn read_manifest_lists(b: &[u8]) -> (r: Option<(Vec<String>, Vec<(String, String)>)>)
    ensures
        match r {
            Some(t) => manifest_lists_of(b@) == Some((t.0.deep_view(), t.1.deep_view())),
            None => manifest_lists_of(b@) is None,
        },
{
    let v: serde_json::Value = serde_json::from_slice(b).ok()?;
    let mut layers = Vec::new();
    if let Some(arr) = v.get("layers").and_then(|x| x.as_array()) {
        for l in arr {
            layers.push(l.get("digest")?.as_str()?.to_string());
        }
    }
    let mut annotations = Vec::new();
    if let Some(map) = v.get("annotations").and_then(|x| x.as_object()) {
        for (k, val) in map {
            annotations.push((k.clone(), val.as_str()?.to_string()));
        }
    }
    Some((layers, annotations))
}

/// Reads all manifest fields out of the literal document.
fn parse_manifest_fields(b: &[u8]) -> (r: Option<ManifestFields>)
    ensures
        match r {
            Some(f) => manifest_fields_of(b@) == Some(f@),
            None => manifest_fields_of(b@) is None,
        },
{
    let scalars = read_manifest_scalars(b);
    let lists = read_manifest_lists(b);
    match (scalars, lists) {
        (Some(sc), Some(ls)) => {
            let f = ManifestFields {
                media_type: sc.0,
                artifact_type: sc.1,
                subject: sc.2,
                layers: ls.0,
                annotations: ls.1,
            };
            Some(f)
        },
        _ => None,
    }
}

/// The digests a list of canonical digest strings denotes; `None` when
/// any of them is malformed.
pub open spec fn parse_all_digests(ss: Seq<Seq<char>>) -> Option<Seq<DigestView>>
    decreases ss.len(),
{
    if ss.len() == 0 {
        Some(Seq::empty())
    } else {
        match parse_all_digests(ss.drop_last()) {
            None => None,
            Some(init) => match spec_parse_digest(ss.last()) {
                None => None,
                Some(d) => Some(init.push(d)),
            },
        }
    }
}

/// The link table after recording one layer back-link per referenced
/// layer digest.
pub open spec fn with_layer_links(
    m: Map<(Seq<char>, LinkRefView), DigestView>,
    ns: Seq<char>,
    layers: Seq<DigestView>,
) -> Map<(Seq<char>, LinkRefView), DigestView>
    decreases layers.len(),
{
    if layers.len() == 0 {
        m
    } else {
        with_layer_links(m, ns, layers.drop_last()).insert(
            (ns, LinkRefView::Layer(layers.last())),
            layers.last(),
        )
    }
}

/// The link table after removing the layer back-links of a manifest's
/// referenced layers.
pub open spec fn without_layer_links(
    m: Map<(Seq<char>, LinkRefView), DigestView>,
    ns: Seq<char>,
    layers: Seq<DigestView>,
) -> Map<(Seq<char>, LinkRefView), DigestView>
    decreases layers.len(),
{
    if layers.len() == 0 {
        m
    } else {
        without_layer_links(m, ns, layers.drop_last()).remove((ns, LinkRefView::Layer(layers.last())))
    }
}

/// The whole link-table transition of a successful manifest put: a
/// digest-keyed revision link, one layer back-link per referenced layer,
/// a referrer link when a subject is declared, and — when the manifest
/// was addressed by tag — the tag's current link, last write wins.
pub open spec fn spec_put_manifest_links(
    m: Map<(Seq<char>, LinkRefView), DigestView>,
    ns: Seq<char>,
    reference: ReferenceView,
    digest: DigestView,
    layers: Seq<DigestView>,
    subject: Option<DigestView>,
) -> Map<(Seq<char>, LinkRefView), DigestView> {
    let m1 = m.insert((ns, LinkRefView::Digest(digest)), digest);
    let m2 = with_layer_links(m1, ns, layers);
    let m3 = match subject {
        Some(s) => m2.insert(referrer_key(ns, s, digest), digest),
        None => m2,
    };
    match reference {
        ReferenceView::Tag(t) => m3.insert((ns, LinkRefView::Tag(t)), digest),
        ReferenceView::Digest(_) => m3,
    }
}

/// The subject digest a manifest declares, when it declares one and it is
/// well-formed.
pub open spec fn spec_subject_of(f: ManifestFieldsView) -> Option<Option<DigestView>> {
    match f.subject {
        None => Some(None),
        Some(s) => match spec_parse_digest(s) {
            None => None,
            Some(d) => Some(Some(d)),
        },
    }
}

/// Media type reported for stored manifest bytes: the declared field, or
/// empty when none is declared.
pub open spec fn media_type_of(b: Seq<u8>) -> Seq<char> {
    match manifest_fields_of(b) {
        Some(f) => match f.media_type {
            Some(mt) => mt,
            None => Seq::empty(),
        },
        None => Seq::empty(),
    }
}

/// Result of a manifest put: the content digest, and the declared
/// subject when there was one.
#[derive(Debug)]
pub struct ManifestSummary {
    pub digest: Digest,
    pub subject: Option<Digest>,
}

/// A resolved manifest: its canonical content, digest, size, and the
/// media type its bytes declare.
#[derive(Debug)]
pub struct ManifestData {
    pub media_type: String,
    pub digest: Digest,
    pub content: Vec<u8>,
    pub size: u64,
}

/// A resolved manifest without its content.
#[derive(Debug)]
pub struct ManifestHead {
    pub media_type: String,
    pub digest: Digest,
    pub size: u64,
}

impl Registry {
    /// Stores a manifest: validates the namespace, the content type and
    /// every declared digest; writes the bytes as a blob keyed by their
    /// own digest; then records the revision, layer, referrer and tag
    /// links. Nothing is written when validation fails.
    #[verifier::loop_isolation(false)]
    pub fn put_manifest(
        &mut self,
        namespace: &str,
        reference: Reference,
        content_type: &str,
        body: &[u8],
    ) -> (r: Result<ManifestSummary, RegistryError>)
        requires
            old(self).wf(),
        ensures
            final(self).wf(),
            final(self).storage.uploads@ == old(self).storage.uploads@,
            match r {
                Ok(m) => {
                    &&& is_valid_namespace(namespace@)
                    &&& content_type@.len() > 0
                    &&& manifest_fields_of(body@) is Some
                    &&& parse_all_digests(manifest_fields_of(body@)->0.layers) is Some
                    &&& spec_subject_of(manifest_fields_of(body@)->0) is Some
                    &&& m.digest.wf()
                    &&& m.digest.spec_canonical() == spec_sha256_digest_str(body@)
                    &&& (match m.subject {
                        Some(sd) => spec_subject_of(manifest_fields_of(body@)->0) == Some(
                            Some(sd@),
                        ),
                        None => spec_subject_of(manifest_fields_of(body@)->0) == Some(
                            None::<DigestView>,
                        ),
                    })
                    &&& final(self).storage.spec_blobs() == old(self).storage.spec_blobs().insert(
                        spec_sha256_digest_str(body@),
                        body@,
                    )
                    &&& final(self).storage.spec_links() == spec_put_manifest_links(
                        old(self).storage.spec_links(),
                        namespace@,
                        reference@,
                        m.digest@,
                        parse_all_digests(manifest_fields_of(body@)->0.layers)->0,
                        match m.subject {
                            Some(sd) => Some(sd@),
                            None => None,
                        },
                    )
                },
                Err(RegistryError::NameInvalid) => !is_valid_namespace(namespace@) && final(self).storage.spec_blobs() == old(self).storage.spec_blobs() && final(self).storage.spec_links() == old(self).storage.spec_links(),
                Err(RegistryError::ManifestInvalid) => is_valid_namespace(namespace@) && (
                content_type@.len() == 0 || manifest_fields_of(body@) is None || (
                manifest_fields_of(body@) matches Some(f) && (parse_all_digests(f.layers) is None
                    || spec_subject_of(f) is None))) && final(self).storage.spec_blobs() == old(self).storage.spec_blobs() && final(self).storage.spec_links() == old(self).storage.spec_links(),
                Err(_) => false,
            },
    {
        self.validate_namespace(namespace)?;
        if content_type.unicode_len() == 0 {
            return Err(RegistryError::ManifestInvalid);
        }
        let fields = match parse_manifest_fields(body) {
            Some(f) => f,
            None => {
                return Err(RegistryError::ManifestInvalid);
            },
        };
        let ghost fv = fields@;
        let ghost self0 = *self;
        let mut layer_digests: Vec<Digest> = Vec::new();
        let mut i: usize = 0;
        let n = fields.layers.len();
        proof {
            assert(fv.layers.take(0) =~= Seq::<Seq<char>>::empty());
            assert(parse_all_digests(fv.layers.take(0)) == Some(Seq::<DigestView>::empty()));
        }
        while i < n
            invariant
                0 <= i <= n,
                n == fields.layers@.len(),
                fv == fields@,
                *self == self0,
                parse_all_digests(fv.layers.take(i as int)) == Some(layer_digests.deep_view()),
                forall|j: int|
                    0 <= j < layer_digests@.len() ==> (#[trigger] layer_digests@[j]).wf(),
            decreases n - i,
        {
            proof {
                assert(fv.layers.take(i + 1).drop_last() =~= fv.layers.take(i as int));
                assert(fv.layers.take(i + 1).last() == fv.layers[i as int]);
            }
            let d = match Digest::parse(fields.layers[i].as_str()) {
                Ok(d) => d,
                Err(_) => {
                    proof {
                        lemma_parse_all_prefix_none(fv.layers, i as int);
                    }
                    return Err(RegistryError::ManifestInvalid);
                },
            };
            let ghost prev = layer_digests.deep_view();
            layer_digests.push(d);
            proof {
                assert(layer_digests.deep_view() =~= prev.push(d@));
            }
            i = i + 1;
        }
        proof {
            assert(fv.layers.take(n as int) =~= fv.layers);
        }
        let subject: Option<Digest> = match &fields.subject {
            Some(s) => {
                match Digest::parse(s.as_str()) {
                    Ok(d) => Some(d),
                    Err(_) => {
                        return Err(RegistryError::ManifestInvalid);
                    },
                }
            },
            None => None,
        };
        let digest = sha256_digest(body);
        self.storage.put_blob(&digest, slice_to_vec(body));
        self.storage.write_link(
            namespace,
            LinkReference::Digest(digest.clone()),
            digest.clone(),
        );
        let ghost links_rev = self.storage.spec_links();
        let ghost blobs1 = self.storage.spec_blobs();
        let ghost uploads1 = self.storage.uploads@;
        let mut j: usize = 0;
        let m = layer_digests.len();
        proof {
            assert(layer_digests.deep_view().take(0) =~= Seq::<DigestView>::empty());
        }
        while j < m
            invariant
                0 <= j <= m,
                m == layer_digests@.len(),
                self.wf(),
                forall|x: int| 0 <= x < layer_digests@.len() ==> (#[trigger] layer_digests@[x]).wf(),
                self.storage.spec_links() == with_layer_links(
                    links_rev,
                    namespace@,
                    layer_digests.deep_view().take(j as int),
                ),
                self.storage.spec_blobs() == blobs1,
                self.storage.uploads@ == uploads1,
            decreases m - j,
        {
            let ld = layer_digests[j].clone();
            let target = layer_digests[j].clone();
            proof {
                assert(layer_digests.deep_view().take(j + 1).drop_last()
                    =~= layer_digests.deep_view().take(j as int));
                assert(layer_digests.deep_view().take(j + 1).last()
                    == layer_digests.deep_view()[j as int]);
            }
            self.storage.write_link(namespace, LinkReference::Layer(ld), target);
            j = j + 1;
        }
        proof {
            assert(layer_digests.deep_view().take(m as int) =~= layer_digests.deep_view());
        }
        if let Some(ref s) = subject {
            self.storage.write_link(
                namespace,
                LinkReference::Referrer(s.clone(), digest.clone()),
                digest.clone(),
            );
        }
        match &reference {
            Reference::Tag(t) => {
                self.storage.write_link(
                    namespace,
                    LinkReference::Tag(t.clone()),
                    digest.clone(),
                );
            },
            Reference::Digest(_) => {
            },
        }
        Ok(ManifestSummary { digest, subject })
    }

    /// Resolves a manifest reference to its canonical content.
    pub fn get_manifest(&self, namespace: &str, reference: Reference) -> (r: Result<
        ManifestData,
        RegistryError,
    >)
        requires
            self.wf(),
        ensures
            match r {
                Ok(md) => {
                    &&& is_valid_namespace(namespace@)
                    &&& (match reference@ {
                        ReferenceView::Tag(t) => self.storage.spec_links().contains_key(
                            (namespace@, LinkRefView::Tag(t)),
                        ) && md.digest@ == self.storage.spec_links()[
                            (namespace@, LinkRefView::Tag(t))
                        ],
                        ReferenceView::Digest(q) => self.storage.spec_links().contains_key(
                            (namespace@, LinkRefView::Digest(q)),
                        ) && md.digest@ == self.storage.spec_links()[
                            (namespace@, LinkRefView::Digest(q))
                        ],
                    })
                    &&& self.storage.spec_blobs().contains_key(digest_view_canonical(md.digest@))
                    &&& md.content@ == self.storage.spec_blobs()[digest_view_canonical(md.digest@)]
                    &&& md.size == md.content@.len()
                    &&& md.media_type@ == media_type_of(md.content@)
                },
                Err(RegistryError::NameInvalid) => !is_valid_namespace(namespace@),
                Err(RegistryError::TagUnknown) => is_valid_namespace(namespace@) && (
                reference@ matches ReferenceView::Tag(t)
                    && !self.storage.spec_links().contains_key((namespace@, LinkRefView::Tag(t)))),
                Err(RegistryError::ManifestUnknown) => is_valid_namespace(namespace@) && (
                match reference@ {
                    ReferenceView::Tag(t) => self.storage.spec_links().contains_key(
                        (namespace@, LinkRefView::Tag(t)),
                    ) && !self.storage.spec_blobs().contains_key(
                        digest_view_canonical(
                            self.storage.spec_links()[(namespace@, LinkRefView::Tag(t))],
                        ),
                    ),
                    ReferenceView::Digest(q) => !self.storage.spec_links().contains_key(
                        (namespace@, LinkRefView::Digest(q)),
                    ) || !self.storage.spec_blobs().contains_key(
                        digest_view_canonical(
                            self.storage.spec_links()[(namespace@, LinkRefView::Digest(q))],
                        ),
                    ),
                }),
                Err(_) => false,
            },
    {
        self.validate_namespace(namespace)?;
        let resolved = match &reference {
            Reference::Tag(t) => {
                match self.storage.read_link(namespace, &LinkReference::Tag(t.clone())) {
                    Some(d) => d,
                    None => {
                        return Err(RegistryError::TagUnknown);
                    },
                }
            },
            Reference::Digest(q) => {
                match self.storage.read_link(namespace, &LinkReference::Digest(q.clone())) {
                    Some(d) => d,
                    None => {
                        return Err(RegistryError::ManifestUnknown);
                    },
                }
            },
        };
        let content = match self.storage.read_blob(&resolved) {
            Ok(c) => c,
            Err(_) => {
                return Err(RegistryError::ManifestUnknown);
            },
        };
        let media_type = match parse_manifest_fields(content.as_slice()) {
            Some(f) => match f.media_type {
                Some(mt) => mt,
                None => String::new(),
            },
            None => String::new(),
        };
        let size = content.len() as u64;
        Ok(ManifestData { media_type, digest: resolved, content, size })
    }

    /// Resolves a manifest reference without returning its content.
    pub fn head_manifest(&self, namespace: &str, reference: Reference) -> (r: Result<
        ManifestHead,
        RegistryError,
    >)
        requires
            self.wf(),
        ensures
            match r {
                Ok(mh) => {
                    &&& is_valid_namespace(namespace@)
                    &&& (match reference@ {
                        ReferenceView::Tag(t) => self.storage.spec_links().contains_key(
                            (namespace@, LinkRefView::Tag(t)),
                        ) && mh.digest@ == self.storage.spec_links()[
                            (namespace@, LinkRefView::Tag(t))
                        ],
                        ReferenceView::Digest(q) => self.storage.spec_links().contains_key(
                            (namespace@, LinkRefView::Digest(q)),
                        ) && mh.digest@ == self.storage.spec_links()[
                            (namespace@, LinkRefView::Digest(q))
                        ],
                    })
                    &&& self.storage.spec_blobs().contains_key(digest_view_canonical(mh.digest@))
                    &&& mh.size == self.storage.spec_blobs()[digest_view_canonical(
                        mh.digest@,
                    )].len()
                    &&& mh.media_type@ == media_type_of(
                        self.storage.spec_blobs()[digest_view_canonical(mh.digest@)],
                    )
                },
                Err(e) => self.get_manifest_err_shape(namespace@, reference@, e),
            },
    {
        let md = self.get_manifest(namespace, reference)?;
        Ok(ManifestHead { media_type: md.media_type, digest: md.digest, size: md.size })
    }

    /// The error cases of a manifest resolution, shared by get and head.
    pub open spec fn get_manifest_err_shape(
        &self,
        namespace: Seq<char>,
        reference: ReferenceView,
        e: RegistryError,
    ) -> bool {
        match e {
            RegistryError::NameInvalid => !is_valid_namespace(namespace),
            RegistryError::TagUnknown => is_valid_namespace(namespace) && (
            reference matches ReferenceView::Tag(t) && !self.storage.spec_links().contains_key(
                (namespace, LinkRefView::Tag(t)),
            )),
            RegistryError::ManifestUnknown => is_valid_namespace(namespace) && (match reference {
                ReferenceView::Tag(t) => self.storage.spec_links().contains_key(
                    (namespace, LinkRefView::Tag(t)),
                ) && !self.storage.spec_blobs().contains_key(
                    digest_view_canonical(
                        self.storage.spec_links()[(namespace, LinkRefView::Tag(t))],
                    ),
                ),
                ReferenceView::Digest(q) => !self.storage.spec_links().contains_key(
                    (namespace, LinkRefView::Digest(q)),
                ) || !self.storage.spec_blobs().contains_key(
                    digest_view_canonical(
                        self.storage.spec_links()[(namespace, LinkRefView::Digest(q))],
                    ),
                ),
            }),
            _ => false,
        }
    }

    /// Removes the addressed link. For a tag, the tag's current pointer
    /// alone; for a digest, the revision link together with the layer
    /// back-links and the referrer link that pointed from the manifest.
    #[verifier::loop_isolation(false)]
    pub fn delete_manifest(&mut self, namespace: &str, reference: Reference) -> (r: Result<
        (),
        RegistryError,
    >)
        requires
            old(self).wf(),
        ensures
            final(self).wf(),
            final(self).storage.spec_blobs() == old(self).storage.spec_blobs(),
            final(self).storage.uploads@ == old(self).storage.uploads@,
            match r {
                Ok(()) => is_valid_namespace(namespace@) && (match reference@ {
                    ReferenceView::Tag(t) => old(self).storage.spec_links().contains_key(
                        (namespace@, LinkRefView::Tag(t)),
                    ) && final(self).storage.spec_links() == old(self).storage.spec_links().remove((namespace@, LinkRefView::Tag(t))),
                    ReferenceView::Digest(q) => old(self).storage.spec_links().contains_key(
                        (namespace@, LinkRefView::Digest(q)),
                    ) && ({
                        let m0 = old(self).storage.spec_links();
                        let target = m0[(namespace@, LinkRefView::Digest(q))];
                        let m1 = m0.remove((namespace@, LinkRefView::Digest(q)));
                        if !old(self).storage.spec_blobs().contains_key(
                            digest_view_canonical(target),
                        ) {
                            final(self).storage.spec_links() == m1
                        } else {
                            let content = old(self).storage.spec_blobs()[digest_view_canonical(
                                target,
                            )];
                            match manifest_fields_of(content) {
                                Some(f) => (match parse_all_digests(f.layers) {
                                    Some(ls) => (match spec_subject_of(f) {
                                        Some(Some(su)) => final(self).storage.spec_links()
                                            == without_layer_links(m1, namespace@, ls).remove(
                                            referrer_key(namespace@, su, target),
                                        ),
                                        Some(None) => final(self).storage.spec_links()
                                            == without_layer_links(m1, namespace@, ls),
                                        None => final(self).storage.spec_links() == m1,
                                    }),
                                    None => final(self).storage.spec_links() == m1,
                                }),
                                None => final(self).storage.spec_links() == m1,
                            }
                        }
                    }),
                }),
                Err(RegistryError::NameInvalid) => !is_valid_namespace(namespace@) && final(self).storage.spec_links() == old(self).storage.spec_links(),
                Err(RegistryError::TagUnknown) => is_valid_namespace(namespace@) && (
                reference@ matches ReferenceView::Tag(t) && !old(self).storage.spec_links().contains_key((namespace@, LinkRefView::Tag(t)))) && final(self).storage.spec_links() == old(self).storage.spec_links(),
                Err(RegistryError::ManifestUnknown) => is_valid_namespace(namespace@) && (
                reference@ matches ReferenceView::Digest(q) && !old(self).storage.spec_links().contains_key((namespace@, LinkRefView::Digest(q))))
                    && final(self).storage.spec_links() == old(self).storage.spec_links(),
                Err(_) => false,
            },
    {
        self.validate_namespace(namespace)?;
        match &reference {
            Reference::Tag(t) => {
                let existed = self.storage.delete_link(
                    namespace,
                    &LinkReference::Tag(t.clone()),
                );
                if existed {
                    Ok(())
                } else {
                    proof {
                        assert(self.storage.spec_links() =~= old(self).storage.spec_links());
                    }
                    Err(RegistryError::TagUnknown)
                }
            },
            Reference::Digest(q) => {
                let target = match self.storage.read_link(
                    namespace,
                    &LinkReference::Digest(q.clone()),
                ) {
                    Some(d) => d,
                    None => {
                        return Err(RegistryError::ManifestUnknown);
                    },
                };
                self.storage.delete_link(namespace, &LinkReference::Digest(q.clone()));
                let ghost m1 = self.storage.spec_links();
                let content = match self.storage.read_blob(&target) {
                    Ok(c) => c,
                    Err(_) => {
                        return Ok(());
                    },
                };
                let fields = match parse_manifest_fields(content.as_slice()) {
                    Some(f) => f,
                    None => {
                        return Ok(());
                    },
                };
                let ghost fv = fields@;
                let ghost self1 = *self;
                let mut layer_digests: Vec<Digest> = Vec::new();
                let mut i: usize = 0;
                let n = fields.layers.len();
                proof {
                    assert(fv.layers.take(0) =~= Seq::<Seq<char>>::empty());
                }
                while i < n
                    invariant
                        0 <= i <= n,
                        n == fields.layers@.len(),
                        fv == fields@,
                        *self == self1,
                        self1.wf(),
                        self1.storage.spec_links() == m1,
                        parse_all_digests(fv.layers.take(i as int)) == Some(
                            layer_digests.deep_view(),
                        ),
                        forall|j: int|
                            0 <= j < layer_digests@.len() ==> (
                            #[trigger] layer_digests@[j]).wf(),
                    decreases n - i,
                {
                    proof {
                        assert(fv.layers.take(i + 1).drop_last() =~= fv.layers.take(i as int));
                        assert(fv.layers.take(i + 1).last() == fv.layers[i as int]);
                    }
                    let d = match Digest::parse(fields.layers[i].as_str()) {
                        Ok(d) => d,
                        Err(_) => {
                            proof {
                                lemma_parse_all_prefix_none(fv.layers, i as int);
                            }
                            return Ok(());
                        },
                    };
                    let ghost prev = layer_digests.deep_view();
                    layer_digests.push(d);
                    proof {
                        assert(layer_digests.deep_view() =~= prev.push(d@));
                    }
                    i = i + 1;
                }
                proof {
                    assert(fv.layers.take(n as int) =~= fv.layers);
                }
                let subject: Option<Digest> = match &fields.subject {
                    Some(s) => {
                        match Digest::parse(s.as_str()) {
                            Ok(d) => Some(d),
                            Err(_) => {
                                return Ok(());
                            },
                        }
                    },
                    None => None,
                };
                let ghost blobs1 = self.storage.spec_blobs();
                let ghost uploads1 = self.storage.uploads@;
                let mut j: usize = 0;
                let m = layer_digests.len();
                proof {
                    assert(layer_digests.deep_view().take(0) =~= Seq::<DigestView>::empty());
                }
                while j < m
                    invariant
                        0 <= j <= m,
                        m == layer_digests@.len(),
                        self.wf(),
                        self.storage.spec_links() == without_layer_links(
                            m1,
                            namespace@,
                            layer_digests.deep_view().take(j as int),
                        ),
                        self.storage.spec_blobs() == blobs1,
                        self.storage.uploads@ == uploads1,
                    decreases m - j,
                {
                    proof {
                        assert(layer_digests.deep_view().take(j + 1).drop_last()
                            =~= layer_digests.deep_view().take(j as int));
                        assert(layer_digests.deep_view().take(j + 1).last()
                            == layer_digests.deep_view()[j as int]);
                    }
                    let ld = layer_digests[j].clone();
                    self.storage.delete_link(namespace, &LinkReference::Layer(ld));
                    j = j + 1;
                }
                proof {
                    assert(layer_digests.deep_view().take(m as int)
                        =~= layer_digests.deep_view());
                }
                if let Some(ref s) = subject {
                    self.storage.delete_link(
                        namespace,
                        &LinkReference::Referrer(s.clone(), target.clone()),
                    );
                }
                Ok(())
            },
        }
    }
}

/// The artifact type stored manifest bytes declare, if any.
pub open spec fn artifact_type_of(b: Seq<u8>) -> Option<Seq<char>> {
    match manifest_fields_of(b) {
        Some(f) => f.artifact_type,
        None => None,
    }
}

/// The annotations stored manifest bytes declare.
pub open spec fn annotations_of(b: Seq<u8>) -> Seq<(Seq<char>, Seq<char>)> {
    match manifest_fields_of(b) {
        Some(f) => f.annotations,
        None => Seq::empty(),
    }
}

/// A referrer descriptor: the referring manifest's digest and the fields
/// its stored bytes declare.
#[derive(Debug)]
pub struct Descriptor {
    pub digest: Digest,
    pub size: u64,
    pub media_type: String,
    pub artifact_type: Option<String>,
    pub annotations: Vec<(String, String)>,
}

/// A descriptor reports exactly what the stored manifest bytes declare.
pub open spec fn descriptor_matches(d: Descriptor, content: Seq<u8>) -> bool {
    &&& d.size == content.len()
    &&& d.media_type@ == media_type_of(content)
    &&& (match d.artifact_type {
        Some(a) => artifact_type_of(content) == Some(a@),
        None => artifact_type_of(content) is None,
    })
    &&& d.annotations.deep_view() == annotations_of(content)
}

impl Registry {
    /// All manifests whose recorded subject is the requested digest, as
    /// descriptors. A recorded referrer whose manifest blob is missing is
    /// skipped rather than reported.
    pub fn get_referrers(&self, namespace: &str, subject: Digest) -> (r: Result<
        Vec<Descriptor>,
        RegistryError,
    >)
        requires
            self.wf(),
        ensures
            match r {
                Ok(ds) => {
                    &&& is_valid_namespace(namespace@)
                    &&& (forall|j: int|
                        0 <= j < ds@.len() ==> {
                            let dv = (#[trigger] ds@[j]).digest@;
                            &&& self.storage.spec_links().contains_key(
                                referrer_key(namespace@, subject@, dv),
                            )
                            &&& self.storage.spec_blobs().contains_key(digest_view_canonical(dv))
                            &&& descriptor_matches(
                                ds@[j],
                                self.storage.spec_blobs()[digest_view_canonical(dv)],
                            )
                        })
                    &&& (forall|dv: DigestView|
                        #![trigger referrer_key(namespace@, subject@, dv)]
                        (self.storage.spec_links().contains_key(
                            referrer_key(namespace@, subject@, dv),
                        ) && self.storage.spec_blobs().contains_key(digest_view_canonical(dv)))
                            ==> exists|j: int| 0 <= j < ds@.len() && (#[trigger] ds@[j]).digest@ == dv)
                },
                Err(e) => !is_valid_namespace(namespace@) && e is NameInvalid,
            },
    {
        self.validate_namespace(namespace)?;
        let rds = self.storage.referrer_digests(namespace, &subject);
        let mut out: Vec<Descriptor> = Vec::new();
        let n = rds.len();
        let mut i: usize = 0;
        while i < n
            invariant
                0 <= i <= n,
                n == rds@.len(),
                self.wf(),
                forall|j: int|
                    0 <= j < out@.len() ==> {
                        let dv = (#[trigger] out@[j]).digest@;
                        &&& self.storage.spec_links().contains_key(
                            referrer_key(namespace@, subject@, dv),
                        )
                        &&& self.storage.spec_blobs().contains_key(digest_view_canonical(dv))
                        &&& descriptor_matches(
                            out@[j],
                            self.storage.spec_blobs()[digest_view_canonical(dv)],
                        )
                    },
                forall|x: int|
                    0 <= x < i && self.storage.spec_blobs().contains_key(
                        digest_view_canonical(#[trigger] rds.deep_view()[x]),
                    ) ==> exists|j: int|
                        0 <= j < out@.len() && (#[trigger] out@[j]).digest@ == rds.deep_view()[x],
                forall|dv: DigestView|
                    #![trigger referrer_key(namespace@, subject@, dv)]
                    rds.deep_view().contains(dv) <==> self.storage.spec_links().contains_key(
                        referrer_key(namespace@, subject@, dv),
                    ),
            decreases n - i,
        {
            let rd = rds[i].clone();
            proof {
                assert(rds.deep_view()[i as int] == rd@);
                assert(rds.deep_view().contains(rd@));
            }
            match self.storage.read_blob(&rd) {
                Ok(content) => {
                    let (media_type, artifact_type, annotations) = match parse_manifest_fields(
                        content.as_slice(),
                    ) {
                        Some(f) => {
                            let mt = match f.media_type {
                                Some(mt) => mt,
                                None => String::new(),
                            };
                            (mt, f.artifact_type, f.annotations)
                        },
                        None => (String::new(), None, Vec::new()),
                    };
                    let size = content.len() as u64;
                    let ghost preout = out@;
                    let ghost cv = content@;
                    out.push(
                        Descriptor { digest: rd, size, media_type, artifact_type, annotations },
                    );
                    proof {
                        let dnew = out@[out@.len() - 1];
                        assert(out@ =~= preout.push(dnew));
                        assert(dnew.digest@ == rds.deep_view()[i as int]);
                        assert(self.storage.spec_links().contains_key(
                            referrer_key(namespace@, subject@, dnew.digest@),
                        ));
                        assert(dnew.annotations.deep_view() =~= annotations_of(cv));
                        assert(descriptor_matches(dnew, cv));
                        assert forall|x: int|
                            0 <= x < i + 1 && self.storage.spec_blobs().contains_key(
                                digest_view_canonical(#[trigger] rds.deep_view()[x]),
                            ) implies exists|j: int|
                            0 <= j < out@.len() && (#[trigger] out@[j]).digest@
                                == rds.deep_view()[x] by {
                            if x < i {
                                let j = choose|j: int|
                                    0 <= j < preout.len() && (#[trigger] preout[j]).digest@
                                        == rds.deep_view()[x];
                                assert(out@[j].digest@ == rds.deep_view()[x]);
                            } else {
                                assert(out@[out@.len() - 1].digest@ == rds.deep_view()[x]);
                            }
                        }
                    }
                },
                Err(_) => {
                },
            }
            i = i + 1;
        }
        proof {
            assert forall|dv: DigestView|
                #![trigger referrer_key(namespace@, subject@, dv)]
                (self.storage.spec_links().contains_key(referrer_key(namespace@, subject@, dv))
                    && self.storage.spec_blobs().contains_key(digest_view_canonical(dv)))
                    implies exists|j: int|
                    0 <= j < out@.len() && (#[trigger] out@[j]).digest@ == dv by {
                assert(rds.deep_view().contains(dv));
                let x = choose|x: int|
                    0 <= x < rds.deep_view().len() && rds.deep_view()[x] == dv;
            }
        }
        Ok(out)
    }
}

/// When one digest string of the list is malformed, the whole list parse
/// fails.
pub proof fn lemma_parse_all_prefix_none(ss: Seq<Seq<char>>, i: int)
    requires
        0 <= i < ss.len(),
        spec_parse_digest(ss[i]) is None,
    ensures
        parse_all_digests(ss) is None,
    decreases ss.len(),
{
    if ss.len() > 0 {
        if i == ss.len() - 1 {
            assert(ss.last() == ss[i]);
        } else {
            assert(ss.drop_last()[i] == ss[i]);
            lemma_parse_all_prefix_none(ss.drop_last(), i);
        }
    }
}

} // verus!
