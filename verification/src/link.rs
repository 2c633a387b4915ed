//! Link references: the closed set of indirections a namespace keeps over
//! content addresses (tag, manifest revision, layer back-reference,
//! referrer), and the link table that records their current targets.

use vstd::prelude::*;

use crate::digest::{digest_view_wf, Digest, DigestView};
use crate::text::str_eq;

verus! {

/// One kind of link a namespace can hold, with its identifying data.
#[derive(Debug)]
pub enum LinkReference {
    Tag(String),
    Digest(Digest),
    Layer(Digest),
    Referrer(Digest, Digest),
}

pub enum LinkRefView {
    Tag(Seq<char>),
    Digest(DigestView),
    Layer(DigestView),
    Referrer(DigestView, DigestView),
}

impl View for LinkReference {
    type V = LinkRefView;

    open spec fn view(&self) -> LinkRefView {
        match self {
            LinkReference::Tag(t) => LinkRefView::Tag(t@),
            LinkReference::Digest(d) => LinkRefView::Digest(d@),
            LinkReference::Layer(d) => LinkRefView::Layer(d@),
            LinkReference::Referrer(s, r) => LinkRefView::Referrer(s@, r@),
        }
    }
}

impl Clone for LinkReference {
    fn clone(&self) -> (r: Self)
        ensures
            r@ == self@,
    {
        match self {
            LinkReference::Tag(t) => LinkReference::Tag(t.clone()),
            LinkReference::Digest(d) => LinkReference::Digest(d.clone()),
            LinkReference::Layer(d) => LinkReference::Layer(d.clone()),
            LinkReference::Referrer(s, r) => LinkReference::Referrer(s.clone(), r.clone()),
        }
    }
}

/// Decides equality of the mathematical values of two digests.
pub fn digest_view_eq(a: &Digest, b: &Digest) -> (r: bool)
    ensures
        r == (a@ == b@),
{
    let r = a.same_as(b);
    proof {
        if a.algorithm == b.algorithm && a.hash@ == b.hash@ {
            assert(a@ == b@);
        } else {
            assert(a@ != b@);
        }
    }
    r
}

/// Decides equality of the mathematical values of two link references.
pub fn link_ref_eq(a: &LinkReference, b: &LinkReference) -> (r: bool)
    ensures
        r == (a@ == b@),
{
    match (a, b) {
        (LinkReference::Tag(x), LinkReference::Tag(y)) => *x == *y,
        (LinkReference::Digest(x), LinkReference::Digest(y)) => digest_view_eq(x, y),
        (LinkReference::Layer(x), LinkReference::Layer(y)) => digest_view_eq(x, y),
        (LinkReference::Referrer(xs, xr), LinkReference::Referrer(ys, yr)) => digest_view_eq(
            xs,
            ys,
        ) && digest_view_eq(xr, yr),
        (
            LinkReference::Tag(_),
            LinkReference::Digest(_) | LinkReference::Layer(_) | LinkReference::Referrer(_, _),
        ) => false,
        (
            LinkReference::Digest(_),
            LinkReference::Tag(_) | LinkReference::Layer(_) | LinkReference::Referrer(_, _),
        ) => false,
        (
            LinkReference::Layer(_),
            LinkReference::Tag(_) | LinkReference::Digest(_) | LinkReference::Referrer(_, _),
        ) => false,
        (
            LinkReference::Referrer(_, _),
            LinkReference::Tag(_) | LinkReference::Digest(_) | LinkReference::Layer(_),
        ) => false,
    }
}

/// The key of a referrer link: subject first, then the referring manifest.
pub open spec fn referrer_key(ns: Seq<char>, subject: DigestView, referrer: DigestView) -> (
    Seq<char>,
    LinkRefView,
) {
    (ns, LinkRefView::Referrer(subject, referrer))
}

/// One link file: a namespace-scoped reference and the digest it points at.
pub struct LinkEntry {
    pub namespace: String,
    pub reference: LinkReference,
    pub target: Digest,
}

/// The key a link entry is addressed by.
pub open spec fn link_key(e: LinkEntry) -> (Seq<char>, LinkRefView) {
    (e.namespace@, e.reference@)
}

/// The table of all current links, as a map from key to target.
pub open spec fn links_map(s: Seq<LinkEntry>) -> Map<(Seq<char>, LinkRefView), DigestView>
    decreases s.len(),
{
    if s.len() == 0 {
        Map::empty()
    } else {
        links_map(s.drop_last()).insert(link_key(s.last()), s.last().target@)
    }
}

/// Every recorded key appears in the map.
pub proof fn lemma_links_map_covers(s: Seq<LinkEntry>, i: int)
    requires
        0 <= i < s.len(),
    ensures
        links_map(s).contains_key(link_key(s[i])),
    decreases s.len(),
{
    if i < s.len() - 1 {
        lemma_links_map_covers(s.drop_last(), i);
        assert(s.drop_last()[i] == s[i]);
    }
}

/// Every key in the map comes from some recorded entry.
pub proof fn lemma_links_map_from_entries(s: Seq<LinkEntry>, k: (Seq<char>, LinkRefView))
    requires
        links_map(s).contains_key(k),
    ensures
        exists|i: int| 0 <= i < s.len() && link_key(#[trigger] s[i]) == k,
    decreases s.len(),
{
    if s.len() > 0 {
        if link_key(s.last()) == k {
            assert(link_key(s[s.len() - 1]) == k);
        } else {
            lemma_links_map_from_entries(s.drop_last(), k);
            let i = choose|i: int|
                0 <= i < s.drop_last().len() && link_key(#[trigger] s.drop_last()[i]) == k;
            assert(s.drop_last()[i] == s[i]);
            assert(link_key(s[i]) == k);
        }
    }
}

/// Keys are pairwise distinct in a well-formed table.
pub open spec fn links_wf(s: Seq<LinkEntry>) -> bool {
    forall|i: int, j: int|
        0 <= i < j < s.len() ==> link_key(#[trigger] s[i]) != link_key(#[trigger] s[j])
}

/// In a well-formed table, each entry's target is what the map records.
pub proof fn lemma_links_map_value(s: Seq<LinkEntry>, i: int)
    requires
        links_wf(s),
        0 <= i < s.len(),
    ensures
        links_map(s).contains_key(link_key(s[i])),
        links_map(s)[link_key(s[i])] == s[i].target@,
    decreases s.len(),
{
    lemma_links_map_covers(s, i);
    if i < s.len() - 1 {
        assert(link_key(s[i]) != link_key(s[s.len() - 1]));
        assert(forall|x: int, y: int|
            0 <= x < y < s.drop_last().len() ==> link_key(#[trigger] s.drop_last()[x]) != link_key(
                #[trigger] s.drop_last()[y],
            ));
        lemma_links_map_value(s.drop_last(), i);
        assert(s.drop_last()[i] == s[i]);
    }
}

/// Pushing an entry with a fresh or repeated key inserts it in the map.
pub proof fn lemma_links_map_push(s: Seq<LinkEntry>, e: LinkEntry)
    ensures
        links_map(s.push(e)) == links_map(s).insert(link_key(e), e.target@),
{
    assert(s.push(e).drop_last() =~= s);
    assert(s.push(e).last() == e);
}

/// Removing the entry at `i` removes exactly its key from the map, in a
/// well-formed table.
pub proof fn lemma_links_map_remove(s: Seq<LinkEntry>, i: int)
    requires
        links_wf(s),
        0 <= i < s.len(),
    ensures
        links_map(s.remove(i)) == links_map(s).remove(link_key(s[i])),
    decreases s.len(),
{
    let k = link_key(s[i]);
    if i == s.len() - 1 {
        assert(s.remove(i) =~= s.drop_last());
        if links_map(s.drop_last()).contains_key(k) {
            lemma_links_map_from_entries(s.drop_last(), k);
            let j = choose|j: int|
                0 <= j < s.drop_last().len() && link_key(#[trigger] s.drop_last()[j]) == k;
            assert(s.drop_last()[j] == s[j]);
            assert(false);
        }
        assert(links_map(s.drop_last()) =~= links_map(s.drop_last()).insert(k, s[i].target@).remove(
            k,
        ));
    } else {
        let sd = s.drop_last();
        assert(forall|x: int, y: int|
            0 <= x < y < sd.len() ==> link_key(#[trigger] sd[x]) != link_key(#[trigger] sd[y]));
        lemma_links_map_remove(sd, i);
        assert(s.remove(i).drop_last() =~= sd.remove(i));
        assert(s.remove(i).last() == s.last());
        assert(links_map(s.remove(i)) == links_map(sd.remove(i)).insert(
            link_key(s.last()),
            s.last().target@,
        ));
        assert(link_key(s[i]) != link_key(s[s.len() - 1]));
        assert(links_map(sd).remove(k).insert(link_key(s.last()), s.last().target@) =~= links_map(
            sd,
        ).insert(link_key(s.last()), s.last().target@).remove(k));
    }
}

/// Removing one entry keeps the remaining keys pairwise distinct.
pub proof fn lemma_links_wf_remove(s: Seq<LinkEntry>, i: int)
    requires
        links_wf(s),
        0 <= i < s.len(),
    ensures
        links_wf(s.remove(i)),
{
    assert forall|x: int, y: int|
        0 <= x < y < s.remove(i).len() implies link_key(#[trigger] s.remove(i)[x]) != link_key(
        #[trigger] s.remove(i)[y],
    ) by {
        let x0 = if x < i {
            x
        } else {
            x + 1
        };
        let y0 = if y < i {
            y
        } else {
            y + 1
        };
        assert(s.remove(i)[x] == s[x0]);
        assert(s.remove(i)[y] == s[y0]);
    }
}

/// The table of all current link files. Its mathematical value is the map
/// from link key to target digest; keys are recorded at most once and
/// every recorded target is a well-formed digest.
pub struct LinkTable {
    pub entries: Vec<LinkEntry>,
}

impl View for LinkTable {
    type V = Map<(Seq<char>, LinkRefView), DigestView>;

    open spec fn view(&self) -> Map<(Seq<char>, LinkRefView), DigestView> {
        links_map(self.entries@)
    }
}

impl LinkTable {
    pub open spec fn wf(&self) -> bool {
        &&& links_wf(self.entries@)
        &&& forall|i: int|
            0 <= i < self.entries@.len() ==> digest_view_wf(#[trigger] self.entries@[i].target@)
    }

    pub fn new() -> (r: Self)
        ensures
            r.wf(),
            r@ == Map::<(Seq<char>, LinkRefView), DigestView>::empty(),
    {
        LinkTable { entries: Vec::new() }
    }

    /// Index of the entry holding the given key, if any.
    fn find(&self, namespace: &str, reference: &LinkReference) -> (r: Option<usize>)
        ensures
            match r {
                Some(i) => i < self.entries@.len() && link_key(self.entries@[i as int]) == (
                    namespace@,
                    reference@,
                ),
                None => !self@.contains_key((namespace@, reference@)),
            },
    {
        let k: Ghost<(Seq<char>, LinkRefView)> = Ghost((namespace@, reference@));
        let n = self.entries.len();
        let mut i: usize = 0;
        while i < n
            invariant
                0 <= i <= n,
                n == self.entries@.len(),
                k@ == (namespace@, reference@),
                forall|j: int| 0 <= j < i ==> link_key(#[trigger] self.entries@[j]) != k@,
            decreases n - i,
        {
            let e = &self.entries[i];
            if str_eq(e.namespace.as_str(), namespace) && link_ref_eq(&e.reference, reference) {
                return Some(i);
            }
            i = i + 1;
        }
        proof {
            if self@.contains_key(k@) {
                lemma_links_map_from_entries(self.entries@, k@);
            }
        }
        None
    }

    /// Current target of a link, or `None` when no such link exists.
    pub fn read_link(&self, namespace: &str, reference: &LinkReference) -> (r: Option<Digest>)
        requires
            self.wf(),
        ensures
            match r {
                Some(d) => self@.contains_key((namespace@, reference@)) && d@ == self@[
                    (namespace@, reference@)
                ] && d.wf(),
                None => !self@.contains_key((namespace@, reference@)),
            },
    {
        match self.find(namespace, reference) {
            Some(i) => {
                proof {
                    lemma_links_map_value(self.entries@, i as int);
                }
                Some(self.entries[i].target.clone())
            },
            None => None,
        }
    }

    /// Writes or overwrites a link: last write wins.
    pub fn write_link(&mut self, namespace: &str, reference: LinkReference, target: Digest)
        requires
            old(self).wf(),
            target.wf(),
        ensures
            final(self).wf(),
            final(self)@ == old(self)@.insert((namespace@, reference@), target@),
    {
        match self.find(namespace, &reference) {
            Some(i) => {
                proof {
                    lemma_links_map_remove(self.entries@, i as int);
                    lemma_links_wf_remove(self.entries@, i as int);
                    assert forall|j: int| 0 <= j < self.entries@.remove(i as int).len() implies
                        digest_view_wf(
                        #[trigger] self.entries@.remove(i as int)[j].target@,
                    ) by {
                        let j0 = if j < i {
                            j
                        } else {
                            j + 1
                        };
                        assert(self.entries@.remove(i as int)[j] == self.entries@[j0]);
                    }
                }
                self.entries.remove(i);
            },
            None => {
            },
        }
        let ghost pre = self.entries@;
        let ghost k = (namespace@, reference@);
        let e = LinkEntry {
            namespace: String::from_str(namespace),
            reference,
            target,
        };
        proof {
            lemma_links_map_push(pre, e);
            if links_map(pre).contains_key(k) {
                lemma_links_map_from_entries(pre, k);
            }
        }
        self.entries.push(e);
        proof {
            assert forall|x: int, y: int|
                0 <= x < y < self.entries@.len() implies link_key(#[trigger] self.entries@[x])
                != link_key(#[trigger] self.entries@[y]) by {
                if y == self.entries@.len() - 1 {
                    assert(self.entries@[x] == pre[x]);
                    lemma_links_map_covers(pre, x);
                }
            }
            assert(self@ =~= old(self)@.insert(k, e.target@));
        }
    }

    /// Deletes a link; reports whether it existed.
    pub fn delete_link(&mut self, namespace: &str, reference: &LinkReference) -> (r: bool)
        requires
            old(self).wf(),
        ensures
            final(self).wf(),
            final(self)@ == old(self)@.remove((namespace@, reference@)),
            r == old(self)@.contains_key((namespace@, reference@)),
    {
        match self.find(namespace, reference) {
            Some(i) => {
                proof {
                    lemma_links_map_value(self.entries@, i as int);
                    lemma_links_map_remove(self.entries@, i as int);
                    lemma_links_wf_remove(self.entries@, i as int);
                    assert forall|j: int| 0 <= j < self.entries@.remove(i as int).len() implies
                        digest_view_wf(
                        #[trigger] self.entries@.remove(i as int)[j].target@,
                    ) by {
                        let j0 = if j < i {
                            j
                        } else {
                            j + 1
                        };
                        assert(self.entries@.remove(i as int)[j] == self.entries@[j0]);
                    }
                }
                self.entries.remove(i);
                true
            },
            None => {
                proof {
                    assert(old(self)@ =~= old(self)@.remove((namespace@, reference@)));
                }
                false
            },
        }
    }
}

} // verus!
