//! Sorted name lists and cursor pagination. Listings are lexicographically
//! sorted and duplicate-free; a page is the first `n` names after an
//! exclusive cursor, with a continuation cursor exactly when names were
//! truncated.

use vstd::prelude::*;

use crate::text::{lemma_lex_lt_irreflexive, lemma_lex_lt_total, lemma_lex_lt_transitive, lex_lt, str_lt};

verus! {

/// Strictly ascending (hence duplicate-free) in lexicographic order.
pub open spec fn sorted_strict(s: Seq<Seq<char>>) -> bool {
    forall|i: int, j: int| 0 <= i < j < s.len() ==> lex_lt(#[trigger] s[i], #[trigger] s[j])
}

/// The set of names a list holds.
pub open spec fn name_set(s: Seq<Seq<char>>) -> Set<Seq<char>> {
    Set::new(|x: Seq<char>| exists|i: int| 0 <= i < s.len() && s[i] == x)
}

/// Inserts a name into a sorted list unless it is already there.
pub fn insert_sorted_unique(v: &mut Vec<String>, s: String)
    requires
        sorted_strict(old(v).deep_view()),
    ensures
        sorted_strict(final(v).deep_view()),
        name_set(final(v).deep_view()) == name_set(old(v).deep_view()).insert(s@),
{
    let n = v.len();
    let mut i: usize = 0;
    while i < n && str_lt(v[i].as_str(), s.as_str())
        invariant
            0 <= i <= n,
            n == v@.len(),
            forall|j: int| 0 <= j < i ==> lex_lt(#[trigger] v.deep_view()[j], s@),
        decreases n - i,
    {
        i = i + 1;
    }
    let ghost pre = v.deep_view();
    if i < n {
        let same = !str_lt(s.as_str(), v[i].as_str());
        if same {
            proof {
                lemma_lex_lt_total(v.deep_view()[i as int], s@);
                assert(v.deep_view()[i as int] == s@);
                assert(name_set(pre).insert(s@) =~= name_set(pre));
            }
            return ;
        }
    }
    v.insert(i, s);
    proof {
        let post = v.deep_view();
        assert(post =~= pre.insert(i as int, s@));
        assert forall|x: int, y: int| 0 <= x < y < post.len() implies lex_lt(
            #[trigger] post[x],
            #[trigger] post[y],
        ) by {
            let xe = post[x];
            let ye = post[y];
            if x < i && y == i {
            } else if x == i && y > i {
                assert(ye == pre[y - 1]);
                if y - 1 == i {
                } else {
                    assert(lex_lt(pre[i as int], pre[y - 1]));
                    lemma_lex_lt_transitive(s@, pre[i as int], pre[y - 1]);
                }
            } else if x < i && y > i {
                assert(xe == pre[x] && ye == pre[y - 1]);
            } else if x > i && y > i {
                assert(xe == pre[x - 1] && ye == pre[y - 1]);
            }
        }
        assert(name_set(post) =~= name_set(pre).insert(s@)) by {
            assert forall|t: Seq<char>| name_set(post).contains(t) implies name_set(pre).insert(
                s@,
            ).contains(t) by {
                let k = choose|k: int| 0 <= k < post.len() && post[k] == t;
                if k != i {
                    let k0 = if k < i {
                        k
                    } else {
                        k - 1
                    };
                    assert(pre[k0] == t);
                }
            }
            assert forall|t: Seq<char>|
                name_set(pre).insert(s@).contains(t) implies name_set(post).contains(t) by {
                if t == s@ {
                    assert(post[i as int] == t);
                } else {
                    let k = choose|k: int| 0 <= k < pre.len() && pre[k] == t;
                    let k1 = if k < i {
                        k
                    } else {
                        k + 1
                    };
                    assert(post[k1] == t);
                }
            }
        }
    }
}

/// Strictly ascending, hence duplicate-free, numeric offsets.
pub open spec fn sorted_u64(s: Seq<u64>) -> bool {
    forall|i: int, j: int| 0 <= i < j < s.len() ==> #[trigger] s[i] < #[trigger] s[j]
}

/// The set of offsets a list holds.
pub open spec fn u64_set(s: Seq<u64>) -> Set<u64> {
    Set::new(|x: u64| exists|i: int| 0 <= i < s.len() && s[i] == x)
}

/// Inserts an offset into a sorted list unless it is already there.
pub fn insert_sorted_unique_u64(v: &mut Vec<u64>, x: u64)
    requires
        sorted_u64(old(v)@),
    ensures
        sorted_u64(final(v)@),
        u64_set(final(v)@) == u64_set(old(v)@).insert(x),
{
    let n = v.len();
    let mut i: usize = 0;
    while i < n && v[i] < x
        invariant
            0 <= i <= n,
            n == v@.len(),
            forall|j: int| 0 <= j < i ==> v@[j] < x,
        decreases n - i,
    {
        i = i + 1;
    }
    let ghost pre = v@;
    if i < n {
        if v[i] == x {
            proof {
                assert(u64_set(pre).insert(x) =~= u64_set(pre));
            }
            return ;
        }
    }
    v.insert(i, x);
    proof {
        let post = v@;
        assert(post =~= pre.insert(i as int, x));
        assert forall|a: int, b: int| 0 <= a < b < post.len() implies #[trigger] post[a]
            < #[trigger] post[b] by {
            if a < i && b == i {
            } else if a == i && b > i {
                assert(post[b] == pre[b - 1]);
            } else if a < i && b > i {
                assert(post[a] == pre[a] && post[b] == pre[b - 1]);
            } else if a > i && b > i {
                assert(post[a] == pre[a - 1] && post[b] == pre[b - 1]);
            }
        }
        assert(u64_set(post) =~= u64_set(pre).insert(x)) by {
            assert forall|t: u64| u64_set(post).contains(t) implies u64_set(pre).insert(
                x,
            ).contains(t) by {
                let k = choose|k: int| 0 <= k < post.len() && post[k] == t;
                if k != i {
                    let k0 = if k < i {
                        k
                    } else {
                        k - 1
                    };
                    assert(pre[k0] == t);
                }
            }
            assert forall|t: u64| u64_set(pre).insert(x).contains(t) implies u64_set(
                post,
            ).contains(t) by {
                if t == x {
                    assert(post[i as int] == t);
                } else {
                    let k = choose|k: int| 0 <= k < pre.len() && pre[k] == t;
                    let k1 = if k < i {
                        k
                    } else {
                        k + 1
                    };
                    assert(post[k1] == t);
                }
            }
        }
    }
}

/// Whether a name lies strictly after the cursor; an absent cursor admits
/// every name.
pub open spec fn cursor_lt(cursor: Option<Seq<char>>, x: Seq<char>) -> bool {
    match cursor {
        None => true,
        Some(c) => lex_lt(c, x),
    }
}

/// The names strictly after the cursor, in list order.
pub open spec fn after_cursor(s: Seq<Seq<char>>, cursor: Option<Seq<char>>) -> Seq<Seq<char>>
    decreases s.len(),
{
    if s.len() == 0 {
        Seq::empty()
    } else {
        after_cursor(s.drop_last(), cursor) + (if cursor_lt(cursor, s.last()) {
            seq![s.last()]
        } else {
            Seq::empty()
        })
    }
}

/// A name is past the cursor exactly when the list holds it and it lies
/// strictly after the cursor.
pub proof fn lemma_after_cursor_membership(s: Seq<Seq<char>>, c: Option<Seq<char>>, x: Seq<char>)
    ensures
        after_cursor(s, c).contains(x) <==> (s.contains(x) && cursor_lt(c, x)),
    decreases s.len(),
{
    if s.len() > 0 {
        lemma_after_cursor_membership(s.drop_last(), c, x);
        let head = after_cursor(s.drop_last(), c);
        let whole = after_cursor(s, c);
        if head.contains(x) {
            let i = choose|i: int| 0 <= i < head.len() && head[i] == x;
            assert(whole[i] == x);
            let j = choose|j: int| 0 <= j < s.drop_last().len() && s.drop_last()[j] == x;
            assert(s[j] == x);
        }
        if cursor_lt(c, s.last()) {
            assert(whole.last() == s.last());
            assert(whole.contains(s.last()));
        }
        if whole.contains(x) {
            let i = choose|i: int| 0 <= i < whole.len() && whole[i] == x;
            if i < head.len() {
                assert(head[i] == x);
            } else {
                assert(x == s.last());
                assert(s[s.len() - 1] == x);
            }
        }
        if s.contains(x) && cursor_lt(c, x) {
            let j = choose|j: int| 0 <= j < s.len() && s[j] == x;
            if j < s.len() - 1 {
                assert(s.drop_last()[j] == x);
                let i = choose|i: int| 0 <= i < head.len() && head[i] == x;
                assert(whole[i] == x);
            }
        }
    }
}

/// Cutting a sorted list at a cursor keeps it sorted.
pub proof fn lemma_after_cursor_sorted(s: Seq<Seq<char>>, c: Option<Seq<char>>)
    requires
        sorted_strict(s),
    ensures
        sorted_strict(after_cursor(s, c)),
    decreases s.len(),
{
    if s.len() > 0 {
        assert forall|i: int, j: int| 0 <= i < j < s.drop_last().len() implies lex_lt(
            #[trigger] s.drop_last()[i],
            #[trigger] s.drop_last()[j],
        ) by {
            assert(s.drop_last()[i] == s[i] && s.drop_last()[j] == s[j]);
        }
        lemma_after_cursor_sorted(s.drop_last(), c);
        let head = after_cursor(s.drop_last(), c);
        let whole = after_cursor(s, c);
        if cursor_lt(c, s.last()) {
            assert forall|i: int, j: int| 0 <= i < j < whole.len() implies lex_lt(
                #[trigger] whole[i],
                #[trigger] whole[j],
            ) by {
                if j < head.len() {
                    assert(whole[i] == head[i] && whole[j] == head[j]);
                } else {
                    assert(whole[j] == s.last());
                    assert(whole[i] == head[i]);
                    assert(head.contains(head[i]));
                    lemma_after_cursor_membership(s.drop_last(), c, head[i]);
                    let k = choose|k: int|
                        0 <= k < s.drop_last().len() && s.drop_last()[k] == head[i];
                    assert(s[k] == head[i]);
                    assert(lex_lt(s[k], s[s.len() - 1]));
                }
            }
        } else {
            assert(whole =~= head);
        }
    }
}

/// Two sorted duplicate-free lists holding the same names are the same
/// list: a sorted listing is determined by what it holds.
pub proof fn lemma_sorted_unique_seqs_equal(a: Seq<Seq<char>>, b: Seq<Seq<char>>)
    requires
        sorted_strict(a),
        sorted_strict(b),
        name_set(a) == name_set(b),
    ensures
        a == b,
    decreases a.len(),
{
    if a.len() == 0 {
        if b.len() > 0 {
            assert(name_set(b).contains(b[0]));
            assert(name_set(a).contains(b[0]));
            assert(false);
        }
        assert(a =~= b);
    } else if b.len() == 0 {
        assert(name_set(a).contains(a[0]));
        assert(name_set(b).contains(a[0]));
        assert(false);
    } else {
        let la = a.last();
        let lb = b.last();
        assert(name_set(a).contains(la)) by {
            assert(a[a.len() - 1] == la);
        }
        assert(name_set(b).contains(lb)) by {
            assert(b[b.len() - 1] == lb);
        }
        let i = choose|i: int| 0 <= i < b.len() && b[i] == la;
        let j = choose|j: int| 0 <= j < a.len() && a[j] == lb;
        if i < b.len() - 1 {
            assert(lex_lt(la, lb));
        }
        if j < a.len() - 1 {
            assert(lex_lt(lb, la));
        }
        if la != lb {
            lemma_lex_lt_total(la, lb);
            lemma_lex_lt_transitive(la, lb, la);
            lemma_lex_lt_irreflexive(la);
        }
        assert(la == lb);
        assert forall|t: Seq<char>|
            name_set(a.drop_last()).contains(t) == name_set(b.drop_last()).contains(t) by {
            if name_set(a.drop_last()).contains(t) {
                let k = choose|k: int| 0 <= k < a.drop_last().len() && a.drop_last()[k] == t;
                assert(a[k] == t);
                assert(lex_lt(t, la));
                lemma_lex_lt_irreflexive(t);
                assert(name_set(a).contains(t));
                let m = choose|m: int| 0 <= m < b.len() && b[m] == t;
                if m == b.len() - 1 {
                    assert(false);
                }
                assert(b.drop_last()[m] == t);
            }
            if name_set(b.drop_last()).contains(t) {
                let k = choose|k: int| 0 <= k < b.drop_last().len() && b.drop_last()[k] == t;
                assert(b[k] == t);
                assert(lex_lt(t, lb));
                lemma_lex_lt_irreflexive(t);
                assert(name_set(b).contains(t));
                let m = choose|m: int| 0 <= m < a.len() && a[m] == t;
                if m == a.len() - 1 {
                    assert(false);
                }
                assert(a.drop_last()[m] == t);
            }
        }
        assert(name_set(a.drop_last()) =~= name_set(b.drop_last()));
        assert forall|x: int, y: int| 0 <= x < y < a.drop_last().len() implies lex_lt(
            #[trigger] a.drop_last()[x],
            #[trigger] a.drop_last()[y],
        ) by {
            assert(a.drop_last()[x] == a[x] && a.drop_last()[y] == a[y]);
        }
        assert forall|x: int, y: int| 0 <= x < y < b.drop_last().len() implies lex_lt(
            #[trigger] b.drop_last()[x],
            #[trigger] b.drop_last()[y],
        ) by {
            assert(b.drop_last()[x] == b[x] && b.drop_last()[y] == b[y]);
        }
        lemma_sorted_unique_seqs_equal(a.drop_last(), b.drop_last());
        assert(a.drop_last().len() == a.len() - 1);
        assert(b.drop_last().len() == b.len() - 1);
        assert forall|i: int| 0 <= i < a.len() implies #[trigger] a[i] == b[i] by {
            if i < a.len() - 1 {
                assert(a.drop_last()[i] == b.drop_last()[i]);
                assert(a.drop_last()[i] == a[i]);
                assert(b.drop_last()[i] == b[i]);
            } else {
                assert(a[i] == la && b[i] == lb);
            }
        }
        assert(a =~= b);
    }
}

/// Successive pages of a sorted listing chain without overlap or
/// omission: after a truncated page, the names past the returned cursor
/// are exactly the names the page left over.
pub proof fn lemma_pages_chain(s: Seq<Seq<char>>, limit: u32, cursor: Option<Seq<char>>)
    requires
        sorted_strict(s),
        0 < limit,
        spec_page(s, Some(limit), cursor).1,
    ensures
        after_cursor(s, Some(spec_page(s, Some(limit), cursor).0.last())) == after_cursor(
            s,
            cursor,
        ).skip(limit as int),
{
    let rest = after_cursor(s, cursor);
    let page = spec_page(s, Some(limit), cursor).0;
    lemma_after_cursor_sorted(s, cursor);
    assert(page.len() == limit as int);
    assert(page.last() == rest[limit - 1]);
    let x = rest[limit - 1];
    assert(rest.contains(x)) by {
        assert(rest[limit - 1] == x);
    }
    lemma_after_cursor_membership(s, cursor, x);
    let lhs = after_cursor(s, Some(x));
    let rhs = rest.skip(limit as int);
    lemma_after_cursor_sorted(s, Some(x));
    assert forall|i: int, j: int| 0 <= i < j < rhs.len() implies lex_lt(
        #[trigger] rhs[i],
        #[trigger] rhs[j],
    ) by {
        assert(rhs[i] == rest[i + limit] && rhs[j] == rest[j + limit]);
    }
    assert forall|t: Seq<char>| name_set(lhs).contains(t) == name_set(rhs).contains(t) by {
        if name_set(lhs).contains(t) {
            let k = choose|k: int| 0 <= k < lhs.len() && lhs[k] == t;
            assert(lhs.contains(t));
            lemma_after_cursor_membership(s, Some(x), t);
            assert(s.contains(t) && lex_lt(x, t));
            assert(cursor_lt(cursor, t)) by {
                match cursor {
                    Some(c) => {
                        lemma_lex_lt_transitive(c, x, t);
                    },
                    None => {
                    },
                }
            }
            lemma_after_cursor_membership(s, cursor, t);
            let m = choose|m: int| 0 <= m < rest.len() && rest[m] == t;
            if m < limit {
                if m < limit - 1 {
                    assert(lex_lt(rest[m], rest[limit - 1]));
                    lemma_lex_lt_transitive(x, t, x);
                }
                lemma_lex_lt_irreflexive(x);
                assert(false);
            }
            assert(rhs[m - limit] == t);
        }
        if name_set(rhs).contains(t) {
            let k = choose|k: int| 0 <= k < rhs.len() && rhs[k] == t;
            assert(rest[k + limit] == t);
            assert(lex_lt(rest[limit - 1], rest[k + limit]));
            assert(rest.contains(t)) by {
                assert(rest[k + limit] == t);
            }
            lemma_after_cursor_membership(s, cursor, t);
            lemma_after_cursor_membership(s, Some(x), t);
            assert(lhs.contains(t));
            let m = choose|m: int| 0 <= m < lhs.len() && lhs[m] == t;
        }
    }
    assert(name_set(lhs) =~= name_set(rhs));
    lemma_sorted_unique_seqs_equal(lhs, rhs);
}

/// What one page of a listing holds, and whether it was truncated: the
/// first `limit` names after the cursor (all of them when `limit` is
/// absent), truncated exactly when more names remained.
pub open spec fn spec_page(
    s: Seq<Seq<char>>,
    limit: Option<u32>,
    cursor: Option<Seq<char>>,
) -> (Seq<Seq<char>>, bool) {
    let rest = after_cursor(s, cursor);
    let k = match limit {
        Some(k) => if k as int <= rest.len() {
            k as int
        } else {
            rest.len() as int
        },
        None => rest.len() as int,
    };
    (rest.take(k), k < rest.len())
}

/// One page of a sorted listing: the names after the exclusive cursor, at
/// most `limit` of them, and the continuation cursor (the last returned
/// name) when names were truncated off the page.
pub fn paginate(names: &Vec<String>, limit: Option<u32>, cursor: Option<&str>) -> (r: (
    Vec<String>,
    Option<String>,
))
    ensures
        ({
            let cur = match cursor {
                Some(c) => Some(c@),
                None => None,
            };
            let (page, truncated) = spec_page(names.deep_view(), limit, cur);
            &&& r.0.deep_view() == page
            &&& match r.1 {
                Some(next) => truncated && page.len() > 0 && next@ == page.last(),
                None => !truncated || page.len() == 0,
            }
        }),
{
    let ghost cur: Option<Seq<char>> = match cursor {
        Some(c) => Some(c@),
        None => None,
    };
    let n = names.len();
    let mut rest: Vec<String> = Vec::new();
    let mut i: usize = 0;
    proof {
        assert(names.deep_view().take(0) =~= Seq::<Seq<char>>::empty());
    }
    while i < n
        invariant
            0 <= i <= n,
            n == names@.len(),
            rest.deep_view() == after_cursor(names.deep_view().take(i as int), cur),
            cur == (match cursor {
                Some(c) => Some(c@),
                None => None,
            }),
        decreases n - i,
    {
        let keep = match cursor {
            Some(c) => str_lt(c, names[i].as_str()),
            None => true,
        };
        proof {
            assert(names.deep_view().take(i + 1).drop_last() =~= names.deep_view().take(i as int));
            assert(names.deep_view().take(i + 1).last() == names.deep_view()[i as int]);
        }
        if keep {
            let ghost prerest = rest.deep_view();
            rest.push(names[i].clone());
            proof {
                assert(rest.deep_view() =~= prerest + seq![names.deep_view()[i as int]]);
            }
        } else {
            proof {
                assert(rest.deep_view() + Seq::<Seq<char>>::empty() =~= rest.deep_view());
            }
        }
        i = i + 1;
    }
    proof {
        assert(names.deep_view().take(n as int) =~= names.deep_view());
    }
    let total = rest.len();
    let k: usize = match limit {
        Some(k) => {
            if (k as usize) <= total {
                k as usize
            } else {
                total
            }
        },
        None => total,
    };
    if k < total {
        if k == 0 {
            rest.truncate(0);
            proof {
                assert(rest.deep_view() =~= after_cursor(names.deep_view(), cur).take(0));
            }
            return (rest, None);
        }
        let next = names_last_clone(&rest, k);
        rest.truncate(k);
        proof {
            assert(rest.deep_view() =~= after_cursor(names.deep_view(), cur).take(k as int));
        }
        (rest, Some(next))
    } else {
        proof {
            assert(rest.deep_view() =~= after_cursor(names.deep_view(), cur).take(total as int));
        }
        (rest, None)
    }
}

/// Clone of the element just before `k`, the last name a truncated page
/// will keep.
fn names_last_clone(v: &Vec<String>, k: usize) -> (r: String)
    requires
        0 < k <= v@.len(),
    ensures
        r@ == v.deep_view()[k - 1],
{
    v[k - 1].clone()
}

} // verus!
