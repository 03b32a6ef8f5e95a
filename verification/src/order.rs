//! Stable ordering of windows and panes by their tmux index.

use vstd::prelude::*;
use crate::text::views_of;
use crate::model::{Pane, PaneV, Window, WindowV};

verus! {

/// Values that tmux numbers with an index.
pub trait Indexed: View + Sized {
    /// The index of a value.
    spec fn index_of(v: Self::V) -> usize;

    /// Reads the index.
    fn index(&self) -> (k: usize)
        ensures
            k == Self::index_of(self@),
    ;
}

impl Indexed for Window {
    open spec fn index_of(v: WindowV) -> usize {
        v.index
    }

    fn index(&self) -> (k: usize) {
        self.index
    }
}

impl Indexed for Pane {
    open spec fn index_of(v: PaneV) -> usize {
        v.index
    }

    fn index(&self) -> (k: usize) {
        self.index
    }
}

/// `s` with `x` placed after every element whose index is at most `x`'s and
/// before the trailing run of elements with a larger index.
pub open spec fn insert_by_index<T: Indexed>(s: Seq<T::V>, x: T::V) -> Seq<T::V>
    decreases s.len(),
{
    if s.len() == 0 || T::index_of(s.last()) <= T::index_of(x) {
        s.push(x)
    } else {
        insert_by_index::<T>(s.drop_last(), x).push(s.last())
    }
}

/// The stable sort of `s` by index: what `sort_by_key` on the index yields.
pub open spec fn sorted_by_index<T: Indexed>(s: Seq<T::V>) -> Seq<T::V>
    decreases s.len(),
{
    if s.len() == 0 {
        s
    } else {
        insert_by_index::<T>(sorted_by_index::<T>(s.drop_last()), s.last())
    }
}

/// Whether the indexes of `s` never decrease.
pub open spec fn is_index_ordered<T: Indexed>(s: Seq<T::V>) -> bool {
    forall|i: int, j: int| 0 <= i <= j < s.len() ==> T::index_of(s[i]) <= T::index_of(s[j])
}

proof fn lemma_insert_at<T: Indexed>(s: Seq<T::V>, x: T::V, j: int)
    requires
        0 <= j <= s.len(),
        forall|t: int| j <= t < s.len() ==> T::index_of(x) < T::index_of(#[trigger] s[t]),
        j == 0 || T::index_of(s[j - 1]) <= T::index_of(x),
    ensures
        insert_by_index::<T>(s, x) == s.take(j).push(x) + s.skip(j),
    decreases s.len() - j,
{
    if j == s.len() {
        assert(s.take(j) == s);
        assert(s.skip(j) =~= Seq::<T::V>::empty());
        assert(s.take(j).push(x) + s.skip(j) =~= s.push(x));
    } else {
        assert(T::index_of(x) < T::index_of(s[s.len() - 1]));
        lemma_insert_at::<T>(s.drop_last(), x, j);
        assert(s.drop_last().take(j) == s.take(j));
        assert(s.drop_last().skip(j).push(s.last()) =~= s.skip(j));
        assert((s.take(j).push(x) + s.drop_last().skip(j)).push(s.last()) =~= s.take(j).push(x)
            + s.skip(j));
    }
}

/// Sorts `v` by index, keeping the order of elements with equal index.
pub fn sort_by_index<T: Indexed>(v: &mut Vec<T>)
    ensures
        views_of(final(v)@) == sorted_by_index::<T>(views_of(old(v)@)),
{
    let ghost orig = views_of(v@);
    let n = v.len();
    let mut out: Vec<T> = Vec::new();
    let mut i: usize = 0;
    assert(orig.take(0) =~= Seq::<T::V>::empty());
    assert(orig.skip(0) == orig);
    while i < n
        invariant
            i <= n,
            n == orig.len(),
            views_of(v@) == orig.skip(i as int),
            views_of(out@) == sorted_by_index::<T>(orig.take(i as int)),
        decreases n - i,
    {
        assert(v@.len() > 0) by {
            assert(views_of(v@).len() == n - i);
        }
        let ghost before = v@;
        let x = v.remove(0);
        assert(views_of(before).len() == n - i);
        assert(v@.len() == before.len() - 1);
        assert(orig.len() == n);
        assert(views_of(before)[0] == orig[i as int]);
        assert(x@ == orig[i as int]);
        assert forall|t: int| 0 <= t < v@.len() implies #[trigger] views_of(v@)[t] == orig.skip(
            i + 1,
        )[t] by {
            assert(v@[t] == before[t + 1]);
            assert(views_of(v@)[t] == v@[t]@);
            assert(views_of(before)[t + 1] == before[t + 1]@);
            assert(views_of(before)[t + 1] == orig.skip(i as int)[t + 1]);
            assert(orig.skip(i as int)[t + 1] == orig[i + 1 + t]);
            assert(orig.skip(i + 1)[t] == orig[i + 1 + t]);
        }
        assert(views_of(before).len() == n - i);
        assert(views_of(v@).len() == orig.skip(i + 1).len());
        assert(views_of(v@) =~= orig.skip(i + 1));
        let k = x.index();
        let ghost cur = views_of(out@);
        let mut j: usize = out.len();
        while j > 0 && out[j - 1].index() > k
            invariant
                j <= out@.len(),
                cur == views_of(out@),
                k == T::index_of(x@),
                forall|t: int| j <= t < out@.len() ==> k < T::index_of(#[trigger] cur[t]),
            decreases j,
        {
            j -= 1;
        }
        proof {
            lemma_insert_at::<T>(cur, x@, j as int);
            assert(orig.take(i + 1).drop_last() == orig.take(i as int));
        }
        out.insert(j, x);
        assert(views_of(out@) =~= cur.take(j as int).push(x@) + cur.skip(j as int));
        i += 1;
    }
    assert(orig.take(n as int) == orig);
    *v = out;
}

/// Inserting keeps a sequence ordered, adds one element, and adds no index
/// above a bound that `s` and `x` stay under.
pub proof fn lemma_insert_ordered<T: Indexed>(s: Seq<T::V>, x: T::V, bound: usize)
    requires
        is_index_ordered::<T>(s),
        forall|i: int| 0 <= i < s.len() ==> T::index_of(#[trigger] s[i]) <= bound,
        T::index_of(x) <= bound,
    ensures
        is_index_ordered::<T>(insert_by_index::<T>(s, x)),
        insert_by_index::<T>(s, x).len() == s.len() + 1,
        forall|i: int|
            0 <= i < s.len() + 1 ==> T::index_of(#[trigger] insert_by_index::<T>(s, x)[i]) <= bound,
    decreases s.len(),
{
    let r = insert_by_index::<T>(s, x);
    if s.len() == 0 || T::index_of(s.last()) <= T::index_of(x) {
        assert(r == s.push(x));
        assert forall|i: int, j: int| 0 <= i <= j < r.len() implies T::index_of(r[i]) <= T::index_of(
            r[j],
        ) by {
            if j == s.len() && i < s.len() {
                assert(T::index_of(s[i]) <= T::index_of(s[s.len() - 1]));
            }
        }
    } else {
        let last = s.last();
        let d = s.drop_last();
        assert forall|i: int, j: int| 0 <= i <= j < d.len() implies T::index_of(d[i]) <= T::index_of(
            d[j],
        ) by {
            assert(d[i] == s[i] && d[j] == s[j]);
        }
        assert forall|i: int| 0 <= i < d.len() implies T::index_of(#[trigger] d[i]) <= T::index_of(
            last,
        ) by {
            assert(d[i] == s[i]);
        }
        lemma_insert_ordered::<T>(d, x, T::index_of(last));
        let m = insert_by_index::<T>(d, x);
        assert(r == m.push(last));
        assert forall|i: int, j: int| 0 <= i <= j < r.len() implies T::index_of(r[i]) <= T::index_of(
            r[j],
        ) by {
            if j == m.len() && i < m.len() {
                assert(T::index_of(m[i]) <= T::index_of(last));
            }
        }
        assert forall|i: int| 0 <= i < r.len() implies T::index_of(#[trigger] r[i]) <= bound by {
            if i < m.len() {
                assert(T::index_of(m[i]) <= T::index_of(last));
            }
        }
    }
}

/// The stable sort by index is ordered by index and keeps the length.
pub proof fn lemma_sorted_is_ordered<T: Indexed>(s: Seq<T::V>)
    ensures
        is_index_ordered::<T>(sorted_by_index::<T>(s)),
        sorted_by_index::<T>(s).len() == s.len(),
    decreases s.len(),
{
    if s.len() > 0 {
        lemma_sorted_is_ordered::<T>(s.drop_last());
        lemma_insert_ordered::<T>(sorted_by_index::<T>(s.drop_last()), s.last(), usize::MAX);
    }
}

/// Whether no two elements of `s` share an index.
pub open spec fn distinct_indexes<T: Indexed>(s: Seq<T::V>) -> bool {
    forall|i: int, j: int|
        0 <= i < j < s.len() ==> T::index_of(#[trigger] s[i]) != T::index_of(#[trigger] s[j])
}

/// Whether some element of `s` has index `k`.
pub open spec fn has_index<T: Indexed>(s: Seq<T::V>, k: usize) -> bool {
    exists|i: int| 0 <= i < s.len() && T::index_of(#[trigger] s[i]) == k
}

proof fn lemma_insert_distinct<T: Indexed>(s: Seq<T::V>, x: T::V)
    requires
        distinct_indexes::<T>(s),
        !has_index::<T>(s, T::index_of(x)),
    ensures
        distinct_indexes::<T>(insert_by_index::<T>(s, x)),
        forall|k: usize|
            has_index::<T>(insert_by_index::<T>(s, x), k) <==> (has_index::<T>(s, k) || k
                == T::index_of(x)),
    decreases s.len(),
{
    let r = insert_by_index::<T>(s, x);
    if s.len() == 0 || T::index_of(s.last()) <= T::index_of(x) {
        assert(r == s.push(x));
        assert forall|k: usize| has_index::<T>(r, k) <==> (has_index::<T>(s, k) || k == T::index_of(
            x,
        )) by {
            if has_index::<T>(r, k) {
                let i = choose|i: int| 0 <= i < r.len() && T::index_of(#[trigger] r[i]) == k;
                if i < s.len() {
                    assert(r[i] == s[i]);
                }
            }
            if has_index::<T>(s, k) {
                let i = choose|i: int| 0 <= i < s.len() && T::index_of(#[trigger] s[i]) == k;
                assert(r[i] == s[i]);
            }
            if k == T::index_of(x) {
                assert(r[s.len() as int] == x);
            }
        }
        assert forall|i: int, j: int| 0 <= i < j < r.len() implies T::index_of(#[trigger] r[i])
            != T::index_of(#[trigger] r[j]) by {
            if j == s.len() {
                assert(r[i] == s[i]);
            } else {
                assert(r[i] == s[i] && r[j] == s[j]);
            }
        }
    } else {
        let last = s.last();
        let d = s.drop_last();
        assert forall|i: int, j: int| 0 <= i < j < d.len() implies T::index_of(#[trigger] d[i])
            != T::index_of(#[trigger] d[j]) by {
            assert(d[i] == s[i] && d[j] == s[j]);
        }
        assert(!has_index::<T>(d, T::index_of(x))) by {
            if has_index::<T>(d, T::index_of(x)) {
                let i = choose|i: int| 0 <= i < d.len() && T::index_of(#[trigger] d[i]) == T::index_of(x);
                assert(s[i] == d[i]);
            }
        }
        lemma_insert_distinct::<T>(d, x);
        let m = insert_by_index::<T>(d, x);
        assert(r == m.push(last));
        assert(!has_index::<T>(m, T::index_of(last))) by {
            if has_index::<T>(d, T::index_of(last)) {
                let i = choose|i: int| 0 <= i < d.len() && T::index_of(#[trigger] d[i]) == T::index_of(
                    last,
                );
                assert(s[i] == d[i]);
                assert(s[s.len() - 1] == last);
            }
            assert(T::index_of(last) != T::index_of(x)) by {
                if T::index_of(last) == T::index_of(x) {
                    assert(s[s.len() - 1] == last);
                }
            }
        }
        assert forall|k: usize| has_index::<T>(r, k) <==> (has_index::<T>(s, k) || k == T::index_of(
            x,
        )) by {
            if has_index::<T>(r, k) {
                let i = choose|i: int| 0 <= i < r.len() && T::index_of(#[trigger] r[i]) == k;
                if i < m.len() {
                    assert(r[i] == m[i]);
                    assert(has_index::<T>(m, k));
                    if has_index::<T>(d, k) {
                        let t = choose|t: int| 0 <= t < d.len() && T::index_of(#[trigger] d[t]) == k;
                        assert(s[t] == d[t]);
                    }
                } else {
                    assert(s[s.len() - 1] == last);
                }
            }
            if has_index::<T>(s, k) {
                let i = choose|i: int| 0 <= i < s.len() && T::index_of(#[trigger] s[i]) == k;
                if i < d.len() {
                    assert(d[i] == s[i]);
                    assert(has_index::<T>(d, k));
                    assert(has_index::<T>(m, k));
                    let t = choose|t: int| 0 <= t < m.len() && T::index_of(#[trigger] m[t]) == k;
                    assert(r[t] == m[t]);
                } else {
                    assert(r[m.len() as int] == last);
                }
            }
            if k == T::index_of(x) {
                assert(has_index::<T>(m, k));
                let t = choose|t: int| 0 <= t < m.len() && T::index_of(#[trigger] m[t]) == k;
                assert(r[t] == m[t]);
            }
        }
        assert forall|i: int, j: int| 0 <= i < j < r.len() implies T::index_of(#[trigger] r[i])
            != T::index_of(#[trigger] r[j]) by {
            if j == m.len() {
                assert(r[i] == m[i]);
                assert(r[j] == last);
                if T::index_of(m[i]) == T::index_of(last) {
                    assert(has_index::<T>(m, T::index_of(last)));
                }
            } else {
                assert(r[i] == m[i] && r[j] == m[j]);
            }
        }
    }
}

/// Sorting keeps indexes distinct, and keeps the set of indexes present.
pub proof fn lemma_sorted_distinct<T: Indexed>(s: Seq<T::V>)
    requires
        distinct_indexes::<T>(s),
    ensures
        distinct_indexes::<T>(sorted_by_index::<T>(s)),
        forall|k: usize| has_index::<T>(sorted_by_index::<T>(s), k) <==> has_index::<T>(s, k),
    decreases s.len(),
{
    if s.len() > 0 {
        let d = s.drop_last();
        let last = s.last();
        assert forall|i: int, j: int| 0 <= i < j < d.len() implies T::index_of(#[trigger] d[i])
            != T::index_of(#[trigger] d[j]) by {
            assert(d[i] == s[i] && d[j] == s[j]);
        }
        lemma_sorted_distinct::<T>(d);
        let sd = sorted_by_index::<T>(d);
        assert(!has_index::<T>(sd, T::index_of(last))) by {
            if has_index::<T>(d, T::index_of(last)) {
                let i = choose|i: int| 0 <= i < d.len() && T::index_of(#[trigger] d[i]) == T::index_of(
                    last,
                );
                assert(s[i] == d[i]);
                assert(s[s.len() - 1] == last);
            }
        }
        lemma_insert_distinct::<T>(sd, last);
        assert forall|k: usize| has_index::<T>(sorted_by_index::<T>(s), k) <==> has_index::<T>(
            s,
            k,
        ) by {
            if has_index::<T>(d, k) {
                let i = choose|i: int| 0 <= i < d.len() && T::index_of(#[trigger] d[i]) == k;
                assert(s[i] == d[i]);
            }
            if has_index::<T>(s, k) {
                let i = choose|i: int| 0 <= i < s.len() && T::index_of(#[trigger] s[i]) == k;
                if i < d.len() {
                    assert(d[i] == s[i]);
                } else {
                    assert(s[i] == last);
                }
            }
        }
    }
}

/// Whether a value has index `k`.
pub open spec fn has_index_k<T: Indexed>(k: usize) -> spec_fn(T::V) -> bool {
    |v: T::V| T::index_of(v) == k
}

pub(crate) proof fn lemma_filter_push<A>(s: Seq<A>, x: A, p: spec_fn(A) -> bool)
    ensures
        s.push(x).filter(p) == (if p(x) {
            s.filter(p).push(x)
        } else {
            s.filter(p)
        }),
{
    reveal_with_fuel(Seq::filter, 1);
    assert(s.push(x).drop_last() =~= s);
}

proof fn lemma_insert_stable<T: Indexed>(s: Seq<T::V>, x: T::V, k: usize)
    ensures
        insert_by_index::<T>(s, x).filter(has_index_k::<T>(k)) == (if T::index_of(x) == k {
            s.filter(has_index_k::<T>(k)).push(x)
        } else {
            s.filter(has_index_k::<T>(k))
        }),
    decreases s.len(),
{
    let p = has_index_k::<T>(k);
    if s.len() == 0 || T::index_of(s.last()) <= T::index_of(x) {
        lemma_filter_push(s, x, p);
    } else {
        let d = s.drop_last();
        lemma_insert_stable::<T>(d, x, k);
        lemma_filter_push(insert_by_index::<T>(d, x), s.last(), p);
        lemma_filter_push(d, s.last(), p);
        assert(d.push(s.last()) =~= s);
    }
}

/// The sort is stable: the elements with any one index come out in the order
/// they went in.
pub proof fn lemma_sort_is_stable<T: Indexed>(s: Seq<T::V>, k: usize)
    ensures
        sorted_by_index::<T>(s).filter(has_index_k::<T>(k)) == s.filter(has_index_k::<T>(k)),
    decreases s.len(),
{
    if s.len() > 0 {
        let d = s.drop_last();
        lemma_sort_is_stable::<T>(d, k);
        lemma_insert_stable::<T>(sorted_by_index::<T>(d), s.last(), k);
        lemma_filter_push(d, s.last(), has_index_k::<T>(k));
        assert(d.push(s.last()) =~= s);
    }
}

proof fn lemma_insert_elements<T: Indexed>(s: Seq<T::V>, x: T::V)
    ensures
        forall|j: int|
            0 <= j < insert_by_index::<T>(s, x).len() ==> #[trigger] insert_by_index::<T>(s, x)[j]
                == x || s.contains(insert_by_index::<T>(s, x)[j]),
        insert_by_index::<T>(s, x).len() == s.len() + 1,
    decreases s.len(),
{
    if s.len() == 0 || T::index_of(s.last()) <= T::index_of(x) {
        assert forall|j: int| 0 <= j < s.push(x).len() implies #[trigger] s.push(x)[j] == x
            || s.contains(s.push(x)[j]) by {
            if j < s.len() {
                assert(s.push(x)[j] == s[j]);
            }
        }
    } else {
        let d = s.drop_last();
        lemma_insert_elements::<T>(d, x);
        let u = insert_by_index::<T>(d, x);
        assert forall|j: int| 0 <= j < u.push(s.last()).len() implies #[trigger] u.push(
            s.last(),
        )[j] == x || s.contains(u.push(s.last())[j]) by {
            if j < u.len() {
                assert(u.push(s.last())[j] == u[j]);
                if u[j] != x {
                    let t = choose|t: int| 0 <= t < d.len() && d[t] == u[j];
                    assert(s[t] == d[t]);
                }
            } else {
                assert(s[s.len() - 1] == s.last());
            }
        }
    }
}

/// Every element of the sorted sequence is one of `s`.
pub proof fn lemma_sorted_elements<T: Indexed>(s: Seq<T::V>)
    ensures
        forall|j: int|
            0 <= j < sorted_by_index::<T>(s).len() ==> s.contains(
                #[trigger] sorted_by_index::<T>(s)[j],
            ),
    decreases s.len(),
{
    if s.len() > 0 {
        let d = s.drop_last();
        lemma_sorted_elements::<T>(d);
        let sd = sorted_by_index::<T>(d);
        lemma_insert_elements::<T>(sd, s.last());
        assert forall|j: int| 0 <= j < sorted_by_index::<T>(s).len() implies s.contains(
            #[trigger] sorted_by_index::<T>(s)[j],
        ) by {
            let e = sorted_by_index::<T>(s)[j];
            if e == s.last() {
                assert(s[s.len() - 1] == e);
            } else {
                assert(sd.contains(e));
                let t = choose|t: int| 0 <= t < sd.len() && sd[t] == e;
                assert(d.contains(sd[t]));
                let u = choose|u: int| 0 <= u < d.len() && d[u] == e;
                assert(s[u] == e);
            }
        }
    }
}

} // verus!
