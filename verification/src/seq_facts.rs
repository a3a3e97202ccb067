//! Facts about filtering sequences, used by the stores' proofs.

use vstd::prelude::*;

verus! {

/// Filtering keeps any relation that holds between every earlier and later element.
pub proof fn lemma_filter_keeps_order<A>(s: Seq<A>, p: spec_fn(A) -> bool, rel: spec_fn(A, A) -> bool)
    requires
        forall|i: int, j: int| 0 <= i < j < s.len() ==> #[trigger] rel(s[i], s[j]),
    ensures
        forall|i: int, j: int|
            0 <= i < j < s.filter(p).len() ==> #[trigger] rel(s.filter(p)[i], s.filter(p)[j]),
    decreases s.len(),
{
    reveal(Seq::filter);
    if s.len() > 0 {
        let d = s.drop_last();
        assert forall|i: int, j: int| 0 <= i < j < d.len() implies #[trigger] rel(d[i], d[j]) by {
            assert(d[i] == s[i] && d[j] == s[j]);
        }
        lemma_filter_keeps_order(d, p, rel);
        let f = d.filter(p);
        if p(s.last()) {
            let g = f.push(s.last());
            assert forall|i: int, j: int| 0 <= i < j < g.len() implies #[trigger] rel(g[i], g[j]) by {
                if j < f.len() {
                    assert(g[i] == f[i] && g[j] == f[j]);
                } else {
                    assert(g[i] == f[i]);
                    assert(f.contains(f[i]));
                    d.lemma_filter_contains_rev(p, f[i]);
                    let m = choose|m: int| 0 <= m < d.len() && d[m] == f[i];
                    assert(s[m] == d[m]);
                    assert(g[j] == s[s.len() - 1]);
                }
            }
        }
    }
}

/// Where `p` holds at the same places of `s` as `q` at the places of `t`, the filters are as
/// long.
pub proof fn lemma_filter_len_pointwise<A, B>(
    s: Seq<A>,
    t: Seq<B>,
    p: spec_fn(A) -> bool,
    q: spec_fn(B) -> bool,
)
    requires
        s.len() == t.len(),
        forall|i: int| 0 <= i < s.len() ==> p(#[trigger] s[i]) == q(t[i]),
    ensures
        s.filter(p).len() == t.filter(q).len(),
    decreases s.len(),
{
    reveal(Seq::filter);
    if s.len() > 0 {
        let ds = s.drop_last();
        let dt = t.drop_last();
        assert forall|i: int| 0 <= i < ds.len() implies p(#[trigger] ds[i]) == q(dt[i]) by {
            assert(ds[i] == s[i] && dt[i] == t[i]);
        }
        lemma_filter_len_pointwise(ds, dt, p, q);
        assert(p(s[s.len() - 1]) == q(t[t.len() - 1]));
    }
}

/// Filtering first by a weaker predicate changes nothing of the count of a stronger one.
pub proof fn lemma_filter_weaker_first<A>(s: Seq<A>, p: spec_fn(A) -> bool, q: spec_fn(A) -> bool)
    requires
        forall|x: A| #[trigger] p(x) ==> q(x),
    ensures
        s.filter(q).filter(p) == s.filter(p),
    decreases s.len(),
{
    reveal(Seq::filter);
    if s.len() > 0 {
        let d = s.drop_last();
        lemma_filter_weaker_first(d, p, q);
        let fq = d.filter(q);
        if q(s.last()) {
            assert(fq.push(s.last()).drop_last() =~= fq);
        }
    }
}

/// The count of `p` over `s` with index `k` removed.
pub proof fn lemma_filter_remove_len<A>(s: Seq<A>, p: spec_fn(A) -> bool, k: int)
    requires
        0 <= k < s.len(),
    ensures
        s.remove(k).filter(p).len() + (if p(s[k]) {
            1int
        } else {
            0int
        }) == s.filter(p).len(),
{
    let a = s.subrange(0, k);
    let b = s.subrange(k + 1, s.len() as int);
    let x = seq![s[k]];
    assert(s.remove(k) =~= a + b);
    assert(s =~= (a + x) + b);
    Seq::filter_distributes_over_add(a, b, p);
    Seq::filter_distributes_over_add(a + x, b, p);
    Seq::filter_distributes_over_add(a, x, p);
    reveal_with_fuel(Seq::filter, 2);
    assert(x.drop_last() =~= Seq::<A>::empty());
}

/// Filtering a sequence filters a prefix and the rest of it separately.
pub proof fn lemma_filter_split<A>(s: Seq<A>, p: spec_fn(A) -> bool, j: int)
    requires
        0 <= j <= s.len(),
    ensures
        s.filter(p) == s.subrange(0, j).filter(p) + s.subrange(j, s.len() as int).filter(p),
{
    assert(s =~= s.subrange(0, j) + s.subrange(j, s.len() as int));
    Seq::filter_distributes_over_add(s.subrange(0, j), s.subrange(j, s.len() as int), p);
}

/// Filtering twice keeps what satisfies both predicates.
pub proof fn lemma_filter_filter<A>(s: Seq<A>, p: spec_fn(A) -> bool, q: spec_fn(A) -> bool)
    ensures
        s.filter(p).filter(q) == s.filter(|x: A| p(x) && q(x)),
    decreases s.len(),
{
    let pq = |x: A| p(x) && q(x);
    if s.len() == 0 {
        reveal(Seq::filter);
        assert(s.filter(p) =~= Seq::<A>::empty());
        assert(s.filter(p).filter(q) =~= Seq::<A>::empty());
        assert(s.filter(pq) =~= Seq::<A>::empty());
    } else {
        let init = s.drop_last();
        let x = s.last();
        assert(s =~= init.push(x));
        lemma_filter_filter(init, p, q);
        lemma_filter_push(init, p, x);
        lemma_filter_push(init, pq, x);
        lemma_filter_push(init.filter(p), q, x);
    }
}

/// A sequence with one more element contains what the shorter one does and that element.
pub proof fn lemma_push_contains<A>(s: Seq<A>, x: A, y: A)
    ensures
        s.push(x).contains(y) == (s.contains(y) || y == x),
{
    if s.contains(y) {
        let k = choose|k: int| 0 <= k < s.len() && s[k] == y;
        assert(s.push(x)[k] == y);
    }
    if y == x {
        assert(s.push(x)[s.len() as int] == y);
    }
    if s.push(x).contains(y) {
        let k = choose|k: int| 0 <= k < s.push(x).len() && s.push(x)[k] == y;
        if k < s.len() {
            assert(s[k] == y);
        }
    }
}

/// Appending one element adds it to the filter where it qualifies.
pub proof fn lemma_filter_push<A>(s: Seq<A>, p: spec_fn(A) -> bool, x: A)
    ensures
        s.push(x).filter(p) == if p(x) {
            s.filter(p).push(x)
        } else {
            s.filter(p)
        },
{
    reveal(Seq::filter);
    assert(s.push(x).drop_last() =~= s);
}

/// An element of a filtered sequence satisfies the predicate and is an element of the sequence.
pub proof fn lemma_filter_elem<A>(s: Seq<A>, p: spec_fn(A) -> bool, i: int)
    requires
        0 <= i < s.filter(p).len(),
    ensures
        p(s.filter(p)[i]),
        exists|m: int| 0 <= m < s.len() && s[m] == #[trigger] s.filter(p)[i],
{
    broadcast use vstd::seq_lib::group_filter_ensures;

    assert(s.filter(p).contains(s.filter(p)[i]));
    s.lemma_filter_contains_rev(p, s.filter(p)[i]);
}

/// Nothing is filtered out where every element qualifies, and everything where none does.
pub proof fn lemma_filter_all_or_none<A>(s: Seq<A>, p: spec_fn(A) -> bool)
    ensures
        (forall|i: int| 0 <= i < s.len() ==> p(#[trigger] s[i])) ==> s.filter(p) == s,
        (forall|i: int| 0 <= i < s.len() ==> !p(#[trigger] s[i])) ==> s.filter(p).len() == 0,
    decreases s.len(),
{
    reveal(Seq::filter);
    if s.len() > 0 {
        let d = s.drop_last();
        lemma_filter_all_or_none(d, p);
        if forall|i: int| 0 <= i < s.len() ==> p(#[trigger] s[i]) {
            assert(forall|i: int| 0 <= i < d.len() ==> p(#[trigger] d[i]) == p(s[i]));
            assert(p(s[s.len() - 1]));
            assert(d.push(s.last()) =~= s);
        }
        if forall|i: int| 0 <= i < s.len() ==> !p(#[trigger] s[i]) {
            assert(forall|i: int| 0 <= i < d.len() ==> p(#[trigger] d[i]) == p(s[i]));
            assert(!p(s[s.len() - 1]));
        }
    }
}

} // verus!
