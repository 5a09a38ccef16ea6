use vstd::prelude::*;

use crate::builder::BitPartBuilder;
use crate::metric::Metric;
use crate::parallel::ParallelBitPart;
use crate::search::hits;
use crate::sequential::BitPart;

verus! {

broadcast use vstd::seq_lib::group_to_multiset_ensures;

/// The answer over a concatenation is the answer over each part, in turn.
pub proof fn lemma_hits_append<T: Metric>(a: Seq<T>, b: Seq<T>, q: T, tau: nat)
    ensures
        hits(a + b, q, tau) == hits(a, q, tau) + hits(b, q, tau),
    decreases b.len(),
{
    if b.len() == 0 {
        assert(a + b =~= a);
        assert(hits(a, q, tau) + hits(b, q, tau) =~= hits(a, q, tau));
    } else {
        lemma_hits_append(a, b.drop_last(), q, tau);
        assert((a + b).drop_last() =~= a + b.drop_last());
        assert((a + b).last() == b.last());
        let rest = hits(b.drop_last(), q, tau);
        if q.dist(b.last()) <= tau {
            assert(hits(a, q, tau) + rest.push((b.last(), q.dist(b.last()) as u64)) =~= (hits(
                a,
                q,
                tau,
            ) + rest).push((b.last(), q.dist(b.last()) as u64)));
        }
    }
}

/// Taking one point out of a dataset takes out of the answer, as a
/// multiset, exactly what that point contributed.
proof fn lemma_hits_remove<T: Metric>(s: Seq<T>, j: int, q: T, tau: nat)
    requires
        0 <= j < s.len(),
    ensures
        hits(s, q, tau).to_multiset() == hits(s.remove(j), q, tau).to_multiset().add(
            hits(seq![s[j]], q, tau).to_multiset(),
        ),
{
    let pre = s.subrange(0, j);
    let one = seq![s[j]];
    let post = s.subrange(j + 1, s.len() as int);
    assert(s =~= pre + one + post);
    assert(s.remove(j) =~= pre + post);
    lemma_hits_append(pre + one, post, q, tau);
    lemma_hits_append(pre, one, q, tau);
    lemma_hits_append(pre, post, q, tau);
    let hp = hits(pre, q, tau);
    let ho = hits(one, q, tau);
    let hq = hits(post, q, tau);
    vstd::seq_lib::lemma_multiset_commutative(hp + ho, hq);
    vstd::seq_lib::lemma_multiset_commutative(hp, ho);
    vstd::seq_lib::lemma_multiset_commutative(hp, hq);
    assert(hp.to_multiset().add(ho.to_multiset()).add(hq.to_multiset()) =~= hp.to_multiset().add(
        hq.to_multiset(),
    ).add(ho.to_multiset()));
}

/// The answer to a range query does not depend on the order of the
/// dataset: two datasets holding the same points, as multisets, give the
/// same answer, as multisets.
pub proof fn lemma_permutation_invariant<T: Metric>(d1: Seq<T>, d2: Seq<T>, q: T, tau: nat)
    requires
        d1.to_multiset() == d2.to_multiset(),
    ensures
        hits(d1, q, tau).to_multiset() == hits(d2, q, tau).to_multiset(),
    decreases d1.len(),
{
    if d1.len() == 0 {
        assert(d1.to_multiset().len() == 0);
        assert(d2.to_multiset().len() == d2.len());
        assert(d1 =~= d2);
    } else {
        let x = d1.last();
        let init = d1.drop_last();
        assert(d1 =~= init.push(x));
        assert(d2.to_multiset().count(x) > 0);
        assert(d2.contains(x));
        let j = choose|j: int| 0 <= j < d2.len() && d2[j] == x;
        let rest = d2.remove(j);
        assert(rest.to_multiset() =~= init.to_multiset());
        lemma_permutation_invariant(init, rest, q, tau);
        lemma_hits_remove(d2, j, q, tau);
        lemma_hits_append(init, seq![x], q, tau);
        assert(init + seq![x] =~= d1);
        vstd::seq_lib::lemma_multiset_commutative(hits(init, q, tau), hits(seq![x], q, tau));
    }
}

/// Every reported pair is a point of the dataset within `tau` of `q`, with
/// its distance; and every such point is reported.
pub proof fn lemma_hits_members<T: Metric>(d: Seq<T>, q: T, tau: nat)
    ensures
        forall|k: int|
            0 <= k < hits(d, q, tau).len() ==> d.contains(#[trigger] hits(d, q, tau)[k].0)
                && q.dist(hits(d, q, tau)[k].0) <= tau && hits(d, q, tau)[k].1 == q.dist(
                hits(d, q, tau)[k].0,
            ),
        forall|i: int|
            0 <= i < d.len() && q.dist(#[trigger] d[i]) <= tau ==> hits(d, q, tau).contains(
                (d[i], q.dist(d[i]) as u64),
            ),
    decreases d.len(),
{
    if d.len() > 0 {
        let init = d.drop_last();
        lemma_hits_members(init, q, tau);
        let h = hits(d, q, tau);
        let hi = hits(init, q, tau);
        assert forall|k: int| 0 <= k < h.len() implies d.contains(#[trigger] h[k].0) && q.dist(h[k].0)
            <= tau && h[k].1 == q.dist(h[k].0) by {
            if k < hi.len() {
                assert(h[k] == hi[k]);
                assert(init.contains(hi[k].0));
                let i = choose|i: int| 0 <= i < init.len() && init[i] == hi[k].0;
                assert(d[i] == init[i]);
            } else {
                T::lemma_dist_bounded(q, d.last());
                assert(d[d.len() - 1] == h[k].0);
            }
        }
        assert forall|i: int| 0 <= i < d.len() && q.dist(#[trigger] d[i]) <= tau implies h.contains(
            (d[i], q.dist(d[i]) as u64),
        ) by {
            if i < d.len() - 1 {
                assert(init[i] == d[i]);
                let k = choose|k: int| 0 <= k < hi.len() && hi[k] == (init[i], q.dist(init[i]) as u64);
                assert(h[k] == hi[k]);
            } else {
                assert(h[h.len() - 1] == (d[i], q.dist(d[i]) as u64));
            }
        }
    }
}

/// With a zero threshold only points at distance zero from the query are
/// reported, each with distance zero, and the query itself is reported
/// whenever it is in the dataset.
pub proof fn lemma_zero_threshold<T: Metric>(d: Seq<T>, q: T)
    ensures
        forall|k: int|
            0 <= k < hits(d, q, 0).len() ==> #[trigger] hits(d, q, 0)[k].1 == 0 && q.dist(
                hits(d, q, 0)[k].0,
            ) == 0,
        d.contains(q) ==> hits(d, q, 0).contains((q, 0u64)),
{
    lemma_hits_members(d, q, 0);
    T::lemma_dist_self(q);
    let h = hits(d, q, 0);
    assert forall|k: int| 0 <= k < h.len() implies #[trigger] h[k].1 == 0 && q.dist(h[k].0) == 0 by {
        assert(d.contains(h[k].0));
    }
    if d.contains(q) {
        let i = choose|i: int| 0 <= i < d.len() && d[i] == q;
        assert(q.dist(d[i]) <= 0);
    }
}

/// With a threshold at least as large as every distance from the query,
/// the whole dataset is reported, in order, each point with its distance.
pub proof fn lemma_large_threshold<T: Metric>(d: Seq<T>, q: T, tau: nat)
    requires
        forall|i: int| 0 <= i < d.len() ==> q.dist(#[trigger] d[i]) <= tau,
    ensures
        hits(d, q, tau) == Seq::new(d.len(), |i: int| (d[i], q.dist(d[i]) as u64)),
    decreases d.len(),
{
    if d.len() > 0 {
        let init = d.drop_last();
        assert forall|i: int| 0 <= i < init.len() implies q.dist(#[trigger] init[i]) <= tau by {
            assert(init[i] == d[i]);
        }
        lemma_large_threshold(init, q, tau);
        assert(q.dist(d[d.len() - 1]) <= tau);
        assert(hits(d, q, tau) =~= Seq::new(d.len(), |i: int| (d[i], q.dist(d[i]) as u64)));
    }
}

/// An index built in parallel and one built sequentially from the same
/// builder answer every query alike.
pub proof fn lemma_parallel_equivalence<T: Metric + Send + Sync>(
    b: BitPartBuilder<T>,
    s: BitPart<T>,
    p: ParallelBitPart<T>,
    q: T,
    tau: nat,
)
    requires
        s.data() == b.data(),
        p.data() == b.data(),
    ensures
        hits(s.data(), q, tau) == hits(p.data(), q, tau),
{
}

/// Two indices built from the same builder hold the same exclusion regions
/// and answer every query alike.
pub proof fn lemma_build_idempotent<T: Metric>(
    b: BitPartBuilder<T>,
    x: BitPart<T>,
    y: BitPart<T>,
    q: T,
    tau: nat,
)
    requires
        x.data() == b.data(),
        x.spec_exclusions() == b.spec_exclusions(),
        y.data() == b.data(),
        y.spec_exclusions() == b.spec_exclusions(),
    ensures
        x.spec_exclusions() == y.spec_exclusions(),
        hits(x.data(), q, tau) == hits(y.data(), q, tau),
{
}

/// The answer does not depend on the parameters an index was built with
/// (number of reference points, radii, sheet predicates): two indices over
/// the same dataset answer every query alike.
pub proof fn lemma_parameters_irrelevant<T: Metric>(
    b1: BitPartBuilder<T>,
    b2: BitPartBuilder<T>,
    x: BitPart<T>,
    y: BitPart<T>,
    q: T,
    tau: nat,
)
    requires
        b1.data() == b2.data(),
        x.data() == b1.data(),
        y.data() == b2.data(),
    ensures
        hits(x.data(), q, tau) == hits(y.data(), q, tau),
{
}

} // verus!
