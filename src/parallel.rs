use vstd::prelude::*;

use rayon::iter::{IndexedParallelIterator, IntoParallelIterator, ParallelIterator};

use crate::columns::{bits_get, bits_of, BitColumn};
use crate::exclusions::{Exclusion, Side};
use crate::metric::Metric;
use crate::search::{
    column_bits, columns_match, hits, is_candidate, lemma_hit_is_candidate, lemma_positions,
    make_column, partition_sides, positions, sides_of, spec_sides,
};

verus! {

/// Relies on rayon's `into_par_iter` over `0..n`, `with_min_len`, `map` and
/// `collect_into_vec`: the vector holds `f(0), ..., f(n - 1)`, in that order,
/// however the work was split.
#[verifier::external_body]
fn par_map_range<R, F>(n: usize, grain: usize, f: F) -> (r: Vec<R>) where
    R: Send,
    F: Fn(usize) -> R + Send + Sync,

    requires
        forall|i: usize| i < n ==> f.requires((i,)),
    ensures
        r@.len() == n,
        forall|i: int| 0 <= i < n ==> f.ensures((i as usize,), #[trigger] r@[i]),
{
    let mut out = Vec::new();
    (0..n).into_par_iter().with_min_len(grain).map(f).collect_into_vec(&mut out);
    out
}

/// The contribution of point `i` to the answer of a range query.
pub open spec fn hit_at<T: Metric>(data: Seq<T>, q: T, tau: nat, i: int) -> Option<(T, u64)> {
    if q.dist(data[i]) <= tau {
        Some((data[i], q.dist(data[i]) as u64))
    } else {
        None
    }
}

/// An immutable range-search index whose columns are built in parallel and
/// whose queries test points in parallel, `job_size` points per task at
/// least. With no `job_size` queries run on the calling thread.
pub struct ParallelBitPart<T: Metric + Send + Sync> {
    dataset: Vec<T>,
    exclusions: Vec<Exclusion<T>>,
    bitset: Vec<BitColumn>,
    job_size: Option<u64>,
}

impl<T: Metric + Send + Sync> ParallelBitPart<T> {
    #[verifier::type_invariant]
    spec fn well_formed(self) -> bool {
        &&& columns_match(self.dataset@, self.exclusions@, self.bitset@)
        &&& self.dataset@.len() <= usize::MAX / 8
    }

    /// The indexed points.
    pub closed spec fn data(&self) -> Seq<T> {
        self.dataset@
    }

    /// The exclusion regions, one bit-column each.
    pub closed spec fn spec_exclusions(&self) -> Seq<Exclusion<T>> {
        self.exclusions@
    }

    /// The number of points each query task tests at least, if queries run
    /// in parallel.
    pub closed spec fn spec_job_size(&self) -> Option<u64> {
        self.job_size
    }

    /// Builds the bit-columns of `exclusions` over `dataset`, one task per
    /// column.
    pub(crate) fn setup(dataset: Vec<T>, exclusions: Vec<Exclusion<T>>, job_size: Option<u64>) -> (r:
        Self)
        requires
            dataset@.len() <= usize::MAX / 8,
        ensures
            r.data() == dataset@,
            r.spec_exclusions() == exclusions@,
            r.spec_job_size() == job_size,
    {
        let bitset = Self::make_bitset(&dataset, &exclusions);
        ParallelBitPart { dataset, exclusions, bitset, job_size }
    }

    /// The bit-columns of every exclusion region, one task per column.
    fn make_bitset(dataset: &Vec<T>, exclusions: &Vec<Exclusion<T>>) -> (r: Vec<BitColumn>)
        requires
            dataset@.len() <= usize::MAX / 8,
        ensures
            columns_match(dataset@, exclusions@, r@),
    {
        let column = move |e: usize| -> (c: BitColumn)
            requires
                e < exclusions@.len(),
                dataset@.len() <= usize::MAX / 8,
            ensures
                bits_of(c) == column_bits(exclusions@[e as int], dataset@),
            {
                make_column(&exclusions[e], dataset)
            };
        let bitset = par_map_range(exclusions.len(), 1, column);
        assert forall|e: int| 0 <= e < bitset@.len() implies #[trigger] bits_of(bitset@[e])
            == column_bits(exclusions@[e], dataset@) by {
            assert(bits_of(bitset@[e]) == column_bits(exclusions@[(e as usize) as int], dataset@));
        }
        bitset
    }

    /// Tests point `i` against the columns of `ins` and `outs`, then against
    /// the threshold.
    fn check_point(&self, point: &T, threshold: u64, ins: &Vec<usize>, outs: &Vec<usize>, i: usize) -> (r:
        Option<(T, u64)>)
        requires
            i < self.data().len(),
            ins@ == positions(spec_sides(self.spec_exclusions(), *point, threshold as nat), Side::In),
            outs@ == positions(spec_sides(self.spec_exclusions(), *point, threshold as nat), Side::Out),
        ensures
            r == hit_at(self.data(), *point, threshold as nat, i as int),
    {
        proof {
            use_type_invariant(self);
        }
        let n = self.dataset.len();
        let m = self.exclusions.len();
        let ghost sides = spec_sides(self.exclusions@, *point, threshold as nat);
        proof {
            lemma_positions(sides, Side::In);
            lemma_positions(sides, Side::Out);
        }
        let mut keep = true;
        let mut k: usize = 0;
        while k < ins.len()
            invariant
                n == self.dataset@.len(),
                i < n,
                m == self.exclusions@.len(),
                columns_match(self.dataset@, self.exclusions@, self.bitset@),
                forall|j: int| 0 <= j < ins@.len() ==> #[trigger] ins@[j] < m,
                k <= ins@.len(),
                keep == (forall|j: int|
                    0 <= j < k ==> #[trigger] bits_of(self.bitset@[ins@[j] as int])[i as int]),
            decreases ins@.len() - k,
        {
            let e = ins[k];
            assert(bits_of(self.bitset@[e as int]) == column_bits(self.exclusions@[e as int], self.dataset@));
            let bit = bits_get(&self.bitset[e], i);
            keep = keep && bit;
            k = k + 1;
        }
        let mut hit_out = false;
        let mut k: usize = 0;
        while k < outs.len()
            invariant
                n == self.dataset@.len(),
                i < n,
                m == self.exclusions@.len(),
                columns_match(self.dataset@, self.exclusions@, self.bitset@),
                forall|j: int| 0 <= j < outs@.len() ==> #[trigger] outs@[j] < m,
                k <= outs@.len(),
                hit_out == (exists|j: int|
                    0 <= j < k && #[trigger] bits_of(self.bitset@[outs@[j] as int])[i as int]),
            decreases outs@.len() - k,
        {
            let e = outs[k];
            assert(bits_of(self.bitset@[e as int]) == column_bits(self.exclusions@[e as int], self.dataset@));
            let bit = bits_get(&self.bitset[e], i);
            if bit {
                assert(bits_of(self.bitset@[outs@[k as int] as int])[i as int]);
            }
            hit_out = hit_out || bit;
            k = k + 1;
        }
        if keep && !hit_out {
            let p = self.dataset[i];
            let d = point.distance(&p);
            if d <= threshold {
                Some((p, d))
            } else {
                None
            }
        } else {
            proof {
                if point.dist(self.dataset@[i as int]) <= threshold {
                    lemma_hit_is_candidate(
                        self.dataset@,
                        self.exclusions@,
                        self.bitset@,
                        *point,
                        threshold as nat,
                        i as int,
                    );
                    assert(is_candidate(self.bitset@, ins@, outs@, i as int));
                }
            }
            None
        }
    }

    /// Every indexed point within `threshold` of `point`, with its distance
    /// from `point`, in dataset order.
    pub fn range_search(&self, point: T, threshold: u64) -> (r: Vec<(T, u64)>)
        ensures
            r@ == hits(self.data(), point, threshold as nat),
    {
        proof {
            use_type_invariant(self);
        }
        let n = self.dataset.len();
        let sides = match self.job_size {
            Some(k) => {
                let excls = &self.exclusions;
                let q = &point;
                let side = move |e: usize| -> (s: Side)
                    requires
                        e < excls@.len(),
                    ensures
                        s == excls@[e as int].spec_side(*q, threshold as nat),
                    {
                        excls[e].side(q, threshold)
                    };
                let s = par_map_range(excls.len(), k as usize, side);
                assert(s@ =~= spec_sides(self.exclusions@, point, threshold as nat));
                s
            },
            None => sides_of(&self.exclusions, &point, threshold),
        };
        let (ins, outs) = partition_sides(&sides);
        let found: Vec<Option<(T, u64)>> = match self.job_size {
            Some(k) => {
                let q = &point;
                let ins_ref = &ins;
                let outs_ref = &outs;
                let check = move |i: usize| -> (h: Option<(T, u64)>)
                    requires
                        i < self.data().len(),
                        ins_ref@ == positions(
                            spec_sides(self.spec_exclusions(), *q, threshold as nat),
                            Side::In,
                        ),
                        outs_ref@ == positions(
                            spec_sides(self.spec_exclusions(), *q, threshold as nat),
                            Side::Out,
                        ),
                    ensures
                        h == hit_at(self.data(), *q, threshold as nat, i as int),
                    {
                        self.check_point(q, threshold, ins_ref, outs_ref, i)
                    };
                par_map_range(n, k as usize, check)
            },
            None => {
                let mut found: Vec<Option<(T, u64)>> = Vec::new();
                let mut i: usize = 0;
                while i < n
                    invariant
                        n == self.dataset@.len(),
                        i <= n,
                        found@.len() == i,
                        ins@ == positions(
                            spec_sides(self.exclusions@, point, threshold as nat),
                            Side::In,
                        ),
                        outs@ == positions(
                            spec_sides(self.exclusions@, point, threshold as nat),
                            Side::Out,
                        ),
                        forall|j: int|
                            0 <= j < i ==> #[trigger] found@[j] == hit_at(
                                self.dataset@,
                                point,
                                threshold as nat,
                                j,
                            ),
                    decreases n - i,
                {
                    let h = self.check_point(&point, threshold, &ins, &outs, i);
                    found.push(h);
                    i = i + 1;
                }
                found
            },
        };
        let mut out: Vec<(T, u64)> = Vec::new();
        let mut i: usize = 0;
        while i < n
            invariant
                n == self.dataset@.len(),
                i <= n,
                found@.len() == n,
                forall|j: int|
                    0 <= j < n ==> #[trigger] found@[j] == hit_at(
                        self.dataset@,
                        point,
                        threshold as nat,
                        j,
                    ),
                out@ == hits(self.dataset@.take(i as int), point, threshold as nat),
            decreases n - i,
        {
            assert(self.dataset@.take(i + 1).drop_last() =~= self.dataset@.take(i as int));
            match found[i] {
                Some(h) => out.push(h),
                None => {},
            }
            i = i + 1;
        }
        assert(self.dataset@.take(n as int) =~= self.dataset@);
        out
    }
}

} // verus!
