use vstd::prelude::*;

use crate::columns::{bits_get, bits_of, BitColumn};
use crate::exclusions::{Exclusion, Side};
use crate::metric::Metric;
use crate::search::{
    candidates, columns_match, hits, lemma_hit_is_candidate, lemma_positions, make_columns,
    partition_sides, sides_of, spec_sides,
};

verus! {

/// An immutable range-search index, queried with whole-column bit
/// operations.
pub struct BitPart<T: Metric> {
    dataset: Vec<T>,
    exclusions: Vec<Exclusion<T>>,
    bitset: Vec<BitColumn>,
}

impl<T: Metric> BitPart<T> {
    #[verifier::type_invariant]
    spec fn well_formed(self) -> bool {
        &&& columns_match(self.dataset@, self.exclusions@, self.bitset@)
        &&& self.dataset@.len() <= usize::MAX / 8
    }

    /// The indexed points.
    pub closed spec fn data(&self) -> Seq<T> {
        self.dataset@
    }

    /// The exclusion regions, one bit-column each.
    pub closed spec fn spec_exclusions(&self) -> Seq<Exclusion<T>> {
        self.exclusions@
    }

    /// Builds the bit-columns of `exclusions` over `dataset`.
    pub(crate) fn setup(dataset: Vec<T>, exclusions: Vec<Exclusion<T>>) -> (r: Self)
        requires
            dataset@.len() <= usize::MAX / 8,
        ensures
            r.data() == dataset@,
            r.spec_exclusions() == exclusions@,
    {
        let bitset = make_columns(&exclusions, &dataset);
        BitPart { dataset, exclusions, bitset }
    }

    /// Every indexed point within `threshold` of `point`, with its distance
    /// from `point`, in dataset order.
    pub fn range_search(&self, point: T, threshold: u64) -> (r: Vec<(T, u64)>)
        ensures
            r@ == hits(self.data(), point, threshold as nat),
    {
        proof {
            use_type_invariant(self);
        }
        let n = self.dataset.len();
        let m = self.exclusions.len();
        let sides = sides_of(&self.exclusions, &point, threshold);
        let (ins, outs) = partition_sides(&sides);
        proof {
            lemma_positions(sides@, Side::In);
            lemma_positions(sides@, Side::Out);
            assert forall|e: int| 0 <= e < self.bitset@.len() implies #[trigger] bits_of(
                self.bitset@[e],
            ).len() == n by {
                assert(bits_of(self.bitset@[e]) == crate::search::column_bits(
                    self.exclusions@[e],
                    self.dataset@,
                ));
            }
        }
        let mask = candidates(&self.bitset, n, &ins, &outs);
        let mut out: Vec<(T, u64)> = Vec::new();
        let mut i: usize = 0;
        while i < n
            invariant
                n == self.dataset@.len(),
                m == self.exclusions@.len(),
                i <= n,
                bits_of(mask).len() == n,
                forall|j: int|
                    0 <= j < n ==> #[trigger] bits_of(mask)[j] == crate::search::is_candidate(
                        self.bitset@,
                        ins@,
                        outs@,
                        j,
                    ),
                ins@ == crate::search::positions(
                    spec_sides(self.exclusions@, point, threshold as nat),
                    Side::In,
                ),
                outs@ == crate::search::positions(
                    spec_sides(self.exclusions@, point, threshold as nat),
                    Side::Out,
                ),
                columns_match(self.dataset@, self.exclusions@, self.bitset@),
                out@ == hits(self.dataset@.take(i as int), point, threshold as nat),
            decreases n - i,
        {
            assert(self.dataset@.take(i + 1).drop_last() =~= self.dataset@.take(i as int));
            if bits_get(&mask, i) {
                let p = self.dataset[i];
                let d = point.distance(&p);
                if d <= threshold {
                    out.push((p, d));
                }
            } else {
                proof {
                    if point.dist(self.dataset@[i as int]) <= threshold {
                        lemma_hit_is_candidate(
                            self.dataset@,
                            self.exclusions@,
                            self.bitset@,
                            point,
                            threshold as nat,
                            i as int,
                        );
                    }
                }
            }
            i = i + 1;
        }
        assert(self.dataset@.take(n as int) =~= self.dataset@);
        out
    }
}

} // verus!
