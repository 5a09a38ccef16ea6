use vstd::prelude::*;

use crate::exclusions::{BallExclusion, Exclusion, SheetExclusion};
use crate::metric::Metric;
use crate::parallel::ParallelBitPart;
use crate::sequential::BitPart;

verus! {

/// Default centre of the grid of ball radii, in the metric's distance unit
/// (unit-scale data whose coordinates are counted in millionths).
pub const DEFAULT_MEAN_DISTANCE: u64 = 1_810_000;

/// Default step of the grid of ball radii, in the metric's distance unit.
pub const DEFAULT_RADIUS_INCREMENT: u64 = 300_000;

/// Default number of reference points.
pub const DEFAULT_REF_POINTS: u64 = 40;

/// Number of ball radii per reference point.
pub const BALLS_PER_REF: usize = 5;

/// Parameters of an index, and the dataset it is built over.
#[derive(Clone, Debug)]
pub struct BitPartBuilder<T> {
    pub(crate) dataset: Vec<T>,
    pub(crate) radius_increment: u64,
    pub(crate) mean_distance: u64,
    pub(crate) four_point: bool,
    pub(crate) ref_points: u64,
}

/// The radius of the `k`-th ball around a reference point:
/// `mean - 2 inc`, `mean - inc`, `mean`, `mean + inc`, `mean + 2 inc`.
pub open spec fn ball_radius(mean: u64, inc: u64, k: int) -> int {
    mean + (k - 2) * inc
}

/// The balls around one reference point, smallest first.
pub open spec fn balls_around<T>(c: T, mean: u64, inc: u64) -> Seq<Exclusion<T>> {
    Seq::new(
        BALLS_PER_REF as nat,
        |k: int| Exclusion::Ball(BallExclusion { point: c, radius: ball_radius(mean, inc, k) as i128 }),
    )
}

/// The balls around each reference point in turn.
pub open spec fn spec_balls<T>(refs: Seq<T>, mean: u64, inc: u64) -> Seq<Exclusion<T>>
    decreases refs.len(),
{
    if refs.len() == 0 {
        Seq::empty()
    } else {
        spec_balls(refs.drop_last(), mean, inc) + balls_around(refs.last(), mean, inc)
    }
}

/// The sheets whose first point is `refs[a]`, paired with each later point.
pub open spec fn sheet_row<T>(refs: Seq<T>, a: int, four_point: bool) -> Seq<Exclusion<T>> {
    Seq::new(
        (refs.len() - a - 1) as nat,
        |k: int|
            Exclusion::Sheet(
                SheetExclusion { a: refs[a], b: refs[a + 1 + k], offset: 0, four_point },
            ),
    )
}

/// The sheets of every pair `(i, j)`, `i < j`, with `i < a`, in lexicographic order.
pub open spec fn sheets_upto<T>(refs: Seq<T>, a: int, four_point: bool) -> Seq<Exclusion<T>>
    decreases a,
{
    if a <= 0 {
        Seq::empty()
    } else {
        sheets_upto(refs, a - 1, four_point) + sheet_row(refs, a - 1, four_point)
    }
}

/// The sheets of every unordered pair of reference points.
pub open spec fn spec_sheets<T>(refs: Seq<T>, four_point: bool) -> Seq<Exclusion<T>> {
    sheets_upto(refs, refs.len() as int, four_point)
}

proof fn lemma_balls_len<T>(refs: Seq<T>, mean: u64, inc: u64)
    ensures
        spec_balls(refs, mean, inc).len() == BALLS_PER_REF * refs.len(),
    decreases refs.len(),
{
    if refs.len() > 0 {
        lemma_balls_len(refs.drop_last(), mean, inc);
    }
}

proof fn lemma_sheets_upto_len<T>(refs: Seq<T>, a: int, four_point: bool)
    requires
        0 <= a <= refs.len(),
    ensures
        2 * sheets_upto(refs, a, four_point).len() == a * (2 * refs.len() - a - 1),
    decreases a,
{
    if a > 0 {
        lemma_sheets_upto_len(refs, a - 1, four_point);
        let r = refs.len() as int;
        assert(sheet_row(refs, a - 1, four_point).len() == r - a);
        assert((a - 1) * (2 * r - (a - 1) - 1) + 2 * (r - a) == a * (2 * r - a - 1))
            by (nonlinear_arith);
        assert(sheets_upto(refs, a, four_point).len() == sheets_upto(refs, a - 1, four_point).len()
            + (r - a));
    } else {
        assert(a == 0);
        assert(a * (2 * refs.len() - a - 1) == 0) by (nonlinear_arith)
            requires
                a == 0,
        ;
    }
}

/// An index over `r` reference points holds `5 r` balls and `r (r - 1) / 2`
/// sheets.
pub proof fn lemma_exclusion_count<T: Metric>(b: BitPartBuilder<T>)
    requires
        b.spec_ref_points() <= b.data().len(),
    ensures
        b.spec_exclusions().len() == BALLS_PER_REF * b.spec_ref_points() + b.spec_ref_points() * (
        b.spec_ref_points() - 1) / 2,
{
    let refs = b.refs();
    let r = b.ref_points as int;
    assert(refs.len() == r);
    lemma_balls_len(refs, b.mean_distance, b.radius_increment);
    lemma_sheets_upto_len(refs, r, b.four_point);
    assert(r * (2 * r - r - 1) == r * (r - 1)) by (nonlinear_arith);
}

impl<T: Metric> BitPartBuilder<T> {
    pub closed spec fn data(&self) -> Seq<T> {
        self.dataset@
    }

    pub closed spec fn spec_mean_distance(&self) -> u64 {
        self.mean_distance
    }

    pub closed spec fn spec_radius_increment(&self) -> u64 {
        self.radius_increment
    }

    pub closed spec fn spec_four_point(&self) -> bool {
        self.four_point
    }

    pub closed spec fn spec_ref_points(&self) -> u64 {
        self.ref_points
    }

    /// The reference points: the dataset's prefix of the configured size.
    pub closed spec fn refs(&self) -> Seq<T> {
        self.dataset@.take(self.ref_points as int)
    }

    /// The exclusion regions of the index: balls first, then sheets.
    pub open spec fn spec_exclusions(&self) -> Seq<Exclusion<T>> {
        spec_balls(self.refs(), self.spec_mean_distance(), self.spec_radius_increment())
            + spec_sheets(self.refs(), self.spec_four_point())
    }

    /// What `build` and `build_parallel` ask of the parameters.
    pub open spec fn buildable(&self) -> bool {
        &&& self.spec_ref_points() <= self.data().len()
        &&& 0 < self.data().len() <= usize::MAX / 8
    }

    /// A builder over `dataset` with the default parameters.
    pub fn new(dataset: Vec<T>) -> (r: Self)
        ensures
            r.data() == dataset@,
            r.spec_mean_distance() == DEFAULT_MEAN_DISTANCE,
            r.spec_radius_increment() == DEFAULT_RADIUS_INCREMENT,
            r.spec_four_point(),
            r.spec_ref_points() == DEFAULT_REF_POINTS,
    {
        BitPartBuilder {
            dataset,
            mean_distance: DEFAULT_MEAN_DISTANCE,
            radius_increment: DEFAULT_RADIUS_INCREMENT,
            four_point: true,
            ref_points: DEFAULT_REF_POINTS,
        }
    }

    /// Sets the centre of the grid of ball radii.
    pub fn mean_distance(self, mean_distance: u64) -> (r: Self)
        ensures
            r.data() == self.data(),
            r.spec_mean_distance() == mean_distance,
            r.spec_radius_increment() == self.spec_radius_increment(),
            r.spec_four_point() == self.spec_four_point(),
            r.spec_ref_points() == self.spec_ref_points(),
    {
        let mut s = self;
        s.mean_distance = mean_distance;
        s
    }

    /// Sets the step of the grid of ball radii.
    pub fn radius_increment(self, radius_increment: u64) -> (r: Self)
        ensures
            r.data() == self.data(),
            r.spec_mean_distance() == self.spec_mean_distance(),
            r.spec_radius_increment() == radius_increment,
            r.spec_four_point() == self.spec_four_point(),
            r.spec_ref_points() == self.spec_ref_points(),
    {
        let mut s = self;
        s.radius_increment = radius_increment;
        s
    }

    /// Chooses the four-point (`true`) or three-point (`false`) family of
    /// sheet predicates.
    pub fn four_point(self, four_point: bool) -> (r: Self)
        ensures
            r.data() == self.data(),
            r.spec_mean_distance() == self.spec_mean_distance(),
            r.spec_radius_increment() == self.spec_radius_increment(),
            r.spec_four_point() == four_point,
            r.spec_ref_points() == self.spec_ref_points(),
    {
        let mut s = self;
        s.four_point = four_point;
        s
    }

    /// Sets the number of reference points, which may not pass the size of
    /// the dataset.
    pub fn ref_points(self, ref_points: u64) -> (r: Self)
        requires
            ref_points <= self.data().len(),
        ensures
            r.data() == self.data(),
            r.spec_mean_distance() == self.spec_mean_distance(),
            r.spec_radius_increment() == self.spec_radius_increment(),
            r.spec_four_point() == self.spec_four_point(),
            r.spec_ref_points() == ref_points,
    {
        let mut s = self;
        s.ref_points = ref_points;
        s
    }

    /// The balls around the first `ref_points` points of the dataset.
    pub(crate) fn ball_exclusions(&self) -> (r: Vec<Exclusion<T>>)
        requires
            self.ref_points <= self.dataset@.len(),
        ensures
            r@ == spec_balls(self.refs(), self.mean_distance, self.radius_increment),
    {
        let n = self.dataset.len();
        let nrefs = self.ref_points as usize;
        let mut out: Vec<Exclusion<T>> = Vec::new();
        let mut i: usize = 0;
        while i < nrefs
            invariant
                n == self.dataset@.len(),
                nrefs == self.ref_points,
                nrefs <= n,
                i <= nrefs,
                out@ == spec_balls(
                    self.dataset@.take(i as int),
                    self.mean_distance,
                    self.radius_increment,
                ),
            decreases nrefs - i,
        {
            let c = self.dataset[i];
            let ghost before = out@;
            let mut k: usize = 0;
            while k < BALLS_PER_REF
                invariant
                    k <= BALLS_PER_REF,
                    c == self.dataset@[i as int],
                    out@ == before + balls_around(c, self.mean_distance, self.radius_increment).take(
                        k as int,
                    ),
                decreases BALLS_PER_REF - k,
            {
                let inc = self.radius_increment as i128;
                proof {
                    assert((k as int) * (inc as int) <= 4 * u64::MAX) by (nonlinear_arith)
                        requires
                            k <= 4,
                            0 <= inc <= u64::MAX,
                    ;
                    assert(((k as int) - 2) * (inc as int) == (k as int) * (inc as int) - 2 * (
                    inc as int)) by (nonlinear_arith);
                }
                let radius: i128 = (self.mean_distance as i128) + (k as i128) * inc - 2 * inc;
                out.push(Exclusion::Ball(BallExclusion::new(c, radius)));
                proof {
                    assert(balls_around(c, self.mean_distance, self.radius_increment).take(
                        k + 1,
                    ) =~= balls_around(c, self.mean_distance, self.radius_increment).take(
                        k as int,
                    ).push(out@.last()));
                }
                k = k + 1;
            }
            proof {
                let t = self.dataset@.take(i + 1);
                assert(t.drop_last() =~= self.dataset@.take(i as int));
                assert(balls_around(c, self.mean_distance, self.radius_increment).take(
                    BALLS_PER_REF as int,
                ) =~= balls_around(c, self.mean_distance, self.radius_increment));
            }
            i = i + 1;
        }
        proof {
            assert(self.dataset@.take(nrefs as int) =~= self.refs());
        }
        out
    }

    /// The sheets of every unordered pair of reference points, with offset 0.
    pub(crate) fn sheet_exclusions(&self) -> (r: Vec<Exclusion<T>>)
        requires
            self.ref_points <= self.dataset@.len(),
        ensures
            r@ == spec_sheets(self.refs(), self.four_point),
    {
        let n = self.dataset.len();
        let nrefs = self.ref_points as usize;
        let ghost refs = self.refs();
        let mut out: Vec<Exclusion<T>> = Vec::new();
        let mut a: usize = 0;
        while a < nrefs
            invariant
                n == self.dataset@.len(),
                nrefs == self.ref_points,
                nrefs <= n,
                refs == self.refs(),
                refs.len() == nrefs,
                a <= nrefs,
                out@ == sheets_upto(refs, a as int, self.four_point),
            decreases nrefs - a,
        {
            let ghost before = out@;
            let mut b: usize = a + 1;
            while b < nrefs
                invariant
                    a < nrefs,
                    a + 1 <= b <= nrefs,
                    nrefs == self.ref_points,
                    nrefs <= self.dataset@.len(),
                    refs == self.refs(),
                    refs.len() == nrefs,
                    out@ == before + sheet_row(refs, a as int, self.four_point).take(
                        b - a - 1,
                    ),
                decreases nrefs - b,
            {
                proof {
                    assert(refs[a as int] == self.dataset@[a as int]);
                    assert(refs[b as int] == self.dataset@[b as int]);
                }
                out.push(
                    Exclusion::Sheet(
                        SheetExclusion::new(self.dataset[a], self.dataset[b], 0, self.four_point),
                    ),
                );
                proof {
                    assert(sheet_row(refs, a as int, self.four_point).take(b - a) =~= sheet_row(
                        refs,
                        a as int,
                        self.four_point,
                    ).take(b - a - 1).push(out@.last()));
                }
                b = b + 1;
            }
            proof {
                assert(sheet_row(refs, a as int, self.four_point).take(nrefs - a - 1)
                    =~= sheet_row(refs, a as int, self.four_point));
            }
            a = a + 1;
        }
        out
    }

    /// Builds an index whose queries run on this thread.
    pub fn build(self) -> (r: BitPart<T>)
        requires
            self.buildable(),
        ensures
            r.data() == self.data(),
            r.spec_exclusions() == self.spec_exclusions(),
    {
        let exclusions = self.exclusions();
        BitPart::setup(self.dataset, exclusions)
    }

    /// All exclusion regions: balls first, then sheets.
    pub(crate) fn exclusions(&self) -> (r: Vec<Exclusion<T>>)
        requires
            self.ref_points <= self.dataset@.len(),
        ensures
            r@ == self.spec_exclusions(),
    {
        let mut balls = self.ball_exclusions();
        let mut sheets = self.sheet_exclusions();
        balls.append(&mut sheets);
        balls
    }
}

impl<T: Metric + Send + Sync> BitPartBuilder<T> {
    /// Builds an index whose columns are built in parallel. `job_size`
    /// sets how coarse query-time parallelism is: `Some(k)` makes each task
    /// handle at least `k` items in turn, `None` runs queries on the calling
    /// thread.
    pub fn build_parallel(self, job_size: Option<u64>) -> (r: ParallelBitPart<T>)
        requires
            self.buildable(),
        ensures
            r.data() == self.data(),
            r.spec_exclusions() == self.spec_exclusions(),
            r.spec_job_size() == job_size,
    {
        let exclusions = self.exclusions();
        ParallelBitPart::setup(self.dataset, exclusions, job_size)
    }
}

} // verus!
