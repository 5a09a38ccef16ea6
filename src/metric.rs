use vstd::prelude::*;

verus! {

/// A metric space whose distances are non-negative integers.
///
/// Implementors prove the metric laws that the index relies on for pruning:
/// a point is at distance zero from itself, distance is symmetric, and the
/// triangle inequality holds.
pub trait Metric: Sized + Copy {
    /// The distance between two points.
    spec fn dist(self, other: Self) -> nat;

    /// Every distance fits the distance type.
    proof fn lemma_dist_bounded(a: Self, b: Self)
        ensures
            a.dist(b) <= u64::MAX,
    ;

    proof fn lemma_dist_self(a: Self)
        ensures
            a.dist(a) == 0,
    ;

    proof fn lemma_dist_symmetric(a: Self, b: Self)
        ensures
            a.dist(b) == b.dist(a),
    ;

    proof fn lemma_triangle(a: Self, b: Self, c: Self)
        ensures
            a.dist(c) <= a.dist(b) + b.dist(c),
    ;

    /// Computes the distance between `self` and `other`.
    fn distance(&self, other: &Self) -> (r: u64)
        ensures
            r as nat == self.dist(*other),
    ;
}

/// Sum of coordinate-wise absolute differences of the first `k` coordinates.
pub open spec fn l1_prefix(a: Seq<i32>, b: Seq<i32>, k: int) -> nat
    decreases k,
{
    if k <= 0 {
        0
    } else {
        l1_prefix(a, b, k - 1) + abs_diff(a[k - 1] as int, b[k - 1] as int)
    }
}

pub open spec fn abs_diff(x: int, y: int) -> nat {
    if x >= y {
        (x - y) as nat
    } else {
        (y - x) as nat
    }
}

/// The largest distance that fits the distance type; longer sums saturate.
pub open spec fn saturate(x: nat) -> nat {
    if x > u64::MAX {
        u64::MAX as nat
    } else {
        x
    }
}

proof fn lemma_l1_triangle(a: Seq<i32>, b: Seq<i32>, c: Seq<i32>, k: int)
    ensures
        l1_prefix(a, c, k) <= l1_prefix(a, b, k) + l1_prefix(b, c, k),
    decreases k,
{
    if k > 0 {
        lemma_l1_triangle(a, b, c, k - 1);
    }
}

proof fn lemma_l1_symmetric(a: Seq<i32>, b: Seq<i32>, k: int)
    ensures
        l1_prefix(a, b, k) == l1_prefix(b, a, k),
    decreases k,
{
    if k > 0 {
        lemma_l1_symmetric(a, b, k - 1);
    }
}

proof fn lemma_l1_self(a: Seq<i32>, k: int)
    ensures
        l1_prefix(a, a, k) == 0,
    decreases k,
{
    if k > 0 {
        lemma_l1_self(a, k - 1);
    }
}

/// A point of `N` integer coordinates under the Manhattan (L1) distance,
/// saturating at `u64::MAX`.
#[derive(Clone, Copy, Debug)]
pub struct Manhattan<const N: usize> {
    pub coords: [i32; N],
}

impl<const N: usize> Manhattan<N> {
    /// Wraps the coordinates of a point.
    pub fn new(coords: [i32; N]) -> (r: Self)
        ensures
            r.coords == coords,
    {
        Manhattan { coords }
    }
}

impl<const N: usize> Metric for Manhattan<N> {
    open spec fn dist(self, other: Self) -> nat {
        saturate(l1_prefix(self.coords@, other.coords@, N as int))
    }

    proof fn lemma_dist_bounded(a: Self, b: Self) {
    }

    proof fn lemma_dist_self(a: Self) {
        lemma_l1_self(a.coords@, N as int);
    }

    proof fn lemma_dist_symmetric(a: Self, b: Self) {
        lemma_l1_symmetric(a.coords@, b.coords@, N as int);
    }

    proof fn lemma_triangle(a: Self, b: Self, c: Self) {
        lemma_l1_triangle(a.coords@, b.coords@, c.coords@, N as int);
    }

    fn distance(&self, other: &Self) -> (r: u64) {
        let mut acc: u64 = 0;
        let mut i: usize = 0;
        while i < N
            invariant
                i <= N,
                self.coords@.len() == N,
                other.coords@.len() == N,
                acc as nat == saturate(l1_prefix(self.coords@, other.coords@, i as int)),
            decreases N - i,
        {
            let x = self.coords[i] as i64;
            let y = other.coords[i] as i64;
            let d: u64 = if x >= y {
                (x - y) as u64
            } else {
                (y - x) as u64
            };
            acc = acc.saturating_add(d);
            i = i + 1;
        }
        acc
    }
}

} // verus!
