use vstd::prelude::*;

use crate::metric::Metric;

verus! {

/// The open ball `{ x : d(point, x) < radius }`.
#[derive(Debug)]
pub struct BallExclusion<T> {
    pub point: T,
    pub radius: i128,
}

impl<T: Metric> BallExclusion<T> {
    pub fn new(point: T, radius: i128) -> (r: Self)
        ensures
            r.point == point,
            r.radius == radius,
    {
        BallExclusion { point, radius }
    }

    pub open spec fn spec_is_in(self, p: T) -> bool {
        (self.point.dist(p) as int) < self.radius
    }

    /// Every point within `tau` of `q` lies inside the ball.
    pub open spec fn spec_must_be_in(self, q: T, tau: nat) -> bool {
        self.point.dist(q) + tau < self.radius
    }

    /// Every point within `tau` of `q` lies outside the ball.
    pub open spec fn spec_must_be_out(self, q: T, tau: nat) -> bool {
        self.point.dist(q) >= self.radius + tau
    }

    pub fn is_in(&self, p: &T) -> (r: bool)
        ensures
            r == self.spec_is_in(*p),
    {
        (self.point.distance(p) as i128) < self.radius
    }

    pub fn must_be_in(&self, q: &T, tau: u64) -> (r: bool)
        ensures
            r == self.spec_must_be_in(*q, tau as nat),
    {
        (self.point.distance(q) as i128) + (tau as i128) < self.radius
    }

    pub fn must_be_out(&self, q: &T, tau: u64) -> (r: bool)
        ensures
            r == self.spec_must_be_out(*q, tau as nat),
    {
        (self.point.distance(q) as i128) - (tau as i128) >= self.radius
    }
}

/// The generalised-hyperbolic half-space `{ x : d(a, x) - d(b, x) - offset < 0 }`.
///
/// Query-time predicates come in two families. The three-point form follows
/// from the triangle inequality alone. The four-point form needs the
/// four-point property, which a `Metric` does not promise: a sheet built for
/// it never claims that a query disc lies wholly on one side, so it only
/// contributes membership bits and never prunes.
#[derive(Debug)]
pub struct SheetExclusion<T> {
    pub a: T,
    pub b: T,
    pub offset: i64,
    pub four_point: bool,
}

impl<T: Metric> SheetExclusion<T> {
    pub fn new(a: T, b: T, offset: i64, four_point: bool) -> (r: Self)
        ensures
            r.a == a,
            r.b == b,
            r.offset == offset,
            r.four_point == four_point,
    {
        SheetExclusion { a, b, offset, four_point }
    }

    pub open spec fn spec_is_in(self, p: T) -> bool {
        self.a.dist(p) - self.b.dist(p) - self.offset < 0
    }

    pub open spec fn spec_must_be_in(self, q: T, tau: nat) -> bool {
        !self.four_point && self.a.dist(q) - self.b.dist(q) + 2 * tau < self.offset
    }

    pub open spec fn spec_must_be_out(self, q: T, tau: nat) -> bool {
        !self.four_point && self.a.dist(q) - self.b.dist(q) - 2 * tau >= self.offset
    }

    pub fn is_in(&self, p: &T) -> (r: bool)
        ensures
            r == self.spec_is_in(*p),
    {
        let da = self.a.distance(p) as i128;
        let db = self.b.distance(p) as i128;
        da - db - (self.offset as i128) < 0
    }

    pub fn must_be_in(&self, q: &T, tau: u64) -> (r: bool)
        ensures
            r == self.spec_must_be_in(*q, tau as nat),
    {
        if self.four_point {
            false
        } else {
            let da = self.a.distance(q) as i128;
            let db = self.b.distance(q) as i128;
            da - db + 2 * (tau as i128) < self.offset as i128
        }
    }

    pub fn must_be_out(&self, q: &T, tau: u64) -> (r: bool)
        ensures
            r == self.spec_must_be_out(*q, tau as nat),
    {
        if self.four_point {
            false
        } else {
            let da = self.a.distance(q) as i128;
            let db = self.b.distance(q) as i128;
            da - db - 2 * (tau as i128) >= self.offset as i128
        }
    }
}

/// An exclusion region: a ball or a sheet.
#[derive(Debug)]
pub enum Exclusion<T> {
    Ball(BallExclusion<T>),
    Sheet(SheetExclusion<T>),
}

/// Where a query disc stands relative to an exclusion region.
#[derive(Clone, Copy, Debug, PartialEq, Eq, Structural)]
pub enum Side {
    /// Every point of the disc lies inside the region.
    In,
    /// Every point of the disc lies outside the region.
    Out,
    /// Neither can be shown.
    Ambiguous,
}

impl<T: Metric> Exclusion<T> {
    pub open spec fn spec_is_in(self, p: T) -> bool {
        match self {
            Exclusion::Ball(e) => e.spec_is_in(p),
            Exclusion::Sheet(e) => e.spec_is_in(p),
        }
    }

    pub open spec fn spec_must_be_in(self, q: T, tau: nat) -> bool {
        match self {
            Exclusion::Ball(e) => e.spec_must_be_in(q, tau),
            Exclusion::Sheet(e) => e.spec_must_be_in(q, tau),
        }
    }

    pub open spec fn spec_must_be_out(self, q: T, tau: nat) -> bool {
        match self {
            Exclusion::Ball(e) => e.spec_must_be_out(q, tau),
            Exclusion::Sheet(e) => e.spec_must_be_out(q, tau),
        }
    }

    /// `In` takes precedence over `Out` when both hold (an empty query disc).
    pub open spec fn spec_side(self, q: T, tau: nat) -> Side {
        if self.spec_must_be_in(q, tau) {
            Side::In
        } else if self.spec_must_be_out(q, tau) {
            Side::Out
        } else {
            Side::Ambiguous
        }
    }

    pub fn is_in(&self, p: &T) -> (r: bool)
        ensures
            r == self.spec_is_in(*p),
    {
        match self {
            Exclusion::Ball(e) => e.is_in(p),
            Exclusion::Sheet(e) => e.is_in(p),
        }
    }

    pub fn must_be_in(&self, q: &T, tau: u64) -> (r: bool)
        ensures
            r == self.spec_must_be_in(*q, tau as nat),
    {
        match self {
            Exclusion::Ball(e) => e.must_be_in(q, tau),
            Exclusion::Sheet(e) => e.must_be_in(q, tau),
        }
    }

    pub fn must_be_out(&self, q: &T, tau: u64) -> (r: bool)
        ensures
            r == self.spec_must_be_out(*q, tau as nat),
    {
        match self {
            Exclusion::Ball(e) => e.must_be_out(q, tau),
            Exclusion::Sheet(e) => e.must_be_out(q, tau),
        }
    }

    pub fn side(&self, q: &T, tau: u64) -> (r: Side)
        ensures
            r == self.spec_side(*q, tau as nat),
    {
        if self.must_be_in(q, tau) {
            Side::In
        } else if self.must_be_out(q, tau) {
            Side::Out
        } else {
            Side::Ambiguous
        }
    }
}

/// For any ball and any query `q` with `d(c, q) >= radius + tau`, no point
/// within `tau` of `q` is a member of the ball.
pub proof fn lemma_ball_must_be_out_sound<T: Metric>(e: BallExclusion<T>, q: T, tau: nat, p: T)
    requires
        e.spec_must_be_out(q, tau),
        q.dist(p) <= tau,
    ensures
        !e.spec_is_in(p),
{
    T::lemma_triangle(e.point, p, q);
    T::lemma_dist_symmetric(p, q);
}

/// For any ball and any query `q` with `d(c, q) + tau < radius`, every point
/// within `tau` of `q` is a member of the ball.
pub proof fn lemma_ball_must_be_in_sound<T: Metric>(e: BallExclusion<T>, q: T, tau: nat, p: T)
    requires
        e.spec_must_be_in(q, tau),
        q.dist(p) <= tau,
    ensures
        e.spec_is_in(p),
{
    T::lemma_triangle(e.point, q, p);
}

/// A sheet that claims a query disc lies inside it is right about every
/// point of the disc.
pub proof fn lemma_sheet_must_be_in_sound<T: Metric>(e: SheetExclusion<T>, q: T, tau: nat, p: T)
    requires
        e.spec_must_be_in(q, tau),
        q.dist(p) <= tau,
    ensures
        e.spec_is_in(p),
{
    T::lemma_triangle(e.a, q, p);
    T::lemma_triangle(e.b, p, q);
    T::lemma_dist_symmetric(p, q);
}

/// A sheet that claims a query disc lies outside it is right about every
/// point of the disc.
pub proof fn lemma_sheet_must_be_out_sound<T: Metric>(e: SheetExclusion<T>, q: T, tau: nat, p: T)
    requires
        e.spec_must_be_out(q, tau),
        q.dist(p) <= tau,
    ensures
        !e.spec_is_in(p),
{
    T::lemma_triangle(e.a, p, q);
    T::lemma_triangle(e.b, q, p);
    T::lemma_dist_symmetric(p, q);
}

/// Any exclusion region that claims a query disc lies inside it is right
/// about every point of the disc.
pub proof fn lemma_must_be_in_sound<T: Metric>(e: Exclusion<T>, q: T, tau: nat, p: T)
    requires
        e.spec_must_be_in(q, tau),
        q.dist(p) <= tau,
    ensures
        e.spec_is_in(p),
{
    match e {
        Exclusion::Ball(b) => lemma_ball_must_be_in_sound(b, q, tau, p),
        Exclusion::Sheet(s) => lemma_sheet_must_be_in_sound(s, q, tau, p),
    }
}

/// Any exclusion region that claims a query disc lies outside it is right
/// about every point of the disc.
pub proof fn lemma_must_be_out_sound<T: Metric>(e: Exclusion<T>, q: T, tau: nat, p: T)
    requires
        e.spec_must_be_out(q, tau),
        q.dist(p) <= tau,
    ensures
        !e.spec_is_in(p),
{
    match e {
        Exclusion::Ball(b) => lemma_ball_must_be_out_sound(b, q, tau, p),
        Exclusion::Sheet(s) => lemma_sheet_must_be_out_sound(s, q, tau, p),
    }
}

} // verus!
