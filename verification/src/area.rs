//! The shoelace sum of contours and outlines, and an exact accumulator for it.

use vstd::prelude::*;
use crate::geometry::SpecPoint;

verus! {

/// The term that the edge ending at `points[i]` adds to the shoelace sum. The
/// edge starts at the point before it, which for the first point is the last
/// one: that edge closes the polygon.
pub open spec fn edge_det(points: Seq<SpecPoint>, i: int) -> int {
    let start = if i == 0 { points.len() - 1 } else { i - 1 };
    points[start].det(points[i])
}

/// The sum of the terms of the first `n` edges of `points`.
pub open spec fn edge_sum(points: Seq<SpecPoint>, n: nat) -> int
    decreases n,
{
    if n == 0 {
        0
    } else {
        edge_sum(points, (n - 1) as nat) + edge_det(points, n - 1)
    }
}

/// The shoelace sum of a closed polygon: twice the area it encloses, positive
/// when the points run clockwise with Y down. It is zero for a polygon of
/// fewer than three points.
pub open spec fn contour_area(points: Seq<SpecPoint>) -> int {
    edge_sum(points, points.len())
}

/// The sum of the shoelace sums of all contours.
pub open spec fn outline_area(contours: Seq<Seq<SpecPoint>>) -> int
    decreases contours.len(),
{
    if contours.len() == 0 {
        0
    } else {
        outline_area(contours.drop_last()) + contour_area(contours.last())
    }
}

/// The area of the first `i + 1` contours is that of the first `i` plus that
/// of contour `i`.
pub proof fn lemma_outline_area_step(contours: Seq<Seq<SpecPoint>>, i: int)
    requires
        0 <= i < contours.len(),
    ensures
        outline_area(contours.take(i + 1)) == outline_area(contours.take(i)) + contour_area(
            contours[i],
        ),
{
    assert(contours.take(i + 1).drop_last() =~= contours.take(i));
}

/// One past the largest value an [`Area`] can hold: 2^191.
pub open spec fn area_limit() -> int {
    0x8000_0000_0000_0000_0000_0000_0000_0000_0000_0000_0000_0000int
}

/// A running shoelace sum, exact over 192 bits: wide enough for the sum over
/// any outline that a 64-bit machine can address.
#[derive(Clone, Copy, Debug)]
pub struct Area {
    /// The sum divided by 2^64, rounded down.
    hi: i128,
    /// The sum modulo 2^64.
    lo: u64,
}

impl Area {
    /// The sum held, as a mathematical integer.
    pub closed spec fn view(&self) -> int {
        self.hi * 0x1_0000_0000_0000_0000 + self.lo
    }

    /// Whether `v` is small enough to be held.
    pub open spec fn holds(v: int) -> bool {
        -area_limit() <= v < area_limit()
    }

    /// The sum of no terms.
    pub fn zero() -> (area: Area)
        ensures
            area@ == 0,
    {
        Area { hi: 0, lo: 0 }
    }

    /// Adds one term to the sum.
    pub fn accumulate(&mut self, term: i64)
        requires
            Area::holds(old(self)@ + term),
        ensures
            final(self)@ == old(self)@ + term,
    {
        let t: i128 = self.lo as i128 + term as i128;
        if t < 0 {
            self.hi = self.hi - 1;
            self.lo = (t + 0x1_0000_0000_0000_0000) as u64;
        } else if t >= 0x1_0000_0000_0000_0000 {
            self.hi = self.hi + 1;
            self.lo = (t - 0x1_0000_0000_0000_0000) as u64;
        } else {
            self.lo = t as u64;
        }
    }

    /// Whether the sum is strictly positive.
    pub fn is_positive(&self) -> (positive: bool)
        ensures
            positive == (self@ > 0),
    {
        self.hi > 0 || (self.hi == 0 && self.lo > 0)
    }
}

} // verus!
