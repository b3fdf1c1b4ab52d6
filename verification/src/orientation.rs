//! Determining whether an outline is wound clockwise or counterclockwise.

use vstd::prelude::*;
use crate::area::{edge_sum, lemma_outline_area_step, outline_area, Area};
use crate::geometry::{Contour, Outline, Point};

verus! {

/// A bound on the magnitude of the shoelace sum over `contours` whole
/// contours and `points` points of one more: a contour has fewer than 2^64
/// points, and no term is beyond 2^63.
spec fn sum_bound(contours: int, points: int) -> int {
    (contours * 0x1_0000_0000_0000_0000 + points) * 0x8000_0000_0000_0000
}

/// Winding order: counterclockwise or clockwise, with Y down.
#[derive(Clone, Copy, Debug, PartialEq, Eq, Structural)]
pub enum Orientation {
    /// Counterclockwise, with Y down.
    Ccw,
    /// Clockwise, with Y down.
    Cw,
}

impl Orientation {
    /// The winding order of a shape whose shoelace sum is `area`: clockwise
    /// when the sum is positive, counterclockwise when it is zero or negative.
    pub open spec fn spec_from_area(area: int) -> Orientation {
        if area <= 0 {
            Orientation::Ccw
        } else {
            Orientation::Cw
        }
    }

    /// The multiplier that stands for a winding order: -1 for
    /// counterclockwise, 1 for clockwise.
    pub open spec fn spec_sign(self) -> int {
        match self {
            Orientation::Ccw => -1,
            Orientation::Cw => 1,
        }
    }

    /// The other winding order.
    pub open spec fn spec_reversed(self) -> Orientation {
        match self {
            Orientation::Ccw => Orientation::Cw,
            Orientation::Cw => Orientation::Ccw,
        }
    }

    /// Determines whether the outermost winding of an outline is
    /// counterclockwise or clockwise, from the sign of the shoelace sum over
    /// all of its contours together.
    pub fn from_outline(outline: &Outline) -> (orientation: Orientation)
        ensures
            orientation == Orientation::spec_from_area(outline_area(outline@)),
    {
        let mut area = Area::zero();
        let mut i: usize = 0;
        while i < outline.contours.len()
            invariant
                i <= outline.contours.len(),
                area@ == outline_area(outline@.take(i as int)),
                -sum_bound(i as int, 0) <= area@ <= sum_bound(i as int, 0),
            decreases outline.contours.len() - i,
        {
            let contour: &Contour = &outline.contours[i];
            proof {
                lemma_outline_area_step(outline@, i as int);
            }
            match contour.last_position() {
                None => {},
                Some(last) => {
                    let mut prev: Point = last;
                    let mut j: usize = 0;
                    while j < contour.points.len()
                        invariant
                            j <= contour.points.len(),
                            prev == (if j == 0 {
                                contour.points@.last()
                            } else {
                                contour.points@[j - 1]
                            }),
                            area@ == outline_area(outline@.take(i as int)) + edge_sum(
                                contour@,
                                j as nat,
                            ),
                            -sum_bound(i as int, j as int) <= area@ <= sum_bound(
                                i as int,
                                j as int,
                            ),
                        decreases contour.points.len() - j,
                    {
                        let next: Point = contour.points[j];
                        let term: i64 = prev.det(next);
                        area.accumulate(term);
                        prev = next;
                        j = j + 1;
                    }
                },
            }
            i = i + 1;
        }
        assert(outline@.take(i as int) =~= outline@);
        Orientation::from_area(area)
    }

    /// The winding order that a shoelace sum stands for.
    pub fn from_area(area: Area) -> (orientation: Orientation)
        ensures
            orientation == Orientation::spec_from_area(area@),
    {
        if area.is_positive() {
            Orientation::Cw
        } else {
            Orientation::Ccw
        }
    }

    /// The multiplier that stands for this winding order: -1 for
    /// counterclockwise, 1 for clockwise.
    pub fn sign(self) -> (sign: i32)
        ensures
            sign == self.spec_sign(),
    {
        match self {
            Orientation::Ccw => -1,
            Orientation::Cw => 1,
        }
    }
}

} // verus!
