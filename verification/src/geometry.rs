//! Points, contours and outlines, and their mathematical models.

use vstd::prelude::*;

verus! {

/// A point of the plane with unbounded integer coordinates: the model of a
/// [`Point`].
pub struct SpecPoint {
    pub x: int,
    pub y: int,
}

impl SpecPoint {
    /// The determinant of the two points taken as column vectors: twice the
    /// signed area of the triangle they span with the origin.
    pub open spec fn det(self, other: SpecPoint) -> int {
        self.x * other.y - self.y * other.x
    }
}

/// A point in device space, Y down.
#[derive(Clone, Copy, Debug, PartialEq, Eq)]
pub struct Point {
    pub x: i32,
    pub y: i32,
}

impl View for Point {
    type V = SpecPoint;

    open spec fn view(&self) -> SpecPoint {
        SpecPoint { x: self.x as int, y: self.y as int }
    }
}

impl Point {
    /// The determinant `self.x * other.y - self.y * other.x`, which always
    /// fits in 64 bits.
    pub fn det(self, other: Point) -> (d: i64)
        ensures
            d == self@.det(other@),
    {
        let a: i64 = self.x as i64;
        let b: i64 = other.y as i64;
        let c: i64 = self.y as i64;
        let e: i64 = other.x as i64;
        assert(-0x3fff_ffff_8000_0000 <= a * b <= 0x4000_0000_0000_0000) by (nonlinear_arith)
            requires
                -0x8000_0000 <= a < 0x8000_0000,
                -0x8000_0000 <= b < 0x8000_0000,
        ;
        assert(-0x3fff_ffff_8000_0000 <= c * e <= 0x4000_0000_0000_0000) by (nonlinear_arith)
            requires
                -0x8000_0000 <= c < 0x8000_0000,
                -0x8000_0000 <= e < 0x8000_0000,
        ;
        a * b - c * e
    }
}

/// A closed polygon: the last point is joined to the first.
#[derive(Clone, Debug, PartialEq, Eq)]
pub struct Contour {
    pub points: Vec<Point>,
}

impl View for Contour {
    type V = Seq<SpecPoint>;

    open spec fn view(&self) -> Seq<SpecPoint> {
        self.points@.map_values(|p: Point| p@)
    }
}

impl Contour {
    /// The last point of the contour, or `None` if it has no points.
    pub fn last_position(&self) -> (last: Option<Point>)
        ensures
            self.points@.len() == 0 ==> last is None,
            self.points@.len() > 0 ==> last == Some(self.points@.last()),
    {
        let n: usize = self.points.len();
        if n == 0 {
            None
        } else {
            Some(self.points[n - 1])
        }
    }
}

/// A path made of closed contours.
#[derive(Clone, Debug, PartialEq, Eq)]
pub struct Outline {
    pub contours: Vec<Contour>,
}

impl View for Outline {
    type V = Seq<Seq<SpecPoint>>;

    open spec fn view(&self) -> Seq<Seq<SpecPoint>> {
        self.contours@.map_values(|c: Contour| c@)
    }
}

} // verus!
