//! How the shoelace sum and the winding order of an outline change when the
//! outline is reversed, scaled, moved or joined to another.

use vstd::arithmetic::mul::{
    lemma_mul_is_associative, lemma_mul_is_commutative, lemma_mul_is_distributive_sub,
};
use vstd::prelude::*;
use crate::area::{contour_area, edge_det, edge_sum, outline_area};
use crate::geometry::SpecPoint;
use crate::orientation::Orientation;

verus! {

impl SpecPoint {
    /// The point with its coordinates multiplied by `sx` and `sy`.
    pub open spec fn scale(self, sx: int, sy: int) -> SpecPoint {
        SpecPoint { x: sx * self.x, y: sy * self.y }
    }

    /// The point moved by `offset`.
    pub open spec fn translate(self, offset: SpecPoint) -> SpecPoint {
        SpecPoint { x: self.x + offset.x, y: self.y + offset.y }
    }
}

/// The outline with the points of every contour in the opposite order.
pub open spec fn reversed(contours: Seq<Seq<SpecPoint>>) -> Seq<Seq<SpecPoint>> {
    contours.map_values(|c: Seq<SpecPoint>| c.reverse())
}

/// The outline with every point scaled by `sx` along X and `sy` along Y.
pub open spec fn scaled(contours: Seq<Seq<SpecPoint>>, sx: int, sy: int) -> Seq<Seq<SpecPoint>> {
    contours.map_values(|c: Seq<SpecPoint>| c.map_values(|p: SpecPoint| p.scale(sx, sy)))
}

/// The outline with every point moved by `offset`.
pub open spec fn translated(contours: Seq<Seq<SpecPoint>>, offset: SpecPoint) -> Seq<
    Seq<SpecPoint>,
> {
    contours.map_values(|c: Seq<SpecPoint>| c.map_values(|p: SpecPoint| p.translate(offset)))
}

proof fn lemma_det_antisymmetric(p: SpecPoint, q: SpecPoint)
    ensures
        q.det(p) == -p.det(q),
{
    assert(q.x * p.y - q.y * p.x == -(p.x * q.y - p.y * q.x)) by (nonlinear_arith);
}

proof fn lemma_mul_interchange(a: int, b: int, c: int, d: int)
    ensures
        (a * b) * (c * d) == (a * c) * (b * d),
{
    lemma_mul_is_associative(a, b, c * d);
    lemma_mul_is_associative(b, c, d);
    lemma_mul_is_associative(c, b, d);
    lemma_mul_is_associative(a, c, b * d);
}

proof fn lemma_det_scale(p: SpecPoint, q: SpecPoint, sx: int, sy: int)
    ensures
        p.scale(sx, sy).det(q.scale(sx, sy)) == (sx * sy) * p.det(q),
{
    lemma_mul_interchange(sx, p.x, sy, q.y);
    lemma_mul_interchange(sy, p.y, sx, q.x);
    lemma_mul_is_commutative(sy, sx);
    lemma_mul_is_distributive_sub(sx * sy, p.x * q.y, p.y * q.x);
}

proof fn lemma_det_translate(p: SpecPoint, q: SpecPoint, offset: SpecPoint)
    ensures
        p.translate(offset).det(q.translate(offset)) == p.det(q) + p.det(offset) - q.det(offset),
{
    assert((p.x + offset.x) * (q.y + offset.y) - (p.y + offset.y) * (q.x + offset.x) == (p.x * q.y
        - p.y * q.x) + (p.x * offset.y - p.y * offset.x) - (q.x * offset.y - q.y * offset.x))
        by (nonlinear_arith);
}

/// Edges `1..m` of the reversed polygon are the last `m - 1` edges of the
/// polygon itself, each run the other way.
proof fn lemma_reversed_edge_sum(points: Seq<SpecPoint>, m: nat)
    requires
        1 <= m <= points.len(),
    ensures
        edge_sum(points.reverse(), m) - edge_det(points.reverse(), 0) == -(edge_sum(
            points,
            points.len(),
        ) - edge_sum(points, (points.len() - m + 1) as nat)),
    decreases m,
{
    let n = points.len();
    let r = points.reverse();
    if m == 1 {
        reveal_with_fuel(edge_sum, 2);
    } else {
        lemma_reversed_edge_sum(points, (m - 1) as nat);
        lemma_det_antisymmetric(points[n - m], points[n - m + 1]);
        assert(edge_det(r, m - 1) == -edge_det(points, n - m + 1));
        assert(edge_sum(points, (n - m + 2) as nat) == edge_sum(points, (n - m + 1) as nat)
            + edge_det(points, n - m + 1));
    }
}

/// Reversing a closed polygon negates its shoelace sum.
pub proof fn lemma_reversed_contour_area(points: Seq<SpecPoint>)
    ensures
        contour_area(points.reverse()) == -contour_area(points),
{
    let n = points.len();
    let r = points.reverse();
    if n > 0 {
        lemma_reversed_edge_sum(points, n);
        lemma_det_antisymmetric(points[n - 1], points[0]);
        assert(edge_det(r, 0) == -edge_det(points, 0));
        reveal_with_fuel(edge_sum, 2);
    }
}

proof fn lemma_scaled_edge_sum(points: Seq<SpecPoint>, sx: int, sy: int, m: nat)
    requires
        m <= points.len(),
    ensures
        edge_sum(points.map_values(|p: SpecPoint| p.scale(sx, sy)), m) == (sx * sy) * edge_sum(
            points,
            m,
        ),
    decreases m,
{
    let s = points.map_values(|p: SpecPoint| p.scale(sx, sy));
    if m == 0 {
        assert((sx * sy) * 0 == 0) by (nonlinear_arith);
    } else {
        lemma_scaled_edge_sum(points, sx, sy, (m - 1) as nat);
        let start = if m - 1 == 0 { points.len() - 1 } else { m - 2 };
        lemma_det_scale(points[start], points[m - 1], sx, sy);
        assert(edge_det(s, m - 1) == (sx * sy) * edge_det(points, m - 1));
        let k = sx * sy;
        let a = edge_sum(points, (m - 1) as nat);
        let b = edge_det(points, m - 1);
        assert(k * a + k * b == k * (a + b)) by (nonlinear_arith);
    }
}

/// Scaling a closed polygon multiplies its shoelace sum by both factors.
pub proof fn lemma_scaled_contour_area(points: Seq<SpecPoint>, sx: int, sy: int)
    ensures
        contour_area(points.map_values(|p: SpecPoint| p.scale(sx, sy))) == (sx * sy)
            * contour_area(points),
{
    lemma_scaled_edge_sum(points, sx, sy, points.len());
}

/// Over the first `m` edges of the moved polygon, what the offset adds to
/// each edge cancels between neighbours: the first edge's start and the last
/// edge's end remain.
proof fn lemma_translated_edge_sum(points: Seq<SpecPoint>, offset: SpecPoint, m: nat)
    requires
        1 <= m <= points.len(),
    ensures
        edge_sum(points.map_values(|p: SpecPoint| p.translate(offset)), m) == edge_sum(points, m)
            + points.last().det(offset) - points[m - 1].det(offset),
    decreases m,
{
    let t = points.map_values(|p: SpecPoint| p.translate(offset));
    let start = if m - 1 == 0 { points.len() - 1 } else { m - 2 };
    lemma_det_translate(points[start], points[m - 1], offset);
    assert(edge_det(t, m - 1) == edge_det(points, m - 1) + points[start].det(offset) - points[m
        - 1].det(offset));
    if m == 1 {
        reveal_with_fuel(edge_sum, 2);
    } else {
        lemma_translated_edge_sum(points, offset, (m - 1) as nat);
    }
}

/// Moving a closed polygon leaves its shoelace sum unchanged.
pub proof fn lemma_translated_contour_area(points: Seq<SpecPoint>, offset: SpecPoint)
    ensures
        contour_area(points.map_values(|p: SpecPoint| p.translate(offset))) == contour_area(
            points,
        ),
{
    if points.len() > 0 {
        lemma_translated_edge_sum(points, offset, points.len());
    }
}

/// If a change to contours multiplies the shoelace sum of each contour of an
/// outline by `factor`, it multiplies the sum of the outline by `factor`.
proof fn lemma_mapped_outline_area(
    contours: Seq<Seq<SpecPoint>>,
    change: spec_fn(Seq<SpecPoint>) -> Seq<SpecPoint>,
    factor: int,
)
    requires
        forall|i: int|
            0 <= i < contours.len() ==> contour_area(#[trigger] change(contours[i])) == factor
                * contour_area(contours[i]),
    ensures
        outline_area(contours.map_values(change)) == factor * outline_area(contours),
    decreases contours.len(),
{
    let mapped = contours.map_values(change);
    if contours.len() == 0 {
        assert(factor * 0 == 0) by (nonlinear_arith);
    } else {
        let rest = contours.drop_last();
        assert forall|i: int| 0 <= i < rest.len() implies contour_area(#[trigger] change(rest[i]))
            == factor * contour_area(rest[i]) by {
            assert(rest[i] == contours[i]);
        }
        lemma_mapped_outline_area(rest, change, factor);
        assert(mapped.drop_last() =~= rest.map_values(change));
        let a = outline_area(rest);
        let b = contour_area(contours.last());
        assert(factor * a + factor * b == factor * (a + b)) by (nonlinear_arith);
    }
}

/// A contour of fewer than three points encloses nothing, so an outline made
/// of such contours alone, or of no contours, is counterclockwise.
pub proof fn lemma_degenerate_outline_is_ccw(contours: Seq<Seq<SpecPoint>>)
    requires
        forall|i: int| 0 <= i < contours.len() ==> (#[trigger] contours[i]).len() <= 2,
    ensures
        outline_area(contours) == 0,
        Orientation::spec_from_area(outline_area(contours)) == Orientation::Ccw,
    decreases contours.len(),
{
    if contours.len() > 0 {
        let rest = contours.drop_last();
        assert forall|i: int| 0 <= i < rest.len() implies (#[trigger] rest[i]).len() <= 2 by {
            assert(rest[i] == contours[i]);
        }
        lemma_degenerate_outline_is_ccw(rest);
        let c = contours.last();
        if c.len() == 1 {
            reveal_with_fuel(edge_sum, 2);
            lemma_det_antisymmetric(c[0], c[0]);
        } else if c.len() == 2 {
            reveal_with_fuel(edge_sum, 3);
            lemma_det_antisymmetric(c[0], c[1]);
        }
    }
}

/// Reversing the point order of every contour negates the shoelace sum of
/// the outline.
pub proof fn lemma_reversal_negates_area(contours: Seq<Seq<SpecPoint>>)
    ensures
        outline_area(reversed(contours)) == -outline_area(contours),
{
    let change = |c: Seq<SpecPoint>| c.reverse();
    assert forall|i: int| 0 <= i < contours.len() implies contour_area(
        #[trigger] change(contours[i]),
    ) == (-1) * contour_area(contours[i]) by {
        lemma_reversed_contour_area(contours[i]);
    }
    lemma_mapped_outline_area(contours, change, -1);
}

/// Reversing the point order of every contour of an outline that encloses a
/// nonzero area turns clockwise into counterclockwise and back.
pub proof fn lemma_reversal_reverses_orientation(contours: Seq<Seq<SpecPoint>>)
    requires
        outline_area(contours) != 0,
    ensures
        Orientation::spec_from_area(outline_area(reversed(contours)))
            == Orientation::spec_from_area(outline_area(contours)).spec_reversed(),
{
    lemma_reversal_negates_area(contours);
}

/// Scaling every point by `sx` along X and `sy` along Y multiplies the
/// shoelace sum of the outline by `sx * sy`.
pub proof fn lemma_scaling_multiplies_area(contours: Seq<Seq<SpecPoint>>, sx: int, sy: int)
    ensures
        outline_area(scaled(contours, sx, sy)) == (sx * sy) * outline_area(contours),
{
    let change = |c: Seq<SpecPoint>| c.map_values(|p: SpecPoint| p.scale(sx, sy));
    assert forall|i: int| 0 <= i < contours.len() implies contour_area(
        #[trigger] change(contours[i]),
    ) == (sx * sy) * contour_area(contours[i]) by {
        lemma_scaled_contour_area(contours[i], sx, sy);
    }
    lemma_mapped_outline_area(contours, change, sx * sy);
}

/// Scaling every coordinate by one nonzero factor keeps the winding order.
/// This holds of a negative factor too: such a scaling is a half turn about
/// the origin, not a reflection.
pub proof fn lemma_uniform_scaling_keeps_orientation(contours: Seq<Seq<SpecPoint>>, factor: int)
    requires
        factor != 0,
    ensures
        Orientation::spec_from_area(outline_area(scaled(contours, factor, factor)))
            == Orientation::spec_from_area(outline_area(contours)),
{
    lemma_scaling_multiplies_area(contours, factor, factor);
    let a = outline_area(contours);
    assert(((factor * factor) * a > 0) == (a > 0)) by (nonlinear_arith)
        requires
            factor != 0,
    ;
}

/// Scaling that flips one axis and not the other is a reflection: it turns
/// the winding order of an outline that encloses a nonzero area around.
pub proof fn lemma_reflection_reverses_orientation(
    contours: Seq<Seq<SpecPoint>>,
    sx: int,
    sy: int,
)
    requires
        sx * sy < 0,
        outline_area(contours) != 0,
    ensures
        Orientation::spec_from_area(outline_area(scaled(contours, sx, sy)))
            == Orientation::spec_from_area(outline_area(contours)).spec_reversed(),
{
    lemma_scaling_multiplies_area(contours, sx, sy);
    let a = outline_area(contours);
    let k = sx * sy;
    assert((k * a > 0) == (a < 0)) by (nonlinear_arith)
        requires
            k < 0,
            a != 0,
    ;
}

/// Moving every point by the same offset changes neither the shoelace sum of
/// the outline nor its winding order.
pub proof fn lemma_translation_keeps_area(contours: Seq<Seq<SpecPoint>>, offset: SpecPoint)
    ensures
        outline_area(translated(contours, offset)) == outline_area(contours),
        Orientation::spec_from_area(outline_area(translated(contours, offset)))
            == Orientation::spec_from_area(outline_area(contours)),
{
    let change = |c: Seq<SpecPoint>| c.map_values(|p: SpecPoint| p.translate(offset));
    assert forall|i: int| 0 <= i < contours.len() implies contour_area(
        #[trigger] change(contours[i]),
    ) == 1 * contour_area(contours[i]) by {
        lemma_translated_contour_area(contours[i], offset);
    }
    lemma_mapped_outline_area(contours, change, 1);
}

/// The shoelace sum of two outlines put together is the sum of theirs: an
/// outline is classified by all of its contours at once, not by any one.
pub proof fn lemma_joined_outline_area(first: Seq<Seq<SpecPoint>>, second: Seq<Seq<SpecPoint>>)
    ensures
        outline_area(first + second) == outline_area(first) + outline_area(second),
    decreases second.len(),
{
    if second.len() > 0 {
        lemma_joined_outline_area(first, second.drop_last());
        assert((first + second).drop_last() =~= first + second.drop_last());
    }
}

} // verus!
