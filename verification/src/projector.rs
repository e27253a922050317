//! The isometric projector: from a point in space to a point on the screen.
//!
//! The cosine of thirty degrees is held to twelve decimals and each
//! coordinate is rounded to the nearest count.

use vstd::prelude::*;
use crate::fixed::{
    lemma_div_round_error, lemma_div_round_within, lemma_product_within, lemma_scaled_negated,
    mul_fraction, scaled, within, FINE, SPAN,
};
use crate::kinematics::PlateVertex;

verus! {

/// The cosine of thirty degrees, at the scale `FINE`.
pub const COS_30: i64 = 866_025_403_784;

/// The sine of thirty degrees, at the scale `FINE`.
pub const SIN_30: i64 = 500_000_000_000;

/// A point on the screen.
#[derive(Clone, Copy, Debug, PartialEq, Eq, Structural)]
pub struct Point2D {
    pub x: i64,
    pub y: i64,
}

/// The isometric image of `(x, height, z)`: the two ground axes are drawn
/// thirty degrees off the horizontal, to the right and to the left, and
/// height is drawn straight up.
pub open spec fn spec_project(x: int, height: int, z: int) -> Point2D {
    Point2D {
        x: scaled(x - z, COS_30 as int) as i64,
        y: (scaled(x + z, SIN_30 as int) + height) as i64,
    }
}

/// Every coordinate of `v` is at most `SPAN` in magnitude.
pub open spec fn projectable(v: PlateVertex) -> bool {
    &&& within(v.x as int, SPAN as int)
    &&& within(v.height as int, SPAN as int)
    &&& within(v.z as int, SPAN as int)
}

/// Projects one point.
pub fn project(x: i64, height: i64, z: i64) -> (p: Point2D)
    requires
        within(x as int, SPAN as int),
        within(height as int, SPAN as int),
        within(z as int, SPAN as int),
    ensures
        p == spec_project(x as int, height as int, z as int),
{
    let across: i64 = mul_fraction(x - z, COS_30);
    let along: i64 = mul_fraction(x + z, SIN_30);
    Point2D { x: across, y: along + height }
}

/// Projects one point if every coordinate is at most `SPAN` in magnitude.
pub fn try_project(x: i64, height: i64, z: i64) -> (p: Option<Point2D>)
    ensures
        p == (if within(x as int, SPAN as int) && within(height as int, SPAN as int) && within(
            z as int,
            SPAN as int,
        ) {
            Some(spec_project(x as int, height as int, z as int))
        } else {
            None
        }),
{
    if -SPAN <= x && x <= SPAN && -SPAN <= height && height <= SPAN && -SPAN <= z && z <= SPAN {
        Some(project(x, height, z))
    } else {
        None
    }
}

/// Projects every vertex, keeping the order, so that neighbours on the plate
/// stay neighbours on the screen.
pub fn project_all(vertices: &Vec<PlateVertex>) -> (points: Vec<Point2D>)
    requires
        forall|i: int| 0 <= i < vertices@.len() ==> projectable(#[trigger] vertices@[i]),
    ensures
        points@.len() == vertices@.len(),
        forall|i: int|
            0 <= i < vertices@.len() ==> #[trigger] points@[i] == spec_project(
                vertices@[i].x as int,
                vertices@[i].height as int,
                vertices@[i].z as int,
            ),
{
    let n = vertices.len();
    let mut points: Vec<Point2D> = Vec::new();
    let mut i: usize = 0;
    while i < n
        invariant
            n == vertices@.len(),
            i <= n,
            points@.len() == i,
            forall|j: int| 0 <= j < vertices@.len() ==> projectable(#[trigger] vertices@[j]),
            forall|j: int|
                0 <= j < i ==> #[trigger] points@[j] == spec_project(
                    vertices@[j].x as int,
                    vertices@[j].height as int,
                    vertices@[j].z as int,
                ),
        decreases n - i,
    {
        let v = vertices[i];
        points.push(project(v.x, v.height, v.z));
        i += 1;
    }
    points
}

/// The origin is drawn at the origin.
pub proof fn lemma_project_origin()
    ensures
        spec_project(0, 0, 0) == (Point2D { x: 0, y: 0 }),
{
    lemma_div_round_within(0, 1_000_000_000_000, 0);
}

/// A point on the x axis and the point as far out on the z axis are drawn
/// at the same height, and as far to the right as the other is to the left.
pub proof fn lemma_project_ground_axes(v: int)
    requires
        within(v, SPAN as int),
    ensures
        spec_project(v, 0, 0).y == spec_project(0, 0, v).y,
        spec_project(v, 0, 0).x == -spec_project(0, 0, v).x,
{
    lemma_scaled_negated(v, COS_30 as int);
    lemma_product_within(v, COS_30 as int, SPAN as int, 1_000_000_000_000);
    lemma_product_within(v, SIN_30 as int, SPAN as int, 1_000_000_000_000);
    lemma_div_round_within(v * COS_30, 1_000_000_000_000, SPAN as int);
    lemma_div_round_within(v * SIN_30, 1_000_000_000_000, SPAN as int);
}

/// Height moves a point straight up the screen by its own amount.
pub proof fn lemma_project_height(x: int, height: int, z: int)
    requires
        within(x, SPAN as int),
        within(height, SPAN as int),
        within(z, SPAN as int),
    ensures
        spec_project(x, height, z).x == spec_project(x, 0, z).x,
        spec_project(x, height, z).y == spec_project(x, 0, z).y + height,
{
    lemma_product_within(x + z, SIN_30 as int, 2 * SPAN, 1_000_000_000_000);
    lemma_div_round_within((x + z) * SIN_30, 1_000_000_000_000, 2 * SPAN);
}

/// A point is drawn within one count of where the formula
/// `(x - z) * cos(30 degrees)` puts it in exact arithmetic, as long as `x` and
/// `z` are no more than a million millimetres apart. The cosine of the
/// formula is given as a fraction `cosine / g`, as fine as one likes, of
/// which `COS_30` is the rounding to twelve decimals; the real cosine is the
/// limit of such fractions. The bound is stated multiplied out by `g`.
pub proof fn lemma_project_true_to_formula(x: int, z: int, g: int, cosine: int)
    requires
        within(x - z, FINE as int),
        0 < g,
        within(2 * (COS_30 * g - cosine * FINE), g),
    ensures
        within(scaled(x - z, COS_30 as int) * g - (x - z) * cosine, g),
{
    let a = x - z;
    let drawn = scaled(a, COS_30 as int);
    let lost = drawn * FINE - a * COS_30;
    let e = COS_30 * g - cosine * FINE;
    lemma_div_round_error(a * COS_30, 1_000_000_000_000);
    assert(within(2 * lost, FINE as int));
    assert(FINE * (drawn * g) == (a * COS_30) * g + lost * g) by (nonlinear_arith)
        requires
            lost == drawn * FINE - a * COS_30,
    ;
    assert((a * COS_30) * g == FINE * (a * cosine) + a * e) by (nonlinear_arith)
        requires
            e == COS_30 * g - cosine * FINE,
    ;
    lemma_product_within(a, 2 * e, 1_000_000_000_000, g);
    lemma_product_within(2 * lost, g, 1_000_000_000_000, g);
    assert(a * (2 * e) == 2 * (a * e) && (2 * lost) * g == 2 * (lost * g)) by (nonlinear_arith);
    assert(1_000_000_000_000 * (drawn * g - a * cosine) == a * e + lost * g);
}

} // verus!
