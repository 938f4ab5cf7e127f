//! Triangle rasterization: a bounding-box scan with an exact barycentric
//! coverage test and attribute interpolation.
use vstd::prelude::*;
use vstd::arithmetic::div_mod::lemma_div_is_ordered;
use vstd::arithmetic::div_mod::lemma_div_multiples_vanish;
use crate::color::Color;
use crate::fixed::COORD_MAX;
use crate::fixed::COORD_MIN;
use crate::fixed::UNIT;
use crate::fixed::abs_spec;
use crate::fixed::clamp_i32;
use crate::fixed::clamp_spec;
use crate::fixed::div_floor;
use crate::fixed::max_spec;
use crate::fixed::min_spec;
use crate::fragment::Fragment;
use crate::line::line;
use crate::line::line_fragments;
use crate::vector::Vec2;
use crate::vector::Vec3;
use crate::vector::normalized;
use crate::vector::normalize;
use crate::vertex::Vertex;

verus! {

/// A triangle whose doubled signed area is smaller in magnitude than this
/// (one ten-thousandth of a square pixel) is not drawn.
pub const AREA_EPSILON: i64 = 10_000;

/// Where and how much a rasterizer call may draw.
#[derive(Clone, Copy, Debug, PartialEq, Eq, Structural)]
pub struct RasterLimits {
    /// First pixel column of the render region.
    pub min_x: i32,
    /// First pixel row of the render region.
    pub min_y: i32,
    /// Last pixel column of the render region.
    pub max_x: i32,
    /// Last pixel row of the render region.
    pub max_y: i32,
    /// Ceiling on the number of samples one call emits.
    pub max_fragments: usize,
}

/// What the rasterizer hands to a fragment shader at one covered pixel.
#[derive(Clone, Copy, Debug, PartialEq, Eq, Structural)]
pub struct Sample {
    /// Pixel column.
    pub x: i32,
    /// Pixel row.
    pub y: i32,
    /// Interpolated model-space position.
    pub position: Vec3,
    /// Interpolated world-space position.
    pub world_position: Vec3,
    /// Interpolated normal, rescaled to length `UNIT` unless it is zero.
    pub normal: Vec3,
    /// Interpolated texture coordinates.
    pub tex_coords: Vec2,
    /// Interpolated depth key.
    pub depth: i32,
}

/// The 2D edge function: twice the signed area of the triangle `a`, `b`, `c`
/// in the screen plane.
pub open spec fn edge(a: Vec3, b: Vec3, c: Vec3) -> int {
    (c.x - a.x) * (b.y - a.y) - (c.y - a.y) * (b.x - a.x)
}

/// The fixed-point coordinate of the centre of pixel `p`.
pub open spec fn centre(p: int) -> int {
    p * UNIT + UNIT / 2
}

/// The centre of pixel `(x, y)` as a point of the screen plane.
pub open spec fn pixel_centre(x: int, y: int) -> Vec3 {
    Vec3 { x: centre(x) as i32, y: centre(y) as i32, z: 0 }
}

/// The pixel that holds a screen coordinate, after the coordinate is limited
/// to `[COORD_MIN, COORD_MAX]`.
pub open spec fn pixel_floor(c: int) -> int {
    clamp_spec(c, COORD_MIN as int, COORD_MAX as int) / (UNIT as int)
}

/// The first pixel boundary at or after a screen coordinate, after the
/// coordinate is limited to `[COORD_MIN, COORD_MAX]`.
pub open spec fn pixel_ceil(c: int) -> int {
    -((-clamp_spec(c, COORD_MIN as int, COORD_MAX as int)) / (UNIT as int))
}

/// The pixel bounding box `(min_x, min_y, max_x, max_y)` of three screen
/// points.
pub open spec fn bounding_box(a: Vec3, b: Vec3, c: Vec3) -> (int, int, int, int) {
    (
        pixel_floor(min_spec(min_spec(a.x as int, b.x as int), c.x as int)),
        pixel_floor(min_spec(min_spec(a.y as int, b.y as int), c.y as int)),
        pixel_ceil(max_spec(max_spec(a.x as int, b.x as int), c.x as int)),
        pixel_ceil(max_spec(max_spec(a.y as int, b.y as int), c.y as int)),
    )
}

/// The bounding box cut down to the render region.
pub open spec fn clipped_box(a: Vec3, b: Vec3, c: Vec3, limits: RasterLimits) -> (
    int,
    int,
    int,
    int,
) {
    let bb = bounding_box(a, b, c);
    (
        max_spec(bb.0, limits.min_x as int),
        max_spec(bb.1, limits.min_y as int),
        min_spec(bb.2, limits.max_x as int),
        min_spec(bb.3, limits.max_y as int),
    )
}

/// The triangle is too thin to draw.
pub open spec fn degenerate(a: Vec3, b: Vec3, c: Vec3) -> bool {
    abs_spec(edge(a, b, c)) < AREA_EPSILON
}

/// The three edge functions of `p` against the sides of the triangle, with
/// their signs turned so that they are positive inside a triangle whose
/// doubled area has the sign of `area`: the one opposite `a` comes first.
pub open spec fn oriented_weights(p: Vec3, a: Vec3, b: Vec3, c: Vec3, area: int) -> (int, int, int) {
    if area >= 0 {
        (edge(b, c, p), edge(c, a, p), edge(a, b, p))
    } else {
        (-edge(b, c, p), -edge(c, a, p), -edge(a, b, p))
    }
}

/// The barycentric weights of `p`, each multiplied by the magnitude of the
/// doubled area and so kept exact: the weight of `a` comes first.
pub open spec fn weights(p: Vec3, a: Vec3, b: Vec3, c: Vec3) -> (int, int, int) {
    oriented_weights(p, a, b, c, edge(a, b, c))
}

/// All three barycentric weights lie in the closed interval `[0, 1]`.
pub open spec fn inside(w: (int, int, int), total: int) -> bool {
    0 <= w.0 <= total && 0 <= w.1 <= total && 0 <= w.2 <= total
}

/// Pixel `(x, y)` is covered by the triangle: its centre has all three
/// barycentric weights in `[0, 1]`.
pub open spec fn covered(a: Vec3, b: Vec3, c: Vec3, x: int, y: int) -> bool {
    inside(weights(pixel_centre(x, y), a, b, c), abs_spec(edge(a, b, c)))
}

/// The barycentric combination of three attribute values, rounded down.
pub open spec fn interpolate(a1: int, a2: int, a3: int, w: (int, int, int), total: int) -> int {
    (a1 * w.0 + a2 * w.1 + a3 * w.2) / total
}

/// Component-wise interpolation of a vector attribute.
pub open spec fn interpolate3(v1: Vec3, v2: Vec3, v3: Vec3, w: (int, int, int), total: int) -> Vec3 {
    Vec3 {
        x: interpolate(v1.x as int, v2.x as int, v3.x as int, w, total) as i32,
        y: interpolate(v1.y as int, v2.y as int, v3.y as int, w, total) as i32,
        z: interpolate(v1.z as int, v2.z as int, v3.z as int, w, total) as i32,
    }
}

/// The sample taken at pixel `(x, y)` of the triangle `v1`, `v2`, `v3`.
pub open spec fn sample_at(v1: Vertex, v2: Vertex, v3: Vertex, x: int, y: int) -> Sample {
    let a = v1.transformed_position;
    let b = v2.transformed_position;
    let c = v3.transformed_position;
    let w = weights(pixel_centre(x, y), a, b, c);
    let total = abs_spec(edge(a, b, c));
    Sample {
        x: x as i32,
        y: y as i32,
        position: interpolate3(v1.position, v2.position, v3.position, w, total),
        world_position: interpolate3(
            v1.world_position,
            v2.world_position,
            v3.world_position,
            w,
            total,
        ),
        normal: normalized(
            interpolate3(v1.transformed_normal, v2.transformed_normal, v3.transformed_normal, w, total),
        ),
        tex_coords: Vec2 {
            x: interpolate(
                v1.tex_coords.x as int,
                v2.tex_coords.x as int,
                v3.tex_coords.x as int,
                w,
                total,
            ) as i32,
            y: interpolate(
                v1.tex_coords.y as int,
                v2.tex_coords.y as int,
                v3.tex_coords.y as int,
                w,
                total,
            ) as i32,
        },
        depth: interpolate(a.z as int, b.z as int, c.z as int, w, total) as i32,
    }
}

/// The samples of the covered pixels of row `y` with `x_lo <= x < x_hi`, from
/// left to right.
pub open spec fn scan_row(v1: Vertex, v2: Vertex, v3: Vertex, y: int, x_lo: int, x_hi: int) -> Seq<
    Sample,
>
    decreases x_hi - x_lo,
{
    if x_hi <= x_lo {
        Seq::empty()
    } else {
        let before = scan_row(v1, v2, v3, y, x_lo, x_hi - 1);
        if covered(
            v1.transformed_position,
            v2.transformed_position,
            v3.transformed_position,
            x_hi - 1,
            y,
        ) {
            before.push(sample_at(v1, v2, v3, x_hi - 1, y))
        } else {
            before
        }
    }
}

/// The samples of the covered pixels of the rows `y_lo <= y < y_hi`, row by
/// row from the top.
pub open spec fn scan_rows(
    v1: Vertex,
    v2: Vertex,
    v3: Vertex,
    y_lo: int,
    y_hi: int,
    x_lo: int,
    x_hi: int,
) -> Seq<Sample>
    decreases y_hi - y_lo,
{
    if y_hi <= y_lo {
        Seq::empty()
    } else {
        scan_rows(v1, v2, v3, y_lo, y_hi - 1, x_lo, x_hi) + scan_row(v1, v2, v3, y_hi - 1, x_lo, x_hi)
    }
}

/// Every sample of the triangle inside the render region, in scan order.
pub open spec fn all_samples(v1: Vertex, v2: Vertex, v3: Vertex, limits: RasterLimits) -> Seq<
    Sample,
> {
    let a = v1.transformed_position;
    let b = v2.transformed_position;
    let c = v3.transformed_position;
    let bb = clipped_box(a, b, c, limits);
    if bb.0 > bb.2 || bb.1 > bb.3 || degenerate(a, b, c) {
        Seq::empty()
    } else {
        scan_rows(v1, v2, v3, bb.1, bb.3 + 1, bb.0, bb.2 + 1)
    }
}

/// The samples one rasterizer call emits: the scan stops at the ceiling.
pub open spec fn samples(v1: Vertex, v2: Vertex, v3: Vertex, limits: RasterLimits) -> Seq<Sample> {
    let all = all_samples(v1, v2, v3, limits);
    all.take(min_spec(all.len() as int, limits.max_fragments as int))
}

/// The edge function written out as a sum of products of one x and one y
/// coordinate each.
proof fn lemma_edge_expanded(a: Vec3, b: Vec3, c: Vec3)
    ensures
        edge(a, b, c) == (c.x * b.y - c.x * a.y - a.x * b.y + a.x * a.y) - (b.x * c.y - a.x * c.y
            - b.x * a.y + a.x * a.y),
{
    let (ax, ay) = (a.x as int, a.y as int);
    let (bx, by) = (b.x as int, b.y as int);
    let (cx, cy) = (c.x as int, c.y as int);
    assert((cx - ax) * (by - ay) == cx * by - cx * ay - ax * by + ax * ay) by (nonlinear_arith);
    assert((cy - ay) * (bx - ax) == bx * cy - ax * cy - bx * ay + ax * ay) by (nonlinear_arith);
}

/// The three weights of any point add up to the doubled area.
pub proof fn lemma_weights_sum(p: Vec3, a: Vec3, b: Vec3, c: Vec3)
    ensures
        ({
            let w = weights(p, a, b, c);
            w.0 + w.1 + w.2 == abs_spec(edge(a, b, c))
        }),
{
    lemma_edge_expanded(a, b, c);
    lemma_edge_expanded(b, c, p);
    lemma_edge_expanded(c, a, p);
    lemma_edge_expanded(a, b, p);
}

/// An interpolated value lies between the smallest and the largest of the
/// three attribute values.
pub proof fn lemma_interpolate_between(a1: int, a2: int, a3: int, w: (int, int, int), total: int)
    requires
        0 <= w.0,
        0 <= w.1,
        0 <= w.2,
        w.0 + w.1 + w.2 == total,
        total > 0,
    ensures
        min_spec(min_spec(a1, a2), a3) <= interpolate(a1, a2, a3, w, total) <= max_spec(
            max_spec(a1, a2),
            a3,
        ),
{
    let lo = min_spec(min_spec(a1, a2), a3);
    let hi = max_spec(max_spec(a1, a2), a3);
    let s = a1 * w.0 + a2 * w.1 + a3 * w.2;
    assert(lo * total <= s <= hi * total) by (nonlinear_arith)
        requires
            s == a1 * w.0 + a2 * w.1 + a3 * w.2,
            0 <= w.0,
            0 <= w.1,
            0 <= w.2,
            w.0 + w.1 + w.2 == total,
            lo <= a1 <= hi,
            lo <= a2 <= hi,
            lo <= a3 <= hi,
    ;
    lemma_div_is_ordered(lo * total, s, total);
    lemma_div_is_ordered(s, hi * total, total);
    lemma_div_multiples_vanish(lo, total);
    lemma_div_multiples_vanish(hi, total);
}

/// An attribute that has the same value at all three vertices keeps exactly
/// that value wherever the three weights add up to the doubled area, and so at
/// every covered pixel.
pub proof fn lemma_constant_attribute(value: int, w: (int, int, int), total: int)
    requires
        w.0 + w.1 + w.2 == total,
        total > 0,
    ensures
        interpolate(value, value, value, w, total) == value,
{
    assert(value * w.0 + value * w.1 + value * w.2 == total * value) by (nonlinear_arith)
        requires
            w.0 + w.1 + w.2 == total,
    ;
    lemma_div_multiples_vanish(value, total);
}

/// Attributes that all three vertices share reach every pixel unchanged: in
/// a triangle that is not degenerate, a model position, world position,
/// texture coordinate or depth key that is the same at the three vertices is
/// exactly that value in the sample of every pixel.
pub proof fn lemma_shared_attributes_are_kept(v1: Vertex, v2: Vertex, v3: Vertex, x: int, y: int)
    requires
        !degenerate(v1.transformed_position, v2.transformed_position, v3.transformed_position),
    ensures
        v1.position == v2.position && v2.position == v3.position ==> sample_at(v1, v2, v3, x, y).position
            == v1.position,
        v1.world_position == v2.world_position && v2.world_position == v3.world_position
            ==> sample_at(v1, v2, v3, x, y).world_position == v1.world_position,
        v1.tex_coords == v2.tex_coords && v2.tex_coords == v3.tex_coords ==> sample_at(
            v1,
            v2,
            v3,
            x,
            y,
        ).tex_coords == v1.tex_coords,
        v1.transformed_position.z == v2.transformed_position.z && v2.transformed_position.z
            == v3.transformed_position.z ==> sample_at(v1, v2, v3, x, y).depth
            == v1.transformed_position.z,
{
    let a = v1.transformed_position;
    let b = v2.transformed_position;
    let c = v3.transformed_position;
    let w = weights(pixel_centre(x, y), a, b, c);
    let total = abs_spec(edge(a, b, c));
    lemma_weights_sum(pixel_centre(x, y), a, b, c);
    lemma_constant_attribute(v1.position.x as int, w, total);
    lemma_constant_attribute(v1.position.y as int, w, total);
    lemma_constant_attribute(v1.position.z as int, w, total);
    lemma_constant_attribute(v1.world_position.x as int, w, total);
    lemma_constant_attribute(v1.world_position.y as int, w, total);
    lemma_constant_attribute(v1.world_position.z as int, w, total);
    lemma_constant_attribute(v1.tex_coords.x as int, w, total);
    lemma_constant_attribute(v1.tex_coords.y as int, w, total);
    lemma_constant_attribute(a.z as int, w, total);
}

/// `s` is the sample of a covered pixel in the given columns of row `y`.
pub open spec fn is_sample_of_row(v1: Vertex, v2: Vertex, v3: Vertex, y: int, x_lo: int, x_hi: int, s: Sample) -> bool {
    exists|x: int|
        x_lo <= x < x_hi && #[trigger] covered(
            v1.transformed_position,
            v2.transformed_position,
            v3.transformed_position,
            x,
            y,
        ) && s == sample_at(v1, v2, v3, x, y)
}

/// `s` is the sample of a covered pixel in the given rows and columns.
pub open spec fn is_sample_of_box(
    v1: Vertex,
    v2: Vertex,
    v3: Vertex,
    y_lo: int,
    y_hi: int,
    x_lo: int,
    x_hi: int,
    s: Sample,
) -> bool {
    exists|y: int| y_lo <= y < y_hi && #[trigger] is_sample_of_row(v1, v2, v3, y, x_lo, x_hi, s)
}

/// The scan of a row holds the samples of the covered pixels of the row, and
/// nothing else.
pub proof fn lemma_scan_row_holds_the_covered(v1: Vertex, v2: Vertex, v3: Vertex, y: int, x_lo: int, x_hi: int)
    ensures
        forall|s: Sample|
            scan_row(v1, v2, v3, y, x_lo, x_hi).contains(s) <==> is_sample_of_row(
                v1,
                v2,
                v3,
                y,
                x_lo,
                x_hi,
                s,
            ),
    decreases x_hi - x_lo,
{
    let a = v1.transformed_position;
    let b = v2.transformed_position;
    let c = v3.transformed_position;
    let row = scan_row(v1, v2, v3, y, x_lo, x_hi);
    if x_hi <= x_lo {
        assert forall|s: Sample| row.contains(s) <==> is_sample_of_row(v1, v2, v3, y, x_lo, x_hi, s) by {
        }
    } else {
        lemma_scan_row_holds_the_covered(v1, v2, v3, y, x_lo, x_hi - 1);
        let before = scan_row(v1, v2, v3, y, x_lo, x_hi - 1);
        let last = sample_at(v1, v2, v3, x_hi - 1, y);
        assert forall|s: Sample| row.contains(s) <==> is_sample_of_row(v1, v2, v3, y, x_lo, x_hi, s) by {
            if row.contains(s) {
                let i = choose|i: int| 0 <= i < row.len() && row[i] == s;
                if i < before.len() {
                    assert(before[i] == s);
                    assert(before.contains(s));
                    assert(is_sample_of_row(v1, v2, v3, y, x_lo, x_hi - 1, s));
                    let x = choose|x: int|
                        x_lo <= x < x_hi - 1 && #[trigger] covered(a, b, c, x, y) && s
                            == sample_at(v1, v2, v3, x, y);
                    assert(covered(a, b, c, x, y));
                } else {
                    assert(covered(a, b, c, x_hi - 1, y));
                    assert(s == last);
                }
            }
            if is_sample_of_row(v1, v2, v3, y, x_lo, x_hi, s) {
                let x = choose|x: int|
                    x_lo <= x < x_hi && #[trigger] covered(a, b, c, x, y) && s == sample_at(
                        v1,
                        v2,
                        v3,
                        x,
                        y,
                    );
                if x < x_hi - 1 {
                    assert(is_sample_of_row(v1, v2, v3, y, x_lo, x_hi - 1, s));
                    assert(before.contains(s));
                    let i = choose|i: int| 0 <= i < before.len() && before[i] == s;
                    assert(row[i] == s);
                } else {
                    assert(row[row.len() - 1] == s);
                }
            }
        }
    }
}

/// The scan of a box holds the samples of the covered pixels of the box, and
/// nothing else.
pub proof fn lemma_scan_holds_the_covered(
    v1: Vertex,
    v2: Vertex,
    v3: Vertex,
    y_lo: int,
    y_hi: int,
    x_lo: int,
    x_hi: int,
)
    ensures
        forall|s: Sample|
            scan_rows(v1, v2, v3, y_lo, y_hi, x_lo, x_hi).contains(s) <==> is_sample_of_box(
                v1,
                v2,
                v3,
                y_lo,
                y_hi,
                x_lo,
                x_hi,
                s,
            ),
    decreases y_hi - y_lo,
{
    let all = scan_rows(v1, v2, v3, y_lo, y_hi, x_lo, x_hi);
    if y_hi <= y_lo {
        assert forall|s: Sample| all.contains(s) <==> is_sample_of_box(
            v1,
            v2,
            v3,
            y_lo,
            y_hi,
            x_lo,
            x_hi,
            s,
        ) by {
        }
    } else {
        lemma_scan_holds_the_covered(v1, v2, v3, y_lo, y_hi - 1, x_lo, x_hi);
        lemma_scan_row_holds_the_covered(v1, v2, v3, y_hi - 1, x_lo, x_hi);
        let before = scan_rows(v1, v2, v3, y_lo, y_hi - 1, x_lo, x_hi);
        let row = scan_row(v1, v2, v3, y_hi - 1, x_lo, x_hi);
        assert forall|s: Sample| all.contains(s) <==> is_sample_of_box(
            v1,
            v2,
            v3,
            y_lo,
            y_hi,
            x_lo,
            x_hi,
            s,
        ) by {
            if all.contains(s) {
                let i = choose|i: int| 0 <= i < all.len() && all[i] == s;
                if i < before.len() {
                    assert(before[i] == s);
                    assert(before.contains(s));
                    assert(is_sample_of_box(v1, v2, v3, y_lo, y_hi - 1, x_lo, x_hi, s));
                    let y = choose|y: int|
                        y_lo <= y < y_hi - 1 && #[trigger] is_sample_of_row(
                            v1,
                            v2,
                            v3,
                            y,
                            x_lo,
                            x_hi,
                            s,
                        );
                    assert(is_sample_of_row(v1, v2, v3, y, x_lo, x_hi, s));
                } else {
                    assert(row[i - before.len()] == s);
                    assert(row.contains(s));
                    assert(is_sample_of_row(v1, v2, v3, y_hi - 1, x_lo, x_hi, s));
                }
            }
            if is_sample_of_box(v1, v2, v3, y_lo, y_hi, x_lo, x_hi, s) {
                let y = choose|y: int|
                    y_lo <= y < y_hi && #[trigger] is_sample_of_row(v1, v2, v3, y, x_lo, x_hi, s);
                if y < y_hi - 1 {
                    assert(is_sample_of_box(v1, v2, v3, y_lo, y_hi - 1, x_lo, x_hi, s));
                    assert(before.contains(s));
                    let i = choose|i: int| 0 <= i < before.len() && before[i] == s;
                    assert(all[i] == s);
                } else {
                    assert(row.contains(s));
                    let i = choose|i: int| 0 <= i < row.len() && row[i] == s;
                    assert(all[before.len() + i] == s);
                }
            }
        }
    }
}

/// `s` comes before `t` in reading order: in a row above, or in the same row
/// to the left.
pub open spec fn reads_before(s: Sample, t: Sample) -> bool {
    s.y < t.y || (s.y == t.y && s.x < t.x)
}

/// The scan of a row runs from left to right and stays in the row.
proof fn lemma_scan_row_in_order(v1: Vertex, v2: Vertex, v3: Vertex, y: int, x_lo: int, x_hi: int)
    requires
        -0x8000_0000 <= x_lo,
        x_hi <= 0x8000_0000,
        -0x8000_0000 <= y < 0x8000_0000,
    ensures
        forall|i: int|
            0 <= i < scan_row(v1, v2, v3, y, x_lo, x_hi).len() ==> {
                let s = #[trigger] scan_row(v1, v2, v3, y, x_lo, x_hi)[i];
                s.y == y && x_lo <= s.x < x_hi
            },
        forall|i: int, j: int|
            0 <= i < j < scan_row(v1, v2, v3, y, x_lo, x_hi).len() ==> (#[trigger] scan_row(
                v1,
                v2,
                v3,
                y,
                x_lo,
                x_hi,
            )[i]).x < (#[trigger] scan_row(v1, v2, v3, y, x_lo, x_hi)[j]).x,
    decreases x_hi - x_lo,
{
    if x_hi > x_lo {
        lemma_scan_row_in_order(v1, v2, v3, y, x_lo, x_hi - 1);
        let before = scan_row(v1, v2, v3, y, x_lo, x_hi - 1);
        let row = scan_row(v1, v2, v3, y, x_lo, x_hi);
        let last = sample_at(v1, v2, v3, x_hi - 1, y);
        assert(last.x == x_hi - 1 && last.y == y);
        assert forall|i: int| 0 <= i < row.len() implies {
            let s = #[trigger] row[i];
            s.y == y && x_lo <= s.x < x_hi
        } by {
            if i < before.len() {
                assert(row[i] == before[i]);
            }
        }
        assert forall|i: int, j: int| 0 <= i < j < row.len() implies (#[trigger] row[i]).x < (
        #[trigger] row[j]).x by {
            assert(row[i] == before[i]);
            if j < before.len() {
                assert(row[j] == before[j]);
            }
        }
    }
}

/// The samples of a scan come in reading order, row by row from the top and
/// from left to right in each row; so no pixel is sampled twice.
pub proof fn lemma_scan_in_reading_order(
    v1: Vertex,
    v2: Vertex,
    v3: Vertex,
    y_lo: int,
    y_hi: int,
    x_lo: int,
    x_hi: int,
)
    requires
        -0x8000_0000 <= x_lo,
        x_hi <= 0x8000_0000,
        -0x8000_0000 <= y_lo,
        y_hi <= 0x8000_0000,
    ensures
        forall|i: int|
            0 <= i < scan_rows(v1, v2, v3, y_lo, y_hi, x_lo, x_hi).len() ==> {
                let s = #[trigger] scan_rows(v1, v2, v3, y_lo, y_hi, x_lo, x_hi)[i];
                y_lo <= s.y < y_hi && x_lo <= s.x < x_hi
            },
        forall|i: int, j: int|
            0 <= i < j < scan_rows(v1, v2, v3, y_lo, y_hi, x_lo, x_hi).len() ==> reads_before(
                #[trigger] scan_rows(v1, v2, v3, y_lo, y_hi, x_lo, x_hi)[i],
                #[trigger] scan_rows(v1, v2, v3, y_lo, y_hi, x_lo, x_hi)[j],
            ),
    decreases y_hi - y_lo,
{
    if y_hi > y_lo {
        lemma_scan_in_reading_order(v1, v2, v3, y_lo, y_hi - 1, x_lo, x_hi);
        lemma_scan_row_in_order(v1, v2, v3, y_hi - 1, x_lo, x_hi);
        let before = scan_rows(v1, v2, v3, y_lo, y_hi - 1, x_lo, x_hi);
        let row = scan_row(v1, v2, v3, y_hi - 1, x_lo, x_hi);
        let all = scan_rows(v1, v2, v3, y_lo, y_hi, x_lo, x_hi);
        assert forall|i: int| 0 <= i < all.len() implies {
            let s = #[trigger] all[i];
            y_lo <= s.y < y_hi && x_lo <= s.x < x_hi
        } by {
            if i < before.len() {
                assert(all[i] == before[i]);
            } else {
                assert(all[i] == row[i - before.len()]);
            }
        }
        assert forall|i: int, j: int| 0 <= i < j < all.len() implies reads_before(
            #[trigger] all[i],
            #[trigger] all[j],
        ) by {
            if j < before.len() {
                assert(all[i] == before[i] && all[j] == before[j]);
            } else if i < before.len() {
                assert(all[i] == before[i] && all[j] == row[j - before.len()]);
            } else {
                assert(all[i] == row[i - before.len()] && all[j] == row[j - before.len()]);
            }
        }
    }
}

/// `s` is an initial stretch of `t`.
pub open spec fn is_initial(s: Seq<Sample>, t: Seq<Sample>) -> bool {
    s.len() <= t.len() && forall|i: int| 0 <= i < s.len() ==> s[i] == t[i]
}

/// Scanning less of a row gives an initial stretch of scanning more of it.
proof fn lemma_scan_row_initial(v1: Vertex, v2: Vertex, v3: Vertex, y: int, x_lo: int, x: int, x_hi: int)
    requires
        x <= x_hi,
    ensures
        is_initial(scan_row(v1, v2, v3, y, x_lo, x), scan_row(v1, v2, v3, y, x_lo, x_hi)),
    decreases x_hi - x,
{
    if x < x_hi {
        lemma_scan_row_initial(v1, v2, v3, y, x_lo, x, x_hi - 1);
    }
}

/// Scanning some rows and a part of the next gives an initial stretch of
/// scanning more rows.
proof fn lemma_scan_rows_initial(
    v1: Vertex,
    v2: Vertex,
    v3: Vertex,
    y_lo: int,
    y: int,
    y_hi: int,
    x_lo: int,
    x: int,
    x_hi: int,
)
    requires
        y_lo <= y < y_hi,
        x <= x_hi,
    ensures
        is_initial(
            scan_rows(v1, v2, v3, y_lo, y, x_lo, x_hi) + scan_row(v1, v2, v3, y, x_lo, x),
            scan_rows(v1, v2, v3, y_lo, y_hi, x_lo, x_hi),
        ),
    decreases y_hi - y,
{
    if y == y_hi - 1 {
        lemma_scan_row_initial(v1, v2, v3, y, x_lo, x, x_hi);
    } else {
        lemma_scan_rows_initial(v1, v2, v3, y_lo, y, y_hi - 1, x_lo, x, x_hi);
    }
}

/// Twice the signed area of the triangle `a`, `b`, `c` in the screen plane.
pub fn edge_function(a: &Vec3, b: &Vec3, c: &Vec3) -> (r: i128)
    ensures
        r == edge(*a, *b, *c),
        -0x2_0000_0000_0000_0000 <= r <= 0x2_0000_0000_0000_0000,
{
    let dx1: i128 = c.x as i128 - a.x as i128;
    let dy1: i128 = b.y as i128 - a.y as i128;
    let dy2: i128 = c.y as i128 - a.y as i128;
    let dx2: i128 = b.x as i128 - a.x as i128;
    assert(-0x1_0000_0000_0000_0000 <= dx1 * dy1 <= 0x1_0000_0000_0000_0000) by (nonlinear_arith)
        requires
            -0x1_0000_0000 <= dx1 <= 0x1_0000_0000,
            -0x1_0000_0000 <= dy1 <= 0x1_0000_0000,
    ;
    assert(-0x1_0000_0000_0000_0000 <= dy2 * dx2 <= 0x1_0000_0000_0000_0000) by (nonlinear_arith)
        requires
            -0x1_0000_0000 <= dx2 <= 0x1_0000_0000,
            -0x1_0000_0000 <= dy2 <= 0x1_0000_0000,
    ;
    dx1 * dy1 - dy2 * dx2
}

/// The pixel that holds a coordinate already limited to the screen range.
fn floor_pixel(c: i32) -> (p: i32)
    requires
        COORD_MIN <= c <= COORD_MAX,
    ensures
        p == c / UNIT,
        -10_000 <= p <= 20_000,
{
    div_floor(c as i128, UNIT as i128) as i32
}

/// The first pixel boundary at or after a coordinate already limited to the
/// screen range.
fn ceil_pixel(c: i32) -> (p: i32)
    requires
        COORD_MIN <= c <= COORD_MAX,
    ensures
        p == -((-c) / (UNIT as int)),
        -10_000 <= p <= 20_000,
{
    (-div_floor(-(c as i128), UNIT as i128)) as i32
}

/// The smaller of two scalars.
fn min_i32(a: i32, b: i32) -> (r: i32)
    ensures
        r == min_spec(a as int, b as int),
{
    if a <= b {
        a
    } else {
        b
    }
}

/// The larger of two scalars.
fn max_i32(a: i32, b: i32) -> (r: i32)
    ensures
        r == max_spec(a as int, b as int),
{
    if a >= b {
        a
    } else {
        b
    }
}

/// The pixel bounding box `(min_x, min_y, max_x, max_y)` of three screen
/// points, each coordinate first limited to `[COORD_MIN, COORD_MAX]`.
pub fn calculate_bounding_box(v1: &Vec3, v2: &Vec3, v3: &Vec3) -> (bb: (i32, i32, i32, i32))
    ensures
        (bb.0 as int, bb.1 as int, bb.2 as int, bb.3 as int) == bounding_box(*v1, *v2, *v3),
        -10_000 <= bb.0 <= bb.2 <= 20_000,
        -10_000 <= bb.1 <= bb.3 <= 20_000,
{
    let x1: i32 = clamp_i32(v1.x, COORD_MIN, COORD_MAX);
    let y1: i32 = clamp_i32(v1.y, COORD_MIN, COORD_MAX);
    let x2: i32 = clamp_i32(v2.x, COORD_MIN, COORD_MAX);
    let y2: i32 = clamp_i32(v2.y, COORD_MIN, COORD_MAX);
    let x3: i32 = clamp_i32(v3.x, COORD_MIN, COORD_MAX);
    let y3: i32 = clamp_i32(v3.y, COORD_MIN, COORD_MAX);
    let min_x: i32 = floor_pixel(min_i32(min_i32(x1, x2), x3));
    let min_y: i32 = floor_pixel(min_i32(min_i32(y1, y2), y3));
    let max_x: i32 = ceil_pixel(max_i32(max_i32(x1, x2), x3));
    let max_y: i32 = ceil_pixel(max_i32(max_i32(y1, y2), y3));
    (min_x, min_y, max_x, max_y)
}

/// The exact barycentric weights of `p` in the triangle `a`, `b`, `c`, whose
/// doubled signed area is `area`.  Only the sign of `area` is read: the
/// weights are not divided by it.
pub fn barycentric_coordinates(p: &Vec3, a: &Vec3, b: &Vec3, c: &Vec3, area: i128) -> (w: (
    i128,
    i128,
    i128,
))
    ensures
        (w.0 as int, w.1 as int, w.2 as int) == oriented_weights(*p, *a, *b, *c, area as int),
        area == edge(*a, *b, *c) ==> (w.0 as int, w.1 as int, w.2 as int) == weights(*p, *a, *b, *c)
            && w.0 + w.1 + w.2 == abs_spec(area as int),
{
    let e1: i128 = edge_function(b, c, p);
    let e2: i128 = edge_function(c, a, p);
    let e3: i128 = edge_function(a, b, p);
    proof {
        lemma_weights_sum(*p, *a, *b, *c);
    }
    if area >= 0 {
        (e1, e2, e3)
    } else {
        (-e1, -e2, -e3)
    }
}

/// The barycentric combination of three attribute values, rounded down.
pub fn interpolate_attribute(a1: i32, a2: i32, a3: i32, w: (i128, i128, i128), total: i128) -> (r:
    i32)
    requires
        0 <= w.0,
        0 <= w.1,
        0 <= w.2,
        w.0 + w.1 + w.2 == total,
        0 < total <= 0x2_0000_0000_0000_0000,
    ensures
        r == interpolate(a1 as int, a2 as int, a3 as int, (w.0 as int, w.1 as int, w.2 as int), total as int),
        min_spec(min_spec(a1 as int, a2 as int), a3 as int) <= r <= max_spec(
            max_spec(a1 as int, a2 as int),
            a3 as int,
        ),
{
    let (w1, w2, w3) = w;
    let (b1, b2, b3) = (a1 as i128, a2 as i128, a3 as i128);
    assert(-0x1_0000_0000_0000_0000_0000_0000 <= b1 * w1 <= 0x1_0000_0000_0000_0000_0000_0000)
        by (nonlinear_arith)
        requires
            -0x8000_0000 <= b1 <= 0x8000_0000,
            0 <= w1 <= 0x2_0000_0000_0000_0000,
    ;
    assert(-0x1_0000_0000_0000_0000_0000_0000 <= b2 * w2 <= 0x1_0000_0000_0000_0000_0000_0000)
        by (nonlinear_arith)
        requires
            -0x8000_0000 <= b2 <= 0x8000_0000,
            0 <= w2 <= 0x2_0000_0000_0000_0000,
    ;
    assert(-0x1_0000_0000_0000_0000_0000_0000 <= b3 * w3 <= 0x1_0000_0000_0000_0000_0000_0000)
        by (nonlinear_arith)
        requires
            -0x8000_0000 <= b3 <= 0x8000_0000,
            0 <= w3 <= 0x2_0000_0000_0000_0000,
    ;
    let sum: i128 = b1 * w1 + b2 * w2 + b3 * w3;
    proof {
        lemma_interpolate_between(
            a1 as int,
            a2 as int,
            a3 as int,
            (w1 as int, w2 as int, w3 as int),
            total as int,
        );
    }
    div_floor(sum, total) as i32
}

/// Component-wise interpolation of a vector attribute.
fn interpolate_vector(v1: &Vec3, v2: &Vec3, v3: &Vec3, w: (i128, i128, i128), total: i128) -> (r:
    Vec3)
    requires
        0 <= w.0,
        0 <= w.1,
        0 <= w.2,
        w.0 + w.1 + w.2 == total,
        0 < total <= 0x2_0000_0000_0000_0000,
    ensures
        r == interpolate3(*v1, *v2, *v3, (w.0 as int, w.1 as int, w.2 as int), total as int),
{
    Vec3 {
        x: interpolate_attribute(v1.x, v2.x, v3.x, w, total),
        y: interpolate_attribute(v1.y, v2.y, v3.y, w, total),
        z: interpolate_attribute(v1.z, v2.z, v3.z, w, total),
    }
}

/// The sample of the triangle at a covered pixel.
fn take_sample(v1: &Vertex, v2: &Vertex, v3: &Vertex, x: i32, y: i32, w: (i128, i128, i128), total: i128) -> (s:
    Sample)
    requires
        (w.0 as int, w.1 as int, w.2 as int) == weights(
            pixel_centre(x as int, y as int),
            v1.transformed_position,
            v2.transformed_position,
            v3.transformed_position,
        ),
        total == abs_spec(
            edge(v1.transformed_position, v2.transformed_position, v3.transformed_position),
        ),
        0 <= w.0,
        0 <= w.1,
        0 <= w.2,
        w.0 + w.1 + w.2 == total,
        0 < total <= 0x2_0000_0000_0000_0000,
    ensures
        s == sample_at(*v1, *v2, *v3, x as int, y as int),
{
    let normal: Vec3 = interpolate_vector(
        &v1.transformed_normal,
        &v2.transformed_normal,
        &v3.transformed_normal,
        w,
        total,
    );
    Sample {
        x,
        y,
        position: interpolate_vector(&v1.position, &v2.position, &v3.position, w, total),
        world_position: interpolate_vector(
            &v1.world_position,
            &v2.world_position,
            &v3.world_position,
            w,
            total,
        ),
        normal: normalize(normal),
        tex_coords: Vec2 {
            x: interpolate_attribute(v1.tex_coords.x, v2.tex_coords.x, v3.tex_coords.x, w, total),
            y: interpolate_attribute(v1.tex_coords.y, v2.tex_coords.y, v3.tex_coords.y, w, total),
        },
        depth: interpolate_attribute(
            v1.transformed_position.z,
            v2.transformed_position.z,
            v3.transformed_position.z,
            w,
            total,
        ),
    }
}

/// Scans the bounding box of a triangle inside the render region and takes a
/// sample at every covered pixel, row by row, until the ceiling is reached.
pub fn rasterize(v1: &Vertex, v2: &Vertex, v3: &Vertex, limits: &RasterLimits) -> (out: Vec<Sample>)
    ensures
        out@ == samples(*v1, *v2, *v3, *limits),
        degenerate(v1.transformed_position, v2.transformed_position, v3.transformed_position)
            ==> out@.len() == 0,
        out@.len() <= limits.max_fragments,
{
    let mut out: Vec<Sample> = Vec::new();
    let a: Vec3 = v1.transformed_position;
    let b: Vec3 = v2.transformed_position;
    let c: Vec3 = v3.transformed_position;
    let bb: (i32, i32, i32, i32) = calculate_bounding_box(&a, &b, &c);
    let x_lo: i32 = max_i32(bb.0, limits.min_x);
    let y_lo: i32 = max_i32(bb.1, limits.min_y);
    let x_hi: i32 = min_i32(bb.2, limits.max_x);
    let y_hi: i32 = min_i32(bb.3, limits.max_y);
    if x_lo > x_hi || y_lo > y_hi {
        return out;
    }
    let area: i128 = edge_function(&a, &b, &c);
    let total: i128 = if area >= 0 {
        area
    } else {
        -area
    };
    if total < AREA_EPSILON as i128 {
        return out;
    }
    let ghost all = scan_rows(*v1, *v2, *v3, y_lo as int, y_hi + 1, x_lo as int, x_hi + 1);
    let mut y: i32 = y_lo;
    while y <= y_hi
        invariant
            a == v1.transformed_position,
            b == v2.transformed_position,
            c == v3.transformed_position,
            area == edge(a, b, c),
            total == abs_spec(area as int),
            AREA_EPSILON <= total <= 0x2_0000_0000_0000_0000,
            -10_000 <= x_lo <= x_hi <= 20_000,
            -10_000 <= y_lo <= y <= y_hi + 1 <= 20_001,
            out@ == scan_rows(*v1, *v2, *v3, y_lo as int, y as int, x_lo as int, x_hi + 1),
            out@.len() <= limits.max_fragments,
            all == scan_rows(*v1, *v2, *v3, y_lo as int, y_hi + 1, x_lo as int, x_hi + 1),
            all == all_samples(*v1, *v2, *v3, *limits),
        decreases y_hi + 1 - y,
    {
        let mut x: i32 = x_lo;
        while x <= x_hi
            invariant
                a == v1.transformed_position,
                b == v2.transformed_position,
                c == v3.transformed_position,
                area == edge(a, b, c),
                total == abs_spec(area as int),
                AREA_EPSILON <= total <= 0x2_0000_0000_0000_0000,
                -10_000 <= x_lo <= x <= x_hi + 1 <= 20_001,
                -10_000 <= y_lo <= y <= y_hi <= 20_000,
                out@ == scan_rows(*v1, *v2, *v3, y_lo as int, y as int, x_lo as int, x_hi + 1)
                    + scan_row(*v1, *v2, *v3, y as int, x_lo as int, x as int),
                out@.len() <= limits.max_fragments,
                all == scan_rows(*v1, *v2, *v3, y_lo as int, y_hi + 1, x_lo as int, x_hi + 1),
                all == all_samples(*v1, *v2, *v3, *limits),
            decreases x_hi + 1 - x,
        {
            if out.len() >= limits.max_fragments {
                proof {
                    lemma_scan_rows_initial(
                        *v1,
                        *v2,
                        *v3,
                        y_lo as int,
                        y as int,
                        y_hi + 1,
                        x_lo as int,
                        x as int,
                        x_hi + 1,
                    );
                }
                return out;
            }
            let p: Vec3 = Vec3 { x: x * UNIT + UNIT / 2, y: y * UNIT + UNIT / 2, z: 0 };
            let w: (i128, i128, i128) = barycentric_coordinates(&p, &a, &b, &c, area);
            if w.0 >= 0 && w.0 <= total && w.1 >= 0 && w.1 <= total && w.2 >= 0 && w.2 <= total {
                let s: Sample = take_sample(v1, v2, v3, x, y, w, total);
                out.push(s);
            }
            x = x + 1;
        }
        assert(scan_rows(*v1, *v2, *v3, y_lo as int, y + 1, x_lo as int, x_hi + 1) == scan_rows(
            *v1,
            *v2,
            *v3,
            y_lo as int,
            y as int,
            x_lo as int,
            x_hi + 1,
        ) + scan_row(*v1, *v2, *v3, y as int, x_lo as int, x_hi + 1));
        y = y + 1;
    }
    out
}

impl RasterLimits {
    /// The fixed safe region, from 100 pixels before the origin to pixel 2000
    /// on both axes, with no ceiling on the number of samples.
    pub open spec fn standard_spec() -> RasterLimits {
        RasterLimits {
            min_x: -100i32,
            min_y: -100i32,
            max_x: 2000,
            max_y: 2000,
            max_fragments: usize::MAX,
        }
    }

    /// The pixel rectangle of a framebuffer of the given size, as far as it
    /// lies inside the screen coordinate range, with the given ceiling.
    pub open spec fn for_framebuffer_spec(width: usize, height: usize, max_fragments: usize) -> RasterLimits {
        RasterLimits {
            min_x: 0,
            min_y: 0,
            max_x: (min_spec(width as int, 20_001) - 1) as i32,
            max_y: (min_spec(height as int, 20_001) - 1) as i32,
            max_fragments,
        }
    }

    /// The fixed safe region, without a ceiling.
    pub fn standard() -> (limits: RasterLimits)
        ensures
            limits == Self::standard_spec(),
    {
        RasterLimits { min_x: -100, min_y: -100, max_x: 2000, max_y: 2000, max_fragments: usize::MAX }
    }

    /// Limits derived from the size of the framebuffer that is drawn to.
    pub fn for_framebuffer(width: usize, height: usize, max_fragments: usize) -> (limits: RasterLimits)
        ensures
            limits == Self::for_framebuffer_spec(width, height, max_fragments),
    {
        let w: usize = if width < 20_001 {
            width
        } else {
            20_001
        };
        let h: usize = if height < 20_001 {
            height
        } else {
            20_001
        };
        RasterLimits { min_x: 0, min_y: 0, max_x: w as i32 - 1, max_y: h as i32 - 1, max_fragments }
    }
}

/// `fragment` is what the shader `f` makes of the sample `s` of the triangle
/// `v1`, `v2`, `v3`: the pixel and depth of the sample, and a colour that the
/// shader returns for the interpolated attributes.
pub open spec fn shaded<F: Fn(&Vertex, &Vertex, &Vertex, Vec3, Vec3, Vec3, Vec2) -> Color>(
    f: F,
    v1: &Vertex,
    v2: &Vertex,
    v3: &Vertex,
    s: Sample,
    fragment: Fragment,
) -> bool {
    &&& fragment.x == s.x
    &&& fragment.y == s.y
    &&& fragment.depth == s.depth
    &&& call_ensures(
        f,
        (v1, v2, v3, s.position, s.world_position, s.normal, s.tex_coords),
        fragment.color,
    )
}

/// Rasterizes a triangle and colours every sample with `fragment_shader`,
/// which receives the three vertices and the interpolated model position,
/// world position, normal and texture coordinates.
pub fn triangle_with_shader<F: Fn(&Vertex, &Vertex, &Vertex, Vec3, Vec3, Vec3, Vec2) -> Color>(
    v1: &Vertex,
    v2: &Vertex,
    v3: &Vertex,
    fragment_shader: &F,
    limits: &RasterLimits,
) -> (fragments: Vec<Fragment>)
    requires
        forall|p: Vec3, w: Vec3, n: Vec3, t: Vec2|
            call_requires(*fragment_shader, (v1, v2, v3, p, w, n, t)),
    ensures
        fragments@.len() == samples(*v1, *v2, *v3, *limits).len(),
        forall|i: int|
            0 <= i < fragments@.len() ==> shaded(
                *fragment_shader,
                v1,
                v2,
                v3,
                samples(*v1, *v2, *v3, *limits)[i],
                #[trigger] fragments@[i],
            ),
        degenerate(v1.transformed_position, v2.transformed_position, v3.transformed_position)
            ==> fragments@.len() == 0,
{
    let picked: Vec<Sample> = rasterize(v1, v2, v3, limits);
    let mut fragments: Vec<Fragment> = Vec::new();
    let mut i: usize = 0;
    while i < picked.len()
        invariant
            i <= picked@.len(),
            fragments@.len() == i,
            picked@ == samples(*v1, *v2, *v3, *limits),
            forall|p: Vec3, w: Vec3, n: Vec3, t: Vec2|
                call_requires(*fragment_shader, (v1, v2, v3, p, w, n, t)),
            forall|k: int|
                0 <= k < i ==> shaded(*fragment_shader, v1, v2, v3, picked@[k], #[trigger] fragments@[k]),
        decreases picked@.len() - i,
    {
        let s: Sample = picked[i];
        let color: Color = fragment_shader(
            v1,
            v2,
            v3,
            s.position,
            s.world_position,
            s.normal,
            s.tex_coords,
        );
        fragments.push(Fragment::new(s.x, s.y, color, s.depth as i64));
        i = i + 1;
    }
    fragments
}

/// Rasterizes a triangle inside the standard limits in one flat grey.
pub fn triangle(v1: &Vertex, v2: &Vertex, v3: &Vertex) -> (fragments: Vec<Fragment>)
    ensures
        fragments@.len() == samples(*v1, *v2, *v3, RasterLimits::standard_spec()).len(),
        forall|i: int|
            0 <= i < fragments@.len() ==> {
                let s = samples(*v1, *v2, *v3, RasterLimits::standard_spec())[i];
                #[trigger] fragments@[i] == (Fragment {
                    x: s.x,
                    y: s.y,
                    color: Color { r: 100, g: 100, b: 100 },
                    depth: s.depth as i64,
                })
            },
        degenerate(v1.transformed_position, v2.transformed_position, v3.transformed_position)
            ==> fragments@.len() == 0,
{
    let limits: RasterLimits = RasterLimits::standard();
    let grey = |_a: &Vertex, _b: &Vertex, _c: &Vertex, _p: Vec3, _w: Vec3, _n: Vec3, _t: Vec2| -> (c:
        Color)
        ensures
            c == (Color { r: 100, g: 100, b: 100 }),
        { Color::new(100, 100, 100) };
    triangle_with_shader(v1, v2, v3, &grey, &limits)
}

/// The outline of a triangle: its three sides as lines, from `v1` to `v2`,
/// from `v2` to `v3` and from `v3` back to `v1`.
pub fn _triangle(v1: &Vertex, v2: &Vertex, v3: &Vertex) -> (fragments: Vec<Fragment>)
    ensures
        fragments@ == line_fragments(*v1, *v2) + line_fragments(*v2, *v3) + line_fragments(*v3, *v1),
{
    let mut fragments: Vec<Fragment> = line(v1, v2);
    let mut second: Vec<Fragment> = line(v2, v3);
    let mut third: Vec<Fragment> = line(v3, v1);
    fragments.append(&mut second);
    fragments.append(&mut third);
    fragments
}

} // verus!
