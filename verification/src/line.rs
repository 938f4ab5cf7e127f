//! Line rasterization: an integer-stepped line with a depth key interpolated
//! along screen x.
use vstd::prelude::*;
use vstd::assert_by_contradiction;
use vstd::arithmetic::div_mod::lemma_div_is_ordered;
use vstd::arithmetic::div_mod::lemma_div_plus_one;
use vstd::arithmetic::div_mod::lemma_fundamental_div_mod_converse;
use crate::color::Color;
use crate::fixed::COORD_MAX;
use crate::fixed::COORD_MIN;
use crate::fixed::UNIT;
use crate::fixed::abs_spec;
use crate::fixed::clamp_i32;
use crate::fixed::clamp_spec;
use crate::fixed::div_floor;
use crate::fixed::floor_div;
use crate::fixed::max_spec;
use crate::fragment::Fragment;
use crate::vertex::Vertex;

verus! {

/// The pixel of a screen coordinate: the coordinate is limited to
/// `[COORD_MIN, COORD_MAX]` and its fraction is cut off towards
/// zero.
pub open spec fn pixel_of(c: int) -> int {
    let limited = clamp_spec(c, COORD_MIN as int, COORD_MAX as int);
    if limited >= 0 {
        limited / (UNIT as int)
    } else {
        -((-limited) / (UNIT as int))
    }
}

/// `steps` pixels from `from` in the direction of `to`; backwards when `to`
/// is not ahead.
pub open spec fn toward(from: int, to: int, steps: int) -> int {
    if from < to {
        from + steps
    } else {
        from - steps
    }
}

/// The number of steps of the line between two pixels: the larger of the two
/// axis distances.
pub open spec fn line_steps(x0: int, y0: int, x1: int, y1: int) -> int {
    max_spec(abs_spec(x1 - x0), abs_spec(y1 - y0))
}

/// How far the minor axis has moved after `k` steps along a major axis of
/// length `major`: the ideal line `k * minor / major`, rounded to the nearest
/// pixel with ties rounded down.
pub open spec fn minor_offset(k: int, minor: int, major: int) -> int {
    (k * minor + (major - 1) / 2) / major
}

/// The `k`-th pixel of the line from `(x0, y0)` to `(x1, y1)`.  Every step
/// moves one pixel along the longer axis.
pub open spec fn line_point(x0: int, y0: int, x1: int, y1: int, k: int) -> (int, int) {
    let dx = abs_spec(x1 - x0);
    let dy = abs_spec(y1 - y0);
    if dx > dy {
        (toward(x0, x1, k), toward(y0, y1, minor_offset(k, dy, dx)))
    } else if dy > 0 {
        (toward(x0, x1, minor_offset(k, dx, dy)), toward(y0, y1, k))
    } else {
        (x0, y0)
    }
}

/// The depth key at pixel column `px` of a line that runs from depth `z0` at
/// screen coordinate `start_x` to depth `z1` at `end_x`.  A span of at most
/// one ten-thousandth of a pixel counts as one whole pixel.
pub open spec fn line_depth(z0: int, z1: int, start_x: int, end_x: int, px: int) -> int {
    let span = end_x - start_x;
    let denom = if abs_spec(span) > 1 {
        span
    } else {
        UNIT as int
    };
    z0 + floor_div((z1 - z0) * (px * UNIT - start_x), denom)
}

/// The `k`-th fragment of the line between two transformed vertices.
pub open spec fn line_fragment(a: Vertex, b: Vertex, k: int) -> Fragment {
    let start = a.transformed_position;
    let end = b.transformed_position;
    let p = line_point(
        pixel_of(start.x as int),
        pixel_of(start.y as int),
        pixel_of(end.x as int),
        pixel_of(end.y as int),
        k,
    );
    Fragment {
        x: p.0 as i32,
        y: p.1 as i32,
        color: Color { r: 255, g: 255, b: 255 },
        depth: line_depth(
            start.z as int,
            end.z as int,
            clamp_spec(start.x as int, COORD_MIN as int, COORD_MAX as int),
            clamp_spec(end.x as int, COORD_MIN as int, COORD_MAX as int),
            p.0,
        ) as i64,
    }
}

/// The fragments of the line between two transformed vertices, one per step
/// and both end pixels included.
pub open spec fn line_fragments(a: Vertex, b: Vertex) -> Seq<Fragment> {
    let start = a.transformed_position;
    let end = b.transformed_position;
    let n = line_steps(
        pixel_of(start.x as int),
        pixel_of(start.y as int),
        pixel_of(end.x as int),
        pixel_of(end.y as int),
    );
    Seq::new((n + 1) as nat, |k: int| line_fragment(a, b, k))
}

/// The first pixel of a line is its start and the last is its end.
pub proof fn lemma_line_ends(x0: int, y0: int, x1: int, y1: int)
    ensures
        line_point(x0, y0, x1, y1, 0) == (x0, y0),
        line_point(x0, y0, x1, y1, line_steps(x0, y0, x1, y1)) == (x1, y1),
{
    let dx = abs_spec(x1 - x0);
    let dy = abs_spec(y1 - y0);
    if dx > dy {
        lemma_fundamental_div_mod_converse(0 * dy + (dx - 1) / 2, dx, 0, (dx - 1) / 2);
        lemma_minor_offset_end(dy, dx);
    } else if dy > 0 {
        lemma_fundamental_div_mod_converse(0 * dx + (dy - 1) / 2, dy, 0, (dy - 1) / 2);
        lemma_minor_offset_end(dx, dy);
    }
}

/// In one step along the major axis the minor axis moves by one pixel or not
/// at all.
proof fn lemma_minor_offset_step(k: int, minor: int, major: int)
    requires
        0 <= minor <= major,
        major > 0,
    ensures
        minor_offset(k, minor, major) <= minor_offset(k + 1, minor, major) <= minor_offset(
            k,
            minor,
            major,
        ) + 1,
{
    let a = k * minor + (major - 1) / 2;
    assert((k + 1) * minor + (major - 1) / 2 == a + minor) by (nonlinear_arith)
        requires
            a == k * minor + (major - 1) / 2,
    ;
    lemma_div_is_ordered(a, a + minor, major);
    lemma_div_is_ordered(a + minor, major + a, major);
    lemma_div_plus_one(a, major);
}

/// A line is connected: from each of its pixels to the next, both
/// coordinates change by at most one pixel, and the pixel is not the same.
pub proof fn lemma_line_is_connected(x0: int, y0: int, x1: int, y1: int, k: int)
    requires
        0 <= k < line_steps(x0, y0, x1, y1),
    ensures
        ({
            let p = line_point(x0, y0, x1, y1, k);
            let q = line_point(x0, y0, x1, y1, k + 1);
            &&& -1 <= q.0 - p.0 <= 1
            &&& -1 <= q.1 - p.1 <= 1
            &&& p != q
        }),
{
    let dx = abs_spec(x1 - x0);
    let dy = abs_spec(y1 - y0);
    if dx > dy {
        lemma_minor_offset_step(k, dy, dx);
    } else {
        lemma_minor_offset_step(k, dx, dy);
    }
}

/// After all the steps of the major axis the minor axis has arrived too.
proof fn lemma_minor_offset_end(minor: int, major: int)
    requires
        0 <= minor <= major,
        major > 0,
    ensures
        minor_offset(major, minor, major) == minor,
{
    assert(major * minor + (major - 1) / 2 == minor * major + (major - 1) / 2) by (nonlinear_arith);
    lemma_fundamental_div_mod_converse(
        major * minor + (major - 1) / 2,
        major,
        minor,
        (major - 1) / 2,
    );
}

/// The accumulated error pins the minor offset down: if `m` minor steps were
/// taken in `k` major steps and the remainder `r` is in range, `m` is the
/// rounded ideal offset.
proof fn lemma_minor_offset_is(k: int, minor: int, major: int, m: int, r: int)
    requires
        major > 0,
        0 <= r < major,
        k * minor + (major - 1) / 2 == m * major + r,
    ensures
        minor_offset(k, minor, major) == m,
{
    lemma_fundamental_div_mod_converse(k * minor + (major - 1) / 2, major, m, r);
}

/// The pixel of a screen coordinate.
fn to_pixel(c: i32) -> (p: i32)
    ensures
        p == pixel_of(c as int),
        -10_000 <= p <= 20_000,
{
    clamp_i32(c, COORD_MIN, COORD_MAX) / UNIT
}

/// The depth key at pixel column `px`.
fn depth_at(z0: i32, z1: i32, start_x: i32, end_x: i32, px: i32) -> (z: i64)
    requires
        COORD_MIN <= start_x <= COORD_MAX,
        COORD_MIN <= end_x <= COORD_MAX,
        -10_000 <= px <= 20_000,
    ensures
        z == line_depth(z0 as int, z1 as int, start_x as int, end_x as int, px as int),
{
    let span: i128 = end_x as i128 - start_x as i128;
    let rise: i128 = z1 as i128 - z0 as i128;
    let unit: i128 = UNIT as i128;
    let run: i128 = px as i128 * unit - start_x as i128;
    assert(-0x2000_0000_0000_0000 <= rise * run <= 0x2000_0000_0000_0000) by (nonlinear_arith)
        requires
            -0x1_0000_0000 <= rise <= 0x1_0000_0000,
            -0x2000_0000 <= run <= 0x2000_0000,
    ;
    let product: i128 = rise * run;
    let q: i128 = if span > 1 {
        div_floor(product, span)
    } else if span < -1 {
        div_floor(-product, -span)
    } else {
        div_floor(product, UNIT as i128)
    };
    proof {
        let d: int = if span > 1 {
            span as int
        } else if span < -1 {
            -span
        } else {
            UNIT as int
        };
        let n: int = if span < -1 {
            -product
        } else {
            product as int
        };
        assert(q == n / d);
        assert(-0x2000_0000_0000_0000 <= n / d <= 0x2000_0000_0000_0000) by (nonlinear_arith)
            requires
                -0x2000_0000_0000_0000 <= n <= 0x2000_0000_0000_0000,
                d >= 1,
        ;
    }
    (z0 as i128 + q) as i64
}

/// Steps the line between two transformed vertices and emits one fragment per
/// step, both end pixels included.  The fragments are white: the colour of a
/// line is for the caller to choose.
pub fn line(a: &Vertex, b: &Vertex) -> (fragments: Vec<Fragment>)
    ensures
        fragments@ == line_fragments(*a, *b),
{
    let mut fragments: Vec<Fragment> = Vec::new();
    let start = a.transformed_position;
    let end = b.transformed_position;
    let start_x: i32 = clamp_i32(start.x, COORD_MIN, COORD_MAX);
    let end_x: i32 = clamp_i32(end.x, COORD_MIN, COORD_MAX);
    let first_x: i32 = to_pixel(start.x);
    let first_y: i32 = to_pixel(start.y);
    let x1: i32 = to_pixel(end.x);
    let y1: i32 = to_pixel(end.y);
    let mut x0: i32 = first_x;
    let mut y0: i32 = first_y;
    let dx: i32 = if x1 >= x0 {
        x1 - x0
    } else {
        x0 - x1
    };
    let dy: i32 = if y1 >= y0 {
        y1 - y0
    } else {
        y0 - y1
    };
    let sx: i32 = if x0 < x1 {
        1
    } else {
        -1
    };
    let sy: i32 = if y0 < y1 {
        1
    } else {
        -1
    };
    let mut err: i32 = if dx > dy {
        dx / 2
    } else {
        -dy / 2
    };
    let ghost n: int = line_steps(first_x as int, first_y as int, x1 as int, y1 as int);
    let ghost mut k: int = 0;
    let ghost mut m: int = 0;
    proof {
        lemma_line_ends(first_x as int, first_y as int, x1 as int, y1 as int);
    }
    loop
        invariant_except_break
            fragments@.len() == k,
        invariant
            start == a.transformed_position,
            end == b.transformed_position,
            start_x == clamp_spec(start.x as int, COORD_MIN as int, COORD_MAX as int),
            end_x == clamp_spec(end.x as int, COORD_MIN as int, COORD_MAX as int),
            first_x == pixel_of(start.x as int),
            first_y == pixel_of(start.y as int),
            x1 == pixel_of(end.x as int),
            y1 == pixel_of(end.y as int),
            -10_000 <= first_x <= 20_000,
            -10_000 <= first_y <= 20_000,
            -10_000 <= x1 <= 20_000,
            -10_000 <= y1 <= 20_000,
            dx == abs_spec(x1 - first_x),
            dy == abs_spec(y1 - first_y),
            sx == (if first_x < x1 { 1i32 } else { -1i32 }),
            sy == (if first_y < y1 { 1i32 } else { -1i32 }),
            n == max_spec(dx as int, dy as int),
            0 <= k <= n,
            0 <= m,
            dx > dy ==> x0 == toward(first_x as int, x1 as int, k) && y0 == toward(
                first_y as int,
                y1 as int,
                m,
            ) && 0 <= err < dx && err == dx / 2 - k * dy + m * dx && m <= dy,
            dx <= dy ==> y0 == toward(first_y as int, y1 as int, k) && x0 == toward(
                first_x as int,
                x1 as int,
                m,
            ) && -dy <= err <= 0 && (dy > 0 ==> -dy < err) && err == -(dy / 2) + k * dx - m * dy
                && m <= dx,
            (x0 as int, y0 as int) == line_point(
                first_x as int,
                first_y as int,
                x1 as int,
                y1 as int,
                k,
            ),
            forall|i: int| 0 <= i < fragments@.len() ==> fragments@[i] == line_fragment(*a, *b, i),
        ensures
            fragments@.len() == n + 1,
        decreases n - k,
    {
        let z: i64 = depth_at(start.z, end.z, start_x, end_x, x0);
        fragments.push(Fragment::new(x0, y0, Color::new(255, 255, 255), z));
        if x0 == x1 && y0 == y1 {
            break ;
        }
        proof {
            // After the last step the line stands on its end, so this was
            // not the last step.
            if k == n {
                lemma_line_ends(first_x as int, first_y as int, x1 as int, y1 as int);
            }
        }
        let e2: i32 = err;
        let ghost mut m_next: int = m;
        if e2 > -dx {
            err = err - dy;
            x0 = x0 + sx;
            proof {
                if dx <= dy {
                    m_next = m + 1;
                }
            }
        }
        if e2 < dy {
            err = err + dx;
            y0 = y0 + sy;
            proof {
                if dx > dy {
                    m_next = m + 1;
                }
            }
        }
        proof {
            let k1: int = k + 1;
            if dx > dy {
                assert(k1 * dy == k * dy + dy) by (nonlinear_arith)
                    requires
                        k1 == k + 1,
                ;
                assert(m_next * dx == m * dx + (m_next - m) * dx) by (nonlinear_arith);
                assert((m_next - m) * dx == (if m_next == m { 0 } else { dx as int })) by (nonlinear_arith)
                    requires
                        m_next == m || m_next == m + 1,
                ;
                lemma_minor_offset_is(k1, dy as int, dx as int, m_next, dx - 1 - err);
                // More minor steps than the minor axis is long would leave
                // more error than `k1 <= dx` major steps can account for.
                assert_by_contradiction!(m_next <= dy, {
                    assert(k1 * dy <= dx * dy) by (nonlinear_arith)
                        requires
                            k1 <= dx,
                            dy >= 0,
                    ;
                    assert(m_next * dx >= (dy + 1) * dx) by (nonlinear_arith)
                        requires
                            m_next >= dy + 1,
                            dx >= 0,
                    ;
                    assert((dy + 1) * dx == dx * dy + dx) by (nonlinear_arith);
                });
            } else {
                assert(k1 * dx == k * dx + dx) by (nonlinear_arith)
                    requires
                        k1 == k + 1,
                ;
                assert(m_next * dy == m * dy + (m_next - m) * dy) by (nonlinear_arith);
                assert((m_next - m) * dy == (if m_next == m { 0 } else { dy as int })) by (nonlinear_arith)
                    requires
                        m_next == m || m_next == m + 1,
                ;
                lemma_minor_offset_is(k1, dx as int, dy as int, m_next, dy - 1 + err);
                assert_by_contradiction!(m_next <= dx, {
                    assert(k1 * dx <= dy * dx) by (nonlinear_arith)
                        requires
                            k1 <= dy,
                            dx >= 0,
                    ;
                    assert(m_next * dy >= (dx + 1) * dy) by (nonlinear_arith)
                        requires
                            m_next >= dx + 1,
                            dy >= 0,
                    ;
                    assert((dx + 1) * dy == dy * dx + dy) by (nonlinear_arith);
                });
            }
            k = k1;
            m = m_next;
        }
    }
    fragments
}

} // verus!
