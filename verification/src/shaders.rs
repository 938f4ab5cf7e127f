//! The vertex stage: from clip space to the screen.
//!
//! The products of a vertex with the model, view and projection matrices are
//! the caller's; this stage takes the clip-space position, the world position
//! and the normal already multiplied by the normal matrix, and does the
//! perspective divide, the mapping to screen coordinates and the
//! renormalisation of the normal.
use vstd::prelude::*;
use crate::fixed::UNIT;
use crate::fixed::abs_spec;
use crate::fixed::clamp_i64;
use crate::fixed::clamp_spec;
use crate::fixed::div_floor;
use crate::fixed::floor_div;
use crate::vector::Vec3;
use crate::vector::normalize;
use crate::vector::normalized;
use crate::vertex::Vertex;

verus! {

/// One whole unit of the depth key: depth keys are counted in hundred
/// millionths, so that the far range of a perspective projection keeps its
/// order.
pub const DEPTH_UNIT: i32 = 100_000_000;

/// What the vertex stage needs to know of the target: its size in pixels.
#[derive(Clone, Copy, Debug, PartialEq, Eq, Structural)]
pub struct Uniforms {
    pub screen_width: u16,
    pub screen_height: u16,
}

/// A vertex after the matrix products.
#[derive(Clone, Copy, Debug, PartialEq, Eq, Structural)]
pub struct ClipVertex {
    /// Clip-space position `projection * view * model * position`.
    pub x: i32,
    pub y: i32,
    pub z: i32,
    pub w: i32,
    /// World-space position `model * position`.
    pub world_position: Vec3,
    /// The normal multiplied by the inverse transpose of the model matrix.
    pub normal: Vec3,
}

/// The divisor of the perspective divide: `w`, or 1 where `w` is within one
/// ten-thousandth of zero.
pub open spec fn divisor(w: int) -> int {
    if abs_spec(w) > 1 {
        w
    } else {
        UNIT as int
    }
}

/// A normalized device coordinate `c / w`, limited to `[-10, 10]`.
pub open spec fn ndc(c: int, w: int) -> int {
    clamp_spec(floor_div(c * UNIT, divisor(w)), -10 * UNIT, 10 * UNIT)
}

/// The depth key `z / w`, limited to `[-10, 10]` and counted in
/// `DEPTH_UNIT`s.
pub open spec fn depth_key(z: int, w: int) -> int {
    clamp_spec(floor_div(z * DEPTH_UNIT, divisor(w)), -10 * DEPTH_UNIT, 10 * DEPTH_UNIT)
}

/// The screen x of a normalized device x: `(x + 1) / 2 * width`, with `x`
/// limited to `[-1, 1]`.
pub open spec fn screen_x(ndc_x: int, width: int) -> int {
    (clamp_spec(ndc_x, -(UNIT as int), UNIT as int) + UNIT) * width / 2
}

/// The screen y of a normalized device y: `(1 - y) / 2 * height`, with `y`
/// limited to `[-1, 1]`; y grows downwards on the screen.
pub open spec fn screen_y(ndc_y: int, height: int) -> int {
    (UNIT - clamp_spec(ndc_y, -(UNIT as int), UNIT as int)) * height / 2
}

/// The vertex that the vertex stage makes of `vertex` and its matrix
/// products.
pub open spec fn shaded_vertex(vertex: Vertex, clip: ClipVertex, uniforms: Uniforms) -> Vertex {
    Vertex {
        transformed_position: Vec3 {
            x: screen_x(ndc(clip.x as int, clip.w as int), uniforms.screen_width as int) as i32,
            y: screen_y(ndc(clip.y as int, clip.w as int), uniforms.screen_height as int) as i32,
            z: depth_key(clip.z as int, clip.w as int) as i32,
        },
        transformed_normal: normalized(clip.normal),
        world_position: clip.world_position,
        ..vertex
    }
}

/// `c * scale / w`, rounded down and limited to ten times the scale either
/// way.
fn divide(c: i32, w: i32, scale: i32) -> (r: i64)
    requires
        0 < scale <= DEPTH_UNIT,
    ensures
        r == clamp_spec(floor_div(c * scale, divisor(w as int)), -10 * scale, 10 * scale),
        -10 * scale <= r <= 10 * scale,
{
    proof {
        crate::fixed::lemma_product_bound(c as int, scale as int);
    }
    let num: i128 = c as i128 * scale as i128;
    let q: i128 = if w > 1 {
        div_floor(num, w as i128)
    } else if w < -1 {
        div_floor(-num, -(w as i128))
    } else {
        div_floor(num, UNIT as i128)
    };
    let lo: i128 = -10 * scale as i128;
    let hi: i128 = 10 * scale as i128;
    if q < lo {
        lo as i64
    } else if q > hi {
        hi as i64
    } else {
        q as i64
    }
}

/// Takes a vertex from clip space to the screen.  Never fails: a `w` near
/// zero divides as 1, and coordinates off the range are limited to it.
pub fn vertex_shader(vertex: &Vertex, clip: &ClipVertex, uniforms: &Uniforms) -> (out: Vertex)
    ensures
        out == shaded_vertex(*vertex, *clip, *uniforms),
        0 <= out.transformed_position.x <= uniforms.screen_width * UNIT,
        0 <= out.transformed_position.y <= uniforms.screen_height * UNIT,
{
    let unit: i64 = UNIT as i64;
    let ndc_x: i64 = clamp_i64(divide(clip.x, clip.w, UNIT), -unit, unit);
    let ndc_y: i64 = clamp_i64(divide(clip.y, clip.w, UNIT), -unit, unit);
    let depth: i64 = divide(clip.z, clip.w, DEPTH_UNIT);
    let width: i64 = uniforms.screen_width as i64;
    let height: i64 = uniforms.screen_height as i64;
    assert(0 <= (ndc_x + unit) * width <= 20_000 * width && 0 <= (unit - ndc_y) * height <= 20_000
        * height) by (nonlinear_arith)
        requires
            -10_000 <= ndc_x <= 10_000,
            -10_000 <= ndc_y <= 10_000,
            unit == 10_000,
            0 <= width,
            0 <= height,
    ;
    Vertex {
        position: vertex.position,
        normal: vertex.normal,
        tex_coords: vertex.tex_coords,
        color: vertex.color,
        transformed_position: Vec3 {
            x: ((ndc_x + unit) * width / 2) as i32,
            y: ((unit - ndc_y) * height / 2) as i32,
            z: depth as i32,
        },
        transformed_normal: normalize(clip.normal),
        world_position: clip.world_position,
    }
}

} // verus!
