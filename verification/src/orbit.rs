//! Orbit guides: the circle of an orbit as a closed line strip, and its flat
//! colour.
use vstd::prelude::*;
use vstd::arithmetic::div_mod::lemma_div_is_ordered;
use vstd::arithmetic::div_mod::lemma_div_multiples_vanish;
use crate::color::Color;
use crate::fixed::PI;
use crate::fixed::UNIT;
use crate::fixed::clamp_i32;
use crate::fixed::mul_fixed;
use crate::fixed::saturate;
use crate::solar_system::orbit_point;
use crate::vector::Vec2;
use crate::vector::Vec3;
use crate::vertex::Vertex;

verus! {

/// The angle of point `i` of a circle cut into `segments` parts.
pub open spec fn path_angle(i: int, segments: int) -> int {
    i * (2 * PI) / segments
}

/// The vertex of an orbit guide of the given radius at the angle whose sine
/// and cosine are `trig`: in the plane `y = 0`, facing up.
pub open spec fn path_vertex(radius: int, trig: (i32, i32)) -> Vertex {
    Vertex::of(orbit_point(radius, trig), Vec3 { x: 0, y: UNIT, z: 0 }, Vec2 { x: 0, y: 0 })
}

/// `v` is point `i` of the orbit guide, for a sine and cosine that `sin_cos`
/// gives for its angle.
pub open spec fn is_path_vertex<T: Fn(i32) -> (i32, i32)>(
    sin_cos: T,
    radius: int,
    segments: int,
    i: int,
    v: Vertex,
) -> bool {
    exists|trig: (i32, i32)|
        #[trigger] call_ensures(sin_cos, (path_angle(i, segments) as i32,), trig) && v
            == path_vertex(radius, trig)
}

/// The circle of an orbit as `segments + 1` vertices; the last closes the
/// circle.  `sin_cos` maps an angle to its sine and cosine.
pub fn generate_orbit_path<T: Fn(i32) -> (i32, i32)>(radius: i32, segments: u32, sin_cos: &T) -> (vertices:
    Vec<Vertex>)
    requires
        segments > 0,
        forall|a: i32| call_requires(*sin_cos, (a,)),
    ensures
        vertices@.len() == segments + 1,
        forall|i: int|
            0 <= i <= segments ==> is_path_vertex(
                *sin_cos,
                radius as int,
                segments as int,
                i,
                #[trigger] vertices@[i],
            ),
{
    let mut vertices: Vec<Vertex> = Vec::new();
    let mut i: u64 = 0;
    while i <= segments as u64
        invariant
            segments > 0,
            i <= segments + 1,
            vertices@.len() == i,
            forall|a: i32| call_requires(*sin_cos, (a,)),
            forall|k: int|
                0 <= k < i ==> is_path_vertex(
                    *sin_cos,
                    radius as int,
                    segments as int,
                    k,
                    #[trigger] vertices@[k],
                ),
        decreases segments + 1 - i,
    {
        let full: u64 = 2 * PI as u64;
        proof {
            // The angle is no more than a full turn.
            lemma_div_is_ordered(i * 62_832, segments * 62_832, segments as int);
            lemma_div_multiples_vanish(62_832, segments as int);
        }
        let angle: i32 = (i * full / segments as u64) as i32;
        let trig: (i32, i32) = sin_cos(angle);
        let sin: i32 = clamp_i32(trig.0, -UNIT, UNIT);
        let cos: i32 = clamp_i32(trig.1, -UNIT, UNIT);
        let position: Vec3 = Vec3 {
            x: saturate(mul_fixed(radius, cos) as i128),
            y: 0,
            z: saturate(mul_fixed(radius, sin) as i128),
        };
        let v: Vertex = Vertex::new(position, Vec3 { x: 0, y: UNIT, z: 0 }, Vec2 { x: 0, y: 0 });
        assert(angle == path_angle(i as int, segments as int));
        vertices.push(v);
        i = i + 1;
    }
    vertices
}

/// The colour of an orbit guide.
pub open spec fn orbit_color() -> Color {
    Color { r: 76, g: 153, b: 229 }
}

/// The orbit guides: one flat colour, whatever the sample.
pub fn orbit_shader(
    _v1: &Vertex,
    _v2: &Vertex,
    _v3: &Vertex,
    _model_position: Vec3,
    _world_position: Vec3,
    _normal: Vec3,
    _tex_coords: Vec2,
) -> (c: Color)
    ensures
        c == orbit_color(),
{
    Color::from_unit(3_000, 6_000, 9_000)
}

} // verus!
