//! The surface shaders of the bodies.
//!
//! Every shader takes the three vertices of the triangle and the
//! interpolated model position, world position, normal and texture
//! coordinates of the sample, and returns its colour.  A shader that layers
//! noise takes the hash function that the noise is made of (see
//! [`crate::noise`]); its colour is stated as a function of noise values that
//! the hash allows.
//!
//! Lit bodies are lit by a point light at the world origin: the diffuse term
//! is the cosine between the normal and the direction to the light, and the
//! light falls off with the inverse of the distance, between a floor and 1.
use vstd::prelude::*;
use vstd::arithmetic::div_mod::lemma_div_is_ordered;
use vstd::arithmetic::div_mod::lemma_div_multiples_vanish;
use crate::color::Color;
use crate::color::channel_of_unit;
use crate::fixed::HALF_PI;
use crate::fixed::PI;
use crate::fixed::UNIT;
use crate::fixed::abs_spec;
use crate::fixed::clamp_i64;
use crate::fixed::clamp_spec;
use crate::fixed::div_floor;
use crate::fixed::is_isqrt;
use crate::fixed::isqrt_spec;
use crate::fixed::isqrt;
use crate::fixed::lerp;
use crate::fixed::limited;
use crate::fixed::clamp_i32;
use crate::fixed::max_spec;
use crate::fixed::min_spec;
use crate::fixed::mul_unit;
use crate::noise::Point;
use crate::orbit::orbit_color;
use crate::orbit::orbit_shader;
use crate::skybox::SkyboxSlot;
use crate::skybox::is_procedural_sky;
use crate::skybox::is_textured_sky;
use crate::skybox::skybox_shader_procedural;
use crate::skybox::skybox_shader_textured;
use crate::noise::fbm;
use crate::noise::is_fbm;
use crate::vector::Vec2;
use crate::vector::Vec3;
use crate::vector::lemma_normalized_bounds;
use crate::vector::normalize;
use crate::vector::normalized;
use crate::vertex::Vertex;

verus! {

/// The shaders that a mesh can be drawn with.
#[derive(Clone, Copy, Debug, PartialEq, Eq, Structural)]
pub enum FragmentShader {
    Star,
    RockyPlanet,
    GasGiant,
    Moon,
    Ship,
    Ring,
    Orbit,
    SkyboxProcedural,
    SkyboxTextured,
}

/// A model position at `k` times its scale, as a point of noise space.
pub open spec fn scaled(p: Vec3, k: int) -> Point {
    Point { x: (p.x * k) as i64, y: (p.y * k) as i64, z: (p.z * k) as i64 }
}

/// The normal that a surface is lit with: the given one at length `UNIT`, or
/// `fallback` where the given one is zero.
pub open spec fn shading_normal(normal: Vec3, fallback: Vec3) -> Vec3 {
    if normal.length_squared() > 0 {
        normalized(normal)
    } else {
        fallback
    }
}

/// The distance from a point to the light at the origin, but no less than 1.
pub open spec fn light_distance(world: Vec3) -> int {
    max_spec(isqrt_spec(world.length_squared()), UNIT as int)
}

/// The direction from a point to the light at the origin.
pub open spec fn light_direction(world: Vec3) -> Vec3 {
    let d = light_distance(world);
    Vec3 {
        x: (-world.x * UNIT / d) as i32,
        y: (-world.y * UNIT / d) as i32,
        z: (-world.z * UNIT / d) as i32,
    }
}

/// The fixed-point dot product of two vectors.
pub open spec fn dot_unit(a: Vec3, b: Vec3) -> int {
    (a.x * b.x + a.y * b.y + a.z * b.z) / (UNIT as int)
}

/// The cosine between two directions, limited to `[0, 1]`.
pub open spec fn facing(a: Vec3, b: Vec3) -> int {
    clamp_spec(dot_unit(a, b), 0, UNIT as int)
}

/// The diffuse term of a point lit from the origin.
pub open spec fn diffuse_of(world: Vec3, normal: Vec3) -> int {
    facing(shading_normal(normal, Vec3 { x: 0, y: UNIT, z: 0 }), light_direction(world))
}

/// How much of the light reaches a point: `strength` over the distance,
/// between `floor` and 1.  `strength` is counted in whole units.
pub open spec fn attenuation(world: Vec3, strength: int, floor: int) -> int {
    clamp_spec(strength * UNIT * UNIT / light_distance(world), floor, UNIT as int)
}

/// The colour of three fixed-point intensities.
pub open spec fn color_of(r: int, g: int, b: int) -> Color {
    Color {
        r: channel_of_unit(r) as u8,
        g: channel_of_unit(g) as u8,
        b: channel_of_unit(b) as u8,
    }
}

/// The brightness of the moon's surface at a point: nine tenths diffuse and
/// one tenth ambient, attenuated.
pub open spec fn moon_shading(world: Vec3, normal: Vec3) -> int {
    mul_unit(mul_unit(diffuse_of(world, normal), 9_000) + 1_000, attenuation(world, 1_000, 3_500))
}

/// How much a crater darkens the moon for a noise value: nothing unless the
/// noise is more than 0.35 away from one half.
pub open spec fn crater_of(craters: int) -> int {
    let depth = abs_spec(craters - UNIT / 2) * 2;
    if depth > 7_000 {
        mul_unit(depth, 3_000)
    } else {
        0
    }
}

/// The grey of the moon for a crater noise value and a brightness.
pub open spec fn moon_grey(craters: int, shading: int) -> int {
    let grey = clamp_spec(UNIT / 2 - crater_of(craters), 2_000, 8_000);
    clamp_spec(mul_unit(grey, shading), 1_000, UNIT as int)
}

/// The colour of the moon.
pub open spec fn moon_color(world: Vec3, normal: Vec3, craters: int) -> Color {
    let grey = moon_grey(craters, moon_shading(world, normal));
    color_of(grey, grey, grey)
}

/// `c` is a colour of the moon shader: the moon's colour for a sum of four
/// octaves of noise at eight times the model position.
pub open spec fn is_moon_shade<G: Fn(i64) -> i32>(
    hash: G,
    model_position: Vec3,
    world: Vec3,
    normal: Vec3,
    c: Color,
) -> bool {
    exists|craters: int|
        #[trigger] is_fbm(hash, scaled(model_position, 8), 4, craters) && c == moon_color(
            world,
            normal,
            craters,
        )
}

/// Where the crater noise is within 0.35 of one half everywhere, the moon is
/// a flat grey of one half, scaled by the lighting alone and limited to
/// `[0.1, 1]`: no crater darkens it.
pub proof fn lemma_moon_without_craters(world: Vec3, normal: Vec3, craters: int)
    requires
        abs_spec(craters - UNIT / 2) * 2 <= 7_000,
    ensures
        crater_of(craters) == 0,
        moon_color(world, normal, craters) == ({
            let grey = clamp_spec(
                mul_unit(UNIT / 2, moon_shading(world, normal)),
                1_000,
                UNIT as int,
            );
            color_of(grey, grey, grey)
        }),
{
}

/// A coordinate scaled by `UNIT` over a distance that is no shorter than the
/// vector stays within `[-UNIT, UNIT]`.
proof fn lemma_component_over_distance(c: int, rest: int, len: int, d: int)
    requires
        0 <= rest,
        is_isqrt(c * c + rest, len),
        d >= len,
        d > 0,
    ensures
        -(UNIT as int) <= c * UNIT / d <= UNIT,
{
    assert(-len <= c <= len) by (nonlinear_arith)
        requires
            c * c + rest < (len + 1) * (len + 1),
            0 <= rest,
            0 <= len,
    ;
    assert(-(UNIT as int) * d <= c * UNIT <= UNIT * d) by (nonlinear_arith)
        requires
            -d <= c <= d,
    ;
    lemma_div_is_ordered(-(UNIT as int) * d, c * UNIT, d);
    lemma_div_is_ordered(c * UNIT, UNIT * d, d);
    lemma_div_multiples_vanish(-(UNIT as int), d);
    lemma_div_multiples_vanish(UNIT as int, d);
}

/// The product of a value and a fraction in `[0, 1]`, rounded down.
fn scale(a: i64, f: i64) -> (r: i64)
    requires
        0 <= f <= UNIT,
        -0x100_0000_0000 <= a <= 0x100_0000_0000,
    ensures
        r == mul_unit(a as int, f as int),
        a >= 0 ==> 0 <= r <= a,
        a <= 0 ==> a <= r <= 0,
{
    if a >= 0 {
        assert(0 <= a * f <= a * 10_000) by (nonlinear_arith)
            requires
                0 <= f <= 10_000,
                a >= 0,
        ;
    } else {
        assert(a * 10_000 <= a * f <= 0) by (nonlinear_arith)
            requires
                0 <= f <= 10_000,
                a < 0,
        ;
    }
    div_floor((a * f) as i128, UNIT as i128) as i64
}

/// The normal that a surface is lit with.
fn surface_normal(normal: Vec3, fallback: Vec3) -> (n: Vec3)
    requires
        -UNIT <= fallback.x <= UNIT,
        -UNIT <= fallback.y <= UNIT,
        -UNIT <= fallback.z <= UNIT,
    ensures
        n == shading_normal(normal, fallback),
        -UNIT <= n.x <= UNIT,
        -UNIT <= n.y <= UNIT,
        -UNIT <= n.z <= UNIT,
{
    if normal.magnitude_squared() > 0 {
        proof {
            lemma_normalized_bounds(normal);
        }
        normalize(normal)
    } else {
        fallback
    }
}

/// The cosine between two directions of length at most `UNIT`, limited to
/// `[0, 1]`.
fn facing_term(a: Vec3, b: Vec3) -> (r: i64)
    requires
        -UNIT <= a.x <= UNIT,
        -UNIT <= a.y <= UNIT,
        -UNIT <= a.z <= UNIT,
        -UNIT <= b.x <= UNIT,
        -UNIT <= b.y <= UNIT,
        -UNIT <= b.z <= UNIT,
    ensures
        r == facing(a, b),
        0 <= r <= UNIT,
{
    assert(-100_000_000 <= a.x * b.x <= 100_000_000 && -100_000_000 <= a.y * b.y <= 100_000_000
        && -100_000_000 <= a.z * b.z <= 100_000_000) by (nonlinear_arith)
        requires
            -10_000 <= a.x <= 10_000,
            -10_000 <= a.y <= 10_000,
            -10_000 <= a.z <= 10_000,
            -10_000 <= b.x <= 10_000,
            -10_000 <= b.y <= 10_000,
            -10_000 <= b.z <= 10_000,
    ;
    let sum: i64 = a.x as i64 * b.x as i64 + a.y as i64 * b.y as i64 + a.z as i64 * b.z as i64;
    clamp_i64(div_floor(sum as i128, UNIT as i128) as i64, 0, UNIT as i64)
}

/// The distance and the direction from a point to the light at the origin.
fn toward_light(world: Vec3) -> (r: (i64, Vec3))
    ensures
        r.0 == light_distance(world),
        r.1 == light_direction(world),
        UNIT <= r.0 <= 0x2_0000_0000,
        -UNIT <= r.1.x <= UNIT,
        -UNIT <= r.1.y <= UNIT,
        -UNIT <= r.1.z <= UNIT,
{
    let len2: u64 = world.magnitude_squared();
    let len: u32 = world.magnitude();
    let distance: i64 = if (len as i64) < UNIT as i64 {
        UNIT as i64
    } else {
        len as i64
    };
    proof {
        assert((-world.x) * (-world.x) == world.x * world.x) by (nonlinear_arith);
        assert((-world.y) * (-world.y) == world.y * world.y) by (nonlinear_arith);
        assert((-world.z) * (-world.z) == world.z * world.z) by (nonlinear_arith);
        lemma_component_over_distance(
            -world.x,
            world.y * world.y + world.z * world.z,
            len as int,
            distance as int,
        );
        lemma_component_over_distance(
            -world.y,
            world.x * world.x + world.z * world.z,
            len as int,
            distance as int,
        );
        lemma_component_over_distance(
            -world.z,
            world.x * world.x + world.y * world.y,
            len as int,
            distance as int,
        );
    }
    let unit: i128 = UNIT as i128;
    let dir: Vec3 = Vec3 {
        x: div_floor(-(world.x as i128) * unit, distance as i128) as i32,
        y: div_floor(-(world.y as i128) * unit, distance as i128) as i32,
        z: div_floor(-(world.z as i128) * unit, distance as i128) as i32,
    };
    (distance, dir)
}

/// The diffuse term of a point lit from the origin and its distance from the
/// light.
fn lighting(world: Vec3, normal: Vec3) -> (r: (i64, i64))
    ensures
        r.0 == diffuse_of(world, normal),
        r.1 == light_distance(world),
        0 <= r.0 <= UNIT,
        UNIT <= r.1 <= 0x2_0000_0000,
{
    let n: Vec3 = surface_normal(normal, Vec3 { x: 0, y: UNIT, z: 0 });
    let (distance, dir) = toward_light(world);
    (facing_term(n, dir), distance)
}

/// How much of the light reaches a point at a distance.
fn attenuate(distance: i64, strength: i64, floor: i64) -> (r: i64)
    requires
        UNIT <= distance,
        0 <= strength <= 10_000,
        0 <= floor <= UNIT,
    ensures
        r == clamp_spec(strength * UNIT * UNIT / (distance as int), floor as int, UNIT as int),
        floor <= r <= UNIT,
{
    let unit: i64 = UNIT as i64;
    let scaled: i64 = strength * unit * unit;
    assert(strength * UNIT * UNIT == scaled) by (nonlinear_arith)
        requires
            scaled == strength * unit * unit,
            unit == UNIT,
    ;
    clamp_i64(scaled / distance, floor, unit)
}

/// A model position at `k` times its scale.
fn scaled_point(p: Vec3, k: i64) -> (q: Point)
    requires
        1 <= k <= 16,
    ensures
        q == scaled(p, k as int),
{
    assert(-0x8_0000_0000 <= p.x * k <= 0x8_0000_0000 && -0x8_0000_0000 <= p.y * k <= 0x8_0000_0000
        && -0x8_0000_0000 <= p.z * k <= 0x8_0000_0000) by (nonlinear_arith)
        requires
            1 <= k <= 16,
            -0x8000_0000 <= p.x <= 0x8000_0000,
            -0x8000_0000 <= p.y <= 0x8000_0000,
            -0x8000_0000 <= p.z <= 0x8000_0000,
    ;
    Point { x: p.x as i64 * k, y: p.y as i64 * k, z: p.z as i64 * k }
}

/// The moon: a flat grey, darkened where crater noise is far from one half,
/// lit from the origin.
pub fn moon_shader<G: Fn(i64) -> i32>(
    _v1: &Vertex,
    _v2: &Vertex,
    _v3: &Vertex,
    model_position: Vec3,
    world_position: Vec3,
    normal: Vec3,
    _tex_coords: Vec2,
    hash: &G,
) -> (c: Color)
    requires
        forall|n: i64| call_requires(*hash, (n,)),
    ensures
        is_moon_shade(*hash, model_position, world_position, normal, c),
{
    let (diffuse, distance) = lighting(world_position, normal);
    let att: i64 = attenuate(distance, 1_000, 3_500);
    let shading: i64 = scale(diffuse * 9_000 / UNIT as i64 + 1_000, att);
    let craters: i64 = fbm(scaled_point(model_position, 8), 4, hash) as i64;
    let away: i64 = if craters >= UNIT as i64 / 2 {
        craters - UNIT as i64 / 2
    } else {
        UNIT as i64 / 2 - craters
    };
    let depth: i64 = away * 2;
    let crater: i64 = if depth > 7_000 {
        depth * 3_000 / UNIT as i64
    } else {
        0
    };
    let grey: i64 = clamp_i64(UNIT as i64 / 2 - crater, 2_000, 8_000);
    let lit: i64 = clamp_i64(scale(grey, shading), 1_000, UNIT as i64);
    Color::from_unit(lit as i32, lit as i32, lit as i32)
}

/// A whole number of ten-thousandths as a fixed-point value, rounded down.
fn per_unit(n: i64) -> (r: i64)
    ensures
        r == (n as int) / (UNIT as int),
{
    div_floor(n as i128, UNIT as i128) as i64
}

/// The colour of a ship's hull: a cool base that turns towards a highlight
/// with the diffuse term, lit from the origin.
pub open spec fn ship_color(world: Vec3, normal: Vec3) -> Color {
    let diffuse = diffuse_of(world, normal);
    let brightness = mul_unit(diffuse * 8_000 / (UNIT as int) + 2_000, attenuation(world, 800, 3_000));
    let gloss = diffuse * 3_000 / (UNIT as int);
    color_of(
        clamp_spec(mul_unit(lerp(4_000, 6_000, gloss), brightness), 0, UNIT as int),
        clamp_spec(mul_unit(lerp(5_000, 7_000, gloss), brightness), 0, UNIT as int),
        clamp_spec(mul_unit(lerp(7_000, 9_000, gloss), brightness), 0, UNIT as int),
    )
}

/// The metallic hull of the ship.
pub fn ship_shader_metallic(
    _v1: &Vertex,
    _v2: &Vertex,
    _v3: &Vertex,
    _model_position: Vec3,
    world_position: Vec3,
    normal: Vec3,
    _tex_coords: Vec2,
) -> (c: Color)
    ensures
        c == ship_color(world_position, normal),
{
    let unit: i64 = UNIT as i64;
    let (diffuse, distance) = lighting(world_position, normal);
    let brightness: i64 = scale(diffuse * 8_000 / unit + 2_000, attenuate(distance, 800, 3_000));
    let gloss: i64 = diffuse * 3_000 / unit;
    let r: i64 = (4_000 * (unit - gloss) + 6_000 * gloss) / unit;
    let g: i64 = (5_000 * (unit - gloss) + 7_000 * gloss) / unit;
    let b: i64 = (7_000 * (unit - gloss) + 9_000 * gloss) / unit;
    Color::from_unit(
        clamp_i64(scale(r, brightness), 0, unit) as i32,
        clamp_i64(scale(g, brightness), 0, unit) as i32,
        clamp_i64(scale(b, brightness), 0, unit) as i32,
    )
}

/// The colour of a ring: a gradient from the inner to the outer edge along
/// the texture coordinate `radial`, speckled by `speckle`, lit from the
/// origin.
pub open spec fn ring_color(world: Vec3, normal: Vec3, radial: int, speckle: int) -> Color {
    let light = mul_unit(
        diffuse_of(world, normal) * 6_000 / (UNIT as int) + 4_000,
        attenuation(world, 1_400, 3_500),
    );
    let variation = speckle * 1_000 / (UNIT as int);
    color_of(
        clamp_spec(
            mul_unit(clamp_spec(lerp(4_000, 5_000, radial) + variation, 0, UNIT as int), light),
            0,
            UNIT as int,
        ),
        clamp_spec(
            mul_unit(clamp_spec(lerp(3_500, 4_500, radial) + variation, 0, UNIT as int), light),
            0,
            UNIT as int,
        ),
        clamp_spec(
            mul_unit(clamp_spec(lerp(3_000, 4_000, radial) + variation, 0, UNIT as int), light),
            0,
            UNIT as int,
        ),
    )
}

/// `c` is a colour of the ring shader: the ring's colour for a sum of two
/// octaves of noise at ten times the model position.
pub open spec fn is_ring_shade<G: Fn(i64) -> i32>(
    hash: G,
    model_position: Vec3,
    world: Vec3,
    normal: Vec3,
    tex_coords: Vec2,
    c: Color,
) -> bool {
    exists|speckle: int|
        #[trigger] is_fbm(hash, scaled(model_position, 10), 2, speckle) && c == ring_color(
            world,
            normal,
            tex_coords.y as int,
            speckle,
        )
}

/// The rings of a planet.
pub fn ring_shader<G: Fn(i64) -> i32>(
    _v1: &Vertex,
    _v2: &Vertex,
    _v3: &Vertex,
    model_position: Vec3,
    world_position: Vec3,
    normal: Vec3,
    tex_coords: Vec2,
    hash: &G,
) -> (c: Color)
    requires
        forall|n: i64| call_requires(*hash, (n,)),
    ensures
        is_ring_shade(*hash, model_position, world_position, normal, tex_coords, c),
{
    let unit: i64 = UNIT as i64;
    let (diffuse, distance) = lighting(world_position, normal);
    let light: i64 = scale(diffuse * 6_000 / unit + 4_000, attenuate(distance, 1_400, 3_500));
    let radial: i64 = tex_coords.y as i64;
    let speckle: i64 = fbm(scaled_point(model_position, 10), 2, hash) as i64;
    let variation: i64 = speckle * 1_000 / unit;
    let r: i64 = clamp_i64(per_unit(4_000 * (unit - radial) + 5_000 * radial) + variation, 0, unit);
    let g: i64 = clamp_i64(per_unit(3_500 * (unit - radial) + 4_500 * radial) + variation, 0, unit);
    let b: i64 = clamp_i64(per_unit(3_000 * (unit - radial) + 4_000 * radial) + variation, 0, unit);
    Color::from_unit(
        clamp_i64(scale(r, light), 0, unit) as i32,
        clamp_i64(scale(g, light), 0, unit) as i32,
        clamp_i64(scale(b, light), 0, unit) as i32,
    )
}

/// The direction of the fixed light that the star is shaded with.
pub open spec fn star_light() -> Vec3 {
    normalized(Vec3 { x: -2_000i32, y: 6_000, z: -10_000i32 })
}

/// The colour of a star: a warm base with noise on it, a glow around the
/// local z axis and a flare towards the light; it is not lit from outside.
pub open spec fn star_surface(model_position: Vec3, normal: Vec3, noise: int) -> Color {
    let intensity = facing(shading_normal(normal, Vec3 { x: 0, y: 0, z: UNIT }), star_light());
    let variation = noise * 1_000 / (UNIT as int);
    let off_axis = min_spec(
        isqrt_spec(model_position.x * model_position.x + model_position.y * model_position.y),
        UNIT as int,
    );
    let glow = mul_unit(UNIT - off_axis, UNIT - off_axis) * 3_000 / (UNIT as int);
    let flare = mul_unit(mul_unit(intensity, intensity), intensity) * 3_000 / (UNIT as int);
    let light = intensity * 6_000 / (UNIT as int) + 4_000;
    let r = clamp_spec(UNIT + variation + glow + flare, 0, UNIT as int);
    let g = clamp_spec(
        7_000 + variation * 5_000 / (UNIT as int) + glow * 8_000 / (UNIT as int) + flare * 9_000 / (
        UNIT as int),
        0,
        UNIT as int,
    );
    let b = clamp_spec(
        3_000 + variation * 3_000 / (UNIT as int) + glow * 5_000 / (UNIT as int),
        0,
        UNIT as int,
    );
    color_of(mul_unit(r, light), mul_unit(g, light), mul_unit(b, light))
}

/// `c` is a colour of the star shader: the star's colour for a sum of three
/// octaves of noise at five times the model position.
pub open spec fn is_star_shade<G: Fn(i64) -> i32>(hash: G, model_position: Vec3, normal: Vec3, c: Color) -> bool {
    exists|noise: int|
        #[trigger] is_fbm(hash, scaled(model_position, 5), 3, noise) && c == star_surface(
            model_position,
            normal,
            noise,
        )
}

/// The star.
pub fn star_shader<G: Fn(i64) -> i32>(
    _v1: &Vertex,
    _v2: &Vertex,
    _v3: &Vertex,
    model_position: Vec3,
    _world_position: Vec3,
    normal: Vec3,
    _tex_coords: Vec2,
    hash: &G,
) -> (c: Color)
    requires
        forall|n: i64| call_requires(*hash, (n,)),
    ensures
        is_star_shade(*hash, model_position, normal, c),
{
    let unit: i64 = UNIT as i64;
    let n: Vec3 = surface_normal(normal, Vec3 { x: 0, y: 0, z: UNIT });
    let toward: Vec3 = Vec3 { x: -2_000, y: 6_000, z: -10_000 };
    proof {
        lemma_normalized_bounds(toward);
    }
    let intensity: i64 = facing_term(n, normalize(toward));
    let noise: i64 = fbm(scaled_point(model_position, 5), 3, hash) as i64;
    let variation: i64 = noise * 1_000 / unit;
    let x: i64 = model_position.x as i64;
    let y: i64 = model_position.y as i64;
    assert(0 <= x * x <= 0x4000_0000_0000_0000 && 0 <= y * y <= 0x4000_0000_0000_0000)
        by (nonlinear_arith)
        requires
            -0x8000_0000 <= x <= 0x8000_0000,
            -0x8000_0000 <= y <= 0x8000_0000,
    ;
    let off: i64 = isqrt((x * x) as u64 + (y * y) as u64) as i64;
    let off_axis: i64 = if off < unit {
        off
    } else {
        unit
    };
    let glow: i64 = scale(unit - off_axis, unit - off_axis) * 3_000 / unit;
    let flare: i64 = scale(scale(intensity, intensity), intensity) * 3_000 / unit;
    let light: i64 = intensity * 6_000 / unit + 4_000;
    let r: i64 = clamp_i64(unit + variation + glow + flare, 0, unit);
    let g: i64 = clamp_i64(
        7_000 + variation * 5_000 / unit + glow * 8_000 / unit + flare * 9_000 / unit,
        0,
        unit,
    );
    let b: i64 = clamp_i64(3_000 + variation * 3_000 / unit + glow * 5_000 / unit, 0, unit);
    Color::from_unit(scale(r, light) as i32, scale(g, light) as i32, scale(b, light) as i32)
}

/// The brightness of a rocky planet's surface at a point.
pub open spec fn rocky_shading(world: Vec3, normal: Vec3) -> int {
    clamp_spec(
        mul_unit(
            diffuse_of(world, normal) * 8_500 / (UNIT as int) + 1_500,
            attenuation(world, 1_200, 3_500),
        ),
        1_000,
        UNIT as int,
    )
}

/// The climate of a latitude, given as the pitch `asin(y / radius)` of the
/// model position: the polar angle `pi / 2 - pitch` as a part of pi.
pub open spec fn climate_of(pitch: int) -> int {
    abs_spec(HALF_PI - pitch) * UNIT / (PI as int)
}

/// The colour of land for the noise that gives its elevation and for its
/// climate: mostly snow above 0.7, green with a little brown below 0.3, and
/// in between green that turns brown with the elevation.
pub open spec fn land_color(elevation_noise: int, climate: int) -> (int, int, int) {
    if climate > 7_000 {
        (6_900, 8_100, 7_250)
    } else if climate < 3_000 {
        (2_400, 5_400, 2_000)
    } else {
        let elevation = elevation_noise * 5_000 / (UNIT as int) + 5_000;
        let brown = elevation * 5_000 / (UNIT as int);
        (lerp(2_000, 4_000, brown), lerp(6_000, 3_000, brown), lerp(2_000, 2_000, brown))
    }
}

/// The colour of the ocean for the noise that gives its depth: shallow blue
/// that turns deep with the depth.
pub open spec fn ocean_color(depth_noise: int) -> (int, int, int) {
    let depth = depth_noise * 3_000 / (UNIT as int) + 7_000;
    (lerp(2_000, 0, depth), lerp(4_000, 2_000, depth), lerp(7_000, 5_000, depth))
}

/// The unlit colour of a rocky planet: land where the continent noise is
/// above 0.1, ocean elsewhere.
pub open spec fn rocky_surface(continent: int, detail: int, pitch: int) -> (int, int, int) {
    if continent > 1_000 {
        land_color(detail, climate_of(pitch))
    } else {
        ocean_color(detail)
    }
}

/// The colour of a rocky planet.
pub open spec fn rocky_color(world: Vec3, normal: Vec3, continent: int, detail: int, pitch: int) -> Color {
    let shading = rocky_shading(world, normal);
    let base = rocky_surface(continent, detail, pitch);
    color_of(mul_unit(base.0, shading), mul_unit(base.1, shading), mul_unit(base.2, shading))
}

/// The noise values and the heading that the rocky planet shader reads:
/// `continent` is four octaves at twice the model position, `detail` three
/// octaves at four times the model position on land and at three times on
/// the ocean, and `heading` is the heading of the model position.
pub open spec fn rocky_inputs<G: Fn(i64) -> i32, H: Fn(Vec3) -> (i32, i32)>(
    hash: G,
    heading_of: H,
    model_position: Vec3,
    continent: int,
    detail: int,
    heading: (i32, i32),
) -> bool {
    &&& is_fbm(hash, scaled(model_position, 2), 4, continent)
    &&& is_fbm(
        hash,
        scaled(
            model_position,
            if continent > 1_000 {
                4
            } else {
                3
            },
        ),
        3,
        detail,
    )
    &&& call_ensures(heading_of, (normalized(model_position),), heading)
}

/// `c` is a colour of the rocky planet shader.
pub open spec fn is_rocky_shade<G: Fn(i64) -> i32, H: Fn(Vec3) -> (i32, i32)>(
    hash: G,
    heading_of: H,
    model_position: Vec3,
    world: Vec3,
    normal: Vec3,
    c: Color,
) -> bool {
    exists|continent: int, detail: int, heading: (i32, i32)|
        #[trigger] rocky_inputs(hash, heading_of, model_position, continent, detail, heading) && c
            == rocky_color(world, normal, continent, detail, heading.1 as int)
}

/// A rocky planet: continents and oceans laid out by noise, climate bands by
/// latitude, lit from the origin.  `heading_of` maps a direction of length
/// `UNIT` to its yaw `atan2(z, x)` and pitch `asin(y)`.
pub fn rocky_planet_shader<G: Fn(i64) -> i32, H: Fn(Vec3) -> (i32, i32)>(
    _v1: &Vertex,
    _v2: &Vertex,
    _v3: &Vertex,
    model_position: Vec3,
    world_position: Vec3,
    normal: Vec3,
    _tex_coords: Vec2,
    hash: &G,
    heading_of: &H,
) -> (c: Color)
    requires
        forall|n: i64| call_requires(*hash, (n,)),
        forall|d: Vec3| call_requires(*heading_of, (d,)),
    ensures
        is_rocky_shade(*hash, *heading_of, model_position, world_position, normal, c),
{
    let unit: i64 = UNIT as i64;
    let (diffuse, distance) = lighting(world_position, normal);
    let shading: i64 = clamp_i64(
        scale(diffuse * 8_500 / unit + 1_500, attenuate(distance, 1_200, 3_500)),
        1_000,
        unit,
    );
    let heading: (i32, i32) = heading_of(normalize(model_position));
    let polar: i64 = HALF_PI as i64 - heading.1 as i64;
    let climate: i64 = (if polar >= 0 {
        polar
    } else {
        -polar
    }) * unit / PI as i64;
    let continent: i64 = fbm(scaled_point(model_position, 2), 4, hash) as i64;
    let detail: i64;
    let base: (i64, i64, i64);
    if continent > 1_000 {
        detail = fbm(scaled_point(model_position, 4), 3, hash) as i64;
        if climate > 7_000 {
            base = (6_900, 8_100, 7_250);
        } else if climate < 3_000 {
            base = (2_400, 5_400, 2_000);
        } else {
            let elevation: i64 = detail * 5_000 / unit + 5_000;
            let brown: i64 = elevation * 5_000 / unit;
            base = (
                (2_000 * (unit - brown) + 4_000 * brown) / unit,
                (6_000 * (unit - brown) + 3_000 * brown) / unit,
                (2_000 * (unit - brown) + 2_000 * brown) / unit,
            );
        }
    } else {
        detail = fbm(scaled_point(model_position, 3), 3, hash) as i64;
        let depth: i64 = detail * 3_000 / unit + 7_000;
        base = (
            (2_000 * (unit - depth) + 0 * depth) / unit,
            (4_000 * (unit - depth) + 2_000 * depth) / unit,
            (7_000 * (unit - depth) + 5_000 * depth) / unit,
        );
    }
    let c: Color = Color::from_unit(
        scale(base.0, shading) as i32,
        scale(base.1, shading) as i32,
        scale(base.2, shading) as i32,
    );
    assert(rocky_inputs(
        *hash,
        *heading_of,
        model_position,
        continent as int,
        detail as int,
        heading,
    ));
    assert(c == rocky_color(
        world_position,
        normal,
        continent as int,
        detail as int,
        heading.1 as int,
    ));
    c
}

/// The brightness of a gas giant's surface at a point.
pub open spec fn gas_giant_shading(world: Vec3, normal: Vec3) -> int {
    mul_unit(diffuse_of(world, normal) * 8_000 / (UNIT as int) + 2_000, attenuation(world, 1_500, 3_500))
}

/// The angle whose sine draws the bands of a gas giant: eight times the
/// height of the model position on the unit sphere.
pub open spec fn band_angle(model_position: Vec3) -> int {
    normalized(model_position).y * 8
}

/// How strongly the great spot shows at a direction of length `UNIT`: it is
/// centred on `(0, 0.3, 0.8)`, fades with the square of the distance and
/// ends at a distance of 0.3.
pub open spec fn spot_of(direction: Vec3) -> int {
    let dx = direction.x as int;
    let dy = direction.y - 3_000;
    let dz = direction.z - 8_000;
    let distance = isqrt_spec(dx * dx + dy * dy + dz * dz);
    if distance < 3_000 {
        let nearness = UNIT - distance * UNIT / 3_000;
        mul_unit(nearness, nearness) * 4_000 / (UNIT as int)
    } else {
        0
    }
}

/// One channel of a gas giant before lighting: the band colour between
/// `dark` and `light`, shifted by the swirl and the variation with the
/// channel's `weight`, and replaced by `spot_color` as far as the spot shows.
pub open spec fn gas_channel(
    dark: int,
    light: int,
    weight: int,
    spot_color: int,
    band: int,
    swirl: int,
    variation: int,
    spot: int,
) -> int {
    let varied = lerp(dark, light, band) + swirl * weight / (UNIT as int) + variation * weight / (
    UNIT as int);
    mul_unit(varied, UNIT - spot) + spot_color * spot / (UNIT as int)
}

/// The colour of a gas giant for the sine of its band angle, its turbulence
/// noise and its colour variation noise.
pub open spec fn gas_giant_color(
    world: Vec3,
    normal: Vec3,
    model_position: Vec3,
    sine: int,
    turbulence: int,
    variation_noise: int,
) -> Color {
    let shading = gas_giant_shading(world, normal);
    let band = limited(sine) * 5_000 / (UNIT as int) + 5_000;
    let swirl = (turbulence * 2 - UNIT) * 3_000 / (UNIT as int);
    let variation = variation_noise * 2_000 / (UNIT as int);
    let spot = spot_of(normalized(model_position));
    color_of(
        clamp_spec(
            mul_unit(gas_channel(5_000, 8_000, UNIT as int, 8_000, band, swirl, variation, spot), shading),
            0,
            UNIT as int,
        ),
        clamp_spec(
            mul_unit(gas_channel(3_000, 7_000, 5_000, 3_000, band, swirl, variation, spot), shading),
            0,
            UNIT as int,
        ),
        clamp_spec(
            mul_unit(gas_channel(2_000, 6_000, -3_000, 2_000, band, swirl, variation, spot), shading),
            0,
            UNIT as int,
        ),
    )
}

/// The sine and the noise values that the gas giant shader reads: `trig` is
/// the sine and cosine of the band angle, `turbulence` four octaves at three
/// times the model position and `variation` three octaves at five times.
pub open spec fn gas_giant_inputs<G: Fn(i64) -> i32, T: Fn(i32) -> (i32, i32)>(
    hash: G,
    sin_cos: T,
    model_position: Vec3,
    trig: (i32, i32),
    turbulence: int,
    variation: int,
) -> bool {
    &&& call_ensures(sin_cos, (band_angle(model_position) as i32,), trig)
    &&& is_fbm(hash, scaled(model_position, 3), 4, turbulence)
    &&& is_fbm(hash, scaled(model_position, 5), 3, variation)
}

/// `c` is a colour of the gas giant shader.
pub open spec fn is_gas_giant_shade<G: Fn(i64) -> i32, T: Fn(i32) -> (i32, i32)>(
    hash: G,
    sin_cos: T,
    model_position: Vec3,
    world: Vec3,
    normal: Vec3,
    c: Color,
) -> bool {
    exists|trig: (i32, i32), turbulence: int, variation: int|
        #[trigger] gas_giant_inputs(hash, sin_cos, model_position, trig, turbulence, variation)
            && c == gas_giant_color(
            world,
            normal,
            model_position,
            trig.0 as int,
            turbulence,
            variation,
        )
}

/// One channel of a gas giant before lighting.
fn gas_giant_channel(
    dark: i64,
    light: i64,
    weight: i64,
    spot_color: i64,
    band: i64,
    swirl: i64,
    variation: i64,
    spot: i64,
) -> (r: i64)
    requires
        0 <= dark <= UNIT,
        0 <= light <= UNIT,
        -UNIT <= weight <= UNIT,
        0 <= spot_color <= UNIT,
        0 <= band <= UNIT,
        -3_000 <= swirl <= 3_000,
        0 <= variation <= 2_000,
        0 <= spot <= 4_000,
    ensures
        r == gas_channel(
            dark as int,
            light as int,
            weight as int,
            spot_color as int,
            band as int,
            swirl as int,
            variation as int,
            spot as int,
        ),
        -40_000 <= r <= 40_000,
{
    let unit: i64 = UNIT as i64;
    assert(0 <= dark * (unit - band) <= 100_000_000 && 0 <= light * band <= 100_000_000 && -30_000_000
        <= swirl * weight <= 30_000_000 && -20_000_000 <= variation * weight <= 20_000_000 && 0
        <= spot_color * spot <= 40_000_000) by (nonlinear_arith)
        requires
            0 <= dark <= 10_000,
            0 <= light <= 10_000,
            -10_000 <= weight <= 10_000,
            0 <= spot_color <= 10_000,
            0 <= band <= 10_000,
            -3_000 <= swirl <= 3_000,
            0 <= variation <= 2_000,
            0 <= spot <= 4_000,
            unit == 10_000,
    ;
    let varied: i64 = (dark * (unit - band) + light * band) / unit + per_unit(swirl * weight)
        + per_unit(variation * weight);
    scale(varied, unit - spot) + spot_color * spot / unit
}

/// A gas giant: bands along the latitude, swirled and varied by noise, with
/// a great spot, lit from the origin.  `sin_cos` maps an angle to its sine
/// and cosine.
pub fn gas_giant_shader<G: Fn(i64) -> i32, T: Fn(i32) -> (i32, i32)>(
    _v1: &Vertex,
    _v2: &Vertex,
    _v3: &Vertex,
    model_position: Vec3,
    world_position: Vec3,
    normal: Vec3,
    _tex_coords: Vec2,
    hash: &G,
    sin_cos: &T,
) -> (c: Color)
    requires
        forall|n: i64| call_requires(*hash, (n,)),
        forall|a: i32| call_requires(*sin_cos, (a,)),
    ensures
        is_gas_giant_shade(*hash, *sin_cos, model_position, world_position, normal, c),
{
    let unit: i64 = UNIT as i64;
    let (diffuse, distance) = lighting(world_position, normal);
    let shading: i64 = scale(diffuse * 8_000 / unit + 2_000, attenuate(distance, 1_500, 3_500));
    let direction: Vec3 = normalize(model_position);
    proof {
        lemma_normalized_bounds(model_position);
    }
    let trig: (i32, i32) = sin_cos(direction.y * 8);
    let band: i64 = per_unit(clamp_i32(trig.0, -UNIT, UNIT) as i64 * 5_000) + 5_000;
    let turbulence: i64 = fbm(scaled_point(model_position, 3), 4, hash) as i64;
    let swirl: i64 = per_unit((turbulence * 2 - unit) * 3_000);
    let variation_noise: i64 = fbm(scaled_point(model_position, 5), 3, hash) as i64;
    let variation: i64 = variation_noise * 2_000 / unit;
    let dx: i64 = direction.x as i64;
    let dy: i64 = direction.y as i64 - 3_000;
    let dz: i64 = direction.z as i64 - 8_000;
    assert(0 <= dx * dx <= 400_000_000 && 0 <= dy * dy <= 400_000_000 && 0 <= dz * dz <= 400_000_000)
        by (nonlinear_arith)
        requires
            -20_000 <= dx <= 20_000,
            -20_000 <= dy <= 20_000,
            -20_000 <= dz <= 20_000,
    ;
    let spot_distance: i64 = isqrt((dx * dx + dy * dy + dz * dz) as u64) as i64;
    let spot: i64 = if spot_distance < 3_000 {
        let nearness: i64 = unit - spot_distance * unit / 3_000;
        scale(nearness, nearness) * 4_000 / unit
    } else {
        0
    };
    let r: i64 = gas_giant_channel(5_000, 8_000, unit, 8_000, band, swirl, variation, spot);
    let g: i64 = gas_giant_channel(3_000, 7_000, 5_000, 3_000, band, swirl, variation, spot);
    let b: i64 = gas_giant_channel(2_000, 6_000, -3_000, 2_000, band, swirl, variation, spot);
    let c: Color = Color::from_unit(
        clamp_i64(scale(r, shading), 0, unit) as i32,
        clamp_i64(scale(g, shading), 0, unit) as i32,
        clamp_i64(scale(b, shading), 0, unit) as i32,
    );
    assert(gas_giant_inputs(
        *hash,
        *sin_cos,
        model_position,
        trig,
        turbulence as int,
        variation_noise as int,
    ));
    assert(c == gas_giant_color(
        world_position,
        normal,
        model_position,
        trig.0 as int,
        turbulence as int,
        variation_noise as int,
    ));
    c
}

/// `c` is a colour that the shader `shader` gives for a sample, with the
/// sky image of `slot` and with what `hash`, `sin_cos` and `heading_of`
/// supply.
pub open spec fn is_shade<G: Fn(i64) -> i32, T: Fn(i32) -> (i32, i32), H: Fn(Vec3) -> (i32, i32)>(
    shader: FragmentShader,
    slot: SkyboxSlot,
    hash: G,
    sin_cos: T,
    heading_of: H,
    model_position: Vec3,
    world_position: Vec3,
    normal: Vec3,
    tex_coords: Vec2,
    c: Color,
) -> bool {
    match shader {
        FragmentShader::Star => is_star_shade(hash, model_position, normal, c),
        FragmentShader::RockyPlanet => is_rocky_shade(
            hash,
            heading_of,
            model_position,
            world_position,
            normal,
            c,
        ),
        FragmentShader::GasGiant => is_gas_giant_shade(
            hash,
            sin_cos,
            model_position,
            world_position,
            normal,
            c,
        ),
        FragmentShader::Moon => is_moon_shade(hash, model_position, world_position, normal, c),
        FragmentShader::Ship => c == ship_color(world_position, normal),
        FragmentShader::Ring => is_ring_shade(
            hash,
            model_position,
            world_position,
            normal,
            tex_coords,
            c,
        ),
        FragmentShader::Orbit => c == orbit_color(),
        FragmentShader::SkyboxProcedural => is_procedural_sky(hash, model_position, c),
        FragmentShader::SkyboxTextured => is_textured_sky(slot, heading_of, hash, model_position, c),
    }
}

/// Evaluates the shader that `shader` names for one sample.
pub fn shade<G: Fn(i64) -> i32, T: Fn(i32) -> (i32, i32), H: Fn(Vec3) -> (i32, i32)>(
    shader: FragmentShader,
    v1: &Vertex,
    v2: &Vertex,
    v3: &Vertex,
    model_position: Vec3,
    world_position: Vec3,
    normal: Vec3,
    tex_coords: Vec2,
    slot: &SkyboxSlot,
    hash: &G,
    sin_cos: &T,
    heading_of: &H,
) -> (c: Color)
    requires
        slot.wf(),
        forall|n: i64| call_requires(*hash, (n,)),
        forall|a: i32| call_requires(*sin_cos, (a,)),
        forall|d: Vec3| call_requires(*heading_of, (d,)),
    ensures
        is_shade(
            shader,
            *slot,
            *hash,
            *sin_cos,
            *heading_of,
            model_position,
            world_position,
            normal,
            tex_coords,
            c,
        ),
{
    match shader {
        FragmentShader::Star => star_shader(
            v1,
            v2,
            v3,
            model_position,
            world_position,
            normal,
            tex_coords,
            hash,
        ),
        FragmentShader::RockyPlanet => rocky_planet_shader(
            v1,
            v2,
            v3,
            model_position,
            world_position,
            normal,
            tex_coords,
            hash,
            heading_of,
        ),
        FragmentShader::GasGiant => gas_giant_shader(
            v1,
            v2,
            v3,
            model_position,
            world_position,
            normal,
            tex_coords,
            hash,
            sin_cos,
        ),
        FragmentShader::Moon => moon_shader(
            v1,
            v2,
            v3,
            model_position,
            world_position,
            normal,
            tex_coords,
            hash,
        ),
        FragmentShader::Ship => ship_shader_metallic(
            v1,
            v2,
            v3,
            model_position,
            world_position,
            normal,
            tex_coords,
        ),
        FragmentShader::Ring => ring_shader(
            v1,
            v2,
            v3,
            model_position,
            world_position,
            normal,
            tex_coords,
            hash,
        ),
        FragmentShader::Orbit => orbit_shader(
            v1,
            v2,
            v3,
            model_position,
            world_position,
            normal,
            tex_coords,
        ),
        FragmentShader::SkyboxProcedural => skybox_shader_procedural(
            v1,
            v2,
            v3,
            model_position,
            world_position,
            normal,
            tex_coords,
            hash,
        ),
        FragmentShader::SkyboxTextured => skybox_shader_textured(
            v1,
            v2,
            v3,
            model_position,
            world_position,
            normal,
            tex_coords,
            slot,
            heading_of,
            hash,
        ),
    }
}

} // verus!
