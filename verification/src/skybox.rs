//! The sky: an optional equirectangular image behind a procedural star
//! field.
//!
//! The image that the textured sky shader reads is bound in a
//! [`SkyboxSlot`], which the caller owns and hands to the shader; it can be
//! bound anew or cleared between frames.
use std::sync::Arc;
use vstd::prelude::*;
use crate::color::Color;
use crate::color::blue_of;
use crate::color::channel_of_unit;
use crate::color::green_of;
use crate::color::red_of;
use crate::fixed::PI;
use crate::fixed::UNIT;
use crate::fixed::clamp_i32;
use crate::fixed::div_floor;
use crate::fixed::limited;
use crate::fixed::mul_fixed;
use crate::fixed::mul_unit;
use crate::noise::limited_hash;
use crate::texture::Texture;
use crate::texture::TextureError;
use crate::vector::Vec2;
use crate::vector::Vec3;
use crate::vector::normalize;
use crate::vector::normalized;
use crate::vertex::Vertex;

verus! {

/// A sky image.
pub struct Skybox {
    pub texture: Arc<Texture>,
}

/// The place of the sky image that is in use: empty, or bound to one image.
pub struct SkyboxSlot {
    pub bound: Option<Arc<Texture>>,
}

/// `Arc::clone`: a second handle to the same shared value.
#[verifier::external_body]
fn share(texture: &Arc<Texture>) -> (r: Arc<Texture>)
    ensures
        r == *texture,
{
    Arc::clone(texture)
}

impl SkyboxSlot {
    /// A bound image is a well-formed texture.
    pub open spec fn wf(&self) -> bool {
        self.bound matches Some(texture) ==> texture.wf()
    }

    /// An empty slot.
    pub fn new() -> (slot: SkyboxSlot)
        ensures
            slot.bound is None,
            slot.wf(),
    {
        SkyboxSlot { bound: None }
    }
}

impl Skybox {
    /// The image is a well-formed texture.
    pub open spec fn wf(&self) -> bool {
        self.texture.wf()
    }

    /// The sky image of a texture.
    pub fn from_texture(texture: Texture) -> (sky: Skybox)
        ensures
            *sky.texture == texture,
            texture.wf() ==> sky.wf(),
    {
        Skybox { texture: Arc::new(texture) }
    }

    /// Decodes an encoded image into a sky image, as [`Texture::load`] does.
    pub fn load(bytes: &[u8]) -> (r: Result<Skybox, TextureError>)
        ensures
            r matches Ok(sky) ==> sky.wf(),
    {
        match Texture::load(bytes) {
            Ok(texture) => Ok(Skybox::from_texture(texture)),
            Err(e) => Err(e),
        }
    }

    /// Binds this image in the slot, in place of whatever was bound.
    pub fn set_active(&self, slot: &mut SkyboxSlot)
        ensures
            final(slot).bound == Some(self.texture),
            self.wf() ==> final(slot).wf(),
    {
        slot.bound = Some(share(&self.texture));
    }

    /// Empties the slot.
    pub fn clear_active(slot: &mut SkyboxSlot)
        ensures
            final(slot).bound is None,
            final(slot).wf(),
    {
        slot.bound = None;
    }
}

/// The scalar that the star field hashes for a direction of length `UNIT`:
/// `100 x + 200 y + 300 z`, counted in units of `1 / (UNIT * UNIT)`.
pub open spec fn star_seed(dir: Vec3) -> int {
    (100 * dir.x + 200 * dir.y + 300 * dir.z) * UNIT
}

/// The colour of the star field for a hash value: above 0.995 a bright star
/// whose blue grows with the hash, above 0.98 a dim grey star, deep space
/// otherwise.
pub open spec fn star_color(star_hash: int) -> Color {
    let h = limited_hash(star_hash);
    if h > 9_950 {
        Color { r: 255, g: 255, b: channel_of_unit((h - 9_950) * 200) as u8 }
    } else if h > 9_800 {
        let grey = channel_of_unit((h - 9_800) * UNIT / 300) as u8;
        Color { r: grey, g: grey, b: grey }
    } else {
        Color { r: 2, g: 2, b: 5 }
    }
}

/// Texture coordinates of a heading on an equirectangular image:
/// `u = yaw / (2 pi) + 1/2` and `v = acos(y) / pi = 1/2 - pitch / pi`.
pub open spec fn equirect(heading: (i32, i32)) -> Vec2 {
    Vec2 {
        x: (heading.0 * UNIT / (2 * PI) + UNIT / 2) as i32,
        y: (UNIT / 2 - heading.1 * UNIT / (PI as int)) as i32,
    }
}

/// The colour of a sky image in the direction of a heading: the bilinear
/// lookup at the equirectangular coordinates of the heading.
pub open spec fn image_color(texture: Texture, heading: (i32, i32)) -> Color {
    let uv = equirect(heading);
    let packed = texture.bilinear(uv.x as int, uv.y as int);
    Color { r: red_of(packed) as u8, g: green_of(packed) as u8, b: blue_of(packed) as u8 }
}

/// `c` is a colour of the procedural sky: the colour of the star field for
/// a hash of the star seed of the direction of the model position.
pub open spec fn is_procedural_sky<G: Fn(i64) -> i32>(hash: G, model_position: Vec3, c: Color) -> bool {
    exists|h: i32|
        #[trigger] call_ensures(hash, (star_seed(normalized(model_position)) as i64,), h) && c
            == star_color(h as int)
}

/// `c` is a colour of the textured sky: the colour of the bound image along
/// a heading of the direction of the model position, or a colour of the
/// procedural sky where no image is bound.
pub open spec fn is_textured_sky<H: Fn(Vec3) -> (i32, i32), G: Fn(i64) -> i32>(
    slot: SkyboxSlot,
    heading_of: H,
    hash: G,
    model_position: Vec3,
    c: Color,
) -> bool {
    match slot.bound {
        Some(texture) => exists|heading: (i32, i32)|
            #[trigger] call_ensures(heading_of, (normalized(model_position),), heading) && c
                == image_color(*texture, heading),
        None => is_procedural_sky(hash, model_position, c),
    }
}

/// The colour of the star field for a hash value.
fn star_field(star_hash: i32) -> (c: Color)
    ensures
        c == star_color(star_hash as int),
{
    let h: i32 = clamp_i32(star_hash, 0, UNIT - 1);
    if h > 9_950 {
        Color::from_unit(UNIT, UNIT, (h - 9_950) * 200)
    } else if h > 9_800 {
        let brightness: i32 = (h - 9_800) * UNIT / 300;
        Color::from_unit(brightness, brightness, brightness)
    } else {
        Color::from_unit(100, 100, 200)
    }
}

/// The procedural sky: a star field that depends on the direction of the
/// model position alone.  `hash` maps a scalar, counted in units of
/// `1 / (UNIT * UNIT)`, to a value in `[0, 1)`.
pub fn skybox_shader_procedural<G: Fn(i64) -> i32>(
    _v1: &Vertex,
    _v2: &Vertex,
    _v3: &Vertex,
    model_position: Vec3,
    _world_position: Vec3,
    _normal: Vec3,
    _tex_coords: Vec2,
    hash: &G,
) -> (c: Color)
    requires
        forall|n: i64| call_requires(*hash, (n,)),
    ensures
        is_procedural_sky(*hash, model_position, c),
{
    let dir: Vec3 = normalize(model_position);
    proof {
        crate::vector::lemma_normalized_bounds(model_position);
    }
    let unit: i64 = UNIT as i64;
    let seed: i64 = (100 * dir.x as i64 + 200 * dir.y as i64 + 300 * dir.z as i64) * unit;
    assert(seed == star_seed(dir));
    let h: i32 = hash(seed);
    star_field(h)
}

/// The textured sky: the bound image, looked up at the equirectangular
/// coordinates of the direction of the model position; the procedural sky
/// where no image is bound.  `heading_of` maps a direction of length `UNIT`
/// to its yaw `atan2(z, x)` and pitch `asin(y)`.
pub fn skybox_shader_textured<H: Fn(Vec3) -> (i32, i32), G: Fn(i64) -> i32>(
    v1: &Vertex,
    v2: &Vertex,
    v3: &Vertex,
    model_position: Vec3,
    world_position: Vec3,
    normal: Vec3,
    tex_coords: Vec2,
    slot: &SkyboxSlot,
    heading_of: &H,
    hash: &G,
) -> (c: Color)
    requires
        slot.wf(),
        forall|d: Vec3| call_requires(*heading_of, (d,)),
        forall|n: i64| call_requires(*hash, (n,)),
    ensures
        is_textured_sky(*slot, *heading_of, *hash, model_position, c),
{
    match &slot.bound {
        Some(texture) => {
            let dir: Vec3 = normalize(model_position);
            let heading: (i32, i32) = heading_of(dir);
            let unit: i128 = UNIT as i128;
            let pi: i128 = PI as i128;
            let u: i128 = div_floor(heading.0 as i128 * unit, 2 * pi) + unit / 2;
            let v: i128 = unit / 2 - div_floor(heading.1 as i128 * unit, pi);
            let packed: u32 = texture.sample_bilinear(u as i32, v as i32);
            proof {
                crate::color::lemma_channels_repack(packed);
            }
            Color::from_hex(packed)
        },
        None => skybox_shader_procedural(
            v1,
            v2,
            v3,
            model_position,
            world_position,
            normal,
            tex_coords,
            hash,
        ),
    }
}

/// The sky sphere has this many segments around and from pole to pole.
pub const SKY_SEGMENTS: usize = 16;

/// The radius of the sky sphere (800.0).
pub const SKY_RADIUS: i32 = 8_000_000;

/// Which vertex of a grid with `segments` cells a side stands at place `k`
/// of its triangle list.  Each cell gives two triangles: its own corner, the
/// next along the row and the one below; then the next along the row, the
/// one below that and the one below the cell's own.
pub open spec fn corner_index(k: int, segments: int) -> int {
    let cell = k / 6;
    let current = (cell / segments) * (segments + 1) + cell % segments;
    let below = current + segments + 1;
    let m = k % 6;
    if m == 0 {
        current
    } else if m == 1 || m == 3 {
        current + 1
    } else if m == 4 {
        below + 1
    } else {
        below
    }
}

/// The triangle list of a grid of `(segments + 1)` by `(segments + 1)`
/// vertices, cell after cell along the rows.
pub open spec fn triangulated(grid: Seq<Vertex>, segments: int) -> Seq<Vertex> {
    Seq::new((6 * segments * segments) as nat, |k: int| grid[corner_index(k, segments)])
}

/// Place `6 * (i * segments + j) + m` of the triangle list belongs to cell
/// `(i, j)`.
proof fn lemma_corner_of_cell(i: int, j: int, m: int, segments: int)
    requires
        0 <= i,
        0 <= j < segments,
        0 <= m < 6,
    ensures
        ({
            let k = 6 * (i * segments + j) + m;
            &&& k / 6 == i * segments + j
            &&& k % 6 == m
            &&& (i * segments + j) / segments == i
            &&& (i * segments + j) % segments == j
        }),
{
    let cell = i * segments + j;
    vstd::arithmetic::div_mod::lemma_fundamental_div_mod_converse(6 * cell + m, 6, cell, m);
    vstd::arithmetic::div_mod::lemma_fundamental_div_mod_converse(cell, segments, i, j);
}

/// Turns a grid of `(segments + 1)` rows of `(segments + 1)` vertices into a
/// flat triangle list, two triangles a cell.
pub fn triangulate_grid(grid: &Vec<Vertex>, segments: usize) -> (triangles: Vec<Vertex>)
    requires
        grid@.len() == (segments + 1) * (segments + 1),
    ensures
        triangles@ == triangulated(grid@, segments as int),
{
    let len: usize = grid.len();
    assert(segments + 1 <= (segments + 1) * (segments + 1)) by (nonlinear_arith)
        requires
            segments >= 0,
    ;
    let side: usize = segments + 1;
    let mut triangles: Vec<Vertex> = Vec::new();
    let mut i: usize = 0;
    while i < segments
        invariant
            side == segments + 1,
            len == grid@.len(),
            grid@.len() == side * side,
            i <= segments,
            triangles@.len() == 6 * (i * segments),
            forall|k: int|
                0 <= k < triangles@.len() ==> #[trigger] triangles@[k] == grid@[corner_index(
                    k,
                    segments as int,
                )],
        decreases segments - i,
    {
        let mut j: usize = 0;
        while j < segments
            invariant
                side == segments + 1,
                len == grid@.len(),
                grid@.len() == side * side,
                i < segments,
                j <= segments,
                triangles@.len() == 6 * (i * segments + j),
                forall|k: int|
                    0 <= k < triangles@.len() ==> #[trigger] triangles@[k] == grid@[corner_index(
                        k,
                        segments as int,
                    )],
            decreases segments - j,
        {
            assert(0 <= i * side && (i + 1) * side + j + 1 < side * side && (i + 1) * side == i
                * side + side) by (nonlinear_arith)
                requires
                    0 <= i,
                    i + 1 < side,
                    0 <= j,
                    j + 1 < side,
            ;
            let current: usize = i * side + j;
            let below: usize = current + side;
            let ghost before = triangles@;
            triangles.push(grid[current]);
            triangles.push(grid[current + 1]);
            triangles.push(grid[below]);
            triangles.push(grid[current + 1]);
            triangles.push(grid[below + 1]);
            triangles.push(grid[below]);
            proof {
                assert forall|k: int| 0 <= k < triangles@.len() implies #[trigger] triangles@[k]
                    == grid@[corner_index(k, segments as int)] by {
                    if k >= before.len() {
                        lemma_corner_of_cell(i as int, j as int, k - before.len(), segments as int);
                    }
                }
            }
            j = j + 1;
        }
        assert((i + 1) * segments == i * segments + segments) by (nonlinear_arith);
        i = i + 1;
    }
    assert(6 * (segments * segments) == 6 * segments * segments) by (nonlinear_arith);
    triangles
}

/// The point of the sky sphere at a polar angle and an azimuth, given the
/// sine and cosine of each.
pub open spec fn sky_position(theta: (i32, i32), phi: (i32, i32)) -> Vec3 {
    let ring = mul_unit(SKY_RADIUS as int, limited(theta.0 as int));
    Vec3 {
        x: mul_unit(ring, limited(phi.1 as int)) as i32,
        y: mul_unit(SKY_RADIUS as int, limited(theta.1 as int)) as i32,
        z: mul_unit(ring, limited(phi.0 as int)) as i32,
    }
}

/// The vertex of the sky sphere in row `i` and column `j`: it faces the
/// centre of the sphere, and its texture coordinates are its place on the
/// grid.
pub open spec fn sky_vertex(theta: (i32, i32), phi: (i32, i32), i: int, j: int) -> Vertex {
    let position = sky_position(theta, phi);
    let outward = normalized(position);
    Vertex::of(
        position,
        Vec3 { x: (-outward.x) as i32, y: (-outward.y) as i32, z: (-outward.z) as i32 },
        Vec2 { x: (j * UNIT / 16) as i32, y: (i * UNIT / 16) as i32 },
    )
}

/// `v` is the vertex of the sky sphere in row `i` and column `j`, for sines
/// and cosines that `sin_cos` gives for the polar angle `i * pi / 16` and the
/// azimuth `j * 2 pi / 16`.
pub open spec fn is_sky_vertex<T: Fn(i32) -> (i32, i32)>(sin_cos: T, i: int, j: int, v: Vertex) -> bool {
    exists|theta: (i32, i32), phi: (i32, i32)|
        #[trigger] sky_angles(sin_cos, i, j, theta, phi) && v == sky_vertex(theta, phi, i, j)
}

/// `theta` and `phi` are what `sin_cos` gives for the angles of row `i` and
/// column `j`.
pub open spec fn sky_angles<T: Fn(i32) -> (i32, i32)>(
    sin_cos: T,
    i: int,
    j: int,
    theta: (i32, i32),
    phi: (i32, i32),
) -> bool {
    &&& call_ensures(sin_cos, ((i * PI / 16) as i32,), theta)
    &&& call_ensures(sin_cos, ((j * (2 * PI) / 16) as i32,), phi)
}

/// `grid` is the vertex grid of the sky sphere: 17 rows of 17 vertices.
pub open spec fn is_sky_grid<T: Fn(i32) -> (i32, i32)>(sin_cos: T, grid: Seq<Vertex>) -> bool {
    &&& grid.len() == 17 * 17
    &&& forall|i: int, j: int|
        0 <= i <= 16 && 0 <= j <= 16 ==> is_sky_vertex(sin_cos, i, j, #[trigger] grid[i * 17 + j])
}

/// A product of the sky radius and sines or cosines stays within the
/// radius.
fn scale_radius(r: i32, t: i32) -> (s: i32)
    requires
        -SKY_RADIUS <= r <= SKY_RADIUS,
        -UNIT <= t <= UNIT,
    ensures
        s == mul_unit(r as int, t as int),
        -SKY_RADIUS <= s <= SKY_RADIUS,
{
    assert(-8_000_000 * 10_000 <= r * t <= 8_000_000 * 10_000) by (nonlinear_arith)
        requires
            -8_000_000 <= r <= 8_000_000,
            -10_000 <= t <= 10_000,
    ;
    mul_fixed(r, t) as i32
}

/// The sky sphere as a triangle list: a sphere of radius `SKY_RADIUS` in
/// `SKY_SEGMENTS` by `SKY_SEGMENTS` cells, seen from inside.  `sin_cos` maps
/// an angle to its sine and cosine.
pub fn generate_skybox_vertices<T: Fn(i32) -> (i32, i32)>(sin_cos: &T) -> (vertices: Vec<Vertex>)
    requires
        forall|a: i32| call_requires(*sin_cos, (a,)),
    ensures
        vertices@.len() == 6 * 16 * 16,
        exists|grid: Seq<Vertex>|
            #[trigger] is_sky_grid(*sin_cos, grid) && vertices@ == triangulated(grid, 16),
{
    let mut grid: Vec<Vertex> = Vec::new();
    let mut i: i32 = 0;
    while i <= 16
        invariant
            0 <= i <= 17,
            grid@.len() == i * 17,
            forall|a: i32| call_requires(*sin_cos, (a,)),
            forall|r: int, c: int|
                0 <= r < i && 0 <= c <= 16 ==> is_sky_vertex(*sin_cos, r, c, #[trigger] grid@[r * 17 + c]),
        decreases 17 - i,
    {
        let theta: (i32, i32) = sin_cos(i * PI / 16);
        let sin_theta: i32 = clamp_i32(theta.0, -UNIT, UNIT);
        let cos_theta: i32 = clamp_i32(theta.1, -UNIT, UNIT);
        let mut j: i32 = 0;
        while j <= 16
            invariant
                0 <= i <= 16,
                0 <= j <= 17,
                grid@.len() == i * 17 + j,
                call_ensures(*sin_cos, ((i * PI / 16) as i32,), theta),
                sin_theta == limited(theta.0 as int),
                cos_theta == limited(theta.1 as int),
                forall|a: i32| call_requires(*sin_cos, (a,)),
                forall|r: int, c: int|
                    0 <= r < i && 0 <= c <= 16 ==> is_sky_vertex(
                        *sin_cos,
                        r,
                        c,
                        #[trigger] grid@[r * 17 + c],
                    ),
                forall|c: int|
                    0 <= c < j ==> is_sky_vertex(*sin_cos, i as int, c, #[trigger] grid@[i * 17 + c]),
            decreases 17 - j,
        {
            let phi: (i32, i32) = sin_cos(j * (2 * PI) / 16);
            let sin_phi: i32 = clamp_i32(phi.0, -UNIT, UNIT);
            let cos_phi: i32 = clamp_i32(phi.1, -UNIT, UNIT);
            let ring: i32 = scale_radius(SKY_RADIUS, sin_theta);
            let position: Vec3 = Vec3 {
                x: scale_radius(ring, cos_phi),
                y: scale_radius(SKY_RADIUS, cos_theta),
                z: scale_radius(ring, sin_phi),
            };
            proof {
                crate::vector::lemma_normalized_bounds(position);
            }
            let outward: Vec3 = normalize(position);
            let v: Vertex = Vertex::new(
                position,
                Vec3 { x: -outward.x, y: -outward.y, z: -outward.z },
                Vec2 { x: j * UNIT / 16, y: i * UNIT / 16 },
            );
            assert(sky_angles(*sin_cos, i as int, j as int, theta, phi));
            grid.push(v);
            j = j + 1;
        }
        i = i + 1;
    }
    assert(is_sky_grid(*sin_cos, grid@));
    triangulate_grid(&grid, 16)
}

} // verus!
