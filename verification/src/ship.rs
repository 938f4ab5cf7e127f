//! The ship's mesh: a loaded model, or a small built-in hull in its place.
use vstd::prelude::*;
use crate::fixed::UNIT;
use crate::vector::Vec2;
use crate::vector::Vec3;
use crate::vertex::Vertex;

verus! {

/// The number of triangles of the built-in hull.
pub const HULL_TRIANGLES: usize = 19;

/// The ten corner points of the built-in hull: the nose, four points of the
/// front frame (top, bottom, left, right), the tail, and four points of the
/// back frame.
pub open spec fn hull_point(i: int) -> Vec3 {
    if i == 0 {
        Vec3 { x: 0, y: 0, z: 10_000 }
    } else if i == 1 {
        Vec3 { x: 0, y: 5_000, z: 5_000 }
    } else if i == 2 {
        Vec3 { x: 0, y: -5_000i32, z: 5_000 }
    } else if i == 3 {
        Vec3 { x: -3_000i32, y: 0, z: 5_000 }
    } else if i == 4 {
        Vec3 { x: 3_000, y: 0, z: 5_000 }
    } else if i == 5 {
        Vec3 { x: 0, y: 0, z: -10_000i32 }
    } else if i == 6 {
        Vec3 { x: 0, y: 3_000, z: -5_000i32 }
    } else if i == 7 {
        Vec3 { x: 0, y: -3_000i32, z: -5_000i32 }
    } else if i == 8 {
        Vec3 { x: -2_000i32, y: 0, z: -5_000i32 }
    } else {
        Vec3 { x: 2_000, y: 0, z: -5_000i32 }
    }
}

/// The corner points of triangle `k` of the built-in hull: four triangles of
/// the front, four of the back, four of the top, three of the bottom, two of
/// the left side and two of the right.
pub open spec fn hull_triangle(k: int) -> (int, int, int) {
    if k == 0 {
        (0, 1, 3)
    } else if k == 1 {
        (0, 3, 2)
    } else if k == 2 {
        (0, 2, 4)
    } else if k == 3 {
        (0, 4, 1)
    } else if k == 4 {
        (5, 8, 6)
    } else if k == 5 {
        (5, 7, 8)
    } else if k == 6 {
        (5, 9, 7)
    } else if k == 7 {
        (5, 6, 9)
    } else if k == 8 {
        (1, 4, 9)
    } else if k == 9 {
        (1, 9, 6)
    } else if k == 10 {
        (1, 6, 8)
    } else if k == 11 {
        (1, 8, 3)
    } else if k == 12 {
        (2, 8, 9)
    } else if k == 13 {
        (2, 9, 4)
    } else if k == 14 {
        (2, 3, 8)
    } else if k == 15 {
        (3, 8, 2)
    } else if k == 16 {
        (3, 1, 8)
    } else if k == 17 {
        (4, 2, 9)
    } else {
        (4, 9, 1)
    }
}

/// The normal of triangle `k` of the built-in hull: the axis its face looks
/// along.
pub open spec fn hull_normal(k: int) -> Vec3 {
    if k < 4 {
        Vec3 { x: 0, y: 0, z: UNIT }
    } else if k < 8 {
        Vec3 { x: 0, y: 0, z: (-UNIT) as i32 }
    } else if k < 12 {
        Vec3 { x: 0, y: UNIT, z: 0 }
    } else if k < 15 {
        Vec3 { x: 0, y: (-UNIT) as i32, z: 0 }
    } else if k < 17 {
        Vec3 { x: (-UNIT) as i32, y: 0, z: 0 }
    } else {
        Vec3 { x: UNIT, y: 0, z: 0 }
    }
}

/// Vertex `n` of the built-in hull's triangle list.
pub open spec fn hull_vertex(n: int) -> Vertex {
    let corners = hull_triangle(n / 3);
    let corner = if n % 3 == 0 {
        corners.0
    } else if n % 3 == 1 {
        corners.1
    } else {
        corners.2
    };
    Vertex::of(hull_point(corner), hull_normal(n / 3), Vec2 { x: 0, y: 0 })
}

/// The built-in hull as a triangle list.
pub open spec fn hull_mesh() -> Seq<Vertex> {
    Seq::new(57, |n: int| hull_vertex(n))
}

/// Corner point `i` of the hull.
fn point(i: usize) -> (p: Vec3)
    requires
        i < 10,
    ensures
        p == hull_point(i as int),
{
    if i == 0 {
        Vec3 { x: 0, y: 0, z: 10_000 }
    } else if i == 1 {
        Vec3 { x: 0, y: 5_000, z: 5_000 }
    } else if i == 2 {
        Vec3 { x: 0, y: -5_000, z: 5_000 }
    } else if i == 3 {
        Vec3 { x: -3_000, y: 0, z: 5_000 }
    } else if i == 4 {
        Vec3 { x: 3_000, y: 0, z: 5_000 }
    } else if i == 5 {
        Vec3 { x: 0, y: 0, z: -10_000 }
    } else if i == 6 {
        Vec3 { x: 0, y: 3_000, z: -5_000 }
    } else if i == 7 {
        Vec3 { x: 0, y: -3_000, z: -5_000 }
    } else if i == 8 {
        Vec3 { x: -2_000, y: 0, z: -5_000 }
    } else {
        Vec3 { x: 2_000, y: 0, z: -5_000 }
    }
}

/// The corner points of triangle `k` of the hull.
fn corners(k: usize) -> (t: (usize, usize, usize))
    requires
        k < HULL_TRIANGLES,
    ensures
        (t.0 as int, t.1 as int, t.2 as int) == hull_triangle(k as int),
        t.0 < 10,
        t.1 < 10,
        t.2 < 10,
{
    if k == 0 {
        (0, 1, 3)
    } else if k == 1 {
        (0, 3, 2)
    } else if k == 2 {
        (0, 2, 4)
    } else if k == 3 {
        (0, 4, 1)
    } else if k == 4 {
        (5, 8, 6)
    } else if k == 5 {
        (5, 7, 8)
    } else if k == 6 {
        (5, 9, 7)
    } else if k == 7 {
        (5, 6, 9)
    } else if k == 8 {
        (1, 4, 9)
    } else if k == 9 {
        (1, 9, 6)
    } else if k == 10 {
        (1, 6, 8)
    } else if k == 11 {
        (1, 8, 3)
    } else if k == 12 {
        (2, 8, 9)
    } else if k == 13 {
        (2, 9, 4)
    } else if k == 14 {
        (2, 3, 8)
    } else if k == 15 {
        (3, 8, 2)
    } else if k == 16 {
        (3, 1, 8)
    } else if k == 17 {
        (4, 2, 9)
    } else {
        (4, 9, 1)
    }
}

/// The normal of triangle `k` of the hull.
fn face_normal(k: usize) -> (n: Vec3)
    ensures
        n == hull_normal(k as int),
{
    if k < 4 {
        Vec3 { x: 0, y: 0, z: UNIT }
    } else if k < 8 {
        Vec3 { x: 0, y: 0, z: -UNIT }
    } else if k < 12 {
        Vec3 { x: 0, y: UNIT, z: 0 }
    } else if k < 15 {
        Vec3 { x: 0, y: -UNIT, z: 0 }
    } else if k < 17 {
        Vec3 { x: -UNIT, y: 0, z: 0 }
    } else {
        Vec3 { x: UNIT, y: 0, z: 0 }
    }
}

/// The built-in hull: a pointed prism of nineteen flat-shaded triangles.
pub fn generate_ship_fallback() -> (mesh: Vec<Vertex>)
    ensures
        mesh@ == hull_mesh(),
{
    let mut mesh: Vec<Vertex> = Vec::new();
    let mut k: usize = 0;
    let zero: Vec2 = Vec2 { x: 0, y: 0 };
    while k < HULL_TRIANGLES
        invariant
            k <= HULL_TRIANGLES,
            zero == (Vec2 { x: 0, y: 0 }),
            mesh@.len() == 3 * k,
            forall|n: int| 0 <= n < mesh@.len() ==> #[trigger] mesh@[n] == hull_vertex(n),
        decreases HULL_TRIANGLES - k,
    {
        let t: (usize, usize, usize) = corners(k);
        let normal: Vec3 = face_normal(k);
        mesh.push(Vertex::new(point(t.0), normal, zero));
        mesh.push(Vertex::new(point(t.1), normal, zero));
        mesh.push(Vertex::new(point(t.2), normal, zero));
        k = k + 1;
    }
    mesh
}

/// The ship's mesh: the loaded model where there is one, the built-in hull
/// otherwise.  A model that could not be loaded is never an error.
pub fn load_ship(loaded: Option<Vec<Vertex>>) -> (r: Result<Vec<Vertex>, String>)
    ensures
        r matches Ok(mesh) && mesh@ == (match loaded {
            Some(model) => model@,
            None => hull_mesh(),
        }),
{
    match loaded {
        Some(model) => Ok(model),
        None => Ok(generate_ship_fallback()),
    }
}

} // verus!
