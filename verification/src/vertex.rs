//! The per-vertex attribute bundle that flows through the pipeline.
use vstd::prelude::*;
use crate::color::Color;
use crate::vector::Vec2;
use crate::vector::Vec3;

verus! {

/// A mesh vertex.
///
/// `position`, `normal`, `tex_coords` and `color` are given by the mesh.
/// `transformed_position` (screen x and y in fixed-point pixels, z a relative
/// depth key), `transformed_normal` and `world_position` are filled in by the
/// vertex stage and mean nothing before it has run.
#[derive(Clone, Copy, Debug, PartialEq, Eq, Structural)]
pub struct Vertex {
    pub position: Vec3,
    pub normal: Vec3,
    pub tex_coords: Vec2,
    pub color: Color,
    pub transformed_position: Vec3,
    pub transformed_normal: Vec3,
    pub world_position: Vec3,
}

impl Vertex {
    /// A black mesh vertex whose derived fields repeat the given ones.
    pub open spec fn of(position: Vec3, normal: Vec3, tex_coords: Vec2) -> Vertex {
        Vertex {
            position,
            normal,
            tex_coords,
            color: Color { r: 0, g: 0, b: 0 },
            transformed_position: position,
            transformed_normal: normal,
            world_position: position,
        }
    }

    /// A black mesh vertex whose derived fields repeat the given ones.
    pub fn new(position: Vec3, normal: Vec3, tex_coords: Vec2) -> (v: Vertex)
        ensures
            v == Vertex::of(position, normal, tex_coords),
    {
        Vertex {
            position,
            normal,
            tex_coords,
            color: Color::black(),
            transformed_position: position,
            transformed_normal: normal,
            world_position: position,
        }
    }
}

} // verus!
