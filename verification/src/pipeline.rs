//! The stages of a draw call: every vertex goes through the vertex stage,
//! the transformed vertices are taken three at a time, each triangle is
//! rasterized and shaded, and the fragments are written to the framebuffer
//! through its depth test.
//!
//! The matrix products of the vertex stage are the caller's: `to_clip` maps
//! a mesh vertex to its clip-space position, world position and normal.
use vstd::prelude::*;
use crate::color::Color;
use crate::fragment::Fragment;
use crate::framebuffer::Canvas;
use crate::framebuffer::Framebuffer;
use crate::shaders::ClipVertex;
use crate::shaders::Uniforms;
use crate::shaders::shaded_vertex;
use crate::shaders::vertex_shader;
use crate::triangle::RasterLimits;
use crate::triangle::samples;
use crate::triangle::shaded;
use crate::triangle::triangle_with_shader;
use crate::vector::Vec2;
use crate::vector::Vec3;
use crate::vertex::Vertex;

verus! {

/// `fragments` is what the shader `f` makes of the triangle `v1`, `v2`,
/// `v3`: one fragment for each sample, in scan order.
pub open spec fn is_triangle_output<F: Fn(&Vertex, &Vertex, &Vertex, Vec3, Vec3, Vec3, Vec2) -> Color>(
    f: F,
    v1: Vertex,
    v2: Vertex,
    v3: Vertex,
    limits: RasterLimits,
    fragments: Seq<Fragment>,
) -> bool {
    &&& fragments.len() == samples(v1, v2, v3, limits).len()
    &&& forall|i: int|
        0 <= i < fragments.len() ==> shaded(
            f,
            &v1,
            &v2,
            &v3,
            samples(v1, v2, v3, limits)[i],
            #[trigger] fragments[i],
        )
}

/// `last` is the output of triangle `k` of the mesh and `fragments` is
/// `before` followed by it.
pub open spec fn extends_by_triangle<F: Fn(&Vertex, &Vertex, &Vertex, Vec3, Vec3, Vec3, Vec2) -> Color>(
    f: F,
    vertices: Seq<Vertex>,
    limits: RasterLimits,
    k: int,
    before: Seq<Fragment>,
    last: Seq<Fragment>,
    fragments: Seq<Fragment>,
) -> bool {
    &&& is_triangle_output(f, vertices[3 * k], vertices[3 * k + 1], vertices[3 * k + 2], limits, last)
    &&& fragments == before + last
}

/// `fragments` is what the shader `f` makes of the first `count` triangles
/// of a mesh, triangle after triangle.  Triangle `k` is made of the vertices
/// `3 k`, `3 k + 1` and `3 k + 2`.
pub open spec fn is_mesh_output<F: Fn(&Vertex, &Vertex, &Vertex, Vec3, Vec3, Vec3, Vec2) -> Color>(
    f: F,
    vertices: Seq<Vertex>,
    limits: RasterLimits,
    count: nat,
    fragments: Seq<Fragment>,
) -> bool
    decreases count,
{
    if count == 0 {
        fragments.len() == 0
    } else {
        exists|before: Seq<Fragment>, last: Seq<Fragment>|
            is_mesh_output(f, vertices, limits, (count - 1) as nat, before)
                && #[trigger] extends_by_triangle(
                f,
                vertices,
                limits,
                count - 1,
                before,
                last,
                fragments,
            )
    }
}

/// Writing a series of fragments and then one more is writing the longer
/// series.
proof fn lemma_one_more_fragment(canvas: Canvas, fragments: Seq<Fragment>, next: Fragment)
    ensures
        canvas.with_fragments(fragments.push(next)) == canvas.with_fragments(fragments).with_fragment(
            next,
        ),
{
    assert(fragments.push(next).drop_last() =~= fragments);
}

/// Draws a mesh of transformed vertices: every three vertices make a
/// triangle, left-over vertices at the end are ignored, and every fragment
/// goes through the depth test of the framebuffer.
pub fn draw_triangles<F: Fn(&Vertex, &Vertex, &Vertex, Vec3, Vec3, Vec3, Vec2) -> Color>(
    framebuffer: &mut Framebuffer,
    vertex_array: &Vec<Vertex>,
    fragment_shader: &F,
    limits: &RasterLimits,
)
    requires
        old(framebuffer).wf(),
        forall|v1: &Vertex, v2: &Vertex, v3: &Vertex, p: Vec3, w: Vec3, n: Vec3, t: Vec2|
            call_requires(*fragment_shader, (v1, v2, v3, p, w, n, t)),
    ensures
        final(framebuffer).wf(),
        exists|fragments: Seq<Fragment>|
            #[trigger] is_mesh_output(
                *fragment_shader,
                vertex_array@,
                *limits,
                (vertex_array@.len() / 3) as nat,
                fragments,
            ) && final(framebuffer)@ == old(framebuffer)@.with_fragments(fragments),
{
    let len: usize = vertex_array.len();
    let count: usize = len / 3;
    let ghost mut drawn: Seq<Fragment> = Seq::empty();
    let mut k: usize = 0;
    while k < count
        invariant
            len == vertex_array@.len(),
            count == len / 3,
            k <= count,
            framebuffer.wf(),
            forall|v1: &Vertex, v2: &Vertex, v3: &Vertex, p: Vec3, w: Vec3, n: Vec3, t: Vec2|
                call_requires(*fragment_shader, (v1, v2, v3, p, w, n, t)),
            is_mesh_output(*fragment_shader, vertex_array@, *limits, k as nat, drawn),
            framebuffer@ == old(framebuffer)@.with_fragments(drawn),
        decreases count - k,
    {
        let v1: &Vertex = &vertex_array[3 * k];
        let v2: &Vertex = &vertex_array[3 * k + 1];
        let v3: &Vertex = &vertex_array[3 * k + 2];
        let fragments: Vec<Fragment> = triangle_with_shader(v1, v2, v3, fragment_shader, limits);
        let ghost before = drawn;
        let mut i: usize = 0;
        while i < fragments.len()
            invariant
                i <= fragments@.len(),
                framebuffer.wf(),
                drawn == before + fragments@.take(i as int),
                framebuffer@ == old(framebuffer)@.with_fragments(drawn),
            decreases fragments@.len() - i,
        {
            framebuffer.draw(&fragments[i]);
            proof {
                lemma_one_more_fragment(old(framebuffer)@, drawn, fragments@[i as int]);
                drawn = drawn.push(fragments@[i as int]);
            }
            i = i + 1;
        }
        proof {
            assert(fragments@.take(fragments@.len() as int) =~= fragments@);
            assert(is_triangle_output(
                *fragment_shader,
                vertex_array@[3 * k],
                vertex_array@[3 * k + 1],
                vertex_array@[3 * k + 2],
                *limits,
                fragments@,
            ));
            assert(extends_by_triangle(
                *fragment_shader,
                vertex_array@,
                *limits,
                (k + 1) as nat - 1,
                before,
                fragments@,
                drawn,
            ));
            assert(is_mesh_output(
                *fragment_shader,
                vertex_array@,
                *limits,
                ((k + 1) as nat - 1) as nat,
                before,
            ));
        }
        k = k + 1;
    }
}

/// `out` is what the vertex stage makes of the mesh vertex `v`, for a clip
/// vertex that `to_clip` gives for it.
pub open spec fn is_transformed<C: Fn(&Vertex) -> ClipVertex>(to_clip: C, uniforms: Uniforms, v: Vertex, out: Vertex) -> bool {
    exists|clip: ClipVertex| #[trigger] call_ensures(to_clip, (&v,), clip) && out == shaded_vertex(v, clip, uniforms)
}

/// `output` is the mesh `input` after the vertex stage, vertex by vertex.
pub open spec fn is_vertex_stage<C: Fn(&Vertex) -> ClipVertex>(
    to_clip: C,
    uniforms: Uniforms,
    input: Seq<Vertex>,
    output: Seq<Vertex>,
) -> bool {
    &&& output.len() == input.len()
    &&& forall|i: int|
        0 <= i < input.len() ==> is_transformed(to_clip, uniforms, input[i], #[trigger] output[i])
}

/// `transformed` is the mesh after the vertex stage and `fragments` is what
/// the fragment shader makes of its triangles.
pub open spec fn is_draw_call<
    C: Fn(&Vertex) -> ClipVertex,
    F: Fn(&Vertex, &Vertex, &Vertex, Vec3, Vec3, Vec3, Vec2) -> Color,
>(
    to_clip: C,
    fragment_shader: F,
    uniforms: Uniforms,
    limits: RasterLimits,
    mesh: Seq<Vertex>,
    transformed: Seq<Vertex>,
    fragments: Seq<Fragment>,
) -> bool {
    &&& is_vertex_stage(to_clip, uniforms, mesh, transformed)
    &&& is_mesh_output(fragment_shader, transformed, limits, (mesh.len() / 3) as nat, fragments)
}

/// Takes every vertex of a mesh through the vertex stage.
pub fn transform_vertices<C: Fn(&Vertex) -> ClipVertex>(
    vertex_array: &Vec<Vertex>,
    to_clip: &C,
    uniforms: &Uniforms,
) -> (transformed: Vec<Vertex>)
    requires
        forall|v: &Vertex| call_requires(*to_clip, (v,)),
    ensures
        is_vertex_stage(*to_clip, *uniforms, vertex_array@, transformed@),
{
    let mut transformed: Vec<Vertex> = Vec::new();
    let mut i: usize = 0;
    while i < vertex_array.len()
        invariant
            i <= vertex_array@.len(),
            transformed@.len() == i,
            forall|v: &Vertex| call_requires(*to_clip, (v,)),
            forall|k: int|
                0 <= k < i ==> is_transformed(
                    *to_clip,
                    *uniforms,
                    vertex_array@[k],
                    #[trigger] transformed@[k],
                ),
        decreases vertex_array@.len() - i,
    {
        let vertex: &Vertex = &vertex_array[i];
        let clip: ClipVertex = to_clip(vertex);
        let out: Vertex = vertex_shader(vertex, &clip, uniforms);
        transformed.push(out);
        i = i + 1;
    }
    transformed
}

/// One draw call: the vertex stage for every vertex of the mesh, then the
/// triangles of the transformed mesh, rasterized, shaded and written to the
/// framebuffer.
pub fn render<
    C: Fn(&Vertex) -> ClipVertex,
    F: Fn(&Vertex, &Vertex, &Vertex, Vec3, Vec3, Vec3, Vec2) -> Color,
>(
    framebuffer: &mut Framebuffer,
    uniforms: &Uniforms,
    vertex_array: &Vec<Vertex>,
    to_clip: &C,
    fragment_shader: &F,
    limits: &RasterLimits,
)
    requires
        old(framebuffer).wf(),
        forall|v: &Vertex| call_requires(*to_clip, (v,)),
        forall|v1: &Vertex, v2: &Vertex, v3: &Vertex, p: Vec3, w: Vec3, n: Vec3, t: Vec2|
            call_requires(*fragment_shader, (v1, v2, v3, p, w, n, t)),
    ensures
        final(framebuffer).wf(),
        exists|transformed: Seq<Vertex>, fragments: Seq<Fragment>|
            #[trigger] is_draw_call(
                *to_clip,
                *fragment_shader,
                *uniforms,
                *limits,
                vertex_array@,
                transformed,
                fragments,
            ) && final(framebuffer)@ == old(framebuffer)@.with_fragments(fragments),
{
    let transformed: Vec<Vertex> = transform_vertices(vertex_array, to_clip, uniforms);
    draw_triangles(framebuffer, &transformed, fragment_shader, limits);
    proof {
        let fragments = choose|fragments: Seq<Fragment>|
            #[trigger] is_mesh_output(
                *fragment_shader,
                transformed@,
                *limits,
                (transformed@.len() / 3) as nat,
                fragments,
            ) && framebuffer@ == old(framebuffer)@.with_fragments(fragments);
        assert(is_draw_call(
            *to_clip,
            *fragment_shader,
            *uniforms,
            *limits,
            vertex_array@,
            transformed@,
            fragments,
        ));
    }
}

} // verus!
