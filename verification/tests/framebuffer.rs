use space_renderer::color::Color;
use space_renderer::fragment::Fragment;
use space_renderer::framebuffer::Framebuffer;
use space_renderer::framebuffer::FAR;
use space_renderer::pipeline::draw_triangles;
use space_renderer::pipeline::render;
use space_renderer::pipeline::transform_vertices;
use space_renderer::shaders::ClipVertex;
use space_renderer::shaders::Uniforms;
use space_renderer::triangle::RasterLimits;
use space_renderer::vector::Vec2;
use space_renderer::vector::Vec3;
use space_renderer::vertex::Vertex;

fn on_screen(x: i32, y: i32, z: i32) -> Vertex {
    let mut v = Vertex::new(Vec3::new(z, 0, 0), Vec3::new(0, 0, 0), Vec2::new(0, 0));
    v.transformed_position = Vec3::new(x, y, z);
    v
}

/// A right triangle with legs of `size` pixels at the origin, at one depth.
fn corner(size: i32, depth: i32) -> [Vertex; 3] {
    [
        on_screen(0, 0, depth),
        on_screen(0, size * 10_000, depth),
        on_screen(size * 10_000, 0, depth),
    ]
}

/// Colours a fragment by the depth of its triangle.
fn by_depth(v1: &Vertex, _: &Vertex, _: &Vertex, _: Vec3, _: Vec3, _: Vec3, _: Vec2) -> Color {
    Color::new(0, 0, v1.transformed_position.z as u8)
}

#[test]
fn fresh_framebuffer_is_black_and_infinitely_far() {
    let fb = Framebuffer::new(3, 2);
    assert_eq!((fb.width, fb.height), (3, 2));
    assert_eq!(fb.buffer, vec![0; 6]);
    assert_eq!(fb.zbuffer, vec![FAR; 6]);
    assert_eq!(fb.background_color, 0);
    assert_eq!(FAR, i64::MAX);
    let none = Framebuffer::new(0, 7);
    assert!(none.buffer.is_empty() && none.zbuffer.is_empty());
}

#[test]
fn point_writes_the_current_colour() {
    let mut fb = Framebuffer::new(3, 2);
    fb.set_current_color(0x123456);
    fb.point(2, 1, 50);
    fb.set_current_color(0xABCDEF);
    fb.point(0, 0, -50);
    assert_eq!(fb.buffer, vec![0xABCDEF, 0, 0, 0, 0, 0x123456]);
    assert_eq!(fb.zbuffer, vec![-50, FAR, FAR, FAR, FAR, 50]);
}

#[test]
fn only_a_strictly_nearer_fragment_wins() {
    let mut fb = Framebuffer::new(1, 1);
    fb.set_current_color(1);
    fb.point(0, 0, 100);
    fb.set_current_color(2);
    fb.point(0, 0, 100);
    assert_eq!((fb.buffer[0], fb.zbuffer[0]), (1, 100));
    fb.point(0, 0, 101);
    assert_eq!((fb.buffer[0], fb.zbuffer[0]), (1, 100));
    fb.point(0, 0, 99);
    assert_eq!((fb.buffer[0], fb.zbuffer[0]), (2, 99));
    fb.set_current_color(3);
    fb.point(0, 0, FAR);
    assert_eq!((fb.buffer[0], fb.zbuffer[0]), (2, 99));
    fb.point(0, 0, i64::MIN);
    assert_eq!((fb.buffer[0], fb.zbuffer[0]), (3, i64::MIN));
}

#[test]
fn nothing_is_ever_drawn_at_the_far_depth() {
    let mut fb = Framebuffer::new(1, 1);
    fb.set_current_color(9);
    fb.point(0, 0, FAR);
    assert_eq!((fb.buffer[0], fb.zbuffer[0]), (0, FAR));
}

#[test]
fn points_off_the_grid_change_nothing() {
    let mut fb = Framebuffer::new(3, 2);
    fb.set_current_color(7);
    fb.point(3, 0, 1);
    fb.point(0, 2, 1);
    fb.point(usize::MAX, usize::MAX, 1);
    assert_eq!(fb.buffer, vec![0; 6]);
    assert_eq!(fb.zbuffer, vec![FAR; 6]);
    // A fragment left of or above the grid is off the grid too.
    fb.draw(&Fragment::new(-1, 0, Color::new(1, 1, 1), 5));
    fb.draw(&Fragment::new(0, -1, Color::new(1, 1, 1), 5));
    fb.draw(&Fragment::new(i32::MIN, i32::MAX, Color::new(1, 1, 1), 5));
    assert_eq!(fb.buffer, vec![0; 6]);
    assert_eq!(fb.current_color, 0x010101);
}

#[test]
fn fragment_is_drawn_in_its_own_colour() {
    let mut fb = Framebuffer::new(2, 2);
    fb.draw(&Fragment::new(1, 0, Color::new(0x11, 0x22, 0x33), 8));
    fb.draw(&Fragment::new(1, 0, Color::new(0x44, 0x55, 0x66), 9));
    fb.draw(&Fragment::new(0, 1, Color::new(0x77, 0x88, 0x99), -3));
    assert_eq!(fb.buffer, vec![0, 0x112233, 0x778899, 0]);
    assert_eq!(fb.zbuffer, vec![FAR, 8, -3, FAR]);
}

#[test]
fn clearing_forgets_colours_and_depths() {
    let mut fb = Framebuffer::new(2, 1);
    fb.set_current_color(5);
    fb.point(0, 0, 1);
    fb.set_background_color(0x000011);
    fb.clear();
    assert_eq!(fb.buffer, vec![0x000011; 2]);
    assert_eq!(fb.zbuffer, vec![FAR; 2]);
    assert_eq!(fb.current_color, 5);
    fb.point(1, 0, 1);
    fb.clear_to_color(0xFF00FF);
    assert_eq!(fb.buffer, vec![0xFF00FF; 2]);
    assert_eq!(fb.zbuffer, vec![FAR; 2]);
    assert_eq!(fb.background_color, 0x000011);
}

#[test]
fn mesh_is_drawn_three_vertices_at_a_time() {
    let mut fb = Framebuffer::new(4, 4);
    let mut mesh: Vec<Vertex> = Vec::new();
    mesh.extend(corner(4, 50));
    draw_triangles(&mut fb, &mesh, &by_depth, &RasterLimits::for_framebuffer(4, 4, 1_000));
    let expected: Vec<u32> = vec![
        50, 50, 50, 50,
        50, 50, 50, 0,
        50, 50, 0, 0,
        50, 0, 0, 0,
    ];
    assert_eq!(fb.buffer, expected);
    assert_eq!(fb.zbuffer.iter().filter(|&&z| z == 50).count(), 10);
}

#[test]
fn nearer_triangle_hides_the_farther_whatever_the_order() {
    let limits = RasterLimits::for_framebuffer(4, 4, 1_000);
    let mut near_first: Vec<Vertex> = Vec::new();
    near_first.extend(corner(2, 10));
    near_first.extend(corner(4, 20));
    let mut far_first: Vec<Vertex> = Vec::new();
    far_first.extend(corner(4, 20));
    far_first.extend(corner(2, 10));
    let expected: Vec<u32> = vec![
        10, 10, 20, 20,
        10, 20, 20, 0,
        20, 20, 0, 0,
        20, 0, 0, 0,
    ];
    let mut a = Framebuffer::new(4, 4);
    draw_triangles(&mut a, &near_first, &by_depth, &limits);
    assert_eq!(a.buffer, expected);
    let mut b = Framebuffer::new(4, 4);
    draw_triangles(&mut b, &far_first, &by_depth, &limits);
    assert_eq!(b.buffer, expected);
    assert_eq!(a.zbuffer, b.zbuffer);
}

#[test]
fn left_over_vertices_are_ignored() {
    let limits = RasterLimits::for_framebuffer(4, 4, 1_000);
    let mut fb = Framebuffer::new(4, 4);
    let mut mesh: Vec<Vertex> = Vec::new();
    mesh.extend(corner(2, 10));
    mesh.extend(&corner(4, 20)[..2]);
    draw_triangles(&mut fb, &mesh, &by_depth, &limits);
    assert_eq!(fb.buffer.iter().filter(|&&c| c == 10).count(), 3);
    assert_eq!(fb.buffer.iter().filter(|&&c| c == 20).count(), 0);
    let mut empty = Framebuffer::new(4, 4);
    draw_triangles(&mut empty, &mesh[..2].to_vec(), &by_depth, &limits);
    draw_triangles(&mut empty, &Vec::new(), &by_depth, &limits);
    assert_eq!(empty.buffer, vec![0; 16]);
}

#[test]
fn fragments_off_the_framebuffer_are_dropped() {
    // The standard region is larger than this framebuffer.
    let mut fb = Framebuffer::new(2, 2);
    let mut mesh: Vec<Vertex> = Vec::new();
    mesh.extend(corner(4, 30));
    draw_triangles(&mut fb, &mesh, &by_depth, &RasterLimits::standard());
    assert_eq!(fb.buffer, vec![30; 4]);
    // A triangle left of the screen reaches the region but not the grid.
    let mut left = Framebuffer::new(2, 2);
    let off: Vec<Vertex> = vec![
        on_screen(-500_000, 0, 40),
        on_screen(-500_000, 500_000, 40),
        on_screen(-1, 0, 40),
    ];
    draw_triangles(&mut left, &off, &by_depth, &RasterLimits::standard());
    assert_eq!(left.buffer, vec![0; 4]);
}

#[test]
fn ceiling_holds_for_each_triangle() {
    let mut fb = Framebuffer::new(4, 4);
    let mut mesh: Vec<Vertex> = Vec::new();
    mesh.extend(corner(4, 20));
    mesh.extend(corner(4, 10));
    draw_triangles(&mut fb, &mesh, &by_depth, &RasterLimits::for_framebuffer(4, 4, 2));
    let expected: Vec<u32> = vec![
        10, 10, 0, 0,
        0, 0, 0, 0,
        0, 0, 0, 0,
        0, 0, 0, 0,
    ];
    assert_eq!(fb.buffer, expected);
}

/// Model positions are clip positions already, and w is one.
fn plain_clip(v: &Vertex) -> ClipVertex {
    ClipVertex {
        x: v.position.x,
        y: v.position.y,
        z: v.position.z,
        w: 10_000,
        world_position: v.position,
        normal: v.normal,
    }
}

#[test]
fn vertex_stage_runs_for_every_vertex() {
    let screen = Uniforms { screen_width: 4, screen_height: 4 };
    let mesh = vec![
        Vertex::new(Vec3::new(-10_000, 10_000, 1), Vec3::new(0, 0, 3), Vec2::new(1, 2)),
        Vertex::new(Vec3::new(0, 0, 2), Vec3::new(0, 0, 0), Vec2::new(3, 4)),
    ];
    let out = transform_vertices(&mesh, &plain_clip, &screen);
    assert_eq!(out.len(), 2);
    assert_eq!(out[0].transformed_position, Vec3::new(0, 0, 10_000));
    assert_eq!(out[0].transformed_normal, Vec3::new(0, 0, 10_000));
    assert_eq!(out[0].world_position, Vec3::new(-10_000, 10_000, 1));
    assert_eq!(out[0].tex_coords, Vec2::new(1, 2));
    assert_eq!(out[1].transformed_position, Vec3::new(20_000, 20_000, 20_000));
    assert_eq!(out[1].position, Vec3::new(0, 0, 2));
    assert!(transform_vertices(&Vec::new(), &plain_clip, &screen).is_empty());
}

#[test]
fn draw_call_goes_from_mesh_to_pixels() {
    let screen = Uniforms { screen_width: 4, screen_height: 4 };
    let limits = RasterLimits::for_framebuffer(4, 4, 1_000);
    // The upper left half of the view, at depth 0.3, and in front of it a
    // small triangle in the upper left corner, at depth 0.2.
    let mesh = vec![
        Vertex::new(Vec3::new(-10_000, 10_000, 3_000), Vec3::new(0, 0, 0), Vec2::new(0, 0)),
        Vertex::new(Vec3::new(-10_000, -10_000, 3_000), Vec3::new(0, 0, 0), Vec2::new(0, 0)),
        Vertex::new(Vec3::new(10_000, 10_000, 3_000), Vec3::new(0, 0, 0), Vec2::new(0, 0)),
        Vertex::new(Vec3::new(-10_000, 10_000, 2_000), Vec3::new(0, 0, 0), Vec2::new(0, 0)),
        Vertex::new(Vec3::new(-10_000, 0, 2_000), Vec3::new(0, 0, 0), Vec2::new(0, 0)),
        Vertex::new(Vec3::new(0, 10_000, 2_000), Vec3::new(0, 0, 0), Vec2::new(0, 0)),
        Vertex::new(Vec3::new(0, 0, 1), Vec3::new(0, 0, 0), Vec2::new(0, 0)),
    ];
    let by_model_depth =
        |v1: &Vertex, _: &Vertex, _: &Vertex, _: Vec3, _: Vec3, _: Vec3, _: Vec2| {
            Color::new(0, 0, (v1.position.z / 100) as u8)
        };
    let mut fb = Framebuffer::new(4, 4);
    render(&mut fb, &screen, &mesh, &plain_clip, &by_model_depth, &limits);
    let expected: Vec<u32> = vec![
        20, 20, 30, 30,
        20, 30, 30, 0,
        30, 30, 0, 0,
        30, 0, 0, 0,
    ];
    assert_eq!(fb.buffer, expected);
    assert_eq!(fb.zbuffer[0], 20_000_000);
    assert_eq!(fb.zbuffer[2], 30_000_000);
    assert_eq!(fb.zbuffer[15], space_renderer::framebuffer::FAR);
}
