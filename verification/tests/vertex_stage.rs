use space_renderer::color::Color;
use space_renderer::shaders::vertex_shader;
use space_renderer::shaders::ClipVertex;
use space_renderer::shaders::Uniforms;
use space_renderer::vector::Vec2;
use space_renderer::vector::Vec3;
use space_renderer::vertex::Vertex;

const SCREEN: Uniforms = Uniforms { screen_width: 900, screen_height: 600 };

fn clip(x: i32, y: i32, z: i32, w: i32) -> ClipVertex {
    ClipVertex { x, y, z, w, world_position: Vec3::new(0, 0, 0), normal: Vec3::new(0, 0, 0) }
}

fn screen_of(c: ClipVertex) -> Vec3 {
    let v = Vertex::new(Vec3::new(0, 0, 0), Vec3::new(0, 0, 0), Vec2::new(0, 0));
    vertex_shader(&v, &c, &SCREEN).transformed_position
}

#[test]
fn centre_of_the_view_is_the_centre_of_the_screen() {
    assert_eq!(screen_of(clip(0, 0, 0, 10_000)), Vec3::new(4_500_000, 3_000_000, 0));
}

#[test]
fn screen_y_grows_downwards() {
    // (0.5, 0.5) in normalized device coordinates.
    assert_eq!(screen_of(clip(5_000, 5_000, 0, 10_000)).x, 6_750_000);
    assert_eq!(screen_of(clip(5_000, 5_000, 0, 10_000)).y, 1_500_000);
    assert_eq!(screen_of(clip(-10_000, 10_000, 0, 10_000)), Vec3::new(0, 0, 0));
    assert_eq!(screen_of(clip(10_000, -10_000, 0, 10_000)), Vec3::new(9_000_000, 6_000_000, 0));
}

#[test]
fn clip_coordinates_are_divided_by_w() {
    // x / w = 0.25, y / w = -0.5, z / w = 0.75
    let p = screen_of(clip(50_000, -100_000, 150_000, 200_000));
    assert_eq!(p, Vec3::new(5_625_000, 4_500_000, 75_000_000));
    // A negative w mirrors the point.
    let q = screen_of(clip(50_000, -100_000, 150_000, -200_000));
    assert_eq!(q, Vec3::new(3_375_000, 1_500_000, -75_000_000));
}

#[test]
fn division_rounds_down() {
    // 1 / 3 of a unit: x = 0.3333, depth 0.33333333.
    let p = screen_of(clip(10_000, -10_000, 10_000, 30_000));
    assert_eq!(p.x, (3_333 + 10_000) * 900 / 2);
    assert_eq!(p.y, (10_000 + 3_334) * 600 / 2);
    assert_eq!(p.z, 33_333_333);
}

#[test]
fn w_near_zero_divides_as_one() {
    for w in [0, 1, -1] {
        assert_eq!(
            screen_of(clip(2_500, -2_500, 12_345, w)),
            Vec3::new(5_625_000, 3_750_000, 123_450_000)
        );
    }
    // Two ten-thousandths is far enough from zero.
    assert_eq!(screen_of(clip(1, -1, 1, 2)), Vec3::new(6_750_000, 4_500_000, 50_000_000));
    assert_eq!(screen_of(clip(1, -1, 1, -2)), Vec3::new(2_250_000, 1_500_000, -50_000_000));
}

#[test]
fn points_off_the_view_are_limited_to_its_border() {
    assert_eq!(screen_of(clip(30_000, 70_000, 0, 10_000)), Vec3::new(9_000_000, 0, 0));
    assert_eq!(
        screen_of(clip(i32::MIN, i32::MIN, 0, 2)),
        Vec3::new(0, 6_000_000, 0)
    );
    assert_eq!(
        screen_of(clip(i32::MAX, i32::MAX, 0, 0)),
        Vec3::new(9_000_000, 0, 0)
    );
}

#[test]
fn depth_is_limited_to_ten() {
    assert_eq!(screen_of(clip(0, 0, 99_999, 10_000)).z, 999_990_000);
    assert_eq!(screen_of(clip(0, 0, 100_000, 10_000)).z, 1_000_000_000);
    assert_eq!(screen_of(clip(0, 0, 100_001, 10_000)).z, 1_000_000_000);
    assert_eq!(screen_of(clip(0, 0, i32::MIN, 3)).z, -1_000_000_000);
    assert_eq!(screen_of(clip(0, 0, i32::MAX, -3)).z, -1_000_000_000);
}

#[test]
fn depth_keeps_the_order_far_from_the_eye() {
    // Two points at distances 485 and 515 behind a near plane at 0.1: their
    // depths differ in the fifth decimal place only.
    let near = screen_of(clip(0, 0, 4_848_000, 4_850_000)).z;
    let far = screen_of(clip(0, 0, 5_148_000, 5_150_000)).z;
    assert_eq!(near, 99_958_762);
    assert_eq!(far, 99_961_165);
    assert!(near < far);
}

#[test]
fn normal_is_rescaled_and_the_rest_is_kept() {
    let mut v = Vertex::new(Vec3::new(1, 2, 3), Vec3::new(4, 5, 6), Vec2::new(7, 8));
    v.color = Color::new(9, 10, 11);
    let c = ClipVertex {
        x: 0,
        y: 0,
        z: 0,
        w: 10_000,
        world_position: Vec3::new(-5, 6, -7),
        normal: Vec3::new(0, -30, 40),
    };
    let out = vertex_shader(&v, &c, &SCREEN);
    assert_eq!(out.position, Vec3::new(1, 2, 3));
    assert_eq!(out.normal, Vec3::new(4, 5, 6));
    assert_eq!(out.tex_coords, Vec2::new(7, 8));
    assert_eq!(out.color, Color::new(9, 10, 11));
    assert_eq!(out.world_position, Vec3::new(-5, 6, -7));
    assert_eq!(out.transformed_normal, Vec3::new(0, -6_000, 8_000));
    let flat = ClipVertex { normal: Vec3::new(0, 0, 0), ..c };
    assert_eq!(vertex_shader(&v, &flat, &SCREEN).transformed_normal, Vec3::new(0, 0, 0));
}

#[test]
fn empty_screen_puts_everything_at_the_origin() {
    let v = Vertex::new(Vec3::new(0, 0, 0), Vec3::new(0, 0, 0), Vec2::new(0, 0));
    let none = Uniforms { screen_width: 0, screen_height: 0 };
    let out = vertex_shader(&v, &clip(5_000, 5_000, 5_000, 10_000), &none);
    assert_eq!(out.transformed_position, Vec3::new(0, 0, 50_000_000));
    let wide = Uniforms { screen_width: u16::MAX, screen_height: 1 };
    let out = vertex_shader(&v, &clip(10_000, -10_000, 0, 10_000), &wide);
    assert_eq!(out.transformed_position, Vec3::new(655_350_000, 10_000, 0));
}
