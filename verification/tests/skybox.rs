use space_renderer::color::Color;
use space_renderer::skybox::generate_skybox_vertices;
use space_renderer::skybox::skybox_shader_procedural;
use space_renderer::skybox::skybox_shader_textured;
use space_renderer::skybox::triangulate_grid;
use space_renderer::skybox::Skybox;
use space_renderer::skybox::SkyboxSlot;
use space_renderer::texture::Texture;
use space_renderer::texture::TextureError;
use space_renderer::vector::Vec2;
use space_renderer::vector::Vec3;
use space_renderer::vertex::Vertex;

fn sin_cos(angle: i32) -> (i32, i32) {
    let a = angle as f64 / 10_000.0;
    ((a.sin() * 10_000.0).round() as i32, (a.cos() * 10_000.0).round() as i32)
}

fn blank() -> Vertex {
    Vertex::new(Vec3::new(0, 0, 0), Vec3::new(0, 0, 0), Vec2::new(0, 0))
}

fn procedural(model_position: Vec3, hash: &dyn Fn(i64) -> i32) -> Color {
    let v = blank();
    skybox_shader_procedural(
        &v,
        &v,
        &v,
        model_position,
        Vec3::new(1, 2, 3),
        Vec3::new(4, 5, 6),
        Vec2::new(7, 8),
        &hash,
    )
}

fn textured(
    slot: &SkyboxSlot,
    model_position: Vec3,
    heading: (i32, i32),
    star_hash: i32,
) -> Color {
    let v = blank();
    skybox_shader_textured(
        &v,
        &v,
        &v,
        model_position,
        Vec3::new(1, 2, 3),
        Vec3::new(4, 5, 6),
        Vec2::new(7, 8),
        slot,
        &|_: Vec3| heading,
        &|_: i64| star_hash,
    )
}

fn quad_sky() -> Skybox {
    let raw: Vec<u8> = vec![255, 0, 0, 0, 255, 0, 0, 0, 255, 255, 255, 255];
    let image = image::DynamicImage::ImageRgb8(image::RgbImage::from_raw(2, 2, raw).unwrap());
    let mut bytes: Vec<u8> = Vec::new();
    image.write_to(&mut std::io::Cursor::new(&mut bytes), image::ImageFormat::Png).unwrap();
    Skybox::load(&bytes).unwrap()
}

#[test]
fn sky_image_is_loaded_from_encoded_bytes() {
    let sky = quad_sky();
    assert_eq!((sky.texture.width, sky.texture.height), (2, 2));
    assert_eq!(sky.texture.data, vec![0xFF0000, 0x00FF00, 0x0000FF, 0xFFFFFF]);
    assert!(matches!(Skybox::load(b"no image"), Err(TextureError::Decode(_))));
}

#[test]
fn slot_is_bound_and_cleared() {
    let mut slot = SkyboxSlot::new();
    assert!(slot.bound.is_none());
    let sky = quad_sky();
    sky.set_active(&mut slot);
    assert_eq!(slot.bound.as_ref().unwrap().data, sky.texture.data);
    let other = Skybox {
        texture: std::sync::Arc::new(Texture::from_pixels(1, 1, &vec![(1, 1, 1)]).unwrap()),
    };
    other.set_active(&mut slot);
    assert_eq!(slot.bound.as_ref().unwrap().data, vec![0x010101]);
    Skybox::clear_active(&mut slot);
    assert!(slot.bound.is_none());
}

#[test]
fn star_field_has_three_bands() {
    let dir = Vec3::new(0, 0, 5);
    assert_eq!(procedural(dir, &|_| 9_999), Color::new(255, 255, 249));
    assert_eq!(procedural(dir, &|_| 9_951), Color::new(255, 255, 5));
    assert_eq!(procedural(dir, &|_| 9_950), Color::new(127, 127, 127));
    assert_eq!(procedural(dir, &|_| 9_875), Color::new(63, 63, 63));
    assert_eq!(procedural(dir, &|_| 9_801), Color::new(0, 0, 0));
    assert_eq!(procedural(dir, &|_| 9_800), Color::new(2, 2, 5));
    assert_eq!(procedural(dir, &|_| 0), Color::new(2, 2, 5));
}

#[test]
fn star_field_limits_the_hash() {
    let dir = Vec3::new(0, 0, 5);
    assert_eq!(procedural(dir, &|_| i32::MAX), Color::new(255, 255, 249));
    assert_eq!(procedural(dir, &|_| -7), Color::new(2, 2, 5));
}

#[test]
fn star_field_hashes_the_direction_only() {
    // 100 x + 200 y + 300 z of the direction of length one.
    let along_z = |n: i64| if n == 30_000_000_000 { 9_999 } else { 0 };
    assert_eq!(procedural(Vec3::new(0, 0, 5), &along_z), Color::new(255, 255, 249));
    assert_eq!(procedural(Vec3::new(0, 0, 123_456), &along_z), Color::new(255, 255, 249));
    assert_eq!(procedural(Vec3::new(0, 0, -5), &along_z), Color::new(2, 2, 5));
    let slanted = |n: i64| if n == (100 * 6_000 - 200 * 8_000) * 10_000 { 9_950 } else { 0 };
    assert_eq!(procedural(Vec3::new(30, -40, 0), &slanted), Color::new(127, 127, 127));
}

#[test]
fn textured_sky_reads_the_bound_image() {
    let mut slot = SkyboxSlot::new();
    quad_sky().set_active(&mut slot);
    let p = Vec3::new(1, 0, 0);
    // yaw 0, pitch 0: the middle of the image, which is the last texel's own place.
    assert_eq!(textured(&slot, p, (0, 0), 9_999), Color::new(255, 255, 255));
    // yaw -pi, pitch pi / 2: the first texel.
    assert_eq!(textured(&slot, p, (-31_416, 15_708), 9_999), Color::new(255, 0, 0));
    // yaw +pi: the right edge; pitch -pi / 2: the bottom edge.
    assert_eq!(textured(&slot, p, (31_416, -15_708), 9_999), Color::new(255, 255, 255));
    // yaw -pi / 2: a quarter along; pitch pi / 2: top row; half red, half green.
    assert_eq!(textured(&slot, p, (-15_708, 15_708), 9_999), Color::new(127, 127, 0));
}

#[test]
fn textured_sky_asks_for_the_heading_of_the_direction() {
    let mut slot = SkyboxSlot::new();
    quad_sky().set_active(&mut slot);
    let v = blank();
    let heading = |d: Vec3| if d == Vec3::new(0, 6_000, -8_000) { (-31_416, 15_708) } else { (0, 0) };
    let c = skybox_shader_textured(
        &v,
        &v,
        &v,
        Vec3::new(0, 300, -400),
        Vec3::new(0, 0, 0),
        Vec3::new(0, 0, 0),
        Vec2::new(0, 0),
        &slot,
        &heading,
        &|_: i64| 0,
    );
    assert_eq!(c, Color::new(255, 0, 0));
}

#[test]
fn textured_sky_falls_back_to_the_star_field() {
    let slot = SkyboxSlot::new();
    assert_eq!(textured(&slot, Vec3::new(0, 0, 5), (0, 0), 9_999), Color::new(255, 255, 249));
    assert_eq!(textured(&slot, Vec3::new(0, 0, 5), (0, 0), 12), Color::new(2, 2, 5));
    let mut bound = SkyboxSlot::new();
    quad_sky().set_active(&mut bound);
    Skybox::clear_active(&mut bound);
    assert_eq!(textured(&bound, Vec3::new(0, 0, 5), (0, 0), 9_950), Color::new(127, 127, 127));
}

#[test]
fn grid_cells_become_two_triangles_each() {
    let grid: Vec<Vertex> = (0..9)
        .map(|i| Vertex::new(Vec3::new(i, 0, 0), Vec3::new(0, 0, 0), Vec2::new(0, 0)))
        .collect();
    let triangles = triangulate_grid(&grid, 2);
    let order: Vec<i32> = triangles.iter().map(|v| v.position.x).collect();
    assert_eq!(
        order,
        vec![0, 1, 3, 1, 4, 3, 1, 2, 4, 2, 5, 4, 3, 4, 6, 4, 7, 6, 4, 5, 7, 5, 8, 7]
    );
    let single: Vec<Vertex> = grid[..4].to_vec();
    let order: Vec<i32> = triangulate_grid(&single, 1).iter().map(|v| v.position.x).collect();
    assert_eq!(order, vec![0, 1, 2, 1, 3, 2]);
    assert!(triangulate_grid(&grid[..1].to_vec(), 0).is_empty());
}

#[test]
fn sky_sphere_is_seen_from_inside() {
    let sphere = generate_skybox_vertices(&sin_cos);
    assert_eq!(sphere.len(), 6 * 16 * 16);
    // The first triangle: the pole twice and the first vertex of the next row.
    assert_eq!(sphere[0].position, Vec3::new(0, 8_000_000, 0));
    assert_eq!(sphere[0].normal, Vec3::new(0, -10_000, 0));
    assert_eq!(sphere[0].tex_coords, Vec2::new(0, 0));
    assert_eq!(sphere[1].position, Vec3::new(0, 8_000_000, 0));
    assert_eq!(sphere[1].tex_coords, Vec2::new(625, 0));
    assert_eq!(sphere[2].position, Vec3::new(1_560_000, 7_846_400, 0));
    assert_eq!(sphere[2].normal, Vec3::new(-1_950, -9_808, 0));
    assert_eq!(sphere[2].tex_coords, Vec2::new(0, 625));
    // The last triangle ends on row 16, column 15.
    let last = sphere[sphere.len() - 1];
    assert_eq!(last.tex_coords, Vec2::new(9_375, 10_000));
    assert_eq!(last.position.y, -8_000_000);
    for v in sphere.iter() {
        assert_eq!(v.transformed_position, v.position);
        assert_eq!(v.color, Color::new(0, 0, 0));
        let p = v.position;
        let n = v.normal;
        // The normal points back at the centre.
        let along = p.x as i64 * n.x as i64 + p.y as i64 * n.y as i64 + p.z as i64 * n.z as i64;
        assert!(along < 0);
    }
}

#[test]
fn sky_sphere_limits_what_the_trigonometry_gives() {
    let wild = |_: i32| (i32::MAX, i32::MIN);
    let sphere = generate_skybox_vertices(&wild);
    assert_eq!(sphere.len(), 1_536);
    // sin = 1, cos = -1 everywhere.
    assert!(sphere.iter().all(|v| v.position == Vec3::new(-8_000_000, -8_000_000, 8_000_000)));
}

#[test]
fn sky_image_is_made_of_a_texture() {
    let texture = Texture::from_pixels(2, 1, &vec![(1, 2, 3), (4, 5, 6)]).unwrap();
    let sky = Skybox::from_texture(texture);
    assert_eq!((sky.texture.width, sky.texture.height), (2, 1));
    assert_eq!(sky.texture.data, vec![0x010203, 0x040506]);
    let mut slot = SkyboxSlot::new();
    sky.set_active(&mut slot);
    assert_eq!(slot.bound.as_ref().unwrap().data, vec![0x010203, 0x040506]);
}
