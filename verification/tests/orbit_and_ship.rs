use space_renderer::color::Color;
use space_renderer::orbit::generate_orbit_path;
use space_renderer::orbit::orbit_shader;
use space_renderer::ship::generate_ship_fallback;
use space_renderer::ship::load_ship;
use space_renderer::vector::Vec2;
use space_renderer::vector::Vec3;
use space_renderer::vertex::Vertex;

fn sin_cos(angle: i32) -> (i32, i32) {
    let a = angle as f64 / 10_000.0;
    ((a.sin() * 10_000.0).round() as i32, (a.cos() * 10_000.0).round() as i32)
}

#[test]
fn orbit_guide_is_a_closed_circle() {
    let path = generate_orbit_path(2_000_000, 4, &sin_cos);
    let points: Vec<Vec3> = path.iter().map(|v| v.position).collect();
    assert_eq!(
        points,
        vec![
            Vec3::new(2_000_000, 0, 0),
            Vec3::new(0, 0, 2_000_000),
            Vec3::new(-2_000_000, 0, 0),
            Vec3::new(0, 0, -2_000_000),
            Vec3::new(2_000_000, 0, 0),
        ]
    );
    for v in path.iter() {
        assert_eq!(v.normal, Vec3::new(0, 10_000, 0));
        assert_eq!(v.tex_coords, Vec2::new(0, 0));
        assert_eq!(v.color, Color::new(0, 0, 0));
    }
}

#[test]
fn orbit_guide_has_one_vertex_more_than_segments() {
    assert_eq!(generate_orbit_path(10_000, 48, &sin_cos).len(), 49);
    assert_eq!(generate_orbit_path(10_000, 1, &sin_cos).len(), 2);
    assert_eq!(generate_orbit_path(0, 7, &sin_cos).len(), 8);
}

#[test]
fn orbit_guide_asks_for_evenly_spaced_angles() {
    let seen = std::cell::RefCell::new(Vec::new());
    let record = |a: i32| {
        seen.borrow_mut().push(a);
        (0, 10_000)
    };
    generate_orbit_path(10_000, 3, &record);
    // Thirds of 2 pi = 6.2832, rounded down.
    assert_eq!(seen.into_inner(), vec![0, 20_944, 41_888, 62_832]);
}

#[test]
fn orbit_guide_limits_what_the_trigonometry_gives() {
    let path = generate_orbit_path(-50_000, 2, &|_| (i32::MIN, i32::MAX));
    assert!(path.iter().all(|v| v.position == Vec3::new(-50_000, 0, 50_000)));
}

#[test]
fn orbit_guides_are_light_blue() {
    let v = Vertex::new(Vec3::new(0, 0, 0), Vec3::new(0, 0, 0), Vec2::new(0, 0));
    let c = orbit_shader(
        &v,
        &v,
        &v,
        Vec3::new(1, 2, 3),
        Vec3::new(4, 5, 6),
        Vec3::new(7, 8, 9),
        Vec2::new(1, 1),
    );
    assert_eq!(c, Color::new(76, 153, 229));
}

#[test]
fn built_in_hull_has_nineteen_triangles() {
    let hull = generate_ship_fallback();
    assert_eq!(hull.len(), 57);
    for v in hull.iter() {
        assert_eq!(v.tex_coords, Vec2::new(0, 0));
        assert_eq!(v.transformed_position, v.position);
        assert_eq!(v.transformed_normal, v.normal);
    }
    let normals: Vec<Vec3> = hull.iter().step_by(3).map(|v| v.normal).collect();
    let mut expected = vec![Vec3::new(0, 0, 10_000); 4];
    expected.extend(vec![Vec3::new(0, 0, -10_000); 4]);
    expected.extend(vec![Vec3::new(0, 10_000, 0); 4]);
    expected.extend(vec![Vec3::new(0, -10_000, 0); 3]);
    expected.extend(vec![Vec3::new(-10_000, 0, 0); 2]);
    expected.extend(vec![Vec3::new(10_000, 0, 0); 2]);
    assert_eq!(normals, expected);
    for triangle in hull.chunks(3) {
        assert_eq!(triangle[0].normal, triangle[1].normal);
        assert_eq!(triangle[0].normal, triangle[2].normal);
    }
}

#[test]
fn built_in_hull_points_forward() {
    let hull = generate_ship_fallback();
    let nose = Vec3::new(0, 0, 10_000);
    let tail = Vec3::new(0, 0, -10_000);
    // The first triangle: nose, top of the front frame, left of it.
    assert_eq!(hull[0].position, nose);
    assert_eq!(hull[1].position, Vec3::new(0, 5_000, 5_000));
    assert_eq!(hull[2].position, Vec3::new(-3_000, 0, 5_000));
    // The front fan starts at the nose, the back fan at the tail.
    for k in 0..4 {
        assert_eq!(hull[3 * k].position, nose);
        assert_eq!(hull[12 + 3 * k].position, tail);
    }
    // The first triangle of the back: tail, left and top of the back frame.
    assert_eq!(hull[13].position, Vec3::new(-2_000, 0, -5_000));
    assert_eq!(hull[14].position, Vec3::new(0, 3_000, -5_000));
    // The last triangle, on the right side.
    assert_eq!(hull[54].position, Vec3::new(3_000, 0, 5_000));
    assert_eq!(hull[55].position, Vec3::new(2_000, 0, -5_000));
    assert_eq!(hull[56].position, Vec3::new(0, 5_000, 5_000));
    // The bottom: front bottom, back left, back right.
    assert_eq!(hull[36].position, Vec3::new(0, -5_000, 5_000));
    assert_eq!(hull[37].position, Vec3::new(-2_000, 0, -5_000));
    assert_eq!(hull[38].position, Vec3::new(2_000, 0, -5_000));
    assert!(hull.iter().all(|v| v.position.x.abs() <= 3_000 && v.position.z.abs() <= 10_000));
    assert!(hull.iter().any(|v| v.position == Vec3::new(0, -3_000, -5_000)));
}

#[test]
fn loaded_model_is_used_as_it_is() {
    let model = vec![
        Vertex::new(Vec3::new(1, 2, 3), Vec3::new(0, 1, 0), Vec2::new(5, 6)),
        Vertex::new(Vec3::new(4, 5, 6), Vec3::new(1, 0, 0), Vec2::new(7, 8)),
    ];
    assert_eq!(load_ship(Some(model.clone())), Ok(model));
    assert_eq!(load_ship(Some(Vec::new())), Ok(Vec::new()));
}

#[test]
fn missing_model_gives_the_built_in_hull() {
    assert_eq!(load_ship(None), Ok(generate_ship_fallback()));
    assert_eq!(load_ship(None).unwrap().len(), 57);
}
