use space_renderer::noise::fbm;
use space_renderer::noise::hash_vec3;
use space_renderer::noise::noise;
use space_renderer::noise::smoothstep;
use space_renderer::noise::Point;

/// A hash that depends on every digit of its argument.
fn scramble(n: i64) -> i32 {
    let mut x = n as u64;
    x ^= x >> 33;
    x = x.wrapping_mul(0xff51_afd7_ed55_8ccd);
    x ^= x >> 29;
    (x % 10_000) as i32
}

fn seed_of(x: i64, y: i64, z: i64) -> i64 {
    x * 129_898 + y * 782_330 + z * 451_640
}

#[test]
fn hash_is_limited_to_less_than_one() {
    assert_eq!(space_renderer::noise::hash(5, &|_: i64| 4_321), 4_321);
    assert_eq!(space_renderer::noise::hash(5, &|_: i64| 10_000), 9_999);
    assert_eq!(space_renderer::noise::hash(5, &|_: i64| i32::MAX), 9_999);
    assert_eq!(space_renderer::noise::hash(5, &|_: i64| -1), 0);
    assert_eq!(space_renderer::noise::hash(77, &|n: i64| n as i32), 77);
}

#[test]
fn point_is_folded_into_one_scalar() {
    // 12.9898 * 1 + 78.233 * 2 + 45.164 * 3 = 304.9478
    let at_seed = |n: i64| if n == 30_494_780_000 { 1 } else { 2 };
    assert_eq!(hash_vec3(Point { x: 10_000, y: 20_000, z: 30_000 }, &at_seed), 1);
    assert_eq!(hash_vec3(Point { x: 10_000, y: 20_000, z: 30_001 }, &at_seed), 2);
    let negative = |n: i64| if n == -129_898 - 782_330 - 451_640 { 7 } else { 0 };
    assert_eq!(hash_vec3(Point { x: -1, y: -1, z: -1 }, &negative), 7);
}

#[test]
fn smooth_step_eases_between_its_edges() {
    assert_eq!(smoothstep(0, 10_000, 0), 0);
    assert_eq!(smoothstep(0, 10_000, 10_000), 10_000);
    assert_eq!(smoothstep(0, 10_000, 5_000), 5_000);
    assert_eq!(smoothstep(0, 10_000, 2_500), 1_562);
    assert_eq!(smoothstep(0, 10_000, 7_500), 8_437);
    assert_eq!(smoothstep(0, 10_000, -1), 0);
    assert_eq!(smoothstep(0, 10_000, 10_001), 10_000);
    assert_eq!(smoothstep(20_000, 40_000, 30_000), 5_000);
    assert_eq!(smoothstep(40_000, 20_000, 35_000), 1_562);
    assert_eq!(smoothstep(i32::MIN, i32::MAX, 0), 5_000);
}

#[test]
fn noise_on_the_lattice_is_the_hash_of_the_point() {
    for p in [
        Point { x: 0, y: 0, z: 0 },
        Point { x: 20_000, y: 30_000, z: -10_000 },
        Point { x: -70_000, y: 0, z: 1_230_000 },
        Point { x: 1_000_000_000_000, y: -40_000, z: 10_000 },
        Point { x: 5_000_000_000_000, y: -1_000_000_000_000, z: i64::MIN / 10_000 * 10_000 },
    ] {
        assert_eq!(noise(p, &scramble), hash_vec3(p, &scramble));
        let range: i64 = 1_000_000_000_000;
        let seed = seed_of(p.x.clamp(-range, range), p.y.clamp(-range, range), p.z.clamp(-range, range));
        assert_eq!(noise(p, &scramble), scramble(seed));
    }
}

#[test]
fn noise_between_two_corners_is_their_smooth_blend() {
    let a = seed_of(30_000, -20_000, 0);
    let b = seed_of(40_000, -20_000, 0);
    let two = move |n: i64| if n == a { 2_000 } else if n == b { 6_000 } else { 9_999 };
    let at = |x: i64| noise(Point { x, y: -20_000, z: 0 }, &two);
    assert_eq!(at(30_000), 2_000);
    assert_eq!(at(35_000), 4_000);
    // A quarter of the way the smooth weight is 0.15625.
    assert_eq!(at(32_500), 2_624);
    assert_eq!(at(37_500), 5_374);
    assert_eq!(at(39_999), 5_999);
    assert_eq!(at(40_000), 6_000);
}

#[test]
fn noise_blends_all_eight_corners() {
    let cell = |n: i64| {
        // Corners of the cell at (-1, 0, 2): value 1000 * (dx + 2 dy + 4 dz).
        for dz in 0..2 {
            for dy in 0..2 {
                for dx in 0..2 {
                    if n == seed_of((-1 + dx) * 10_000, dy * 10_000, (2 + dz) * 10_000) {
                        return (1_000 * (dx + 2 * dy + 4 * dz)) as i32;
                    }
                }
            }
        }
        9_999
    };
    // The middle of the cell: every weight is one half.
    assert_eq!(noise(Point { x: -5_000, y: 5_000, z: 25_000 }, &cell), 3_500);
    // On the far face in z, in the middle of it.
    assert_eq!(noise(Point { x: -5_000, y: 5_000, z: 29_999 }, &cell), 5_499);
    assert_eq!(noise(Point { x: -10_000, y: 9_999, z: 20_000 }, &cell), 1_999);
}

#[test]
fn noise_stays_in_the_range_of_the_hash() {
    let mut p = Point { x: -123_456_789, y: 987_654, z: 55_555 };
    for _ in 0..200 {
        let v = noise(p, &scramble);
        assert!((0..10_000).contains(&v));
        p = Point { x: p.x + 7_777, y: p.y - 3_333, z: p.z + 1_111 };
    }
}

#[test]
fn noise_limits_far_points_to_its_range() {
    let range: i64 = 1_000_000_000_000;
    let far = Point { x: i64::MAX, y: i64::MIN, z: range + 1 };
    let edge = Point { x: range, y: -range, z: range };
    assert_eq!(noise(far, &scramble), noise(edge, &scramble));
}

#[test]
fn one_octave_is_half_the_noise() {
    for p in [
        Point { x: 12_345, y: -6_789, z: 100 },
        Point { x: 0, y: 0, z: 0 },
        Point { x: -55_555, y: 44_444, z: 33_333 },
        Point { x: i64::MAX, y: 5, z: i64::MIN },
    ] {
        assert_eq!(fbm(p, 1, &scramble), noise(p, &scramble) / 2);
    }
}

#[test]
fn octaves_halve_in_amplitude() {
    let flat = |_: i64| 8_000;
    let p = Point { x: 1, y: 2, z: 3 };
    assert_eq!(fbm(p, 0, &flat), 0);
    assert_eq!(fbm(p, 1, &flat), 4_000);
    assert_eq!(fbm(p, 2, &flat), 6_000);
    assert_eq!(fbm(p, 3, &flat), 7_000);
    assert_eq!(fbm(p, 4, &flat), 7_500);
    let half = |_: i64| 5_000;
    assert_eq!(fbm(p, 4, &half), 4_687);
    assert_eq!(fbm(p, 5, &half), 4_843);
}

#[test]
fn octaves_die_out() {
    let top = |_: i64| 9_999;
    let p = Point { x: 1, y: 2, z: 3 };
    assert_eq!(fbm(p, 13, &top), 9_982);
    assert_eq!(fbm(p, 40, &top), 9_982);
    assert_eq!(fbm(p, u32::MAX, &top), 9_982);
}

#[test]
fn octaves_double_in_frequency() {
    let seen = std::cell::RefCell::new(Vec::new());
    let record = |n: i64| {
        seen.borrow_mut().push(n);
        0
    };
    // On the lattice all eight corners of an octave differ; the first is the
    // point itself.
    fbm(Point { x: 10_000, y: 0, z: 0 }, 3, &record);
    let seen = seen.into_inner();
    assert_eq!(seen.len(), 24);
    assert_eq!(seen[0], seed_of(10_000, 0, 0));
    assert_eq!(seen[8], seed_of(20_000, 0, 0));
    assert_eq!(seen[16], seed_of(40_000, 0, 0));
    // Corners are asked for along x first, then y, then z.
    assert_eq!(seen[1], seed_of(20_000, 0, 0));
    assert_eq!(seen[2], seed_of(10_000, 10_000, 0));
    assert_eq!(seen[4], seed_of(10_000, 0, 10_000));
    assert_eq!(seen[7], seed_of(20_000, 10_000, 10_000));
}
