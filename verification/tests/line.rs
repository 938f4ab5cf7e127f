use space_renderer::color::Color;
use space_renderer::fragment::Fragment;
use space_renderer::vector::Vec2;
use space_renderer::vector::Vec3;
use space_renderer::vertex::Vertex;

fn on_screen(x: i32, y: i32, z: i32) -> Vertex {
    let mut v = Vertex::new(Vec3::new(0, 0, 0), Vec3::new(0, 0, 0), Vec2::new(0, 0));
    v.transformed_position = Vec3::new(x, y, z);
    v
}

fn pixels(fragments: &[Fragment]) -> Vec<(i32, i32)> {
    fragments.iter().map(|f| (f.x, f.y)).collect()
}

#[test]
fn shallow_line_steps_along_x() {
    let f = space_renderer::line::line(&on_screen(0, 0, 0), &on_screen(50_000, 20_000, 0));
    assert_eq!(pixels(&f), vec![(0, 0), (1, 0), (2, 1), (3, 1), (4, 2), (5, 2)]);
}

#[test]
fn steep_line_steps_along_y() {
    let f = space_renderer::line::line(&on_screen(0, 0, 0), &on_screen(20_000, 50_000, 0));
    assert_eq!(pixels(&f), vec![(0, 0), (0, 1), (1, 2), (1, 3), (2, 4), (2, 5)]);
}

#[test]
fn diagonal_line_steps_both_axes() {
    let f = space_renderer::line::line(&on_screen(10_000, 10_000, 0), &on_screen(40_000, 40_000, 0));
    assert_eq!(pixels(&f), vec![(1, 1), (2, 2), (3, 3), (4, 4)]);
}

#[test]
fn line_runs_backwards_too() {
    let f = space_renderer::line::line(&on_screen(50_000, 20_000, 0), &on_screen(0, 0, 0));
    assert_eq!(pixels(&f), vec![(5, 2), (4, 2), (3, 1), (2, 1), (1, 0), (0, 0)]);
}

#[test]
fn line_between_equal_pixels_is_one_fragment() {
    let f = space_renderer::line::line(&on_screen(31_000, 72_000, 5), &on_screen(39_999, 70_001, 9));
    assert_eq!(pixels(&f), vec![(3, 7)]);
}

#[test]
fn horizontal_and_vertical_lines_include_both_ends() {
    let h = space_renderer::line::line(&on_screen(-20_000, 30_000, 0), &on_screen(10_000, 30_000, 0));
    assert_eq!(pixels(&h), vec![(-2, 3), (-1, 3), (0, 3), (1, 3)]);
    let v = space_renderer::line::line(&on_screen(20_000, 10_000, 0), &on_screen(20_000, -10_000, 0));
    assert_eq!(pixels(&v), vec![(2, 1), (2, 0), (2, -1)]);
}

#[test]
fn pixel_fraction_is_cut_off_towards_zero() {
    let f = space_renderer::line::line(&on_screen(-5_000, -19_999, 0), &on_screen(19_999, 9_999, 0));
    assert_eq!(pixels(&f), vec![(0, -1), (1, 0)]);
}

#[test]
fn coordinates_are_limited_before_stepping() {
    let f = space_renderer::line::line(&on_screen(i32::MAX, 0, 0), &on_screen(199_980_000, 0, 0));
    assert_eq!(pixels(&f), vec![(20_000, 0), (19_999, 0), (19_998, 0)]);
    let g = space_renderer::line::line(&on_screen(i32::MIN, 10_000, 0), &on_screen(-99_990_000, 10_000, 0));
    assert_eq!(pixels(&g), vec![(-10_000, 1), (-9_999, 1)]);
}

#[test]
fn depth_is_interpolated_along_screen_x() {
    let f = space_renderer::line::line(&on_screen(0, 0, 0), &on_screen(100_000, 0, 1_000));
    let depths: Vec<i64> = f.iter().map(|f| f.depth).collect();
    assert_eq!(depths, vec![0, 100, 200, 300, 400, 500, 600, 700, 800, 900, 1_000]);
}

#[test]
fn depth_is_taken_at_the_pixel_not_at_the_start_coordinate() {
    // Start at x = 2.5 pixels: pixel 2 lies half a pixel before the start.
    let f = space_renderer::line::line(&on_screen(25_000, 0, 1_000), &on_screen(45_000, 0, 3_000));
    let depths: Vec<i64> = f.iter().map(|f| f.depth).collect();
    assert_eq!(depths, vec![500, 1_500, 2_500]);
}

#[test]
fn depth_of_a_vertical_line_divides_by_one() {
    // The span in x is zero, so the divisor is one whole pixel.
    let f = space_renderer::line::line(&on_screen(30_000, 0, 100), &on_screen(30_000, 20_000, 700));
    let depths: Vec<i64> = f.iter().map(|f| f.depth).collect();
    assert_eq!(depths, vec![100, 100, 100]);
    let g = space_renderer::line::line(&on_screen(35_000, 0, 100), &on_screen(35_001, 20_000, 700));
    let depths: Vec<i64> = g.iter().map(|f| f.depth).collect();
    // (700 - 100) * (30000 - 35000) / 10000 = -300
    assert_eq!(depths, vec![-200, -200, -200]);
}

#[test]
fn depth_with_a_negative_span_rounds_down() {
    let f = space_renderer::line::line(&on_screen(30_000, 0, 0), &on_screen(0, 0, 10));
    let depths: Vec<i64> = f.iter().map(|f| f.depth).collect();
    // 10 * (px * 10000 - 30000) / -30000 = 0, 3.33, 6.67, 10, rounded down
    assert_eq!(depths, vec![0, 3, 6, 10]);
}

#[test]
fn line_fragments_are_white() {
    let f = space_renderer::line::line(&on_screen(0, 0, 0), &on_screen(20_000, 0, 0));
    assert!(f.iter().all(|f| f.color == Color::new(255, 255, 255)));
}
