use stroke_compose::CubicBezier;
use stroke_compose::InputSample;
use stroke_compose::QuadBezier;
use stroke_compose::Vec2;
use stroke_compose::cubic_bezier_w_catmull_rom;
use stroke_compose::filter_prepare_line_from_input;
use stroke_compose::split_cubic_bezier;
use stroke_compose::vector2_unit_norm;

fn v(x: i64, y: i64) -> Vec2 {
    Vec2 { x, y }
}

fn sample(x: i64, y: i64) -> InputSample {
    InputSample { pos: v(x, y) }
}

#[test]
fn unit_norm_of_axis_vectors() {
    assert_eq!(vector2_unit_norm(v(10_000, 0)), v(0, -1000));
    assert_eq!(vector2_unit_norm(v(-10_000, 0)), v(0, 1000));
    assert_eq!(vector2_unit_norm(v(0, 5000)), v(1000, 0));
}

#[test]
fn unit_norm_of_diagonal_vector() {
    // A 3-4-5 triangle: the normal is exact on the fixed-point grid.
    assert_eq!(vector2_unit_norm(v(3000, 4000)), v(800, -600));
}

#[test]
fn split_produces_shared_midpoint() {
    let c = CubicBezier {
        start: v(0, 0),
        cp1: v(4000, 0),
        cp2: v(8000, 4000),
        end: v(8000, 8000),
    };
    let (first, second) = split_cubic_bezier(c);
    assert_eq!(first.start, v(0, 0));
    assert_eq!(first.cp1, v(3000, 0));
    assert_eq!(first.end, v(5500, 2500));
    assert_eq!(second.start, v(5500, 2500));
    assert_eq!(second.cp1, v(8000, 5000));
    assert_eq!(second.end, v(8000, 8000));
}

#[test]
fn collinear_samples_fit_a_straight_segment() {
    // Samples at x = 0, 1, 2, 3 units on the axis: the fitted cubic runs
    // from (1, 0) to (2, 0) with both control points on the same line.
    let c = cubic_bezier_w_catmull_rom(
        &sample(0, 0),
        &sample(1000, 0),
        &sample(2000, 0),
        &sample(3000, 0),
    )
    .unwrap();
    assert_eq!(c.start, v(1000, 0));
    assert_eq!(c.end, v(2000, 0));
    assert_eq!(c.cp1, v(1333, 0));
    assert_eq!(c.cp2, v(1667, 0));
    assert_eq!(c.cp1.y, 0);
    assert_eq!(c.cp2.y, 0);
}

#[test]
fn overlong_first_handle_is_rescaled() {
    // The first handle is 2 units long, the second 0: longer by more than
    // one unit, so it is shrunk to the second handle's length (zero).
    let c = cubic_bezier_w_catmull_rom(
        &sample(0, 0),
        &sample(0, 0),
        &sample(12_000, 0),
        &sample(0, 0),
    )
    .unwrap();
    assert_eq!(c.start, v(0, 0));
    assert_eq!(c.cp1, v(0, 0));
    assert_eq!(c.cp2, v(12_000, 0));
    assert_eq!(c.end, v(12_000, 0));
}

#[test]
fn identical_positions_give_no_line() {
    let p = sample(123, -456);
    assert!(filter_prepare_line_from_input(&p, &p, v(50, 60)).is_none());
    assert!(filter_prepare_line_from_input(&p, &p, v(0, 0)).is_none());
}

#[test]
fn distinct_positions_give_the_translated_line() {
    let l = filter_prepare_line_from_input(&sample(0, 0), &sample(1000, 0), v(10, 20)).unwrap();
    assert_eq!(l.start, v(10, 20));
    assert_eq!(l.end, v(1010, 20));
}

#[test]
fn quad_fields_carry_through() {
    let q = QuadBezier { start: v(1, 2), cp1: v(3, 4), end: v(5, 6) };
    assert_eq!(q.start, v(1, 2));
    assert_eq!(q.cp1, v(3, 4));
    assert_eq!(q.end, v(5, 6));
}
