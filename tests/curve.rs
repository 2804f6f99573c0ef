use bezier_curves::curve::{
    evaluate_cubic, evaluate_linear, evaluate_quadratic, sample_cubic, sample_linear,
    sample_quadratic, SAMPLES,
};
use bezier_curves::point::Point;

fn pt(x: i32, y: i32) -> Point {
    Point::new(x, y)
}

#[test]
fn linear_starts_at_first_point() {
    let p0 = pt(100, 50);
    let p1 = pt(250, 800);
    assert_eq!(evaluate_linear(p0, p1, 0, SAMPLES), p0);
    assert_eq!(evaluate_linear(pt(-7, 3), pt(9, -11), 0, 3), pt(-7, 3));
}

#[test]
fn linear_reaches_last_point_at_one() {
    assert_eq!(evaluate_linear(pt(100, 50), pt(250, 800), SAMPLES, SAMPLES), pt(250, 800));
}

#[test]
fn linear_approaches_last_point() {
    let p0 = pt(0, 0);
    let p1 = pt(1000, -1000);
    let near = evaluate_linear(p0, p1, SAMPLES - 1, SAMPLES);
    assert_eq!(near, pt(999, -999));
}

#[test]
fn linear_midpoint() {
    assert_eq!(evaluate_linear(pt(100, 50), pt(250, 800), 5000, SAMPLES), pt(175, 425));
}

#[test]
fn linear_truncates_toward_zero() {
    assert_eq!(evaluate_linear(pt(0, 0), pt(-3, 3), 1, 2), pt(-1, 1));
    assert_eq!(evaluate_linear(pt(0, 0), pt(-5, 5), 1, 3), pt(-1, 1));
}

#[test]
fn linear_extreme_coordinates() {
    let p0 = pt(i32::MIN, i32::MAX);
    let p1 = pt(i32::MAX, i32::MIN);
    assert_eq!(evaluate_linear(p0, p1, 0, u16::MAX), p0);
    assert_eq!(evaluate_linear(p0, p1, u16::MAX, u16::MAX), p1);
    assert_eq!(evaluate_linear(p0, p1, 1, 2), pt(0, 0));
}

#[test]
fn quadratic_exact_value() {
    assert_eq!(evaluate_quadratic(pt(0, 0), pt(10, 20), pt(20, 0), 1, 4), pt(5, 7));
}

#[test]
fn quadratic_symmetry() {
    let (a, b, c) = (pt(0, 0), pt(10, 20), pt(20, 0));
    for k in 0..=4u16 {
        assert_eq!(evaluate_quadratic(a, b, c, k, 4), evaluate_quadratic(c, b, a, 4 - k, 4));
    }
    let (a, b, c) = (pt(100, 50), pt(250, 800), pt(1300, 200));
    for k in [0u16, 1, 1234, 5000, 9999] {
        assert_eq!(
            evaluate_quadratic(a, b, c, k, SAMPLES),
            evaluate_quadratic(c, b, a, SAMPLES - k, SAMPLES)
        );
    }
}

#[test]
fn cubic_elevates_quadratic() {
    let (q0, q1, q2) = (pt(0, 0), pt(3, 6), pt(6, 0));
    let (e1, e2) = (pt(2, 4), pt(4, 4));
    for k in [0u16, 1, 2500, 3333, 5000, 9999, 10000] {
        assert_eq!(
            evaluate_cubic(q0, e1, e2, q2, k, SAMPLES),
            evaluate_quadratic(q0, q1, q2, k, SAMPLES)
        );
    }
}

#[test]
fn cubic_of_one_point_is_that_point() {
    let p = pt(-1234, 987);
    for k in [0u16, 1, 4999, 5000, 9999] {
        assert_eq!(evaluate_cubic(p, p, p, p, k, SAMPLES), p);
    }
}

#[test]
fn cubic_exact_value() {
    let r = evaluate_cubic(pt(100, 50), pt(250, 800), pt(1300, 200), pt(1500, 800), 5000, SAMPLES);
    assert_eq!(r, pt(781, 481));
}

#[test]
fn degenerate_curve_is_one_point() {
    let p = pt(42, 42);
    let samples = sample_linear(p, p);
    assert!(samples.iter().all(|q| *q == p));
}

#[test]
fn samples_step_through_the_curve() {
    let (a, b, c, d) = (pt(100, 50), pt(250, 800), pt(1300, 200), pt(1500, 800));
    let lin = sample_linear(a, b);
    let quad = sample_quadratic(a, b, c);
    let cub = sample_cubic(a, b, c, d);
    assert_eq!(lin.len(), 10000);
    assert_eq!(quad.len(), 10000);
    assert_eq!(cub.len(), 10000);
    assert_eq!(lin[0], a);
    assert_eq!(quad[0], a);
    assert_eq!(cub[0], a);
    assert_eq!(lin[5000], pt(175, 425));
    assert_eq!(quad[2500], evaluate_quadratic(a, b, c, 2500, SAMPLES));
    assert_eq!(cub[5000], pt(781, 481));
    assert_eq!(cub[9999], evaluate_cubic(a, b, c, d, 9999, SAMPLES));
}
