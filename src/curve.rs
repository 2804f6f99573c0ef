//! Bezier curves of degree one to three, evaluated exactly on the integer grid.
//!
//! The curve parameter is the fraction `t = num / den` with `num <= den`. Each
//! coordinate is the affine blend of the control points' coordinates with the
//! Bernstein weights at `t`, computed without rounding and then truncated toward
//! zero to a whole pixel.
use vstd::prelude::*;
use vstd::arithmetic::div_mod::{
    lemma_div_by_multiple,
    lemma_div_denominator,
    lemma_div_is_ordered,
    lemma_div_multiples_vanish,
};
use crate::point::Point;

verus! {

/// Number of samples taken along a curve: `t` runs over `i / SAMPLES` for
/// `i` in `0..SAMPLES`, a step of one ten-thousandth that stops short of 1.
pub const SAMPLES: u16 = 10000;

/// Division that discards the fraction, rounding toward zero.
pub open spec fn trunc_div(a: int, d: int) -> int {
    if a >= 0 {
        a / d
    } else {
        -((-a) / d)
    }
}

/// `(1-t)·a + t·b` at `t = k/n`, scaled by `n`.
pub open spec fn linear_num(a: int, b: int, k: int, n: int) -> int {
    (n - k) * a + k * b
}

/// `(1-t)²·a + 2(1-t)t·b + t²·c` at `t = k/n`, scaled by `n²`.
pub open spec fn quadratic_num(a: int, b: int, c: int, k: int, n: int) -> int {
    (n - k) * (n - k) * a + 2 * (n - k) * k * b + k * k * c
}

/// `(1-t)³·a + 3(1-t)²t·b + 3(1-t)t²·c + t³·d` at `t = k/n`, scaled by `n³`.
pub open spec fn cubic_num(a: int, b: int, c: int, d: int, k: int, n: int) -> int {
    (n - k) * (n - k) * (n - k) * a + 3 * ((n - k) * (n - k) * k) * b + 3 * ((n - k) * k * k) * c
        + k * k * k * d
}

/// One coordinate of the linear curve at `t = k/n`, truncated to the grid.
pub open spec fn linear_value(a: int, b: int, k: int, n: int) -> int {
    trunc_div(linear_num(a, b, k, n), n)
}

/// One coordinate of the quadratic curve at `t = k/n`, truncated to the grid.
pub open spec fn quadratic_value(a: int, b: int, c: int, k: int, n: int) -> int {
    trunc_div(quadratic_num(a, b, c, k, n), n * n)
}

/// One coordinate of the cubic curve at `t = k/n`, truncated to the grid.
pub open spec fn cubic_value(a: int, b: int, c: int, d: int, k: int, n: int) -> int {
    trunc_div(cubic_num(a, b, c, d, k, n), n * n * n)
}

/// Whether `t = k/n` is a parameter on the closed unit interval.
pub open spec fn valid_param(k: int, n: int) -> bool {
    0 <= k <= n && 0 < n
}

proof fn lemma_term_range(c: int, v: int)
    requires
        0 <= c,
        i32::MIN <= v <= i32::MAX,
    ensures
        c * i32::MIN <= c * v <= c * i32::MAX,
{
    assert(c * i32::MIN <= c * v <= c * i32::MAX) by (nonlinear_arith)
        requires
            0 <= c,
            i32::MIN <= v <= i32::MAX,
    ;
}

proof fn lemma_product_bound(a: int, b: int)
    requires
        0 <= a <= 65535,
        0 <= b <= 65535,
    ensures
        0 <= a * b <= 65535 * 65535,
{
    assert(0 <= a * b <= 65535 * 65535) by (nonlinear_arith)
        requires
            0 <= a <= 65535,
            0 <= b <= 65535,
    ;
}

proof fn lemma_triple_bound(a: int, b: int, c: int)
    requires
        0 <= a <= 65535,
        0 <= b <= 65535,
        0 <= c <= 65535,
    ensures
        0 <= a * b * c <= 65535 * 65535 * 65535,
{
    lemma_product_bound(a, b);
    assert(0 <= a * b * c <= 65535 * 65535 * 65535) by (nonlinear_arith)
        requires
            0 <= a * b <= 65535 * 65535,
            0 <= c <= 65535,
    ;
}

proof fn lemma_positive_powers(n: int)
    requires
        0 < n,
    ensures
        0 < n * n,
        0 < n * n * n,
{
    assert(0 < n * n && 0 < n * n * n) by (nonlinear_arith)
        requires
            0 < n,
    ;
}

/// `c · v` for a weight `c` below `2^50`.
fn weigh(c: i128, v: i32) -> (r: i128)
    requires
        0 <= c <= 0x4_0000_0000_0000,
    ensures
        r == c * v,
        c * i32::MIN <= r <= c * i32::MAX,
{
    proof {
        lemma_term_range(c as int, v as int);
    }
    c * (v as i128)
}

/// The quotient `num / den` truncated toward zero, for a quotient that fits in `i32`.
fn trunc_quotient(num: i128, den: i128) -> (r: i32)
    requires
        0 < den <= 0x4_0000_0000_0000,
        den * i32::MIN <= num <= den * i32::MAX,
    ensures
        r == trunc_div(num as int, den as int),
{
    if num >= 0 {
        let q: u128 = (num as u128) / (den as u128);
        proof {
            lemma_div_is_ordered(num as int, den * i32::MAX, den as int);
            lemma_div_by_multiple(i32::MAX as int, den as int);
            assert(den * i32::MAX == i32::MAX * den) by (nonlinear_arith);
        }
        q as i32
    } else {
        let q: u128 = ((-num) as u128) / (den as u128);
        proof {
            lemma_div_is_ordered(-num, den * 0x8000_0000, den as int);
            lemma_div_by_multiple(0x8000_0000, den as int);
            assert(den * 0x8000_0000 == 0x8000_0000 * den) by (nonlinear_arith);
        }
        (-(q as i64)) as i32
    }
}

/// The quadratic Bernstein weights at `t = k/n` sum to one.
pub proof fn lemma_quadratic_weights(m: int, k: int, n: int)
    requires
        m + k == n,
    ensures
        m * m + 2 * m * k + k * k == n * n,
{
    assert(m * m + 2 * m * k + k * k == n * n) by (nonlinear_arith)
        requires
            m + k == n,
    ;
}

/// The cubic Bernstein weights at `t = k/n` sum to one.
pub proof fn lemma_cubic_weights(m: int, k: int, n: int)
    requires
        m + k == n,
    ensures
        m * m * m + 3 * (m * m * k) + 3 * (m * k * k) + k * k * k == n * n * n,
{
    assert(m * m * m + 3 * (m * m * k) + 3 * (m * k * k) + k * k * k == n * n * n)
        by (nonlinear_arith)
        requires
            m + k == n,
    ;
}

fn linear_component(a: i32, b: i32, k: u16, n: u16) -> (r: i32)
    requires
        valid_param(k as int, n as int),
    ensures
        r == linear_value(a as int, b as int, k as int, n as int),
{
    let m: i128 = (n - k) as i128;
    let kk: i128 = k as i128;
    let num = weigh(m, a) + weigh(kk, b);
    trunc_quotient(num, n as i128)
}

fn quadratic_component(a: i32, b: i32, c: i32, k: u16, n: u16) -> (r: i32)
    requires
        valid_param(k as int, n as int),
    ensures
        r == quadratic_value(a as int, b as int, c as int, k as int, n as int),
{
    let m: i128 = (n - k) as i128;
    let kk: i128 = k as i128;
    let nn: i128 = n as i128;
    proof {
        lemma_product_bound(m as int, m as int);
        lemma_product_bound(m as int, kk as int);
        lemma_product_bound(kk as int, kk as int);
        lemma_product_bound(nn as int, nn as int);
        lemma_positive_powers(nn as int);
        lemma_quadratic_weights(m as int, kk as int, nn as int);
    }
    let num = weigh(m * m, a) + weigh(2 * m * kk, b) + weigh(kk * kk, c);
    trunc_quotient(num, nn * nn)
}

fn cubic_component(a: i32, b: i32, c: i32, d: i32, k: u16, n: u16) -> (r: i32)
    requires
        valid_param(k as int, n as int),
    ensures
        r == cubic_value(a as int, b as int, c as int, d as int, k as int, n as int),
{
    let m: i128 = (n - k) as i128;
    let kk: i128 = k as i128;
    let nn: i128 = n as i128;
    proof {
        lemma_product_bound(m as int, m as int);
        lemma_product_bound(m as int, kk as int);
        lemma_product_bound(kk as int, kk as int);
        lemma_product_bound(nn as int, nn as int);
        lemma_triple_bound(m as int, m as int, m as int);
        lemma_triple_bound(m as int, m as int, kk as int);
        lemma_triple_bound(m as int, kk as int, kk as int);
        lemma_triple_bound(kk as int, kk as int, kk as int);
        lemma_triple_bound(nn as int, nn as int, nn as int);
        lemma_positive_powers(nn as int);
        lemma_cubic_weights(m as int, kk as int, nn as int);
    }
    let num = weigh(m * m * m, a) + weigh(3 * (m * m * kk), b) + weigh(3 * (m * kk * kk), c) + weigh(
        kk * kk * kk,
        d,
    );
    trunc_quotient(num, nn * nn * nn)
}

/// The linear Bezier curve through `p0` and `p1` at `t = num / den`:
/// `(1-t)·p0 + t·p1`, each coordinate truncated toward zero.
pub fn evaluate_linear(p0: Point, p1: Point, num: u16, den: u16) -> (r: Point)
    requires
        valid_param(num as int, den as int),
    ensures
        r.x == linear_value(p0.x as int, p1.x as int, num as int, den as int),
        r.y == linear_value(p0.y as int, p1.y as int, num as int, den as int),
{
    Point { x: linear_component(p0.x, p1.x, num, den), y: linear_component(p0.y, p1.y, num, den) }
}

/// The quadratic Bezier curve with control points `p0`, `p1`, `p2` at
/// `t = num / den`: `(1-t)²·p0 + 2(1-t)t·p1 + t²·p2`, each coordinate truncated
/// toward zero.
pub fn evaluate_quadratic(p0: Point, p1: Point, p2: Point, num: u16, den: u16) -> (r: Point)
    requires
        valid_param(num as int, den as int),
    ensures
        r.x == quadratic_value(p0.x as int, p1.x as int, p2.x as int, num as int, den as int),
        r.y == quadratic_value(p0.y as int, p1.y as int, p2.y as int, num as int, den as int),
{
    Point {
        x: quadratic_component(p0.x, p1.x, p2.x, num, den),
        y: quadratic_component(p0.y, p1.y, p2.y, num, den),
    }
}

/// The cubic Bezier curve with control points `p0` to `p3` at `t = num / den`:
/// `(1-t)³·p0 + 3(1-t)²t·p1 + 3(1-t)t²·p2 + t³·p3`, each coordinate truncated
/// toward zero.
pub fn evaluate_cubic(p0: Point, p1: Point, p2: Point, p3: Point, num: u16, den: u16) -> (r:
    Point)
    requires
        valid_param(num as int, den as int),
    ensures
        r.x == cubic_value(
            p0.x as int,
            p1.x as int,
            p2.x as int,
            p3.x as int,
            num as int,
            den as int,
        ),
        r.y == cubic_value(
            p0.y as int,
            p1.y as int,
            p2.y as int,
            p3.y as int,
            num as int,
            den as int,
        ),
{
    Point {
        x: cubic_component(p0.x, p1.x, p2.x, p3.x, num, den),
        y: cubic_component(p0.y, p1.y, p2.y, p3.y, num, den),
    }
}

/// The points of the linear curve through `p0` and `p1` at `t = i / SAMPLES`
/// for each `i` in `0..SAMPLES`, in order of increasing `t`.
pub fn sample_linear(p0: Point, p1: Point) -> (r: Vec<Point>)
    ensures
        r.len() == SAMPLES,
        forall|i: int|
            #![trigger r[i]]
            0 <= i < SAMPLES ==> r[i].x == linear_value(p0.x as int, p1.x as int, i, SAMPLES as int)
                && r[i].y == linear_value(p0.y as int, p1.y as int, i, SAMPLES as int),
{
    let mut r: Vec<Point> = Vec::new();
    let mut i: u16 = 0;
    while i < SAMPLES
        invariant
            i <= SAMPLES,
            r.len() == i,
            forall|j: int|
                #![trigger r[j]]
                0 <= j < i ==> r[j].x == linear_value(p0.x as int, p1.x as int, j, SAMPLES as int)
                    && r[j].y == linear_value(p0.y as int, p1.y as int, j, SAMPLES as int),
        decreases SAMPLES - i,
    {
        r.push(evaluate_linear(p0, p1, i, SAMPLES));
        i = i + 1;
    }
    r
}

/// The points of the quadratic curve with control points `p0`, `p1`, `p2` at
/// `t = i / SAMPLES` for each `i` in `0..SAMPLES`, in order of increasing `t`.
pub fn sample_quadratic(p0: Point, p1: Point, p2: Point) -> (r: Vec<Point>)
    ensures
        r.len() == SAMPLES,
        forall|i: int|
            #![trigger r[i]]
            0 <= i < SAMPLES ==> r[i].x == quadratic_value(
                p0.x as int,
                p1.x as int,
                p2.x as int,
                i,
                SAMPLES as int,
            ) && r[i].y == quadratic_value(p0.y as int, p1.y as int, p2.y as int, i, SAMPLES as int),
{
    let mut r: Vec<Point> = Vec::new();
    let mut i: u16 = 0;
    while i < SAMPLES
        invariant
            i <= SAMPLES,
            r.len() == i,
            forall|j: int|
                #![trigger r[j]]
                0 <= j < i ==> r[j].x == quadratic_value(
                    p0.x as int,
                    p1.x as int,
                    p2.x as int,
                    j,
                    SAMPLES as int,
                ) && r[j].y == quadratic_value(
                    p0.y as int,
                    p1.y as int,
                    p2.y as int,
                    j,
                    SAMPLES as int,
                ),
        decreases SAMPLES - i,
    {
        r.push(evaluate_quadratic(p0, p1, p2, i, SAMPLES));
        i = i + 1;
    }
    r
}

/// The points of the cubic curve with control points `p0` to `p3` at
/// `t = i / SAMPLES` for each `i` in `0..SAMPLES`, in order of increasing `t`.
pub fn sample_cubic(p0: Point, p1: Point, p2: Point, p3: Point) -> (r: Vec<Point>)
    ensures
        r.len() == SAMPLES,
        forall|i: int|
            #![trigger r[i]]
            0 <= i < SAMPLES ==> r[i].x == cubic_value(
                p0.x as int,
                p1.x as int,
                p2.x as int,
                p3.x as int,
                i,
                SAMPLES as int,
            ) && r[i].y == cubic_value(
                p0.y as int,
                p1.y as int,
                p2.y as int,
                p3.y as int,
                i,
                SAMPLES as int,
            ),
{
    let mut r: Vec<Point> = Vec::new();
    let mut i: u16 = 0;
    while i < SAMPLES
        invariant
            i <= SAMPLES,
            r.len() == i,
            forall|j: int|
                #![trigger r[j]]
                0 <= j < i ==> r[j].x == cubic_value(
                    p0.x as int,
                    p1.x as int,
                    p2.x as int,
                    p3.x as int,
                    j,
                    SAMPLES as int,
                ) && r[j].y == cubic_value(
                    p0.y as int,
                    p1.y as int,
                    p2.y as int,
                    p3.y as int,
                    j,
                    SAMPLES as int,
                ),
        decreases SAMPLES - i,
    {
        r.push(evaluate_cubic(p0, p1, p2, p3, i, SAMPLES));
        i = i + 1;
    }
    r
}

/// Scaling numerator and denominator by the same positive factor leaves the
/// truncated quotient unchanged.
proof fn lemma_trunc_div_cancel(a: int, c: int, d: int)
    requires
        0 < c,
        0 < d,
    ensures
        trunc_div(c * a, c * d) == trunc_div(a, d),
{
    if a >= 0 {
        assert(c * a >= 0) by (nonlinear_arith)
            requires
                0 < c,
                a >= 0,
        ;
        lemma_div_denominator(c * a, c, d);
        lemma_div_multiples_vanish(a, c);
    } else {
        assert(-(c * a) == c * (-a)) by (nonlinear_arith);
        assert(c * (-a) >= 0) by (nonlinear_arith)
            requires
                0 < c,
                a < 0,
        ;
        lemma_div_denominator(c * (-a), c, d);
        lemma_div_multiples_vanish(-a, c);
    }
}

/// A whole multiple of the denominator divides exactly.
proof fn lemma_trunc_div_exact(a: int, d: int)
    requires
        0 < d,
    ensures
        trunc_div(d * a, d) == a,
{
    lemma_trunc_div_cancel(a, d, 1);
    assert(d * 1 == d);
}

/// The linear curve starts at `p0` for `t = 0`, and tends to `p1` as `t`
/// approaches 1, reaching it exactly at `t = 1`.
pub proof fn lemma_linear_endpoints(p0: Point, p1: Point, n: int)
    requires
        0 < n,
    ensures
        linear_value(p0.x as int, p1.x as int, 0, n) == p0.x,
        linear_value(p0.y as int, p1.y as int, 0, n) == p0.y,
        linear_value(p0.x as int, p1.x as int, n, n) == p1.x,
        linear_value(p0.y as int, p1.y as int, n, n) == p1.y,
{
    lemma_trunc_div_exact(p0.x as int, n);
    lemma_trunc_div_exact(p0.y as int, n);
    lemma_trunc_div_exact(p1.x as int, n);
    lemma_trunc_div_exact(p1.y as int, n);
}

/// The quadratic curve is unchanged by reversing its control points and
/// replacing `t` with `1 - t`.
pub proof fn lemma_quadratic_symmetry(p0: Point, p1: Point, p2: Point, k: int, n: int)
    requires
        valid_param(k, n),
    ensures
        quadratic_value(p0.x as int, p1.x as int, p2.x as int, k, n) == quadratic_value(
            p2.x as int,
            p1.x as int,
            p0.x as int,
            n - k,
            n,
        ),
        quadratic_value(p0.y as int, p1.y as int, p2.y as int, k, n) == quadratic_value(
            p2.y as int,
            p1.y as int,
            p0.y as int,
            n - k,
            n,
        ),
{
    assert forall|a: int, b: int, c: int|
        #![trigger quadratic_num(a, b, c, k, n)]
        quadratic_num(a, b, c, k, n) == quadratic_num(c, b, a, n - k, n) by {
        assert((n - k) * (n - k) * a + 2 * (n - k) * k * b + k * k * c == (n - (n - k)) * (n - (n
            - k)) * c + 2 * (n - (n - k)) * (n - k) * b + (n - k) * (n - k) * a)
            by (nonlinear_arith);
    }
}

proof fn lemma_elevated_num(q0: int, q1: int, q2: int, e1: int, e2: int, k: int, n: int)
    requires
        3 * e1 == q0 + 2 * q1,
        3 * e2 == 2 * q1 + q2,
    ensures
        cubic_num(q0, e1, e2, q2, k, n) == n * quadratic_num(q0, q1, q2, k, n),
{
    let m = n - k;
    assert(3 * (m * m * k) * e1 == m * m * k * (q0 + 2 * q1)) by (nonlinear_arith)
        requires
            3 * e1 == q0 + 2 * q1,
    ;
    assert(3 * (m * k * k) * e2 == m * k * k * (2 * q1 + q2)) by (nonlinear_arith)
        requires
            3 * e2 == 2 * q1 + q2,
    ;
    assert(m * m * k * (q0 + 2 * q1) == m * m * k * q0 + 2 * (m * m * k * q1)) by (nonlinear_arith);
    assert(m * k * k * (2 * q1 + q2) == 2 * (m * k * k * q1) + m * k * k * q2) by (nonlinear_arith);
    assert(m * m * m * q0 + m * m * k * q0 == (m + k) * (m * m * q0)) by (nonlinear_arith);
    assert(2 * (m * m * k * q1) + 2 * (m * k * k * q1) == (m + k) * (2 * m * k * q1))
        by (nonlinear_arith);
    assert(m * k * k * q2 + k * k * k * q2 == (m + k) * (k * k * q2)) by (nonlinear_arith);
    assert((m + k) * (m * m * q0) + (m + k) * (2 * m * k * q1) + (m + k) * (k * k * q2) == (m + k)
        * (m * m * q0 + 2 * m * k * q1 + k * k * q2)) by (nonlinear_arith);
}

/// Degree elevation: the cubic curve whose inner control points are
/// `e1 = (p0 + 2·p1) / 3` and `e2 = (2·p1 + p2) / 3` is the quadratic curve
/// with control points `p0`, `p1`, `p2`, wherever those inner points lie on the
/// integer grid.
pub proof fn lemma_cubic_elevates_quadratic(
    p0: Point,
    p1: Point,
    p2: Point,
    e1: Point,
    e2: Point,
    k: int,
    n: int,
)
    requires
        valid_param(k, n),
        3 * e1.x == p0.x + 2 * p1.x,
        3 * e1.y == p0.y + 2 * p1.y,
        3 * e2.x == 2 * p1.x + p2.x,
        3 * e2.y == 2 * p1.y + p2.y,
    ensures
        cubic_value(p0.x as int, e1.x as int, e2.x as int, p2.x as int, k, n) == quadratic_value(
            p0.x as int,
            p1.x as int,
            p2.x as int,
            k,
            n,
        ),
        cubic_value(p0.y as int, e1.y as int, e2.y as int, p2.y as int, k, n) == quadratic_value(
            p0.y as int,
            p1.y as int,
            p2.y as int,
            k,
            n,
        ),
{
    lemma_elevated_num(p0.x as int, p1.x as int, p2.x as int, e1.x as int, e2.x as int, k, n);
    lemma_elevated_num(p0.y as int, p1.y as int, p2.y as int, e1.y as int, e2.y as int, k, n);
    lemma_positive_powers(n);
    assert(n * n * n == n * (n * n)) by (nonlinear_arith);
    lemma_trunc_div_cancel(quadratic_num(p0.x as int, p1.x as int, p2.x as int, k, n), n, n * n);
    lemma_trunc_div_cancel(quadratic_num(p0.y as int, p1.y as int, p2.y as int, k, n), n, n * n);
}

/// The cubic weights are an affine combination: they sum to one at every `t`,
/// so a cubic curve whose four control points coincide is that single point.
pub proof fn lemma_cubic_affine(p: Point, k: int, n: int)
    requires
        valid_param(k, n),
    ensures
        (n - k) * (n - k) * (n - k) + 3 * ((n - k) * (n - k) * k) + 3 * ((n - k) * k * k) + k * k * k
            == n * n * n,
        cubic_value(p.x as int, p.x as int, p.x as int, p.x as int, k, n) == p.x,
        cubic_value(p.y as int, p.y as int, p.y as int, p.y as int, k, n) == p.y,
{
    let m = n - k;
    lemma_cubic_weights(m, k, n);
    lemma_positive_powers(n);
    assert forall|a: int| #[trigger] cubic_num(a, a, a, a, k, n) == (n * n * n) * a by {
        assert(m * m * m * a + 3 * (m * m * k) * a + 3 * (m * k * k) * a + k * k * k * a == (m * m
            * m + 3 * (m * m * k) + 3 * (m * k * k) + k * k * k) * a) by (nonlinear_arith);
    }
    lemma_trunc_div_exact(p.x as int, n * n * n);
    lemma_trunc_div_exact(p.y as int, n * n * n);
}

} // verus!
