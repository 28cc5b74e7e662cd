//! Vector arithmetic on the fixed-point grid. One unit is `fixed::ONE`.

use raytrace::fixed::ONE;
use raytrace::geom::{cross, dot, Vec3};

#[test]
fn test_new() {
    assert_eq!(Vec3::new(ONE, 2 * ONE, 3 * ONE), Vec3::new(ONE, 2 * ONE, 3 * ONE));
}

#[test]
fn test_add() {
    assert_eq!(
        Vec3::new(ONE, 0, -ONE).add(&Vec3::new(2 * ONE, 4 * ONE, 6 * ONE)),
        Vec3::new(3 * ONE, 4 * ONE, 5 * ONE)
    )
}

#[test]
fn test_add_assign() {
    let mut x = Vec3::new(ONE, 0, -ONE);
    x = x.add(&Vec3::new(2 * ONE, 4 * ONE, 6 * ONE));
    assert_eq!(x, Vec3::new(3 * ONE, 4 * ONE, 5 * ONE))
}

#[test]
fn test_sub() {
    assert_eq!(
        Vec3::new(ONE, 0, -ONE).sub(&Vec3::new(2 * ONE, 4 * ONE, 6 * ONE)),
        Vec3::new(-ONE, -4 * ONE, -7 * ONE)
    )
}

#[test]
fn test_sub_assign() {
    let mut x = Vec3::new(ONE, 0, -ONE);
    x = x.sub(&Vec3::new(2 * ONE, 4 * ONE, 6 * ONE));
    assert_eq!(x, Vec3::new(-ONE, -4 * ONE, -7 * ONE))
}

#[test]
fn test_dot() {
    assert_eq!(dot(Vec3::new(ONE, 0, -ONE), Vec3::new(ONE, ONE, ONE)), 0);
}

#[test]
fn test_mul_assign() {
    let mut x = Vec3::new(ONE, 0, -ONE);
    x = x.scale(2 * ONE);
    assert_eq!(x, Vec3::new(2 * ONE, 0, -2 * ONE));
}

#[test]
fn test_mul_float() {
    assert_eq!(Vec3::new(ONE, 0, -ONE).scale(ONE), Vec3::new(ONE, 0, -ONE));
}

#[test]
fn test_div() {
    assert_eq!(
        Vec3::new(ONE, -2 * ONE, 0).div(2 * ONE),
        Vec3::new(ONE / 2, -ONE, 0)
    );
}

#[test]
fn test_cross() {
    assert_eq!(
        cross(
            Vec3::new(ONE, 2 * ONE, 3 * ONE),
            Vec3::new(2 * ONE, 3 * ONE, 4 * ONE)
        ),
        Vec3::new(8 * ONE - 9 * ONE, 6 * ONE - 4 * ONE, 3 * ONE - 4 * ONE)
    );
}

#[test]
fn test_neg() {
    assert_eq!(
        Vec3::new(ONE, -2 * ONE, 3 * ONE).neg(),
        Vec3::new(-ONE, 2 * ONE, -3 * ONE)
    );
}

#[test]
fn test_squared_length() {
    assert_eq!(Vec3::new(ONE, 2 * ONE, 3 * ONE).length_squared(), 14 * ONE);
}

#[test]
fn test_length() {
    // |(3, 4, 5)| is the square root of 50, rounded down to the grid.
    let expected = (50f64.sqrt() * ONE as f64).floor() as i64;
    assert_eq!(Vec3::new(3 * ONE, 4 * ONE, 5 * ONE).length(), expected);
}

#[test]
fn test_unit() {
    assert_eq!(
        Vec3::new(233 * ONE, 0, 0).normalize(),
        Vec3::new(ONE, 0, 0)
    );
    assert_eq!(
        Vec3::new(-233 * ONE, 0, 0).normalize(),
        Vec3::new(-ONE, 0, 0)
    );
}

#[test]
fn test_unit_zero() {
    // Normalization is total: the zero vector stays zero.
    assert_eq!(Vec3::new(0, 0, 0).normalize(), Vec3::new(0, 0, 0));
}
