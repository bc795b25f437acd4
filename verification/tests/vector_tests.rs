use raytracer::fixed::FX_ONE;
use raytracer::vec3::Vector3;

fn v(x: i64, y: i64, z: i64) -> Vector3 {
    Vector3 { x, y, z }
}

#[test]
fn componentwise_arithmetic() {
    let a = v(FX_ONE, 2 * FX_ONE, -3 * FX_ONE);
    let b = v(4 * FX_ONE, -5 * FX_ONE, 6 * FX_ONE);
    assert_eq!(a.plus(b), v(5 * FX_ONE, -3 * FX_ONE, 3 * FX_ONE));
    assert_eq!(a.minus(b), v(-3 * FX_ONE, 7 * FX_ONE, -9 * FX_ONE));
    assert_eq!(a.times(b), v(4 * FX_ONE, -10 * FX_ONE, -18 * FX_ONE));
    assert_eq!(a.scale(2 * FX_ONE), v(2 * FX_ONE, 4 * FX_ONE, -6 * FX_ONE));
    assert_eq!(a.neg(), v(-FX_ONE, -2 * FX_ONE, 3 * FX_ONE));
}

#[test]
fn division_by_positive_scalar() {
    assert_eq!(
        v(10 * FX_ONE, -5 * FX_ONE, 3).div_by(2 * FX_ONE),
        v(5 * FX_ONE, -163840, 1)
    );
}

#[test]
fn division_by_negative_scalar() {
    assert_eq!(
        v(10 * FX_ONE, -5 * FX_ONE, 3).div_by(-2 * FX_ONE),
        v(-5 * FX_ONE, 163840, -1)
    );
}

#[test]
fn componentwise_division() {
    assert_eq!(
        v(10 * FX_ONE, -5 * FX_ONE, 3).div_components(v(2 * FX_ONE, FX_ONE, -FX_ONE)),
        v(5 * FX_ONE, -5 * FX_ONE, -3)
    );
}

// Scaling and dividing by the same scalar round-trips when the values
// carry no sub-grain remainder.
#[test]
fn scale_division_round_trip() {
    let a = v(3 * FX_ONE, -5 * FX_ONE, 7);
    assert_eq!(a.scale(2 * FX_ONE).div_by(2 * FX_ONE), a);
    assert_eq!(a.scale(-2 * FX_ONE).div_by(-2 * FX_ONE), a);
}

#[test]
fn dot_and_cross_products() {
    let a = v(FX_ONE, 2 * FX_ONE, 3 * FX_ONE);
    let b = v(4 * FX_ONE, 5 * FX_ONE, 6 * FX_ONE);
    assert_eq!(a.dot(&b), 32 * FX_ONE);
    assert_eq!(v(FX_ONE, 0, 0).cross(v(0, FX_ONE, 0)), v(0, 0, FX_ONE));
}

#[test]
fn lengths() {
    assert_eq!(v(3 * FX_ONE, 4 * FX_ONE, 0).squared_length(), 25 * FX_ONE);
    assert_eq!(v(3 * FX_ONE, 4 * FX_ONE, 0).length(), 5 * FX_ONE);
    assert_eq!(v(0, 0, -FX_ONE).length(), FX_ONE);
    assert_eq!(v(0, 0, 0).length(), 0);
}

#[test]
fn unit_vector_of_axis_triple() {
    assert_eq!(
        v(3 * FX_ONE, 4 * FX_ONE, 0).as_unit_vector(),
        v(39321, 52428, 0)
    );
}

// A normalized non-zero vector has length one within tolerance.
#[test]
fn unit_vector_length_tolerance() {
    let cases = [
        v(3 * FX_ONE, 4 * FX_ONE, 0),
        v(FX_ONE, FX_ONE, FX_ONE),
        v(7 * FX_ONE, -3 * FX_ONE, 2 * FX_ONE),
        v(-FX_ONE, 1234, -98765),
    ];
    for c in cases {
        let len = c.as_unit_vector().length();
        assert!((len - FX_ONE).abs() <= 16, "length {} strays", len);
    }
    // a much longer vector truncates its reciprocal length more coarsely
    let len = v(100 * FX_ONE, 0, FX_ONE).as_unit_vector().length();
    assert!((len - FX_ONE).abs() <= 128, "length {} strays", len);
}

#[test]
fn unit_vector_of_degenerate_vector_is_refused() {
    assert_eq!(v(0, 0, 0).try_as_unit_vector(), None);
    // a tiny vector whose squared length truncates to zero is degenerate too
    assert_eq!(v(1, 1, 1).try_as_unit_vector(), None);
    assert_eq!(
        v(0, 0, -FX_ONE).try_as_unit_vector(),
        Some(v(0, 0, -FX_ONE))
    );
}

#[test]
fn modify_applies_to_each_component() {
    let doubled = v(1, -2, 3).modify(|c: i64| c.saturating_mul(2));
    assert_eq!(doubled, v(2, -4, 6));
}

#[test]
fn named_vectors() {
    assert_eq!(Vector3::zero(), v(0, 0, 0));
    assert_eq!(Vector3::one(), v(FX_ONE, FX_ONE, FX_ONE));
}

#[test]
fn saturation_is_symmetric() {
    let big = v(i64::MAX, i64::MAX, i64::MAX);
    let sum = big.plus(big);
    assert_eq!(sum, v(i64::MAX, i64::MAX, i64::MAX));
    let diff = v(-i64::MAX, 0, 0).minus(v(i64::MAX, 0, 0));
    assert_eq!(diff.x, -i64::MAX);
}
