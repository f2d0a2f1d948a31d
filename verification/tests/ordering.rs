//! The scalar ordering helpers and the bounding-box algebra, exercised on
//! concrete bit patterns.

use ray_tracer::aabb::AxisAlignedBoundingBox;
use ray_tracer::colour::Colour;
use ray_tracer::float::{max, min};
use ray_tracer::scalar::Real64;
use ray_tracer::vector::Vector;

fn r(x: f64) -> Real64 {
    Real64::from_bits(x.to_bits())
}

fn f(x: Real64) -> f64 {
    f64::from_bits(x.bits())
}

fn v(x: f64, y: f64, z: f64) -> Vector {
    Vector::new(r(x), r(y), r(z))
}

#[test]
fn test_max() {
    assert_eq!(f(max(r(1.0), r(2.0))), 2.0);
    assert_eq!(f(max(r(2.0), r(1.0))), 2.0);
    assert_eq!(f(max(r(2.0), r(2.0))), 2.0);
    assert_eq!(f(max(r(f64::NAN), r(2.0))), 2.0);
    assert!(f(max(r(2.0), r(f64::NAN))).is_nan());
    assert!(f(max(r(f64::NAN), r(f64::NAN))).is_nan());
}

#[test]
fn test_min() {
    assert_eq!(f(min(r(1.0), r(2.0))), 1.0);
    assert_eq!(f(min(r(2.0), r(1.0))), 1.0);
    assert_eq!(f(min(r(2.0), r(2.0))), 2.0);
    assert_eq!(f(min(r(f64::NAN), r(2.0))), 2.0);
    assert!(f(min(r(2.0), r(f64::NAN))).is_nan());
    assert!(f(min(r(f64::NAN), r(f64::NAN))).is_nan());
}

#[test]
fn test_negative_values_and_zeros_order() {
    assert_eq!(f(min(r(-1.0), r(1.0))), -1.0);
    assert_eq!(f(max(r(-3.0), r(-2.0))), -2.0);
    // Equal magnitudes of opposite zero sign count as equal: the right
    // operand comes back.
    assert_eq!(f(max(r(0.0), r(-0.0))).to_bits(), (-0.0f64).to_bits());
    assert_eq!(f(min(r(0.0), r(-0.0))).to_bits(), (-0.0f64).to_bits());
}

#[test]
fn test_vector_min() {
    let a = v(1.0, 3.0, -2.0);
    let b = v(2.0, -4.0, 5.0);
    let low = a.min(&b);
    assert_eq!(f(low.x()), 1.0);
    assert_eq!(f(low.y()), -4.0);
    assert_eq!(f(low.z()), -2.0);
}

#[test]
fn test_vector_max() {
    let a = v(1.0, 3.0, -2.0);
    let b = v(2.0, -4.0, 5.0);
    let high = a.max(&b);
    assert_eq!(f(high.x()), 2.0);
    assert_eq!(f(high.y()), 3.0);
    assert_eq!(f(high.z()), 5.0);
}

#[test]
fn test_surrounding_bounding_boxes() {
    let box_a = AxisAlignedBoundingBox::new(v(0.0, 0.0, 0.0), v(2.0, 2.0, 2.0));
    let box_b = AxisAlignedBoundingBox::new(v(0.5, 0.5, 0.5), v(4.0, 2.0, 1.0));

    let expected_box = AxisAlignedBoundingBox::new(v(0.0, 0.0, 0.0), v(4.0, 2.0, 2.0));

    assert_eq!(
        Some(expected_box),
        AxisAlignedBoundingBox::surrounding(&Some(box_a), &Some(box_b)),
    );
}

#[test]
fn test_surrounding_bounding_boxes_when_one_is_none() {
    let bounding_box = AxisAlignedBoundingBox::new(v(0.0, 0.0, 0.0), v(2.0, 2.0, 2.0));

    assert_eq!(
        None,
        AxisAlignedBoundingBox::surrounding(&Some(bounding_box), &None),
    );
}

#[test]
fn test_colour_accessors() {
    let colour = Colour::new(r(0.1), r(0.2), r(0.3));
    assert_eq!(f(colour.r()), 0.1);
    assert_eq!(f(colour.g()), 0.2);
    assert_eq!(f(colour.b()), 0.3);
}
