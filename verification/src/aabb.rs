//! Axis-aligned bounding boxes: merging and containment.
//!
//! A box is two corner vectors.  Merging two boxes takes componentwise
//! minima and maxima; a missing box (`None`, an unbounded or unsupported
//! geometry) absorbs everything, so merging with `None` yields `None`.
//! The numeric slab intersection test is floating-point arithmetic and
//! lives with the rendering front end.

use crate::float;
use crate::scalar::{num_le, num_lt, spec_is_nan, Real64};
use crate::vector::{vector_has_numbers, Vector};
use vstd::prelude::*;

verus! {

/// An axis-aligned box spanning `min` to `max` componentwise.
#[derive(Debug, Clone, Copy, PartialEq, Eq, Structural)]
pub struct AxisAlignedBoundingBox {
    pub min: Vector,
    pub max: Vector,
}

/// The merged box of two present boxes: componentwise minima of the low
/// corners and maxima of the high corners.
pub open spec fn spec_surrounding(
    box_a: AxisAlignedBoundingBox,
    box_b: AxisAlignedBoundingBox,
) -> AxisAlignedBoundingBox {
    AxisAlignedBoundingBox {
        min: Vector {
            x: float::spec_min(box_a.min.x, box_b.min.x),
            y: float::spec_min(box_a.min.y, box_b.min.y),
            z: float::spec_min(box_a.min.z, box_b.min.z),
        },
        max: Vector {
            x: float::spec_max(box_a.max.x, box_b.max.x),
            y: float::spec_max(box_a.max.y, box_b.max.y),
            z: float::spec_max(box_a.max.z, box_b.max.z),
        },
    }
}

/// The merged box of two optional boxes: `None` absorbs everything.
pub open spec fn spec_surrounding_opt(
    box_a: Option<AxisAlignedBoundingBox>,
    box_b: Option<AxisAlignedBoundingBox>,
) -> Option<AxisAlignedBoundingBox> {
    match (box_a, box_b) {
        (Some(a), Some(b)) => Some(spec_surrounding(a, b)),
        _ => None,
    }
}

/// `outer` contains `inner` when every component of `inner`'s corners lies
/// between the matching components of `outer`'s corners.
pub open spec fn spec_contains(
    outer: AxisAlignedBoundingBox,
    inner: AxisAlignedBoundingBox,
) -> bool {
    &&& num_le(outer.min.x, inner.min.x)
    &&& num_le(outer.min.y, inner.min.y)
    &&& num_le(outer.min.z, inner.min.z)
    &&& num_le(inner.max.x, outer.max.x)
    &&& num_le(inner.max.y, outer.max.y)
    &&& num_le(inner.max.z, outer.max.z)
}

/// True when neither corner of the box holds a NaN component.
pub open spec fn box_has_numbers(b: AxisAlignedBoundingBox) -> bool {
    vector_has_numbers(b.min) && vector_has_numbers(b.max)
}

impl AxisAlignedBoundingBox {
    /// Wraps two corner vectors as a box.
    pub fn new(a: Vector, b: Vector) -> (r: AxisAlignedBoundingBox)
        ensures
            r == (AxisAlignedBoundingBox { min: a, max: b }),
    {
        AxisAlignedBoundingBox { min: a, max: b }
    }

    /// Merges two optional boxes; a missing box on either side gives a
    /// missing box.
    pub fn surrounding(
        box_a: &Option<AxisAlignedBoundingBox>,
        box_b: &Option<AxisAlignedBoundingBox>,
    ) -> (r: Option<AxisAlignedBoundingBox>)
        ensures
            r == spec_surrounding_opt(*box_a, *box_b),
            box_a.is_none() || box_b.is_none() ==> r.is_none(),
    {
        let a = match box_a {
            Some(bounding_box) => bounding_box,
            None => {
                return None;
            },
        };
        let b = match box_b {
            Some(bounding_box) => bounding_box,
            None => {
                return None;
            },
        };
        Some(surrounding(a, b))
    }

    /// The low corner.
    pub fn min(&self) -> (r: &Vector)
        ensures
            r == self.min,
    {
        &self.min
    }

    /// The high corner.
    pub fn max(&self) -> (r: &Vector)
        ensures
            r == self.max,
    {
        &self.max
    }
}

/// Merges two present boxes.
pub fn surrounding(
    box_a: &AxisAlignedBoundingBox,
    box_b: &AxisAlignedBoundingBox,
) -> (r: AxisAlignedBoundingBox)
    ensures
        r == spec_surrounding(*box_a, *box_b),
{
    let small = Vector::new(
        float::min(box_a.min.x, box_b.min.x),
        float::min(box_a.min.y, box_b.min.y),
        float::min(box_a.min.z, box_b.min.z),
    );
    let big = Vector::new(
        float::max(box_a.max.x, box_b.max.x),
        float::max(box_a.max.y, box_b.max.y),
        float::max(box_a.max.z, box_b.max.z),
    );

    AxisAlignedBoundingBox { min: small, max: big }
}

/// Without NaN the scalar minimum lies below both operands.
proof fn lemma_min_below(a: Real64, b: Real64)
    requires
        !spec_is_nan(a),
        !spec_is_nan(b),
    ensures
        num_le(float::spec_min(a, b), a),
        num_le(float::spec_min(a, b), b),
{
}

/// Without NaN the scalar maximum lies above both operands.
proof fn lemma_max_above(a: Real64, b: Real64)
    requires
        !spec_is_nan(a),
        !spec_is_nan(b),
    ensures
        num_le(a, float::spec_max(a, b)),
        num_le(b, float::spec_max(a, b)),
{
}

/// Merging keeps NaN out: the merged box of two NaN-free boxes is
/// NaN-free, since each merged component is one of the operands.
pub proof fn lemma_surrounding_has_numbers(
    box_a: AxisAlignedBoundingBox,
    box_b: AxisAlignedBoundingBox,
)
    requires
        box_has_numbers(box_a),
        box_has_numbers(box_b),
    ensures
        box_has_numbers(spec_surrounding(box_a, box_b)),
{
}

/// A merged box contains both boxes it was merged from, as long as no
/// corner component is NaN (a NaN corner is a scene-construction bug, not
/// a value this library produces).
pub proof fn lemma_surrounding_contains_both(
    box_a: AxisAlignedBoundingBox,
    box_b: AxisAlignedBoundingBox,
)
    requires
        box_has_numbers(box_a),
        box_has_numbers(box_b),
    ensures
        spec_contains(spec_surrounding(box_a, box_b), box_a),
        spec_contains(spec_surrounding(box_a, box_b), box_b),
{
    lemma_min_below(box_a.min.x, box_b.min.x);
    lemma_min_below(box_a.min.y, box_b.min.y);
    lemma_min_below(box_a.min.z, box_b.min.z);
    lemma_max_above(box_a.max.x, box_b.max.x);
    lemma_max_above(box_a.max.y, box_b.max.y);
    lemma_max_above(box_a.max.z, box_b.max.z);
}

} // verus!
