//! Three-component position/direction vectors.
//!
//! Components are scalar bit patterns ([`crate::scalar::Real64`]); the
//! verified core only stores, compares and rearranges them.  The numeric
//! vector algebra (dot, cross, rotation) is floating-point arithmetic and
//! lives with the unverified rendering front end.

use crate::float;
use crate::scalar::Real64;
use vstd::prelude::*;

verus! {

/// A point or direction in space.
#[derive(Debug, Clone, Copy, PartialEq, Eq, Structural)]
pub struct Vector {
    pub x: Real64,
    pub y: Real64,
    pub z: Real64,
}

impl Vector {
    /// Packs three components into a vector.
    pub fn new(x: Real64, y: Real64, z: Real64) -> (r: Vector)
        ensures
            r == (Vector { x, y, z }),
    {
        Vector { x, y, z }
    }

    /// The first component.
    pub fn x(&self) -> (r: Real64)
        ensures
            r == self.x,
    {
        self.x
    }

    /// The second component.
    pub fn y(&self) -> (r: Real64)
        ensures
            r == self.y,
    {
        self.y
    }

    /// The third component.
    pub fn z(&self) -> (r: Real64)
        ensures
            r == self.z,
    {
        self.z
    }

    /// Componentwise minimum against `vector`, with the NaN rule of
    /// [`crate::float::min`] applied per component (each call passes
    /// `vector`'s component on the left, as the numeric code always did).
    pub fn min(&self, vector: &Vector) -> (r: Vector)
        ensures
            r == spec_vector_min(*self, *vector),
    {
        Vector {
            x: float::min(vector.x, self.x),
            y: float::min(vector.y, self.y),
            z: float::min(vector.z, self.z),
        }
    }

    /// Componentwise maximum against `vector`, as [`Vector::min`].
    pub fn max(&self, vector: &Vector) -> (r: Vector)
        ensures
            r == spec_vector_max(*self, *vector),
    {
        Vector {
            x: float::max(vector.x, self.x),
            y: float::max(vector.y, self.y),
            z: float::max(vector.z, self.z),
        }
    }
}

/// The value [`Vector::min`] returns.
pub open spec fn spec_vector_min(a: Vector, b: Vector) -> Vector {
    Vector {
        x: float::spec_min(b.x, a.x),
        y: float::spec_min(b.y, a.y),
        z: float::spec_min(b.z, a.z),
    }
}

/// The value [`Vector::max`] returns.
pub open spec fn spec_vector_max(a: Vector, b: Vector) -> Vector {
    Vector {
        x: float::spec_max(b.x, a.x),
        y: float::spec_max(b.y, a.y),
        z: float::spec_max(b.z, a.z),
    }
}

/// True when no component is NaN; the numeric order of the components is
/// then total.
pub open spec fn vector_has_numbers(v: Vector) -> bool {
    &&& !crate::scalar::spec_is_nan(v.x)
    &&& !crate::scalar::spec_is_nan(v.y)
    &&& !crate::scalar::spec_is_nan(v.z)
}

} // verus!
