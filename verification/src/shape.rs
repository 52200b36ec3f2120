//! The solids a scene is built from, by their defining lengths, and the rule
//! that tells which of them have a surface a ray can meet.

use vstd::prelude::*;
use crate::geometry::{Point, Vector};
use crate::scalar::Scalar;

verus! {

/// A ball around the local origin.
#[derive(Clone, Copy, Debug, PartialEq, Eq, Structural)]
pub struct Ball {
    pub radius: Scalar,
}

/// A box around the local origin, by half of its edge lengths.
#[derive(Clone, Copy, Debug, PartialEq, Eq, Structural)]
pub struct Cuboid {
    pub half_extents: Vector,
}

/// A line segment between two points.
#[derive(Clone, Copy, Debug, PartialEq, Eq, Structural)]
pub struct Segment {
    pub a: Point,
    pub b: Point,
}

/// All points within `radius` of a segment.
#[derive(Clone, Copy, Debug, PartialEq, Eq, Structural)]
pub struct Capsule {
    pub segment: Segment,
    pub radius: Scalar,
}

/// A box whose faces are moved outward by `border_radius`, with round edges.
#[derive(Clone, Copy, Debug, PartialEq, Eq, Structural)]
pub struct RoundCuboid {
    pub inner_shape: Cuboid,
    pub border_radius: Scalar,
}

/// Everything behind the plane through the local origin with outward `normal`.
#[derive(Clone, Copy, Debug, PartialEq, Eq, Structural)]
pub struct HalfSpace {
    pub normal: Vector,
}

impl Ball {
    /// The radius is not a usable length.
    pub open spec fn spec_is_degenerate(&self) -> bool {
        !self.radius.is_extent()
    }

    pub fn new(radius: Scalar) -> (ball: Ball)
        ensures
            ball.radius == radius,
    {
        Ball { radius }
    }

    #[verifier::when_used_as_spec(spec_is_degenerate)]
    pub fn is_degenerate(&self) -> (degenerate: bool)
        ensures
            degenerate == self.spec_is_degenerate(),
    {
        !self.radius.is_extent()
    }
}

impl Cuboid {
    /// Some half-extent is not a usable length.
    pub open spec fn spec_is_degenerate(&self) -> bool {
        !self.half_extents.x.is_extent() || !self.half_extents.y.is_extent()
            || !self.half_extents.z.is_extent()
    }

    pub fn new(half_extents: Vector) -> (cuboid: Cuboid)
        ensures
            cuboid.half_extents == half_extents,
    {
        Cuboid { half_extents }
    }

    #[verifier::when_used_as_spec(spec_is_degenerate)]
    pub fn is_degenerate(&self) -> (degenerate: bool)
        ensures
            degenerate == self.spec_is_degenerate(),
    {
        !self.half_extents.x.is_extent() || !self.half_extents.y.is_extent()
            || !self.half_extents.z.is_extent()
    }
}

impl Capsule {
    /// The radius is not a usable length, or an endpoint of the axis is not finite.
    pub open spec fn spec_is_degenerate(&self) -> bool {
        !self.radius.is_extent() || !self.segment.a.is_finite() || !self.segment.b.is_finite()
    }

    pub fn new(a: Point, b: Point, radius: Scalar) -> (capsule: Capsule)
        ensures
            capsule.segment == (Segment { a, b }),
            capsule.radius == radius,
    {
        Capsule { segment: Segment { a, b }, radius }
    }

    #[verifier::when_used_as_spec(spec_is_degenerate)]
    pub fn is_degenerate(&self) -> (degenerate: bool)
        ensures
            degenerate == self.spec_is_degenerate(),
    {
        !self.radius.is_extent() || !self.segment.a.is_finite() || !self.segment.b.is_finite()
    }
}

impl RoundCuboid {
    /// The box inside is degenerate, or the border radius is not a usable length.
    pub open spec fn spec_is_degenerate(&self) -> bool {
        self.inner_shape.is_degenerate() || !self.border_radius.is_extent()
    }

    pub fn new(half_extents: Vector, border_radius: Scalar) -> (cuboid: RoundCuboid)
        ensures
            cuboid.inner_shape.half_extents == half_extents,
            cuboid.border_radius == border_radius,
    {
        RoundCuboid { inner_shape: Cuboid { half_extents }, border_radius }
    }

    #[verifier::when_used_as_spec(spec_is_degenerate)]
    pub fn is_degenerate(&self) -> (degenerate: bool)
        ensures
            degenerate == self.spec_is_degenerate(),
    {
        self.inner_shape.is_degenerate() || !self.border_radius.is_extent()
    }
}

impl HalfSpace {
    /// The normal is not finite, or it is the zero vector.
    pub open spec fn spec_is_degenerate(&self) -> bool {
        !self.normal.is_finite() || self.normal.is_zero()
    }

    pub fn new(normal: Vector) -> (half_space: HalfSpace)
        ensures
            half_space.normal == normal,
    {
        HalfSpace { normal }
    }

    #[verifier::when_used_as_spec(spec_is_degenerate)]
    pub fn is_degenerate(&self) -> (degenerate: bool)
        ensures
            degenerate == self.spec_is_degenerate(),
    {
        !self.normal.is_finite() || self.normal.is_zero()
    }
}

} // verus!
