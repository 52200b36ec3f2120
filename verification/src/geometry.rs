//! Points, directions, rigid transforms, rays and hits, each held as scalars.
//! The library carries them between the caller's geometry kernel and its own
//! decisions, and reads only what those decisions need: whether a value is
//! finite, whether a direction is zero, how far away a hit is.

use vstd::prelude::*;
use crate::scalar::Scalar;

verus! {

/// A free direction in space.
#[derive(Clone, Copy, Debug, PartialEq, Eq, Structural)]
pub struct Vector {
    pub x: Scalar,
    pub y: Scalar,
    pub z: Scalar,
}

impl Vector {
    /// Every component is finite.
    pub open spec fn spec_is_finite(&self) -> bool {
        self.x.is_finite() && self.y.is_finite() && self.z.is_finite()
    }

    /// Every component is a zero: the vector has no length and no direction.
    pub open spec fn spec_is_zero(&self) -> bool {
        self.x.is_zero() && self.y.is_zero() && self.z.is_zero()
    }

    /// The vector whose components are all positive zero.
    pub open spec fn spec_zero() -> Vector {
        Vector { x: Scalar::zero(), y: Scalar::zero(), z: Scalar::zero() }
    }

    #[verifier::when_used_as_spec(spec_zero)]
    pub fn zero() -> (vector: Vector)
        ensures
            vector == Vector::spec_zero(),
    {
        Vector { x: Scalar::zero(), y: Scalar::zero(), z: Scalar::zero() }
    }

    pub fn new(x: Scalar, y: Scalar, z: Scalar) -> (vector: Vector)
        ensures
            vector == (Vector { x, y, z }),
    {
        Vector { x, y, z }
    }

    #[verifier::when_used_as_spec(spec_is_finite)]
    pub fn is_finite(&self) -> (finite: bool)
        ensures
            finite == self.spec_is_finite(),
    {
        self.x.is_finite() && self.y.is_finite() && self.z.is_finite()
    }

    #[verifier::when_used_as_spec(spec_is_zero)]
    pub fn is_zero(&self) -> (zero: bool)
        ensures
            zero == self.spec_is_zero(),
    {
        self.x.is_zero() && self.y.is_zero() && self.z.is_zero()
    }
}

/// A position in space.
#[derive(Clone, Copy, Debug, PartialEq, Eq, Structural)]
pub struct Point {
    pub x: Scalar,
    pub y: Scalar,
    pub z: Scalar,
}

impl Point {
    /// Every coordinate is finite.
    pub open spec fn spec_is_finite(&self) -> bool {
        self.x.is_finite() && self.y.is_finite() && self.z.is_finite()
    }

    pub fn new(x: Scalar, y: Scalar, z: Scalar) -> (point: Point)
        ensures
            point == (Point { x, y, z }),
    {
        Point { x, y, z }
    }

    /// The point whose coordinates are all positive zero.
    pub open spec fn spec_origin() -> Point {
        Point { x: Scalar::zero(), y: Scalar::zero(), z: Scalar::zero() }
    }

    #[verifier::when_used_as_spec(spec_origin)]
    pub fn origin() -> (point: Point)
        ensures
            point == Point::spec_origin(),
    {
        Point { x: Scalar::zero(), y: Scalar::zero(), z: Scalar::zero() }
    }

    #[verifier::when_used_as_spec(spec_is_finite)]
    pub fn is_finite(&self) -> (finite: bool)
        ensures
            finite == self.spec_is_finite(),
    {
        self.x.is_finite() && self.y.is_finite() && self.z.is_finite()
    }
}

/// A rotation as a quaternion `w + i + j + k`.
#[derive(Clone, Copy, Debug, PartialEq, Eq, Structural)]
pub struct Rotation {
    pub i: Scalar,
    pub j: Scalar,
    pub k: Scalar,
    pub w: Scalar,
}

impl Rotation {
    /// Every coefficient is finite.
    pub open spec fn spec_is_finite(&self) -> bool {
        self.i.is_finite() && self.j.is_finite() && self.k.is_finite() && self.w.is_finite()
    }

    /// The rotation that turns nothing: `w` is one, the rest positive zero.
    pub open spec fn spec_identity() -> Rotation {
        Rotation { i: Scalar::zero(), j: Scalar::zero(), k: Scalar::zero(), w: Scalar::one() }
    }

    #[verifier::when_used_as_spec(spec_identity)]
    pub fn identity() -> (rotation: Rotation)
        ensures
            rotation == Rotation::spec_identity(),
    {
        Rotation { i: Scalar::zero(), j: Scalar::zero(), k: Scalar::zero(), w: Scalar::one() }
    }

    #[verifier::when_used_as_spec(spec_is_finite)]
    pub fn is_finite(&self) -> (finite: bool)
        ensures
            finite == self.spec_is_finite(),
    {
        self.i.is_finite() && self.j.is_finite() && self.k.is_finite() && self.w.is_finite()
    }
}

/// A rigid transform: a rotation followed by a translation, no scaling.
#[derive(Clone, Copy, Debug, PartialEq, Eq, Structural)]
pub struct Isometry {
    pub rotation: Rotation,
    pub translation: Vector,
}

impl Isometry {
    /// Rotation and translation are finite.
    pub open spec fn spec_is_finite(&self) -> bool {
        self.rotation.is_finite() && self.translation.is_finite()
    }

    /// The transform that moves nothing.
    pub open spec fn spec_identity() -> Isometry {
        Isometry { rotation: Rotation::identity(), translation: Vector::zero() }
    }

    #[verifier::when_used_as_spec(spec_identity)]
    pub fn identity() -> (isometry: Isometry)
        ensures
            isometry == Isometry::spec_identity(),
    {
        Isometry { rotation: Rotation::identity(), translation: Vector::zero() }
    }

    /// The transform that shifts by `(x, y, z)` and turns nothing.
    pub fn translation(x: Scalar, y: Scalar, z: Scalar) -> (isometry: Isometry)
        ensures
            isometry.rotation == Rotation::identity(),
            isometry.translation == (Vector { x, y, z }),
    {
        Isometry { rotation: Rotation::identity(), translation: Vector::new(x, y, z) }
    }

    #[verifier::when_used_as_spec(spec_is_finite)]
    pub fn is_finite(&self) -> (finite: bool)
        ensures
            finite == self.spec_is_finite(),
    {
        self.rotation.is_finite() && self.translation.is_finite()
    }
}

/// A half-line: the points `origin + dir * t` for `t >= 0`.
#[derive(Clone, Copy, Debug, PartialEq, Eq, Structural)]
pub struct Ray {
    pub origin: Point,
    pub dir: Vector,
}

impl Ray {
    /// A ray that cannot be cast: some component is infinite or NaN, or the
    /// direction is the zero vector.
    pub open spec fn spec_is_degenerate(&self) -> bool {
        !self.origin.is_finite() || !self.dir.is_finite() || self.dir.is_zero()
    }

    pub fn new(origin: Point, dir: Vector) -> (ray: Ray)
        ensures
            ray == (Ray { origin, dir }),
    {
        Ray { origin, dir }
    }

    #[verifier::when_used_as_spec(spec_is_degenerate)]
    pub fn is_degenerate(&self) -> (degenerate: bool)
        ensures
            degenerate == self.spec_is_degenerate(),
    {
        !self.origin.is_finite() || !self.dir.is_finite() || self.dir.is_zero()
    }
}

/// Where a ray meets a surface.
#[derive(Clone, Copy, Debug, PartialEq, Eq, Structural)]
pub struct Hit {
    /// The ray parameter `t` of the meeting point.
    pub toi: Scalar,
    /// The surface normal at the meeting point.
    pub normal: Vector,
    /// Whether the ray meets the outer side of the surface.
    pub front: bool,
}

impl Hit {
    pub fn new(toi: Scalar, normal: Vector, front: bool) -> (hit: Hit)
        ensures
            hit == (Hit { toi, normal, front }),
    {
        Hit { toi, normal, front }
    }
}

} // verus!
