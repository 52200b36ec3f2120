//! Surface materials: what a surface emits, what colour it gives to the light
//! it scatters, and how it weights one direction against another.

use vstd::prelude::*;
use vstd::std_specs::convert::FromSpecImpl;
use crate::geometry::{Point, Vector};
use crate::pixels::Rgb;
use crate::scalar::Scalar;

verus! {

/// Linear radiance in red, green and blue.
#[derive(Clone, Copy, Debug, PartialEq, Eq, Structural)]
pub struct Color {
    pub r: Scalar,
    pub g: Scalar,
    pub b: Scalar,
}

impl Color {
    /// The colour as a pixel: each channel cut to a whole number and clamped
    /// to the range of an eight-bit channel. The channels are taken as they
    /// are, so a colour that is to fill that range is scaled to it before.
    pub open spec fn spec_to_rgb(&self) -> Rgb {
        Rgb { r: self.r.to_u8(), g: self.g.to_u8(), b: self.b.to_u8() }
    }

    #[verifier::when_used_as_spec(spec_to_rgb)]
    pub fn to_rgb(&self) -> (rgb: Rgb)
        ensures
            rgb == self.spec_to_rgb(),
    {
        Rgb { r: self.r.to_u8(), g: self.g.to_u8(), b: self.b.to_u8() }
    }
}

impl Default for Color {
    /// Black: every channel is positive zero.
    fn default() -> (color: Color)
        ensures
            color == (Color { r: Scalar::zero(), g: Scalar::zero(), b: Scalar::zero() }),
    {
        Color { r: Scalar::zero(), g: Scalar::zero(), b: Scalar::zero() }
    }
}

impl From<(Scalar, Scalar, Scalar)> for Color {
    fn from(color: (Scalar, Scalar, Scalar)) -> (made: Color) {
        let (r, g, b) = color;
        Color { r, g, b }
    }
}

impl FromSpecImpl<(Scalar, Scalar, Scalar)> for Color {
    open spec fn obeys_from_spec() -> bool {
        true
    }

    open spec fn from_spec(color: (Scalar, Scalar, Scalar)) -> Color {
        let (r, g, b) = color;
        Color { r, g, b }
    }
}

/// A surface that scatters the light it receives evenly over the hemisphere.
#[derive(Clone, Copy, Debug, PartialEq, Eq, Structural)]
pub struct Lambertian {
    color: Color,
}

/// A surface that emits light and scatters none.
#[derive(Clone, Copy, Debug, PartialEq, Eq, Structural)]
pub struct Light {
    color: Color,
}

/// What a surface is made of.
#[derive(Clone, Copy, Debug, PartialEq, Eq, Structural)]
pub enum Material {
    Lambertian(Lambertian),
    Light(Light),
}

impl Lambertian {
    /// The colour that the surface gives to the light it scatters.
    pub closed spec fn color(&self) -> Color {
        self.color
    }

    fn brdf(&self, incident: Vector, out_going: Vector, normal: Vector) -> (weight: Scalar)
        ensures
            weight == Scalar::one(),
    {
        Scalar::one()
    }

    fn get_color(&self) -> (color: Color)
        ensures
            color == self.color(),
    {
        self.color
    }
}

impl Light {
    /// The colour of the light that the surface emits.
    pub closed spec fn color(&self) -> Color {
        self.color
    }

    fn brdf(&self, incident: Vector, out_going: Vector, normal: Vector) -> (weight: Scalar)
        ensures
            weight == Scalar::one(),
    {
        Scalar::one()
    }

    fn get_color(&self) -> (color: Color)
        ensures
            color == self.color(),
    {
        self.color
    }
}

impl Material {
    /// The colour of the material, whichever kind it is.
    pub open spec fn color(&self) -> Color {
        match *self {
            Material::Lambertian(material) => material.color(),
            Material::Light(material) => material.color(),
        }
    }

    /// Whether the material emits light.
    pub open spec fn spec_is_light_source(&self) -> bool {
        *self is Light
    }

    /// The light that the material emits, if it emits any. A path that
    /// reaches an emitter ends there with this colour.
    pub open spec fn spec_emission(&self) -> Option<Color> {
        match *self {
            Material::Lambertian(_) => None,
            Material::Light(material) => Some(material.color()),
        }
    }

    /// A scattering material of the given colour.
    pub fn new_lambertian(color: Color) -> (material: Material)
        ensures
            material is Lambertian,
            material.color() == color,
    {
        Material::Lambertian(Lambertian { color })
    }

    /// An emitting material of the given colour.
    pub fn new_light(color: Color) -> (material: Material)
        ensures
            material is Light,
            material.color() == color,
    {
        Material::Light(Light { color })
    }

    /// The weight of the material for light that arrives along `incident`
    /// and leaves along `out_going` at a surface with the given `normal`:
    /// one, whatever the directions. The cosine of the angle between normal
    /// and outgoing direction is not part of it.
    pub fn brdf(&self, incident: Vector, out_going: Vector, normal: Vector) -> (weight: Scalar)
        ensures
            weight == Scalar::one(),
    {
        match self {
            Material::Lambertian(material) => material.brdf(incident, out_going, normal),
            Material::Light(material) => material.brdf(incident, out_going, normal),
        }
    }

    /// The colour of the material at the point `_x` of the surface: the same
    /// at every point.
    pub fn get_color(&self, _x: Point) -> (color: Color)
        ensures
            color == self.color(),
    {
        match self {
            Material::Lambertian(material) => material.get_color(),
            Material::Light(material) => material.get_color(),
        }
    }

    #[verifier::when_used_as_spec(spec_is_light_source)]
    pub fn is_light_source(&self) -> (emits: bool)
        ensures
            emits == self.spec_is_light_source(),
    {
        match self {
            Material::Light(_) => true,
            _ => false,
        }
    }

    #[verifier::when_used_as_spec(spec_emission)]
    pub fn emission(&self) -> (emitted: Option<Color>)
        ensures
            emitted == self.spec_emission(),
    {
        match self {
            Material::Lambertian(_) => None,
            Material::Light(material) => Some(material.get_color()),
        }
    }
}

} // verus!
