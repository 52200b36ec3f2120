//! The scene: its objects, the nearest-hit query over them, and what the
//! radiance estimator does with the answer.
//!
//! Casting a ray against one shape is numerical work that the caller's geometry
//! kernel does. The caller hands in one cast per object; which cast counts,
//! which of them is nearest and what follows from it is decided here.

use vstd::prelude::*;
use crate::geometry::{Hit, Isometry, Ray, Vector};
use crate::nearest::{
    all_missed, is_alone_at_distance, is_nearest, lemma_nearest_after_swap,
    lemma_nearest_characterised, lemma_nearest_found, nearest, swapped, swapped_index,
};
use crate::pixels::Rgb;
use crate::scalar::Scalar;
use crate::shape::{Ball, Capsule, Cuboid, HalfSpace, RoundCuboid};

verus! {

/// Linear radiance in red, green and blue. Light sources may exceed one.
#[derive(Clone, Copy, Debug, PartialEq, Eq, Structural)]
pub struct Color(pub Scalar, pub Scalar, pub Scalar);

impl Color {
    /// No light: every channel is positive zero.
    pub open spec fn black() -> Color {
        Color(Scalar { bits: 0 }, Scalar { bits: 0 }, Scalar { bits: 0 })
    }

    /// The colour as a pixel: each channel cut to a whole number and clamped
    /// to the range of an eight-bit channel. The channels are taken as they
    /// are, so a colour that is to fill that range is scaled to it before.
    pub open spec fn spec_to_rgb(&self) -> Rgb {
        let Color(r, g, b) = *self;
        Rgb { r: r.to_u8(), g: g.to_u8(), b: b.to_u8() }
    }

    #[verifier::when_used_as_spec(spec_to_rgb)]
    pub fn to_rgb(&self) -> (rgb: Rgb)
        ensures
            rgb == self.spec_to_rgb(),
    {
        let Color(r, g, b) = *self;
        Rgb { r: r.to_u8(), g: g.to_u8(), b: b.to_u8() }
    }
}

impl Default for Color {
    fn default() -> (color: Color)
        ensures
            color == Color::black(),
    {
        Color(Scalar::zero(), Scalar::zero(), Scalar::zero())
    }
}

/// How a surface weights light from one direction into another.
#[derive(Clone, Copy, Debug, PartialEq, Eq, Structural)]
pub enum Brdf {
    Diffuse,
    Mirror,
    Glossy,
    /// The same weight, one, for every pair of directions.
    One,
}

impl Default for Brdf {
    fn default() -> (brdf: Brdf)
        ensures
            brdf == Brdf::One,
    {
        Brdf::One
    }
}

impl Brdf {
    /// Only the constant model has a weight function.
    pub open spec fn spec_is_implemented(&self) -> bool {
        *self == Brdf::One
    }

    #[verifier::when_used_as_spec(spec_is_implemented)]
    pub fn is_implemented(&self) -> (implemented: bool)
        ensures
            implemented == self.spec_is_implemented(),
    {
        match self {
            Brdf::One => true,
            _ => false,
        }
    }

    /// The weight for light that arrives along `in_coming` and leaves along
    /// `out_going`. A model without a weight function must not be asked.
    pub fn apply(&self, in_coming: Vector, out_going: Vector) -> (weight: Scalar)
        requires
            self.is_implemented(),
        ensures
            weight == Scalar::spec_one(),
    {
        Scalar::one()
    }
}

/// The shape of an object, in its own frame.
#[derive(Clone, Copy, Debug, PartialEq, Eq, Structural)]
pub enum Shape {
    Ball(Ball),
    Cuboid(Cuboid),
    Capsule(Capsule),
    RoundCuboid(RoundCuboid),
    HalfSpace(HalfSpace),
}

impl Shape {
    /// A shape without a surface to meet: a radius or an extent that is zero,
    /// negative, infinite or NaN, or a plane without a normal.
    pub open spec fn spec_is_degenerate(&self) -> bool {
        match *self {
            Shape::Ball(ball) => ball.is_degenerate(),
            Shape::Cuboid(cuboid) => cuboid.is_degenerate(),
            Shape::Capsule(capsule) => capsule.is_degenerate(),
            Shape::RoundCuboid(cuboid) => cuboid.is_degenerate(),
            Shape::HalfSpace(half_space) => half_space.is_degenerate(),
        }
    }

    #[verifier::when_used_as_spec(spec_is_degenerate)]
    pub fn is_degenerate(&self) -> (degenerate: bool)
        ensures
            degenerate == self.spec_is_degenerate(),
    {
        match self {
            Shape::Ball(ball) => ball.is_degenerate(),
            Shape::Cuboid(cuboid) => cuboid.is_degenerate(),
            Shape::Capsule(capsule) => capsule.is_degenerate(),
            Shape::RoundCuboid(cuboid) => cuboid.is_degenerate(),
            Shape::HalfSpace(half_space) => half_space.is_degenerate(),
        }
    }
}

/// A shape placed in the world, with the surface it shows.
#[derive(Clone, Copy, Debug, PartialEq, Eq, Structural)]
pub struct Object {
    pub shape: Shape,
    pub isometry: Isometry,
    pub brdf: Brdf,
    pub color: Color,
    pub is_light_source: bool,
}

impl Object {
    /// Whether a cast of `ray` against this object can count at all: the
    /// shape has a surface, its placement is finite and the ray can be cast.
    pub open spec fn spec_admits(&self, ray: &Ray) -> bool {
        !self.shape.is_degenerate() && self.isometry.is_finite() && !ray.is_degenerate()
    }

    /// The intersection of `ray` with this object, given what the geometry
    /// kernel found for the pair: the kernel's hit if the pair is admitted and
    /// the hit lies strictly ahead of the ray's origin, else none.
    pub open spec fn spec_get_intersection(&self, ray: &Ray, cast: Option<Hit>) -> Option<Hit> {
        match cast {
            Some(hit) => if self.spec_admits(ray) && hit.toi.is_positive() {
                Some(hit)
            } else {
                None
            },
            None => None,
        }
    }

    #[verifier::when_used_as_spec(spec_admits)]
    pub fn admits(&self, ray: &Ray) -> (admitted: bool)
        ensures
            admitted == self.spec_admits(ray),
    {
        !self.shape.is_degenerate() && self.isometry.is_finite() && !ray.is_degenerate()
    }

    #[verifier::when_used_as_spec(spec_get_intersection)]
    pub fn get_intersection(&self, ray: &Ray, cast: Option<Hit>) -> (intersection: Option<Hit>)
        ensures
            intersection == self.spec_get_intersection(ray, cast),
    {
        match cast {
            Some(hit) => {
                if self.admits(ray) && hit.toi.is_positive() {
                    Some(hit)
                } else {
                    None
                }
            },
            None => None,
        }
    }

    /// The weight of this object's surface for light that arrives along
    /// `in_coming` and leaves along `out_going`.
    pub fn brdf(&self, in_coming: Vector, out_going: Vector, normal: Vector) -> (weight: Scalar)
        requires
            self.brdf.is_implemented(),
        ensures
            weight == Scalar::spec_one(),
    {
        self.brdf.apply(in_coming, out_going)
    }
}

/// Objects in the order they were added, before a background.
pub struct Scene {
    objects: Vec<Object>,
    background: Color,
}

/// What a scene holds.
pub struct SceneView {
    /// The objects, first added first.
    pub objects: Seq<Object>,
    /// The colour that a ray brings back when it meets nothing.
    pub background: Color,
}

/// What the radiance estimator does for one ray.
#[derive(Clone, Copy, Debug, PartialEq, Eq, Structural)]
pub enum Estimate {
    /// The estimate is this colour; the path ends here.
    Radiance(Color),
    /// The ray met a surface that scatters; the estimate is the average over
    /// sampled directions.
    Scatter(Scatter),
}

/// A scattering event: where it happens and how the path goes on from it.
#[derive(Clone, Copy, Debug, PartialEq, Eq, Structural)]
pub struct Scatter {
    /// The index of the object that was hit.
    pub object: usize,
    /// Where the ray met it.
    pub hit: Hit,
    /// How many directions to sample at this hit, and to average over.
    pub samples: usize,
    /// How many directions each of the sampled rays samples in its turn.
    pub next_samples: usize,
    /// How many reflections each of the sampled rays may still take.
    pub next_depth: usize,
}

impl SceneView {
    /// One candidate per object: what the object makes of its cast. An object
    /// without a cast was missed.
    pub open spec fn candidates(self, ray: Ray, casts: Seq<Option<Hit>>) -> Seq<Option<Hit>> {
        Seq::new(
            self.objects.len(),
            |i: int|
                if i < casts.len() {
                    self.objects[i].spec_get_intersection(&ray, casts[i])
                } else {
                    None
                },
        )
    }

    /// The nearest intersection of `ray` with the scene and the index of the
    /// object it lies on; of two that are equally near, the one on the object
    /// that was added first.
    pub open spec fn closest_intersection(self, ray: Ray, casts: Seq<Option<Hit>>) -> Option<
        (int, Hit),
    > {
        nearest(self.candidates(ray, casts))
    }

    /// What a ray brings back that is cut before it is cast: with no
    /// reflection left, the background. `None` where the ray is to be cast.
    pub open spec fn cut_off(self, max_reflections: usize) -> Option<Color> {
        if max_reflections == 0 {
            Some(self.background)
        } else {
            None
        }
    }

    /// The estimator's decision for `ray`. With no reflection left the path is
    /// cut and brings back the background. A ray that meets nothing brings
    /// back the background, one that meets a light source the colour of the
    /// source. At any other object the path scatters: `rays` directions are
    /// sampled there, and each sampled ray goes on alone with one reflection
    /// fewer.
    pub open spec fn render_ray(
        self,
        ray: Ray,
        casts: Seq<Option<Hit>>,
        rays: usize,
        max_reflections: usize,
    ) -> Estimate {
        match self.cut_off(max_reflections) {
            Some(color) => Estimate::Radiance(color),
            None => match self.closest_intersection(ray, casts) {
                None => Estimate::Radiance(self.background),
                Some((index, hit)) => if self.objects[index].is_light_source {
                    Estimate::Radiance(self.objects[index].color)
                } else {
                    Estimate::Scatter(
                        Scatter {
                            object: index as usize,
                            hit,
                            samples: rays,
                            next_samples: 1,
                            next_depth: (max_reflections - 1) as usize,
                        },
                    )
                },
            },
        }
    }
}

impl View for Scene {
    type V = SceneView;

    closed spec fn view(&self) -> SceneView {
        SceneView { objects: self.objects@, background: self.background }
    }
}

impl Default for Scene {
    fn default() -> (scene: Scene)
        ensures
            scene@.objects.len() == 0,
            scene@.background == Color::black(),
    {
        Scene { objects: Vec::new(), background: Color::default() }
    }
}

impl Scene {
    /// The empty scene before `background`.
    pub fn new(background: Color) -> (scene: Scene)
        ensures
            scene@.objects.len() == 0,
            scene@.background == background,
    {
        Scene { background, objects: Vec::new() }
    }

    /// The scene with `objects` added after those it has, in their order.
    pub fn add_objects(self, objects: Vec<Object>) -> (scene: Scene)
        ensures
            scene@.objects == self@.objects + objects@,
            scene@.background == self@.background,
    {
        let mut scene = self;
        let mut objects = objects;
        scene.objects.append(&mut objects);
        scene
    }

    /// The scene with `object` added after those it has.
    pub fn add_object(self, object: Object) -> (scene: Scene)
        ensures
            scene@.objects == self@.objects.push(object),
            scene@.background == self@.background,
    {
        let mut scene = self;
        scene.objects.push(object);
        scene
    }

    /// The objects, first added first.
    pub fn objects(&self) -> (objects: &Vec<Object>)
        ensures
            objects@ == self@.objects,
    {
        &self.objects
    }

    /// The colour that a ray brings back when it meets nothing.
    pub fn background(&self) -> (background: Color)
        ensures
            background == self@.background,
    {
        self.background
    }

    /// The nearest intersection of `ray` with the scene, from one cast per
    /// object: `casts[i]` is what the geometry kernel found for `ray` and the
    /// object at `i`. The intersection lies strictly ahead of the ray's
    /// origin, no object is met nearer, and no object that was added earlier
    /// is met as near.
    pub fn closest_intersection(&self, ray: &Ray, casts: &Vec<Option<Hit>>) -> (found: Option<
        (usize, Hit),
    >)
        ensures
            match found {
                Some((index, hit)) => {
                    &&& index < self@.objects.len()
                    &&& hit.toi.is_positive()
                    &&& is_nearest(self@.candidates(*ray, casts@), index as int)
                    &&& self@.candidates(*ray, casts@)[index as int] == Some(hit)
                    &&& self@.closest_intersection(*ray, casts@) == Some((index as int, hit))
                },
                None => {
                    &&& all_missed(self@.candidates(*ray, casts@))
                    &&& self@.closest_intersection(*ray, casts@) is None
                },
            },
    {
        let ghost candidates = self@.candidates(*ray, casts@);
        let mut best: Option<(usize, Hit)> = None;
        let mut i: usize = 0;
        while i < self.objects.len()
            invariant
                i <= self.objects.len(),
                candidates == self@.candidates(*ray, casts@),
                candidates.len() == self.objects.len(),
                match best {
                    None => forall|j: int| 0 <= j < i ==> (#[trigger] candidates[j]) is None,
                    Some((index, hit)) => {
                        &&& index < i
                        &&& candidates[index as int] == Some(hit)
                        &&& forall|j: int|
                            0 <= j < i && (#[trigger] candidates[j]) is Some
                                ==> hit.toi.total_key() <= candidates[j]->0.toi.total_key()
                        &&& forall|j: int|
                            0 <= j < index && (#[trigger] candidates[j]) is Some
                                ==> hit.toi.total_key() < candidates[j]->0.toi.total_key()
                    },
                },
            decreases self.objects.len() - i,
        {
            let cast = if i < casts.len() {
                casts[i]
            } else {
                None
            };
            let candidate = self.objects[i].get_intersection(ray, cast);
            assert(candidate == candidates[i as int]);
            match candidate {
                Some(hit) => {
                    let nearer = match best {
                        None => true,
                        Some((_, held)) => hit.toi.total_lt(&held.toi),
                    };
                    if nearer {
                        best = Some((i, hit));
                    }
                },
                None => {},
            }
            i += 1;
        }
        proof {
            match best {
                Some((index, hit)) => {
                    lemma_nearest_found(candidates, index as int);
                },
                None => {
                    assert forall|k: int| !is_nearest(candidates, k) by {
                        if 0 <= k < candidates.len() {
                            assert(candidates[k] is None);
                        }
                    }
                },
            }
        }
        best
    }

    /// What a ray brings back that is cut before it is cast: with no
    /// reflection left, the background. `None` where the ray is to be cast;
    /// the casts then decide, in `render_ray`.
    pub fn cut_off(&self, max_reflections: usize) -> (color: Option<Color>)
        ensures
            color == self@.cut_off(max_reflections),
            max_reflections == 0 <==> color == Some(self@.background),
            max_reflections > 0 <==> color is None,
    {
        if max_reflections == 0 {
            Some(self.background)
        } else {
            None
        }
    }

    /// The estimator's decision for `ray`, from one cast per object. Where
    /// the path is cut off the casts are not looked at.
    pub fn render_ray(
        &self,
        ray: &Ray,
        casts: &Vec<Option<Hit>>,
        rays: usize,
        max_reflections: usize,
    ) -> (estimate: Estimate)
        ensures
            estimate == self@.render_ray(*ray, casts@, rays, max_reflections),
            max_reflections == 0 ==> estimate == Estimate::Radiance(self@.background),
            self@.objects.len() == 0 ==> estimate == Estimate::Radiance(self@.background),
    {
        if let Some(color) = self.cut_off(max_reflections) {
            return Estimate::Radiance(color);
        }
        match self.closest_intersection(ray, casts) {
            None => Estimate::Radiance(self.background),
            Some((index, hit)) => {
                let object = &self.objects[index];
                if object.is_light_source {
                    Estimate::Radiance(object.color)
                } else {
                    Estimate::Scatter(
                        Scatter {
                            object: index,
                            hit,
                            samples: rays,
                            next_samples: 1,
                            next_depth: max_reflections - 1,
                        },
                    )
                }
            },
        }
    }
}

/// Exchanging two objects of a scene, each with its cast, changes neither
/// whether the ray meets the scene nor how far away it does. Where no other
/// object is met at exactly that distance, the nearest intersection lies on
/// the same object as before, at its new place, and is the same.
pub proof fn lemma_closest_intersection_after_swap(
    scene: SceneView,
    ray: Ray,
    casts: Seq<Option<Hit>>,
    a: int,
    b: int,
)
    requires
        0 <= a < scene.objects.len(),
        0 <= b < scene.objects.len(),
        casts.len() == scene.objects.len(),
    ensures
        ({
            let other = SceneView {
                objects: swapped(scene.objects, a, b),
                background: scene.background,
            };
            match (
                scene.closest_intersection(ray, casts),
                other.closest_intersection(ray, swapped(casts, a, b)),
            ) {
                (None, None) => true,
                (Some((i, hit)), Some((k, found))) => {
                    &&& found.toi == hit.toi
                    &&& is_alone_at_distance(scene.candidates(ray, casts), i) ==> {
                        &&& k == swapped_index(i, a, b)
                        &&& found == hit
                        &&& other.objects[k] == scene.objects[i]
                    }
                },
                _ => false,
            }
        }),
{
    let other = SceneView { objects: swapped(scene.objects, a, b), background: scene.background };
    assert(other.candidates(ray, swapped(casts, a, b)) =~= swapped(
        scene.candidates(ray, casts),
        a,
        b,
    ));
    lemma_nearest_after_swap(scene.candidates(ray, casts), a, b);
    lemma_nearest_characterised(scene.candidates(ray, casts));
}

/// A ray whose nearest hit lies on a light source brings back the colour of
/// that source: for any number of samples, and for any number of reflections
/// but zero.
pub proof fn lemma_light_source_ends_path(
    scene: SceneView,
    ray: Ray,
    casts: Seq<Option<Hit>>,
    light: int,
    rays: usize,
    max_reflections: usize,
)
    requires
        is_nearest(scene.candidates(ray, casts), light),
        scene.objects[light].is_light_source,
        max_reflections >= 1,
    ensures
        scene.render_ray(ray, casts, rays, max_reflections) == Estimate::Radiance(
            scene.objects[light].color,
        ),
{
    lemma_nearest_found(scene.candidates(ray, casts), light);
}

/// A ray that meets one light source and no other object brings back the
/// colour of that source: for any number of samples, and for any number of
/// reflections but zero.
pub proof fn lemma_lone_light_source(
    scene: SceneView,
    ray: Ray,
    casts: Seq<Option<Hit>>,
    light: int,
    rays: usize,
    max_reflections: usize,
)
    requires
        0 <= light < scene.objects.len(),
        scene.objects[light].is_light_source,
        forall|j: int|
            0 <= j < scene.objects.len() ==> ((#[trigger] scene.candidates(ray, casts)[j]) is Some
                <==> j == light),
        max_reflections >= 1,
    ensures
        scene.render_ray(ray, casts, rays, max_reflections) == Estimate::Radiance(
            scene.objects[light].color,
        ),
{
    lemma_light_source_ends_path(scene, ray, casts, light, rays, max_reflections);
}

/// The estimator invents no light. A colour that it brings back without
/// scattering is the background or the colour of a light source of the scene,
/// and where it scatters it does so at an object of the scene that is no light
/// source. In a scene without light sources the only colour that ends a path
/// is the background.
pub proof fn lemma_no_invented_light(
    scene: SceneView,
    ray: Ray,
    casts: Seq<Option<Hit>>,
    rays: usize,
    max_reflections: usize,
)
    requires
        scene.objects.len() <= usize::MAX,
    ensures
        match scene.render_ray(ray, casts, rays, max_reflections) {
            Estimate::Radiance(color) => {
                ||| color == scene.background
                ||| exists|i: int|
                    0 <= i < scene.objects.len() && (#[trigger] scene.objects[i]).is_light_source
                        && color == scene.objects[i].color
            },
            Estimate::Scatter(scatter) => {
                &&& scatter.object < scene.objects.len()
                &&& !scene.objects[scatter.object as int].is_light_source
            },
        },
        (forall|i: int|
            0 <= i < scene.objects.len() ==> !(#[trigger] scene.objects[i]).is_light_source) ==> (
        scene.render_ray(ray, casts, rays, max_reflections) matches Estimate::Radiance(color)
            ==> color == scene.background),
{
    lemma_nearest_characterised(scene.candidates(ray, casts));
}

/// Every path ends: where the estimator scatters, each sampled ray is left
/// with fewer reflections than the ray that was scattered, and samples one
/// direction at a time.
pub proof fn lemma_scattered_rays_are_shorter(
    scene: SceneView,
    ray: Ray,
    casts: Seq<Option<Hit>>,
    rays: usize,
    max_reflections: usize,
)
    ensures
        scene.render_ray(ray, casts, rays, max_reflections) matches Estimate::Scatter(scatter) ==> {
            &&& scatter.samples == rays
            &&& scatter.next_samples == 1
            &&& scatter.next_depth + 1 == max_reflections
        },
{
}

} // verus!
