use parry3d::math::{Isometry as KernelIsometry, Point as KernelPoint, Real, Vector as KernelVector};
use parry3d::query::{Ray as KernelRay, RayCast};
use parry3d::shape::Ball as KernelBall;
use ray::geometry::{Hit, Isometry, Point, Ray, Vector};
use ray::objects::{Brdf, Color, Estimate, Object, Scatter, Scene, Shape};
use ray::pixels::Rgb;
use ray::scalar::Scalar;
use ray::shape::{Ball, Capsule, Cuboid, HalfSpace, RoundCuboid};

fn s(x: f32) -> Scalar {
    Scalar::from_bits(x.to_bits())
}

fn color(r: f32, g: f32, b: f32) -> Color {
    Color(s(r), s(g), s(b))
}

fn hit(toi: f32) -> Hit {
    Hit::new(s(toi), Vector::new(s(0.0), s(0.0), s(-1.0)), true)
}

/// A ball of the given radius around `(0, 0, z)`.
fn ball_at(z: f32, radius: f32, colour: Color, light: bool) -> Object {
    Object {
        shape: Shape::Ball(Ball::new(s(radius))),
        isometry: Isometry::translation(s(0.0), s(0.0), s(z)),
        brdf: Brdf::One,
        color: colour,
        is_light_source: light,
    }
}

fn along_z() -> Ray {
    Ray::new(Point::origin(), Vector::new(s(0.0), s(0.0), s(1.0)))
}

/// What the geometry kernel finds for a ray from the origin along z and a
/// ball around `(0, 0, z)`.
fn cast_ball(z: f32, radius: f32) -> Option<Hit> {
    let ray = KernelRay::new(KernelPoint::new(0.0, 0.0, 0.0), KernelVector::new(0.0, 0.0, 1.0));
    let placed = KernelIsometry::translation(0.0, 0.0, z);
    KernelBall::new(radius)
        .cast_ray_and_get_normal(&placed, &ray, Real::MAX, true)
        .map(|found| {
            Hit::new(
                s(found.toi),
                Vector::new(s(found.normal.x), s(found.normal.y), s(found.normal.z)),
                ray.dir.dot(&found.normal) <= 0.0,
            )
        })
}

fn white() -> Color {
    color(1.0, 1.0, 1.0)
}

#[test]
fn a_new_scene_is_empty() {
    let scene = Scene::new(white());
    assert_eq!(scene.objects().len(), 0);
    assert_eq!(scene.background(), white());
    let plain = Scene::default();
    assert_eq!(plain.objects().len(), 0);
    assert_eq!(plain.background(), color(0.0, 0.0, 0.0));
    assert_eq!(Color::default(), color(0.0, 0.0, 0.0));
}

#[test]
fn objects_keep_the_order_in_which_they_were_added() {
    let a = ball_at(1.0, 1.0, color(0.1, 0.0, 0.0), false);
    let b = ball_at(2.0, 1.0, color(0.2, 0.0, 0.0), false);
    let c = ball_at(3.0, 1.0, color(0.3, 0.0, 0.0), true);
    let d = ball_at(4.0, 1.0, color(0.4, 0.0, 0.0), false);
    let scene = Scene::new(white()).add_object(a).add_objects(vec![b, c]).add_object(d);
    assert_eq!(scene.objects().clone(), vec![a, b, c, d]);
    assert_eq!(scene.background(), white());
    let same = Scene::new(white()).add_objects(vec![]).add_objects(vec![a, b, c, d]);
    assert_eq!(same.objects().clone(), vec![a, b, c, d]);
}

#[test]
fn an_empty_scene_returns_the_background() {
    let scene = Scene::new(color(0.2, 0.4, 0.6));
    for rays in [0usize, 1, 2, 3200] {
        for depth in [0usize, 1, 2, 10] {
            for casts in [vec![], vec![Some(hit(1.0))], vec![None, Some(hit(2.0))]] {
                assert_eq!(
                    scene.render_ray(&along_z(), &casts, rays, depth),
                    Estimate::Radiance(color(0.2, 0.4, 0.6))
                );
                assert_eq!(scene.closest_intersection(&along_z(), &casts), None);
            }
        }
    }
}

#[test]
fn no_reflection_left_returns_the_background() {
    let lamp = color(25.0, 25.0, 25.0);
    let scene = Scene::new(color(0.2, 0.4, 0.6))
        .add_object(ball_at(5.0, 1.0, lamp, true))
        .add_object(ball_at(9.0, 1.0, color(0.9, 0.9, 0.9), false));
    let casts = vec![cast_ball(5.0, 1.0), cast_ball(9.0, 1.0)];
    assert!(casts[0].is_some() && casts[1].is_some());
    for rays in [1usize, 5, 3200] {
        assert_eq!(
            scene.render_ray(&along_z(), &casts, rays, 0),
            Estimate::Radiance(color(0.2, 0.4, 0.6))
        );
    }
}

#[test]
fn a_lone_light_source_returns_its_colour() {
    let lamp = color(30.0, 24.0, 15.0);
    let scene = Scene::new(color(0.2, 0.4, 0.6)).add_object(ball_at(5.0, 1.0, lamp, true));
    let casts = vec![cast_ball(5.0, 1.0)];
    assert_eq!(casts[0].map(|h| f32::from_bits(h.toi.to_bits())), Some(4.0));
    for rays in [1usize, 2, 7, 3200] {
        for depth in [1usize, 2, 10] {
            assert_eq!(
                scene.render_ray(&along_z(), &casts, rays, depth),
                Estimate::Radiance(lamp)
            );
        }
    }
}

#[test]
fn a_light_behind_a_missed_object_returns_its_colour() {
    let lamp = color(30.0, 24.0, 15.0);
    let scene = Scene::new(white())
        .add_object(ball_at(-5.0, 1.0, color(0.5, 0.5, 0.5), false))
        .add_object(ball_at(5.0, 1.0, lamp, true));
    let casts = vec![cast_ball(-5.0, 1.0), cast_ball(5.0, 1.0)];
    assert_eq!(casts[0], None);
    assert_eq!(
        scene.closest_intersection(&along_z(), &casts),
        Some((1, casts[1].unwrap()))
    );
    assert_eq!(scene.render_ray(&along_z(), &casts, 3, 4), Estimate::Radiance(lamp));
}

#[test]
fn the_nearer_of_two_overlapping_balls_wins_in_either_order() {
    let far = ball_at(10.0, 3.0, color(0.1, 0.8, 0.9), false);
    let near = ball_at(8.0, 3.0, color(0.9, 0.9, 0.9), false);
    let far_cast = cast_ball(10.0, 3.0);
    let near_cast = cast_ball(8.0, 3.0);
    assert_eq!(f32::from_bits(far_cast.unwrap().toi.to_bits()), 7.0);
    assert_eq!(f32::from_bits(near_cast.unwrap().toi.to_bits()), 5.0);

    let one = Scene::new(white()).add_object(far).add_object(near);
    let found = one.closest_intersection(&along_z(), &vec![far_cast, near_cast]);
    assert_eq!(found, Some((1, near_cast.unwrap())));
    assert_eq!(one.objects()[found.unwrap().0], near);

    let other = Scene::new(white()).add_object(near).add_object(far);
    let found = other.closest_intersection(&along_z(), &vec![near_cast, far_cast]);
    assert_eq!(found, Some((0, near_cast.unwrap())));
    assert_eq!(other.objects()[found.unwrap().0], near);
}

#[test]
fn of_two_equally_near_hits_the_first_object_wins() {
    let a = ball_at(8.0, 3.0, color(0.1, 0.1, 0.1), false);
    let b = ball_at(8.0, 3.0, color(0.2, 0.2, 0.2), false);
    let c = ball_at(9.0, 3.0, color(0.3, 0.3, 0.3), false);
    let cast = cast_ball(8.0, 3.0);
    let behind = cast_ball(9.0, 3.0);
    let scene = Scene::new(white()).add_objects(vec![c, a, b]);
    let found = scene.closest_intersection(&along_z(), &vec![behind, cast, cast]);
    assert_eq!(found, Some((1, cast.unwrap())));
    let scene = Scene::new(white()).add_objects(vec![b, a, c]);
    let found = scene.closest_intersection(&along_z(), &vec![cast, cast, behind]);
    assert_eq!(found, Some((0, cast.unwrap())));
    assert_eq!(scene.objects()[0], b);
}

#[test]
fn hits_at_or_behind_the_origin_do_not_count() {
    let object = ball_at(0.0, 3.0, color(0.5, 0.5, 0.5), false);
    let ray = along_z();
    // The origin of the ray lies inside the ball: the kernel reports a hit at zero.
    let inside = cast_ball(0.0, 3.0);
    assert_eq!(inside.map(|h| f32::from_bits(h.toi.to_bits())), Some(0.0));
    assert_eq!(object.get_intersection(&ray, inside), None);
    assert_eq!(object.get_intersection(&ray, Some(hit(0.0))), None);
    assert_eq!(object.get_intersection(&ray, Some(hit(-0.0))), None);
    assert_eq!(object.get_intersection(&ray, Some(hit(-2.0))), None);
    assert_eq!(object.get_intersection(&ray, Some(hit(f32::NAN))), None);
    assert_eq!(object.get_intersection(&ray, None), None);
    assert_eq!(object.get_intersection(&ray, Some(hit(1.0e-40))), Some(hit(1.0e-40)));
    assert_eq!(object.get_intersection(&ray, Some(hit(3.0))), Some(hit(3.0)));

    let scene = Scene::new(white()).add_object(object).add_object(object);
    assert_eq!(
        scene.closest_intersection(&ray, &vec![Some(hit(-1.0)), Some(hit(0.0))]),
        None
    );
    assert_eq!(
        scene.closest_intersection(&ray, &vec![Some(hit(-1.0)), Some(hit(6.0))]),
        Some((1, hit(6.0)))
    );
    assert_eq!(
        scene.render_ray(&ray, &vec![Some(hit(f32::NAN)), Some(hit(-6.0))], 4, 4),
        Estimate::Radiance(white())
    );
}

#[test]
fn an_object_without_a_cast_is_missed() {
    let a = ball_at(8.0, 3.0, color(0.1, 0.1, 0.1), false);
    let b = ball_at(6.0, 3.0, color(0.2, 0.2, 0.2), false);
    let scene = Scene::new(white()).add_objects(vec![a, b]);
    assert_eq!(
        scene.closest_intersection(&along_z(), &vec![Some(hit(5.0))]),
        Some((0, hit(5.0)))
    );
    assert_eq!(scene.closest_intersection(&along_z(), &vec![]), None);
    assert_eq!(
        scene.closest_intersection(&along_z(), &vec![Some(hit(5.0)), Some(hit(3.0)), Some(hit(1.0))]),
        Some((1, hit(3.0)))
    );
}

#[test]
fn degenerate_shapes_are_never_hit() {
    let zero = Vector::zero();
    let unit = Vector::new(s(1.0), s(1.0), s(1.0));
    let up = Vector::new(s(0.0), s(0.0), s(1.0));
    let a = Point::new(s(0.0), s(-1.0), s(0.0));
    let b = Point::new(s(0.0), s(1.0), s(0.0));
    let bad = [
        Shape::Ball(Ball::new(s(0.0))),
        Shape::Ball(Ball::new(s(-1.0))),
        Shape::Ball(Ball::new(s(f32::NAN))),
        Shape::Ball(Ball::new(s(f32::INFINITY))),
        Shape::Cuboid(Cuboid::new(Vector::new(s(1.0), s(0.0), s(1.0)))),
        Shape::Cuboid(Cuboid::new(Vector::new(s(1.0), s(1.0), s(-1.0)))),
        Shape::Cuboid(Cuboid::new(zero)),
        Shape::Capsule(Capsule::new(a, b, s(0.0))),
        Shape::Capsule(Capsule::new(a, Point::new(s(f32::NAN), s(0.0), s(0.0)), s(1.0))),
        Shape::RoundCuboid(RoundCuboid::new(unit, s(0.0))),
        Shape::RoundCuboid(RoundCuboid::new(zero, s(0.5))),
        Shape::HalfSpace(HalfSpace::new(zero)),
        Shape::HalfSpace(HalfSpace::new(Vector::new(s(0.0), s(f32::INFINITY), s(0.0)))),
    ];
    for shape in bad {
        assert!(shape.is_degenerate(), "{:?}", shape);
        let object = Object {
            shape,
            isometry: Isometry::identity(),
            brdf: Brdf::One,
            color: white(),
            is_light_source: true,
        };
        assert!(!object.admits(&along_z()));
        assert_eq!(object.get_intersection(&along_z(), Some(hit(2.0))), None);
        let scene = Scene::new(color(0.5, 0.5, 0.5)).add_object(object);
        assert_eq!(
            scene.render_ray(&along_z(), &vec![Some(hit(2.0))], 3, 3),
            Estimate::Radiance(color(0.5, 0.5, 0.5))
        );
    }
    let good = [
        Shape::Ball(Ball::new(s(1.0e-40))),
        Shape::Ball(Ball::new(s(f32::MAX))),
        Shape::Cuboid(Cuboid::new(unit)),
        Shape::Capsule(Capsule::new(a, b, s(0.5))),
        Shape::Capsule(Capsule::new(a, a, s(0.5))),
        Shape::RoundCuboid(RoundCuboid::new(unit, s(0.1))),
        Shape::HalfSpace(HalfSpace::new(up)),
    ];
    for shape in good {
        assert!(!shape.is_degenerate(), "{:?}", shape);
        let object = Object {
            shape,
            isometry: Isometry::identity(),
            brdf: Brdf::One,
            color: white(),
            is_light_source: true,
        };
        assert!(object.admits(&along_z()));
        assert_eq!(object.get_intersection(&along_z(), Some(hit(2.0))), Some(hit(2.0)));
    }
}

#[test]
fn degenerate_rays_and_placements_hit_nothing() {
    let object = ball_at(5.0, 1.0, white(), true);
    let no_direction = Ray::new(Point::origin(), Vector::zero());
    let hole = Ray::new(Point::new(s(f32::NAN), s(0.0), s(0.0)), along_z().dir);
    assert!(!object.admits(&no_direction));
    assert!(!object.admits(&hole));
    assert_eq!(object.get_intersection(&no_direction, Some(hit(4.0))), None);
    assert_eq!(object.get_intersection(&hole, Some(hit(4.0))), None);
    let mut adrift = object;
    adrift.isometry.translation.y = s(f32::INFINITY);
    assert!(!adrift.admits(&along_z()));
    assert_eq!(adrift.get_intersection(&along_z(), Some(hit(4.0))), None);
    let scene = Scene::new(color(0.1, 0.2, 0.3)).add_object(object);
    assert_eq!(
        scene.render_ray(&no_direction, &vec![Some(hit(4.0))], 2, 2),
        Estimate::Radiance(color(0.1, 0.2, 0.3))
    );
}

#[test]
fn a_diffuse_surface_scatters() {
    let matte = ball_at(8.0, 3.0, color(0.9, 0.9, 0.9), false);
    let lamp = ball_at(20.0, 3.0, color(25.0, 25.0, 25.0), true);
    let scene = Scene::new(white()).add_object(lamp).add_object(matte);
    let casts = vec![cast_ball(20.0, 3.0), cast_ball(8.0, 3.0)];
    let found = casts[1].unwrap();
    assert_eq!(f32::from_bits(found.toi.to_bits()), 5.0);
    assert_eq!(found.normal, Vector::new(s(0.0), s(0.0), s(-1.0)));
    assert!(found.front);
    assert_eq!(
        scene.render_ray(&along_z(), &casts, 3200, 10),
        Estimate::Scatter(Scatter {
            object: 1,
            hit: found,
            samples: 3200,
            next_samples: 1,
            next_depth: 9,
        })
    );
    assert_eq!(
        scene.render_ray(&along_z(), &casts, 1, 1),
        Estimate::Scatter(Scatter {
            object: 1,
            hit: found,
            samples: 1,
            next_samples: 1,
            next_depth: 0,
        })
    );
}

#[test]
fn a_scene_without_lights_ends_paths_only_at_the_background() {
    let a = ball_at(8.0, 3.0, color(0.9, 0.1, 0.1), false);
    let b = ball_at(20.0, 3.0, color(0.1, 0.9, 0.1), false);
    let scene = Scene::new(color(0.3, 0.3, 0.3)).add_objects(vec![a, b]);
    let all_casts = [
        vec![None, None],
        vec![cast_ball(8.0, 3.0), None],
        vec![None, cast_ball(20.0, 3.0)],
        vec![cast_ball(8.0, 3.0), cast_ball(20.0, 3.0)],
    ];
    for casts in all_casts {
        for depth in [0usize, 1, 5] {
            match scene.render_ray(&along_z(), &casts, 4, depth) {
                Estimate::Radiance(c) => assert_eq!(c, color(0.3, 0.3, 0.3)),
                Estimate::Scatter(scatter) => {
                    assert!(!scene.objects()[scatter.object].is_light_source);
                    assert_eq!(scatter.next_depth + 1, depth);
                }
            }
        }
    }
}

#[test]
fn only_the_constant_weight_is_implemented() {
    assert_eq!(Brdf::default(), Brdf::One);
    assert!(Brdf::One.is_implemented());
    assert!(!Brdf::Diffuse.is_implemented());
    assert!(!Brdf::Mirror.is_implemented());
    assert!(!Brdf::Glossy.is_implemented());
    let down = Vector::new(s(0.0), s(0.0), s(-1.0));
    let up = Vector::new(s(0.0), s(0.0), s(1.0));
    assert_eq!(f32::from_bits(Brdf::One.apply(down, up).to_bits()), 1.0);
    let object = ball_at(1.0, 1.0, white(), false);
    assert_eq!(f32::from_bits(object.brdf(down, up, up).to_bits()), 1.0);
}

#[test]
fn a_scaled_colour_becomes_a_pixel() {
    assert_eq!(color(0.0, 127.5, 255.0).to_rgb(), Rgb::new(0, 127, 255));
    assert_eq!(color(-4.0, 300.0, f32::NAN).to_rgb(), Rgb::new(0, 255, 0));
    assert_eq!(color(1.0, 2.9, 254.9).to_rgb(), Rgb::new(1, 2, 254));
    let lamp = (25.0f32 * 255.0, 0.5f32 * 255.0, 0.001f32 * 255.0);
    assert_eq!(
        color(lamp.0, lamp.1, lamp.2).to_rgb(),
        Rgb::new(lamp.0 as u8, lamp.1 as u8, lamp.2 as u8)
    );
    assert_eq!(color(lamp.0, lamp.1, lamp.2).to_rgb(), Rgb::new(255, 127, 0));
}

#[test]
fn the_same_inputs_give_the_same_estimate() {
    let matte = ball_at(8.0, 3.0, color(0.9, 0.9, 0.9), false);
    let lamp = ball_at(20.0, 3.0, color(25.0, 25.0, 25.0), true);
    let scene = Scene::new(white()).add_object(matte).add_object(lamp);
    let casts = vec![cast_ball(8.0, 3.0), cast_ball(20.0, 3.0)];
    let again = vec![cast_ball(8.0, 3.0), cast_ball(20.0, 3.0)];
    assert_eq!(casts, again);
    for depth in [0usize, 1, 4] {
        assert_eq!(
            scene.render_ray(&along_z(), &casts, 16, depth),
            scene.render_ray(&along_z(), &again, 16, depth)
        );
        assert_eq!(
            scene.closest_intersection(&along_z(), &casts),
            scene.closest_intersection(&along_z(), &again)
        );
    }
}

#[test]
fn shapes_keep_their_lengths() {
    let unit = Vector::new(s(1.0), s(2.0), s(3.0));
    let a = Point::new(s(0.0), s(-1.0), s(0.0));
    let b = Point::new(s(0.0), s(1.0), s(0.0));
    assert_eq!(Ball::new(s(3.0)).radius, s(3.0));
    assert_eq!(Cuboid::new(unit).half_extents, unit);
    let capsule = Capsule::new(a, b, s(0.5));
    assert_eq!(capsule.segment.a, a);
    assert_eq!(capsule.segment.b, b);
    assert_eq!(capsule.radius, s(0.5));
    let round = RoundCuboid::new(unit, s(0.25));
    assert_eq!(round.inner_shape.half_extents, unit);
    assert_eq!(round.border_radius, s(0.25));
    assert_eq!(HalfSpace::new(unit).normal, unit);
    assert!(!Ball::new(s(3.0)).is_degenerate());
    assert!(Ball::new(s(-3.0)).is_degenerate());
    assert!(!Cuboid::new(unit).is_degenerate());
    assert!(!capsule.is_degenerate());
    assert!(!round.is_degenerate());
    assert!(!HalfSpace::new(unit).is_degenerate());
}

#[test]
fn a_path_is_cut_off_when_no_reflection_is_left() {
    let scene = Scene::new(color(0.2, 0.4, 0.6)).add_object(ball_at(5.0, 1.0, white(), true));
    assert_eq!(scene.cut_off(0), Some(color(0.2, 0.4, 0.6)));
    assert_eq!(scene.cut_off(1), None);
    assert_eq!(scene.cut_off(10), None);
    assert_eq!(scene.cut_off(usize::MAX), None);
    assert_eq!(Scene::default().cut_off(0), Some(color(0.0, 0.0, 0.0)));
}
