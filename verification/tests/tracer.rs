use pathtracer::materials::{DiffuseSample, GlossySample, Material, Matte, Metal, Sample};
use pathtracer::objects::{Crossing, Crossings, HitRecord, Hittable, HittableList, Probe, Sphere};
use pathtracer::ray::Ray;
use pathtracer::scalar::Scalar;
use pathtracer::tracer::{bounce, farthest_hit, intersect, nearest_hit, Bounce, Trace, MAX_DEPTH};
use pathtracer::vec3::Vec3;

fn s(x: f64) -> Scalar {
    Scalar::from_bits(x.to_bits())
}

fn v(x: f64, y: f64, z: f64) -> Vec3 {
    Vec3::new(s(x), s(y), s(z))
}

fn grey() -> Material {
    Material::Matte(Matte::new(v(0.5, 0.5, 0.5)))
}

fn plain(t: f64) -> Crossing {
    Crossing { t: s(t), p: v(t, 0.0, 0.0), normal: v(0.0, 1.0, 0.0) }
}

fn roots(discriminant: f64, near: f64, far: f64) -> Crossings {
    Crossings { discriminant: s(discriminant), near: plain(near), far: plain(far) }
}

fn one_sphere() -> Hittable {
    Hittable::List(HittableList::new(vec![Hittable::Sphere(Sphere::new(Vec3::zero(), s(1.0), grey()))]))
}

fn found(discriminant: f64, near: f64, far: f64) -> Probe {
    Probe::List(vec![Probe::Sphere(roots(discriminant, near, far))])
}

fn upward() -> Sample {
    Sample::Matte(DiffuseSample { direction: v(0.0, 1.0, 0.0) })
}

#[test]
fn the_interval_of_hits_runs_from_a_thousandth_to_the_largest_number() {
    assert_eq!(nearest_hit().to_bits(), 0.001f64.to_bits());
    assert_eq!(farthest_hit().to_bits(), f64::MAX.to_bits());
    assert_eq!(MAX_DEPTH, 50);
}

#[test]
fn without_geometry_every_ray_ends_in_the_sky() {
    let world = Hittable::List(HittableList::new(Vec::new()));
    for depth in [0, 1, 49, 50, 51, 1000, usize::MAX] {
        assert_eq!(intersect(&world, &Probe::List(Vec::new()), depth), Trace::Background);
    }
}

#[test]
fn a_miss_ends_in_the_sky_at_every_depth() {
    let world = one_sphere();
    for depth in [0, 49, 50, usize::MAX] {
        assert_eq!(intersect(&world, &found(-1.0, 2.0, 3.0), depth), Trace::Background);
        assert_eq!(intersect(&world, &found(1.0, -3.0, -2.0), depth), Trace::Background);
    }
}

#[test]
fn a_hit_scatters_below_depth_fifty_and_is_black_from_there_on() {
    let world = one_sphere();
    let hit = found(1.0, 2.0, 3.0);
    let rec = HitRecord::new(s(2.0), v(2.0, 0.0, 0.0), v(0.0, 1.0, 0.0), grey());
    for depth in [0, 1, 25, 49] {
        assert_eq!(intersect(&world, &hit, depth), Trace::Scatter(rec));
    }
    for depth in [50, 51, 1000, usize::MAX] {
        assert_eq!(intersect(&world, &hit, depth), Trace::Absorbed);
    }
}

#[test]
fn a_hit_nearer_than_a_thousandth_does_not_count() {
    let world = one_sphere();
    match intersect(&world, &found(1.0, 0.0005, 2.0), 0) {
        Trace::Scatter(rec) => assert_eq!(rec.t, s(2.0)),
        other => panic!("{:?}", other),
    }
    match intersect(&world, &found(1.0, 0.001, 2.0), 0) {
        Trace::Scatter(rec) => assert_eq!(rec.t, s(2.0)),
        other => panic!("{:?}", other),
    }
    match intersect(&world, &found(1.0, 0.0011, 2.0), 0) {
        Trace::Scatter(rec) => assert_eq!(rec.t, s(0.0011)),
        other => panic!("{:?}", other),
    }
    assert_eq!(intersect(&world, &found(1.0, 0.0005, f64::INFINITY), 0), Trace::Background);
    assert_eq!(intersect(&world, &found(1.0, 0.0005, f64::MAX), 0), Trace::Background);
}

#[test]
fn a_single_sphere_is_a_world_too() {
    let world = Hittable::Sphere(Sphere::new(Vec3::zero(), s(1.0), grey()));
    match intersect(&world, &Probe::Sphere(roots(1.0, 2.0, 3.0)), 3) {
        Trace::Scatter(rec) => {
            assert_eq!(rec.t, s(2.0));
            assert_eq!(rec.mat, grey());
        }
        other => panic!("{:?}", other),
    }
    assert_eq!(intersect(&world, &Probe::Sphere(roots(0.0, 2.0, 3.0)), 3), Trace::Background);
}

#[test]
fn a_scattered_ray_goes_one_level_deeper() {
    let r = Ray::new(Vec3::zero(), v(1.0, 0.0, 0.0));
    let rec = HitRecord::new(s(2.0), v(2.0, 0.0, 0.0), v(0.0, 1.0, 0.0), grey());
    for depth in [0, 1, 48, 49] {
        assert_eq!(
            bounce(&r, &rec, &upward(), depth),
            Bounce::Continue {
                attenuation: v(0.5, 0.5, 0.5),
                ray: Ray::new(v(2.0, 0.0, 0.0), v(0.0, 1.0, 0.0)),
                depth: depth + 1,
            }
        );
    }
}

#[test]
fn nothing_scatters_from_depth_fifty_on() {
    let r = Ray::new(Vec3::zero(), v(1.0, 0.0, 0.0));
    let rec = HitRecord::new(s(2.0), v(2.0, 0.0, 0.0), v(0.0, 1.0, 0.0), grey());
    for depth in [50, 51, 1000, usize::MAX] {
        assert_eq!(bounce(&r, &rec, &upward(), depth), Bounce::Absorbed);
    }
}

#[test]
fn an_absorbing_surface_ends_the_path() {
    let r = Ray::new(Vec3::zero(), v(1.0, 0.0, 0.0));
    let metal = Material::Metal(Metal::new(v(0.8, 0.8, 0.8), s(1.0)));
    let rec = HitRecord::new(s(2.0), v(2.0, 0.0, 0.0), v(0.0, 1.0, 0.0), metal);
    let inward = Sample::Metal(GlossySample { direction: v(0.0, -1.0, 0.0), facing: s(-1.0) });
    let outward = Sample::Metal(GlossySample { direction: v(0.0, 1.0, 0.0), facing: s(1.0) });
    assert_eq!(bounce(&r, &rec, &inward, 0), Bounce::Absorbed);
    assert_eq!(
        bounce(&r, &rec, &outward, 0),
        Bounce::Continue {
            attenuation: v(0.8, 0.8, 0.8),
            ray: Ray::new(v(2.0, 0.0, 0.0), v(0.0, 1.0, 0.0)),
            depth: 1,
        }
    );
}

#[test]
fn a_path_that_always_hits_and_always_scatters_stops_after_fifty_events() {
    let world = one_sphere();
    let hit = found(1.0, 2.0, 3.0);
    let mut ray = Ray::new(Vec3::zero(), v(1.0, 0.0, 0.0));
    let mut depth = 0;
    let mut events = 0;
    let last = loop {
        match intersect(&world, &hit, depth) {
            Trace::Scatter(rec) => match bounce(&ray, &rec, &upward(), depth) {
                Bounce::Continue { ray: next, depth: deeper, .. } => {
                    events += 1;
                    ray = next;
                    depth = deeper;
                }
                Bounce::Absorbed => panic!("absorbed by a surface that never absorbs"),
            },
            other => break other,
        }
        assert!(events <= 50);
    };
    assert_eq!(events, 50);
    assert_eq!(depth, 50);
    assert_eq!(last, Trace::Absorbed);
}
