use cgmath::{InnerSpace, Vector3};
use pathtracer::materials::{Empty, Material, Matte, Metal};
use pathtracer::objects::{Crossing, Crossings, HitRecord, Hittable, HittableList, Probe, Sphere};
use pathtracer::ray::Ray;
use pathtracer::scalar::Scalar;
use pathtracer::vec3::Vec3;

type V = Vector3<f64>;

fn s(x: f64) -> Scalar {
    Scalar::from_bits(x.to_bits())
}

fn f(x: Scalar) -> f64 {
    f64::from_bits(x.to_bits())
}

fn v(x: f64, y: f64, z: f64) -> Vec3 {
    Vec3::new(s(x), s(y), s(z))
}

fn pack(a: V) -> Vec3 {
    v(a.x, a.y, a.z)
}

fn unpack(a: Vec3) -> V {
    V::new(f(a.x), f(a.y), f(a.z))
}

fn crossing(r: &Ray, sphere: &Sphere, root: f64) -> Crossing {
    let p = unpack(r.origin) + root * unpack(r.direction);
    Crossing { t: s(root), p: pack(p), normal: pack((p - unpack(sphere.center)) / f(sphere.radius)) }
}

fn crossings(r: &Ray, sphere: &Sphere) -> Crossings {
    let direction = unpack(r.direction);
    let oc = unpack(r.origin) - unpack(sphere.center);
    let a = direction.dot(direction);
    let b = oc.dot(direction);
    let c = oc.dot(oc) - f(sphere.radius).powi(2);
    let discriminant = b * b - a * c;
    Crossings {
        discriminant: s(discriminant),
        near: crossing(r, sphere, (-b - discriminant.sqrt()) / a),
        far: crossing(r, sphere, (-b + discriminant.sqrt()) / a),
    }
}

fn probe(r: &Ray, geometry: &Hittable) -> Probe {
    match geometry {
        Hittable::Sphere(sphere) => Probe::Sphere(crossings(r, sphere)),
        Hittable::List(scene) => Probe::List(probes(r, &scene.list)),
    }
}

fn probes(r: &Ray, members: &Vec<Hittable>) -> Vec<Probe> {
    members.iter().map(|member| probe(r, member)).collect()
}

fn ball(z: f64, mat: Material) -> Hittable {
    Hittable::Sphere(Sphere::new(v(0.0, 0.0, z), s(0.5), mat))
}

fn scene(members: Vec<Hittable>) -> Hittable {
    Hittable::List(HittableList::new(members))
}

fn red() -> Material {
    Material::Matte(Matte::new(v(1.0, 0.0, 0.0)))
}

fn steel() -> Material {
    Material::Metal(Metal::new(v(0.8, 0.8, 0.8), s(0.1)))
}

fn down_z() -> Ray {
    Ray::new(v(0.0, 0.0, 0.0), v(0.0, 0.0, -1.0))
}

fn marked() -> HitRecord {
    HitRecord::new(s(77.0), v(7.0, 7.0, 7.0), v(7.0, 7.0, 7.0), steel())
}

fn plain(t: f64) -> Crossing {
    Crossing { t: s(t), p: v(t, 0.0, 0.0), normal: v(0.0, t, 0.0) }
}

fn roots(discriminant: f64, near: f64, far: f64) -> Crossings {
    Crossings { discriminant: s(discriminant), near: plain(near), far: plain(far) }
}

#[test]
fn constructors_keep_their_parts() {
    let r = Ray::new(v(1.0, 2.0, 3.0), v(4.0, 5.0, 6.0));
    assert_eq!(r.origin, v(1.0, 2.0, 3.0));
    assert_eq!(r.direction, v(4.0, 5.0, 6.0));
    assert_eq!(Ray::empty(), Ray::new(v(0.0, 0.0, 0.0), v(0.0, 0.0, 0.0)));

    let rec = HitRecord::new(s(2.5), v(1.0, 1.0, 1.0), v(0.0, 1.0, 0.0), red());
    assert_eq!(rec.t, s(2.5));
    assert_eq!(rec.p, v(1.0, 1.0, 1.0));
    assert_eq!(rec.normal, v(0.0, 1.0, 0.0));
    assert_eq!(rec.mat, red());

    let blank = HitRecord::empty();
    assert_eq!(blank.t, s(0.0));
    assert_eq!(blank.p, Vec3::zero());
    assert_eq!(blank.normal, Vec3::zero());
    assert_eq!(blank.mat, Material::Empty(Empty {}));

    let sphere = Sphere::new(v(0.0, 0.0, -1.0), s(0.5), red());
    assert_eq!(sphere.center, v(0.0, 0.0, -1.0));
    assert_eq!(sphere.radius, s(0.5));
    assert_eq!(sphere.mat, red());

    let listed = HittableList::new(vec![
        Hittable::Sphere(sphere),
        Hittable::Sphere(sphere),
        Hittable::Sphere(sphere),
    ]);
    assert_eq!(listed.size, 3);
    assert_eq!(listed.list.len(), 3);
}

#[test]
fn a_sphere_needs_a_positive_radius() {
    assert!(Sphere::new(Vec3::zero(), s(0.5), red()).is_valid());
    assert!(!Sphere::new(Vec3::zero(), s(0.0), red()).is_valid());
    assert!(!Sphere::new(Vec3::zero(), s(-1.0), red()).is_valid());
    assert!(!Sphere::new(Vec3::zero(), s(f64::NAN), red()).is_valid());
}

#[test]
fn negating_a_vector_negates_each_component() {
    let a = v(1.5, -2.0, 0.0);
    assert_eq!(a.neg(), v(-1.5, 2.0, -0.0));
    assert_eq!(a.neg().neg(), a);
    assert_eq!(Vec3::from_bits(1, 2, 3).x.to_bits(), 1);
    assert_eq!(Vec3::from_bits(1, 2, 3).y.to_bits(), 2);
    assert_eq!(Vec3::from_bits(1, 2, 3).z.to_bits(), 3);
}

#[test]
fn the_near_root_is_taken_when_it_lies_inside_the_interval() {
    let sphere = Sphere::new(Vec3::zero(), s(1.0), red());
    let mut rec = marked();
    assert!(sphere.hit(&roots(4.0, 2.0, 6.0), s(1.0), s(10.0), &mut rec));
    assert_eq!(rec, HitRecord::new(s(2.0), v(2.0, 0.0, 0.0), v(0.0, 2.0, 0.0), red()));
}

#[test]
fn the_far_root_is_taken_when_the_near_one_lies_outside() {
    let sphere = Sphere::new(Vec3::zero(), s(1.0), red());
    let mut rec = marked();
    assert!(sphere.hit(&roots(4.0, 0.5, 6.0), s(1.0), s(10.0), &mut rec));
    assert_eq!(rec, HitRecord::new(s(6.0), v(6.0, 0.0, 0.0), v(0.0, 6.0, 0.0), red()));
    let mut rec = marked();
    assert!(sphere.hit(&roots(4.0, -3.0, 3.0), s(0.001), s(f64::MAX), &mut rec));
    assert_eq!(rec.t, s(3.0));
}

#[test]
fn the_ends_of_the_interval_do_not_count() {
    let sphere = Sphere::new(Vec3::zero(), s(1.0), red());
    let mut rec = marked();
    assert!(!sphere.hit(&roots(4.0, 1.0, 10.0), s(1.0), s(10.0), &mut rec));
    assert_eq!(rec, marked());
    assert!(!sphere.hit(&roots(4.0, 0.0, 11.0), s(1.0), s(10.0), &mut rec));
    assert_eq!(rec, marked());
    assert!(!sphere.hit(&roots(4.0, f64::NAN, f64::NAN), s(1.0), s(10.0), &mut rec));
    assert_eq!(rec, marked());
}

#[test]
fn no_positive_discriminant_no_hit() {
    let sphere = Sphere::new(Vec3::zero(), s(1.0), red());
    for discriminant in [0.0, -0.0, -1.0, f64::NAN, f64::NEG_INFINITY] {
        let mut rec = marked();
        assert!(!sphere.hit(&roots(discriminant, 2.0, 6.0), s(1.0), s(10.0), &mut rec));
        assert_eq!(rec, marked());
    }
}

#[test]
fn a_ray_that_points_away_from_a_sphere_misses_it() {
    let sphere = Sphere::new(v(0.0, 0.0, -1.0), s(0.5), red());
    let aways = [
        Ray::new(v(0.0, 0.0, 0.0), v(0.0, 0.0, 1.0)),
        Ray::new(v(0.0, 0.0, 0.0), v(0.3, 0.2, 0.9)),
        Ray::new(v(2.0, 0.0, -1.0), v(1.0, 0.0, 0.0)),
        Ray::new(v(0.0, 5.0, -1.0), v(0.1, 3.0, -0.1)),
    ];
    for r in aways {
        let mut rec = marked();
        assert!(!sphere.hit(&crossings(&r, &sphere), s(0.001), s(f64::MAX), &mut rec));
        assert_eq!(rec, marked());
    }
}

#[test]
fn a_ray_that_passes_beside_a_sphere_misses_it() {
    let sphere = Sphere::new(v(0.0, 0.0, -1.0), s(0.5), red());
    let r = Ray::new(v(0.0, 0.0, 0.0), v(1.0, 0.0, -1.0));
    let mut rec = marked();
    assert!(!sphere.hit(&crossings(&r, &sphere), s(0.001), s(f64::MAX), &mut rec));
    assert_eq!(rec, marked());
}

#[test]
fn through_the_centre_the_near_normal_faces_the_ray_and_the_far_one_follows_it() {
    let sphere = Sphere::new(v(0.0, 0.0, -1.0), s(0.5), red());
    let r = down_z();
    let probe = crossings(&r, &sphere);

    let mut near = HitRecord::empty();
    assert!(sphere.hit(&probe, s(0.001), s(f64::MAX), &mut near));
    assert_eq!(near.t, s(0.5));
    assert_eq!(near.p, v(0.0, 0.0, -0.5));
    assert_eq!(near.normal, v(0.0, 0.0, 1.0));
    assert_eq!(near.mat, red());
    assert!(unpack(near.normal).dot(unpack(r.direction)) < 0.0);
    assert_eq!(unpack(near.normal).cross(unpack(r.direction)).magnitude(), 0.0);

    let mut far = HitRecord::empty();
    assert!(sphere.hit(&probe, s(0.6), s(f64::MAX), &mut far));
    assert_eq!(far.t, s(1.5));
    assert_eq!(far.p, v(0.0, 0.0, -1.5));
    assert_eq!(far.normal, v(0.0, 0.0, -1.0));
    assert!(unpack(far.normal).dot(unpack(r.direction)) > 0.0);
    assert_eq!(unpack(far.normal).cross(unpack(r.direction)).magnitude(), 0.0);

    let mut none = marked();
    assert!(!sphere.hit(&probe, s(0.001), s(0.4), &mut none));
    assert!(!sphere.hit(&probe, s(0.6), s(1.4), &mut none));
    assert_eq!(none, marked());
}

#[test]
fn from_inside_a_sphere_only_the_far_root_lies_ahead() {
    let sphere = Sphere::new(v(0.0, 0.0, 0.0), s(2.0), red());
    let r = Ray::new(v(0.0, 0.0, 0.0), v(0.0, 1.0, 0.0));
    let mut rec = HitRecord::empty();
    assert!(sphere.hit(&crossings(&r, &sphere), s(0.001), s(f64::MAX), &mut rec));
    assert_eq!(rec.t, s(2.0));
    assert_eq!(rec.p, v(0.0, 2.0, 0.0));
    assert_eq!(rec.normal, v(0.0, 1.0, 0.0));
}

#[test]
fn the_nearer_of_two_spheres_wins_in_either_order() {
    let r = down_z();
    for closer_first in [true, false] {
        let closer = ball(-1.0, red());
        let farther = ball(-3.0, steel());
        let list = if closer_first { vec![closer, farther] } else { vec![farther, closer] };
        let found = probes(&r, &list);
        let listed = HittableList::new(list);
        let mut rec = marked();
        assert!(listed.hit(&found, s(0.001), s(f64::MAX), &mut rec));
        assert_eq!(rec.t, s(0.5));
        assert_eq!(rec.mat, red());
        assert_eq!(rec.p, v(0.0, 0.0, -0.5));
        assert_eq!(rec.normal, v(0.0, 0.0, 1.0));
    }
}

#[test]
fn a_scene_reports_the_nearest_of_many() {
    let r = down_z();
    let mut list = Vec::new();
    for z in [-9.0, -4.0, -7.0, -2.0, -5.0, -3.0] {
        list.push(ball(z, Material::Matte(Matte::new(v(z, z, z)))));
    }
    let found = probes(&r, &list);
    let listed = HittableList::new(list);
    let mut rec = HitRecord::empty();
    assert!(listed.hit(&found, s(0.001), s(f64::MAX), &mut rec));
    assert_eq!(rec.t, s(1.5));
    assert_eq!(rec.mat, Material::Matte(Matte::new(v(-2.0, -2.0, -2.0))));

    let mut beyond = HitRecord::empty();
    assert!(listed.hit(&found, s(3.0), s(f64::MAX), &mut beyond));
    assert_eq!(beyond.t, s(3.5));
    assert_eq!(beyond.mat, Material::Matte(Matte::new(v(-4.0, -4.0, -4.0))));
}

#[test]
fn of_two_equally_near_hits_the_first_is_kept() {
    let first = Hittable::Sphere(Sphere::new(Vec3::zero(), s(1.0), red()));
    let second = Hittable::Sphere(Sphere::new(Vec3::zero(), s(1.0), steel()));
    let found = vec![Probe::Sphere(roots(1.0, 2.0, 3.0)), Probe::Sphere(roots(1.0, 2.0, 3.0))];
    let listed = HittableList::new(vec![first, second]);
    let mut rec = HitRecord::empty();
    assert!(listed.hit(&found, s(0.0), s(10.0), &mut rec));
    assert_eq!(rec.mat, red());
}

#[test]
fn a_scene_that_is_missed_resets_the_record() {
    let r = Ray::new(v(0.0, 0.0, 0.0), v(0.0, 0.0, 1.0));
    let list = vec![ball(-1.0, red()), ball(-3.0, steel())];
    let found = probes(&r, &list);
    let listed = HittableList::new(list);
    let mut rec = marked();
    assert!(!listed.hit(&found, s(0.001), s(f64::MAX), &mut rec));
    assert_eq!(rec, HitRecord::empty());
}

#[test]
fn an_empty_scene_is_never_hit() {
    let listed = HittableList::new(Vec::new());
    assert_eq!(listed.size, 0);
    let mut rec = marked();
    assert!(!listed.hit(&Vec::new(), s(0.001), s(f64::MAX), &mut rec));
    assert_eq!(rec, HitRecord::empty());
}

#[test]
fn one_sphere_and_a_scene_of_it_are_hit_alike() {
    let r = down_z();
    let alone = ball(-1.0, red());
    let listed = scene(vec![ball(-1.0, red())]);
    let mut a = HitRecord::empty();
    let mut b = HitRecord::empty();
    assert!(alone.hit(&probe(&r, &alone), s(0.001), s(f64::MAX), &mut a));
    assert!(listed.hit(&probe(&r, &listed), s(0.001), s(f64::MAX), &mut b));
    assert_eq!(a, b);
    assert_eq!(a.t, s(0.5));

    let mut c = marked();
    let mut d = marked();
    assert!(!alone.hit(&probe(&r, &alone), s(5.0), s(f64::MAX), &mut c));
    assert!(!listed.hit(&probe(&r, &listed), s(5.0), s(f64::MAX), &mut d));
    assert_eq!(c, marked());
    assert_eq!(d, HitRecord::empty());
}

#[test]
fn a_scene_within_a_scene_is_searched_too() {
    let r = down_z();
    let inner = scene(vec![ball(-6.0, steel()), ball(-2.0, red())]);
    let world = scene(vec![ball(-4.0, steel()), inner, ball(-8.0, steel())]);
    let mut rec = HitRecord::empty();
    assert!(world.hit(&probe(&r, &world), s(0.001), s(f64::MAX), &mut rec));
    assert_eq!(rec.t, s(1.5));
    assert_eq!(rec.mat, red());
}

#[test]
fn a_scene_within_that_is_missed_leaves_the_nearest_hit_in_place() {
    let r = down_z();
    let beside = Hittable::Sphere(Sphere::new(v(5.0, 0.0, -1.0), s(0.5), steel()));
    let behind = ball(3.0, steel());
    let world = scene(vec![ball(-4.0, red()), scene(vec![beside, behind]), scene(Vec::new())]);
    let mut rec = marked();
    assert!(world.hit(&probe(&r, &world), s(0.001), s(f64::MAX), &mut rec));
    assert_eq!(rec.t, s(3.5));
    assert_eq!(rec.mat, red());
    assert_eq!(rec.p, v(0.0, 0.0, -3.5));
}

#[test]
fn a_farther_scene_within_does_not_replace_a_nearer_hit() {
    let r = down_z();
    let inner = scene(vec![ball(-6.0, steel()), ball(-9.0, steel())]);
    for world in [scene(vec![ball(-2.0, red()), inner])] {
        let mut rec = HitRecord::empty();
        assert!(world.hit(&probe(&r, &world), s(0.001), s(f64::MAX), &mut rec));
        assert_eq!(rec.t, s(1.5));
        assert_eq!(rec.mat, red());
    }
    let inner = scene(vec![ball(-6.0, steel()), ball(-9.0, steel())]);
    let world = scene(vec![inner, ball(-2.0, red())]);
    let mut rec = HitRecord::empty();
    assert!(world.hit(&probe(&r, &world), s(0.001), s(f64::MAX), &mut rec));
    assert_eq!(rec.t, s(1.5));
    assert_eq!(rec.mat, red());
}

#[test]
fn a_probe_must_have_the_shape_of_the_geometry() {
    let r = down_z();
    let world = scene(vec![ball(-4.0, red()), scene(vec![ball(-2.0, red())])]);
    assert!(world.accepts(&probe(&r, &world)));
    assert!(!world.accepts(&Probe::Sphere(roots(1.0, 2.0, 3.0))));
    assert!(!world.accepts(&Probe::List(vec![Probe::Sphere(roots(1.0, 2.0, 3.0))])));
    assert!(!world.accepts(&Probe::List(vec![
        Probe::Sphere(roots(1.0, 2.0, 3.0)),
        Probe::Sphere(roots(1.0, 2.0, 3.0)),
    ])));
    assert!(!world.accepts(&Probe::List(vec![
        Probe::Sphere(roots(1.0, 2.0, 3.0)),
        Probe::List(Vec::new()),
    ])));
    assert!(world.accepts(&Probe::List(vec![
        Probe::Sphere(roots(1.0, 2.0, 3.0)),
        Probe::List(vec![Probe::Sphere(roots(1.0, 2.0, 3.0))]),
    ])));
    let alone = ball(-1.0, red());
    assert!(alone.accepts(&Probe::Sphere(roots(1.0, 2.0, 3.0))));
    assert!(!alone.accepts(&Probe::List(Vec::new())));
}

#[test]
fn a_scene_is_valid_when_every_size_is_right() {
    assert!(ball(-1.0, red()).is_valid());
    assert!(scene(Vec::new()).is_valid());
    assert!(scene(vec![ball(-1.0, red()), scene(vec![ball(-2.0, red())])]).is_valid());
    let short = Hittable::List(HittableList { list: vec![ball(-1.0, red())], size: 2 });
    assert!(!short.is_valid());
    let long = Hittable::List(HittableList { list: vec![ball(-1.0, red())], size: 0 });
    assert!(!long.is_valid());
    let deep = scene(vec![ball(-1.0, red()), Hittable::List(HittableList { list: Vec::new(), size: 1 })]);
    assert!(!deep.is_valid());
}
