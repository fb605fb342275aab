use pathtracer::fixed::{FX_MAX, Fx};
use pathtracer::hittable::{HitRecord, Hittable};
use pathtracer::hittable_list::HittableList;
use pathtracer::material::{Lambertian, Material};
use pathtracer::ray::Ray;
use pathtracer::sphere::Sphere;
use pathtracer::vec3::Vec3;
use pathtracer::BuildError;

fn gray() -> Material {
    Material::Lambertian(Lambertian::new(Vec3::new(
        Fx::new(500_000),
        Fx::new(500_000),
        Fx::new(500_000),
    )))
}

fn red() -> Material {
    Material::Lambertian(Lambertian::new(Vec3::new(Fx::one(), Fx::zero(), Fx::zero())))
}

fn unit_sphere_at_minus_z() -> Sphere {
    Sphere::new(
        Vec3::new(Fx::zero(), Fx::zero(), Fx::from_int(-1)),
        Fx::new(500_000),
        gray(),
    )
    .unwrap()
}

fn axis_ray(dir_z: i32) -> Ray {
    Ray::new(
        Vec3::origin(),
        Vec3::new(Fx::zero(), Fx::zero(), Fx::from_int(dir_z)),
    )
}

#[test]
fn sphere_intersection_exact_case() {
    // Sphere at (0,0,-1) with radius 0.5, ray from the origin toward -z:
    // nearest hit at t = 0.5, point (0,0,-0.5), outward normal (0,0,1).
    let sphere = unit_sphere_at_minus_z();
    let ray = axis_ray(-1);
    let rec = sphere.hit(&ray, Fx::zero(), Fx::new(FX_MAX));
    assert!(rec.is_hit);
    assert_eq!(rec.t.raw(), 500_000);
    assert_eq!(
        (rec.p.x().raw(), rec.p.y().raw(), rec.p.z().raw()),
        (0, 0, -500_000),
    );
    assert_eq!(
        (rec.normal.x().raw(), rec.normal.y().raw(), rec.normal.z().raw()),
        (0, 0, 1_000_000),
    );
    assert!(rec.front_face);
}

#[test]
fn sphere_miss_case() {
    // A ray parallel to the sphere's plane never intersects, whatever the range.
    let sphere = unit_sphere_at_minus_z();
    let ray = Ray::new(
        Vec3::origin(),
        Vec3::new(Fx::zero(), Fx::from_int(1), Fx::zero()),
    );
    let ranges: [(i64, i64); 4] = [
        (0, FX_MAX),
        (1_000, 10_000_000),
        (-FX_MAX, FX_MAX),
        (0, 0),
    ];
    for (lo, hi) in ranges {
        let rec = sphere.hit(&ray, Fx::new(lo), Fx::new(hi));
        assert!(!rec.is_hit);
    }
}

#[test]
fn sphere_second_root_when_origin_is_inside() {
    // From the center of a sphere the smaller root is behind the ray, so
    // the larger root is returned and the back face is reported.
    let sphere = Sphere::new(Vec3::origin(), Fx::from_int(2), gray()).unwrap();
    let ray = axis_ray(-1);
    let rec = sphere.hit(&ray, Fx::new(1_000), Fx::new(FX_MAX));
    assert!(rec.is_hit);
    assert_eq!(rec.t.raw(), 2_000_000);
    assert!(!rec.front_face);
    // The stored normal opposes the ray: (0,0,1) even on the back face.
    assert_eq!(rec.normal.z().raw(), 1_000_000);
}

#[test]
fn negative_radius_flips_the_outward_normal() {
    let shell = Sphere::new(
        Vec3::new(Fx::zero(), Fx::zero(), Fx::from_int(-1)),
        Fx::new(-500_000),
        gray(),
    )
    .unwrap();
    let ray = axis_ray(-1);
    let rec = shell.hit(&ray, Fx::zero(), Fx::new(FX_MAX));
    assert!(rec.is_hit);
    assert_eq!(rec.t.raw(), 500_000);
    // The flipped outward normal points along -z, toward the ray: front face.
    assert!(!rec.front_face);
    assert_eq!(rec.normal.z().raw(), 1_000_000);
}

#[test]
fn sphere_rejects_zero_radius() {
    let r = Sphere::new(Vec3::origin(), Fx::zero(), gray());
    assert!(matches!(r, Err(BuildError::InvalidGeometry)));
    assert!(Sphere::new(Vec3::origin(), Fx::new(-1), gray()).is_ok());
}

#[test]
fn scene_returns_the_nearest_hit() {
    // Two spheres along the ray; the nearer one wins regardless of order.
    let near = Sphere::new(
        Vec3::new(Fx::zero(), Fx::zero(), Fx::from_int(-1)),
        Fx::new(500_000),
        red(),
    )
    .unwrap();
    let far = Sphere::new(
        Vec3::new(Fx::zero(), Fx::zero(), Fx::from_int(-3)),
        Fx::new(500_000),
        gray(),
    )
    .unwrap();
    let ray = axis_ray(-1);

    for world in [
        HittableList::new().add(near).add(far),
        HittableList::new().add(far).add(near),
    ] {
        let rec = world.hit(&ray, Fx::new(1_000), Fx::new(FX_MAX));
        assert!(rec.is_hit);
        assert_eq!(rec.t.raw(), 500_000);
        match rec.material {
            Material::Lambertian(l) => assert_eq!(l.albedo.x().raw(), 1_000_000),
            _ => panic!("nearest sphere is diffuse"),
        }
    }
}

#[test]
fn occluded_primitive_does_not_change_the_result() {
    let near = Sphere::new(
        Vec3::new(Fx::zero(), Fx::zero(), Fx::from_int(-1)),
        Fx::new(500_000),
        red(),
    )
    .unwrap();
    let occluded = Sphere::new(
        Vec3::new(Fx::zero(), Fx::zero(), Fx::from_int(-5)),
        Fx::from_int(1),
        gray(),
    )
    .unwrap();
    let ray = axis_ray(-1);

    let without = HittableList::new().add(near).hit(&ray, Fx::new(1_000), Fx::new(FX_MAX));
    let with = HittableList::new().add(near).add(occluded).hit(
        &ray,
        Fx::new(1_000),
        Fx::new(FX_MAX),
    );
    assert_eq!(without.t.raw(), with.t.raw());
    assert_eq!(without.p.z().raw(), with.p.z().raw());
    assert_eq!(without.front_face, with.front_face);
    match with.material {
        Material::Lambertian(l) => assert_eq!(l.albedo.x().raw(), 1_000_000),
        _ => panic!("the nearer sphere still wins"),
    }
}

#[test]
fn empty_scene_misses() {
    let world = HittableList::new();
    let rec = world.hit(&axis_ray(-1), Fx::new(1_000), Fx::new(FX_MAX));
    assert!(!rec.is_hit);
    assert_eq!(rec.t.raw(), 0);
}

#[test]
fn face_normal_opposes_the_incoming_ray() {
    let outward = Vec3::new(Fx::zero(), Fx::zero(), Fx::one());
    // Ray against the normal: front face, normal kept.
    let against = axis_ray(-1);
    let (front, normal) = HitRecord::get_face_normal(&against, outward);
    assert!(front);
    assert_eq!(normal.z().raw(), 1_000_000);
    // Ray along the normal: back face, normal flipped.
    let along = axis_ray(1);
    let (front, normal) = HitRecord::get_face_normal(&along, outward);
    assert!(!front);
    assert_eq!(normal.z().raw(), -1_000_000);
}

#[test]
fn ray_at_walks_the_parametrization() {
    let ray = Ray::new(
        Vec3::new(Fx::from_int(1), Fx::from_int(2), Fx::from_int(3)),
        Vec3::new(Fx::from_int(2), Fx::zero(), Fx::from_int(-2)),
    );
    let p = ray.at(Fx::new(500_000));
    assert_eq!(
        (p.x().raw(), p.y().raw(), p.z().raw()),
        (2_000_000, 2_000_000, 2_000_000),
    );
}
