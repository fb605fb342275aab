use pathtracer::fixed::Fx;
use pathtracer::hittable::HitRecord;
use pathtracer::material::{get_direction, Dielectric, Lambertian, Material, Metal};
use pathtracer::ray::Ray;
use pathtracer::rng::RandomSource;
use pathtracer::vec3::Vec3;
use pathtracer::BuildError;

fn surface_hit() -> HitRecord {
    // A hit on a surface at the origin whose normal is +z.
    HitRecord {
        p: Vec3::origin(),
        normal: Vec3::new(Fx::zero(), Fx::zero(), Fx::one()),
        material: Material::Lambertian(Lambertian::new(Vec3::origin())),
        t: Fx::one(),
        front_face: true,
        is_hit: true,
    }
}

#[test]
fn metal_with_zero_fuzz_is_an_exact_mirror() {
    let metal = Metal::new(
        Vec3::new(Fx::new(800_000), Fx::new(600_000), Fx::new(200_000)),
        Fx::zero(),
    );
    let incoming = Ray::new(
        Vec3::new(Fx::zero(), Fx::zero(), Fx::from_int(2)),
        Vec3::new(Fx::zero(), Fx::zero(), Fx::from_int(-2)),
    );
    let rec = surface_hit();
    let mut rng = RandomSource::from_seed(3);
    let (scattered, attenuation, valid) = metal.scatter(&incoming, &rec, &mut rng);
    // reflect((0,0,-1), (0,0,1)) == (0,0,1), with no randomness injected.
    assert_eq!(
        (
            scattered.dir.x().raw(),
            scattered.dir.y().raw(),
            scattered.dir.z().raw(),
        ),
        (0, 0, 1_000_000),
    );
    assert_eq!(scattered.orig.x().raw(), 0);
    assert_eq!(attenuation.x().raw(), 800_000);
    assert!(valid);
}

#[test]
fn metal_absorbs_rays_reflected_into_the_surface() {
    let metal = Metal::new(Vec3::new(Fx::one(), Fx::one(), Fx::one()), Fx::zero());
    // Incoming along +z onto a +z normal: the reflection points into the
    // surface, so the ray is absorbed.
    let incoming = Ray::new(
        Vec3::new(Fx::zero(), Fx::zero(), Fx::from_int(-2)),
        Vec3::new(Fx::zero(), Fx::zero(), Fx::from_int(1)),
    );
    let rec = surface_hit();
    let mut rng = RandomSource::from_seed(5);
    let (_, _, valid) = metal.scatter(&incoming, &rec, &mut rng);
    assert!(!valid);
}

#[test]
fn metal_caps_fuzz_at_one() {
    let metal = Metal::new(Vec3::origin(), Fx::from_int(7));
    assert_eq!(metal.fuzz.raw(), 1_000_000);
    let rough = Metal::new(Vec3::origin(), Fx::new(300_000));
    assert_eq!(rough.fuzz.raw(), 300_000);
}

#[test]
fn dielectric_normal_incidence_with_unit_ratio_does_not_bend() {
    let glass = Dielectric::new(Fx::one()).unwrap();
    let incoming = Ray::new(
        Vec3::new(Fx::zero(), Fx::zero(), Fx::from_int(1)),
        Vec3::new(Fx::zero(), Fx::zero(), Fx::from_int(-1)),
    );
    let rec = surface_hit();
    for seed in 0..20u64 {
        let mut rng = RandomSource::from_seed(seed);
        let (scattered, attenuation, valid) = glass.scatter(&incoming, &rec, &mut rng);
        assert_eq!(
            (
                scattered.dir.x().raw(),
                scattered.dir.y().raw(),
                scattered.dir.z().raw(),
            ),
            (0, 0, -1_000_000),
        );
        assert!(valid);
        // A dielectric never absorbs color.
        assert_eq!(
            (
                attenuation.x().raw(),
                attenuation.y().raw(),
                attenuation.z().raw(),
            ),
            (1_000_000, 1_000_000, 1_000_000),
        );
    }
}

#[test]
fn dielectric_rejects_nonpositive_refraction_index() {
    assert!(matches!(
        Dielectric::new(Fx::zero()),
        Err(BuildError::InvalidMaterial)
    ));
    assert!(matches!(
        Dielectric::new(Fx::from_int(-1)),
        Err(BuildError::InvalidMaterial)
    ));
    assert!(Dielectric::new(Fx::new(1_500_000)).is_ok());
}

#[test]
fn total_internal_reflection_reflects() {
    // Leaving glass (ratio 1.5) at a grazing angle: refraction impossible.
    let unit_direction = Vec3::new(Fx::new(-800_000), Fx::zero(), Fx::new(-600_000));
    let normal = Vec3::new(Fx::zero(), Fx::zero(), Fx::one());
    let ratio = Fx::new(1_500_000);
    // sin_theta == 0.8, ratio * sin == 1.2 > 1: every sample reflects.
    for sample_raw in [0i64, 250_000, 999_999] {
        let out = get_direction(&unit_direction, &normal, ratio, Fx::new(sample_raw));
        let reflected = unit_direction.reflect(&normal);
        assert_eq!(out.x().raw(), reflected.x().raw());
        assert_eq!(out.y().raw(), reflected.y().raw());
        assert_eq!(out.z().raw(), reflected.z().raw());
    }
}

#[test]
fn schlick_reflectance_decides_at_the_exact_boundary() {
    // Entering a denser medium with ratio 0.5 at normal incidence:
    // r0 = ((1 - 0.5) / (1 + 0.5))^2 truncates to 0.111110, and the
    // (1 - cos)^5 term vanishes.  Samples below that reflect, samples
    // at or above it refract.
    let uv = Vec3::new(Fx::zero(), Fx::zero(), Fx::from_int(-1));
    let n = Vec3::new(Fx::zero(), Fx::zero(), Fx::one());
    let ratio = Fx::new(500_000);

    let reflected = get_direction(&uv, &n, ratio, Fx::new(111_109));
    assert_eq!(reflected.z().raw(), 1_000_000);

    let refracted = get_direction(&uv, &n, ratio, Fx::new(111_110));
    assert_eq!(refracted.z().raw(), -1_000_000);
}

#[test]
fn lambertian_scatters_from_the_hit_point_with_its_albedo() {
    let albedo = Vec3::new(Fx::new(100_000), Fx::new(200_000), Fx::new(500_000));
    let diffuse = Lambertian::new(albedo);
    let incoming = Ray::new(
        Vec3::new(Fx::zero(), Fx::zero(), Fx::from_int(1)),
        Vec3::new(Fx::zero(), Fx::zero(), Fx::from_int(-1)),
    );
    let rec = surface_hit();
    let mut rng = RandomSource::from_seed(23);
    for _ in 0..50 {
        let (scattered, attenuation, valid) = diffuse.scatter(&incoming, &rec, &mut rng);
        assert!(valid);
        assert_eq!(attenuation.x().raw(), 100_000);
        assert_eq!(attenuation.y().raw(), 200_000);
        assert_eq!(attenuation.z().raw(), 500_000);
        assert_eq!(scattered.orig.z().raw(), 0);
        // The scattered direction leans along the normal: unit offset
        // plus unit normal keeps a nonnegative z.
        assert!(scattered.dir.z().raw() >= -1_000);
    }
}
