use pathtracer::color::Color;
use pathtracer::fixed::Fx;
use pathtracer::hittable_list::HittableList;
use pathtracer::integrator::{background_color, ray_color};
use pathtracer::material::{Dielectric, Lambertian, Material, Metal};
use pathtracer::ray::Ray;
use pathtracer::rng::RandomSource;
use pathtracer::sphere::Sphere;
use pathtracer::vec3::Vec3;

fn axis_ray(dir: (i32, i32, i32)) -> Ray {
    Ray::new(
        Vec3::origin(),
        Vec3::new(Fx::from_int(dir.0), Fx::from_int(dir.1), Fx::from_int(dir.2)),
    )
}

#[test]
fn depth_exhaustion_returns_black() {
    let world = HittableList::new().add(
        Sphere::new(
            Vec3::new(Fx::zero(), Fx::zero(), Fx::from_int(-1)),
            Fx::new(500_000),
            Material::Lambertian(Lambertian::new(Vec3::new(Fx::one(), Fx::one(), Fx::one()))),
        )
        .unwrap(),
    );
    let mut rng = RandomSource::from_seed(1);
    let c = ray_color(&axis_ray((0, 0, -1)), &world, 0, &mut rng);
    assert_eq!((c.x().raw(), c.y().raw(), c.z().raw()), (0, 0, 0));
}

#[test]
fn background_gradient_on_the_horizon() {
    // unit_direction.y == 0 gives t = 0.5 and the exact blend
    // (0.75, 0.85, 1.0).
    let world = HittableList::new();
    let mut rng = RandomSource::from_seed(2);
    let c = ray_color(&axis_ray((1, 0, 0)), &world, 8, &mut rng);
    assert_eq!(
        (c.x().raw(), c.y().raw(), c.z().raw()),
        (750_000, 850_000, 1_000_000),
    );
}

#[test]
fn background_gradient_at_the_zenith() {
    // unit_direction.y == 1 gives t = 1 and pure sky blue.
    let unit_up = Vec3::new(Fx::zero(), Fx::one(), Fx::zero());
    let c = background_color(&unit_up);
    assert_eq!(
        (c.x().raw(), c.y().raw(), c.z().raw()),
        (500_000, 700_000, 1_000_000),
    );
}

#[test]
fn black_albedo_extinguishes_the_path() {
    // A diffuse surface with zero albedo attenuates everything to black.
    let world = HittableList::new().add(
        Sphere::new(
            Vec3::new(Fx::zero(), Fx::zero(), Fx::from_int(-1)),
            Fx::new(500_000),
            Material::Lambertian(Lambertian::new(Vec3::origin())),
        )
        .unwrap(),
    );
    let mut rng = RandomSource::from_seed(4);
    let c = ray_color(&axis_ray((0, 0, -1)), &world, 10, &mut rng);
    assert_eq!((c.x().raw(), c.y().raw(), c.z().raw()), (0, 0, 0));
}

#[test]
fn unit_ratio_glass_is_invisible() {
    // A dielectric with index 1 bends nothing at normal incidence: the
    // ray crosses both surfaces unchanged and ends in the background.
    let world = HittableList::new().add(
        Sphere::new(
            Vec3::new(Fx::zero(), Fx::zero(), Fx::from_int(-2)),
            Fx::new(500_000),
            Material::Dielectric(Dielectric::new(Fx::one()).unwrap()),
        )
        .unwrap(),
    );
    let mut rng = RandomSource::from_seed(6);
    let c = ray_color(&axis_ray((0, 0, -1)), &world, 10, &mut rng);
    // The escaping direction has y == 0: the horizon blend, exactly.
    assert_eq!(
        (c.x().raw(), c.y().raw(), c.z().raw()),
        (750_000, 850_000, 1_000_000),
    );
}

#[test]
fn energy_is_never_created() {
    // Diffuse and metal bounces with albedos within the unit cube can
    // only darken: every channel stays within [0, 1].
    let world = HittableList::new()
        .add(
            Sphere::new(
                Vec3::new(Fx::zero(), Fx::from_int(-101), Fx::zero()),
                Fx::from_int(100),
                Material::Lambertian(Lambertian::new(Vec3::new(
                    Fx::new(800_000),
                    Fx::new(800_000),
                    Fx::zero(),
                ))),
            )
            .unwrap(),
        )
        .add(
            Sphere::new(
                Vec3::new(Fx::zero(), Fx::zero(), Fx::from_int(-2)),
                Fx::new(500_000),
                Material::Metal(Metal::new(
                    Vec3::new(Fx::new(900_000), Fx::new(900_000), Fx::new(900_000)),
                    Fx::new(200_000),
                )),
            )
            .unwrap(),
        );
    let mut rng = RandomSource::from_seed(8);
    for i in 0..30i64 {
        let dir = Vec3::new(Fx::new(i * 20_000 - 300_000), Fx::new(-100_000), Fx::one().neg());
        let ray = Ray::new(Vec3::origin(), dir);
        let c = ray_color(&ray, &world, 50, &mut rng);
        for channel in [c.x().raw(), c.y().raw(), c.z().raw()] {
            assert!(0 <= channel && channel <= 1_000_000);
        }
    }
}

#[test]
fn metal_mirror_bounces_into_the_sky() {
    // A perfect mirror tilted 45 degrees is deterministic: the ray
    // bounces straight up and returns the zenith color, attenuated by
    // the mirror's albedo.
    let world = HittableList::new().add(
        Sphere::new(
            // A huge sphere approximates a plane; hit it straight on.
            Vec3::new(Fx::zero(), Fx::zero(), Fx::from_int(-1001)),
            Fx::from_int(1000),
            Material::Metal(Metal::new(
                Vec3::new(Fx::new(500_000), Fx::one(), Fx::one()),
                Fx::zero(),
            )),
        )
        .unwrap(),
    );
    let mut rng = RandomSource::from_seed(9);
    let c = ray_color(&axis_ray((0, 0, -1)), &world, 5, &mut rng);
    // Normal incidence: the ray reflects straight back (+z), whose unit
    // direction has y == 0, so the horizon color comes back attenuated:
    // (0.75 * 0.5, 0.85, 1.0).
    assert_eq!(
        (c.x().raw(), c.y().raw(), c.z().raw()),
        (375_000, 850_000, 1_000_000),
    );
}

#[test]
fn write_color_applies_average_gamma_clamp_and_truncation() {
    // One sample of (0.25, 1.0, 0.0): sqrt gives (0.5, 1.0, 0.0); the
    // green channel clamps to 0.999; times 256 and truncated:
    // (128, 255, 0).
    let c = Color::new(Fx::new(250_000), Fx::one(), Fx::zero());
    assert_eq!(c.write_color(1), (128, 255, 0));
}

#[test]
fn write_color_averages_over_samples() {
    // Four samples summing to (3.24, 0, 0): the mean 0.81 has root 0.9,
    // and 256 * 0.9 truncates to 230.
    let c = Color::new(Fx::new(3_240_000), Fx::zero(), Fx::zero());
    assert_eq!(c.write_color(4), (230, 0, 0));
}

#[test]
fn write_color_channels_never_exceed_255() {
    let c = Color::new(Fx::from_int(900), Fx::from_int(4), Fx::one());
    let (r, g, b) = c.write_color(1);
    assert!(r <= 255 && g <= 255 && b <= 255);
    assert_eq!(g, 255);
    assert_eq!(b, 255);
}
