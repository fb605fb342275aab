use pathtracer::fixed::Fx;
use pathtracer::rng::RandomSource;
use pathtracer::utils::{clamp, random_float, random_float_range};
use pathtracer::vec3::Vec3;

fn fx(raw: i64) -> Fx {
    Fx::new(raw)
}

#[test]
fn fixed_products_are_exact_on_decimals() {
    // 0.5 * 0.7 == 0.35, exactly representable at six decimal places.
    assert_eq!(fx(500_000).mul(fx(700_000)).raw(), 350_000);
    // 2.5 * 4.0 == 10.0
    assert_eq!(Fx::from_int(2).add(fx(500_000)).mul(Fx::from_int(4)).raw(), 10_000_000);
}

#[test]
fn fixed_division_truncates_toward_zero() {
    assert_eq!(Fx::from_int(1).div(Fx::from_int(3)).raw(), 333_333);
    assert_eq!(Fx::from_int(-1).div(Fx::from_int(3)).raw(), -333_333);
    assert_eq!(Fx::from_int(1).div(Fx::from_int(-3)).raw(), -333_333);
}

#[test]
fn fixed_sqrt_is_exact_on_perfect_squares() {
    assert_eq!(fx(250_000).sqrt().raw(), 500_000);
    assert_eq!(Fx::from_int(25).sqrt().raw(), 5_000_000);
    assert_eq!(Fx::one().sqrt().raw(), 1_000_000);
    assert_eq!(Fx::zero().sqrt().raw(), 0);
}

#[test]
fn fixed_sqrt_floors_between_squares() {
    // sqrt(2) = 1.414213..., truncated at six decimals.
    assert_eq!(Fx::from_int(2).sqrt().raw(), 1_414_213);
}

#[test]
fn clamp_matches_its_contract() {
    assert_eq!(clamp(fx(5), fx(0), fx(10)).raw(), 5);
    assert_eq!(clamp(fx(-5), fx(0), fx(10)).raw(), 0);
    assert_eq!(clamp(fx(15), fx(0), fx(10)).raw(), 10);
}

#[test]
fn saturation_bounds_every_operation() {
    let big = fx(1_000_000_000_000_000);
    assert_eq!(big.add(big).raw(), 1_000_000_000_000_000);
    assert_eq!(big.neg().sub(big).raw(), -1_000_000_000_000_000);
    assert_eq!(big.mul(big).raw(), 1_000_000_000_000_000);
}

#[test]
fn dot_and_cross_are_exact() {
    let a = Vec3::new(Fx::from_int(1), Fx::from_int(2), Fx::from_int(3));
    let b = Vec3::new(Fx::from_int(4), Fx::from_int(-5), Fx::from_int(6));
    assert_eq!(a.dot(&b).raw(), 12_000_000);
    // The cross method computes (argument x receiver).
    let x_axis = Vec3::new(Fx::one(), Fx::zero(), Fx::zero());
    let y_axis = Vec3::new(Fx::zero(), Fx::one(), Fx::zero());
    let c = x_axis.cross(&y_axis);
    assert_eq!((c.x().raw(), c.y().raw(), c.z().raw()), (0, 0, -1_000_000));
}

#[test]
fn index_walks_the_components() {
    let v = Vec3::new(fx(10), fx(20), fx(30));
    assert_eq!(v.index(0).raw(), 10);
    assert_eq!(v.index(1).raw(), 20);
    assert_eq!(v.index(2).raw(), 30);
}

#[test]
fn length_of_a_pythagorean_triple() {
    let v = Vec3::new(Fx::from_int(3), Fx::from_int(4), Fx::zero());
    assert_eq!(v.length_squared().raw(), 25_000_000);
    assert_eq!(v.length().raw(), 5_000_000);
}

#[test]
fn unit_vector_normalizes_axis_vectors() {
    let v = Vec3::new(Fx::zero(), Fx::zero(), Fx::from_int(-2));
    let u = v.unit_vector();
    assert_eq!((u.x().raw(), u.y().raw(), u.z().raw()), (0, 0, -1_000_000));
    // Normalization multiplies by the reciprocal of the length, so a
    // length whose reciprocal is inexact leaves a one-unit residue.
    let w = Vec3::new(Fx::zero(), Fx::zero(), Fx::from_int(3));
    let uw = w.unit_vector();
    assert_eq!(uw.z().raw(), 999_999);
}

#[test]
fn near_zero_requires_every_component_to_vanish() {
    assert!(Vec3::origin().near_zero());
    assert!(!Vec3::new(fx(1), Fx::zero(), Fx::zero()).near_zero());
    // Negative components are not near zero: the check is on magnitudes.
    let negative = Vec3::new(fx(-500_000), fx(-500_000), fx(-500_000));
    assert!(!negative.near_zero());
}

#[test]
fn reflect_mirrors_about_the_normal() {
    let incoming = Vec3::new(Fx::one(), Fx::from_int(-1), Fx::zero());
    let normal = Vec3::new(Fx::zero(), Fx::one(), Fx::zero());
    let r = incoming.reflect(&normal);
    assert_eq!(
        (r.x().raw(), r.y().raw(), r.z().raw()),
        (1_000_000, 1_000_000, 0),
    );
}

#[test]
fn refract_with_unit_ratio_keeps_the_direction_at_normal_incidence() {
    let uv = Vec3::new(Fx::zero(), Fx::zero(), Fx::from_int(-1));
    let n = Vec3::new(Fx::zero(), Fx::zero(), Fx::one());
    let refracted = uv.refract(&n, Fx::one());
    assert_eq!(
        (refracted.x().raw(), refracted.y().raw(), refracted.z().raw()),
        (0, 0, -1_000_000),
    );
}

#[test]
fn random_float_stays_in_the_unit_interval() {
    let mut rng = RandomSource::from_seed(7);
    for _ in 0..200 {
        let u = random_float(&mut rng).raw();
        assert!(0 <= u && u < 1_000_000);
    }
}

#[test]
fn random_float_range_stays_inside_its_range() {
    let mut rng = RandomSource::from_seed(11);
    let min = Fx::from_int(-1);
    let max = Fx::one();
    for _ in 0..200 {
        let u = random_float_range(&mut rng, min, max).raw();
        assert!(-1_000_000 <= u && u <= 1_000_000);
    }
}

#[test]
fn random_in_unit_sphere_is_strictly_inside() {
    let mut rng = RandomSource::from_seed(13);
    for _ in 0..100 {
        let p = Vec3::random_in_unit_sphere(&mut rng);
        let lsq = p.length_squared().raw();
        assert!(0 < lsq && lsq < 1_000_000);
    }
}

#[test]
fn random_unit_vector_has_nearly_unit_length() {
    let mut rng = RandomSource::from_seed(17);
    for _ in 0..100 {
        let u = Vec3::random_unit_vector(&mut rng);
        let lsq = u.length_squared().raw();
        // Normalization is exact to the fixed-point resolution.
        assert!(990_000 < lsq && lsq < 1_010_000);
    }
}
