//! The intersection protocol: hit records and the `Hittable` capability.
use vstd::prelude::*;

verus! {

use crate::fixed::{Fx, fx_raw, lemma_fx_raw_view, lemma_fx_view_injective};
use crate::material::{Lambertian, Material};
use crate::ray::Ray;
use crate::vec3::{V3, Vec3, v3, v3_dot, v3_neg};

/// The mathematical content of a hit record.
pub ghost struct HitV {
    pub p: V3,
    pub normal: V3,
    pub material: Material,
    pub t: int,
    pub front_face: bool,
    pub is_hit: bool,
}

/// The material a miss record carries: black diffuse, never consulted.
pub open spec fn absent_material() -> Material {
    Material::Lambertian(
        Lambertian { albedo: Vec3 { x: fx_raw(0), y: fx_raw(0), z: fx_raw(0) } },
    )
}

/// The record of a failed intersection test.
pub open spec fn miss_v() -> HitV {
    HitV {
        p: v3(0, 0, 0),
        normal: v3(0, 0, 0),
        material: absent_material(),
        t: 0,
        front_face: false,
        is_hit: false,
    }
}

/// Face orientation: the stored normal always opposes the incoming ray.
pub open spec fn face_normal_v(dir: V3, outward: V3) -> (bool, V3) {
    let front = v3_dot(dir, outward) < 0;
    (front, if front {
        outward
    } else {
        v3_neg(outward)
    })
}

/// The oriented normal never points with the incoming ray: flipping by
/// face makes its inner product with the direction nonpositive.
pub proof fn lemma_face_normal_opposes(dir: V3, outward: V3)
    requires
        crate::fixed::fx_abs(outward.x) <= crate::fixed::FX_MAX as int,
        crate::fixed::fx_abs(outward.y) <= crate::fixed::FX_MAX as int,
        crate::fixed::fx_abs(outward.z) <= crate::fixed::FX_MAX as int,
    ensures
        v3_dot(dir, face_normal_v(dir, outward).1) <= 0,
{
    if v3_dot(dir, outward) >= 0 {
        lemma_dot_neg(dir, outward);
    }
}

/// Negating one operand negates a fixed-point inner product.
proof fn lemma_dot_neg(u: V3, w: V3)
    requires
        crate::fixed::fx_abs(w.x) <= crate::fixed::FX_MAX as int,
        crate::fixed::fx_abs(w.y) <= crate::fixed::FX_MAX as int,
        crate::fixed::fx_abs(w.z) <= crate::fixed::FX_MAX as int,
    ensures
        v3_dot(u, crate::vec3::v3_neg(w)) == -v3_dot(u, w),
{
    lemma_mul_neg(u.x, w.x);
    lemma_mul_neg(u.y, w.y);
    lemma_mul_neg(u.z, w.z);
}

/// Negating one factor negates a fixed-point product.
proof fn lemma_mul_neg(a: int, b: int)
    requires
        crate::fixed::fx_abs(b) <= crate::fixed::FX_MAX as int,
    ensures
        crate::fixed::fx_mul(a, crate::fixed::fx_neg(b)) == -crate::fixed::fx_mul(a, b),
{
    assert(a * (-b) == -(a * b)) by (nonlinear_arith);
    assert((if a * (-b) < 0 {
        -(a * (-b))
    } else {
        a * (-b)
    }) == (if a * b < 0 {
        -(a * b)
    } else {
        a * b
    })) by (nonlinear_arith);
}

/// The result of an intersection test: hit point, opposing surface
/// normal, the surface's material, the ray parameter, which face was
/// struck, and whether anything was struck at all.
#[derive(Clone, Copy)]
pub struct HitRecord {
    pub p: Vec3,
    pub normal: Vec3,
    pub material: Material,
    pub t: Fx,
    pub front_face: bool,
    pub is_hit: bool,
}

impl View for HitRecord {
    type V = HitV;

    open spec fn view(&self) -> HitV {
        HitV {
            p: self.p@,
            normal: self.normal@,
            material: self.material,
            t: self.t@,
            front_face: self.front_face,
            is_hit: self.is_hit,
        }
    }
}

impl HitRecord {
    /// The record returned when nothing is struck.
    pub fn miss() -> (r: HitRecord)
        ensures
            r@ == miss_v(),
    {
        let zero = Vec3::origin();
        let r = HitRecord {
            p: zero,
            normal: zero,
            material: Material::Lambertian(Lambertian::new(zero)),
            t: Fx::zero(),
            front_face: false,
            is_hit: false,
        };
        proof {
            lemma_fx_raw_view(0);
            lemma_fx_view_injective(zero.x, fx_raw(0));
            lemma_fx_view_injective(zero.y, fx_raw(0));
            lemma_fx_view_injective(zero.z, fx_raw(0));
            assert(zero == Vec3 { x: fx_raw(0), y: fx_raw(0), z: fx_raw(0) });
        }
        r
    }

    /// Orients an outward normal against the incoming ray.
    pub fn get_face_normal(ray: &Ray, outward_normal: Vec3) -> (r: (bool, Vec3))
        ensures
            r.0 == face_normal_v(ray.dir@, outward_normal@).0,
            r.1@ == face_normal_v(ray.dir@, outward_normal@).1,
    {
        let front_face = ray.dir.dot(&outward_normal).lt(Fx::zero());
        let normal = if front_face {
            outward_normal
        } else {
            outward_normal.neg()
        };
        (front_face, normal)
    }
}

/// The polymorphic intersection capability.
pub trait Hittable {
    /// The mathematical result of the intersection test.
    spec fn hit_spec(&self, ray: Ray, t_min: int, t_max: int) -> HitV;

    /// Returns the nearest intersection with parameter in `[t_min, t_max]`,
    /// or a record with `is_hit == false` if there is none.
    fn hit(&self, ray: &Ray, t_min: Fx, t_max: Fx) -> (rec: HitRecord)
        ensures
            rec@ == self.hit_spec(*ray, t_min@, t_max@),
    ;
}

} // verus!
