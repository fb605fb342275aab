//! Rays: an origin with a direction, parametrizing `origin + t * direction`.
use vstd::prelude::*;

verus! {

use crate::fixed::Fx;
use crate::vec3::{V3, Vec3, v3_add, v3_scale};

/// The point a ray reaches at parameter `t`.
pub open spec fn ray_at_v(orig: V3, dir: V3, t: int) -> V3 {
    v3_add(orig, v3_scale(dir, t))
}

#[derive(Clone, Copy, Debug, PartialEq, Eq, Structural)]
pub struct Ray {
    pub orig: Vec3,
    pub dir: Vec3,
}

impl Ray {
    pub fn new(orig: Vec3, dir: Vec3) -> (r: Ray)
        ensures
            r.orig == orig,
            r.dir == dir,
    {
        Ray { orig, dir }
    }

    pub fn at(&self, t: Fx) -> (r: Vec3)
        ensures
            r@ == ray_at_v(self.orig@, self.dir@, t@),
    {
        self.orig.add(&self.dir.scale(t))
    }
}

} // verus!
