//! A ray: an origin and a direction, with the parametrized position
//! `origin + direction * t`.

use vstd::prelude::*;
use crate::fixed::{tdiv, lemma_tdiv_bound};
use crate::point::Point3;
use crate::vector3::{V3i, Vector3, bounded3};

verus! {

/// Mathematical view of a ray.
pub ghost struct RayV {
    pub origin: V3i,
    pub direction: V3i,
}

/// The point a ray reaches at parameter `t`, one truncation per component.
pub open spec fn ray_at3(r: RayV, t: int) -> V3i {
    V3i {
        x: r.origin.x + tdiv(r.direction.x * t, 65536),
        y: r.origin.y + tdiv(r.direction.y * t, 65536),
        z: r.origin.z + tdiv(r.direction.z * t, 65536),
    }
}

pub struct Ray {
    pub origin: Point3,
    pub direction: Vector3,
}

impl Clone for Ray {
    fn clone(&self) -> (r: Self)
        ensures
            r == *self,
    {
        Ray { origin: self.origin, direction: self.direction }
    }
}

impl Copy for Ray {

}

impl View for Ray {
    type V = RayV;

    open spec fn view(&self) -> RayV {
        RayV { origin: self.origin@, direction: self.direction@ }
    }
}

impl Ray {
    pub fn new(origin: Point3, direction: Vector3) -> (r: Self)
        ensures
            r@ == (RayV { origin: origin@, direction: direction@ }),
    {
        Ray { origin, direction }
    }

    /// The point reached after parameter `parameter` along the direction.
    pub fn position(&self, parameter: i64) -> (r: Point3)
        requires
            bounded3(self@.direction, 0x40000000),
            bounded3(self@.origin, 0x1000000000000000),
            -0x100000000000 <= parameter <= 0x100000000000,
        ensures
            r@ == ray_at3(self@, parameter as int),
    {
        proof {
            assert(-0x4000000000000000000 <= self@.direction.x * parameter
                && self@.direction.x * parameter <= 0x4000000000000000000
                && -0x4000000000000000000 <= self@.direction.y * parameter
                && self@.direction.y * parameter <= 0x4000000000000000000
                && -0x4000000000000000000 <= self@.direction.z * parameter
                && self@.direction.z * parameter <= 0x4000000000000000000) by (nonlinear_arith)
                requires bounded3(self@.direction, 0x40000000)
                    && -0x100000000000 <= parameter <= 0x100000000000;
            lemma_tdiv_bound(self@.direction.x * parameter, 65536, 0x400000000000000);
            lemma_tdiv_bound(self@.direction.y * parameter, 65536, 0x400000000000000);
            lemma_tdiv_bound(self@.direction.z * parameter, 65536, 0x400000000000000);
        }
        let sx = crate::fixed::div_wide((self.direction.x as i128) * (parameter as i128), 65536);
        let sy = crate::fixed::div_wide((self.direction.y as i128) * (parameter as i128), 65536);
        let sz = crate::fixed::div_wide((self.direction.z as i128) * (parameter as i128), 65536);
        Point3 {
            x: self.origin.x + (sx as i64),
            y: self.origin.y + (sy as i64),
            z: self.origin.z + (sz as i64),
        }
    }

    pub fn get_origin(&self) -> (r: Point3)
        ensures
            r@ == self@.origin,
    {
        self.origin
    }

    pub fn get_direction(&self) -> (r: Vector3)
        ensures
            r@ == self@.direction,
    {
        self.direction
    }
}

impl Default for Ray {
    fn default() -> (r: Self)
        ensures
            r@.origin == (V3i { x: 0, y: 0, z: 0 }),
            r@.direction == (V3i { x: 0, y: 0, z: 0 }),
    {
        Ray {
            origin: Point3 { x: 0, y: 0, z: 0 },
            direction: Vector3 { x: 0, y: 0, z: 0 },
        }
    }
}

} // verus!
