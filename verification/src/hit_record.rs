//! The transient result of an intersection test: hit point, oriented surface
//! normal, ray parameter, face flag and the material that was struck.
//!
//! The orientation invariant is the point of this module: the recorded
//! normal always faces against the incoming ray, and `is_face_front` says
//! whether the geometric outward normal did so already.

use vstd::prelude::*;
use crate::fixed::tdiv;
use crate::material::Material;
use crate::point::Point3;
use crate::ray::Ray;
use crate::vector3::{V3i, Vector3, bounded3, dot3, neg3};

verus! {

pub struct HitRecord {
    pub point: Point3,
    pub normal: Vector3,
    pub parameter: i64,
    pub is_face_front: bool,
    pub material: Material,
}

impl Clone for HitRecord {
    fn clone(&self) -> (r: Self)
        ensures
            r == *self,
    {
        HitRecord {
            point: self.point,
            normal: self.normal,
            parameter: self.parameter,
            is_face_front: self.is_face_front,
            material: self.material,
        }
    }
}

impl Copy for HitRecord {

}

/// The fixed-point dot product of the ray direction and the outward normal,
/// whose sign decides the face orientation.
pub open spec fn facing_dot(direction: V3i, outward: V3i) -> int {
    tdiv(dot3(direction, outward), 65536)
}

/// The normal that a record stores for a given outward normal: flipped when
/// the outward normal does not already face the incoming ray.
pub open spec fn oriented_normal(direction: V3i, outward: V3i) -> V3i {
    if facing_dot(direction, outward) < 0 {
        outward
    } else {
        neg3(outward)
    }
}

impl HitRecord {
    /// A record is well formed when its normal is a bounded, nonzero
    /// near-unit vector and its point lies on the fixed-point grid the
    /// tracer works in.
    pub open spec fn wf(&self) -> bool {
        bounded3(self.normal@, 73728)
        && bounded3(self.point@, 0x40000000)
        && !(self.normal@.x == 0 && self.normal@.y == 0 && self.normal@.z == 0)
    }

    pub fn new(
        point: Point3,
        normal: Vector3,
        parameter: i64,
        is_face_front: bool,
        material: Material,
    ) -> (r: Self)
        ensures
            r.point == point,
            r.normal == normal,
            r.parameter == parameter,
            r.is_face_front == is_face_front,
            r.material == material,
    {
        HitRecord { point, normal, parameter, is_face_front, material }
    }

    /// Build a record whose normal is oriented against the incoming ray.
    /// The outward normal is assumed to be the geometric unit normal.
    pub fn set_face_normal(
        ray: Ray,
        outward_normal: Vector3,
        point: Point3,
        material: Material,
        parameter: i64,
    ) -> (r: Self)
        requires
            bounded3(ray@.direction, 0x40000000),
            bounded3(outward_normal@, 0x40000000),
        ensures
            r.point == point,
            r.material == material,
            r.parameter == parameter,
            r.is_face_front == (facing_dot(ray@.direction, outward_normal@) < 0),
            r.normal@ == oriented_normal(ray@.direction, outward_normal@),
    {
        let is_face_front = ray.get_direction().dot_prod(outward_normal) < 0;
        let normal = if is_face_front {
            outward_normal
        } else {
            outward_normal.neg()
        };
        HitRecord { point, normal, parameter, is_face_front, material }
    }
}

/// Front-face orientation law: whatever the outward normal, the normal a
/// record stores never faces along the incoming ray, and faces strictly
/// against it whenever the fixed-point facing product is not zero.
pub proof fn lemma_face_normal_orientation(direction: V3i, outward: V3i)
    ensures
        facing_dot(direction, oriented_normal(direction, outward)) <= 0,
        facing_dot(direction, outward) != 0
            ==> facing_dot(direction, oriented_normal(direction, outward)) < 0,
{
    let fd = facing_dot(direction, outward);
    if fd < 0 {
    } else {
        assert(dot3(direction, neg3(outward)) == -dot3(direction, outward)) by (nonlinear_arith);
        crate::fixed::lemma_tdiv_sign(dot3(direction, outward), 65536);
    }
}

} // verus!
