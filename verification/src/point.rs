//! Positions in space, as fixed-point triples. A point is not a direction:
//! displacements live in [`crate::vector3::Vector3`].

use vstd::prelude::*;
use crate::fixed::fits_i64;
use crate::vector3::{V3i, Vector3, add3, sub3, neg3};

verus! {

pub struct Point3 {
    pub x: i64,
    pub y: i64,
    pub z: i64,
}

impl Clone for Point3 {
    fn clone(&self) -> (r: Self)
        ensures
            r == *self,
    {
        Point3 { x: self.x, y: self.y, z: self.z }
    }
}

impl Copy for Point3 {

}

impl View for Point3 {
    type V = V3i;

    open spec fn view(&self) -> V3i {
        V3i { x: self.x as int, y: self.y as int, z: self.z as int }
    }
}

impl Point3 {
    pub fn new(x: i64, y: i64, z: i64) -> (r: Self)
        ensures
            r@ == (V3i { x: x as int, y: y as int, z: z as int }),
    {
        Point3 { x, y, z }
    }

    pub fn get_x(self) -> (r: i64)
        ensures
            r == self@.x,
    {
        self.x
    }

    pub fn get_y(self) -> (r: i64)
        ensures
            r == self@.y,
    {
        self.y
    }

    pub fn get_z(self) -> (r: i64)
        ensures
            r == self@.z,
    {
        self.z
    }

    /// The displacement of this point from the origin.
    pub fn as_vec(&self) -> (r: Vector3)
        ensures
            r@ == self@,
    {
        Vector3 { x: self.x, y: self.y, z: self.z }
    }

    pub fn neg(self) -> (r: Self)
        requires
            self@.x > i64::MIN,
            self@.y > i64::MIN,
            self@.z > i64::MIN,
        ensures
            r@ == neg3(self@),
    {
        Point3 { x: -self.x, y: -self.y, z: -self.z }
    }

    pub fn add(self, rhs: Self) -> (r: Self)
        requires
            fits_i64(self@.x + rhs@.x),
            fits_i64(self@.y + rhs@.y),
            fits_i64(self@.z + rhs@.z),
        ensures
            r@ == add3(self@, rhs@),
    {
        Point3 { x: self.x + rhs.x, y: self.y + rhs.y, z: self.z + rhs.z }
    }

    pub fn sub(self, rhs: Self) -> (r: Self)
        requires
            fits_i64(self@.x - rhs@.x),
            fits_i64(self@.y - rhs@.y),
            fits_i64(self@.z - rhs@.z),
        ensures
            r@ == sub3(self@, rhs@),
    {
        Point3 { x: self.x - rhs.x, y: self.y - rhs.y, z: self.z - rhs.z }
    }

    /// Translate the point by a displacement vector.
    pub fn add_vec(self, rhs: Vector3) -> (r: Self)
        requires
            fits_i64(self@.x + rhs@.x),
            fits_i64(self@.y + rhs@.y),
            fits_i64(self@.z + rhs@.z),
        ensures
            r@ == add3(self@, rhs@),
    {
        Point3 { x: self.x + rhs.x, y: self.y + rhs.y, z: self.z + rhs.z }
    }

    /// Translate the point against a displacement vector.
    pub fn sub_vec(self, rhs: Vector3) -> (r: Self)
        requires
            fits_i64(self@.x - rhs@.x),
            fits_i64(self@.y - rhs@.y),
            fits_i64(self@.z - rhs@.z),
        ensures
            r@ == sub3(self@, rhs@),
    {
        Point3 { x: self.x - rhs.x, y: self.y - rhs.y, z: self.z - rhs.z }
    }
}

impl Default for Point3 {
    fn default() -> (r: Self)
        ensures
            r@ == (V3i { x: 0, y: 0, z: 0 }),
    {
        Point3 { x: 0, y: 0, z: 0 }
    }
}

} // verus!
