//! Closed fixed-point ranges, used to bound acceptable hit parameters.

use vstd::prelude::*;
use crate::fixed::fits_i64;

verus! {

pub struct Interval {
    pub min: i64,
    pub max: i64,
}

impl Clone for Interval {
    fn clone(&self) -> (r: Self)
        ensures
            r == *self,
    {
        Interval { min: self.min, max: self.max }
    }
}

impl Copy for Interval {

}

impl Interval {
    pub fn new(min: i64, max: i64) -> (r: Self)
        ensures
            r.min == min,
            r.max == max,
    {
        Interval { min, max }
    }

    pub fn size(&self) -> (r: i64)
        requires
            fits_i64(self.max - self.min),
        ensures
            r == self.max - self.min,
    {
        self.max - self.min
    }

    /// Inclusive containment.
    pub fn contains(&self, element: i64) -> (r: bool)
        ensures
            r == (self.min <= element && element <= self.max),
    {
        element >= self.min && element <= self.max
    }

    /// Exclusive containment.
    pub fn inside(&self, element: i64) -> (r: bool)
        ensures
            r == (self.min < element && element < self.max),
    {
        element > self.min && element < self.max
    }
}

impl Default for Interval {
    /// The empty interval: the bounds stand in for plus and minus infinity.
    fn default() -> (r: Self)
        ensures
            r.min == i64::MAX,
            r.max == i64::MIN,
    {
        Interval { min: i64::MAX, max: i64::MIN }
    }
}

} // verus!
