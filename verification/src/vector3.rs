//! Three-component fixed-point vectors: arithmetic, dot and cross products,
//! length, normalization, reflection, refraction and random sampling.
//!
//! Every executable operation is pinned by an exact integer specification
//! over the mathematical view `V3i`.

use vstd::prelude::*;
use crate::fixed::{
    fits_i64, tdiv, fmul, fdiv, sqrt_s, fx_mul, fx_div, div_wide, isqrt_wide,
    lemma_sqrt_bounds, lemma_sq_monotone, lemma_tdiv_bound,
};
use crate::random::RandomSource;

verus! {

/// Mathematical view of a vector: unbounded integer components, still at the
/// raw fixed-point scale.
pub ghost struct V3i {
    pub x: int,
    pub y: int,
    pub z: int,
}

/// All three components lie in `[-b, b]`.
pub open spec fn bounded3(v: V3i, b: int) -> bool {
    -b <= v.x <= b && -b <= v.y <= b && -b <= v.z <= b
}

pub open spec fn add3(a: V3i, b: V3i) -> V3i {
    V3i { x: a.x + b.x, y: a.y + b.y, z: a.z + b.z }
}

pub open spec fn sub3(a: V3i, b: V3i) -> V3i {
    V3i { x: a.x - b.x, y: a.y - b.y, z: a.z - b.z }
}

pub open spec fn neg3(a: V3i) -> V3i {
    V3i { x: -a.x, y: -a.y, z: -a.z }
}

/// Componentwise fixed-point scaling by the scalar `s`.
pub open spec fn scale3(a: V3i, s: int) -> V3i {
    V3i { x: fmul(a.x, s), y: fmul(a.y, s), z: fmul(a.z, s) }
}

/// Componentwise fixed-point division by the scalar `s`.
pub open spec fn div3(a: V3i, s: int) -> V3i {
    V3i { x: fdiv(a.x, s), y: fdiv(a.y, s), z: fdiv(a.z, s) }
}

/// Componentwise fixed-point product.
pub open spec fn cmul3(a: V3i, b: V3i) -> V3i {
    V3i { x: fmul(a.x, b.x), y: fmul(a.y, b.y), z: fmul(a.z, b.z) }
}

/// Wide dot product: exact sum of raw products, at scale `SCALE * SCALE`.
pub open spec fn dot3(a: V3i, b: V3i) -> int {
    a.x * b.x + a.y * b.y + a.z * b.z
}

/// Wide squared norm, at scale `SCALE * SCALE`: exact, never negative.
pub open spec fn norm3(a: V3i) -> int {
    dot3(a, a)
}

/// Fixed-point cross product, one truncation per component.
pub open spec fn cross3(a: V3i, b: V3i) -> V3i {
    V3i {
        x: fmul(a.y, b.z) - fmul(a.z, b.y),
        y: fmul(a.z, b.x) - fmul(a.x, b.z),
        z: fmul(a.x, b.y) - fmul(a.y, b.x),
    }
}

/// The normalized direction of `v`: each component is `v_i * SCALE` divided by
/// the integer square root of the wide squared norm, truncated toward zero.
pub open spec fn unit3(v: V3i) -> V3i {
    let len = sqrt_s(norm3(v));
    V3i {
        x: tdiv(v.x * 65536, len),
        y: tdiv(v.y * 65536, len),
        z: tdiv(v.z * 65536, len),
    }
}

/// Mirror-reflection of `v` about `n`, one truncation per component:
/// `v - n * (2 * (v . n))`, carried out on the wide dot product.
pub open spec fn reflect3(v: V3i, n: V3i) -> V3i {
    V3i {
        x: v.x - tdiv(2 * dot3(v, n) * n.x, 4294967296),
        y: v.y - tdiv(2 * dot3(v, n) * n.y, 4294967296),
        z: v.z - tdiv(2 * dot3(v, n) * n.z, 4294967296),
    }
}

pub proof fn lemma_norm3_nonneg(a: V3i)
    by (nonlinear_arith)
    ensures
        norm3(a) >= 0,
        a.x * a.x <= norm3(a),
        a.y * a.y <= norm3(a),
        a.z * a.z <= norm3(a),
{
}

/// A componentwise bound turns into a bound on the wide dot product.
pub proof fn lemma_dot3_bound(a: V3i, b: V3i, ba: int, bb: int)
    by (nonlinear_arith)
    requires
        ba >= 0,
        bb >= 0,
        bounded3(a, ba),
        bounded3(b, bb),
    ensures
        -(3 * ba * bb) <= dot3(a, b) <= 3 * ba * bb,
{
}

/// Exact wide dot product of two bounded vectors.
pub(crate) fn dot_wide(a: &Vector3, b: &Vector3) -> (r: i128)
    requires
        bounded3(a@, 0x48000000),
        bounded3(b@, 0x48000000),
    ensures
        r == dot3(a@, b@),
        -0x3cc0000000000000 <= r <= 0x3cc0000000000000,
{
    proof {
        assert(-0x1440000000000000 <= a@.x * b@.x <= 0x1440000000000000
            && -0x1440000000000000 <= a@.y * b@.y <= 0x1440000000000000
            && -0x1440000000000000 <= a@.z * b@.z <= 0x1440000000000000) by (nonlinear_arith)
            requires bounded3(a@, 0x48000000) && bounded3(b@, 0x48000000);
    }
    (a.x as i128) * (b.x as i128) + (a.y as i128) * (b.y as i128)
        + (a.z as i128) * (b.z as i128)
}

/// No component exceeds the integer length of the vector.
pub proof fn lemma_component_le_length(v: V3i)
    ensures
        -sqrt_s(norm3(v)) <= v.x <= sqrt_s(norm3(v)),
        -sqrt_s(norm3(v)) <= v.y <= sqrt_s(norm3(v)),
        -sqrt_s(norm3(v)) <= v.z <= sqrt_s(norm3(v)),
{
    lemma_norm3_nonneg(v);
    lemma_sqrt_bounds(norm3(v));
    let l = sqrt_s(norm3(v));
    if v.x > l {
        lemma_sq_monotone(l + 1, v.x);
    }
    if v.x < -l {
        lemma_sq_monotone(l + 1, -v.x);
        assert((-v.x) * (-v.x) == v.x * v.x) by (nonlinear_arith);
    }
    if v.y > l {
        lemma_sq_monotone(l + 1, v.y);
    }
    if v.y < -l {
        lemma_sq_monotone(l + 1, -v.y);
        assert((-v.y) * (-v.y) == v.y * v.y) by (nonlinear_arith);
    }
    if v.z > l {
        lemma_sq_monotone(l + 1, v.z);
    }
    if v.z < -l {
        lemma_sq_monotone(l + 1, -v.z);
        assert((-v.z) * (-v.z) == v.z * v.z) by (nonlinear_arith);
    }
}

pub struct Vector3 {
    pub x: i64,
    pub y: i64,
    pub z: i64,
}

impl Clone for Vector3 {
    fn clone(&self) -> (r: Self)
        ensures
            r == *self,
    {
        Vector3 { x: self.x, y: self.y, z: self.z }
    }
}

impl Copy for Vector3 {

}

impl View for Vector3 {
    type V = V3i;

    open spec fn view(&self) -> V3i {
        V3i { x: self.x as int, y: self.y as int, z: self.z as int }
    }
}

pub trait Cross {
    fn cross_prod(&self, rhs: Self) -> Self where Self: core::marker::Sized;
}

impl Cross for Vector3 {
    /// Trait form of the cross product; components too large for the
    /// fixed-point grid fall back to the zero vector. Crate code calls the
    /// inherent method, whose contract pins the result.
    fn cross_prod(&self, rhs: Self) -> Self {
        if -0x40000000 <= self.x && self.x <= 0x40000000
            && -0x40000000 <= self.y && self.y <= 0x40000000
            && -0x40000000 <= self.z && self.z <= 0x40000000
            && -0x40000000 <= rhs.x && rhs.x <= 0x40000000
            && -0x40000000 <= rhs.y && rhs.y <= 0x40000000
            && -0x40000000 <= rhs.z && rhs.z <= 0x40000000
        {
            Vector3::cross_prod(self, rhs)
        } else {
            Vector3 { x: 0, y: 0, z: 0 }
        }
    }
}

impl Vector3 {
    pub fn new(x: i64, y: i64, z: i64) -> (r: Self)
        ensures
            r@ == (V3i { x: x as int, y: y as int, z: z as int }),
    {
        Vector3 { x, y, z }
    }

    pub fn get_x(self) -> (r: i64)
        ensures
            r == self@.x,
    {
        self.x
    }

    pub fn get_y(self) -> (r: i64)
        ensures
            r == self@.y,
    {
        self.y
    }

    pub fn get_z(self) -> (r: i64)
        ensures
            r == self@.z,
    {
        self.z
    }

    pub fn neg(self) -> (r: Self)
        requires
            bounded3(self@, i64::MAX as int),
        ensures
            r@ == neg3(self@),
    {
        Vector3 { x: -self.x, y: -self.y, z: -self.z }
    }

    pub fn add(self, rhs: Self) -> (r: Self)
        requires
            fits_i64(self@.x + rhs@.x),
            fits_i64(self@.y + rhs@.y),
            fits_i64(self@.z + rhs@.z),
        ensures
            r@ == add3(self@, rhs@),
    {
        Vector3 { x: self.x + rhs.x, y: self.y + rhs.y, z: self.z + rhs.z }
    }

    pub fn add_assign(&mut self, rhs: Self)
        requires
            fits_i64(old(self)@.x + rhs@.x),
            fits_i64(old(self)@.y + rhs@.y),
            fits_i64(old(self)@.z + rhs@.z),
        ensures
            final(self)@ == add3(old(self)@, rhs@),
    {
        self.x = self.x + rhs.x;
        self.y = self.y + rhs.y;
        self.z = self.z + rhs.z;
    }

    pub fn sub(self, rhs: Self) -> (r: Self)
        requires
            fits_i64(self@.x - rhs@.x),
            fits_i64(self@.y - rhs@.y),
            fits_i64(self@.z - rhs@.z),
        ensures
            r@ == sub3(self@, rhs@),
    {
        Vector3 { x: self.x - rhs.x, y: self.y - rhs.y, z: self.z - rhs.z }
    }

    /// Fixed-point scaling by the scalar `rhs`.
    pub fn mul(self, rhs: i64) -> (r: Self)
        requires
            fits_i64(fmul(self@.x, rhs as int)),
            fits_i64(fmul(self@.y, rhs as int)),
            fits_i64(fmul(self@.z, rhs as int)),
        ensures
            r@ == scale3(self@, rhs as int),
    {
        Vector3 {
            x: fx_mul(self.x, rhs),
            y: fx_mul(self.y, rhs),
            z: fx_mul(self.z, rhs),
        }
    }

    /// Componentwise fixed-point product.
    pub fn mul_assign(&mut self, rhs: Self)
        requires
            fits_i64(fmul(old(self)@.x, rhs@.x)),
            fits_i64(fmul(old(self)@.y, rhs@.y)),
            fits_i64(fmul(old(self)@.z, rhs@.z)),
        ensures
            final(self)@ == cmul3(old(self)@, rhs@),
    {
        self.x = fx_mul(self.x, rhs.x);
        self.y = fx_mul(self.y, rhs.y);
        self.z = fx_mul(self.z, rhs.z);
    }

    /// Fixed-point division by the positive scalar `rhs`.
    pub fn div(self, rhs: i64) -> (r: Self)
        requires
            rhs > 0,
            fits_i64(fdiv(self@.x, rhs as int)),
            fits_i64(fdiv(self@.y, rhs as int)),
            fits_i64(fdiv(self@.z, rhs as int)),
        ensures
            r@ == div3(self@, rhs as int),
    {
        Vector3 {
            x: fx_div(self.x, rhs),
            y: fx_div(self.y, rhs),
            z: fx_div(self.z, rhs),
        }
    }

    /// The squared length as a fixed-point scalar (wide norm over `SCALE`).
    pub fn length_squared(&self) -> (r: i64)
        requires
            bounded3(self@, 0x40000000),
        ensures
            r == tdiv(norm3(self@), 65536),
            r >= 0,
    {
        let w: i128 = dot_wide(self, self);
        proof {
            lemma_norm3_nonneg(self@);
            crate::fixed::lemma_tdiv_sign(w as int, 65536);
            lemma_tdiv_bound(w as int, 65536, 0x3000000000000000);
        }
        let q = div_wide(w, 65536);
        q as i64
    }

    /// The length as a fixed-point scalar: the integer square root of the
    /// wide squared norm.
    pub fn length(&self) -> (r: i64)
        requires
            bounded3(self@, 0x40000000),
        ensures
            r == sqrt_s(norm3(self@)),
            r >= 0,
    {
        let w: i128 = dot_wide(self, self);
        proof {
            lemma_norm3_nonneg(self@);
        }
        let r = isqrt_wide(w);
        proof {
            lemma_sqrt_bounds(w as int);
            let s = sqrt_s(w as int);
            assert(s < 0x100000000) by {
                if s >= 0x100000000 {
                    lemma_sq_monotone(0x100000000, s);
                }
            }
        }
        r as i64
    }

    /// The direction of `self` normalized to (almost) unit length. Every
    /// component of the result is bounded by `SCALE` in magnitude.
    pub fn unit_vector(&self) -> (r: Self)
        requires
            bounded3(self@, 0x40000000),
            norm3(self@) > 0,
        ensures
            r@ == unit3(self@),
            bounded3(r@, 65536),
    {
        let len = self.length();
        proof {
            lemma_norm3_nonneg(self@);
            lemma_sqrt_bounds(norm3(self@));
            lemma_component_le_length(self@);
            let l = sqrt_s(norm3(self@));
            assert(l >= 1) by {
                if l <= 0 {
                    assert((l + 1) * (l + 1) <= 1) by (nonlinear_arith)
                        requires l == 0;
                }
            }
            assert(self@.x * 65536 <= l * 65536 && -(l * 65536) <= self@.x * 65536)
                by (nonlinear_arith)
                requires -l <= self@.x <= l && l >= 1;
            assert(self@.y * 65536 <= l * 65536 && -(l * 65536) <= self@.y * 65536)
                by (nonlinear_arith)
                requires -l <= self@.y <= l && l >= 1;
            assert(self@.z * 65536 <= l * 65536 && -(l * 65536) <= self@.z * 65536)
                by (nonlinear_arith)
                requires -l <= self@.z <= l && l >= 1;
            lemma_tdiv_bound(self@.x * 65536, l, 65536);
            lemma_tdiv_bound(self@.y * 65536, l, 65536);
            lemma_tdiv_bound(self@.z * 65536, l, 65536);
        }
        self.div(len)
    }

    /// True exactly when the vector is zero in every component: below one raw
    /// unit, nothing smaller than the representable threshold survives.
    pub fn near_zero(&self) -> (r: bool)
        ensures
            r == (self@.x == 0 && self@.y == 0 && self@.z == 0),
    {
        self.x == 0 && self.y == 0 && self.z == 0
    }

    pub fn dot_prod(&self, rhs: Self) -> (r: i64)
        requires
            bounded3(self@, 0x40000000),
            bounded3(rhs@, 0x40000000),
        ensures
            r == tdiv(dot3(self@, rhs@), 65536),
    {
        let w: i128 = dot_wide(self, &rhs);
        proof {
            lemma_tdiv_bound(w as int, 65536, 0x300000000000000000);
        }
        let q = div_wide(w, 65536);
        q as i64
    }

    pub fn cross_prod(&self, rhs: Self) -> (r: Self)
        requires
            bounded3(self@, 0x40000000),
            bounded3(rhs@, 0x40000000),
        ensures
            r@ == cross3(self@, rhs@),
    {
        proof {
            lemma_fmul_bound(self@.y, rhs@.z, 0x40000000, 0x40000000);
            lemma_fmul_bound(self@.z, rhs@.y, 0x40000000, 0x40000000);
            lemma_fmul_bound(self@.z, rhs@.x, 0x40000000, 0x40000000);
            lemma_fmul_bound(self@.x, rhs@.z, 0x40000000, 0x40000000);
            lemma_fmul_bound(self@.x, rhs@.y, 0x40000000, 0x40000000);
            lemma_fmul_bound(self@.y, rhs@.x, 0x40000000, 0x40000000);
        }
        Vector3 {
            x: fx_mul(self.y, rhs.z) - fx_mul(self.z, rhs.y),
            y: fx_mul(self.z, rhs.x) - fx_mul(self.x, rhs.z),
            z: fx_mul(self.x, rhs.y) - fx_mul(self.y, rhs.x),
        }
    }

    /// Mirror-reflection about `normal_vec`, carried out on the wide dot
    /// product so that each component is truncated exactly once.
    pub fn reflection(&self, normal_vec: &Self) -> (r: Self)
        requires
            bounded3(self@, 0x40000000),
            bounded3(normal_vec@, 0x40000000),
        ensures
            r@ == reflect3(self@, normal_vec@),
    {
        let d: i128 = dot_wide(self, normal_vec);
        let rx = self.x - reflect_step(d, normal_vec.x);
        let ry = self.y - reflect_step(d, normal_vec.y);
        let rz = self.z - reflect_step(d, normal_vec.z);
        Vector3 { x: rx, y: ry, z: rz }
    }

    /// Refraction of `self` about `normal_vec` with the given ratio of
    /// refractive indices, following Snell's law on the perpendicular and
    /// parallel decomposition.
    pub fn refraction(&self, normal_vec: &Self, ratio_refractive_index: i64) -> (r: Self)
        requires
            bounded3(self@, 524288),
            bounded3(normal_vec@, 524288),
            0 < ratio_refractive_index <= 524288,
        ensures
            r@ == refract3(self@, normal_vec@, ratio_refractive_index as int),
    {
        let d: i128 = dot_wide(self, normal_vec);
        proof {
            lemma_dot3_bound(self@, normal_vec@, 524288, 524288);
        }
        let cos_w: i128 = if -d < 4294967296 { -d } else { 4294967296 };
        let px = perp_step(self.x, normal_vec.x, cos_w, ratio_refractive_index);
        let py = perp_step(self.y, normal_vec.y, cos_w, ratio_refractive_index);
        let pz = perp_step(self.z, normal_vec.z, cos_w, ratio_refractive_index);
        let perp = Vector3 { x: px, y: py, z: pz };
        let ls = perp.length_squared();
        let diff = 65536i64 - ls;
        let a = if diff >= 0 { diff } else { -diff };
        let sq = crate::fixed::sqrt_fx(a);
        proof {
            lemma_sqrt_bounds(a * 65536);
            assert(sqrt_s(a as int * 65536) < 0x10000000000) by {
                if sqrt_s(a as int * 65536) >= 0x10000000000 {
                    lemma_sq_monotone(0x10000000000, sqrt_s(a as int * 65536));
                }
            }
            assert(-(0x8000000000000 * 65536) <= normal_vec@.x * sq as int
                && normal_vec@.x * sq as int <= 0x8000000000000 * 65536) by (nonlinear_arith)
                requires -524288 <= normal_vec@.x <= 524288 && 0 <= sq < 0x10000000000;
            assert(-(0x8000000000000 * 65536) <= normal_vec@.y * sq as int
                && normal_vec@.y * sq as int <= 0x8000000000000 * 65536) by (nonlinear_arith)
                requires -524288 <= normal_vec@.y <= 524288 && 0 <= sq < 0x10000000000;
            assert(-(0x8000000000000 * 65536) <= normal_vec@.z * sq as int
                && normal_vec@.z * sq as int <= 0x8000000000000 * 65536) by (nonlinear_arith)
                requires -524288 <= normal_vec@.z <= 524288 && 0 <= sq < 0x10000000000;
            lemma_tdiv_bound(normal_vec@.x * sq as int, 65536, 0x8000000000000);
            lemma_tdiv_bound(normal_vec@.y * sq as int, 65536, 0x8000000000000);
            lemma_tdiv_bound(normal_vec@.z * sq as int, 65536, 0x8000000000000);
        }
        let parx = -(div_wide((normal_vec.x as i128) * (sq as i128), 65536) as i64);
        let pary = -(div_wide((normal_vec.y as i128) * (sq as i128), 65536) as i64);
        let parz = -(div_wide((normal_vec.z as i128) * (sq as i128), 65536) as i64);
        Vector3 { x: parx + px, y: pary + py, z: parz + pz }
    }

    /// A vector with three fresh unit-interval draws as components.
    pub fn random_new(rng: &mut RandomSource) -> (r: Self)
        ensures
            bounded3(r@, 65536),
            0 <= r@.x < 65536,
            0 <= r@.y < 65536,
            0 <= r@.z < 65536,
    {
        let x = rng.next_unit();
        let y = rng.next_unit();
        let z = rng.next_unit();
        Vector3 { x, y, z }
    }

    /// A vector with three fresh draws in `[low, high)` as components.
    pub fn random_range_new(rng: &mut RandomSource, low: i64, high: i64) -> (r: Self)
        requires
            -0x10000000000 <= low < high <= 0x10000000000,
        ensures
            low <= r@.x < high,
            low <= r@.y < high,
            low <= r@.z < high,
    {
        let x = rng.next_range(low, high);
        let y = rng.next_range(low, high);
        let z = rng.next_range(low, high);
        Vector3 { x, y, z }
    }

    /// A random nonzero vector inside the unit ball, found by rejection
    /// sampling over the unit cube (with a fixed fallback after a bounded
    /// number of attempts, so the search always ends).
    pub fn random_in_unit_sphere(rng: &mut RandomSource) -> (r: Self)
        ensures
            bounded3(r@, 65536),
            norm3(r@) > 0,
    {
        let mut tries: u32 = 0;
        while tries < 64
            invariant
                tries <= 64,
            decreases 64 - tries,
        {
            let candidate = Vector3::random_range_new(rng, -65536, 65536);
            let ls = candidate.length_squared();
            if 0 < ls && ls < 65536 {
                proof {
                    lemma_norm3_nonneg(candidate@);
                    crate::fixed::lemma_tdiv_sign(norm3(candidate@), 65536);
                }
                return candidate;
            }
            tries = tries + 1;
        }
        Vector3 { x: 65536, y: 0, z: 0 }
    }

    /// A random direction of (almost) unit length.
    pub fn random_unit_vector(rng: &mut RandomSource) -> (r: Self)
        ensures
            bounded3(r@, 65536),
    {
        let v = Vector3::random_in_unit_sphere(rng);
        v.unit_vector()
    }

    /// A random unit direction on the hemisphere around `self`: the draw is
    /// flipped when it falls on the far side.
    pub fn random_on_hemisphere(&self, rng: &mut RandomSource) -> (r: Self)
        requires
            bounded3(self@, 0x40000000),
        ensures
            bounded3(r@, 65536),
    {
        let on_unit_sphere = Vector3::random_unit_vector(rng);
        if self.dot_prod(on_unit_sphere) > 0 {
            on_unit_sphere
        } else {
            on_unit_sphere.neg()
        }
    }
}

impl Default for Vector3 {
    fn default() -> (r: Self)
        ensures
            r@ == (V3i { x: 0, y: 0, z: 0 }),
    {
        Vector3 { x: 0, y: 0, z: 0 }
    }
}

/// Refraction mirror: perpendicular part, squared-length deficit, parallel
/// part, one truncation per step, exactly as the executable code computes it.
pub open spec fn refract3(v: V3i, n: V3i, ratio: int) -> V3i {
    let cos_w = if -dot3(v, n) < 4294967296 { -dot3(v, n) } else { 4294967296 };
    let perp = V3i {
        x: tdiv((v.x * 4294967296 + n.x * cos_w) * ratio, 281474976710656),
        y: tdiv((v.y * 4294967296 + n.y * cos_w) * ratio, 281474976710656),
        z: tdiv((v.z * 4294967296 + n.z * cos_w) * ratio, 281474976710656),
    };
    let ls = tdiv(norm3(perp), 65536);
    let deficit = if 65536 - ls >= 0 { 65536 - ls } else { -(65536 - ls) };
    let sq = sqrt_s(deficit * 65536);
    V3i {
        x: -tdiv(n.x * sq, 65536) + perp.x,
        y: -tdiv(n.y * sq, 65536) + perp.y,
        z: -tdiv(n.z * sq, 65536) + perp.z,
    }
}

/// One component of the reflection correction term.
fn reflect_step(d: i128, nc: i64) -> (r: i64)
    requires
        -0x3cc0000000000000 <= d <= 0x3cc0000000000000,
        -0x40000000 <= nc <= 0x40000000,
    ensures
        r == tdiv(2 * d * nc, 4294967296),
        -0x1e60000000000000 <= r <= 0x1e60000000000000,
{
    proof {
        assert(-0x1e6000000000000000000000 <= 2 * (d as int) * (nc as int)
            && 2 * (d as int) * (nc as int) <= 0x1e6000000000000000000000) by (nonlinear_arith)
            requires -0x3cc0000000000000 <= d <= 0x3cc0000000000000
                && -0x40000000 <= nc <= 0x40000000;
        lemma_tdiv_bound(2 * (d as int) * (nc as int), 4294967296, 0x1e60000000000000);
        assert(2 * (d as int) * (nc as int) == 2 * ((d as int) * (nc as int))) by (nonlinear_arith);
    }
    let w: i128 = 2 * (d * (nc as i128));
    let q = div_wide(w, 4294967296);
    q as i64
}

/// One component of the refraction perpendicular part.
fn perp_step(vc: i64, nc: i64, cos_w: i128, ratio: i64) -> (r: i64)
    requires
        -524288 <= vc <= 524288,
        -524288 <= nc <= 524288,
        -0xC000000000 <= cos_w <= 0x100000000,
        0 < ratio <= 524288,
    ensures
        r == tdiv((vc * 4294967296 + nc * cos_w) * ratio, 281474976710656),
        -0x40000000 <= r <= 0x40000000,
{
    proof {
        assert(-0x600000000000000 <= nc as int * cos_w as int
            && nc as int * cos_w as int <= 0x600000000000000) by (nonlinear_arith)
            requires -524288 <= nc <= 524288 && -0xC000000000 <= cos_w <= 0x100000000;
        assert({
            let base = vc as int * 4294967296 + nc as int * cos_w as int;
            -0x40000000000000000000 <= base * ratio
                && base * ratio <= 0x40000000000000000000
        }) by (nonlinear_arith)
            requires -524288 <= vc <= 524288
                && -0x600000000000000 <= nc as int * cos_w as int <= 0x600000000000000
                && 0 < ratio <= 524288;
        lemma_tdiv_bound(
            (vc as int * 4294967296 + nc as int * cos_w as int) * ratio as int,
            281474976710656,
            0x40000000,
        );
    }
    let base: i128 = (vc as i128) * 4294967296 + (nc as i128) * cos_w;
    let w: i128 = base * (ratio as i128);
    let q = div_wide(w, 281474976710656);
    q as i64
}

/// Bound on a fixed-point product from componentwise bounds.
pub proof fn lemma_fmul_bound(a: int, b: int, ba: int, bb: int)
    requires
        ba >= 0,
        bb >= 0,
        -ba <= a <= ba,
        -bb <= b <= bb,
    ensures
        -(ba * bb) <= fmul(a, b) <= ba * bb,
{
    assert(-(ba * bb) <= a * b && a * b <= ba * bb) by (nonlinear_arith)
        requires ba >= 0 && bb >= 0 && -ba <= a <= ba && -bb <= b <= bb;
    assert(ba * bb <= ba * bb * 65536 && -(ba * bb * 65536) <= -(ba * bb)) by (nonlinear_arith)
        requires ba * bb >= 0;
    lemma_tdiv_bound(a * b, 65536, ba * bb);
}


/// Reflection of a near-unit vector about a near-unit normal stays small.
pub proof fn lemma_reflect3_bound(v: V3i, n: V3i)
    requires
        bounded3(v, 65536),
        bounded3(n, 73728),
    ensures
        bounded3(reflect3(v, n), 563200),
{
    lemma_dot3_bound(v, n, 65536, 73728);
    let d = dot3(v, n);
    assert(-2137450604396544 <= 2 * d * n.x <= 2137450604396544
        && -2137450604396544 <= 2 * d * n.y <= 2137450604396544
        && -2137450604396544 <= 2 * d * n.z <= 2137450604396544) by (nonlinear_arith)
        requires -14495514624 <= d <= 14495514624 && bounded3(n, 73728);
    lemma_tdiv_bound(2 * d * n.x, 4294967296, 497664);
    lemma_tdiv_bound(2 * d * n.y, 4294967296, 497664);
    lemma_tdiv_bound(2 * d * n.z, 4294967296, 497664);
}

/// Refraction of a near-unit vector about a near-unit normal, for any ratio
/// the dielectric model allows, stays small.
pub proof fn lemma_refract3_bound(v: V3i, n: V3i, ratio: int)
    requires
        bounded3(v, 65536),
        bounded3(n, 73728),
        0 < ratio <= 524288,
    ensures
        bounded3(refract3(v, n, ratio), 7415457),
{
    lemma_dot3_bound(v, n, 65536, 73728);
    let d = dot3(v, n);
    let cos_w = if -d < 4294967296 { -d } else { 4294967296int };
    assert(-14495514624 <= cos_w <= 4294967296);
    assert({
        &&& -707893803828604043264 <= (v.x * 4294967296 + n.x * cos_w) * ratio <= 707893803828604043264
        &&& -707893803828604043264 <= (v.y * 4294967296 + n.y * cos_w) * ratio <= 707893803828604043264
        &&& -707893803828604043264 <= (v.z * 4294967296 + n.z * cos_w) * ratio <= 707893803828604043264
    }) by (nonlinear_arith)
        requires bounded3(v, 65536) && bounded3(n, 73728)
            && -14495514624 <= cos_w <= 4294967296 && 0 < ratio <= 524288;
    lemma_tdiv_bound((v.x * 4294967296 + n.x * cos_w) * ratio, 281474976710656, 2514944);
    lemma_tdiv_bound((v.y * 4294967296 + n.y * cos_w) * ratio, 281474976710656, 2514944);
    lemma_tdiv_bound((v.z * 4294967296 + n.z * cos_w) * ratio, 281474976710656, 2514944);
    let perp = V3i {
        x: tdiv((v.x * 4294967296 + n.x * cos_w) * ratio, 281474976710656),
        y: tdiv((v.y * 4294967296 + n.y * cos_w) * ratio, 281474976710656),
        z: tdiv((v.z * 4294967296 + n.z * cos_w) * ratio, 281474976710656),
    };
    lemma_norm3_nonneg(perp);
    lemma_dot3_bound(perp, perp, 2514944, 2514944);
    crate::fixed::lemma_tdiv_sign(norm3(perp), 65536);
    lemma_tdiv_bound(norm3(perp), 65536, 289532928);
    let ls = tdiv(norm3(perp), 65536);
    let deficit = if 65536 - ls >= 0 { 65536 - ls } else { -(65536 - ls) };
    assert(0 <= deficit <= 289532928);
    let sq = sqrt_s(deficit * 65536);
    lemma_sqrt_bounds(deficit * 65536);
    assert(sq < 4356011) by {
        if sq >= 4356011 {
            lemma_sq_monotone(4356011, sq);
        }
    }
    assert(-321159979008 <= n.x * sq <= 321159979008
        && -321159979008 <= n.y * sq <= 321159979008
        && -321159979008 <= n.z * sq <= 321159979008) by (nonlinear_arith)
        requires bounded3(n, 73728) && 0 <= sq <= 4356011;
    lemma_tdiv_bound(n.x * sq, 65536, 4900513);
    lemma_tdiv_bound(n.y * sq, 65536, 4900513);
    lemma_tdiv_bound(n.z * sq, 65536, 4900513);
}


/// Energy-conserving reflection: for a unit normal, the ideal
/// infinite-precision mirror reflection preserves the squared length of the
/// vector. The executable `reflection` computes exactly this formula, with
/// one truncation per component after the wide arithmetic below.
/// The algebraic core of energy conservation: reflecting about a normal of
/// squared norm `s` scales the squared norm of the vector by exactly
/// `s * s`, for any vector and normal.
proof fn lemma_reflect_norm_core(
    vx: int, vy: int, vz: int,
    nx: int, ny: int, nz: int,
    s: int, d: int,
)
    requires
        nx * nx + ny * ny + nz * nz == s,
        d == vx * nx + vy * ny + vz * nz,
    ensures
        (vx * s - 2 * d * nx) * (vx * s - 2 * d * nx)
            + (vy * s - 2 * d * ny) * (vy * s - 2 * d * ny)
            + (vz * s - 2 * d * nz) * (vz * s - 2 * d * nz)
            == s * s * (vx * vx + vy * vy + vz * vz),
{
    crate::fixed::lemma_binomial_sub(vx * s, 2 * d * nx);
    crate::fixed::lemma_binomial_sub(vy * s, 2 * d * ny);
    crate::fixed::lemma_binomial_sub(vz * s, 2 * d * nz);
    crate::fixed::lemma_square_of_product(vx, s);
    crate::fixed::lemma_square_of_product(vy, s);
    crate::fixed::lemma_square_of_product(vz, s);
    crate::fixed::lemma_mul_twist(vx, s, d, nx);
    crate::fixed::lemma_mul_twist(vy, s, d, ny);
    crate::fixed::lemma_mul_twist(vz, s, d, nz);
    crate::fixed::lemma_double_sq(d, nx);
    crate::fixed::lemma_double_sq(d, ny);
    crate::fixed::lemma_double_sq(d, nz);
    crate::fixed::lemma_mul_dist3(s * d, vx * nx, vy * ny, vz * nz);
    crate::fixed::lemma_mul_dist3(d * d, nx * nx, ny * ny, nz * nz);
    crate::fixed::lemma_mul_rotate(s, d);
    crate::fixed::lemma_mul_dist3(s * s, vx * vx, vy * vy, vz * vz);
}

/// Energy-conserving reflection: for a unit normal, the ideal
/// infinite-precision mirror reflection preserves the squared length of the
/// vector. The executable `reflection` computes exactly this formula, with
/// one truncation per component after the wide arithmetic.
pub proof fn lemma_reflection_preserves_norm(v: V3i, n: V3i)
    requires
        norm3(n) == 4294967296,
    ensures
        ({
            let rw = V3i {
                x: v.x * 4294967296 - 2 * dot3(v, n) * n.x,
                y: v.y * 4294967296 - 2 * dot3(v, n) * n.y,
                z: v.z * 4294967296 - 2 * dot3(v, n) * n.z,
            };
            norm3(rw) == 4294967296 * 4294967296 * norm3(v)
        }),
{
    lemma_reflect_norm_core(v.x, v.y, v.z, n.x, n.y, n.z, 4294967296, dot3(v, n));
}

} // verus!
