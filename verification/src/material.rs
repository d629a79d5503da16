//! The scattering models: Lambertian diffuse, fuzzy metal and clear
//! dielectric, dispatched over a closed sum type.
//!
//! A scatter either produces an outgoing ray with an attenuation or signals
//! absorption. Randomness comes in through the caller's `RandomSource`, so
//! each contract holds for every draw the source can make.

use vstd::prelude::*;
use crate::color::{C3i, Color, channels_within};
use crate::fixed::{tdiv, fmul, fdiv, sqrt_s, fx_mul, fx_div, sqrt_fx, clamp_fx,
    lemma_tdiv_bound, lemma_sqrt_bounds, lemma_sq_monotone};
use crate::hit_record::HitRecord;
use crate::random::RandomSource;
use crate::ray::Ray;
use crate::vector3::{V3i, Vector3, bounded3, dot3, norm3, unit3, reflect3, refract3,
    lemma_dot3_bound, lemma_fmul_bound, lemma_reflect3_bound, lemma_refract3_bound};

verus! {

/// A successful scatter: the outgoing ray and the per-channel attenuation.
pub struct Scatter {
    pub scattered_ray: Ray,
    pub attenuation: Color,
}

impl Clone for Scatter {
    fn clone(&self) -> (r: Self)
        ensures
            r == *self,
    {
        Scatter { scattered_ray: self.scattered_ray, attenuation: self.attenuation }
    }
}

impl Copy for Scatter {

}

pub struct Lambertian {
    pub albedo: Color,
}

pub struct Metal {
    pub albedo: Color,
    pub fuzz: i64,
}

pub struct Dielectric {
    pub refractive_index: i64,
}

/// The closed set of materials, dispatched by match.
pub enum Material {
    Lambertian(Lambertian),
    Metal(Metal),
    Dielectric(Dielectric),
}

impl Clone for Lambertian {
    fn clone(&self) -> (r: Self)
        ensures
            r == *self,
    {
        Lambertian { albedo: self.albedo }
    }
}

impl Copy for Lambertian {

}

impl Clone for Metal {
    fn clone(&self) -> (r: Self)
        ensures
            r == *self,
    {
        Metal { albedo: self.albedo, fuzz: self.fuzz }
    }
}

impl Copy for Metal {

}

impl Clone for Dielectric {
    fn clone(&self) -> (r: Self)
        ensures
            r == *self,
    {
        Dielectric { refractive_index: self.refractive_index }
    }
}

impl Copy for Dielectric {

}

impl Clone for Material {
    fn clone(&self) -> (r: Self)
        ensures
            r == *self,
    {
        match self {
            Material::Lambertian(l) => Material::Lambertian(*l),
            Material::Metal(m) => Material::Metal(*m),
            Material::Dielectric(d) => Material::Dielectric(*d),
        }
    }
}

impl Copy for Material {

}

/// The attenuation each material model applies on a successful scatter:
/// the albedo for diffuse and metallic surfaces, white for clear glass.
pub open spec fn scatter_attenuation(m: Material) -> C3i {
    match m {
        Material::Lambertian(l) => l.albedo@,
        Material::Metal(mt) => mt.albedo@,
        Material::Dielectric(_) => C3i { r: 65536, g: 65536, b: 65536 },
    }
}

impl Material {
    /// Well-formed material parameters: albedos within `[0, 1]`, fuzz within
    /// `[0, 1]`, refractive index within the fixed-point window `[1/8, 8]`.
    pub open spec fn wf(&self) -> bool {
        match self {
            Material::Lambertian(l) => channels_within(l.albedo@, 65536),
            Material::Metal(m) => channels_within(m.albedo@, 65536) && 0 <= m.fuzz <= 65536,
            Material::Dielectric(d) => 8192 <= d.refractive_index <= 524288,
        }
    }

    /// Dispatch the scatter to the struck material's model.
    pub fn scatter(
        &self,
        incoming_ray: Ray,
        record: &HitRecord,
        rng: &mut RandomSource,
    ) -> (r: Option<Scatter>)
        requires
            self.wf(),
            record.wf(),
            bounded3(incoming_ray@.direction, 0x40000000),
            norm3(incoming_ray@.direction) > 0,
        ensures
            r matches Some(s) ==> {
                &&& s.scattered_ray@.origin == record.point@
                &&& bounded3(s.scattered_ray@.direction, 0x1000000)
                &&& channels_within(s.attenuation@, 65536)
                &&& s.attenuation@ == scatter_attenuation(*self)
            },
    {
        match self {
            Material::Lambertian(l) => l.scatter(incoming_ray, record, rng),
            Material::Metal(m) => m.scatter(incoming_ray, record, rng),
            Material::Dielectric(d) => d.scatter(incoming_ray, record, rng),
        }
    }
}

impl Lambertian {
    pub fn new(albedo: Color) -> (r: Self)
        requires
            channels_within(albedo@, 65536),
        ensures
            r.albedo == albedo,
    {
        Lambertian { albedo }
    }

    /// Diffuse scatter: the normal plus a random unit direction, with the
    /// normal itself as fallback when the sum cancels to zero. The returned
    /// direction is never the zero vector, and the albedo attenuates.
    pub fn scatter(
        &self,
        _incoming_ray: Ray,
        record: &HitRecord,
        rng: &mut RandomSource,
    ) -> (r: Option<Scatter>)
        requires
            channels_within(self.albedo@, 65536),
            record.wf(),
        ensures
            r matches Some(s) && {
                &&& s.attenuation == self.albedo
                &&& s.scattered_ray@.origin == record.point@
                &&& bounded3(s.scattered_ray@.direction, 139264)
                &&& !(s.scattered_ray@.direction.x == 0
                    && s.scattered_ray@.direction.y == 0
                    && s.scattered_ray@.direction.z == 0)
            },
    {
        let mut scatter_direction: Vector3 =
            record.normal.add(Vector3::random_unit_vector(rng));

        if scatter_direction.near_zero() {
            scatter_direction = record.normal;
        }

        Some(Scatter {
            scattered_ray: Ray::new(record.point, scatter_direction),
            attenuation: self.albedo,
        })
    }
}

impl Default for Lambertian {
    fn default() -> (r: Self)
        ensures
            r.albedo@ == (C3i { r: 32768, g: 32768, b: 32768 }),
    {
        Lambertian { albedo: Color { red: 32768, green: 32768, blue: 32768 } }
    }
}

impl Metal {
    /// Fuzz is clamped into `[0, 1]` at construction.
    pub fn new(albedo: Color, fuzz: i64) -> (r: Self)
        requires
            channels_within(albedo@, 65536),
        ensures
            r.albedo == albedo,
            r.fuzz == if fuzz < 0 { 0int } else if fuzz > 65536 { 65536int } else { fuzz as int },
    {
        Metal { albedo, fuzz: clamp_fx(fuzz, 0, 65536) }
    }

    /// Mirror reflection of the unit incoming direction, perturbed by
    /// `fuzz` times a random unit vector. The ray is absorbed when the
    /// perturbed direction no longer points away from the surface; when a
    /// scatter is returned, its direction strictly faces off the surface.
    pub fn scatter(
        &self,
        incoming_ray: Ray,
        record: &HitRecord,
        rng: &mut RandomSource,
    ) -> (r: Option<Scatter>)
        requires
            channels_within(self.albedo@, 65536),
            0 <= self.fuzz <= 65536,
            record.wf(),
            bounded3(incoming_ray@.direction, 0x40000000),
            norm3(incoming_ray@.direction) > 0,
        ensures
            r matches Some(s) ==> {
                &&& s.attenuation == self.albedo
                &&& s.scattered_ray@.origin == record.point@
                &&& bounded3(s.scattered_ray@.direction, 628736)
                &&& tdiv(dot3(s.scattered_ray@.direction, record.normal@), 65536) > 0
            },
            self.fuzz == 0 ==> r.is_some() == (tdiv(dot3(
                reflect3(unit3(incoming_ray@.direction), record.normal@),
                record.normal@), 65536) > 0),
            self.fuzz == 0 ==> (r matches Some(s)
                ==> s.scattered_ray@.direction
                    == reflect3(unit3(incoming_ray@.direction), record.normal@)),
    {
        let unit_in = incoming_ray.get_direction().unit_vector();
        let mirror = unit_in.reflection(&record.normal);
        proof {
            lemma_reflect3_bound(unit_in@, record.normal@);
        }
        let fuzz_vec_unit = Vector3::random_unit_vector(rng);
        proof {
            assert(-(65536 * 65536) <= fuzz_vec_unit@.x * self.fuzz as int
                && fuzz_vec_unit@.x * self.fuzz as int <= 65536 * 65536
                && -(65536 * 65536) <= fuzz_vec_unit@.y * self.fuzz as int
                && fuzz_vec_unit@.y * self.fuzz as int <= 65536 * 65536
                && -(65536 * 65536) <= fuzz_vec_unit@.z * self.fuzz as int
                && fuzz_vec_unit@.z * self.fuzz as int <= 65536 * 65536) by (nonlinear_arith)
                requires bounded3(fuzz_vec_unit@, 65536) && 0 <= self.fuzz <= 65536;
            lemma_tdiv_bound(fuzz_vec_unit@.x * self.fuzz as int, 65536, 65536);
            lemma_tdiv_bound(fuzz_vec_unit@.y * self.fuzz as int, 65536, 65536);
            lemma_tdiv_bound(fuzz_vec_unit@.z * self.fuzz as int, 65536, 65536);
        }
        let fuzz_vec = fuzz_vec_unit.mul(self.fuzz);
        proof {
            if self.fuzz == 0 {
                assert(fuzz_vec_unit@.x * self.fuzz as int == 0
                    && fuzz_vec_unit@.y * self.fuzz as int == 0
                    && fuzz_vec_unit@.z * self.fuzz as int == 0) by (nonlinear_arith)
                    requires self.fuzz == 0;
                assert(tdiv(0, 65536) == 0);
                assert(fuzz_vec@ == (V3i { x: 0, y: 0, z: 0 }));
            }
        }
        let reflect_direction = mirror.add(fuzz_vec);
        let scattered_ray = Ray::new(record.point, reflect_direction);
        let attenuation = self.albedo;
        if scattered_ray.get_direction().dot_prod(record.normal) > 0 {
            return Some(Scatter { scattered_ray, attenuation });
        }
        None
    }
}

impl Default for Metal {
    fn default() -> (r: Self)
        ensures
            r.albedo@ == (C3i { r: 52428, g: 52428, b: 52428 }),
            r.fuzz == 65536,
    {
        Metal {
            albedo: Color { red: 52428, green: 52428, blue: 52428 },
            fuzz: 65536,
        }
    }
}

/// The relative refractive ratio a dielectric uses at a hit: the inverse
/// index on a front face (the ray enters), the index itself on a back face
/// (the ray exits).
pub open spec fn dielectric_ratio(refractive_index: int, is_face_front: bool) -> int {
    if is_face_front {
        fdiv(65536, refractive_index)
    } else {
        refractive_index
    }
}

/// The clamped cosine between the negated unit incoming direction and the
/// normal.
pub open spec fn cos_theta_s(u: V3i, n: V3i) -> int {
    let c = -tdiv(dot3(u, n), 65536);
    if c < 65536 {
        c
    } else {
        65536
    }
}

/// The sine derived from the clamped cosine, floored at zero before the
/// square root.
pub open spec fn sin_theta_s(u: V3i, n: V3i) -> int {
    let s2 = 65536 - fmul(cos_theta_s(u, n), cos_theta_s(u, n));
    let s2c = if s2 < 0 { 0 } else { s2 };
    sqrt_s(s2c * 65536)
}

/// Schlick's reflectance approximation, in fixed point:
/// `r0 + (1 - r0) * (1 - cos)^5` with `r0 = ((1 - idx) / (1 + idx))^2`.
pub open spec fn reflectance_s(cos_theta: int, r_index: int) -> int {
    let r0 = fmul(fdiv(65536 - r_index, 65536 + r_index), fdiv(65536 - r_index, 65536 + r_index));
    let p = 65536 - cos_theta;
    let p2 = fmul(p, p);
    let p4 = fmul(p2, p2);
    let p5 = fmul(p4, p);
    r0 + fmul(65536 - r0, p5)
}

impl Dielectric {
    /// The index window `[1/8, 8]` is what the fixed-point grid resolves;
    /// physical media lie well inside it.
    pub fn new(refractive_index: i64) -> (r: Self)
        requires
            8192 <= refractive_index <= 524288,
        ensures
            r.refractive_index == refractive_index,
    {
        Dielectric { refractive_index }
    }

    /// Schlick's reflectance approximation.
    pub fn reflectance(cos_theta: i64, r_index: i64) -> (r: i64)
        requires
            -262144 <= cos_theta <= 65536,
            8192 <= r_index <= 524288,
        ensures
            r == reflectance_s(cos_theta as int, r_index as int),
    {
        proof {
            assert(-(407780 * (65536 + r_index as int)) <= (65536 - r_index) * 65536
                && (65536 - r_index) * 65536 <= 407780 * (65536 + r_index as int))
                by (nonlinear_arith)
                requires 8192 <= r_index <= 524288;
            lemma_tdiv_bound((65536 - r_index) * 65536, 65536 + r_index as int, 407780);
        }
        let r0_base = fx_div(65536 - r_index, 65536 + r_index);
        proof {
            assert(0 <= r0_base as int * r0_base as int <= 2537301 * 65536) by (nonlinear_arith)
                requires -407780 <= r0_base <= 407780;
            lemma_tdiv_bound(r0_base as int * r0_base as int, 65536, 2537301);
            crate::fixed::lemma_tdiv_sign(r0_base as int * r0_base as int, 65536);
        }
        let r0 = fx_mul(r0_base, r0_base);
        let p = 65536 - cos_theta;
        proof {
            assert(0 <= p as int * p as int <= 1638400 * 65536) by (nonlinear_arith)
                requires 0 <= p <= 327680;
            lemma_tdiv_bound(p as int * p as int, 65536, 1638400);
            crate::fixed::lemma_tdiv_sign(p as int * p as int, 65536);
        }
        let p2 = fx_mul(p, p);
        proof {
            assert(0 <= p2 as int * p2 as int <= 40960000 * 65536) by (nonlinear_arith)
                requires 0 <= p2 <= 1638400;
            lemma_tdiv_bound(p2 as int * p2 as int, 65536, 40960000);
            crate::fixed::lemma_tdiv_sign(p2 as int * p2 as int, 65536);
        }
        let p4 = fx_mul(p2, p2);
        proof {
            assert(0 <= p4 as int * p as int <= 204800000 * 65536) by (nonlinear_arith)
                requires 0 <= p4 <= 40960000 && 0 <= p <= 327680;
            lemma_tdiv_bound(p4 as int * p as int, 65536, 204800000);
            crate::fixed::lemma_tdiv_sign(p4 as int * p as int, 65536);
        }
        let p5 = fx_mul(p4, p);
        proof {
            lemma_fmul_bound(65536 - r0 as int, p5 as int, 2602837, 204800000);
        }
        r0 + fx_mul(65536 - r0, p5)
    }

    /// Dielectric scatter: always produces a ray with white attenuation.
    /// Total internal reflection forces a mirror reflection; otherwise the
    /// choice between reflection and refraction weighs Schlick's reflectance
    /// against a uniform draw, so either outcome is possible and the
    /// contract covers both.
    pub fn scatter(
        &self,
        incoming_ray: Ray,
        record: &HitRecord,
        rng: &mut RandomSource,
    ) -> (r: Option<Scatter>)
        requires
            8192 <= self.refractive_index <= 524288,
            record.wf(),
            bounded3(incoming_ray@.direction, 0x40000000),
            norm3(incoming_ray@.direction) > 0,
        ensures
            r matches Some(s) && {
                let u = unit3(incoming_ray@.direction);
                let ratio = dielectric_ratio(self.refractive_index as int, record.is_face_front);
                &&& s.attenuation@ == (C3i { r: 65536, g: 65536, b: 65536 })
                &&& s.scattered_ray@.origin == record.point@
                &&& bounded3(s.scattered_ray@.direction, 0x1000000)
                &&& (s.scattered_ray@.direction == reflect3(u, record.normal@)
                    || s.scattered_ray@.direction == refract3(u, record.normal@, ratio))
                &&& (fmul(ratio, sin_theta_s(u, record.normal@)) > 65536
                    ==> s.scattered_ray@.direction == reflect3(u, record.normal@))
            },
    {
        let attenuation: Color = Color::new(65536, 65536, 65536);
        let r_index: i64 = if record.is_face_front {
            proof {
                vstd::arithmetic::div_mod::lemma_div_is_ordered_by_denominator(
                    4294967296, 8192, self.refractive_index as int);
                vstd::arithmetic::div_mod::lemma_div_is_ordered_by_denominator(
                    4294967296, self.refractive_index as int, 524288);
            }
            fx_div(65536, self.refractive_index)
        } else {
            self.refractive_index
        };
        let unit_direction = incoming_ray.get_direction().unit_vector();

        proof {
            lemma_dot3_bound(unit_direction@, record.normal@, 65536, 73728);
            lemma_tdiv_bound(dot3(unit_direction@, record.normal@), 65536, 221184);
        }
        let d = unit_direction.dot_prod(record.normal);
        let cos_theta: i64 = if -d < 65536 { -d } else { 65536 };
        proof {
            lemma_fmul_bound(cos_theta as int, cos_theta as int, 221184, 221184);
            crate::fixed::lemma_tdiv_sign(cos_theta as int * cos_theta as int, 65536);
            assert(cos_theta as int * cos_theta as int >= 0) by (nonlinear_arith);
        }
        let c2 = fx_mul(cos_theta, cos_theta);
        let s2 = 65536 - c2;
        let s2c = if s2 < 0 { 0 } else { s2 };
        let sin_theta = sqrt_fx(s2c);
        proof {
            lemma_sqrt_bounds(s2c as int * 65536);
            assert(sin_theta < 65537) by {
                if sin_theta >= 65537 {
                    lemma_sq_monotone(65537, sin_theta as int);
                }
            }
            lemma_fmul_bound(r_index as int, sin_theta as int, 524288, 65537);
        }
        let can_refract: bool = fx_mul(r_index, sin_theta) <= 65536;

        let draw = rng.next_unit();
        let use_reflection: bool = if !can_refract {
            true
        } else {
            Dielectric::reflectance(cos_theta, r_index) > draw
        };

        let ray_direction: Vector3 = if use_reflection {
            proof {
                lemma_reflect3_bound(unit_direction@, record.normal@);
            }
            unit_direction.reflection(&record.normal)
        } else {
            proof {
                lemma_refract3_bound(unit_direction@, record.normal@, r_index as int);
            }
            unit_direction.refraction(&record.normal, r_index)
        };
        let scattered_ray: Ray = Ray::new(record.point, ray_direction);

        Some(Scatter { scattered_ray, attenuation })
    }
}

impl Default for Dielectric {
    fn default() -> (r: Self)
        ensures
            r.refractive_index == 65536,
    {
        Dielectric { refractive_index: 65536 }
    }
}


/// At a refractive ratio of one, ideal infinite-precision refraction bends
/// nothing, whatever the incidence angle: the perpendicular part of the
/// decomposition leaves a squared-norm deficit whose exact root is the
/// cosine, so the parallel part cancels the cosine term and the recombined
/// direction is the incident one. The executable `refraction` computes the
/// same decomposition with fixed-point truncation.
/// The algebraic core of the no-bending identity: for unit-scale vectors
/// (squared norm `s`) and the exact cosine `c`, the perpendicular part of
/// the refraction decomposition at ratio one has squared norm
/// `s * s * s - s * c * c`.
proof fn lemma_refract_perp_norm_core(
    ux: int, uy: int, uz: int,
    nx: int, ny: int, nz: int,
    s: int, c: int,
)
    requires
        ux * ux + uy * uy + uz * uz == s,
        nx * nx + ny * ny + nz * nz == s,
        -c == ux * nx + uy * ny + uz * nz,
    ensures
        (ux * s + nx * c) * (ux * s + nx * c)
            + (uy * s + ny * c) * (uy * s + ny * c)
            + (uz * s + nz * c) * (uz * s + nz * c)
            == s * s * s - s * (c * c),
{
    crate::fixed::lemma_binomial_add(ux * s, nx * c);
    crate::fixed::lemma_binomial_add(uy * s, ny * c);
    crate::fixed::lemma_binomial_add(uz * s, nz * c);
    crate::fixed::lemma_square_of_product(ux, s);
    crate::fixed::lemma_square_of_product(uy, s);
    crate::fixed::lemma_square_of_product(uz, s);
    crate::fixed::lemma_square_of_product(nx, c);
    crate::fixed::lemma_square_of_product(ny, c);
    crate::fixed::lemma_square_of_product(nz, c);
    crate::fixed::lemma_mul_exchange(ux, s, nx, c);
    crate::fixed::lemma_mul_exchange(uy, s, ny, c);
    crate::fixed::lemma_mul_exchange(uz, s, nz, c);
    crate::fixed::lemma_mul_dist3(s * c, ux * nx, uy * ny, uz * nz);
    crate::fixed::lemma_neg_right(s, c);
    crate::fixed::lemma_mul_dist3(c * c, nx * nx, ny * ny, nz * nz);
    crate::fixed::lemma_mul_dist3(s * s, ux * ux, uy * uy, uz * uz);
    assert((c * c) * s == s * (c * c)) by (nonlinear_arith);
}

/// At a refractive ratio of one, ideal infinite-precision refraction bends
/// nothing, whatever the incidence angle: the perpendicular part of the
/// decomposition leaves a squared-norm deficit whose exact root is the
/// cosine, so the parallel part cancels the cosine term and the recombined
/// direction is the incident one. The executable `refraction` computes the
/// same decomposition with fixed-point truncation.
pub proof fn lemma_refraction_identity(u: V3i, n: V3i, cos_w: int)
    requires
        norm3(u) == 4294967296,
        norm3(n) == 4294967296,
        cos_w == -dot3(u, n),
        cos_w >= 0,
    ensures
        ({
            let perp = V3i {
                x: u.x * 4294967296 + n.x * cos_w,
                y: u.y * 4294967296 + n.y * cos_w,
                z: u.z * 4294967296 + n.z * cos_w,
            };
            &&& norm3(perp) == 4294967296 * 4294967296 * 4294967296
                - 4294967296 * (cos_w * cos_w)
            &&& sqrt_s(4294967296 * (cos_w * cos_w)) == 65536 * cos_w
            &&& perp.x - n.x * cos_w == u.x * 4294967296
            &&& perp.y - n.y * cos_w == u.y * 4294967296
            &&& perp.z - n.z * cos_w == u.z * 4294967296
        }),
{
    lemma_refract_perp_norm_core(u.x, u.y, u.z, n.x, n.y, n.z, 4294967296, cos_w);
    assert((65536 * cos_w) * (65536 * cos_w) == 4294967296 * (cos_w * cos_w)
        && 4294967296 * (cos_w * cos_w)
            < (65536 * cos_w + 1) * (65536 * cos_w + 1)) by (nonlinear_arith)
        requires cos_w >= 0;
    crate::fixed::lemma_sqrt_unique(4294967296 * (cos_w * cos_w), 65536 * cos_w);
}

} // verus!
