//! Ray-sphere intersection and the composite scene: the nearest valid hit
//! over a flat collection of spheres.
//!
//! The intersection solves the half-angle quadratic exactly on wide
//! integers; every branch of the executable code is mirrored by the
//! specification functions below, so the contract of `hit` pins the result
//! completely.

use vstd::prelude::*;
use crate::fixed::{tdiv, sqrt_s, div_wide, isqrt_wide, lemma_sqrt_bounds, lemma_tdiv_bound,
    lemma_tdiv_sign};
use crate::hit_record::{HitRecord, facing_dot, oriented_normal};
use crate::interval::Interval;
use crate::material::Material;
use crate::point::Point3;
use crate::ray::{Ray, RayV, ray_at3};
use crate::vector3::{V3i, Vector3, bounded3, dot3, norm3, sub3, div3, dot_wide,
    lemma_dot3_bound, lemma_norm3_nonneg};

verus! {

pub struct Sphere {
    pub center: Point3,
    pub radius: i64,
    pub material: Material,
}

impl Clone for Sphere {
    fn clone(&self) -> (r: Self)
        ensures
            r == *self,
    {
        Sphere { center: self.center, radius: self.radius, material: self.material }
    }
}

impl Copy for Sphere {

}

/// The displacement from the ray origin to the sphere center.
pub open spec fn center_offset(s: Sphere, ray: RayV) -> V3i {
    sub3(s.center@, ray.origin)
}

/// Quadratic coefficient `a`: the wide squared norm of the direction.
pub open spec fn hit_a(s: Sphere, ray: RayV) -> int {
    norm3(ray.direction)
}

/// Half-angle coefficient `h = direction . (center - origin)`, wide.
pub open spec fn hit_h(s: Sphere, ray: RayV) -> int {
    dot3(ray.direction, center_offset(s, ray))
}

/// Constant coefficient `c = |center - origin|^2 - radius^2`, wide.
pub open spec fn hit_c(s: Sphere, ray: RayV) -> int {
    norm3(center_offset(s, ray)) - s.radius * s.radius
}

/// Discriminant of the half-angle quadratic.
pub open spec fn hit_disc(s: Sphere, ray: RayV) -> int {
    hit_h(s, ray) * hit_h(s, ray) - hit_a(s, ray) * hit_c(s, ray)
}

/// The smaller root, as the fixed-point parameter the code computes.
pub open spec fn root_near(s: Sphere, ray: RayV) -> int {
    tdiv((hit_h(s, ray) - sqrt_s(hit_disc(s, ray))) * 65536, hit_a(s, ray))
}

/// The larger root, as the fixed-point parameter the code computes.
pub open spec fn root_far(s: Sphere, ray: RayV) -> int {
    tdiv((hit_h(s, ray) + sqrt_s(hit_disc(s, ray))) * 65536, hit_a(s, ray))
}

/// A root is acceptable when the caller's closed interval contains it and it
/// lies inside the grid's far clip.
pub open spec fn t_acceptable(t: int, tmin: int, tmax: int) -> bool {
    tmin <= t <= tmax && -0x100000000000 <= t <= 0x100000000000
}

/// The parameter a sphere reports for a ray over `[tmin, tmax]`: the near
/// root when acceptable, else the far root when acceptable, else nothing.
/// Degenerate rays (zero direction) and degenerate spheres (zero radius)
/// report nothing.
pub open spec fn sphere_hit_t(s: Sphere, ray: RayV, tmin: int, tmax: int) -> Option<int> {
    if hit_a(s, ray) <= 0 || s.radius <= 0 || hit_disc(s, ray) < 0 {
        Option::None
    } else if t_acceptable(root_near(s, ray), tmin, tmax) {
        Option::Some(root_near(s, ray))
    } else if t_acceptable(root_far(s, ray), tmin, tmax) {
        Option::Some(root_far(s, ray))
    } else {
        Option::None
    }
}

/// The outward unit normal at parameter `t`: hit point minus center, over
/// the radius.
pub open spec fn outward_at(s: Sphere, ray: RayV, t: int) -> V3i {
    div3(sub3(ray_at3(ray, t), s.center@), s.radius as int)
}

/// The accepted parameter also has to give a hit point on the grid and a
/// usable outward normal; rounding pathologies fail this and report no hit.
pub open spec fn geometry_ok(s: Sphere, ray: RayV, t: int) -> bool {
    let p = ray_at3(ray, t);
    let outward = outward_at(s, ray, t);
    bounded3(p, 0x40000000)
    && bounded3(outward, 73728)
    && !(outward.x == 0 && outward.y == 0 && outward.z == 0)
}

/// Whether the sphere reports a hit at all.
pub open spec fn sphere_hits(s: Sphere, ray: RayV, tmin: int, tmax: int) -> bool {
    match sphere_hit_t(s, ray, tmin, tmax) {
        Option::Some(t) => geometry_ok(s, ray, t),
        Option::None => false,
    }
}

/// The fields of the record a sphere reports at parameter `t`.
pub open spec fn record_matches(s: Sphere, ray: RayV, t: int, rec: HitRecord) -> bool {
    &&& rec.parameter == t
    &&& rec.point@ == ray_at3(ray, t)
    &&& rec.material == s.material
    &&& rec.is_face_front == (facing_dot(ray.direction, outward_at(s, ray, t)) < 0)
    &&& rec.normal@ == oriented_normal(ray.direction, outward_at(s, ray, t))
}

impl Sphere {
    /// Geometry small enough for the exact wide arithmetic of `hit`.
    pub open spec fn wf(&self) -> bool {
        bounded3(self.center@, 0x8000000)
        && 0 <= self.radius <= 0x8000000
        && self.material.wf()
    }

    /// The radius is clamped to zero from below, so a degenerate sphere
    /// never flips the sign of the constant coefficient.
    pub fn new(center: Point3, radius: i64, material: Material) -> (r: Self)
        requires
            bounded3(center@, 0x8000000),
            radius <= 0x8000000,
            material.wf(),
        ensures
            r.center == center,
            r.material == material,
            r.radius == if radius >= 0 { radius as int } else { 0int },
            r.wf(),
    {
        Sphere {
            center,
            radius: if radius >= 0 { radius } else { 0 },
            material,
        }
    }

    pub fn get_center(&self) -> (r: Point3)
        ensures
            r == self.center,
    {
        self.center
    }

    pub fn get_radius(&self) -> (r: i64)
        ensures
            r == self.radius,
    {
        self.radius
    }

    /// The nearest acceptable intersection of `ray` with this sphere, or
    /// none. The contract mirrors the computation exactly: which root is
    /// reported, the hit point, the oriented normal and the face flag are
    /// all pinned by the specification functions of this module.
    pub fn hit(&self, ray: Ray, ray_interval: Interval) -> (r: Option<HitRecord>)
        requires
            self.wf(),
            bounded3(ray@.origin, 0x40000000),
            bounded3(ray@.direction, 0x40000000),
        ensures
            r.is_some() == sphere_hits(*self, ray@, ray_interval.min as int, ray_interval.max as int),
            r matches Some(rec) ==> {
                let t = sphere_hit_t(*self, ray@, ray_interval.min as int, ray_interval.max as int)->Some_0;
                &&& record_matches(*self, ray@, t, rec)
                &&& rec.wf()
                &&& ray_interval.min <= rec.parameter <= ray_interval.max
                &&& -0x100000000000 <= rec.parameter <= 0x100000000000
            },
    {
        let dist_center_origin: Vector3 = self.center.sub(ray.get_origin()).as_vec();
        let direction = ray.get_direction();
        let a: i128 = dot_wide(&direction, &direction);
        let h: i128 = dot_wide(&direction, &dist_center_origin);
        proof {
            lemma_norm3_nonneg(ray@.direction);
            lemma_norm3_nonneg(center_offset(*self, ray@));
            lemma_dot3_bound(ray@.direction, ray@.direction, 0x40000000, 0x40000000);
            lemma_dot3_bound(ray@.direction, center_offset(*self, ray@), 0x40000000, 0x48000000);
            lemma_dot3_bound(center_offset(*self, ray@), center_offset(*self, ray@),
                0x48000000, 0x48000000);
            assert(0 <= self.radius as int * self.radius as int <= 0x40000000000000)
                by (nonlinear_arith)
                requires 0 <= self.radius <= 0x8000000;
        }
        let c: i128 = dot_wide(&dist_center_origin, &dist_center_origin)
            - (self.radius as i128) * (self.radius as i128);
        proof {
            assert(hit_h(*self, ray@) * hit_h(*self, ray@) <= 0xe6a9000000000000000000000000000
                && hit_h(*self, ray@) * hit_h(*self, ray@) >= 0) by (nonlinear_arith)
                requires -0x3cc0000000000000 <= hit_h(*self, ray@) <= 0x3cc0000000000000;
            assert(-0xb700000000000000000000000000000 <= hit_a(*self, ray@) * hit_c(*self, ray@)
                && hit_a(*self, ray@) * hit_c(*self, ray@) <= 0xb700000000000000000000000000000)
                by (nonlinear_arith)
                requires 0 <= hit_a(*self, ray@) <= 0x3000000000000000
                    && -0x3d00000000000000 <= hit_c(*self, ray@) <= 0x3d00000000000000;
        }
        let discriminant: i128 = h * h - a * c;
        if discriminant < 0 {
            return Option::None;
        }
        if a <= 0 || self.radius <= 0 {
            return Option::None;
        }

        let sqrt_discriminant: i128 = isqrt_wide(discriminant);
        let near: i128 = div_wide((h - sqrt_discriminant) * 65536, a);
        let far: i128 = div_wide((h + sqrt_discriminant) * 65536, a);
        let tmin = ray_interval.min as i128;
        let tmax = ray_interval.max as i128;

        let root: i128 = if tmin <= near && near <= tmax
            && -0x100000000000 <= near && near <= 0x100000000000 {
            near
        } else if tmin <= far && far <= tmax
            && -0x100000000000 <= far && far <= 0x100000000000 {
            far
        } else {
            return Option::None;
        };

        let parameter: i64 = root as i64;
        let point: Point3 = ray.position(parameter);
        if !(-0x40000000 <= point.x && point.x <= 0x40000000
            && -0x40000000 <= point.y && point.y <= 0x40000000
            && -0x40000000 <= point.z && point.z <= 0x40000000) {
            return Option::None;
        }
        proof {
            let pc = sub3(ray_at3(ray@, parameter as int), self.center@);
            assert(-(0x800000000000 * self.radius as int) <= pc.x * 65536
                && pc.x * 65536 <= 0x800000000000 * self.radius as int
                && -(0x800000000000 * self.radius as int) <= pc.y * 65536
                && pc.y * 65536 <= 0x800000000000 * self.radius as int
                && -(0x800000000000 * self.radius as int) <= pc.z * 65536
                && pc.z * 65536 <= 0x800000000000 * self.radius as int) by (nonlinear_arith)
                requires bounded3(pc, 0x48000000) && 1 <= self.radius;
            lemma_tdiv_bound(pc.x * 65536, self.radius as int, 0x800000000000);
            lemma_tdiv_bound(pc.y * 65536, self.radius as int, 0x800000000000);
            lemma_tdiv_bound(pc.z * 65536, self.radius as int, 0x800000000000);
        }
        let outward_normal: Vector3 = point.sub(self.center).as_vec().div(self.radius);
        if !(-73728 <= outward_normal.x && outward_normal.x <= 73728
            && -73728 <= outward_normal.y && outward_normal.y <= 73728
            && -73728 <= outward_normal.z && outward_normal.z <= 73728) {
            return Option::None;
        }
        if outward_normal.near_zero() {
            return Option::None;
        }

        Option::Some(HitRecord::set_face_normal(
            ray,
            outward_normal,
            point,
            self.material,
            parameter,
        ))
    }
}

/// The flat scene: an ordered collection of spheres queried as one
/// composite hittable.
pub struct HittableObjects {
    pub objects: Vec<Sphere>,
}

/// The fold the composite intersection computes over the first `n` objects:
/// the index and parameter of the closest hit so far, the search interval's
/// upper bound shrinking to the best parameter, first object winning ties.
pub open spec fn world_best(objs: Seq<Sphere>, ray: RayV, tmin: int, tmax: int, n: int)
    -> Option<(int, int)>
    decreases n,
{
    if n <= 0 {
        Option::None
    } else {
        let prev = world_best(objs, ray, tmin, tmax, n - 1);
        let upper = match prev {
            Option::Some(p) => p.1,
            Option::None => tmax,
        };
        if sphere_hits(objs[n - 1], ray, tmin, upper) {
            let t = sphere_hit_t(objs[n - 1], ray, tmin, upper)->Some_0;
            match prev {
                Option::Some(p) => if t >= p.1 {
                    prev
                } else {
                    Option::Some((n - 1, t))
                },
                Option::None => Option::Some((n - 1, t)),
            }
        } else {
            prev
        }
    }
}

impl HittableObjects {
    pub open spec fn wf(&self) -> bool {
        forall|i: int| 0 <= i < self.objects@.len() ==> (#[trigger] self.objects@[i]).wf()
    }

    pub fn new() -> (r: Self)
        ensures
            r.objects@.len() == 0,
            r.wf(),
    {
        HittableObjects { objects: Vec::new() }
    }

    pub fn add(&mut self, new_object: Sphere)
        requires
            new_object.wf(),
        ensures
            final(self).objects@ == old(self).objects@.push(new_object),
            old(self).wf() ==> final(self).wf(),
    {
        self.objects.push(new_object);
    }

    pub fn clear(&mut self)
        ensures
            final(self).objects@.len() == 0,
            final(self).wf(),
    {
        self.objects.clear();
    }

    /// The closest hit across all objects: the classic shrinking-interval
    /// reduction, with the first object in iteration order winning ties.
    pub fn hit(&self, ray: Ray, ray_interval: Interval) -> (r: Option<HitRecord>)
        requires
            self.wf(),
            bounded3(ray@.origin, 0x40000000),
            bounded3(ray@.direction, 0x40000000),
        ensures
            r.is_some() == world_best(self.objects@, ray@, ray_interval.min as int,
                ray_interval.max as int, self.objects@.len() as int).is_some(),
            r matches Some(rec) ==> {
                let best = world_best(self.objects@, ray@, ray_interval.min as int,
                    ray_interval.max as int, self.objects@.len() as int)->Some_0;
                &&& 0 <= best.0 < self.objects@.len()
                &&& record_matches(self.objects@[best.0], ray@, best.1, rec)
                &&& rec.wf()
                &&& ray_interval.min <= rec.parameter <= ray_interval.max
                &&& -0x100000000000 <= rec.parameter <= 0x100000000000
            },
    {
        let ghost tmin = ray_interval.min as int;
        let ghost tmax = ray_interval.max as int;
        let t_min: i64 = ray_interval.min;
        let t_max: i64 = ray_interval.max;

        let mut closest_so_far: Option<HitRecord> = Option::None;
        let ghost mut best_idx: int = 0;

        let mut index: usize = 0;
        while index < self.objects.len()
            invariant
                self.wf(),
                bounded3(ray@.origin, 0x40000000),
                bounded3(ray@.direction, 0x40000000),
                index <= self.objects@.len(),
                tmin == t_min as int,
                tmax == t_max as int,
                closest_so_far.is_some() == world_best(self.objects@, ray@, tmin, tmax,
                    index as int).is_some(),
                closest_so_far matches Some(rec) ==> {
                    let best = world_best(self.objects@, ray@, tmin, tmax, index as int)->Some_0;
                    &&& best_idx == best.0
                    &&& 0 <= best.0 < index as int
                    &&& record_matches(self.objects@[best.0], ray@, best.1, rec)
                    &&& rec.wf()
                    &&& tmin <= rec.parameter <= tmax
                    &&& -0x100000000000 <= rec.parameter <= 0x100000000000
                },
            decreases self.objects@.len() - index,
        {
            let object = &self.objects[index];
            let t_max_local: i64 = match &closest_so_far {
                Option::Some(hit) => hit.parameter,
                Option::None => t_max,
            };
            if let Option::Some(record) = object.hit(ray, Interval::new(t_min, t_max_local)) {
                let replace: bool = match &closest_so_far {
                    Option::Some(best) => record.parameter < best.parameter,
                    Option::None => true,
                };
                if replace {
                    closest_so_far = Option::Some(record);
                    proof {
                        best_idx = index as int;
                    }
                }
            }
            index = index + 1;
        }

        closest_so_far
    }
}


/// With a nonnegative discriminant, the near root never exceeds the far
/// root.
pub proof fn lemma_near_le_far(s: Sphere, ray: RayV)
    requires
        hit_a(s, ray) > 0,
        hit_disc(s, ray) >= 0,
    ensures
        root_near(s, ray) <= root_far(s, ray),
{
    lemma_sqrt_bounds(hit_disc(s, ray));
    crate::fixed::lemma_tdiv_monotone(
        (hit_h(s, ray) - sqrt_s(hit_disc(s, ray))) * 65536,
        (hit_h(s, ray) + sqrt_s(hit_disc(s, ray))) * 65536,
        hit_a(s, ray),
    );
}

/// A ray that misses a sphere entirely reports no hit: when the
/// perpendicular offset of the center from the ray's line exceeds the
/// radius — stated exactly, with denominators cleared, as
/// `|oc|^2 * |d|^2 - (d . oc)^2 > r^2 * |d|^2` — the discriminant is
/// negative and no root exists, whatever the search interval.
pub proof fn lemma_miss_no_hit(s: Sphere, ray: RayV, tmin: int, tmax: int)
    requires
        hit_a(s, ray) > 0,
        norm3(center_offset(s, ray)) * hit_a(s, ray)
            - hit_h(s, ray) * hit_h(s, ray)
            > (s.radius * s.radius) * hit_a(s, ray),
    ensures
        hit_disc(s, ray) < 0,
        sphere_hit_t(s, ray, tmin, tmax) is None,
        !sphere_hits(s, ray, tmin, tmax),
{
    let a = hit_a(s, ray);
    let oc2 = norm3(center_offset(s, ray));
    let rr = s.radius * s.radius;
    assert(a * (oc2 - rr) == a * oc2 - a * rr) by (nonlinear_arith);
    assert(oc2 * a == a * oc2) by (nonlinear_arith);
    assert(rr * a == a * rr) by (nonlinear_arith);
}

/// A scalar pulls out of a self-product.
proof fn lemma_pull_scalar(d: int, k: int)
    by (nonlinear_arith)
    ensures
        d * (d * k) == k * (d * d),
{
}

/// Associativity-commutativity step for the quadratic identity.
proof fn lemma_assoc_sq(a: int, k: int)
    by (nonlinear_arith)
    ensures
        a * ((k * k) * a) == (a * a) * (k * k),
        (k * a) * (k * a) == (a * a) * (k * k),
{
}

/// A factor distributes over a difference.
proof fn lemma_dist_sub(k: int, a: int, b: int)
    by (nonlinear_arith)
    ensures
        k * (a - b) == k * a - k * b,
{
}

/// A ray whose origin lies outside a sphere and whose direction points
/// straight at the center — the offset to the center is `k` times the
/// direction, for a positive integer `k` — hits it at the near root: the
/// discriminant collapses to `|d|^2 * r^2`, strictly positive, so whenever
/// the caller's interval accepts the near root it is the parameter
/// reported, and it never exceeds the far root. The orientation half of
/// the same property, that the recorded normal faces against the incoming
/// ray, is `crate::hit_record::lemma_face_normal_orientation`, which holds
/// of every hit.
pub proof fn lemma_ray_at_center_hits_near(
    s: Sphere, ray: RayV, tmin: int, tmax: int, k: int,
)
    requires
        s.radius >= 1,
        hit_a(s, ray) > 0,
        k >= 1,
        center_offset(s, ray) == (V3i {
            x: ray.direction.x * k,
            y: ray.direction.y * k,
            z: ray.direction.z * k,
        }),
        norm3(center_offset(s, ray)) > s.radius * s.radius,
        t_acceptable(root_near(s, ray), tmin, tmax),
    ensures
        hit_disc(s, ray) == hit_a(s, ray) * (s.radius * s.radius),
        hit_disc(s, ray) > 0,
        sphere_hit_t(s, ray, tmin, tmax) == Option::<int>::Some(root_near(s, ray)),
        root_near(s, ray) <= root_far(s, ray),
{
    let d = ray.direction;
    let a = hit_a(s, ray);
    let h = hit_h(s, ray);
    let oc2 = norm3(center_offset(s, ray));
    let rr = s.radius * s.radius;
    // h == k * a
    lemma_pull_scalar(d.x, k);
    lemma_pull_scalar(d.y, k);
    lemma_pull_scalar(d.z, k);
    crate::fixed::lemma_mul_dist3(k, d.x * d.x, d.y * d.y, d.z * d.z);
    assert(h == k * a);
    // oc2 == (k * k) * a
    crate::fixed::lemma_square_of_product(d.x, k);
    crate::fixed::lemma_square_of_product(d.y, k);
    crate::fixed::lemma_square_of_product(d.z, k);
    crate::fixed::lemma_mul_dist3(k * k, d.x * d.x, d.y * d.y, d.z * d.z);
    assert(oc2 == (k * k) * a);
    // disc == a * rr
    lemma_assoc_sq(a, k);
    lemma_dist_sub(a, oc2, rr);
    assert(hit_disc(s, ray) == a * rr);
    assert(a * (s.radius * s.radius) > 0) by (nonlinear_arith)
        requires a > 0 && s.radius >= 1;
    lemma_near_le_far(s, ray);
}

/// Composite intersection returns the closest of two overlapping hits: when
/// each of two spheres reports a hit over the full search interval, the
/// composite fold reports the smaller of the two parameters, the first
/// sphere in iteration order winning a tie.
pub proof fn lemma_closest_of_two(
    objs: Seq<Sphere>, ray: RayV, tmin: int, tmax: int, t0: int, t1: int,
)
    requires
        objs.len() == 2,
        sphere_hit_t(objs[0], ray, tmin, tmax) == Option::<int>::Some(t0),
        geometry_ok(objs[0], ray, t0),
        sphere_hit_t(objs[1], ray, tmin, tmax) == Option::<int>::Some(t1),
        geometry_ok(objs[1], ray, t1),
    ensures
        world_best(objs, ray, tmin, tmax, 2) == Option::<(int, int)>::Some(
            if t1 < t0 { (1int, t1) } else { (0int, t0) }),
{
    let s0 = objs[0];
    let s1 = objs[1];
    assert(world_best(objs, ray, tmin, tmax, 0) is None);
    assert(sphere_hits(s0, ray, tmin, tmax));
    assert(t_acceptable(t0, tmin, tmax));
    assert(world_best(objs, ray, tmin, tmax, 1) == Option::<(int, int)>::Some((0int, t0)));
    assert(t_acceptable(t1, tmin, tmax));
    lemma_near_le_far(s1, ray);
    let near = root_near(s1, ray);
    let far = root_far(s1, ray);
    if t1 <= t0 {
        if t_acceptable(near, tmin, tmax) {
            assert(t1 == near);
            assert(t_acceptable(near, tmin, t0));
        } else {
            assert(t1 == far);
            assert(!t_acceptable(near, tmin, t0));
            assert(t_acceptable(far, tmin, t0));
        }
        assert(sphere_hit_t(s1, ray, tmin, t0) == Option::<int>::Some(t1));
        assert(sphere_hits(s1, ray, tmin, t0));
    } else {
        if t_acceptable(near, tmin, tmax) {
            assert(t1 == near);
            assert(!t_acceptable(near, tmin, t0));
            assert(!t_acceptable(far, tmin, t0));
        } else {
            assert(t1 == far);
            assert(!t_acceptable(near, tmin, t0));
            assert(!t_acceptable(far, tmin, t0));
        }
        assert(sphere_hit_t(s1, ray, tmin, t0) is None);
        assert(!sphere_hits(s1, ray, tmin, t0));
    }
}

} // verus!
