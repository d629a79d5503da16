//! The camera: an orthonormal view basis derived from the configuration,
//! per-pixel sample rays, the recursive color integrator and the rendering
//! loop that emits the quantized pixel stream.
//!
//! `initialize` validates the configuration and computes the derived state
//! on wide integers, rejecting anything the fixed-point grid cannot carry;
//! on success every derived field equals its specification mirror below.

use vstd::prelude::*;
use crate::color::{C3i, Color, channels_within, gamma_s, byte_s};
use crate::fixed::{tdiv, fmul, fdiv, sqrt_s, lemma_tdiv_bound, lemma_tdiv_sign,
    lemma_sqrt_bounds, lemma_sq_monotone, lemma_fmul_unit, div_wide, isqrt_wide};
use crate::geometry::HittableObjects;
use crate::interval::Interval;
use crate::material::Scatter;
use crate::point::Point3;
use crate::random::RandomSource;
use crate::ray::Ray;
use crate::vector3::{V3i, Vector3, bounded3, norm3, add3, sub3, neg3, scale3, div3,
    cross3, unit3, dot_wide, lemma_dot3_bound};

verus! {

/// The orthonormal basis of the camera frame.
pub struct CameraFrameBasis {
    pub u: Vector3,
    pub v: Vector3,
    pub w: Vector3,
}

impl Clone for CameraFrameBasis {
    fn clone(&self) -> (r: Self)
        ensures
            r == *self,
    {
        CameraFrameBasis { u: self.u, v: self.v, w: self.w }
    }
}

impl Copy for CameraFrameBasis {

}

impl Default for CameraFrameBasis {
    fn default() -> (r: Self)
        ensures
            r.u@ == (V3i { x: 0, y: 0, z: 0 }),
            r.v@ == (V3i { x: 0, y: 0, z: 0 }),
            r.w@ == (V3i { x: 0, y: 0, z: 0 }),
    {
        CameraFrameBasis {
            u: Vector3 { x: 0, y: 0, z: 0 },
            v: Vector3 { x: 0, y: 0, z: 0 },
            w: Vector3 { x: 0, y: 0, z: 0 },
        }
    }
}

pub struct Camera {
    pub aspect_ratio: i64,
    pub image_width: i32,
    pub samples_per_pixel: i32,
    pub max_depth: i32,
    /// Tangent of half the vertical field of view, fixed-point. One stands
    /// for a field of view of ninety degrees.
    pub vfov_half_tangent: i64,
    pub look_from: Point3,
    pub look_at: Point3,
    pub vertical_camera_up: Vector3,
    pub image_height: i32,
    pub camera_center: Point3,
    pub pixel00_loc: Point3,
    pub pixel_delta_u: Vector3,
    pub pixel_delta_v: Vector3,
    pub pixel_samples_scale: i64,
    pub frame_basis: CameraFrameBasis,
}

impl Clone for Camera {
    fn clone(&self) -> (r: Self)
        ensures
            r == *self,
    {
        Camera {
            aspect_ratio: self.aspect_ratio,
            image_width: self.image_width,
            samples_per_pixel: self.samples_per_pixel,
            max_depth: self.max_depth,
            vfov_half_tangent: self.vfov_half_tangent,
            look_from: self.look_from,
            look_at: self.look_at,
            vertical_camera_up: self.vertical_camera_up,
            image_height: self.image_height,
            camera_center: self.camera_center,
            pixel00_loc: self.pixel00_loc,
            pixel_delta_u: self.pixel_delta_u,
            pixel_delta_v: self.pixel_delta_v,
            pixel_samples_scale: self.pixel_samples_scale,
            frame_basis: self.frame_basis,
        }
    }
}

impl Copy for Camera {

}

/// What the configuration fields must satisfy for the fixed-point grid:
/// aspect ratio within `[1/4, 4]`, image width within `[1, 4096]`, samples
/// within `[1, 16384]`, bounce budget within `[0, 4096]`, tangent within
/// `(0, 4]`, eye points and up vector within 64 world units.
pub open spec fn config_wf(c: Camera) -> bool {
    &&& 16384 <= c.aspect_ratio <= 262144
    &&& 1 <= c.image_width <= 4096
    &&& 1 <= c.samples_per_pixel <= 16384
    &&& 0 <= c.max_depth <= 4096
    &&& 1 <= c.vfov_half_tangent <= 262144
    &&& bounded3(c.look_from@, 0x400000)
    &&& bounded3(c.look_at@, 0x400000)
    &&& bounded3(c.vertical_camera_up@, 0x400000)
}

/// Derived image height: the width over the aspect ratio, floored to one.
pub open spec fn height_s(c: Camera) -> int {
    let h = tdiv(fdiv(c.image_width as int * 65536, c.aspect_ratio as int), 65536);
    if h < 1 {
        1
    } else {
        h
    }
}

/// Focal length: the distance from the eye to the target.
pub open spec fn focal_s(c: Camera) -> int {
    sqrt_s(norm3(sub3(c.look_from@, c.look_at@)))
}

pub open spec fn w_s(c: Camera) -> V3i {
    unit3(sub3(c.look_from@, c.look_at@))
}

pub open spec fn u_s(c: Camera) -> V3i {
    unit3(cross3(c.vertical_camera_up@, w_s(c)))
}

pub open spec fn v_s(c: Camera) -> V3i {
    cross3(w_s(c), u_s(c))
}

/// Viewport height: twice the focal length times the half-angle tangent.
pub open spec fn viewport_h_s(c: Camera) -> int {
    fmul(2 * focal_s(c), c.vfov_half_tangent as int)
}

/// Viewport width: the height scaled by the actual width-to-height ratio.
pub open spec fn viewport_w_s(c: Camera) -> int {
    fmul(viewport_h_s(c), fdiv(c.image_width as int * 65536, height_s(c) * 65536))
}

/// Vector across the horizontal viewport edge.
pub open spec fn viewport_u_s(c: Camera) -> V3i {
    scale3(u_s(c), viewport_w_s(c))
}

/// Vector down the vertical viewport edge (negated so rows go downward).
pub open spec fn viewport_v_s(c: Camera) -> V3i {
    scale3(neg3(v_s(c)), viewport_h_s(c))
}

pub open spec fn pixel_delta_u_s(c: Camera) -> V3i {
    div3(viewport_u_s(c), c.image_width as int * 65536)
}

pub open spec fn pixel_delta_v_s(c: Camera) -> V3i {
    div3(viewport_v_s(c), height_s(c) * 65536)
}

/// The location of the center of pixel (0, 0): the upper-left viewport
/// corner, offset by half a pixel delta in each direction.
pub open spec fn pixel00_s(c: Camera) -> V3i {
    let origin = sub3(
        sub3(
            sub3(c.look_from@, scale3(w_s(c), focal_s(c))),
            div3(viewport_u_s(c), 131072),
        ),
        div3(viewport_v_s(c), 131072),
    );
    add3(origin, scale3(add3(pixel_delta_u_s(c), pixel_delta_v_s(c)), 32768))
}

/// The derived pixel grid is usable when the deltas times the resolution and
/// the grid origin stay within a quarter of the ray budget.
pub open spec fn grid_ok(c: Camera) -> bool {
    let du = pixel_delta_u_s(c);
    let dv = pixel_delta_v_s(c);
    let w = c.image_width as int;
    let h = height_s(c);
    &&& -0x10000000 <= du.x * w <= 0x10000000
    &&& -0x10000000 <= du.y * w <= 0x10000000
    &&& -0x10000000 <= du.z * w <= 0x10000000
    &&& -0x10000000 <= dv.x * h <= 0x10000000
    &&& -0x10000000 <= dv.y * h <= 0x10000000
    &&& -0x10000000 <= dv.z * h <= 0x10000000
    &&& bounded3(pixel00_s(c), 0x10000000)
}

/// Every intermediate of the derived-state chain fits a 64-bit scalar.
pub open spec fn chain_fits(c: Camera) -> bool {
    let vu = viewport_u_s(c);
    let vv = viewport_v_s(c);
    let du = pixel_delta_u_s(c);
    let dv = pixel_delta_v_s(c);
    let wf = scale3(w_s(c), focal_s(c));
    &&& crate::fixed::fits_i64(viewport_h_s(c))
    &&& crate::fixed::fits_i64(fdiv(c.image_width as int * 65536, height_s(c) * 65536))
    &&& crate::fixed::fits_i64(viewport_w_s(c))
    &&& crate::fixed::fits_i64(vu.x) && crate::fixed::fits_i64(vu.y) && crate::fixed::fits_i64(vu.z)
    &&& crate::fixed::fits_i64(vv.x) && crate::fixed::fits_i64(vv.y) && crate::fixed::fits_i64(vv.z)
    &&& crate::fixed::fits_i64(du.x) && crate::fixed::fits_i64(du.y) && crate::fixed::fits_i64(du.z)
    &&& crate::fixed::fits_i64(dv.x) && crate::fixed::fits_i64(dv.y) && crate::fixed::fits_i64(dv.z)
    &&& crate::fixed::fits_i64(wf.x) && crate::fixed::fits_i64(wf.y) && crate::fixed::fits_i64(wf.z)
}

/// The whole validation `initialize` performs: a usable configuration,
/// distinct eye and target, an up vector not parallel to the view
/// direction, intermediates on the 64-bit grid, and a pixel grid the ray
/// arithmetic can carry.
pub open spec fn setup_ok(c: Camera) -> bool {
    &&& config_wf(c)
    &&& norm3(sub3(c.look_from@, c.look_at@)) > 0
    &&& norm3(cross3(c.vertical_camera_up@, w_s(c))) > 0
    &&& chain_fits(c)
    &&& grid_ok(c)
}

/// A wide intermediate narrowed onto the 64-bit grid, or nothing.
fn narrow(x: i128) -> (r: Option<i64>)
    ensures
        r.is_some() == crate::fixed::fits_i64(x as int),
        r matches Some(v) ==> v as int == x as int,
{
    if -0x8000000000000000 <= x && x <= 0x7fffffffffffffff {
        Option::Some(x as i64)
    } else {
        Option::None
    }
}

/// The background gradient: white blended toward sky blue by the unit
/// direction's height.
pub open spec fn background_s(direction: V3i) -> C3i {
    let a = fmul(32768, unit3(direction).y + 65536);
    C3i {
        r: fmul(65536, 65536 - a) + fmul(32768, a),
        g: fmul(65536, 65536 - a) + fmul(45875, a),
        b: fmul(65536, 65536 - a) + fmul(65536, a),
    }
}

/// The direction of the camera ray through pixel `(x, y)` with sub-pixel
/// jitter `(jx, jy)`: the jittered grid point minus the camera center.
pub open spec fn sample_direction(c: Camera, x: int, y: int, jx: int, jy: int) -> V3i {
    sub3(
        add3(
            add3(c.pixel00_loc@, scale3(c.pixel_delta_u@, x * 65536 + jx)),
            scale3(c.pixel_delta_v@, y * 65536 + jy),
        ),
        c.camera_center@,
    )
}

/// A sub-pixel jitter lies in the half-open square from minus one half to
/// plus one half of a pixel.
pub open spec fn jitter_ok(jx: int, jy: int) -> bool {
    -32768 <= jx <= 32767 && -32768 <= jy <= 32767
}

/// One radiance sample is consistent with `ray_color`'s contract for the
/// jittered camera ray through pixel `(x, y)`: unit-interval channels,
/// exactly black when the bounce budget is spent, and exactly the sky
/// gradient when the ray misses the whole scene.
pub open spec fn sample_ok(
    c: Camera,
    world: HittableObjects,
    x: int,
    y: int,
    jx: int,
    jy: int,
    col: C3i,
) -> bool {
    let dir = sample_direction(c, x, y, jx, jy);
    let rv = crate::ray::RayV { origin: c.camera_center@, direction: dir };
    &&& jitter_ok(jx, jy)
    &&& channels_within(col, 65536)
    &&& c.max_depth <= 0 ==> col == (C3i { r: 0, g: 0, b: 0 })
    &&& ({
        &&& c.max_depth > 0
        &&& norm3(dir) > 0
        &&& !crate::geometry::world_best(world.objects@, rv, 65, i64::MAX as int,
            world.objects@.len() as int).is_some()
    }) ==> col == background_s(dir)
    &&& ({
        &&& c.max_depth > 0
        &&& norm3(dir) > 0
        &&& crate::geometry::world_best(world.objects@, rv, 65, i64::MAX as int,
            world.objects@.len() as int).is_some()
    }) ==> ({
        let best = crate::geometry::world_best(world.objects@, rv, 65, i64::MAX as int,
            world.objects@.len() as int)->Some_0;
        let att = crate::material::scatter_attenuation(world.objects@[best.0].material);
        ||| col == (C3i { r: 0, g: 0, b: 0 })
        ||| exists|rc: C3i|
                #[trigger] channels_within(rc, 65536)
                && col == (C3i {
                    r: fmul(rc.r, att.r),
                    g: fmul(rc.g, att.g),
                    b: fmul(rc.b, att.b),
                })
    })
}

/// The componentwise sum of a sequence of colors.
pub open spec fn color_sum(cs: Seq<C3i>) -> C3i
    decreases cs.len(),
{
    if cs.len() == 0 {
        C3i { r: 0, g: 0, b: 0 }
    } else {
        let prev = color_sum(cs.drop_last());
        C3i {
            r: prev.r + cs.last().r,
            g: prev.g + cs.last().g,
            b: prev.b + cs.last().b,
        }
    }
}

/// A finished pixel is `write_color` of the scaled sum of
/// `samples_per_pixel` radiance samples: for some sequence of jitters and
/// per-sample colors, each consistent with `ray_color`'s contract, the
/// bytes are the tone-mapped quantization of the averaged sum.
pub open spec fn pixel_ok(
    c: Camera,
    world: HittableObjects,
    x: int,
    y: int,
    px: (u8, u8, u8),
) -> bool {
    exists|jit: Seq<(int, int)>, cs: Seq<C3i>|
        #![trigger jit.len(), cs.len()]
        {
            &&& jit.len() == c.samples_per_pixel
            &&& cs.len() == c.samples_per_pixel
            &&& (forall|i: int| 0 <= i < cs.len()
                ==> #[trigger] sample_ok(c, world, x, y, jit[i].0, jit[i].1, cs[i]))
            &&& px.0 == byte_s(gamma_s(fmul(color_sum(cs).r, c.pixel_samples_scale as int)))
            &&& px.1 == byte_s(gamma_s(fmul(color_sum(cs).g, c.pixel_samples_scale as int)))
            &&& px.2 == byte_s(gamma_s(fmul(color_sum(cs).b, c.pixel_samples_scale as int)))
        }
}

/// A row-major pixel index lies below the count of full rows.
proof fn lemma_row_major_index(x: int, y: int, w: int, yb: int)
    by (nonlinear_arith)
    requires
        0 <= x < w,
        0 <= y < yb,
    ensures
        0 <= y * w + x < yb * w,
{
}

impl Camera {
    /// The derived state `initialize` establishes, as stored in the fields.
    pub open spec fn derived_wf(&self) -> bool {
        &&& 1 <= self.image_height <= 16384
        &&& 1 <= self.image_width <= 4096
        &&& 1 <= self.samples_per_pixel <= 16384
        &&& 0 <= self.max_depth <= 4096
        &&& 1 <= self.pixel_samples_scale <= 65536
        &&& bounded3(self.camera_center@, 0x400000)
        &&& bounded3(self.pixel00_loc@, 0x10000000)
        &&& -0x10000000 <= self.pixel_delta_u@.x * self.image_width as int <= 0x10000000
        &&& -0x10000000 <= self.pixel_delta_u@.y * self.image_width as int <= 0x10000000
        &&& -0x10000000 <= self.pixel_delta_u@.z * self.image_width as int <= 0x10000000
        &&& -0x10000000 <= self.pixel_delta_v@.x * self.image_height as int <= 0x10000000
        &&& -0x10000000 <= self.pixel_delta_v@.y * self.image_height as int <= 0x10000000
        &&& -0x10000000 <= self.pixel_delta_v@.z * self.image_height as int <= 0x10000000
    }

    /// The default camera: square aspect, a small image, ten samples, a
    /// ninety-degree field of view, the vertical up direction, and no
    /// bounce budget until the caller sets one.
    pub fn new() -> (r: Self)
        ensures
            r.aspect_ratio == 65536,
            r.image_width == 100,
            r.samples_per_pixel == 10,
            r.max_depth == 0,
            r.vfov_half_tangent == 65536,
            r.look_from@ == (V3i { x: 0, y: 0, z: 0 }),
            r.look_at@ == (V3i { x: 0, y: 6553, z: -65536 }),
            r.vertical_camera_up@ == (V3i { x: 0, y: 65536, z: 0 }),
    {
        Camera {
            aspect_ratio: 65536,
            image_width: 100,
            samples_per_pixel: 10,
            max_depth: 0,
            vfov_half_tangent: 65536,
            look_from: Point3 { x: 0, y: 0, z: 0 },
            look_at: Point3 { x: 0, y: 6553, z: -65536 },
            vertical_camera_up: Vector3 { x: 0, y: 65536, z: 0 },
            image_height: 0,
            camera_center: Point3 { x: 0, y: 0, z: 0 },
            pixel00_loc: Point3 { x: 0, y: 0, z: 0 },
            pixel_delta_u: Vector3 { x: 0, y: 0, z: 0 },
            pixel_delta_v: Vector3 { x: 0, y: 0, z: 0 },
            pixel_samples_scale: 0,
            frame_basis: CameraFrameBasis {
                u: Vector3 { x: 0, y: 0, z: 0 },
                v: Vector3 { x: 0, y: 0, z: 0 },
                w: Vector3 { x: 0, y: 0, z: 0 },
            },
        }
    }

    /// Validate the configuration and compute the derived state. Returns
    /// false, leaving the configuration untouched, exactly when the
    /// configuration fails `setup_ok`; on success every derived field
    /// equals its mirror.
    #[verifier::rlimit(60)]
    pub fn initialize(&mut self) -> (ok: bool)
        ensures
            final(self).aspect_ratio == old(self).aspect_ratio,
            final(self).image_width == old(self).image_width,
            final(self).samples_per_pixel == old(self).samples_per_pixel,
            final(self).max_depth == old(self).max_depth,
            final(self).vfov_half_tangent == old(self).vfov_half_tangent,
            final(self).look_from == old(self).look_from,
            final(self).look_at == old(self).look_at,
            final(self).vertical_camera_up == old(self).vertical_camera_up,
            ok == setup_ok(*old(self)),
            ok ==> {
                &&& final(self).derived_wf()
                &&& final(self).image_height as int == height_s(*old(self))
                &&& final(self).camera_center == old(self).look_from
                &&& final(self).pixel_samples_scale ==
                    tdiv(65536, old(self).samples_per_pixel as int)
                &&& final(self).frame_basis.w@ == w_s(*old(self))
                &&& final(self).frame_basis.u@ == u_s(*old(self))
                &&& final(self).frame_basis.v@ == v_s(*old(self))
                &&& final(self).pixel_delta_u@ == pixel_delta_u_s(*old(self))
                &&& final(self).pixel_delta_v@ == pixel_delta_v_s(*old(self))
                &&& final(self).pixel00_loc@ == pixel00_s(*old(self))
            },
    {
        if !(16384 <= self.aspect_ratio && self.aspect_ratio <= 262144
            && 1 <= self.image_width && self.image_width <= 4096
            && 1 <= self.samples_per_pixel && self.samples_per_pixel <= 16384
            && 0 <= self.max_depth && self.max_depth <= 4096
            && 1 <= self.vfov_half_tangent && self.vfov_half_tangent <= 262144
            && -0x400000 <= self.look_from.x && self.look_from.x <= 0x400000
            && -0x400000 <= self.look_from.y && self.look_from.y <= 0x400000
            && -0x400000 <= self.look_from.z && self.look_from.z <= 0x400000
            && -0x400000 <= self.look_at.x && self.look_at.x <= 0x400000
            && -0x400000 <= self.look_at.y && self.look_at.y <= 0x400000
            && -0x400000 <= self.look_at.z && self.look_at.z <= 0x400000
            && -0x400000 <= self.vertical_camera_up.x && self.vertical_camera_up.x <= 0x400000
            && -0x400000 <= self.vertical_camera_up.y && self.vertical_camera_up.y <= 0x400000
            && -0x400000 <= self.vertical_camera_up.z && self.vertical_camera_up.z <= 0x400000)
        {
            return false;
        }

        // Image height, floored to one.
        let width_fx: i64 = (self.image_width as i64) * 65536;
        proof {
            lemma_tdiv_bound(width_fx as int * 65536, self.aspect_ratio as int, 0x40000000);
            assert(width_fx as int * 65536 <= 0x40000000 * (self.aspect_ratio as int)
                && -(0x40000000 * (self.aspect_ratio as int)) <= width_fx as int * 65536)
                by (nonlinear_arith)
                requires 0 < width_fx <= 0x10000000 && 16384 <= self.aspect_ratio;
        }
        let height_fx: i64 = crate::fixed::fx_div(width_fx, self.aspect_ratio);
        proof {
            lemma_tdiv_sign(height_fx as int, 65536);
            lemma_tdiv_bound(height_fx as int, 65536, 0x4000);
            assert(fdiv(width_fx as int, self.aspect_ratio as int) <= 0x40000000) by {
                lemma_tdiv_bound(width_fx as int * 65536, self.aspect_ratio as int, 0x40000000);
                assert(width_fx as int * 65536 <= 0x40000000 * (self.aspect_ratio as int)
                    && -(0x40000000 * (self.aspect_ratio as int)) <= width_fx as int * 65536)
                    by (nonlinear_arith)
                    requires 0 < width_fx <= 0x10000000 && 16384 <= self.aspect_ratio;
            }
        }
        let height_trunc: i128 = div_wide(height_fx as i128, 65536);
        let image_height: i32 = if height_trunc < 1 { 1 } else { height_trunc as i32 };

        // Averaging scale for the sample sum.
        let scale: i128 = div_wide(65536, self.samples_per_pixel as i128);
        proof {
            lemma_tdiv_bound(65536, self.samples_per_pixel as int, 65536);
            assert(65536 <= 65536 * (self.samples_per_pixel as int)
                && -(65536 * (self.samples_per_pixel as int)) <= 65536) by (nonlinear_arith)
                requires 1 <= self.samples_per_pixel;
            assert(tdiv(65536, self.samples_per_pixel as int) >= 1) by {
                if tdiv(65536, self.samples_per_pixel as int) < 1 {
                    vstd::arithmetic::div_mod::lemma_fundamental_div_mod(
                        65536, self.samples_per_pixel as int);
                    vstd::arithmetic::div_mod::lemma_mod_bound(
                        65536, self.samples_per_pixel as int);
                }
            }
        }
        let pixel_samples_scale: i64 = scale as i64;

        // Focal length and view basis.
        let diff: Vector3 = self.look_from.sub(self.look_at).as_vec();
        let focal_sq: i128 = dot_wide(&diff, &diff);
        if focal_sq <= 0 {
            return false;
        }
        proof {
            lemma_dot3_bound(diff@, diff@, 0x800000, 0x800000);
        }
        let focal_wide: i128 = isqrt_wide(focal_sq);
        proof {
            lemma_sqrt_bounds(focal_sq as int);
            assert(sqrt_s(focal_sq as int) < 0x1000000) by {
                if sqrt_s(focal_sq as int) >= 0x1000000 {
                    lemma_sq_monotone(0x1000000, sqrt_s(focal_sq as int));
                }
            }
        }
        let focal: i64 = focal_wide as i64;
        let w_basis: Vector3 = diff.unit_vector();
        let cross_uw: Vector3 = self.vertical_camera_up.cross_prod(w_basis);
        proof {
            crate::fixed::lemma_fmul_tight(self.vertical_camera_up@.x, w_basis@.y,
                0x400000, 65536, 0x400000);
            crate::fixed::lemma_fmul_tight(self.vertical_camera_up@.x, w_basis@.z,
                0x400000, 65536, 0x400000);
            crate::fixed::lemma_fmul_tight(self.vertical_camera_up@.y, w_basis@.x,
                0x400000, 65536, 0x400000);
            crate::fixed::lemma_fmul_tight(self.vertical_camera_up@.y, w_basis@.z,
                0x400000, 65536, 0x400000);
            crate::fixed::lemma_fmul_tight(self.vertical_camera_up@.z, w_basis@.x,
                0x400000, 65536, 0x400000);
            crate::fixed::lemma_fmul_tight(self.vertical_camera_up@.z, w_basis@.y,
                0x400000, 65536, 0x400000);
        }
        let cross_norm: i128 = dot_wide(&cross_uw, &cross_uw);
        if cross_norm <= 0 {
            return false;
        }
        let u_basis: Vector3 = cross_uw.unit_vector();
        let v_basis: Vector3 = w_basis.cross_prod(u_basis);

        // Viewport dimensions, narrowed step by step onto the 64-bit grid.
        let two_focal: i64 = 2 * focal;
        let vh: i64 = match narrow(div_wide(
            crate::fixed::mul_wide(two_focal, self.vfov_half_tangent), 65536)) {
            Option::Some(v) => v,
            Option::None => { return false; },
        };
        let height_fx2: i64 = (image_height as i64) * 65536;
        let ratio: i64 = match narrow(div_wide(
            crate::fixed::mul_wide(width_fx, 65536), height_fx2 as i128)) {
            Option::Some(v) => v,
            Option::None => { return false; },
        };
        let vw: i64 = match narrow(div_wide(crate::fixed::mul_wide(vh, ratio), 65536)) {
            Option::Some(v) => v,
            Option::None => { return false; },
        };

        // Viewport edge vectors and pixel deltas, per component.
        let vux: i64 = match narrow(div_wide(crate::fixed::mul_wide(u_basis.x, vw), 65536)) {
            Option::Some(v) => v,
            Option::None => { return false; },
        };
        let vuy: i64 = match narrow(div_wide(crate::fixed::mul_wide(u_basis.y, vw), 65536)) {
            Option::Some(v) => v,
            Option::None => { return false; },
        };
        let vuz: i64 = match narrow(div_wide(crate::fixed::mul_wide(u_basis.z, vw), 65536)) {
            Option::Some(v) => v,
            Option::None => { return false; },
        };
        proof {
            assert((-(v_basis@.x)) * (vh as int) == -(v_basis@.x * (vh as int))
                && (-(v_basis@.y)) * (vh as int) == -(v_basis@.y * (vh as int))
                && (-(v_basis@.z)) * (vh as int) == -(v_basis@.z * (vh as int)))
                by (nonlinear_arith);
        }
        let vvx: i64 = match narrow(div_wide(-crate::fixed::mul_wide(v_basis.x, vh), 65536)) {
            Option::Some(v) => v,
            Option::None => { return false; },
        };
        let vvy: i64 = match narrow(div_wide(-crate::fixed::mul_wide(v_basis.y, vh), 65536)) {
            Option::Some(v) => v,
            Option::None => { return false; },
        };
        let vvz: i64 = match narrow(div_wide(-crate::fixed::mul_wide(v_basis.z, vh), 65536)) {
            Option::Some(v) => v,
            Option::None => { return false; },
        };
        let dux: i64 = match narrow(div_wide(crate::fixed::mul_wide(vux, 65536), width_fx as i128)) {
            Option::Some(v) => v,
            Option::None => { return false; },
        };
        let duy: i64 = match narrow(div_wide(crate::fixed::mul_wide(vuy, 65536), width_fx as i128)) {
            Option::Some(v) => v,
            Option::None => { return false; },
        };
        let duz: i64 = match narrow(div_wide(crate::fixed::mul_wide(vuz, 65536), width_fx as i128)) {
            Option::Some(v) => v,
            Option::None => { return false; },
        };
        let dvx: i64 = match narrow(div_wide(crate::fixed::mul_wide(vvx, 65536), height_fx2 as i128)) {
            Option::Some(v) => v,
            Option::None => { return false; },
        };
        let dvy: i64 = match narrow(div_wide(crate::fixed::mul_wide(vvy, 65536), height_fx2 as i128)) {
            Option::Some(v) => v,
            Option::None => { return false; },
        };
        let dvz: i64 = match narrow(div_wide(crate::fixed::mul_wide(vvz, 65536), height_fx2 as i128)) {
            Option::Some(v) => v,
            Option::None => { return false; },
        };

        // Upper-left viewport corner and the pixel (0, 0) location.
        let wfx: i64 = match narrow(div_wide(crate::fixed::mul_wide(w_basis.x, focal), 65536)) {
            Option::Some(v) => v,
            Option::None => { return false; },
        };
        let wfy: i64 = match narrow(div_wide(crate::fixed::mul_wide(w_basis.y, focal), 65536)) {
            Option::Some(v) => v,
            Option::None => { return false; },
        };
        let wfz: i64 = match narrow(div_wide(crate::fixed::mul_wide(w_basis.z, focal), 65536)) {
            Option::Some(v) => v,
            Option::None => { return false; },
        };
        let vox: i128 = (self.look_from.x as i128) - (wfx as i128)
            - div_wide(crate::fixed::mul_wide(vux, 65536), 131072) - div_wide(crate::fixed::mul_wide(vvx, 65536), 131072);
        let voy: i128 = (self.look_from.y as i128) - (wfy as i128)
            - div_wide(crate::fixed::mul_wide(vuy, 65536), 131072) - div_wide(crate::fixed::mul_wide(vvy, 65536), 131072);
        let voz: i128 = (self.look_from.z as i128) - (wfz as i128)
            - div_wide(crate::fixed::mul_wide(vuz, 65536), 131072) - div_wide(crate::fixed::mul_wide(vvz, 65536), 131072);
        let p00x: i128 = vox + div_wide(((dux as i128) + (dvx as i128)) * 32768, 65536);
        let p00y: i128 = voy + div_wide(((duy as i128) + (dvy as i128)) * 32768, 65536);
        let p00z: i128 = voz + div_wide(((duz as i128) + (dvz as i128)) * 32768, 65536);

        // The grid checks: deltas scaled by the resolution and the grid
        // origin must stay within a quarter of the ray budget.
        let width64: i64 = self.image_width as i64;
        let height64: i64 = image_height as i64;
        if !(-0x10000000 <= crate::fixed::mul_wide(dux, width64) && crate::fixed::mul_wide(dux, width64) <= 0x10000000
            && -0x10000000 <= crate::fixed::mul_wide(duy, width64) && crate::fixed::mul_wide(duy, width64) <= 0x10000000
            && -0x10000000 <= crate::fixed::mul_wide(duz, width64) && crate::fixed::mul_wide(duz, width64) <= 0x10000000
            && -0x10000000 <= crate::fixed::mul_wide(dvx, height64) && crate::fixed::mul_wide(dvx, height64) <= 0x10000000
            && -0x10000000 <= crate::fixed::mul_wide(dvy, height64) && crate::fixed::mul_wide(dvy, height64) <= 0x10000000
            && -0x10000000 <= crate::fixed::mul_wide(dvz, height64) && crate::fixed::mul_wide(dvz, height64) <= 0x10000000
            && -0x10000000 <= p00x && p00x <= 0x10000000
            && -0x10000000 <= p00y && p00y <= 0x10000000
            && -0x10000000 <= p00z && p00z <= 0x10000000)
        {
            return false;
        }

        self.image_height = image_height;
        self.pixel_samples_scale = pixel_samples_scale;
        self.camera_center = self.look_from;
        self.frame_basis = CameraFrameBasis { u: u_basis, v: v_basis, w: w_basis };
        self.pixel_delta_u = Vector3 { x: dux as i64, y: duy as i64, z: duz as i64 };
        self.pixel_delta_v = Vector3 { x: dvx as i64, y: dvy as i64, z: dvz as i64 };
        self.pixel00_loc = Point3 { x: p00x as i64, y: p00y as i64, z: p00z as i64 };
        true
    }

    /// The vector to a random point in the square from minus one half to
    /// plus one half of a pixel, the antialiasing jitter.
    fn sample_square(rng: &mut RandomSource) -> (r: Vector3)
        ensures
            -32768 <= r@.x <= 32767,
            -32768 <= r@.y <= 32767,
            r@.z == 0,
    {
        let x = rng.next_unit() - 32768;
        let y = rng.next_unit() - 32768;
        Vector3 { x, y, z: 0 }
    }

    /// A camera ray from the center through a randomly jittered point around
    /// pixel (loc_x, loc_y). The origin is the camera center and the
    /// direction stays on the ray grid.
    pub fn get_ray(&self, loc_x: i32, loc_y: i32, rng: &mut RandomSource) -> (r: Ray)
        requires
            self.derived_wf(),
            0 <= loc_x < self.image_width,
            0 <= loc_y < self.image_height,
        ensures
            r@.origin == self.camera_center@,
            bounded3(r@.origin, 0x400000),
            bounded3(r@.direction, 0x40000000),
            exists|ox: int, oy: int|
                jitter_ok(ox, oy)
                && r@.direction == #[trigger] sample_direction(
                    *self, loc_x as int, loc_y as int, ox, oy),
    {
        let offset: Vector3 = Self::sample_square(rng);
        let tx: i64 = (loc_x as i64) * 65536 + offset.x;
        let ty: i64 = (loc_y as i64) * 65536 + offset.y;
        proof {
            assert(-(0x10000000 * 65536) <= self.pixel_delta_u@.x * tx as int
                && self.pixel_delta_u@.x * tx as int <= 0x10000000 * 65536
                && -(0x10000000 * 65536) <= self.pixel_delta_u@.y * tx as int
                && self.pixel_delta_u@.y * tx as int <= 0x10000000 * 65536
                && -(0x10000000 * 65536) <= self.pixel_delta_u@.z * tx as int
                && self.pixel_delta_u@.z * tx as int <= 0x10000000 * 65536) by (nonlinear_arith)
                requires -0x10000000 <= self.pixel_delta_u@.x * self.image_width as int <= 0x10000000
                    && -0x10000000 <= self.pixel_delta_u@.y * self.image_width as int <= 0x10000000
                    && -0x10000000 <= self.pixel_delta_u@.z * self.image_width as int <= 0x10000000
                    && 0 <= loc_x < self.image_width
                    && tx as int <= loc_x as int * 65536 + 32767
                    && loc_x as int * 65536 - 32768 <= tx
                    && 1 <= self.image_width <= 4096;
            lemma_tdiv_bound(self.pixel_delta_u@.x * tx as int, 65536, 0x10000000);
            lemma_tdiv_bound(self.pixel_delta_u@.y * tx as int, 65536, 0x10000000);
            lemma_tdiv_bound(self.pixel_delta_u@.z * tx as int, 65536, 0x10000000);
            assert(-(0x10000000 * 65536) <= self.pixel_delta_v@.x * ty as int
                && self.pixel_delta_v@.x * ty as int <= 0x10000000 * 65536
                && -(0x10000000 * 65536) <= self.pixel_delta_v@.y * ty as int
                && self.pixel_delta_v@.y * ty as int <= 0x10000000 * 65536
                && -(0x10000000 * 65536) <= self.pixel_delta_v@.z * ty as int
                && self.pixel_delta_v@.z * ty as int <= 0x10000000 * 65536) by (nonlinear_arith)
                requires -0x10000000 <= self.pixel_delta_v@.x * self.image_height as int <= 0x10000000
                    && -0x10000000 <= self.pixel_delta_v@.y * self.image_height as int <= 0x10000000
                    && -0x10000000 <= self.pixel_delta_v@.z * self.image_height as int <= 0x10000000
                    && 0 <= loc_y < self.image_height
                    && ty as int <= loc_y as int * 65536 + 32767
                    && loc_y as int * 65536 - 32768 <= ty
                    && 1 <= self.image_height <= 16384;
            lemma_tdiv_bound(self.pixel_delta_v@.x * ty as int, 65536, 0x10000000);
            lemma_tdiv_bound(self.pixel_delta_v@.y * ty as int, 65536, 0x10000000);
            lemma_tdiv_bound(self.pixel_delta_v@.z * ty as int, 65536, 0x10000000);
        }
        let step_u: Vector3 = self.pixel_delta_u.mul(tx);
        let step_v: Vector3 = self.pixel_delta_v.mul(ty);
        let pixel_sample: Point3 = self.pixel00_loc.add_vec(step_u).add_vec(step_v);
        let ray_direction: Vector3 = pixel_sample.sub(self.camera_center).as_vec();
        proof {
            assert(ray_direction@ == sample_direction(
                *self, loc_x as int, loc_y as int, offset@.x, offset@.y));
        }
        Ray::new(self.camera_center, ray_direction)
    }

    /// The recursive radiance estimate for one ray: black once the bounce
    /// budget is spent, the attenuated recursive estimate after a scatter,
    /// black on absorption, and the sky gradient where nothing is hit.
    /// Every channel of the result lies in the unit interval.
    pub fn ray_color(
        ray: Ray,
        depth: i32,
        world: &HittableObjects,
        rng: &mut RandomSource,
    ) -> (r: Color)
        requires
            world.wf(),
            bounded3(ray@.origin, 0x40000000),
            bounded3(ray@.direction, 0x40000000),
        ensures
            channels_within(r@, 65536),
            depth <= 0 ==> r@ == (C3i { r: 0, g: 0, b: 0 }),
            ({
                &&& depth > 0
                &&& norm3(ray@.direction) > 0
                &&& !crate::geometry::world_best(world.objects@, ray@, 65, i64::MAX as int,
                    world.objects@.len() as int).is_some()
            }) ==> r@ == background_s(ray@.direction),
            ({
                &&& depth > 0
                &&& norm3(ray@.direction) > 0
                &&& crate::geometry::world_best(world.objects@, ray@, 65, i64::MAX as int,
                    world.objects@.len() as int).is_some()
            }) ==> ({
                let best = crate::geometry::world_best(world.objects@, ray@, 65,
                    i64::MAX as int, world.objects@.len() as int)->Some_0;
                let att = crate::material::scatter_attenuation(
                    world.objects@[best.0].material);
                ||| r@ == (C3i { r: 0, g: 0, b: 0 })
                ||| exists|rc: C3i|
                        #[trigger] channels_within(rc, 65536)
                        && r@ == (C3i {
                            r: fmul(rc.r, att.r),
                            g: fmul(rc.g, att.g),
                            b: fmul(rc.b, att.b),
                        })
            }),
        decreases depth,
    {
        if depth <= 0 {
            return Color::new(0, 0, 0);
        }
        if ray.get_direction().near_zero() {
            proof {
                assert(norm3(ray@.direction) == 0) by (nonlinear_arith)
                    requires ray@.direction.x == 0 && ray@.direction.y == 0
                        && ray@.direction.z == 0;
            }
            return Color::new(0, 0, 0);
        }
        proof {
            assert(norm3(ray@.direction) > 0) by (nonlinear_arith)
                requires !(ray@.direction.x == 0 && ray@.direction.y == 0
                    && ray@.direction.z == 0);
        }

        if let Option::Some(hit) = world.hit(ray, Interval::new(65, i64::MAX)) {
            proof {
                let best = crate::geometry::world_best(world.objects@, ray@, 65,
                    i64::MAX as int, world.objects@.len() as int)->Some_0;
                assert(world.objects@[best.0].wf());
            }
            if let Option::Some(scatter) = hit.material.scatter(ray, &hit, rng) {
                let Scatter { scattered_ray, attenuation } = scatter;
                let recursive = Self::ray_color(scattered_ray, depth - 1, world, rng);
                proof {
                    lemma_fmul_unit(recursive@.r, attenuation@.r);
                    lemma_fmul_unit(recursive@.g, attenuation@.g);
                    lemma_fmul_unit(recursive@.b, attenuation@.b);
                    assert(channels_within(recursive@, 65536));
                }
                return recursive.mul(attenuation);
            } else {
                return Color::new(0, 0, 0);
            }
        }

        // Background: a vertical linear blend between white and sky blue.
        let unit_direction: Vector3 = ray.get_direction().unit_vector();
        proof {
            lemma_tdiv_sign(32768 * (unit_direction@.y + 65536), 65536);
            lemma_tdiv_bound(32768 * (unit_direction@.y + 65536), 65536, 65536);
        }
        let a: i64 = crate::fixed::fx_mul(32768, unit_direction.get_y() + 65536);
        proof {
            lemma_fmul_unit(65536, 65536 - a as int);
            lemma_fmul_unit(32768, a as int);
            lemma_fmul_unit(45875, a as int);
            lemma_fmul_unit(65536, a as int);
            lemma_tdiv_bound(32768 * (a as int), 65536, a as int);
            lemma_tdiv_bound(45875 * (a as int), 65536, a as int);
        }
        let white = Color::new(65536, 65536, 65536).mul_scalar(65536 - a);
        let blue = Color::new(32768, 45875, 65536).mul_scalar(a);
        white.add(blue)
    }

    /// One pixel of the final image: the average of `samples_per_pixel`
    /// jittered radiance estimates, tone-mapped and quantized to bytes.
    pub fn render_pixel(
        &self,
        world: &HittableObjects,
        loc_x: i32,
        loc_y: i32,
        rng: &mut RandomSource,
    ) -> (r: (u8, u8, u8))
        requires
            self.derived_wf(),
            world.wf(),
            0 <= loc_x < self.image_width,
            0 <= loc_y < self.image_height,
        ensures
            pixel_ok(*self, *world, loc_x as int, loc_y as int, r),
    {
        let mut pixel_color = Color::new(0, 0, 0);
        let mut sample: i32 = 0;
        let ghost mut jits: Seq<(int, int)> = Seq::empty();
        let ghost mut cols: Seq<C3i> = Seq::empty();
        while sample < self.samples_per_pixel
            invariant
                self.derived_wf(),
                world.wf(),
                0 <= loc_x < self.image_width,
                0 <= loc_y < self.image_height,
                0 <= sample <= self.samples_per_pixel,
                0 <= pixel_color@.r <= sample as int * 65536,
                0 <= pixel_color@.g <= sample as int * 65536,
                0 <= pixel_color@.b <= sample as int * 65536,
                jits.len() == sample as int,
                cols.len() == sample as int,
                forall|i: int| 0 <= i < cols.len()
                    ==> #[trigger] sample_ok(*self, *world, loc_x as int, loc_y as int,
                        jits[i].0, jits[i].1, cols[i]),
                pixel_color@ == color_sum(cols),
            decreases self.samples_per_pixel - sample,
        {
            let ray_sent: Ray = self.get_ray(loc_x, loc_y, rng);
            let sample_color = Self::ray_color(ray_sent, self.max_depth, world, rng);
            proof {
                let (jx, jy) = choose|jx: int, jy: int|
                    jitter_ok(jx, jy)
                    && ray_sent@.direction == #[trigger] sample_direction(
                        *self, loc_x as int, loc_y as int, jx, jy);
                assert(ray_sent@ == (crate::ray::RayV {
                    origin: self.camera_center@,
                    direction: sample_direction(*self, loc_x as int, loc_y as int, jx, jy),
                }));
                assert(sample_ok(*self, *world, loc_x as int, loc_y as int,
                    jx, jy, sample_color@));
                let prev_cols = cols;
                jits = jits.push((jx, jy));
                cols = cols.push(sample_color@);
                assert(cols.drop_last() =~= prev_cols);
                assert(cols.last() == sample_color@);
            }
            pixel_color.add_assign(sample_color);
            sample = sample + 1;
        }
        proof {
            lemma_tdiv_sign(pixel_color@.r * self.pixel_samples_scale as int, 65536);
            lemma_tdiv_sign(pixel_color@.g * self.pixel_samples_scale as int, 65536);
            lemma_tdiv_sign(pixel_color@.b * self.pixel_samples_scale as int, 65536);
            assert(pixel_color@.r * self.pixel_samples_scale as int <= 0x40000000 * 65536
                && pixel_color@.g * self.pixel_samples_scale as int <= 0x40000000 * 65536
                && pixel_color@.b * self.pixel_samples_scale as int <= 0x40000000 * 65536
                && 0 <= pixel_color@.r * self.pixel_samples_scale as int
                && 0 <= pixel_color@.g * self.pixel_samples_scale as int
                && 0 <= pixel_color@.b * self.pixel_samples_scale as int) by (nonlinear_arith)
                requires 0 <= pixel_color@.r <= 16384 * 65536
                    && 0 <= pixel_color@.g <= 16384 * 65536
                    && 0 <= pixel_color@.b <= 16384 * 65536
                    && 1 <= self.pixel_samples_scale <= 65536;
            lemma_tdiv_bound(pixel_color@.r * self.pixel_samples_scale as int, 65536, 0x40000000);
            lemma_tdiv_bound(pixel_color@.g * self.pixel_samples_scale as int, 65536, 0x40000000);
            lemma_tdiv_bound(pixel_color@.b * self.pixel_samples_scale as int, 65536, 0x40000000);
        }
        let mut scaled = pixel_color.mul_scalar(self.pixel_samples_scale);
        let bytes = scaled.write_color();
        proof {
            assert(pixel_ok(*self, *world, loc_x as int, loc_y as int, bytes)) by {
                assert(jits.len() == self.samples_per_pixel);
                assert(cols.len() == self.samples_per_pixel);
                assert(bytes.0 == byte_s(gamma_s(fmul(color_sum(cols).r,
                    self.pixel_samples_scale as int))));
                assert(bytes.1 == byte_s(gamma_s(fmul(color_sum(cols).g,
                    self.pixel_samples_scale as int))));
                assert(bytes.2 == byte_s(gamma_s(fmul(color_sum(cols).b,
                    self.pixel_samples_scale as int))));
            }
        }
        bytes
    }

    /// Render the scene: validate and derive the camera state, then emit
    /// the quantized pixel stream in row-major order, top to bottom. A
    /// configuration the grid cannot carry yields an empty stream; a valid
    /// one yields exactly height times width pixels, each of them
    /// `write_color` of the scaled sum of its radiance samples
    /// (see `pixel_ok`).
    pub fn render(
        &mut self,
        world: &HittableObjects,
        rng: &mut RandomSource,
    ) -> (r: Vec<(u8, u8, u8)>)
        requires
            world.wf(),
        ensures
            setup_ok(*old(self)) ==> {
                &&& r@.len() == height_s(*old(self)) * old(self).image_width as int
                &&& forall|x: int, y: int|
                    0 <= x < old(self).image_width && 0 <= y < height_s(*old(self))
                    ==> pixel_ok(*final(self), *world, x, y,
                        #[trigger] r@[y * old(self).image_width as int + x])
            },
            !setup_ok(*old(self)) ==> r@.len() == 0,
    {
        if !self.initialize() {
            return Vec::new();
        }
        let ghost cam = *self;

        let mut pixel_stream: Vec<(u8, u8, u8)> = Vec::new();
        let height = self.image_height;
        let width = self.image_width;
        let mut y_index: i32 = 0;
        while y_index < height
            invariant
                self.derived_wf(),
                world.wf(),
                *self == cam,
                height == self.image_height,
                width == self.image_width,
                0 <= y_index <= height,
                pixel_stream@.len() == y_index as int * width as int,
                forall|x: int, y: int|
                    0 <= x < width as int && 0 <= y < y_index as int
                    ==> pixel_ok(cam, *world, x, y,
                        #[trigger] pixel_stream@[y * width as int + x]),
            decreases height - y_index,
        {
            let mut x_index: i32 = 0;
            while x_index < width
                invariant
                    self.derived_wf(),
                    world.wf(),
                    *self == cam,
                    height == self.image_height,
                    width == self.image_width,
                    0 <= y_index < height,
                    0 <= x_index <= width,
                    pixel_stream@.len() == y_index as int * width as int + x_index as int,
                    forall|x: int, y: int|
                        0 <= x < width as int && 0 <= y < y_index as int
                        ==> pixel_ok(cam, *world, x, y,
                            #[trigger] pixel_stream@[y * width as int + x]),
                    forall|x: int|
                        0 <= x < x_index as int
                        ==> pixel_ok(cam, *world, x, y_index as int,
                            #[trigger] pixel_stream@[y_index as int * width as int + x]),
                decreases width - x_index,
            {
                let bytes = self.render_pixel(world, x_index, y_index, rng);
                proof {
                    assert(pixel_stream@.len() + 1 <= 16384 * 4096) by (nonlinear_arith)
                        requires pixel_stream@.len() == y_index as int * width as int + x_index as int
                    && 0 <= y_index < height <= 16384
                    && 0 <= x_index < width <= 4096;
                }
                pixel_stream.push(bytes);
                proof {
                    assert forall|x: int, y: int|
                        0 <= x < width as int && 0 <= y < y_index as int
                        implies pixel_ok(cam, *world, x, y,
                            #[trigger] pixel_stream@[y * width as int + x]) by {
                        lemma_row_major_index(x, y, width as int, y_index as int);
                    }
                }
                x_index = x_index + 1;
            }
            proof {
                assert((y_index + 1) * width as int == y_index as int * width as int + width as int)
                    by (nonlinear_arith);
                assert forall|x: int, y: int|
                    0 <= x < width as int && 0 <= y < y_index as int + 1
                    implies pixel_ok(cam, *world, x, y,
                        #[trigger] pixel_stream@[y * width as int + x]) by {
                    lemma_row_major_index(x, y, width as int, y_index as int + 1);
                }
            }
            y_index = y_index + 1;
        }
        pixel_stream
    }
}

} // verus!
