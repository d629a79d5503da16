//! Scene assembly from literal coordinates: a ground sphere, a grid of
//! small randomized balls, and four large feature spheres. Scene assembly
//! from an external description lives with the caller; this module only
//! builds in-memory scenes that the renderer consumes.

use vstd::prelude::*;
use crate::color::{Color, channels_within};
use crate::fixed::{tdiv, fx_mul, clamp_fx, lemma_tdiv_sign, lemma_tdiv_bound};
use crate::geometry::{HittableObjects, Sphere};
use crate::material::{Dielectric, Lambertian, Material, Metal};
use crate::point::Point3;
use crate::random::RandomSource;

verus! {

/// Rescale one color channel from the byte range `[0, 256]` to `[0, 1]`,
/// clamping anything outside the byte range first.
pub fn translate_color_to_scale(color_component: i64) -> (r: i64)
    ensures
        r == tdiv(
            if color_component < 0 { 0int }
            else if color_component > 16777216 { 16777216int }
            else { color_component as int },
            256),
        0 <= r <= 65536,
{
    let clamped = clamp_fx(color_component, 0, 16777216);
    proof {
        lemma_tdiv_sign(clamped as int, 256);
        lemma_tdiv_bound(clamped as int, 256, 65536);
    }
    let q = crate::fixed::div_wide(clamped as i128, 256);
    q as i64
}

/// The fixed large Lambertian ground sphere of the showcase scene.
pub open spec fn ground_sphere() -> Sphere {
    Sphere {
        center: Point3 { x: 0i64, y: -65536000i64, z: 0i64 },
        radius: 65536000,
        material: Material::Lambertian(Lambertian {
            albedo: Color { red: 52429, green: 52429, blue: 52429 },
        }),
    }
}

/// The four fixed unit feature spheres, in the order they are appended:
/// glass, a hollow glass shell, a diffuse sphere and a metal sphere.
pub open spec fn feature_sphere(i: int) -> Sphere {
    if i == 0 {
        Sphere {
            center: Point3 { x: 524288, y: 65536, z: 0 },
            radius: 65536,
            material: Material::Dielectric(Dielectric { refractive_index: 42281 }),
        }
    } else if i == 1 {
        Sphere {
            center: Point3 { x: 0, y: 65536, z: 0 },
            radius: 65536,
            material: Material::Dielectric(Dielectric { refractive_index: 101581 }),
        }
    } else if i == 2 {
        Sphere {
            center: Point3 { x: -262144i64, y: 65536i64, z: 0i64 },
            radius: 65536,
            material: Material::Lambertian(Lambertian {
                albedo: Color { red: 26214, green: 13107, blue: 6554 },
            }),
        }
    } else {
        Sphere {
            center: Point3 { x: 262144, y: 65536, z: 0 },
            radius: 65536,
            material: Material::Metal(Metal {
                albedo: Color { red: 45875, green: 39322, blue: 32768 },
                fuzz: 13107,
            }),
        }
    }
}

/// What a small grid ball looks like: radius one fifth, center on grid
/// cell `(xi, yi)` jittered by up to nine tenths of a cell, resting on the
/// ground plane, and a material drawn as diffuse, metal, or glass of
/// index 1.33.
pub open spec fn small_ball_ok(s: Sphere, xi: int, yi: int) -> bool {
    &&& s.radius == 13107
    &&& xi * 65536 <= s.center@.x <= xi * 65536 + 58982
    &&& s.center@.y == 13107
    &&& yi * 65536 <= s.center@.z <= yi * 65536 + 58982
    &&& match s.material {
        Material::Lambertian(l) => channels_within(l.albedo@, 65535),
        Material::Metal(m) => channels_within(m.albedo@, 65535) && 0 <= m.fuzz <= 65535,
        Material::Dielectric(d) => d.refractive_index == 87163,
    }
}

/// The layout `generate_scene` establishes after the ground sphere and the
/// first `balls` small grid balls: the callers' spheres untouched, then
/// the ground, then one ball per grid cell in row-major order.
pub open spec fn scene_prefix_ok(old_objs: Seq<Sphere>, objs: Seq<Sphere>, balls: int) -> bool {
    let base = old_objs.len() as int;
    &&& objs.len() == base + 1 + balls
    &&& (forall|j: int| 0 <= j < base ==> objs[j] == old_objs[j])
    &&& objs[base] == ground_sphere()
    &&& (forall|i: int| 0 <= i < balls
        ==> small_ball_ok(#[trigger] objs[base + 1 + i], i / 14 - 7, i % 14 - 7))
}

/// One randomized small ball on the scene grid.
fn random_small_ball(x_index: i64, y_index: i64, rng: &mut RandomSource) -> (r: Sphere)
    requires
        -8 <= x_index <= 8,
        -8 <= y_index <= 8,
    ensures
        r.wf(),
        small_ball_ok(r, x_index as int, y_index as int),
{
    let choose_material_random: i64 = rng.next_unit();
    proof {
        crate::vector3::lemma_fmul_bound(58982, 65536, 58982, 65536);
        lemma_tdiv_sign(58982int * 65536, 65536);
    }
    let jitter_x = fx_mul(58982, rng.next_unit());
    let jitter_z = fx_mul(58982, rng.next_unit());
    proof {
        lemma_tdiv_bound(58982int * 65536, 65536, 65536);
    }
    let center = Point3::new(
        x_index * 65536 + jitter_x,
        13107,
        y_index * 65536 + jitter_z,
    );
    let material: Material = if choose_material_random < 26214 {
        Material::Lambertian(Lambertian::new(Color::new(
            rng.next_unit(),
            rng.next_unit(),
            rng.next_unit(),
        )))
    } else if choose_material_random < 52429 {
        Material::Metal(Metal::new(
            Color::new(rng.next_unit(), rng.next_unit(), rng.next_unit()),
            rng.next_unit(),
        ))
    } else {
        Material::Dielectric(Dielectric::new(87163))
    };
    Sphere::new(center, 13107, material)
}

/// Build the showcase scene: a large Lambertian ground sphere, a grid of
/// small balls with randomized materials, two glass spheres, one diffuse
/// and one metallic feature sphere. Exactly 201 spheres are appended.
pub fn generate_scene(world: &mut HittableObjects, rng: &mut RandomSource)
    requires
        old(world).wf(),
    ensures
        final(world).wf(),
        final(world).objects@.len() == old(world).objects@.len() + 201,
        scene_prefix_ok(old(world).objects@, final(world).objects@.take(
            old(world).objects@.len() as int + 197), 196),
        final(world).objects@[old(world).objects@.len() as int + 197] == feature_sphere(0),
        final(world).objects@[old(world).objects@.len() as int + 198] == feature_sphere(1),
        final(world).objects@[old(world).objects@.len() as int + 199] == feature_sphere(2),
        final(world).objects@[old(world).objects@.len() as int + 200] == feature_sphere(3),
{
    let ghost callers = world.objects@;

    // Ground.
    let material_ground = Material::Lambertian(Lambertian::new(
        Color::new(52429, 52429, 52429)));
    world.add(Sphere::new(Point3::new(0, -65536000, 0), 65536000, material_ground));
    proof {
        assert(world.objects@[callers.len() as int] == ground_sphere());
    }

    // Small balls on the grid.
    let mut x_index: i64 = -7;
    while x_index < 7
        invariant
            world.wf(),
            -7 <= x_index <= 7,
            scene_prefix_ok(callers, world.objects@, (x_index + 7) * 14),
        decreases 7 - x_index,
    {
        let mut y_index: i64 = -7;
        while y_index < 7
            invariant
                world.wf(),
                -7 <= x_index < 7,
                -7 <= y_index <= 7,
                scene_prefix_ok(callers, world.objects@,
                    (x_index + 7) * 14 + (y_index + 7)),
            decreases 7 - y_index,
        {
            let ball = random_small_ball(x_index, y_index, rng);
            world.add(ball);
            proof {
                let i_new = (x_index as int + 7) * 14 + (y_index as int + 7);
                vstd::arithmetic::div_mod::lemma_fundamental_div_mod_converse(
                    i_new, 14, x_index as int + 7, y_index as int + 7);
                assert(small_ball_ok(world.objects@[callers.len() + 1 + i_new],
                    i_new / 14 - 7, i_new % 14 - 7));
            }
            y_index = y_index + 1;
        }
        proof {
            assert((x_index + 1 + 7) * 14 == (x_index + 7) * 14 + 14) by (nonlinear_arith);
        }
        x_index = x_index + 1;
    }

    // Large feature spheres: glass, a hollow glass shell, diffuse, metal.
    let material_glass = Material::Dielectric(Dielectric::new(42281));
    world.add(Sphere::new(Point3::new(524288, 65536, 0), 65536, material_glass));
    let material_bubble = Material::Dielectric(Dielectric::new(101581));
    world.add(Sphere::new(Point3::new(0, 65536, 0), 65536, material_bubble));
    let material_lambertian = Material::Lambertian(Lambertian::new(
        Color::new(26214, 13107, 6554)));
    world.add(Sphere::new(Point3::new(-262144, 65536, 0), 65536, material_lambertian));
    let material_metal = Material::Metal(Metal::new(
        Color::new(45875, 39322, 32768), 13107));
    world.add(Sphere::new(Point3::new(262144, 65536, 0), 65536, material_metal));
    proof {
        let base = callers.len() as int;
        let prefix = world.objects@.take(base + 197);
        assert(prefix.len() == base + 197);
        assert(forall|j: int| 0 <= j < base ==> prefix[j] == callers[j]);
        assert(prefix[base] == ground_sphere());
        assert(forall|i: int| 0 <= i < 196
            ==> #[trigger] prefix[base + 1 + i] == world.objects@[base + 1 + i]);
    }
}

} // verus!
