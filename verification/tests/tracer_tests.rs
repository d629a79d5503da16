use ray_tracer::camera::Camera;
use ray_tracer::color::Color;
use ray_tracer::fixed::SCALE;
use ray_tracer::geometry::{HittableObjects, Sphere};
use ray_tracer::hit_record::HitRecord;
use ray_tracer::interval::Interval;
use ray_tracer::material::{Dielectric, Lambertian, Material, Metal};
use ray_tracer::point::Point3;
use ray_tracer::random::RandomSource;
use ray_tracer::ray::Ray;
use ray_tracer::scenes;
use ray_tracer::vector3::Vector3;

fn gray() -> Material {
    Material::Lambertian(Lambertian::new(Color::new(SCALE / 2, SCALE / 2, SCALE / 2)))
}

#[test]
fn ray_at_sphere_center_hits_near_root_front_face() {
    // origin outside, direction straight at the center five units away
    let sphere = Sphere::new(Point3::new(0, 0, -5 * SCALE), SCALE, gray());
    let ray = Ray::new(Point3::new(0, 0, 0), Vector3::new(0, 0, -SCALE));
    let rec = sphere.hit(ray, Interval::new(65, i64::MAX)).expect("must hit");
    // the near root: t = 4, not the far root t = 6
    assert_eq!(rec.parameter, 4 * SCALE);
    assert!(rec.is_face_front);
    // front-face orientation: the normal faces against the incoming ray
    assert!(ray.get_direction().dot_prod(rec.normal) < 0);
    assert_eq!(rec.normal.get_z(), SCALE);
    assert_eq!(rec.point.get_z(), -4 * SCALE);
}

#[test]
fn ray_missing_sphere_reports_nothing() {
    // perpendicular offset three, radius one
    let sphere = Sphere::new(Point3::new(0, 3 * SCALE, -5 * SCALE), SCALE, gray());
    let ray = Ray::new(Point3::new(0, 0, 0), Vector3::new(0, 0, -SCALE));
    assert!(sphere.hit(ray, Interval::new(65, i64::MAX)).is_none());
}

#[test]
fn composite_hit_returns_closest_of_two() {
    let ray = Ray::new(Point3::new(0, 0, 0), Vector3::new(0, 0, -SCALE));
    let near = Sphere::new(Point3::new(0, 0, -5 * SCALE), SCALE, gray());
    let far = Sphere::new(Point3::new(0, 0, -8 * SCALE), SCALE, gray());

    let mut world = HittableObjects::new();
    world.add(near);
    world.add(far);
    let rec = world.hit(ray, Interval::new(65, i64::MAX)).expect("must hit");
    assert_eq!(rec.parameter, 4 * SCALE);

    // iteration order must not matter for the winner
    let mut world_swapped = HittableObjects::new();
    world_swapped.add(far);
    world_swapped.add(near);
    let rec = world_swapped.hit(ray, Interval::new(65, i64::MAX)).expect("must hit");
    assert_eq!(rec.parameter, 4 * SCALE);
}

#[test]
fn ray_color_depth_zero_is_black() {
    let mut world = HittableObjects::new();
    world.add(Sphere::new(Point3::new(0, 0, -5 * SCALE), SCALE, gray()));
    let ray = Ray::new(Point3::new(0, 0, 0), Vector3::new(0, 0, -SCALE));
    let mut rng = RandomSource::new_seeded(7);
    let c = Camera::ray_color(ray, 0, &world, &mut rng);
    assert_eq!(c.get_r(), 0);
    assert_eq!(c.get_g(), 0);
    assert_eq!(c.get_b(), 0);
}

#[test]
fn lambertian_scatter_never_returns_zero_direction() {
    let albedo = Color::new(SCALE / 2, SCALE / 2, SCALE / 2);
    let material = Lambertian::new(albedo);
    let record = HitRecord::new(
        Point3::new(0, 0, -4 * SCALE),
        Vector3::new(0, 0, SCALE),
        4 * SCALE,
        true,
        gray(),
    );
    let ray = Ray::new(Point3::new(0, 0, 0), Vector3::new(0, 0, -SCALE));
    let mut rng = RandomSource::new_seeded(99);
    for _ in 0..64 {
        let s = material.scatter(ray, &record, &mut rng).expect("always scatters");
        let d = s.scattered_ray.get_direction();
        assert!(!(d.get_x() == 0 && d.get_y() == 0 && d.get_z() == 0));
        assert_eq!(s.attenuation.get_r(), SCALE / 2);
        assert_eq!(s.scattered_ray.get_origin().get_z(), -4 * SCALE);
    }
}

#[test]
fn dielectric_unit_index_does_not_bend_normal_incidence() {
    let material = Dielectric::new(SCALE);
    let record = HitRecord::new(
        Point3::new(0, 0, -4 * SCALE),
        Vector3::new(0, 0, SCALE),
        4 * SCALE,
        true,
        gray(),
    );
    let ray = Ray::new(Point3::new(0, 0, 0), Vector3::new(0, 0, -SCALE));
    let mut rng = RandomSource::new_seeded(3);
    let s = material.scatter(ray, &record, &mut rng).expect("always scatters");
    let d = s.scattered_ray.get_direction();
    assert_eq!(d.get_x(), 0);
    assert_eq!(d.get_y(), 0);
    assert_eq!(d.get_z(), -SCALE);
    // clear glass: white attenuation
    assert_eq!(s.attenuation.get_r(), SCALE);
    assert_eq!(s.attenuation.get_g(), SCALE);
    assert_eq!(s.attenuation.get_b(), SCALE);
}

#[test]
fn metal_absorbs_grazing_reflection() {
    let material = Metal::new(Color::new(SCALE / 2, SCALE / 2, SCALE / 2), 0);
    let record = HitRecord::new(
        Point3::new(0, 0, 0),
        Vector3::new(0, 0, SCALE),
        SCALE,
        true,
        gray(),
    );
    let ray = Ray::new(Point3::new(-SCALE, 0, 0), Vector3::new(SCALE, 0, 0));
    let mut rng = RandomSource::new_seeded(5);
    assert!(material.scatter(ray, &record, &mut rng).is_none());
}

#[test]
fn camera_basis_for_canonical_configuration() {
    let mut cam = Camera::new();
    cam.aspect_ratio = SCALE;
    cam.image_width = 4;
    cam.samples_per_pixel = 1;
    cam.max_depth = 1;
    cam.vfov_half_tangent = SCALE; // ninety degrees
    cam.look_from = Point3::new(0, 0, 0);
    cam.look_at = Point3::new(0, 0, -SCALE);
    cam.vertical_camera_up = Vector3::new(0, SCALE, 0);
    assert!(cam.initialize());
    assert_eq!(cam.frame_basis.w.get_x(), 0);
    assert_eq!(cam.frame_basis.w.get_y(), 0);
    assert_eq!(cam.frame_basis.w.get_z(), SCALE);
    assert_eq!(cam.frame_basis.u.get_x(), SCALE);
    assert_eq!(cam.frame_basis.u.get_y(), 0);
    assert_eq!(cam.frame_basis.u.get_z(), 0);
    assert_eq!(cam.frame_basis.v.get_x(), 0);
    assert_eq!(cam.frame_basis.v.get_y(), SCALE);
    assert_eq!(cam.frame_basis.v.get_z(), 0);
    assert_eq!(cam.image_height, 4);
}

fn ground_camera() -> Camera {
    let mut cam = Camera::new();
    cam.aspect_ratio = SCALE;
    cam.image_width = 2;
    cam.samples_per_pixel = 1;
    cam.max_depth = 1;
    cam.vfov_half_tangent = SCALE;
    cam.look_from = Point3::new(0, 0, 0);
    cam.look_at = Point3::new(0, 0, -SCALE);
    cam.vertical_camera_up = Vector3::new(0, SCALE, 0);
    cam
}

fn ground_world() -> HittableObjects {
    let mut world = HittableObjects::new();
    // center (0, -100.5, -1), radius 100, Lambertian(0.5, 0.5, 0.5)
    world.add(Sphere::new(
        Point3::new(0, -100 * SCALE - SCALE / 2, -SCALE),
        100 * SCALE,
        gray(),
    ));
    world
}

#[test]
fn render_with_fixed_seed_is_bit_reproducible() {
    let mut cam_a = ground_camera();
    let world_a = ground_world();
    let mut rng_a = RandomSource::new_seeded(2024);
    let first = cam_a.render(&world_a, &mut rng_a);
    assert_eq!(first.len(), 4);

    let mut cam_b = ground_camera();
    let world_b = ground_world();
    let mut rng_b = RandomSource::new_seeded(2024);
    let second = cam_b.render(&world_b, &mut rng_b);
    assert_eq!(first, second);

    // a different sampling stream is allowed to differ, but stays the same size
    let mut cam_c = ground_camera();
    let world_c = ground_world();
    let mut rng_c = RandomSource::new_seeded(7);
    let third = cam_c.render(&world_c, &mut rng_c);
    assert_eq!(third.len(), 4);
}

#[test]
fn default_camera_initializes() {
    // the defaults carry a usable basis: up (0,1,0), ninety-degree view
    let mut cam = Camera::new();
    assert!(cam.initialize());
    assert_eq!(cam.image_height, 100);
}

#[test]
fn render_rejects_unusable_configuration() {
    // a zero up vector leaves no view basis to build
    let mut cam = ground_camera();
    cam.vertical_camera_up = Vector3::new(0, 0, 0);
    let world = ground_world();
    let mut rng = RandomSource::new_seeded(1);
    let pixels = cam.render(&world, &mut rng);
    assert_eq!(pixels.len(), 0);
}

#[test]
fn generated_scene_has_expected_population() {
    let mut world = HittableObjects::new();
    let mut rng = RandomSource::new_seeded(11);
    scenes::generate_scene(&mut world, &mut rng);
    assert_eq!(world.objects.len(), 201);
}

#[test]
fn color_scale_translation_clamps_byte_range() {
    assert_eq!(scenes::translate_color_to_scale(256 * SCALE), SCALE);
    assert_eq!(scenes::translate_color_to_scale(128 * SCALE), SCALE / 2);
    assert_eq!(scenes::translate_color_to_scale(0), 0);
    assert_eq!(scenes::translate_color_to_scale(-5 * SCALE), 0);
    assert_eq!(scenes::translate_color_to_scale(1000 * SCALE), SCALE);
}

#[test]
fn interval_containment() {
    let iv = Interval::new(-SCALE, SCALE);
    assert!(iv.contains(SCALE));
    assert!(iv.contains(-SCALE));
    assert!(!iv.inside(SCALE));
    assert!(iv.inside(0));
    assert!(!iv.contains(2 * SCALE));
    assert_eq!(iv.size(), 2 * SCALE);
}

#[test]
fn seeded_streams_are_identical() {
    let mut a = RandomSource::new_seeded(123);
    let mut b = RandomSource::new_seeded(123);
    for _ in 0..50 {
        assert_eq!(a.next_unit(), b.next_unit());
    }
    let mut c = RandomSource::new_seeded(123);
    let mut d = RandomSource::new_seeded(124);
    let drifted: Vec<i64> = (0..8).map(|_| c.next_unit()).collect();
    let other: Vec<i64> = (0..8).map(|_| d.next_unit()).collect();
    assert_ne!(drifted, other);
}

#[test]
fn random_draws_stay_in_range() {
    let mut seeded = RandomSource::new_seeded(13);
    let mut entropy = RandomSource::new_entropy();
    for _ in 0..200 {
        let a = seeded.next_unit();
        assert!((0..65536).contains(&a));
        let b = entropy.next_unit();
        assert!((0..65536).contains(&b));
        let c = seeded.next_range(-3 * SCALE, 3 * SCALE);
        assert!((-3 * SCALE..3 * SCALE).contains(&c));
    }
}

#[test]
fn square_root_is_exact_on_squares() {
    assert_eq!(ray_tracer::fixed::sqrt_fx(4 * SCALE), 2 * SCALE);
    assert_eq!(ray_tracer::fixed::sqrt_fx(9 * SCALE), 3 * SCALE);
    assert_eq!(ray_tracer::fixed::sqrt_fx(0), 0);
    assert_eq!(ray_tracer::fixed::sqrt_fx(SCALE / 4), SCALE / 2);
}

#[test]
fn schlick_reflectance_exact_values() {
    // at grazing incidence (cos = 0) the approximation reaches one exactly
    assert_eq!(Dielectric::reflectance(0, 98304), SCALE);
    // at normal incidence it is r0 = ((1 - 1.5) / (1 + 1.5))^2 = 0.04
    assert_eq!(Dielectric::reflectance(SCALE, 98304), 2621);
}

#[test]
fn background_gradient_exact_values() {
    let world = HittableObjects::new();
    let mut rng = RandomSource::new_seeded(1);
    // straight up: pure sky blue
    let up = Ray::new(Point3::new(0, 0, 0), Vector3::new(0, SCALE, 0));
    let c = Camera::ray_color(up, 1, &world, &mut rng);
    assert_eq!(c.get_r(), 32768);
    assert_eq!(c.get_g(), 45875);
    assert_eq!(c.get_b(), SCALE);
    // straight down: pure white
    let down = Ray::new(Point3::new(0, 0, 0), Vector3::new(0, -SCALE, 0));
    let c = Camera::ray_color(down, 1, &world, &mut rng);
    assert_eq!(c.get_r(), SCALE);
    assert_eq!(c.get_g(), SCALE);
    assert_eq!(c.get_b(), SCALE);
}
