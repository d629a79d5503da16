use ray_tracer::fixed::SCALE;
use ray_tracer::vector3::{Cross, Vector3};

fn val(raw: i64) -> f64 {
    raw as f64 / 65536.0
}

#[test]
fn length_squared_test() {
    let vec_test = Vector3::new(1 * SCALE, 2 * SCALE, 3 * SCALE);
    assert_eq!(vec_test.length_squared(), 14 * SCALE);
}

#[test]
fn vector3_tests_cross_product_test() {
    let lhs_vec = Vector3::new(5 * SCALE, 7 * SCALE, 1 * SCALE);
    let rhs_vec = Vector3::new(4 * SCALE, 4 * SCALE, 3 * SCALE);
    let cross_prod_vec = lhs_vec.cross_prod(rhs_vec);

    assert_eq!(cross_prod_vec.get_x(), 17 * SCALE);
    assert_eq!(cross_prod_vec.get_y(), -11 * SCALE);
    assert_eq!(cross_prod_vec.get_z(), -8 * SCALE);
}

#[test]
fn dot_product_test() {
    let lhs_vec = Vector3::new(5 * SCALE, 7 * SCALE, 1 * SCALE);
    let rhs_vec = Vector3::new(4 * SCALE, 4 * SCALE, 3 * SCALE);
    let dot_prod = lhs_vec.dot_prod(rhs_vec);

    assert_eq!(dot_prod, 51 * SCALE);
}

#[test]
fn reflection_test() {
    let ray_vec = Vector3::new(5 * SCALE, 7 * SCALE, 1 * SCALE);
    let normal_vec = Vector3::new(1 * SCALE, 1 * SCALE, 1 * SCALE);
    let reflected_ray = ray_vec.reflection(&normal_vec);

    assert_eq!(reflected_ray.get_x(), -21 * SCALE);
    assert_eq!(reflected_ray.get_y(), -19 * SCALE);
    assert_eq!(reflected_ray.get_z(), -25 * SCALE);
}

#[test]
fn refraction_high_refractiveindex_test() {
    let ray_vec = Vector3::new(5 * SCALE, 7 * SCALE, 1 * SCALE);
    let normal_vec = Vector3::new(1 * SCALE, 1 * SCALE, 1 * SCALE);
    let ratio_refractive_index = 2 * SCALE;
    let refracted_ray = ray_vec.refraction(&normal_vec, ratio_refractive_index);

    assert_eq!(val(refracted_ray.get_x()).trunc(), -47.0);
    assert_eq!(val(refracted_ray.get_y()).trunc(), -43.0);
    assert_eq!(val(refracted_ray.get_z()).trunc(), -55.0);
}

#[test]
fn refraction_low_refractiveindex_test() {
    let ray_vec = Vector3::new(5 * SCALE, 7 * SCALE, 1 * SCALE);
    let normal_vec = Vector3::new(1 * SCALE, 1 * SCALE, 1 * SCALE);
    let ratio_refractive_index = SCALE / 2;
    let refracted_ray = ray_vec.refraction(&normal_vec, ratio_refractive_index);

    assert_eq!(val(refracted_ray.get_x()).trunc(), -11.0);
    assert_eq!(val(refracted_ray.get_y()).trunc(), -10.0);
    assert_eq!(val(refracted_ray.get_z()).trunc(), -13.0);
}

#[test]
fn reflection_preserves_length_of_unit_incident() {
    // reflecting (0.6, 0.8, 0) about the unit normal (0, 1, 0) gives
    // (0.6, -0.8, 0): the exact mirror image, with the same length
    let v = Vector3::new(39322, 52429, 0);
    let n = Vector3::new(0, SCALE, 0);
    let r = v.reflection(&n);
    assert_eq!(r.get_x(), 39322);
    assert_eq!(r.get_y(), -52429);
    assert_eq!(r.get_z(), 0);
    assert_eq!(r.length_squared(), v.length_squared());
}

#[test]
fn unit_vector_is_unit_length() {
    let v = Vector3::new(3 * SCALE, 4 * SCALE, 0);
    let u = v.unit_vector();
    assert_eq!(u.get_x(), 39321);
    assert_eq!(u.get_y(), 52428);
    assert_eq!(u.get_z(), 0);
    // |u|^2 is one to within the grid's resolution
    let ls = u.length_squared();
    assert!((SCALE - 3..=SCALE).contains(&ls));
}

#[test]
fn near_zero_is_exact() {
    assert!(Vector3::new(0, 0, 0).near_zero());
    assert!(!Vector3::new(1, 0, 0).near_zero());
    assert!(!Vector3::new(0, 0, -1).near_zero());
}
