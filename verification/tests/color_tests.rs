use ray_tracer::color::{Color, Cross};
use ray_tracer::fixed::SCALE;

#[test]
fn add_assign_test() {
    let mut color_test = Color::new(1 * SCALE, 2 * SCALE, 3 * SCALE);
    color_test.add_assign(Color::new(4 * SCALE, 0, 6 * SCALE));
    assert_eq!(color_test.get_r(), 5 * SCALE);
    assert_eq!(color_test.get_g(), 2 * SCALE);
    assert_eq!(color_test.get_b(), 9 * SCALE);
}

#[test]
fn multiply_assign_test() {
    let mut color_test = Color::new(10 * SCALE, 20 * SCALE, 30 * SCALE);
    color_test.mul_assign(Color::new(4 * SCALE, 0, 6 * SCALE));
    assert_eq!(color_test.get_r(), 40 * SCALE);
    assert_eq!(color_test.get_g(), 0);
    assert_eq!(color_test.get_b(), 180 * SCALE);
}

#[test]
fn color_tests_cross_product_test() {
    let lhs_color = Color::new(5 * SCALE, 7 * SCALE, 1 * SCALE);
    let rhs_color = Color::new(4 * SCALE, 4 * SCALE, 3 * SCALE);
    let cross_prod_col = lhs_color.cross_prod(rhs_color);

    assert_eq!(cross_prod_col.get_r(), 17 * SCALE);
    assert_eq!(cross_prod_col.get_g(), -11 * SCALE);
    assert_eq!(cross_prod_col.get_b(), -8 * SCALE);
}

#[test]
fn write_color_quantizes_and_tone_maps() {
    // full red stays 255, black stays 0, half green lands on the
    // square-root gamma curve: sqrt(0.5) ~ 0.7071 -> byte 181
    let mut c = Color::new(SCALE, 0, SCALE / 2);
    let (r, g, b) = c.write_color();
    assert_eq!(r, 255);
    assert_eq!(g, 0);
    assert_eq!(b, 181);
    // the gamma transform was applied in place
    assert_eq!(c.get_r(), SCALE);
    assert_eq!(c.get_g(), 0);
    assert_eq!(c.get_b(), 46340);
}

#[test]
fn write_color_clamps_overbright_channels() {
    let mut c = Color::new(4 * SCALE, -SCALE, SCALE);
    let (r, g, b) = c.write_color();
    assert_eq!(r, 255);
    assert_eq!(g, 0);
    assert_eq!(b, 255);
}
