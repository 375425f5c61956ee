use fps_controller::fixed::Fixed;
use fps_controller::vector::{Mat3, Quat, Vec3};

fn raw(raw: i64) -> Fixed {
    Fixed { raw }
}

fn fx(value: f64) -> Fixed {
    Fixed { raw: (value * 4294967296.0).round() as i64 }
}

fn v(x: f64, y: f64, z: f64) -> Vec3 {
    Vec3 { x: fx(x), y: fx(y), z: fx(z) }
}

fn to_f64(value: Fixed) -> f64 {
    value.raw as f64 / 4294967296.0
}

#[test]
fn vector_constants() {
    assert_eq!(Vec3::zero(), v(0.0, 0.0, 0.0));
    assert_eq!(Vec3::up(), v(0.0, 1.0, 0.0));
    assert_eq!(Vec3::new(fx(1.0), fx(2.0), fx(3.0)), v(1.0, 2.0, 3.0));
}

#[test]
fn vector_sum_difference_and_negation() {
    assert_eq!(v(1.0, 2.0, 3.0).add(v(0.5, -2.0, 10.0)), v(1.5, 0.0, 13.0));
    assert_eq!(v(1.0, 2.0, 3.0).sub(v(0.5, -2.0, 10.0)), v(0.5, 4.0, -7.0));
    assert_eq!(v(1.0, -2.0, 0.0).neg(), v(-1.0, 2.0, 0.0));
}

#[test]
fn vector_scale_and_unscale() {
    assert_eq!(v(1.0, -2.0, 3.0).scale(fx(2.5)), v(2.5, -5.0, 7.5));
    assert_eq!(v(2.5, -5.0, 7.5).unscale(fx(2.5)), v(1.0, -2.0, 3.0));
    assert_eq!(v(1.0, 2.0, 3.0).mul_components(v(30.0, 0.0, -2.0)), v(30.0, 0.0, -6.0));
}

#[test]
fn dot_product_sums_the_component_products() {
    assert_eq!(v(1.0, 2.0, 3.0).dot(v(4.0, -5.0, 6.0)), fx(12.0));
    assert_eq!(v(1.0, 0.0, 0.0).dot(v(0.0, 1.0, 0.0)), fx(0.0));
    assert_eq!(v(3.0, 7.5, -2.0).dot(Vec3::up()), fx(7.5));
}

#[test]
fn cross_product_follows_the_right_hand() {
    assert_eq!(v(1.0, 0.0, 0.0).cross(v(0.0, 1.0, 0.0)), v(0.0, 0.0, 1.0));
    assert_eq!(v(0.0, 1.0, 0.0).cross(v(1.0, 0.0, 0.0)), v(0.0, 0.0, -1.0));
    assert_eq!(v(0.0, 1.0, 0.0).cross(v(0.0, 0.0, 1.0)), v(1.0, 0.0, 0.0));
    assert_eq!(v(1.0, 2.0, 3.0).cross(v(4.0, 5.0, 6.0)), v(-3.0, 6.0, -3.0));
}

#[test]
fn length_of_a_three_four_five_triangle() {
    assert_eq!(v(3.0, 4.0, 0.0).length(), fx(5.0));
    assert_eq!(v(0.0, -3.0, 4.0).length(), fx(5.0));
    assert_eq!(v(2.0, 3.0, 6.0).length(), fx(7.0));
    assert_eq!(Vec3::zero().length(), fx(0.0));
}

#[test]
fn length_rounds_down() {
    // The root of two in raw units is 6074000999.95...
    assert_eq!(v(1.0, 1.0, 0.0).length(), raw(6074000999));
    assert_eq!(Vec3 { x: raw(1), y: raw(1), z: raw(0) }.length(), raw(1));
    assert_eq!(Vec3 { x: raw(1), y: raw(1), z: raw(1) }.length(), raw(1));
    assert_eq!(Vec3 { x: raw(2), y: raw(2), z: raw(1) }.length(), raw(3));
}

#[test]
fn length_saturates_for_the_largest_vectors() {
    let big = Vec3 { x: raw(i64::MAX), y: raw(i64::MIN), z: raw(i64::MAX) };
    assert_eq!(big.length(), raw(i64::MAX));
    assert_eq!(big.lateral_length(), raw(i64::MAX));
    let axis = Vec3 { x: raw(i64::MAX), y: raw(0), z: raw(0) };
    assert_eq!(axis.length(), raw(i64::MAX));
    let smallest = Vec3 { x: raw(i64::MIN), y: raw(0), z: raw(0) };
    assert_eq!(smallest.length(), raw(i64::MAX));
}

#[test]
fn lateral_length_ignores_the_vertical() {
    assert_eq!(v(3.0, 100.0, 4.0).lateral_length(), fx(5.0));
    assert_eq!(v(0.0, -9.0, 0.0).lateral_length(), fx(0.0));
    assert_eq!(v(-6.0, 1.0, 8.0).lateral_length(), fx(10.0));
}

#[test]
fn normalize_or_zero_of_an_axis_is_the_axis() {
    assert_eq!(v(0.0, 0.0, -5.0).normalize_or_zero(), v(0.0, 0.0, -1.0));
    assert_eq!(v(0.25, 0.0, 0.0).normalize_or_zero(), v(1.0, 0.0, 0.0));
    // Three and four fifths, rounded toward zero.
    assert_eq!(
        v(3.0, 4.0, 0.0).normalize_or_zero(),
        Vec3 { x: raw(2576980377), y: raw(3435973836), z: raw(0) }
    );
    assert_eq!(
        v(-3.0, 0.0, -4.0).normalize_or_zero(),
        Vec3 { x: raw(-2576980377), y: raw(0), z: raw(-3435973836) }
    );
}

#[test]
fn normalize_or_zero_of_nothing_is_nothing() {
    assert_eq!(Vec3::zero().normalize_or_zero(), Vec3::zero());
}

#[test]
fn matrix_times_vector_weighs_the_columns() {
    let m = Mat3 { x_axis: v(1.0, 2.0, 3.0), y_axis: v(4.0, 5.0, 6.0), z_axis: v(7.0, 8.0, 9.0) };
    assert_eq!(m.mul_vec3(v(1.0, 0.0, 0.0)), v(1.0, 2.0, 3.0));
    assert_eq!(m.mul_vec3(v(0.0, 1.0, 0.0)), v(4.0, 5.0, 6.0));
    assert_eq!(m.mul_vec3(v(0.0, 0.0, 1.0)), v(7.0, 8.0, 9.0));
    assert_eq!(m.mul_vec3(v(1.0, -1.0, 0.5)), v(0.5, 1.0, 1.5));
}

#[test]
fn identity_rotation_leaves_vectors_in_place() {
    let q = Quat::identity();
    assert_eq!(q, Quat { x: fx(0.0), y: fx(0.0), z: fx(0.0), w: fx(1.0) });
    assert_eq!(q.rotate(v(1.0, -2.0, 3.5)), v(1.0, -2.0, 3.5));
    assert_eq!(q.axis_part(), Vec3::zero());
}

#[test]
fn half_turn_about_the_vertical_reverses_the_horizontal() {
    let q = Quat { x: fx(0.0), y: fx(1.0), z: fx(0.0), w: fx(0.0) };
    assert_eq!(q.rotate(v(1.0, 0.0, 0.0)), v(-1.0, 0.0, 0.0));
    assert_eq!(q.rotate(v(0.0, 1.0, 0.0)), v(0.0, 1.0, 0.0));
    assert_eq!(q.rotate(v(0.0, 0.0, 1.0)), v(0.0, 0.0, -1.0));
}

#[test]
fn quarter_turn_about_x_tips_up_into_forward() {
    let h = std::f64::consts::FRAC_1_SQRT_2;
    let q = Quat { x: fx(h), y: fx(0.0), z: fx(0.0), w: fx(h) };
    let turned = q.rotate(v(0.0, 1.0, 0.0));
    assert!(to_f64(turned.x).abs() < 1e-8);
    assert!(to_f64(turned.y).abs() < 1e-8);
    assert!((to_f64(turned.z) - 1.0).abs() < 1e-8);
}
