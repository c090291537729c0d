use sdf_csg::math::{run, Op, Vec3, VectorError};
use sdf_csg::scalar::Scalar;

fn s(x: f32) -> Scalar {
    Scalar::from_bits(x.to_bits())
}

fn f(x: Scalar) -> f32 {
    f32::from_bits(x.to_bits())
}

fn v(x: f32, y: f32, z: f32) -> Vec3 {
    Vec3::new(s(x), s(y), s(z))
}

fn floats(a: Vec3) -> (f32, f32, f32) {
    (f(a.x), f(a.y), f(a.z))
}

fn fpu(op: Op) -> Scalar {
    s(match op {
        Op::Add(a, b) => f(a) + f(b),
        Op::Sub(a, b) => f(a) - f(b),
        Op::Mul(a, b) => f(a) * f(b),
        Op::Div(a, b) => f(a) / f(b),
        Op::Sqrt(a) => f(a).sqrt(),
    })
}

#[test]
fn run_asks_the_arithmetic() {
    assert_eq!(f(run(&fpu, Op::Add(s(1.5), s(2.25)))), 3.75);
    assert_eq!(f(run(&fpu, Op::Sub(s(1.5), s(2.25)))), -0.75);
    assert_eq!(f(run(&fpu, Op::Mul(s(1.5), s(2.0)))), 3.0);
    assert_eq!(f(run(&fpu, Op::Div(s(1.0), s(4.0)))), 0.25);
    assert_eq!(f(run(&fpu, Op::Sqrt(s(9.0)))), 3.0);
}

#[test]
fn axes_and_origin() {
    assert_eq!(floats(Vec3::origin()), (0.0, 0.0, 0.0));
    assert_eq!(floats(Vec3::unit_x()), (1.0, 0.0, 0.0));
    assert_eq!(floats(Vec3::unit_y()), (0.0, 1.0, 0.0));
    assert_eq!(floats(Vec3::unit_z()), (0.0, 0.0, 1.0));
}

#[test]
fn unary_applies_to_each_component() {
    let r = v(1.0, 2.0, 3.0).unary(|a| s(f(a) * 10.0));
    assert_eq!(floats(r), (10.0, 20.0, 30.0));
}

#[test]
fn binary_applies_to_each_pair() {
    let r = v(1.0, 2.0, 3.0).binary(v(10.0, 20.0, 30.0), |a, b| s(f(b) - f(a)));
    assert_eq!(floats(r), (9.0, 18.0, 27.0));
}

#[test]
fn reduce_folds_from_the_last_component() {
    let r = v(1.0, 2.0, 3.0).reduce(|a, b| s(f(a) - f(b)));
    assert_eq!(f(r), 1.0 - (2.0 - 3.0));
    let r = v(2.0, 3.0, 4.0).reduce(|a, b| s(f(a) / f(b)));
    assert_eq!(f(r), 2.0 / (3.0 / 4.0));
}

#[test]
fn neg_flips_every_sign() {
    let r = v(1.0, -2.0, 0.0).neg();
    assert_eq!(floats(r), (-1.0, 2.0, 0.0));
    assert_eq!(r.z.to_bits(), 0x8000_0000);
}

#[test]
fn plus_minus_times_over() {
    assert_eq!(floats(v(1.0, 2.0, 3.0).plus(v(0.5, 0.25, -3.0), &fpu)), (1.5, 2.25, 0.0));
    assert_eq!(floats(v(1.0, 2.0, 3.0).minus(v(0.5, 0.25, -3.0), &fpu)), (0.5, 1.75, 6.0));
    assert_eq!(floats(v(1.0, 2.0, 3.0).times(s(2.0), &fpu)), (2.0, 4.0, 6.0));
    assert_eq!(floats(v(1.0, 2.0, 3.0).over(s(2.0), &fpu)), (0.5, 1.0, 1.5));
}

#[test]
fn dot_is_the_sum_of_the_products() {
    assert_eq!(f(v(1.0, 2.0, 3.0).dot(v(4.0, 5.0, 6.0), &fpu)), 32.0);
    assert_eq!(f(v(1.0, 0.0, 0.0).dot(v(0.0, 1.0, 0.0), &fpu)), 0.0);
}

#[test]
fn dot_sums_from_the_last_component() {
    let a = v(1.0e8, 1.0, -1.0e8);
    let b = v(1.0, 1.0, 1.0);
    let want = 1.0e8f32 + (1.0f32 + -1.0e8f32);
    assert_eq!(f(a.dot(b, &fpu)), want);
    assert_eq!(want, 0.0);
}

#[test]
fn length_is_the_root_of_the_dot_product() {
    assert_eq!(f(v(3.0, 4.0, 0.0).length(&fpu)), 5.0);
    assert_eq!(f(v(0.0, 0.0, 0.0).length(&fpu)), 0.0);
    assert_eq!(f(v(1.0, 2.0, 2.0).length(&fpu)), 3.0);
}

#[test]
fn normalized_divides_by_the_length() {
    let r = v(3.0, 4.0, 0.0).normalized(&fpu).unwrap();
    assert_eq!(floats(r), (3.0 / 5.0, 4.0 / 5.0, 0.0));
    let r = v(0.0, 0.0, -2.0).normalized(&fpu).unwrap();
    assert_eq!(floats(r), (0.0, 0.0, -1.0));
}

#[test]
fn normalized_rejects_a_vector_without_direction() {
    assert_eq!(v(0.0, 0.0, 0.0).normalized(&fpu).unwrap_err(), VectorError::Degenerate);
    assert_eq!(v(-0.0, 0.0, -0.0).normalized(&fpu).unwrap_err(), VectorError::Degenerate);
    assert_eq!(v(f32::NAN, 0.0, 1.0).normalized(&fpu).unwrap_err(), VectorError::Degenerate);
    assert!(v(f32::INFINITY, 0.0, 1.0).normalized(&fpu).is_ok());
}

#[test]
fn vectors_are_equal_as_numbers() {
    assert!(v(0.0, 1.0, 2.0) == v(-0.0, 1.0, 2.0));
    assert!(v(0.0, 1.0, 2.0) != v(0.0, 1.0, 2.5));
    assert!(v(f32::NAN, 1.0, 2.0) != v(f32::NAN, 1.0, 2.0));
}

#[test]
fn the_machine_makes_the_same_value_of_the_two_zeros() {
    let values = [0.0f32, -0.0, 1.0, -2.5, f32::INFINITY, f32::NEG_INFINITY, 1.0e-45];
    for x in values {
        for (a, b) in [(0.0f32, -0.0f32), (-0.0, 0.0)] {
            for (left, right) in [
                (Op::Add(s(x), s(a)), Op::Add(s(x), s(b))),
                (Op::Add(s(a), s(x)), Op::Add(s(b), s(x))),
                (Op::Sub(s(x), s(a)), Op::Sub(s(x), s(b))),
                (Op::Sub(s(a), s(x)), Op::Sub(s(b), s(x))),
                (Op::Mul(s(x), s(a)), Op::Mul(s(x), s(b))),
                (Op::Mul(s(a), s(x)), Op::Mul(s(b), s(x))),
                (Op::Sqrt(s(a)), Op::Sqrt(s(b))),
            ] {
                let l = f(run(&fpu, left));
                let r = f(run(&fpu, right));
                assert!(l == r || (l.is_nan() && r.is_nan()), "{left:?} {right:?}");
            }
        }
    }
}
