use sdf_csg::eval::{MarchLimits, Raymarch, MAX_DIST_BITS, MAX_ITER, MIN_DIST_BITS};
use sdf_csg::math::{Op, Vec3, VectorError};
use sdf_csg::node::{Color, Material};
use sdf_csg::scalar::Scalar;
use sdf_csg::sdf::Sdf;

fn s(x: f32) -> Scalar {
    Scalar::from_bits(x.to_bits())
}

fn f(x: Scalar) -> f32 {
    f32::from_bits(x.to_bits())
}

fn v(x: f32, y: f32, z: f32) -> Vec3 {
    Vec3::new(s(x), s(y), s(z))
}

fn floats(a: Vec3) -> (f32, f32, f32) {
    (f(a.x), f(a.y), f(a.z))
}

fn fpu(op: Op) -> Scalar {
    s(match op {
        Op::Add(a, b) => f(a) + f(b),
        Op::Sub(a, b) => f(a) - f(b),
        Op::Mul(a, b) => f(a) * f(b),
        Op::Div(a, b) => f(a) / f(b),
        Op::Sqrt(a) => f(a).sqrt(),
    })
}

fn red() -> Material {
    Material::Flat(Color { r: s(1.0), g: s(0.0), b: s(0.0) })
}

fn green() -> Material {
    Material::Flat(Color { r: s(0.0), g: s(1.0), b: s(0.0) })
}

fn ball(r: f32, x: f32, y: f32, z: f32) -> Sdf {
    Sdf::sphere(s(r), red()).translate(v(x, y, z), &fpu)
}

fn two_spheres() -> Sdf {
    Sdf::sphere(s(1.0), red()).union(Sdf::sphere(s(1.0), red()).translate(v(1.0, 0.0, 0.0), &fpu))
}

fn points() -> Vec<Vec3> {
    vec![
        v(0.0, 0.0, 0.0),
        v(2.0, 0.0, 0.0),
        v(0.5, 0.25, -0.125),
        v(-3.0, 4.0, 1.0),
        v(1.0, 1.0, 1.0),
        v(0.0, -7.5, 2.0),
        v(10.0, 10.0, 10.0),
    ]
}

#[test]
fn sphere_distance_at_origin_and_outside() {
    let sphere = Sdf::sphere(s(1.0), red());
    assert_eq!(f(sphere.distance(v(0.0, 0.0, 0.0), &fpu)), -1.0);
    assert_eq!(f(sphere.distance(v(2.0, 0.0, 0.0), &fpu)), 1.0);
}

#[test]
fn sphere_distance_is_length_less_radius() {
    let sphere = ball(2.0, 1.0, 1.0, 1.0);
    assert_eq!(f(sphere.distance(v(4.0, 5.0, 1.0), &fpu)), 3.0);
    assert_eq!(f(sphere.distance(v(1.0, 1.0, 1.0), &fpu)), -2.0);
}

#[test]
fn plane_distance_is_dot_less_offset() {
    let plane = Sdf::plane(v(0.0, 1.0, 0.0), s(2.0), red());
    assert_eq!(f(plane.distance(v(0.0, 5.0, 0.0), &fpu)), 3.0);
    assert_eq!(f(plane.distance(v(9.0, 2.0, -4.0), &fpu)), 0.0);
    assert_eq!(f(plane.distance(v(9.0, -1.0, -4.0), &fpu)), -3.0);
}

#[test]
fn union_is_the_minimum() {
    let g = ball(1.0, 0.0, 0.0, 0.0).union(ball(1.0, 4.0, 0.0, 0.0));
    assert_eq!(f(g.distance(v(0.0, 0.0, 0.0), &fpu)), -1.0);
    assert_eq!(f(g.distance(v(4.0, 0.0, 0.0), &fpu)), -1.0);
    assert_eq!(f(g.distance(v(2.0, 0.0, 0.0), &fpu)), 1.0);
    assert_eq!(f(g.distance(v(7.0, 0.0, 0.0), &fpu)), 2.0);
}

#[test]
fn intersection_is_the_maximum() {
    let g = ball(2.0, 0.0, 0.0, 0.0).intersect(ball(2.0, 2.0, 0.0, 0.0));
    assert_eq!(f(g.distance(v(1.0, 0.0, 0.0), &fpu)), -1.0);
    assert_eq!(f(g.distance(v(0.0, 0.0, 0.0), &fpu)), 0.0);
    assert_eq!(f(g.distance(v(-1.0, 0.0, 0.0), &fpu)), 1.0);
    assert_eq!(f(g.distance(v(5.0, 0.0, 0.0), &fpu)), 3.0);
}

#[test]
fn exclusion_is_inside_exactly_one() {
    let g = ball(2.0, 0.0, 0.0, 0.0).exclude(ball(2.0, 2.0, 0.0, 0.0));
    // a = 1 - 2 = -1 and b = 1 - 2 = -1: inside both, so outside the exclusion
    assert_eq!(f(g.distance(v(1.0, 0.0, 0.0), &fpu)), 1.0);
    // a = -1.5, b = 0.5: max(min, -max) = max(-1.5, -0.5)
    assert_eq!(f(g.distance(v(-0.5, 0.0, 0.0), &fpu)), -0.5);
    // a = 3, b = 1: max(1, -3)
    assert_eq!(f(g.distance(v(5.0, 0.0, 0.0), &fpu)), 1.0);
}

#[test]
fn subtraction_is_the_maximum_of_the_negated_first_and_the_second() {
    let g = ball(1.0, 0.0, 0.0, 0.0).subtract(ball(3.0, 0.0, 0.0, 0.0));
    // a = -1, b = -3: max(1, -3)
    assert_eq!(f(g.distance(v(0.0, 0.0, 0.0), &fpu)), 1.0);
    // a = 1, b = -1: max(-1, -1)
    assert_eq!(f(g.distance(v(2.0, 0.0, 0.0), &fpu)), -1.0);
    // a = 4, b = 2: max(-4, 2)
    assert_eq!(f(g.distance(v(5.0, 0.0, 0.0), &fpu)), 2.0);
}

#[test]
fn subtraction_law_on_points() {
    let a = || ball(1.5, 0.5, 0.0, 0.0).union(Sdf::plane(v(0.0, 1.0, 0.0), s(-1.0), green()));
    let b = || ball(2.0, -0.5, 0.25, 0.0).intersect(ball(1.0, 0.0, 0.0, 0.5));
    let both = a().subtract(b());
    for p in points() {
        let want = (-f(a().distance(p, &fpu))).max(f(b().distance(p, &fpu)));
        assert_eq!(f(both.distance(p, &fpu)), want);
    }
}

#[test]
fn union_commutes_on_points() {
    let a = || ball(1.5, 0.5, 0.0, 0.0).subtract(Sdf::plane(v(0.0, 1.0, 0.0), s(-1.0), green()));
    let b = || ball(2.0, -0.5, 0.25, 0.0).intersect(ball(1.0, 0.0, 0.0, 0.5));
    let ab = a().union(b());
    let ba = b().union(a());
    for p in points() {
        assert_eq!(f(ab.distance(p, &fpu)), f(ba.distance(p, &fpu)));
        let want = f(a().distance(p, &fpu)).min(f(b().distance(p, &fpu)));
        assert_eq!(f(ab.distance(p, &fpu)), want);
    }
}

#[test]
fn exclusion_commutes_on_points() {
    let a = || ball(1.5, 0.5, 0.0, 0.0).union(ball(0.5, 3.0, 0.0, 0.0));
    let b = || ball(2.0, -0.5, 0.25, 0.0);
    let ab = a().exclude(b());
    let ba = b().exclude(a());
    for p in points() {
        assert_eq!(f(ab.distance(p, &fpu)), f(ba.distance(p, &fpu)));
    }
}

#[test]
fn folding_keeps_the_distance_on_points() {
    let pair = || ball(1.0, 0.0, 0.0, 0.0).union(ball(2.0, 3.0, 0.0, 0.0));
    let g = pair().intersect(pair().union(ball(2.0, 3.0, 0.0, 0.0)));
    assert_eq!(g.node_count(), 5);
    for p in points() {
        let a = f(pair().distance(p, &fpu));
        let b = a.min(f(ball(2.0, 3.0, 0.0, 0.0).distance(p, &fpu)));
        assert_eq!(f(g.distance(p, &fpu)), a.max(b));
    }
}

#[test]
fn translation_moves_the_field_with_the_shape() {
    let g = || {
        ball(1.0, 0.0, 0.0, 0.0)
            .union(Sdf::plane(v(0.0, 1.0, 0.0), s(-2.0), green()))
            .subtract(ball(3.0, 0.5, 0.5, 0.5))
    };
    let by = v(0.5, -1.25, 2.0);
    let moved = g().translate(by, &fpu);
    for p in points() {
        let there = moved.distance(p.plus(by, &fpu), &fpu);
        let here = g().distance(p, &fpu);
        assert!((f(there) - f(here)).abs() <= 1.0e-5, "{} {}", f(there), f(here));
    }
}

#[test]
fn evaluate_takes_the_distances_of_the_primitives() {
    let g = Sdf::sphere(s(1.0), red())
        .union(Sdf::sphere(s(2.0), red()))
        .subtract(Sdf::sphere(s(3.0), red()));
    // nodes: sphere, sphere, union(0, 1), sphere, subtraction(2, 3)
    assert_eq!(g.node_count(), 5);
    let leaves = vec![s(4.0), s(-2.5), s(99.0), s(1.0), s(99.0)];
    assert_eq!(f(g.evaluate(&leaves).unwrap()), 2.5);
    let leaves = vec![s(4.0), s(-2.5), s(99.0), s(7.0), s(99.0)];
    assert_eq!(f(g.evaluate(&leaves).unwrap()), 7.0);
}

#[test]
fn evaluate_wants_one_distance_for_each_node() {
    let g = Sdf::sphere(s(1.0), red()).union(Sdf::sphere(s(2.0), red()));
    assert!(g.evaluate(&vec![s(1.0), s(2.0)]).is_none());
    assert!(g.evaluate(&vec![]).is_none());
    assert!(g.evaluate(&vec![s(1.0), s(2.0), s(0.0), s(0.0)]).is_none());
    assert_eq!(f(g.evaluate(&vec![s(1.0), s(2.0), s(0.0)]).unwrap()), 1.0);
}

#[test]
fn evaluate_ignores_a_nan_operand() {
    let g = Sdf::sphere(s(1.0), red()).union(Sdf::sphere(s(2.0), red()));
    assert_eq!(f(g.evaluate(&vec![s(f32::NAN), s(2.0), s(0.0)]).unwrap()), 2.0);
    assert!(g.evaluate(&vec![s(f32::NAN), s(f32::NAN), s(0.0)]).unwrap().is_nan());
}

#[test]
fn sample_gives_zero_for_an_operation() {
    let g = ball(1.0, 0.0, 0.0, 0.0).union(ball(2.0, 3.0, 0.0, 0.0));
    let leaves = g.sample(v(3.0, 4.0, 0.0), &fpu);
    let got: Vec<f32> = leaves.iter().map(|x| f(*x)).collect();
    assert_eq!(got, vec![4.0, 2.0, 0.0]);
    assert_eq!(leaves[2].to_bits(), 0);
}

#[test]
fn standard_limits() {
    let limits = MarchLimits::standard();
    assert_eq!(f(limits.min_dist), 0.01);
    assert_eq!(f(limits.max_dist), 10.0);
    assert_eq!(limits.max_iter, 20);
    assert_eq!(f32::from_bits(MIN_DIST_BITS), 0.01);
    assert_eq!(f32::from_bits(MAX_DIST_BITS), 10.0);
    assert_eq!(MAX_ITER, 20);
}

#[test]
fn ray_hits_the_near_sphere() {
    let scene = two_spheres();
    let limits = MarchLimits::standard();
    let hit = scene.raymarch(v(0.0, 0.0, -5.0), v(0.0, 0.0, 1.0), &limits, &fpu).unwrap();
    match hit {
        Raymarch::Hit(p) => {
            assert_eq!(floats(p), (0.0, 0.0, -1.0));
            assert!((f(p.z) - -1.0).abs() <= 0.01);
        }
        other => panic!("{other:?}"),
    }
}

#[test]
fn ray_aimed_away_goes_too_far() {
    let scene = two_spheres();
    let limits = MarchLimits::standard();
    let end = scene.raymarch(v(0.0, 0.0, -5.0), v(0.0, 0.0, -1.0), &limits, &fpu).unwrap();
    assert!(matches!(end, Raymarch::WentTooFar));
}

#[test]
fn ray_along_a_plane_takes_too_long() {
    let floor = Sdf::plane(v(0.0, 1.0, 0.0), s(0.0), red());
    let limits = MarchLimits::standard();
    let end = floor.raymarch(v(0.0, 1.0, 0.0), v(1.0, 0.0, 0.0), &limits, &fpu).unwrap();
    assert!(matches!(end, Raymarch::TookTooLong));
}

#[test]
fn ray_without_steps_takes_too_long() {
    let scene = two_spheres();
    let limits = MarchLimits { min_dist: s(0.01), max_dist: s(10.0), max_iter: 0 };
    let end = scene.raymarch(v(0.0, 0.0, -1.0), v(0.0, 0.0, 1.0), &limits, &fpu).unwrap();
    assert!(matches!(end, Raymarch::TookTooLong));
}

#[test]
fn ray_direction_is_normalized_first() {
    let scene = two_spheres();
    let limits = MarchLimits::standard();
    let hit = scene.raymarch(v(0.0, 0.0, -5.0), v(0.0, 0.0, 8.0), &limits, &fpu).unwrap();
    match hit {
        Raymarch::Hit(p) => assert_eq!(floats(p), (0.0, 0.0, -1.0)),
        other => panic!("{other:?}"),
    }
}

#[test]
fn ray_without_direction_is_rejected() {
    let scene = two_spheres();
    let limits = MarchLimits::standard();
    let end = scene.raymarch(v(0.0, 0.0, -5.0), v(0.0, 0.0, 0.0), &limits, &fpu);
    assert_eq!(end.unwrap_err(), VectorError::Degenerate);
    let end = scene.raymarch(v(0.0, 0.0, -5.0), v(f32::NAN, 0.0, 1.0), &limits, &fpu);
    assert_eq!(end.unwrap_err(), VectorError::Degenerate);
}

#[test]
fn limits_decide_how_a_ray_ends() {
    let scene = two_spheres();
    // the first distance, 4, is over a maximum of 3
    let near = MarchLimits { min_dist: s(0.01), max_dist: s(3.0), max_iter: 20 };
    let end = scene.raymarch(v(0.0, 0.0, -5.0), v(0.0, 0.0, 1.0), &near, &fpu).unwrap();
    assert!(matches!(end, Raymarch::WentTooFar));
    // the first distance, 4, is under a minimum of 4.5
    let coarse = MarchLimits { min_dist: s(4.5), max_dist: s(10.0), max_iter: 20 };
    let end = scene.raymarch(v(0.0, 0.0, -5.0), v(0.0, 0.0, 1.0), &coarse, &fpu).unwrap();
    match end {
        Raymarch::Hit(p) => assert_eq!(floats(p), (0.0, 0.0, -5.0)),
        other => panic!("{other:?}"),
    }
    // one step is not enough to arrive
    let short = MarchLimits { min_dist: s(0.001), max_dist: s(100.0), max_iter: 1 };
    let end = scene.raymarch(v(0.0, 0.0, -5.0), v(0.0, 0.0, 1.0), &short, &fpu).unwrap();
    assert!(matches!(end, Raymarch::TookTooLong));
    let two = MarchLimits { min_dist: s(0.001), max_dist: s(100.0), max_iter: 2 };
    let end = scene.raymarch(v(0.0, 0.0, -5.0), v(0.0, 0.0, 1.0), &two, &fpu).unwrap();
    assert!(matches!(end, Raymarch::Hit(_)));
}

#[test]
fn a_distance_at_the_limit_does_not_end_the_ray() {
    // at distance exactly 10 the ray is neither under 0.01 nor over 10
    let sphere = Sdf::sphere(s(1.0), red());
    let limits = MarchLimits::standard();
    let end = sphere.raymarch(v(0.0, 0.0, -11.0), v(0.0, 0.0, 1.0), &limits, &fpu).unwrap();
    match end {
        Raymarch::Hit(p) => assert_eq!(floats(p), (0.0, 0.0, -1.0)),
        other => panic!("{other:?}"),
    }
}
