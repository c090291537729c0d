use sdf_csg::gpu::GpuDistance;
use sdf_csg::math::{Op, Vec3};
use sdf_csg::node::{Color, Distance, Material};
use sdf_csg::scalar::Scalar;
use sdf_csg::sdf::Sdf;

fn s(x: f32) -> Scalar {
    Scalar::from_bits(x.to_bits())
}

fn f(x: Scalar) -> f32 {
    f32::from_bits(x.to_bits())
}

fn v(a: [f32; 3]) -> Vec3 {
    Vec3::new(s(a[0]), s(a[1]), s(a[2]))
}

fn fpu(op: Op) -> Scalar {
    s(match op {
        Op::Add(a, b) => f(a) + f(b),
        Op::Sub(a, b) => f(a) - f(b),
        Op::Mul(a, b) => f(a) * f(b),
        Op::Div(a, b) => f(a) / f(b),
        Op::Sqrt(a) => f(a).sqrt(),
    })
}

/// A shape as a tree, beside the graph that is built from it.
enum Shape {
    Sphere([f32; 3], f32, usize),
    Plane([f32; 3], f32, usize),
    Join(u8, Box<Shape>, Box<Shape>),
}

struct Numbers(u64);

impl Numbers {
    fn next(&mut self, below: usize) -> usize {
        self.0 = self.0.wrapping_mul(6364136223846793005).wrapping_add(1442695040888963407);
        ((self.0 >> 33) as usize) % below
    }

    fn pick(&mut self, from: &[f32]) -> f32 {
        from[self.next(from.len())]
    }

    fn shape(&mut self, depth: usize) -> Shape {
        let coordinates = [0.0, 1.0, -1.0, 2.0, 0.5];
        if depth == 0 || self.next(4) == 0 {
            if self.next(3) == 0 {
                let normals =
                    [[1.0, 0.0, 0.0], [0.0, 1.0, 0.0], [0.0, 0.0, -1.0], [-0.0, 1.0, 0.0]];
                let normal = normals[self.next(normals.len())];
                Shape::Plane(normal, self.pick(&[0.0, -0.0, 1.0, -2.0]), self.next(3))
            } else {
                let center = [
                    self.pick(&coordinates),
                    self.pick(&coordinates),
                    self.pick(&coordinates),
                ];
                Shape::Sphere(center, self.pick(&[1.0, 2.0, 0.0, -0.0, 0.25]), self.next(3))
            }
        } else {
            let kind = self.next(4) as u8;
            let left = self.shape(depth - 1);
            let right = self.shape(depth - 1);
            Shape::Join(kind, Box::new(left), Box::new(right))
        }
    }

    fn point(&mut self) -> [f32; 3] {
        let coordinates = [0.0, -0.0, 1.0, -1.0, 3.0, 0.75, -2.5];
        [self.pick(&coordinates), self.pick(&coordinates), self.pick(&coordinates)]
    }
}

fn material(i: usize) -> Material {
    let channels = [[1.0, 0.0, 0.0], [0.0, 1.0, 0.0], [-0.0, 1.0, 0.0]];
    let c = channels[i];
    Material::Flat(Color { r: s(c[0]), g: s(c[1]), b: s(c[2]) })
}

fn join(kind: u8, a: Sdf, b: Sdf) -> Sdf {
    assert!(a.joins(&b));
    match kind {
        0 => a.union(b),
        1 => a.intersect(b),
        2 => a.exclude(b),
        _ => a.subtract(b),
    }
}

fn build(shape: &Shape) -> Sdf {
    match shape {
        Shape::Sphere(center, radius, m) => {
            Sdf::sphere(s(*radius), material(*m)).translate(v(*center), &fpu)
        }
        Shape::Plane(normal, offset, m) => Sdf::plane(v(*normal), s(*offset), material(*m)),
        Shape::Join(kind, a, b) => join(*kind, build(a), build(b)),
    }
}

fn combine(kind: u8, a: f32, b: f32) -> f32 {
    match kind {
        0 => a.min(b),
        1 => a.max(b),
        2 => a.min(b).max(-(a.max(b))),
        _ => (-a).max(b),
    }
}

fn distance(shape: &Shape, p: [f32; 3]) -> f32 {
    match shape {
        Shape::Sphere(c, r, _) => {
            let d = [p[0] - (0.0 + c[0]), p[1] - (0.0 + c[1]), p[2] - (0.0 + c[2])];
            (d[0] * d[0] + (d[1] * d[1] + d[2] * d[2])).sqrt() - r
        }
        Shape::Plane(n, o, _) => (p[0] * n[0] + (p[1] * n[1] + p[2] * n[2])) - o,
        Shape::Join(kind, a, b) => combine(*kind, distance(a, p), distance(b, p)),
    }
}

fn same(a: f32, b: f32) -> bool {
    a == b || (a.is_nan() && b.is_nan())
}

fn key(d: Distance) -> (u8, [u32; 4], usize, usize) {
    match d {
        Distance::Sphere { center, radius, material } => {
            (0, [center.x.bits, center.y.bits, center.z.bits, radius.bits], material, 0)
        }
        Distance::Plane { normal, offset, material } => {
            (1, [normal.x.bits, normal.y.bits, normal.z.bits, offset.bits], material, 0)
        }
        Distance::Union(x, y) => (2, [0; 4], x, y),
        Distance::Intersection(x, y) => (3, [0; 4], x, y),
        Distance::Exclusion(x, y) => (4, [0; 4], x, y),
        Distance::Subtraction(x, y) => (5, [0; 4], x, y),
    }
}

fn nodes(g: &Sdf) -> Vec<Distance> {
    (0..g.node_count()).map(|i| g.node(i).unwrap()).collect()
}

fn keys(g: &Sdf) -> Vec<(u8, [u32; 4], usize, usize)> {
    nodes(g).into_iter().map(key).collect()
}

fn colors(g: &Sdf) -> Vec<[u32; 3]> {
    (0..g.material_count())
        .map(|i| match g.material(i).unwrap() {
            Material::Flat(c) => [c.r.bits, c.g.bits, c.b.bits],
        })
        .collect()
}

fn operands(d: Distance) -> Option<(usize, usize)> {
    match d {
        Distance::Union(x, y)
        | Distance::Intersection(x, y)
        | Distance::Exclusion(x, y)
        | Distance::Subtraction(x, y) => Some((x, y)),
        _ => None,
    }
}

#[test]
fn graphs_are_well_formed() {
    let mut numbers = Numbers(1);
    for _ in 0..200 {
        let g = build(&numbers.shape(4));
        let all = nodes(&g);
        assert!(!all.is_empty());
        for (i, d) in all.iter().enumerate() {
            match *d {
                Distance::Sphere { material, .. } | Distance::Plane { material, .. } => {
                    assert!(material < g.material_count());
                }
                _ => {
                    let (x, y) = operands(*d).unwrap();
                    assert!(x < i && y < i);
                }
            }
            if i + 1 < all.len() {
                let used = all[i + 1..]
                    .iter()
                    .any(|later| operands(*later).is_some_and(|(x, y)| x == i || y == i));
                assert!(used, "node {i} is not part of the shape");
            }
        }
    }
}

#[test]
fn joined_graphs_hold_no_two_equal_entries() {
    let mut numbers = Numbers(2);
    for _ in 0..200 {
        let shape = numbers.shape(4);
        if let Shape::Join(..) = shape {
            let g = build(&shape);
            let all = nodes(&g);
            for i in 0..all.len() {
                for j in 0..i {
                    assert!(all[j] != all[i]);
                }
            }
            for i in 0..g.material_count() {
                for j in 0..i {
                    assert!(g.material(j).unwrap() != g.material(i).unwrap());
                }
            }
        }
    }
}

#[test]
fn distance_is_that_of_the_tree() {
    let mut numbers = Numbers(3);
    for _ in 0..200 {
        let shape = numbers.shape(4);
        let g = build(&shape);
        for _ in 0..8 {
            let p = numbers.point();
            let got = f(g.distance(v(p), &fpu));
            let want = distance(&shape, p);
            assert!(same(got, want), "{got} {want}");
        }
    }
}

#[test]
fn simplify_changes_nothing_after_a_join() {
    let mut numbers = Numbers(4);
    for _ in 0..200 {
        let shape = numbers.shape(4);
        if let Shape::Join(..) = shape {
            let g = build(&shape);
            let before = (keys(&g), colors(&g));
            let once = g.simplify();
            assert_eq!((keys(&once), colors(&once)), before);
        }
    }
}

#[test]
fn simplify_keeps_the_distance_and_is_idempotent() {
    let mut numbers = Numbers(5);
    for _ in 0..100 {
        let shape = numbers.shape(3);
        let by = numbers.pick(&[1.0e30, -1.0e30, 3.0e38]);
        // far away, centers that were apart fall together
        let far = || build(&shape).translate(v([by, 0.0, 0.0]), &fpu);
        let once = far().simplify();
        assert!(once.node_count() <= far().node_count());
        assert!(once.material_count() <= far().material_count());
        for _ in 0..4 {
            let p = numbers.point();
            let p = [p[0] + by, p[1], p[2]];
            let got = f(once.distance(v(p), &fpu));
            let want = f(far().distance(v(p), &fpu));
            assert!(same(got, want), "{got} {want}");
        }
        let first = (keys(&once), colors(&once));
        let twice = once.simplify();
        assert_eq!((keys(&twice), colors(&twice)), first);
    }
}

#[test]
fn joins_combine_the_distances_of_their_operands() {
    let mut numbers = Numbers(6);
    for _ in 0..100 {
        let a = numbers.shape(3);
        let b = numbers.shape(3);
        for kind in 0..4u8 {
            let g = join(kind, build(&a), build(&b));
            let swapped = join(kind, build(&b), build(&a));
            for _ in 0..4 {
                let p = numbers.point();
                let da = f(build(&a).distance(v(p), &fpu));
                let db = f(build(&b).distance(v(p), &fpu));
                let got = f(g.distance(v(p), &fpu));
                assert!(same(got, combine(kind, da, db)));
                if kind == 0 || kind == 1 || kind == 2 {
                    assert!(same(got, f(swapped.distance(v(p), &fpu))));
                }
            }
        }
    }
}

#[test]
fn moving_by_whole_numbers_moves_the_field_exactly() {
    let mut numbers = Numbers(7);
    for _ in 0..100 {
        let shape = numbers.shape(3);
        let by = [
            numbers.pick(&[0.0, 1.0, -2.0, 4.0]),
            numbers.pick(&[0.0, 1.0, -2.0, 4.0]),
            numbers.pick(&[0.0, 1.0, -2.0, 4.0]),
        ];
        let moved = build(&shape).translate(v(by), &fpu);
        for _ in 0..4 {
            let p = numbers.point();
            let q = v(p).plus(v(by), &fpu);
            let there = f(moved.distance(q, &fpu));
            let here = f(build(&shape).distance(v(p), &fpu));
            assert!(same(there, here), "{there} {here}");
        }
    }
}

#[test]
fn records_and_bytes_are_read_back() {
    let mut numbers = Numbers(8);
    for _ in 0..100 {
        let g = build(&numbers.shape(4));
        let (distances, materials) = g.to_gpu_repr();
        let (distance_bytes, material_bytes) = g.to_wire();
        assert_eq!(distances.len(), g.node_count());
        assert_eq!(materials.len(), g.material_count());
        assert_eq!(distance_bytes.len(), 32 * g.node_count());
        assert_eq!(material_bytes.len(), 16 * g.material_count());
        for i in 0..g.node_count() {
            assert_eq!(key(distances[i].decode().unwrap()), key(g.node(i).unwrap()));
            let back = GpuDistance::read(&distance_bytes[32 * i..32 * i + 32]).unwrap();
            assert_eq!(key(back.decode().unwrap()), key(g.node(i).unwrap()));
            assert_eq!(back.padding, 0xDEAD_BEEF);
        }
    }
}
