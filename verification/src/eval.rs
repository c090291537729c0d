//! Evaluating a shape: its signed distance from a point, and the point at
//! which a ray meets it.
//!
//! The distance from a point to a primitive is rounding arithmetic, done by
//! the arithmetic that the caller hands in. The distance to an operation is the
//! minimum, the maximum or the negation of the distances to its operands,
//! which is exact and computed here.

use crate::graph::Graph;
use crate::math::{apply, is_arithmetic, run, Op, Vec3, VectorError};
use crate::node::Distance;
use crate::scalar::Scalar;
use crate::sdf::Sdf;
use vstd::prelude::*;

verus! {

/// Bit pattern of `0.01`, the distance under which a ray has hit.
pub const MIN_DIST_BITS: u32 = 0x3c23_d70a;

/// Bit pattern of `10.0`, the distance over which a ray has left the scene.
pub const MAX_DIST_BITS: u32 = 0x4120_0000;

/// The number of steps after which a ray is given up.
pub const MAX_ITER: usize = 20;

/// How a ray ended.
#[derive(Clone, Copy, Debug)]
pub enum Raymarch {
    /// The ray came close to the surface at this point.
    Hit(Vec3),
    /// The ray came to a point farther from the shape than the limit.
    WentTooFar,
    /// The ray did not end within the allowed number of steps.
    TookTooLong,
}

/// The limits of a ray march.
#[derive(Clone, Copy, Debug)]
pub struct MarchLimits {
    /// A point closer to the shape than this is on its surface.
    pub min_dist: Scalar,
    /// A point farther from the shape than this has left the scene.
    pub max_dist: Scalar,
    /// The number of steps that a ray may take.
    pub max_iter: usize,
}

impl MarchLimits {
    /// The limits `0.01`, `10.0` and 20 steps.
    pub open spec fn spec_standard() -> MarchLimits {
        MarchLimits {
            min_dist: Scalar { bits: MIN_DIST_BITS },
            max_dist: Scalar { bits: MAX_DIST_BITS },
            max_iter: MAX_ITER,
        }
    }

    /// The limits `0.01`, `10.0` and 20 steps.
    #[verifier::when_used_as_spec(spec_standard)]
    pub fn standard() -> (r: MarchLimits)
        ensures
            r == MarchLimits::spec_standard(),
    {
        MarchLimits {
            min_dist: Scalar { bits: MIN_DIST_BITS },
            max_dist: Scalar { bits: MAX_DIST_BITS },
            max_iter: MAX_ITER,
        }
    }
}

/// The distance of the symmetric difference, from the distances of its
/// operands: `max(min(a, b), -max(a, b))`.
pub open spec fn exclusion_of(a: Scalar, b: Scalar) -> Scalar {
    a.lesser(b).greater(a.greater(b).negated())
}

/// The distance of the difference, from the distances of its operands:
/// `max(-a, b)`.
pub open spec fn subtraction_of(a: Scalar, b: Scalar) -> Scalar {
    a.negated().greater(b)
}

impl Distance {
    /// The signed distance from `p` to a primitive: for a sphere the length
    /// of `p - center` less the radius, for a plane `dot(p, normal)` less the
    /// offset. An operation has none of its own, and zero stands for it.
    pub open spec fn primitive_distance<F: Fn(Op) -> Scalar>(self, p: Vec3, fpu: &F) -> Scalar {
        match self {
            Distance::Sphere { center, radius, .. } => apply(
                fpu,
                Op::Sub(p.difference(center, fpu).norm(fpu), radius),
            ),
            Distance::Plane { normal, offset, .. } => apply(
                fpu,
                Op::Sub(p.dot_product(normal, fpu), offset),
            ),
            _ => Scalar::zero(),
        }
    }
}

impl Graph {
    /// The signed distance at node `i`, given in `leaves` the distance of
    /// each primitive: a primitive has its own, an operation combines those
    /// of its operands.
    pub open spec fn value_at(self, leaves: Seq<Scalar>, i: int) -> Scalar
        decreases i,
    {
        match self.nodes[i] {
            Distance::Sphere { .. } | Distance::Plane { .. } => leaves[i],
            Distance::Union(x, y) => if x < i && y < i {
                self.value_at(leaves, x as int).lesser(self.value_at(leaves, y as int))
            } else {
                leaves[i]
            },
            Distance::Intersection(x, y) => if x < i && y < i {
                self.value_at(leaves, x as int).greater(self.value_at(leaves, y as int))
            } else {
                leaves[i]
            },
            Distance::Exclusion(x, y) => if x < i && y < i {
                exclusion_of(self.value_at(leaves, x as int), self.value_at(leaves, y as int))
            } else {
                leaves[i]
            },
            Distance::Subtraction(x, y) => if x < i && y < i {
                subtraction_of(self.value_at(leaves, x as int), self.value_at(leaves, y as int))
            } else {
                leaves[i]
            },
        }
    }

    /// The signed distance at the root.
    pub open spec fn value(self, leaves: Seq<Scalar>) -> Scalar {
        self.value_at(leaves, self.root())
    }

    /// The distance from `p` to each primitive.
    pub open spec fn samples<F: Fn(Op) -> Scalar>(self, p: Vec3, fpu: &F) -> Seq<Scalar> {
        Seq::new(self.nodes.len(), |i: int| self.nodes[i].primitive_distance(p, fpu))
    }

    /// The signed distance from `p` to the shape.
    pub open spec fn distance<F: Fn(Op) -> Scalar>(self, p: Vec3, fpu: &F) -> Scalar {
        self.value(self.samples(p, fpu))
    }

    /// The point on the ray from `pos` along `dir` after the length `accum`.
    pub open spec fn ray_point<F: Fn(Op) -> Scalar>(
        pos: Vec3,
        dir: Vec3,
        accum: Scalar,
        fpu: &F,
    ) -> Vec3 {
        pos.sum(dir.scaled(accum, fpu), fpu)
    }

    /// How the ray from `pos` along the unit vector `dir` ends, when it has
    /// taken `steps` steps and come the length `accum`. At each step the
    /// distance `d` at the point reached decides: below the lower limit the
    /// ray has hit at that point, above the upper limit it has gone too far,
    /// and otherwise it goes on by `d`. A ray that has taken all its steps
    /// took too long.
    pub open spec fn march<F: Fn(Op) -> Scalar>(
        self,
        pos: Vec3,
        dir: Vec3,
        limits: MarchLimits,
        fpu: &F,
        accum: Scalar,
        steps: int,
    ) -> Raymarch
        decreases limits.max_iter - steps,
    {
        if steps >= limits.max_iter {
            Raymarch::TookTooLong
        } else {
            let point = Graph::ray_point(pos, dir, accum, fpu);
            let d = self.distance(point, fpu);
            if d.below(limits.min_dist) {
                Raymarch::Hit(point)
            } else if limits.max_dist.below(d) {
                Raymarch::WentTooFar
            } else {
                self.march(pos, dir, limits, fpu, apply(fpu, Op::Add(accum, d)), steps + 1)
            }
        }
    }

    /// How the ray from `pos` in the direction of `dir` ends. A `dir` that
    /// has no direction gives no ray.
    pub open spec fn raymarch<F: Fn(Op) -> Scalar>(
        self,
        pos: Vec3,
        dir: Vec3,
        limits: MarchLimits,
        fpu: &F,
    ) -> Result<Raymarch, VectorError> {
        if dir.has_direction(fpu) {
            Ok(self.march(pos, dir.unit(fpu), limits, fpu, Scalar::zero(), 0))
        } else {
            Err(VectorError::Degenerate)
        }
    }
}

/// A ray hits only at a point where the shape is nearer than the lower
/// limit.
pub proof fn lemma_hit_is_near<F: Fn(Op) -> Scalar>(
    g: Graph,
    pos: Vec3,
    dir: Vec3,
    limits: MarchLimits,
    fpu: &F,
    accum: Scalar,
    steps: int,
)
    requires
        0 <= steps,
    ensures
        g.march(pos, dir, limits, fpu, accum, steps) matches Raymarch::Hit(p) ==> g.distance(
            p,
            fpu,
        ).below(limits.min_dist),
    decreases limits.max_iter - steps,
{
    if steps < limits.max_iter {
        let point = Graph::ray_point(pos, dir, accum, fpu);
        let d = g.distance(point, fpu);
        if !d.below(limits.min_dist) && !limits.max_dist.below(d) {
            lemma_hit_is_near(g, pos, dir, limits, fpu, apply(fpu, Op::Add(accum, d)), steps + 1);
        }
    }
}

impl Sdf {
    /// The signed distance of the shape, given in `leaves` the distance of
    /// each of its primitives, index by index. `None` if `leaves` has not one
    /// entry for each node.
    pub fn evaluate(&self, leaves: &Vec<Scalar>) -> (r: Option<Scalar>)
        ensures
            leaves@.len() == self@.nodes.len() ==> r == Some(self@.value(leaves@)),
            leaves@.len() != self@.nodes.len() ==> r is None,
    {
        let nodes = self.nodes();
        if leaves.len() != nodes.len() {
            return None;
        }
        let mut values: Vec<Scalar> = Vec::new();
        let mut i: usize = 0;
        while i < nodes.len()
            invariant
                self@.wf(),
                nodes@ == self@.nodes,
                leaves@.len() == nodes@.len(),
                i <= nodes.len(),
                values.len() == i,
                forall|k: int| 0 <= k < i ==> values@[k] == self@.value_at(leaves@, k),
            decreases nodes.len() - i,
        {
            assert(self@.nodes[i as int].fits(i as int, self@.materials.len() as int));
            let value = match nodes[i] {
                Distance::Sphere { .. } | Distance::Plane { .. } => leaves[i],
                Distance::Union(x, y) => values[x].min(values[y]),
                Distance::Intersection(x, y) => values[x].max(values[y]),
                Distance::Exclusion(x, y) => values[x].min(values[y]).max(
                    values[x].max(values[y]).neg(),
                ),
                Distance::Subtraction(x, y) => values[x].neg().max(values[y]),
            };
            values.push(value);
            i += 1;
        }
        Some(values[nodes.len() - 1])
    }

    /// The distance from `p` to each primitive of the shape, index by index.
    pub fn sample<F: Fn(Op) -> Scalar>(&self, p: Vec3, fpu: &F) -> (r: Vec<Scalar>)
        requires
            is_arithmetic(fpu),
        ensures
            r@ == self@.samples(p, fpu),
    {
        let nodes = self.nodes();
        let mut leaves: Vec<Scalar> = Vec::new();
        let mut i: usize = 0;
        while i < nodes.len()
            invariant
                is_arithmetic(fpu),
                nodes@ == self@.nodes,
                i <= nodes.len(),
                leaves@ == Seq::new(
                    i as nat,
                    |k: int| self@.nodes[k].primitive_distance(p, fpu),
                ),
            decreases nodes.len() - i,
        {
            let leaf = match nodes[i] {
                Distance::Sphere { center, radius, .. } => {
                    let length = p.minus(center, fpu).length(fpu);
                    run(fpu, Op::Sub(length, radius))
                },
                Distance::Plane { normal, offset, .. } => {
                    let along = p.dot(normal, fpu);
                    run(fpu, Op::Sub(along, offset))
                },
                _ => Scalar { bits: 0 },
            };
            leaves.push(leaf);
            i += 1;
        }
        leaves
    }

    /// The signed distance from `p` to this shape.
    pub fn distance<F: Fn(Op) -> Scalar>(&self, p: Vec3, fpu: &F) -> (r: Scalar)
        requires
            is_arithmetic(fpu),
        ensures
            r == self@.distance(p, fpu),
    {
        let leaves = self.sample(p, fpu);
        let value = self.evaluate(&leaves);
        value.unwrap()
    }

    /// Finds where the ray from `pos` in the direction of `dir` meets this
    /// shape, if it does.
    pub fn raymarch<F: Fn(Op) -> Scalar>(
        &self,
        pos: Vec3,
        dir: Vec3,
        limits: &MarchLimits,
        fpu: &F,
    ) -> (r: Result<Raymarch, VectorError>)
        requires
            is_arithmetic(fpu),
        ensures
            r == self@.raymarch(pos, dir, *limits, fpu),
            r is Err <==> !dir.has_direction(fpu),
            r matches Ok(Raymarch::Hit(p)) ==> self@.distance(p, fpu).below(limits.min_dist),
    {
        proof {
            lemma_hit_is_near(self@, pos, dir.unit(fpu), *limits, fpu, Scalar::zero(), 0);
        }
        let unit = match dir.normalized(fpu) {
            Ok(unit) => unit,
            Err(e) => {
                return Err(e);
            },
        };
        let mut steps: usize = 0;
        let mut accum = Scalar { bits: 0 };
        while steps < limits.max_iter
            invariant
                is_arithmetic(fpu),
                dir.has_direction(fpu),
                unit == dir.unit(fpu),
                steps <= limits.max_iter,
                self@.march(pos, unit, *limits, fpu, accum, steps as int) == self@.march(
                    pos,
                    unit,
                    *limits,
                    fpu,
                    Scalar::zero(),
                    0,
                ),
            decreases limits.max_iter - steps,
        {
            let point = pos.plus(unit.times(accum, fpu), fpu);
            let distance = self.distance(point, fpu);
            if distance.lt(limits.min_dist) {
                return Ok(Raymarch::Hit(point));
            } else if distance.gt(limits.max_dist) {
                return Ok(Raymarch::WentTooFar);
            }
            steps += 1;
            accum = run(fpu, Op::Add(accum, distance));
        }
        Ok(Raymarch::TookTooLong)
    }
}

} // verus!
