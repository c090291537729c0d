//! What holds of distances when shapes are joined and folded.
//!
//! Folding replaces a primitive by an equal one, and equal means equal as
//! numbers: the two zeros are one number. The laws on distances therefore
//! speak of an arithmetic under which equal primitives are equally far from a
//! point, and they compare distances as values, not as patterns.

use crate::eval::{exclusion_of, subtraction_of};
use crate::folding::{lemma_agrees_operands, lemma_joined_wf, lemma_simplified};
use crate::graph::Graph;
use crate::math::{apply, Op, Vec3};
use crate::node::Distance;
use crate::scalar::Scalar;
use vstd::prelude::*;

verus! {

/// Under the arithmetic, two primitives of the same shape are equally far
/// from `p`.
pub open spec fn steady<F: Fn(Op) -> Scalar>(p: Vec3, fpu: &F) -> bool {
    forall|a: Distance, b: Distance| #[trigger]
        a.same_shape(b) ==> a.primitive_distance(p, fpu).same_value(
            b.primitive_distance(p, fpu),
        )
}

/// The arithmetic makes the same value of the same values when it adds,
/// subtracts, multiplies and takes a root. (IEEE 754 arithmetic does;
/// division is left out, since it tells the two zeros apart.)
pub open spec fn regular<F: Fn(Op) -> Scalar>(fpu: &F) -> bool {
    &&& forall|a: Scalar, b: Scalar, c: Scalar, d: Scalar|
        a.same_value(c) && b.same_value(d) ==> (#[trigger] apply(fpu, Op::Add(a, b))).same_value(
            #[trigger] apply(fpu, Op::Add(c, d)),
        )
    &&& forall|a: Scalar, b: Scalar, c: Scalar, d: Scalar|
        a.same_value(c) && b.same_value(d) ==> (#[trigger] apply(fpu, Op::Sub(a, b))).same_value(
            #[trigger] apply(fpu, Op::Sub(c, d)),
        )
    &&& forall|a: Scalar, b: Scalar, c: Scalar, d: Scalar|
        a.same_value(c) && b.same_value(d) ==> (#[trigger] apply(fpu, Op::Mul(a, b))).same_value(
            #[trigger] apply(fpu, Op::Mul(c, d)),
        )
    &&& forall|a: Scalar, c: Scalar|
        a.same_value(c) ==> (#[trigger] apply(fpu, Op::Sqrt(a))).same_value(
            #[trigger] apply(fpu, Op::Sqrt(c)),
        )
}

/// Under a regular arithmetic, primitives of the same shape are equally far
/// from every point.
pub proof fn lemma_regular_is_steady<F: Fn(Op) -> Scalar>(p: Vec3, fpu: &F)
    requires
        regular(fpu),
    ensures
        steady(p, fpu),
{
    assert forall|a: Distance, b: Distance| #[trigger] a.same_shape(b) implies a.primitive_distance(
        p,
        fpu,
    ).same_value(b.primitive_distance(p, fpu)) by {
        match (a, b) {
            (
                Distance::Sphere { center: c1, radius: r1, .. },
                Distance::Sphere { center: c2, radius: r2, .. },
            ) => {
                let d1 = p.difference(c1, fpu);
                let d2 = p.difference(c2, fpu);
                assert(d1.x.same_value(d2.x) && d1.y.same_value(d2.y) && d1.z.same_value(d2.z));
                lemma_dot_same_value(d1, d1, d2, d2, fpu);
            },
            (
                Distance::Plane { normal: n1, offset: o1, .. },
                Distance::Plane { normal: n2, offset: o2, .. },
            ) => {
                lemma_dot_same_value(p, n1, p, n2, fpu);
            },
            _ => {},
        }
    }
}

/// Under a regular arithmetic, the dot product makes the same value of vectors
/// with the same values.
proof fn lemma_dot_same_value<F: Fn(Op) -> Scalar>(a: Vec3, b: Vec3, c: Vec3, d: Vec3, fpu: &F)
    requires
        regular(fpu),
        a.x.same_value(c.x) && a.y.same_value(c.y) && a.z.same_value(c.z),
        b.x.same_value(d.x) && b.y.same_value(d.y) && b.z.same_value(d.z),
    ensures
        a.dot_product(b, fpu).same_value(c.dot_product(d, fpu)),
{
    let x1 = apply(fpu, Op::Mul(a.x, b.x));
    let y1 = apply(fpu, Op::Mul(a.y, b.y));
    let z1 = apply(fpu, Op::Mul(a.z, b.z));
    let x2 = apply(fpu, Op::Mul(c.x, d.x));
    let y2 = apply(fpu, Op::Mul(c.y, d.y));
    let z2 = apply(fpu, Op::Mul(c.z, d.z));
    assert(x1.same_value(x2) && y1.same_value(y2) && z1.same_value(z2));
    let t1 = apply(fpu, Op::Add(y1, z1));
    let t2 = apply(fpu, Op::Add(y2, z2));
    assert(t1.same_value(t2));
}

/// Wherever `g` has a primitive, `kept` has at its slot the value that
/// `leaves` has for it.
pub open spec fn leaves_kept(g: Graph, leaves: Seq<Scalar>, kept: Seq<Scalar>) -> bool {
    forall|i: int|
        0 <= i < g.nodes.len() && (#[trigger] g.nodes[i]).is_primitive() ==> kept[g.node_slots()[i]
            as int].same_value(leaves[i])
}

/// What an operation makes of the values of its two operands.
pub open spec fn combined(node: Distance, x: Scalar, y: Scalar) -> Scalar {
    match node {
        Distance::Union(..) => x.lesser(y),
        Distance::Intersection(..) => x.greater(y),
        Distance::Exclusion(..) => exclusion_of(x, y),
        Distance::Subtraction(..) => subtraction_of(x, y),
        _ => x,
    }
}

/// An operation makes the same value of the same values.
pub proof fn lemma_combined_values(node: Distance, x: Scalar, y: Scalar, x2: Scalar, y2: Scalar)
    requires
        x.same_value(x2),
        y.same_value(y2),
    ensures
        combined(node, x, y).same_value(combined(node, x2, y2)),
{
}

/// Folding keeps the value at every node: what a node of `g` evaluates to,
/// the node at its slot evaluates to.
pub proof fn lemma_simplified_value_at(g: Graph, leaves: Seq<Scalar>, kept: Seq<Scalar>, i: int)
    requires
        g.wf(),
        leaves_kept(g, leaves, kept),
        0 <= i < g.nodes.len(),
    ensures
        g.simplified().value_at(kept, g.node_slots()[i] as int).same_value(g.value_at(leaves, i)),
    decreases i,
{
    lemma_simplified(g);
    let out = g.simplified();
    let slots = g.node_slots();
    let node = g.nodes[i];
    let image = out.nodes[slots[i] as int];
    lemma_agrees_operands(image, node.remapped(g.material_slots(), slots));
    assert(node.fits(i, g.materials.len() as int));
    assert(image.fits(slots[i] as int, out.materials.len() as int));
    match node {
        Distance::Sphere { .. } | Distance::Plane { .. } => {},
        Distance::Union(x, y)
        | Distance::Intersection(x, y)
        | Distance::Exclusion(x, y)
        | Distance::Subtraction(x, y) => {
            lemma_simplified_value_at(g, leaves, kept, x as int);
            lemma_simplified_value_at(g, leaves, kept, y as int);
        },
    }
}

/// Folding does not change the distance from a point to a shape.
pub proof fn lemma_fold_keeps_distance<F: Fn(Op) -> Scalar>(g: Graph, p: Vec3, fpu: &F)
    requires
        g.wf(),
        steady(p, fpu),
    ensures
        g.simplified().distance(p, fpu).same_value(g.distance(p, fpu)),
{
    lemma_simplified(g);
    let out = g.simplified();
    let slots = g.node_slots();
    let leaves = g.samples(p, fpu);
    let kept = out.samples(p, fpu);
    assert forall|i: int|
        0 <= i < g.nodes.len() && (#[trigger] g.nodes[i]).is_primitive() implies kept[slots[i]
        as int].same_value(leaves[i]) by {
        let image = out.nodes[slots[i] as int];
        assert(image.agrees(g.nodes[i].remapped(g.material_slots(), slots)));
        assert(image.same_shape(g.nodes[i]));
    }
    lemma_simplified_value_at(g, leaves, kept, g.root());
}

/// In two graphs side by side, a node of the first has the value that it
/// has in the first alone.
proof fn lemma_left_value_at<F: Fn(Op) -> Scalar>(
    a: Graph,
    b: Graph,
    root: Distance,
    p: Vec3,
    fpu: &F,
    i: int,
)
    requires
        a.wf(),
        0 <= i < a.nodes.len(),
    ensures
        a.appended(b).with_root(root).value_at(
            a.appended(b).with_root(root).samples(p, fpu),
            i,
        ) == a.value_at(a.samples(p, fpu), i),
    decreases i,
{
    let g = a.appended(b).with_root(root);
    assert(g.nodes[i] == a.nodes[i]);
    assert(a.nodes[i].fits(i, a.materials.len() as int));
    match a.nodes[i] {
        Distance::Sphere { .. } | Distance::Plane { .. } => {},
        Distance::Union(x, y)
        | Distance::Intersection(x, y)
        | Distance::Exclusion(x, y)
        | Distance::Subtraction(x, y) => {
            lemma_left_value_at(a, b, root, p, fpu, x as int);
            lemma_left_value_at(a, b, root, p, fpu, y as int);
        },
    }
}

/// In two graphs side by side, a node of the second has the value that it
/// has in the second alone.
proof fn lemma_right_value_at<F: Fn(Op) -> Scalar>(
    a: Graph,
    b: Graph,
    root: Distance,
    p: Vec3,
    fpu: &F,
    i: int,
)
    requires
        b.wf(),
        a.joins(b),
        steady(p, fpu),
        0 <= i < b.nodes.len(),
    ensures
        a.appended(b).with_root(root).value_at(
            a.appended(b).with_root(root).samples(p, fpu),
            a.nodes.len() + i,
        ).same_value(b.value_at(b.samples(p, fpu), i)),
    decreases i,
{
    let g = a.appended(b).with_root(root);
    let na = a.nodes.len() as int;
    let leaves = g.samples(p, fpu);
    let alone = b.samples(p, fpu);
    assert(g.nodes[na + i] == b.nodes[i].rebased(na, a.materials.len() as int));
    assert(b.nodes[i].fits(i, b.materials.len() as int));
    match b.nodes[i] {
        Distance::Sphere { .. } | Distance::Plane { .. } => {
            assert(g.nodes[na + i].same_shape(b.nodes[i]));
        },
        Distance::Union(x, y)
        | Distance::Intersection(x, y)
        | Distance::Exclusion(x, y)
        | Distance::Subtraction(x, y) => {
            lemma_right_value_at(a, b, root, p, fpu, x as int);
            lemma_right_value_at(a, b, root, p, fpu, y as int);
            assert(g.nodes[na + i].operands() == Some(((x + na) as usize, (y + na) as usize)));
            lemma_combined_values(
                g.nodes[na + i],
                g.value_at(leaves, na + x),
                g.value_at(leaves, na + y),
                b.value_at(alone, x as int),
                b.value_at(alone, y as int),
            );
        },
    }
}

/// The distance to the union of two shapes is the smaller of the distances
/// to the two.
pub proof fn lemma_union_distance<F: Fn(Op) -> Scalar>(a: Graph, b: Graph, p: Vec3, fpu: &F)
    requires
        a.wf(),
        b.wf(),
        a.joins(b),
        steady(p, fpu),
    ensures
        a.union(b).distance(p, fpu).same_value(
            a.distance(p, fpu).lesser(b.distance(p, fpu)),
        ),
{
    let root = Distance::Union(a.root() as usize, a.far_root(b) as usize);
    lemma_joined_wf(a, b, root);
    lemma_fold_keeps_distance(a.appended(b).with_root(root), p, fpu);
    lemma_left_value_at(a, b, root, p, fpu, a.root());
    lemma_right_value_at(a, b, root, p, fpu, b.root());
}

/// The distance to the intersection of two shapes is the larger of the
/// distances to the two.
pub proof fn lemma_intersection_distance<F: Fn(Op) -> Scalar>(
    a: Graph,
    b: Graph,
    p: Vec3,
    fpu: &F,
)
    requires
        a.wf(),
        b.wf(),
        a.joins(b),
        steady(p, fpu),
    ensures
        a.intersection(b).distance(p, fpu).same_value(
            a.distance(p, fpu).greater(b.distance(p, fpu)),
        ),
{
    let root = Distance::Intersection(a.root() as usize, a.far_root(b) as usize);
    lemma_joined_wf(a, b, root);
    lemma_fold_keeps_distance(a.appended(b).with_root(root), p, fpu);
    lemma_left_value_at(a, b, root, p, fpu, a.root());
    lemma_right_value_at(a, b, root, p, fpu, b.root());
}

/// The distance to the symmetric difference of two shapes `a` and `b` is
/// `max(min(a, b), -max(a, b))` of the distances to the two.
pub proof fn lemma_exclusion_distance<F: Fn(Op) -> Scalar>(a: Graph, b: Graph, p: Vec3, fpu: &F)
    requires
        a.wf(),
        b.wf(),
        a.joins(b),
        steady(p, fpu),
    ensures
        a.exclusion(b).distance(p, fpu).same_value(
            exclusion_of(a.distance(p, fpu), b.distance(p, fpu)),
        ),
{
    let root = Distance::Exclusion(a.root() as usize, a.far_root(b) as usize);
    lemma_joined_wf(a, b, root);
    lemma_fold_keeps_distance(a.appended(b).with_root(root), p, fpu);
    lemma_left_value_at(a, b, root, p, fpu, a.root());
    lemma_right_value_at(a, b, root, p, fpu, b.root());
}

/// The distance to the difference of two shapes `a` and `b` is
/// `max(-a, b)` of the distances to the two.
pub proof fn lemma_subtraction_distance<F: Fn(Op) -> Scalar>(
    a: Graph,
    b: Graph,
    p: Vec3,
    fpu: &F,
)
    requires
        a.wf(),
        b.wf(),
        a.joins(b),
        steady(p, fpu),
    ensures
        a.subtraction(b).distance(p, fpu).same_value(
            subtraction_of(a.distance(p, fpu), b.distance(p, fpu)),
        ),
{
    let root = Distance::Subtraction(a.root() as usize, a.far_root(b) as usize);
    lemma_joined_wf(a, b, root);
    lemma_fold_keeps_distance(a.appended(b).with_root(root), p, fpu);
    lemma_left_value_at(a, b, root, p, fpu, a.root());
    lemma_right_value_at(a, b, root, p, fpu, b.root());
}

/// The union of two shapes is as far from a point as the union of the two
/// taken the other way round.
pub proof fn lemma_union_commutes<F: Fn(Op) -> Scalar>(a: Graph, b: Graph, p: Vec3, fpu: &F)
    requires
        a.wf(),
        b.wf(),
        a.joins(b),
        steady(p, fpu),
    ensures
        a.union(b).distance(p, fpu).same_value(b.union(a).distance(p, fpu)),
{
    lemma_union_distance(a, b, p, fpu);
    lemma_union_distance(b, a, p, fpu);
}

/// The symmetric difference of two shapes is as far from a point as that of
/// the two taken the other way round.
pub proof fn lemma_exclusion_commutes<F: Fn(Op) -> Scalar>(a: Graph, b: Graph, p: Vec3, fpu: &F)
    requires
        a.wf(),
        b.wf(),
        a.joins(b),
        steady(p, fpu),
    ensures
        a.exclusion(b).distance(p, fpu).same_value(b.exclusion(a).distance(p, fpu)),
{
    lemma_exclusion_distance(a, b, p, fpu);
    lemma_exclusion_distance(b, a, p, fpu);
}

/// Moving every primitive of `g` along `vec`, and the point with it, leaves
/// the distance to the primitive the same.
pub open spec fn moves_with<F: Fn(Op) -> Scalar>(g: Graph, vec: Vec3, p: Vec3, fpu: &F) -> bool {
    forall|i: int|
        0 <= i < g.nodes.len() && (#[trigger] g.nodes[i]).is_primitive() ==> g.nodes[i].translated(
            vec,
            fpu,
        ).primitive_distance(p.sum(vec, fpu), fpu).same_value(g.nodes[i].primitive_distance(p, fpu))
}

/// A moved shape is as far from a moved point, node by node, as the shape
/// is from the point, wherever that holds of its primitives.
proof fn lemma_translated_value_at<F: Fn(Op) -> Scalar>(
    g: Graph,
    vec: Vec3,
    p: Vec3,
    fpu: &F,
    i: int,
)
    requires
        g.wf(),
        moves_with(g, vec, p, fpu),
        0 <= i < g.nodes.len(),
    ensures
        g.translated(vec, fpu).value_at(
            g.translated(vec, fpu).samples(p.sum(vec, fpu), fpu),
            i,
        ).same_value(g.value_at(g.samples(p, fpu), i)),
    decreases i,
{
    let moved = g.translated(vec, fpu);
    assert(moved.nodes[i] == g.nodes[i].translated(vec, fpu));
    assert(g.nodes[i].fits(i, g.materials.len() as int));
    match g.nodes[i] {
        Distance::Sphere { .. } | Distance::Plane { .. } => {},
        Distance::Union(x, y)
        | Distance::Intersection(x, y)
        | Distance::Exclusion(x, y)
        | Distance::Subtraction(x, y) => {
            lemma_translated_value_at(g, vec, p, fpu, x as int);
            lemma_translated_value_at(g, vec, p, fpu, y as int);
            lemma_combined_values(
                g.nodes[i],
                moved.value_at(moved.samples(p.sum(vec, fpu), fpu), x as int),
                moved.value_at(moved.samples(p.sum(vec, fpu), fpu), y as int),
                g.value_at(g.samples(p, fpu), x as int),
                g.value_at(g.samples(p, fpu), y as int),
            );
        },
    }
}

/// Where moving a primitive along with the point leaves its distance the
/// same, moving the whole shape along with the point does so too.
pub proof fn lemma_translation_carries_over<F: Fn(Op) -> Scalar>(
    g: Graph,
    vec: Vec3,
    p: Vec3,
    fpu: &F,
)
    requires
        g.wf(),
        moves_with(g, vec, p, fpu),
    ensures
        g.translated(vec, fpu).distance(p.sum(vec, fpu), fpu).same_value(g.distance(p, fpu)),
{
    lemma_translated_value_at(g, vec, p, fpu, g.root());
}

} // verus!
