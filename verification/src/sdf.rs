//! Distance graphs: building them, joining them and folding equal entries.

use crate::folding::{lemma_joined_wf, lemma_simplified, lemma_translated_wf};
use crate::graph::{fold_materials, fold_nodes, material_match, node_match, Graph};
use crate::math::{is_arithmetic, run, Op, Vec3};
use crate::node::{Distance, Material};
use crate::scalar::Scalar;
use vstd::prelude::*;

verus! {

/// A shape, as a graph of primitives and operations on them. The root of the
/// graph is its last node. The graph of a shape is always well formed.
pub struct Sdf {
    distances: Vec<Distance>,
    materials: Vec<Material>,
}

impl View for Sdf {
    type V = Graph;

    closed spec fn view(&self) -> Graph {
        Graph { nodes: self.distances@, materials: self.materials@ }
    }
}

/// The index of the first of `kept` that equals `item`, or the length of
/// `kept`.
fn find_material(kept: &Vec<Material>, item: &Material) -> (j: usize)
    ensures
        j == material_match(kept@, *item, 0),
        j <= kept.len(),
{
    let mut j: usize = 0;
    while j < kept.len() && !(kept[j] == *item)
        invariant
            j <= kept.len(),
            material_match(kept@, *item, 0) == material_match(kept@, *item, j as int),
        decreases kept.len() - j,
    {
        j += 1;
    }
    j
}

/// The index of the first of `kept` that equals `item`, or the length of
/// `kept`.
fn find_node(kept: &Vec<Distance>, item: &Distance) -> (j: usize)
    ensures
        j == node_match(kept@, *item, 0),
        j <= kept.len(),
{
    let mut j: usize = 0;
    while j < kept.len() && !(kept[j] == *item)
        invariant
            j <= kept.len(),
            node_match(kept@, *item, 0) == node_match(kept@, *item, j as int),
        decreases kept.len() - j,
    {
        j += 1;
    }
    j
}

impl Sdf {
    #[verifier::type_invariant]
    spec fn well_formed(self) -> bool {
        self@.wf()
    }

    /// The nodes, in order.
    pub(crate) fn nodes(&self) -> (r: &Vec<Distance>)
        ensures
            r@ == self@.nodes,
            self@.wf(),
    {
        proof {
            use_type_invariant(self);
        }
        &self.distances
    }

    /// The materials, in order.
    pub(crate) fn palette(&self) -> (r: &Vec<Material>)
        ensures
            r@ == self@.materials,
            self@.wf(),
    {
        proof {
            use_type_invariant(self);
        }
        &self.materials
    }

    /// The number of nodes.
    pub fn node_count(&self) -> (n: usize)
        ensures
            n == self@.nodes.len(),
            self@.wf(),
    {
        proof {
            use_type_invariant(self);
        }
        self.distances.len()
    }

    /// The number of materials.
    pub fn material_count(&self) -> (n: usize)
        ensures
            n == self@.materials.len(),
    {
        self.materials.len()
    }

    /// The node at index `i`, if there is one.
    pub fn node(&self, i: usize) -> (r: Option<Distance>)
        ensures
            i < self@.nodes.len() ==> r == Some(self@.nodes[i as int]),
            i >= self@.nodes.len() ==> r is None,
    {
        if i < self.distances.len() {
            Some(self.distances[i])
        } else {
            None
        }
    }

    /// The material at index `i`, if there is one.
    pub fn material(&self, i: usize) -> (r: Option<Material>)
        ensures
            i < self@.materials.len() ==> r == Some(self@.materials[i as int]),
            i >= self@.materials.len() ==> r is None,
    {
        if i < self.materials.len() {
            Some(self.materials[i])
        } else {
            None
        }
    }

    /// Folds equal materials and equal nodes together. The materials are
    /// folded first; then each node, in order, is rewritten to name its
    /// material and its operands by their new indices, and is dropped if an
    /// earlier node equals it.
    pub fn simplify(self) -> (r: Sdf)
        ensures
            r@ == self@.simplified(),
            r@.wf(),
            r@.nodes.len() <= self@.nodes.len(),
            r@.materials.len() <= self@.materials.len(),
    {
        proof {
            use_type_invariant(&self);
            lemma_simplified(self@);
        }
        let mut materials: Vec<Material> = Vec::new();
        let mut material_map: Vec<usize> = Vec::new();
        let mut i: usize = 0;
        while i < self.materials.len()
            invariant
                i <= self.materials.len(),
                material_map.len() == i,
                fold_materials(self.materials@, i as int).0 == materials@,
                fold_materials(self.materials@, i as int).1 == material_map@,
            decreases self.materials.len() - i,
        {
            let material = self.materials[i];
            let j = find_material(&materials, &material);
            if j == materials.len() {
                materials.push(material);
            }
            material_map.push(j);
            i += 1;
        }
        let mut distances: Vec<Distance> = Vec::new();
        let mut distance_map: Vec<usize> = Vec::new();
        let mut i: usize = 0;
        while i < self.distances.len()
            invariant
                self@.wf(),
                i <= self.distances.len(),
                material_map.len() == self.materials.len(),
                distance_map.len() == i,
                fold_nodes(self.distances@, material_map@, i as int).0 == distances@,
                fold_nodes(self.distances@, material_map@, i as int).1 == distance_map@,
            decreases self.distances.len() - i,
        {
            assert(self@.nodes[i as int].fits(i as int, self@.materials.len() as int));
            let distance = match self.distances[i] {
                Distance::Sphere { center, radius, material } => Distance::Sphere {
                    center,
                    radius,
                    material: material_map[material],
                },
                Distance::Plane { normal, offset, material } => Distance::Plane {
                    normal,
                    offset,
                    material: material_map[material],
                },
                Distance::Union(x, y) => Distance::Union(distance_map[x], distance_map[y]),
                Distance::Intersection(x, y) => Distance::Intersection(
                    distance_map[x],
                    distance_map[y],
                ),
                Distance::Exclusion(x, y) => Distance::Exclusion(distance_map[x], distance_map[y]),
                Distance::Subtraction(x, y) => Distance::Subtraction(
                    distance_map[x],
                    distance_map[y],
                ),
            };
            let j = find_node(&distances, &distance);
            if j == distances.len() {
                distances.push(distance);
            }
            distance_map.push(j);
            i += 1;
        }
        assert(material_map@ == self@.material_slots());
        Sdf { distances, materials }
    }

    /// The nodes and materials of `other` behind those of `self`, every
    /// index in the nodes of `other` shifted by what stands before it.
    fn append(self, other: Sdf) -> (r: (Vec<Distance>, Vec<Material>))
        requires
            self@.joins(other@),
        ensures
            r.0@ == self@.appended(other@).nodes,
            r.1@ == self@.appended(other@).materials,
            self@.wf(),
            other@.wf(),
    {
        proof {
            use_type_invariant(&self);
            use_type_invariant(&other);
        }
        let distance_offset = self.distances.len();
        let material_offset = self.materials.len();
        let mut distances = self.distances;
        let mut materials = self.materials;
        let mut moved = other.materials;
        materials.append(&mut moved);
        let mut i: usize = 0;
        while i < other.distances.len()
            invariant
                other@.wf(),
                other@.nodes == other.distances@,
                i <= other.distances.len(),
                distance_offset + other.distances.len() < usize::MAX,
                material_offset + other@.materials.len() <= usize::MAX,
                distances@ == self@.nodes + Seq::new(
                    i as nat,
                    |k: int|
                        other@.nodes[k].rebased(distance_offset as int, material_offset as int),
                ),
            decreases other.distances.len() - i,
        {
            assert(other@.nodes[i as int].fits(i as int, other@.materials.len() as int));
            let distance = match other.distances[i] {
                Distance::Sphere { center, radius, material } => Distance::Sphere {
                    center,
                    radius,
                    material: material + material_offset,
                },
                Distance::Plane { normal, offset, material } => Distance::Plane {
                    normal,
                    offset,
                    material: material + material_offset,
                },
                Distance::Union(x, y) => Distance::Union(x + distance_offset, y + distance_offset),
                Distance::Intersection(x, y) => Distance::Intersection(
                    x + distance_offset,
                    y + distance_offset,
                ),
                Distance::Exclusion(x, y) => Distance::Exclusion(
                    x + distance_offset,
                    y + distance_offset,
                ),
                Distance::Subtraction(x, y) => Distance::Subtraction(
                    x + distance_offset,
                    y + distance_offset,
                ),
            };
            distances.push(distance);
            i += 1;
        }
        (distances, materials)
    }

    /// Joins two shapes under a new root that names their two roots, and
    /// folds.
    fn join(self, other: Sdf, root: Distance) -> (r: Sdf)
        requires
            self@.joins(other@),
            root.operands() == Some((self@.root() as usize, self@.far_root(other@) as usize)),
        ensures
            r@ == self@.joined(other@, root),
            r@.wf(),
            r@.nodes.len() <= self@.nodes.len() + other@.nodes.len() + 1,
            r@.materials.len() <= self@.materials.len() + other@.materials.len(),
    {
        let ghost left = self@;
        let ghost right = other@;
        let (mut distances, materials) = self.append(other);
        distances.push(root);
        proof {
            lemma_joined_wf(left, right, root);
        }
        let out = Sdf { distances, materials };
        assert(out@ == left.appended(right).with_root(root));
        out.simplify()
    }

    /// A sphere around the origin.
    pub fn sphere(radius: Scalar, material: Material) -> (r: Sdf)
        ensures
            r@ == Graph::single(
                (Distance::Sphere { center: Vec3::origin(), radius, material: 0 }),
                material,
            ),
            r@.wf(),
    {
        let mut distances: Vec<Distance> = Vec::new();
        distances.push(Distance::Sphere { center: Vec3::origin(), radius, material: 0 });
        let mut materials: Vec<Material> = Vec::new();
        materials.push(material);
        Sdf { distances, materials }
    }

    /// The half-space behind the plane of the points `p` with
    /// `dot(p, normal) = offset`. The normal is to be of unit length.
    pub fn plane(normal: Vec3, offset: Scalar, material: Material) -> (r: Sdf)
        ensures
            r@ == Graph::single((Distance::Plane { normal, offset, material: 0 }), material),
            r@.wf(),
    {
        let mut distances: Vec<Distance> = Vec::new();
        distances.push(Distance::Plane { normal, offset, material: 0 });
        let mut materials: Vec<Material> = Vec::new();
        materials.push(material);
        Sdf { distances, materials }
    }

    /// Whether the sizes of the two graphs allow joining them: with the new
    /// root, their nodes and their materials can still be counted in a
    /// machine word.
    pub fn joins(&self, other: &Sdf) -> (r: bool)
        ensures
            r == self@.joins(other@),
    {
        let nodes = self.distances.len().checked_add(other.distances.len());
        let materials = self.materials.len().checked_add(other.materials.len());
        match nodes {
            Some(n) => n < usize::MAX && materials.is_some(),
            None => false,
        }
    }

    /// The union of this shape and another.
    pub fn union(self, other: Sdf) -> (r: Sdf)
        requires
            self@.joins(other@),
        ensures
            r@ == self@.union(other@),
            r@.wf(),
            r@.nodes.len() <= self@.nodes.len() + other@.nodes.len() + 1,
            r@.materials.len() <= self@.materials.len() + other@.materials.len(),
    {
        proof {
            use_type_invariant(&self);
            use_type_invariant(&other);
        }
        let root = Distance::Union(
            self.distances.len() - 1,
            self.distances.len() + other.distances.len() - 1,
        );
        self.join(other, root)
    }

    /// The intersection of this shape and another.
    pub fn intersect(self, other: Sdf) -> (r: Sdf)
        requires
            self@.joins(other@),
        ensures
            r@ == self@.intersection(other@),
            r@.wf(),
            r@.nodes.len() <= self@.nodes.len() + other@.nodes.len() + 1,
            r@.materials.len() <= self@.materials.len() + other@.materials.len(),
    {
        proof {
            use_type_invariant(&self);
            use_type_invariant(&other);
        }
        let root = Distance::Intersection(
            self.distances.len() - 1,
            self.distances.len() + other.distances.len() - 1,
        );
        self.join(other, root)
    }

    /// The symmetric difference of this shape and another: the points that
    /// are in exactly one of them.
    pub fn exclude(self, other: Sdf) -> (r: Sdf)
        requires
            self@.joins(other@),
        ensures
            r@ == self@.exclusion(other@),
            r@.wf(),
            r@.nodes.len() <= self@.nodes.len() + other@.nodes.len() + 1,
            r@.materials.len() <= self@.materials.len() + other@.materials.len(),
    {
        proof {
            use_type_invariant(&self);
            use_type_invariant(&other);
        }
        let root = Distance::Exclusion(
            self.distances.len() - 1,
            self.distances.len() + other.distances.len() - 1,
        );
        self.join(other, root)
    }

    /// The difference of this shape and another.
    pub fn subtract(self, other: Sdf) -> (r: Sdf)
        requires
            self@.joins(other@),
        ensures
            r@ == self@.subtraction(other@),
            r@.wf(),
            r@.nodes.len() <= self@.nodes.len() + other@.nodes.len() + 1,
            r@.materials.len() <= self@.materials.len() + other@.materials.len(),
    {
        proof {
            use_type_invariant(&self);
            use_type_invariant(&other);
        }
        let root = Distance::Subtraction(
            self.distances.len() - 1,
            self.distances.len() + other.distances.len() - 1,
        );
        self.join(other, root)
    }

    /// Moves this shape along a vector: the center of every sphere moves
    /// with it, the offset of every plane grows by `dot(vec, normal)`.
    pub fn translate<F: Fn(Op) -> Scalar>(self, vec: Vec3, fpu: &F) -> (r: Sdf)
        requires
            is_arithmetic(fpu),
        ensures
            r@ == self@.translated(vec, fpu),
            r@.wf(),
            r@.nodes.len() == self@.nodes.len(),
            r@.materials == self@.materials,
    {
        proof {
            use_type_invariant(&self);
            lemma_translated_wf(self@, vec, fpu);
        }
        let mut distances: Vec<Distance> = Vec::new();
        let mut i: usize = 0;
        while i < self.distances.len()
            invariant
                is_arithmetic(fpu),
                i <= self.distances.len(),
                distances@ == Seq::new(
                    i as nat,
                    |k: int| self.distances@[k].translated(vec, fpu),
                ),
            decreases self.distances.len() - i,
        {
            let distance = match self.distances[i] {
                Distance::Sphere { center, radius, material } => Distance::Sphere {
                    center: center.plus(vec, fpu),
                    radius,
                    material,
                },
                Distance::Plane { normal, offset, material } => Distance::Plane {
                    normal,
                    offset: run(fpu, Op::Add(offset, vec.dot(normal, fpu))),
                    material,
                },
                other => other,
            };
            distances.push(distance);
            i += 1;
        }
        assert(distances@ == self@.translated(vec, fpu).nodes);
        Sdf { distances, materials: self.materials }
    }
}

} // verus!
