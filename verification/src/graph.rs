//! The mathematical model of a distance graph.
//!
//! A [`Graph`] is a sequence of nodes and a sequence of materials. The node
//! at the last index is the root. Everything here is specification: what it
//! means for a graph to be well formed, what joining two graphs gives, and
//! what folding equal entries together gives.

use crate::math::{Op, Vec3};
use crate::node::{Distance, Material};
use crate::scalar::Scalar;
use vstd::prelude::*;

verus! {

/// The contents of a distance graph.
pub struct Graph {
    pub nodes: Seq<Distance>,
    pub materials: Seq<Material>,
}

/// The index of the first material at or after `from` that equals `item`, or
/// the length of `kept` if there is none.
pub open spec fn material_match(kept: Seq<Material>, item: Material, from: int) -> int
    decreases kept.len() - from,
{
    if from < 0 || from >= kept.len() {
        kept.len() as int
    } else if kept[from].equals(item) {
        from
    } else {
        material_match(kept, item, from + 1)
    }
}

/// The index of the first node at or after `from` that equals `item`, or the
/// length of `kept` if there is none.
pub open spec fn node_match(kept: Seq<Distance>, item: Distance, from: int) -> int
    decreases kept.len() - from,
{
    if from < 0 || from >= kept.len() {
        kept.len() as int
    } else if kept[from].equals(item) {
        from
    } else {
        node_match(kept, item, from + 1)
    }
}

/// The first `n` materials folded: the materials that are kept, and for each
/// of the `n` the index at which it is found among the kept. A material is
/// kept unless an earlier kept one equals it.
pub open spec fn fold_materials(materials: Seq<Material>, n: int) -> (Seq<Material>, Seq<usize>)
    decreases n,
{
    if n <= 0 {
        (Seq::empty(), Seq::empty())
    } else {
        let (kept, slots) = fold_materials(materials, n - 1);
        let item = materials[n - 1];
        let j = material_match(kept, item, 0);
        if j < kept.len() {
            (kept, slots.push(j as usize))
        } else {
            (kept.push(item), slots.push(j as usize))
        }
    }
}

/// The first `n` nodes folded, given where each material went: the nodes that
/// are kept, and for each of the `n` the index at which it is found among the
/// kept. A node is first rewritten to name its material and its operands by
/// their new indices; it is kept unless an earlier kept one equals it.
pub open spec fn fold_nodes(nodes: Seq<Distance>, materials: Seq<usize>, n: int) -> (
    Seq<Distance>,
    Seq<usize>,
)
    decreases n,
{
    if n <= 0 {
        (Seq::empty(), Seq::empty())
    } else {
        let (kept, slots) = fold_nodes(nodes, materials, n - 1);
        let item = nodes[n - 1].remapped(materials, slots);
        let j = node_match(kept, item, 0);
        if j < kept.len() {
            (kept, slots.push(j as usize))
        } else {
            (kept.push(item), slots.push(j as usize))
        }
    }
}

impl Graph {
    /// The index of the root: the last node.
    pub open spec fn root(self) -> int {
        self.nodes.len() - 1
    }

    /// Node `i` is an operand of a later node.
    pub open spec fn has_parent(self, i: int) -> bool {
        exists|k: int| i < k < self.nodes.len() && (#[trigger] self.nodes[k]).refers_to(i)
    }

    /// Every node but the root is an operand of a later node.
    pub open spec fn connected(self) -> bool {
        forall|i: int| 0 <= i < self.nodes.len() - 1 ==> #[trigger] self.has_parent(i)
    }

    /// A graph is well formed when it has a root, every primitive names one
    /// of its materials, every operation names two nodes before itself, and
    /// every node is part of the shape. Its indices are machine words.
    pub open spec fn wf(self) -> bool {
        &&& 0 < self.nodes.len() <= usize::MAX
        &&& self.materials.len() <= usize::MAX
        &&& forall|i: int|
            0 <= i < self.nodes.len() ==> (#[trigger] self.nodes[i]).fits(
                i,
                self.materials.len() as int,
            )
        &&& self.connected()
    }

    /// The nodes and materials of `other` behind those of `self`, with the
    /// indices in the nodes of `other` shifted accordingly.
    pub open spec fn appended(self, other: Graph) -> Graph {
        Graph {
            nodes: self.nodes + Seq::new(
                other.nodes.len(),
                |i: int|
                    other.nodes[i].rebased(self.nodes.len() as int, self.materials.len() as int),
            ),
            materials: self.materials + other.materials,
        }
    }

    /// The sizes of two graphs allow joining them under one more node.
    pub open spec fn joins(self, other: Graph) -> bool {
        &&& self.nodes.len() + other.nodes.len() < usize::MAX
        &&& self.materials.len() + other.materials.len() <= usize::MAX
    }

    /// The shape moved along `vec`: every node is moved, the materials stay.
    pub open spec fn translated<F: Fn(Op) -> Scalar>(self, vec: Vec3, fpu: &F) -> Graph {
        Graph {
            nodes: Seq::new(self.nodes.len(), |i: int| self.nodes[i].translated(vec, fpu)),
            materials: self.materials,
        }
    }

    /// The graph of one primitive and its material.
    pub open spec fn single(node: Distance, material: Material) -> Graph {
        Graph { nodes: seq![node], materials: seq![material] }
    }

    /// The graph with one more node, which becomes the root.
    pub open spec fn with_root(self, node: Distance) -> Graph {
        Graph { nodes: self.nodes.push(node), materials: self.materials }
    }

    /// For each material, the index at which it is found after folding.
    pub open spec fn material_slots(self) -> Seq<usize> {
        fold_materials(self.materials, self.materials.len() as int).1
    }

    /// For each node, the index at which it is found after folding.
    pub open spec fn node_slots(self) -> Seq<usize> {
        fold_nodes(self.nodes, self.material_slots(), self.nodes.len() as int).1
    }

    /// The graph with equal materials and equal nodes folded together.
    pub open spec fn simplified(self) -> Graph {
        Graph {
            nodes: fold_nodes(self.nodes, self.material_slots(), self.nodes.len() as int).0,
            materials: fold_materials(self.materials, self.materials.len() as int).0,
        }
    }

    /// `self` and `other` side by side under the new root `root`, folded.
    pub open spec fn joined(self, other: Graph, root: Distance) -> Graph {
        self.appended(other).with_root(root).simplified()
    }

    /// The index of the root of `other` once it is appended to `self`.
    pub open spec fn far_root(self, other: Graph) -> int {
        self.nodes.len() + other.nodes.len() - 1
    }

    /// The union of two graphs.
    pub open spec fn union(self, other: Graph) -> Graph {
        self.joined(other, Distance::Union(self.root() as usize, self.far_root(other) as usize))
    }

    /// The intersection of two graphs.
    pub open spec fn intersection(self, other: Graph) -> Graph {
        self.joined(
            other,
            Distance::Intersection(self.root() as usize, self.far_root(other) as usize),
        )
    }

    /// The symmetric difference of two graphs.
    pub open spec fn exclusion(self, other: Graph) -> Graph {
        self.joined(other, Distance::Exclusion(self.root() as usize, self.far_root(other) as usize))
    }

    /// The difference of two graphs.
    pub open spec fn subtraction(self, other: Graph) -> Graph {
        self.joined(
            other,
            Distance::Subtraction(self.root() as usize, self.far_root(other) as usize),
        )
    }
}

} // verus!
