//! What folding does to a graph: the facts about [`fold_materials`] and
//! [`fold_nodes`] that the rest of the library builds on.

use crate::graph::{fold_materials, fold_nodes, material_match, node_match, Graph};
use crate::math::{Op, Vec3};
use crate::node::{Distance, Material};
use crate::scalar::Scalar;
use vstd::prelude::*;

verus! {

/// No material equals an earlier one.
pub open spec fn distinct_materials(s: Seq<Material>) -> bool {
    forall|j: int, k: int| 0 <= j < k < s.len() ==> !(#[trigger] s[j]).equals(#[trigger] s[k])
}

/// No node equals an earlier one.
pub open spec fn distinct_nodes(s: Seq<Distance>) -> bool {
    forall|j: int, k: int| 0 <= j < k < s.len() ==> !(#[trigger] s[j]).equals(#[trigger] s[k])
}

/// `material_match` finds the first equal material at or after `from`.
pub proof fn lemma_material_match(kept: Seq<Material>, item: Material, from: int)
    requires
        0 <= from <= kept.len(),
    ensures
        from <= material_match(kept, item, from) <= kept.len(),
        material_match(kept, item, from) < kept.len() ==> kept[material_match(
            kept,
            item,
            from,
        )].equals(item),
        forall|k: int|
            from <= k < material_match(kept, item, from) ==> !(#[trigger] kept[k]).equals(item),
    decreases kept.len() - from,
{
    if from < kept.len() && !kept[from].equals(item) {
        lemma_material_match(kept, item, from + 1);
    }
}

/// `node_match` finds the first equal node at or after `from`.
pub proof fn lemma_node_match(kept: Seq<Distance>, item: Distance, from: int)
    requires
        0 <= from <= kept.len(),
    ensures
        from <= node_match(kept, item, from) <= kept.len(),
        node_match(kept, item, from) < kept.len() ==> kept[node_match(kept, item, from)].equals(
            item,
        ),
        forall|k: int|
            from <= k < node_match(kept, item, from) ==> !(#[trigger] kept[k]).equals(item),
    decreases kept.len() - from,
{
    if from < kept.len() && !kept[from].equals(item) {
        lemma_node_match(kept, item, from + 1);
    }
}

/// The kept material `j` is one of the first `n` materials, unchanged, and
/// that one has `j` for its slot.
pub open spec fn material_kept_from(
    kept: Seq<Material>,
    slots: Seq<usize>,
    materials: Seq<Material>,
    n: int,
    j: int,
) -> bool {
    exists|i: int| 0 <= i < n && #[trigger] slots[i] == j && kept[j] == materials[i]
}

/// What holds of the first `n` materials once they are folded.
pub open spec fn materials_folded(materials: Seq<Material>, n: int) -> bool {
    let (kept, slots) = fold_materials(materials, n);
    &&& slots.len() == n
    &&& kept.len() <= n
    &&& (n > 0 ==> kept.len() > 0)
    &&& forall|i: int|
        0 <= i < n ==> (#[trigger] slots[i]) < kept.len() && kept[slots[i] as int].agrees(
            materials[i],
        )
    &&& forall|j: int|
        0 <= j < kept.len() ==> #[trigger] material_kept_from(kept, slots, materials, n, j)
    &&& distinct_materials(kept)
}

/// Folding keeps one material of each class of equal ones, and every
/// material is found again at its slot.
pub proof fn lemma_fold_materials(materials: Seq<Material>, n: int)
    requires
        0 <= n <= materials.len() <= usize::MAX,
    ensures
        materials_folded(materials, n),
    decreases n,
{
    if n > 0 {
        lemma_fold_materials(materials, n - 1);
        let (kept, slots) = fold_materials(materials, n - 1);
        let (kept2, slots2) = fold_materials(materials, n);
        let item = materials[n - 1];
        let j = material_match(kept, item, 0);
        lemma_material_match(kept, item, 0);
        assert forall|i: int| 0 <= i < n implies (#[trigger] slots2[i]) < kept2.len()
            && kept2[slots2[i] as int].agrees(materials[i]) by {
            if i < n - 1 {
                assert(slots2[i] == slots[i]);
            }
        }
        assert forall|a: int| 0 <= a < kept2.len() implies #[trigger] material_kept_from(
            kept2,
            slots2,
            materials,
            n,
            a,
        ) by {
            if a < kept.len() {
                assert(material_kept_from(kept, slots, materials, n - 1, a));
                let i = choose|i: int|
                    0 <= i < n - 1 && #[trigger] slots[i] == a && kept[a] == materials[i];
                assert(slots2[i] == a);
            } else {
                assert(slots2[n - 1] == a);
            }
        }
    }
}

/// The kept node `j` is one of the first `n` nodes, rewritten, and that one
/// has `j` for its slot.
pub open spec fn node_kept_from(
    kept: Seq<Distance>,
    slots: Seq<usize>,
    nodes: Seq<Distance>,
    materials: Seq<usize>,
    n: int,
    j: int,
) -> bool {
    exists|i: int|
        0 <= i < n && #[trigger] slots[i] == j && kept[j] == nodes[i].remapped(materials, slots)
}

/// Every node names a material and earlier nodes only.
pub open spec fn nodes_fit(nodes: Seq<Distance>, materials: int) -> bool {
    forall|i: int| 0 <= i < nodes.len() ==> (#[trigger] nodes[i]).fits(i, materials)
}

/// Every material has a slot among `kept` kept materials.
pub open spec fn slots_below(slots: Seq<usize>, kept: int) -> bool {
    forall|i: int| 0 <= i < slots.len() ==> (#[trigger] slots[i]) < kept
}

/// What holds of the first `n` nodes once they are folded.
pub open spec fn nodes_folded(
    nodes: Seq<Distance>,
    materials: Seq<usize>,
    kept_materials: int,
    n: int,
) -> bool {
    let (kept, slots) = fold_nodes(nodes, materials, n);
    &&& slots.len() == n
    &&& kept.len() <= n
    &&& (n > 0 ==> kept.len() > 0)
    &&& forall|i: int|
        0 <= i < n ==> (#[trigger] slots[i]) < kept.len() && kept[slots[i] as int].agrees(
            nodes[i].remapped(materials, slots),
        )
    &&& nodes_fit(kept, kept_materials)
    &&& forall|j: int|
        0 <= j < kept.len() ==> #[trigger] node_kept_from(kept, slots, nodes, materials, n, j)
    &&& distinct_nodes(kept)
}

/// A node that names earlier nodes only is rewritten the same way by two
/// tables that agree on the earlier nodes.
pub proof fn lemma_remapped_prefix(
    node: Distance,
    at: int,
    materials: Seq<usize>,
    slots: Seq<usize>,
    longer: Seq<usize>,
)
    requires
        node.fits(at, materials.len() as int),
        at <= slots.len() <= longer.len(),
        forall|x: int| 0 <= x < at ==> slots[x] == longer[x],
    ensures
        node.remapped(materials, slots) == node.remapped(materials, longer),
{
}

/// Folding keeps one node of each class of equal ones, every node is found
/// again at its slot, and the kept nodes name kept materials and earlier
/// kept nodes only.
pub proof fn lemma_fold_nodes(
    nodes: Seq<Distance>,
    materials: Seq<usize>,
    kept_materials: int,
    n: int,
)
    requires
        0 <= n <= nodes.len() <= usize::MAX,
        nodes_fit(nodes, materials.len() as int),
        slots_below(materials, kept_materials),
    ensures
        nodes_folded(nodes, materials, kept_materials, n),
    decreases n,
{
    if n > 0 {
        lemma_fold_nodes(nodes, materials, kept_materials, n - 1);
        let (kept, slots) = fold_nodes(nodes, materials, n - 1);
        let (kept2, slots2) = fold_nodes(nodes, materials, n);
        let item = nodes[n - 1].remapped(materials, slots);
        let j = node_match(kept, item, 0);
        lemma_node_match(kept, item, 0);
        assert(nodes[n - 1].fits(n - 1, materials.len() as int));
        assert forall|i: int| 0 <= i < n implies nodes[i].remapped(materials, slots)
            == nodes[i].remapped(materials, slots2) by {
            assert(nodes[i].fits(i, materials.len() as int));
            lemma_remapped_prefix(nodes[i], n - 1, materials, slots, slots2);
        }
        assert forall|i: int| 0 <= i < n implies (#[trigger] slots2[i]) < kept2.len()
            && kept2[slots2[i] as int].agrees(nodes[i].remapped(materials, slots2)) by {
            if i < n - 1 {
                assert(slots2[i] == slots[i]);
            }
        }
        assert(item.fits(kept.len() as int, kept_materials)) by {
            match nodes[n - 1] {
                Distance::Sphere { material, .. } | Distance::Plane { material, .. } => {
                    assert(materials[material as int] < kept_materials);
                },
                Distance::Union(x, y)
                | Distance::Intersection(x, y)
                | Distance::Exclusion(x, y)
                | Distance::Subtraction(x, y) => {
                    assert(slots[x as int] < kept.len());
                    assert(slots[y as int] < kept.len());
                },
            }
        }
        assert forall|a: int| 0 <= a < kept2.len() implies (#[trigger] kept2[a]).fits(
            a,
            kept_materials,
        ) by {
            if a < kept.len() {
                assert(kept[a].fits(a, kept_materials));
            }
        }
        assert forall|a: int| 0 <= a < kept2.len() implies #[trigger] node_kept_from(
            kept2,
            slots2,
            nodes,
            materials,
            n,
            a,
        ) by {
            if a < kept.len() {
                assert(node_kept_from(kept, slots, nodes, materials, n - 1, a));
                let i = choose|i: int|
                    0 <= i < n - 1 && #[trigger] slots[i] == a && kept[a] == nodes[i].remapped(
                        materials,
                        slots,
                    );
                assert(slots2[i] == a);
            } else {
                assert(slots2[n - 1] == a);
            }
        }
    }
}

/// Nodes that are one node have the same operands.
pub proof fn lemma_agrees_operands(a: Distance, b: Distance)
    requires
        a.agrees(b),
    ensures
        a.operands() == b.operands(),
        a.is_primitive() == b.is_primitive(),
{
}

/// The slots of the nodes before the root, as they stand when the root is
/// about to be folded.
pub open spec fn slots_before_root(g: Graph) -> Seq<usize> {
    fold_nodes(g.nodes, g.material_slots(), g.nodes.len() - 1).1
}

/// No node before the root has a slot behind those of both operands of the
/// root: each of them is reached from the root, and a kept operand stands
/// before the kept operation.
proof fn lemma_slots_under_root(g: Graph, i: int)
    requires
        g.wf(),
        0 <= i < g.nodes.len() - 1,
    ensures
        g.nodes[g.root()].operands() is Some,
        ({
            let (x, y) = g.nodes[g.root()].operands()->0;
            let slots = slots_before_root(g);
            slots[i] <= slots[x as int] || slots[i] <= slots[y as int]
        }),
    decreases g.nodes.len() - i,
{
    let n = g.nodes.len() as int;
    lemma_fold_materials(g.materials, g.materials.len() as int);
    let kept_materials = fold_materials(g.materials, g.materials.len() as int).0;
    lemma_fold_nodes(g.nodes, g.material_slots(), kept_materials.len() as int, n - 1);
    let (kept, slots) = fold_nodes(g.nodes, g.material_slots(), n - 1);
    assert(g.has_parent(n - 2));
    assert(g.has_parent(i));
    let k = choose|k: int| i < k < g.nodes.len() && (#[trigger] g.nodes[k]).refers_to(i);
    if k < n - 1 {
        lemma_slots_under_root(g, k);
        assert(g.nodes[k].fits(k, g.materials.len() as int));
        let (a, b) = g.nodes[k].operands()->0;
        let image = kept[slots[k] as int];
        lemma_agrees_operands(image, g.nodes[k].remapped(g.material_slots(), slots));
        assert(image.operands() == Some((slots[a as int], slots[b as int])));
        assert(image.fits(slots[k] as int, kept_materials.len() as int));
        assert(slots[i] < slots[k]);
    }
}

/// The root is never folded into an earlier node.
proof fn lemma_root_is_kept(g: Graph)
    requires
        g.wf(),
    ensures
        ({
            let (kept, slots) = fold_nodes(g.nodes, g.material_slots(), g.nodes.len() - 1);
            let item = g.nodes[g.root()].remapped(g.material_slots(), slots);
            node_match(kept, item, 0) == kept.len()
        }),
{
    let n = g.nodes.len() as int;
    lemma_fold_materials(g.materials, g.materials.len() as int);
    let kept_materials = fold_materials(g.materials, g.materials.len() as int).0;
    lemma_fold_nodes(g.nodes, g.material_slots(), kept_materials.len() as int, n - 1);
    let (kept, slots) = fold_nodes(g.nodes, g.material_slots(), n - 1);
    let item = g.nodes[g.root()].remapped(g.material_slots(), slots);
    let j = node_match(kept, item, 0);
    lemma_node_match(kept, item, 0);
    if j < kept.len() {
        assert(node_kept_from(kept, slots, g.nodes, g.material_slots(), n - 1, j));
        let i = choose|i: int|
            0 <= i < n - 1 && #[trigger] slots[i] == j && kept[j] == g.nodes[i].remapped(
                g.material_slots(),
                slots,
            );
        lemma_slots_under_root(g, i);
        let (x, y) = g.nodes[g.root()].operands()->0;
        lemma_agrees_operands(kept[j], item);
        assert(kept[j].fits(j, kept_materials.len() as int));
        assert(false);
    }
}

/// What folding keeps of a graph `g`: the result is well formed, every
/// material and every node of `g` is found again at its slot, the root at
/// the root, and no two kept entries are equal.
pub open spec fn folds_well(g: Graph) -> bool {
    let out = g.simplified();
    let materials = g.material_slots();
    let nodes = g.node_slots();
    &&& out.wf()
    &&& materials.len() == g.materials.len()
    &&& nodes.len() == g.nodes.len()
    &&& out.nodes.len() <= g.nodes.len()
    &&& out.materials.len() <= g.materials.len()
    &&& forall|i: int|
        0 <= i < g.materials.len() ==> (#[trigger] materials[i]) < out.materials.len()
            && out.materials[materials[i] as int].agrees(g.materials[i])
    &&& forall|i: int|
        0 <= i < g.nodes.len() ==> (#[trigger] nodes[i]) < out.nodes.len()
            && out.nodes[nodes[i] as int].agrees(g.nodes[i].remapped(materials, nodes))
    &&& nodes[g.root()] == out.root()
    &&& distinct_materials(out.materials)
    &&& distinct_nodes(out.nodes)
}

/// Folding a well-formed graph gives a well-formed graph in which every
/// entry of the first is found again.
pub proof fn lemma_simplified(g: Graph)
    requires
        g.wf(),
    ensures
        folds_well(g),
{
    let n = g.nodes.len() as int;
    let out = g.simplified();
    let materials = g.material_slots();
    let slots = g.node_slots();
    lemma_fold_materials(g.materials, g.materials.len() as int);
    lemma_fold_nodes(g.nodes, materials, out.materials.len() as int, n);
    lemma_fold_nodes(g.nodes, materials, out.materials.len() as int, n - 1);
    lemma_root_is_kept(g);
    assert(slots[g.root()] == out.root());
    assert forall|j: int| 0 <= j < out.nodes.len() - 1 implies #[trigger] out.has_parent(j) by {
        assert(node_kept_from(out.nodes, slots, g.nodes, materials, n, j));
        let i = choose|i: int|
            0 <= i < n && #[trigger] slots[i] == j && out.nodes[j] == g.nodes[i].remapped(
                materials,
                slots,
            );
        assert(g.has_parent(i));
        let k = choose|k: int| i < k < g.nodes.len() && (#[trigger] g.nodes[k]).refers_to(i);
        assert(g.nodes[k].fits(k, g.materials.len() as int));
        let image = out.nodes[slots[k] as int];
        lemma_agrees_operands(image, g.nodes[k].remapped(materials, slots));
        assert(image.fits(slots[k] as int, out.materials.len() as int));
        assert(image.refers_to(j));
    }
}

/// Two well-formed graphs side by side under a new root that names their
/// two roots make a well-formed graph.
pub proof fn lemma_joined_wf(a: Graph, b: Graph, root: Distance)
    requires
        a.wf(),
        b.wf(),
        a.joins(b),
        root.operands() == Some((a.root() as usize, a.far_root(b) as usize)),
    ensures
        a.appended(b).with_root(root).wf(),
{
    let g = a.appended(b).with_root(root);
    let na = a.nodes.len() as int;
    let nb = b.nodes.len() as int;
    assert forall|i: int| 0 <= i < g.nodes.len() implies (#[trigger] g.nodes[i]).fits(
        i,
        g.materials.len() as int,
    ) by {
        if i < na {
            assert(a.nodes[i].fits(i, a.materials.len() as int));
        } else if i < na + nb {
            assert(b.nodes[i - na].fits(i - na, b.materials.len() as int));
        }
    }
    assert forall|i: int| 0 <= i < g.nodes.len() - 1 implies #[trigger] g.has_parent(i) by {
        if i < na - 1 {
            assert(a.has_parent(i));
            let k = choose|k: int| i < k < a.nodes.len() && (#[trigger] a.nodes[k]).refers_to(i);
            assert(g.nodes[k].refers_to(i));
        } else if i == na - 1 {
            assert(g.nodes[na + nb].refers_to(i));
        } else if i < na + nb - 1 {
            assert(b.has_parent(i - na));
            let k = choose|k: int|
                i - na < k < b.nodes.len() && (#[trigger] b.nodes[k]).refers_to(i - na);
            assert(b.nodes[k].fits(k, b.materials.len() as int));
            assert(g.nodes[k + na].refers_to(i));
        } else {
            assert(g.nodes[na + nb].refers_to(i));
        }
    }
}

/// Moving a shape leaves its graph well formed.
pub proof fn lemma_translated_wf<F: Fn(Op) -> Scalar>(g: Graph, vec: Vec3, fpu: &F)
    requires
        g.wf(),
    ensures
        g.translated(vec, fpu).wf(),
{
    let t = g.translated(vec, fpu);
    assert forall|i: int| 0 <= i < t.nodes.len() implies (#[trigger] t.nodes[i]).fits(
        i,
        t.materials.len() as int,
    ) by {
        assert(g.nodes[i].fits(i, g.materials.len() as int));
    }
    assert forall|i: int| 0 <= i < t.nodes.len() - 1 implies #[trigger] t.has_parent(i) by {
        assert(g.has_parent(i));
        let k = choose|k: int| i < k < g.nodes.len() && (#[trigger] g.nodes[k]).refers_to(i);
        assert(t.nodes[k].refers_to(i));
    }
}

/// The table that sends every index below `n` to itself.
pub open spec fn identity_slots(n: int) -> Seq<usize> {
    Seq::new(n as nat, |i: int| i as usize)
}

/// Folding materials of which no two are equal keeps them all.
pub proof fn lemma_fold_distinct_materials(materials: Seq<Material>, n: int)
    requires
        0 <= n <= materials.len() <= usize::MAX,
        distinct_materials(materials),
    ensures
        fold_materials(materials, n).0 == materials.take(n),
        fold_materials(materials, n).1 == identity_slots(n),
    decreases n,
{
    if n > 0 {
        lemma_fold_distinct_materials(materials, n - 1);
        let kept = materials.take(n - 1);
        lemma_material_match(kept, materials[n - 1], 0);
        let j = material_match(kept, materials[n - 1], 0);
        if j < kept.len() {
            assert(kept[j] == materials[j]);
            assert(materials[j].equals(materials[n - 1]));
        }
        assert(fold_materials(materials, n).0 =~= materials.take(n));
        assert(fold_materials(materials, n).1 =~= identity_slots(n));
    } else {
        assert(fold_materials(materials, n).0 =~= materials.take(n));
        assert(fold_materials(materials, n).1 =~= identity_slots(n));
    }
}

/// Folding nodes of which no two are equal, with every material in its
/// place, keeps them all.
pub proof fn lemma_fold_distinct_nodes(nodes: Seq<Distance>, materials: int, n: int)
    requires
        0 <= n <= nodes.len() <= usize::MAX,
        0 <= materials <= usize::MAX,
        nodes_fit(nodes, materials),
        distinct_nodes(nodes),
    ensures
        fold_nodes(nodes, identity_slots(materials), n).0 == nodes.take(n),
        fold_nodes(nodes, identity_slots(materials), n).1 == identity_slots(n),
    decreases n,
{
    let table = identity_slots(materials);
    if n > 0 {
        lemma_fold_distinct_nodes(nodes, materials, n - 1);
        let kept = nodes.take(n - 1);
        assert(nodes[n - 1].fits(n - 1, materials));
        let item = nodes[n - 1].remapped(table, identity_slots(n - 1));
        assert(item == nodes[n - 1]);
        lemma_node_match(kept, item, 0);
        let j = node_match(kept, item, 0);
        if j < kept.len() {
            assert(kept[j] == nodes[j]);
            assert(nodes[j].equals(nodes[n - 1]));
        }
        assert(fold_nodes(nodes, table, n).0 =~= nodes.take(n));
        assert(fold_nodes(nodes, table, n).1 =~= identity_slots(n));
    } else {
        assert(fold_nodes(nodes, table, n).0 =~= nodes.take(n));
        assert(fold_nodes(nodes, table, n).1 =~= identity_slots(n));
    }
}

/// A well-formed graph in which no two materials and no two nodes are equal
/// is its own fold.
pub proof fn lemma_distinct_is_simplified(g: Graph)
    requires
        g.wf(),
        distinct_materials(g.materials),
        distinct_nodes(g.nodes),
    ensures
        g.simplified() == g,
{
    lemma_fold_distinct_materials(g.materials, g.materials.len() as int);
    lemma_fold_distinct_nodes(g.nodes, g.materials.len() as int, g.nodes.len() as int);
    assert(g.materials.take(g.materials.len() as int) =~= g.materials);
    assert(g.nodes.take(g.nodes.len() as int) =~= g.nodes);
}

/// Folding twice gives what folding once gives.
pub proof fn lemma_simplify_idempotent(g: Graph)
    requires
        g.wf(),
    ensures
        g.simplified().simplified() == g.simplified(),
{
    lemma_simplified(g);
    lemma_distinct_is_simplified(g.simplified());
}

} // verus!
