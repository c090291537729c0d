//! The entries of a distance graph: materials and nodes.

use crate::math::{apply, Op, Vec3};
use crate::scalar::Scalar;
use vstd::prelude::*;
use vstd::std_specs::cmp::PartialEqSpecImpl;

verus! {

/// An RGB color.
#[derive(Clone, Copy, Debug)]
pub struct Color {
    pub r: Scalar,
    pub g: Scalar,
    pub b: Scalar,
}

impl Color {
    /// Channel-wise IEEE 754 equality.
    pub open spec fn equals(self, other: Color) -> bool {
        self.r.equals(other.r) && self.g.equals(other.g) && self.b.equals(other.b)
    }
}

impl PartialEq for Color {
    /// Channel-wise IEEE 754 equality.
    fn eq(&self, other: &Color) -> (r: bool) {
        self.r == other.r && self.g == other.g && self.b == other.b
    }
}

impl PartialEqSpecImpl for Color {
    open spec fn obeys_eq_spec() -> bool {
        true
    }

    open spec fn eq_spec(&self, other: &Color) -> bool {
        self.equals(*other)
    }
}

/// The way that the surface of an object is colored.
#[derive(Clone, Copy, Debug)]
pub enum Material {
    /// The same color all over the surface.
    Flat(Color),
}

impl Material {
    /// Structural equality, the colors compared as numbers.
    pub open spec fn equals(self, other: Material) -> bool {
        match (self, other) {
            (Material::Flat(a), Material::Flat(b)) => a.equals(b),
        }
    }

    /// The two are one material: the same patterns, or equal as numbers.
    pub open spec fn agrees(self, other: Material) -> bool {
        self == other || self.equals(other)
    }
}

impl PartialEq for Material {
    /// Structural equality, the colors compared as numbers.
    fn eq(&self, other: &Material) -> (r: bool) {
        match self {
            Material::Flat(a) => match other {
                Material::Flat(b) => *a == *b,
            },
        }
    }
}

impl PartialEqSpecImpl for Material {
    open spec fn obeys_eq_spec() -> bool {
        true
    }

    open spec fn eq_spec(&self, other: &Material) -> bool {
        self.equals(*other)
    }
}

/// A node of a distance graph. A primitive names its material by index; an
/// operation names its two operands by index.
#[derive(Clone, Copy, Debug)]
pub enum Distance {
    /// The ball around `center`.
    Sphere { center: Vec3, radius: Scalar, material: usize },
    /// The half-space behind the plane of the points `p` with
    /// `dot(p, normal) = offset`. The normal is of unit length.
    Plane { normal: Vec3, offset: Scalar, material: usize },
    /// The union of two nodes: the smaller of their distances.
    Union(usize, usize),
    /// The intersection of two nodes: the larger of their distances.
    Intersection(usize, usize),
    /// The symmetric difference of two nodes: of their distances `a` and
    /// `b`, `max(min(a, b), -max(a, b))`.
    Exclusion(usize, usize),
    /// The difference of two nodes: of their distances `a` and `b`,
    /// `max(-a, b)`.
    Subtraction(usize, usize),
}

impl Distance {
    /// Whether the node is a sphere or a plane.
    pub open spec fn is_primitive(self) -> bool {
        self is Sphere || self is Plane
    }

    /// The operands of an operation. A primitive has none.
    pub open spec fn operands(self) -> Option<(usize, usize)> {
        match self {
            Distance::Sphere { .. } | Distance::Plane { .. } => None,
            Distance::Union(x, y)
            | Distance::Intersection(x, y)
            | Distance::Exclusion(x, y)
            | Distance::Subtraction(x, y) => Some((x, y)),
        }
    }

    /// Whether `i` is an operand of the node.
    pub open spec fn refers_to(self, i: int) -> bool {
        match self.operands() {
            Some((x, y)) => x == i || y == i,
            None => false,
        }
    }

    /// A node may stand at index `at` of a graph with `materials` materials:
    /// a primitive names one of the materials, an operation names two nodes
    /// before itself.
    pub open spec fn fits(self, at: int, materials: int) -> bool {
        match self {
            Distance::Sphere { material, .. } | Distance::Plane { material, .. } => material
                < materials,
            Distance::Union(x, y)
            | Distance::Intersection(x, y)
            | Distance::Exclusion(x, y)
            | Distance::Subtraction(x, y) => x < at && y < at,
        }
    }

    /// Structural equality, the numbers compared as IEEE 754 does.
    pub open spec fn equals(self, other: Distance) -> bool {
        match (self, other) {
            (
                Distance::Sphere { center: c1, radius: r1, material: m1 },
                Distance::Sphere { center: c2, radius: r2, material: m2 },
            ) => c1.equals(c2) && r1.equals(r2) && m1 == m2,
            (
                Distance::Plane { normal: n1, offset: o1, material: m1 },
                Distance::Plane { normal: n2, offset: o2, material: m2 },
            ) => n1.equals(n2) && o1.equals(o2) && m1 == m2,
            (Distance::Union(x1, y1), Distance::Union(x2, y2)) => x1 == x2 && y1 == y2,
            (Distance::Intersection(x1, y1), Distance::Intersection(x2, y2)) => x1 == x2 && y1
                == y2,
            (Distance::Exclusion(x1, y1), Distance::Exclusion(x2, y2)) => x1 == x2 && y1 == y2,
            (Distance::Subtraction(x1, y1), Distance::Subtraction(x2, y2)) => x1 == x2 && y1
                == y2,
            _ => false,
        }
    }

    /// Both are spheres or both are planes, and number by number their
    /// geometry is the same. The materials do not count.
    pub open spec fn same_shape(self, other: Distance) -> bool {
        match (self, other) {
            (
                Distance::Sphere { center: c1, radius: r1, .. },
                Distance::Sphere { center: c2, radius: r2, .. },
            ) => c1.akin(c2) && r1.akin(r2),
            (
                Distance::Plane { normal: n1, offset: o1, .. },
                Distance::Plane { normal: n2, offset: o2, .. },
            ) => n1.akin(n2) && o1.akin(o2),
            _ => false,
        }
    }

    /// The two are one node: the same patterns, or equal as numbers.
    pub open spec fn agrees(self, other: Distance) -> bool {
        self == other || self.equals(other)
    }

    /// The node as it reads once it is moved behind `nodes` nodes and
    /// `materials` materials of another graph: every index is shifted.
    pub open spec fn rebased(self, nodes: int, materials: int) -> Distance {
        match self {
            Distance::Sphere { center, radius, material } => Distance::Sphere {
                center,
                radius,
                material: (material + materials) as usize,
            },
            Distance::Plane { normal, offset, material } => Distance::Plane {
                normal,
                offset,
                material: (material + materials) as usize,
            },
            Distance::Union(x, y) => Distance::Union((x + nodes) as usize, (y + nodes) as usize),
            Distance::Intersection(x, y) => Distance::Intersection(
                (x + nodes) as usize,
                (y + nodes) as usize,
            ),
            Distance::Exclusion(x, y) => Distance::Exclusion(
                (x + nodes) as usize,
                (y + nodes) as usize,
            ),
            Distance::Subtraction(x, y) => Distance::Subtraction(
                (x + nodes) as usize,
                (y + nodes) as usize,
            ),
        }
    }

    /// The node moved along `vec`. The center of a sphere moves with it; a
    /// plane keeps its normal and its offset grows by `dot(vec, normal)`; an
    /// operation stays as it is.
    pub open spec fn translated<F: Fn(Op) -> Scalar>(self, vec: Vec3, fpu: &F) -> Distance {
        match self {
            Distance::Sphere { center, radius, material } => Distance::Sphere {
                center: center.sum(vec, fpu),
                radius,
                material,
            },
            Distance::Plane { normal, offset, material } => Distance::Plane {
                normal,
                offset: apply(fpu, Op::Add(offset, vec.dot_product(normal, fpu))),
                material,
            },
            _ => self,
        }
    }

    /// The node with every index looked up in a table: the material of a
    /// primitive in `materials`, the operands of an operation in `nodes`.
    pub open spec fn remapped(self, materials: Seq<usize>, nodes: Seq<usize>) -> Distance {
        match self {
            Distance::Sphere { center, radius, material } => Distance::Sphere {
                center,
                radius,
                material: materials[material as int],
            },
            Distance::Plane { normal, offset, material } => Distance::Plane {
                normal,
                offset,
                material: materials[material as int],
            },
            Distance::Union(x, y) => Distance::Union(nodes[x as int], nodes[y as int]),
            Distance::Intersection(x, y) => Distance::Intersection(
                nodes[x as int],
                nodes[y as int],
            ),
            Distance::Exclusion(x, y) => Distance::Exclusion(nodes[x as int], nodes[y as int]),
            Distance::Subtraction(x, y) => Distance::Subtraction(nodes[x as int], nodes[y as int]),
        }
    }
}

impl PartialEq for Distance {
    /// Structural equality, the numbers compared as IEEE 754 does.
    fn eq(&self, other: &Distance) -> (r: bool) {
        match *self {
            Distance::Sphere { center: c1, radius: r1, material: m1 } => match *other {
                Distance::Sphere { center: c2, radius: r2, material: m2 } => c1 == c2 && r1 == r2
                    && m1 == m2,
                _ => false,
            },
            Distance::Plane { normal: n1, offset: o1, material: m1 } => match *other {
                Distance::Plane { normal: n2, offset: o2, material: m2 } => n1 == n2 && o1 == o2
                    && m1 == m2,
                _ => false,
            },
            Distance::Union(x1, y1) => match *other {
                Distance::Union(x2, y2) => x1 == x2 && y1 == y2,
                _ => false,
            },
            Distance::Intersection(x1, y1) => match *other {
                Distance::Intersection(x2, y2) => x1 == x2 && y1 == y2,
                _ => false,
            },
            Distance::Exclusion(x1, y1) => match *other {
                Distance::Exclusion(x2, y2) => x1 == x2 && y1 == y2,
                _ => false,
            },
            Distance::Subtraction(x1, y1) => match *other {
                Distance::Subtraction(x2, y2) => x1 == x2 && y1 == y2,
                _ => false,
            },
        }
    }
}

impl PartialEqSpecImpl for Distance {
    open spec fn obeys_eq_spec() -> bool {
        true
    }

    open spec fn eq_spec(&self, other: &Distance) -> bool {
        self.equals(*other)
    }
}

} // verus!
