//! The form in which a shape is handed to a shader: one record of fixed size
//! for each node and one for each material.
//!
//! A distance record is eight words of 32 bits: the tag, two operands, one
//! word of padding and four numbers. A material record is four words: the tag
//! and three numbers. How the words are laid out in bytes is the matter of
//! [`crate::wire`].

use crate::graph::Graph;
use crate::math::Vec3;
use crate::node::{Color, Distance, Material};
use crate::scalar::Scalar;
use crate::sdf::Sdf;
use vstd::prelude::*;

verus! {

/// The word that fills an operand that is not used.
pub const MAGIC_U32: u32 = 0xdead_beef;

/// The bit pattern of `-12.34`, the number that fills a payload that is not
/// used.
pub const MAGIC_F32_BITS: u32 = 0xc145_70a4;

/// The tag of a sphere.
pub const TAG_SPHERE: u32 = 0;

/// The tag of a plane.
pub const TAG_PLANE: u32 = 1;

/// The tag of a union.
pub const TAG_UNION: u32 = 2;

/// The tag of an intersection.
pub const TAG_INTERSECTION: u32 = 3;

/// The tag of an exclusion.
pub const TAG_EXCLUSION: u32 = 4;

/// The tag of a subtraction.
pub const TAG_SUBTRACTION: u32 = 5;

/// The tag of a flat material.
pub const TAG_FLAT: u32 = 0;

/// A node, as the shader reads it.
#[derive(Clone, Copy, Debug)]
pub struct GpuDistance {
    pub tag: u32,
    pub x: u32,
    pub y: u32,
    pub padding: u32,
    pub v: [Scalar; 4],
}

/// A material, as the shader reads it.
#[derive(Clone, Copy, Debug)]
pub struct GpuMaterial {
    pub tag: u32,
    pub r: Scalar,
    pub g: Scalar,
    pub b: Scalar,
}

impl Distance {
    /// Every index of the node fits in a word of 32 bits.
    pub open spec fn fits_words(self) -> bool {
        match self {
            Distance::Sphere { material, .. } | Distance::Plane { material, .. } => material
                <= u32::MAX,
            Distance::Union(x, y)
            | Distance::Intersection(x, y)
            | Distance::Exclusion(x, y)
            | Distance::Subtraction(x, y) => x <= u32::MAX && y <= u32::MAX,
        }
    }

    /// The record of the node. The first operand of a primitive is its
    /// material, the second is filler; the operands of an operation are its
    /// two nodes. An index is cut to 32 bits.
    pub open spec fn encoded(self) -> GpuDistance {
        let filler = Scalar { bits: MAGIC_F32_BITS };
        match self {
            Distance::Sphere { center, radius, material } => GpuDistance {
                tag: TAG_SPHERE,
                x: material as u32,
                y: MAGIC_U32,
                padding: MAGIC_U32,
                v: [center.x, center.y, center.z, radius],
            },
            Distance::Plane { normal, offset, material } => GpuDistance {
                tag: TAG_PLANE,
                x: material as u32,
                y: MAGIC_U32,
                padding: MAGIC_U32,
                v: [normal.x, normal.y, normal.z, offset],
            },
            Distance::Union(x, y) => GpuDistance {
                tag: TAG_UNION,
                x: x as u32,
                y: y as u32,
                padding: MAGIC_U32,
                v: [filler, filler, filler, filler],
            },
            Distance::Intersection(x, y) => GpuDistance {
                tag: TAG_INTERSECTION,
                x: x as u32,
                y: y as u32,
                padding: MAGIC_U32,
                v: [filler, filler, filler, filler],
            },
            Distance::Exclusion(x, y) => GpuDistance {
                tag: TAG_EXCLUSION,
                x: x as u32,
                y: y as u32,
                padding: MAGIC_U32,
                v: [filler, filler, filler, filler],
            },
            Distance::Subtraction(x, y) => GpuDistance {
                tag: TAG_SUBTRACTION,
                x: x as u32,
                y: y as u32,
                padding: MAGIC_U32,
                v: [filler, filler, filler, filler],
            },
        }
    }

    /// The record of the node.
    pub fn encode(&self) -> (r: GpuDistance)
        ensures
            r == self.encoded(),
    {
        let filler = Scalar { bits: MAGIC_F32_BITS };
        match *self {
            Distance::Sphere { center, radius, material } => GpuDistance {
                tag: TAG_SPHERE,
                x: material as u32,
                y: MAGIC_U32,
                padding: MAGIC_U32,
                v: [center.x, center.y, center.z, radius],
            },
            Distance::Plane { normal, offset, material } => GpuDistance {
                tag: TAG_PLANE,
                x: material as u32,
                y: MAGIC_U32,
                padding: MAGIC_U32,
                v: [normal.x, normal.y, normal.z, offset],
            },
            Distance::Union(x, y) => GpuDistance {
                tag: TAG_UNION,
                x: x as u32,
                y: y as u32,
                padding: MAGIC_U32,
                v: [filler, filler, filler, filler],
            },
            Distance::Intersection(x, y) => GpuDistance {
                tag: TAG_INTERSECTION,
                x: x as u32,
                y: y as u32,
                padding: MAGIC_U32,
                v: [filler, filler, filler, filler],
            },
            Distance::Exclusion(x, y) => GpuDistance {
                tag: TAG_EXCLUSION,
                x: x as u32,
                y: y as u32,
                padding: MAGIC_U32,
                v: [filler, filler, filler, filler],
            },
            Distance::Subtraction(x, y) => GpuDistance {
                tag: TAG_SUBTRACTION,
                x: x as u32,
                y: y as u32,
                padding: MAGIC_U32,
                v: [filler, filler, filler, filler],
            },
        }
    }
}

impl Material {
    /// The record of the material.
    pub open spec fn encoded(self) -> GpuMaterial {
        match self {
            Material::Flat(color) => GpuMaterial {
                tag: TAG_FLAT,
                r: color.r,
                g: color.g,
                b: color.b,
            },
        }
    }

    /// The record of the material.
    pub fn encode(&self) -> (r: GpuMaterial)
        ensures
            r == self.encoded(),
    {
        match *self {
            Material::Flat(color) => GpuMaterial {
                tag: TAG_FLAT,
                r: color.r,
                g: color.g,
                b: color.b,
            },
        }
    }
}

impl GpuDistance {
    /// The node that the record stands for, read by its tag: the operands as
    /// indices, the payload as geometry. The filler is not read.
    pub open spec fn decoded(self) -> Option<Distance> {
        if self.tag == TAG_SPHERE {
            Some(
                Distance::Sphere {
                    center: Vec3 { x: self.v@[0], y: self.v@[1], z: self.v@[2] },
                    radius: self.v@[3],
                    material: self.x as usize,
                },
            )
        } else if self.tag == TAG_PLANE {
            Some(
                Distance::Plane {
                    normal: Vec3 { x: self.v@[0], y: self.v@[1], z: self.v@[2] },
                    offset: self.v@[3],
                    material: self.x as usize,
                },
            )
        } else if self.tag == TAG_UNION {
            Some(Distance::Union(self.x as usize, self.y as usize))
        } else if self.tag == TAG_INTERSECTION {
            Some(Distance::Intersection(self.x as usize, self.y as usize))
        } else if self.tag == TAG_EXCLUSION {
            Some(Distance::Exclusion(self.x as usize, self.y as usize))
        } else if self.tag == TAG_SUBTRACTION {
            Some(Distance::Subtraction(self.x as usize, self.y as usize))
        } else {
            None
        }
    }

    /// Reads the record back into a node. `None` if the tag is not one of a
    /// node.
    pub fn decode(&self) -> (r: Option<Distance>)
        ensures
            r == self.decoded(),
    {
        let x = self.x as usize;
        let y = self.y as usize;
        let v = Vec3 { x: self.v[0], y: self.v[1], z: self.v[2] };
        if self.tag == TAG_SPHERE {
            Some(Distance::Sphere { center: v, radius: self.v[3], material: x })
        } else if self.tag == TAG_PLANE {
            Some(Distance::Plane { normal: v, offset: self.v[3], material: x })
        } else if self.tag == TAG_UNION {
            Some(Distance::Union(x, y))
        } else if self.tag == TAG_INTERSECTION {
            Some(Distance::Intersection(x, y))
        } else if self.tag == TAG_EXCLUSION {
            Some(Distance::Exclusion(x, y))
        } else if self.tag == TAG_SUBTRACTION {
            Some(Distance::Subtraction(x, y))
        } else {
            None
        }
    }
}

impl GpuMaterial {
    /// The material that the record stands for.
    pub open spec fn decoded(self) -> Option<Material> {
        if self.tag == TAG_FLAT {
            Some(Material::Flat(Color { r: self.r, g: self.g, b: self.b }))
        } else {
            None
        }
    }

    /// Reads the record back into a material. `None` if the tag is not one
    /// of a material.
    pub fn decode(&self) -> (r: Option<Material>)
        ensures
            r == self.decoded(),
    {
        if self.tag == TAG_FLAT {
            Some(Material::Flat(Color { r: self.r, g: self.g, b: self.b }))
        } else {
            None
        }
    }
}

impl Graph {
    /// The records of the nodes, in order.
    pub open spec fn distance_records(self) -> Seq<GpuDistance> {
        Seq::new(self.nodes.len(), |i: int| self.nodes[i].encoded())
    }

    /// The records of the materials, in order.
    pub open spec fn material_records(self) -> Seq<GpuMaterial> {
        Seq::new(self.materials.len(), |i: int| self.materials[i].encoded())
    }

    /// Every index of the graph fits in a word of 32 bits.
    pub open spec fn fits_words(self) -> bool {
        self.nodes.len() <= 0x1_0000_0000 && self.materials.len() <= 0x1_0000_0000
    }
}

impl Sdf {
    /// The records of the nodes and of the materials, in order.
    pub fn to_gpu_repr(&self) -> (r: (Vec<GpuDistance>, Vec<GpuMaterial>))
        ensures
            r.0@ == self@.distance_records(),
            r.1@ == self@.material_records(),
    {
        let nodes = self.nodes();
        let mut distances: Vec<GpuDistance> = Vec::new();
        let mut i: usize = 0;
        while i < nodes.len()
            invariant
                nodes@ == self@.nodes,
                i <= nodes.len(),
                distances@ == Seq::new(i as nat, |k: int| self@.nodes[k].encoded()),
            decreases nodes.len() - i,
        {
            distances.push(nodes[i].encode());
            i += 1;
        }
        let palette = self.palette();
        let mut materials: Vec<GpuMaterial> = Vec::new();
        let mut i: usize = 0;
        while i < palette.len()
            invariant
                palette@ == self@.materials,
                i <= palette.len(),
                materials@ == Seq::new(i as nat, |k: int| self@.materials[k].encoded()),
            decreases palette.len() - i,
        {
            materials.push(palette[i].encode());
            i += 1;
        }
        (distances, materials)
    }
}

/// A node whose indices fit in 32 bits is read back from its record as it
/// was.
pub proof fn lemma_distance_round_trip(node: Distance)
    requires
        node.fits_words(),
    ensures
        node.encoded().decoded() == Some(node),
{
}

/// A material is read back from its record as it was.
pub proof fn lemma_material_round_trip(material: Material)
    ensures
        material.encoded().decoded() == Some(material),
{
}

/// The records of a well-formed graph whose indices fit in 32 bits are read
/// back as its nodes and its materials.
pub proof fn lemma_records_round_trip(g: Graph)
    requires
        g.wf(),
        g.fits_words(),
    ensures
        forall|i: int|
            0 <= i < g.nodes.len() ==> (#[trigger] g.distance_records()[i]).decoded() == Some(
                g.nodes[i],
            ),
        forall|i: int|
            0 <= i < g.materials.len() ==> (#[trigger] g.material_records()[i]).decoded() == Some(
                g.materials[i],
            ),
{
    assert forall|i: int| 0 <= i < g.nodes.len() implies (#[trigger] g.distance_records()[i])
        .decoded() == Some(g.nodes[i]) by {
        assert(g.nodes[i].fits(i, g.materials.len() as int));
        lemma_distance_round_trip(g.nodes[i]);
    }
    assert forall|i: int| 0 <= i < g.materials.len() implies (#[trigger] g.material_records()[i])
        .decoded() == Some(g.materials[i]) by {
        lemma_material_round_trip(g.materials[i]);
    }
}

} // verus!
