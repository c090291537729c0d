//! The bytes of the records of a shape.
//!
//! Every word of a record is written out with its least significant byte
//! first, and the records stand one behind the other: distance record `i`
//! takes the 32 bytes from `32 * i`, material record `i` the 16 bytes from
//! `16 * i`.

use crate::gpu::{lemma_records_round_trip, GpuDistance, GpuMaterial};
use crate::graph::Graph;
use crate::scalar::Scalar;
use crate::sdf::Sdf;
use vstd::prelude::*;

verus! {

/// The number of bytes of a distance record.
pub const DISTANCE_BYTES: usize = 32;

/// The number of bytes of a material record.
pub const MATERIAL_BYTES: usize = 16;

/// The four bytes of a word, the least significant first.
pub open spec fn word_bytes(w: u32) -> Seq<u8> {
    seq![
        (w & 0xff) as u8,
        ((w >> 8) & 0xff) as u8,
        ((w >> 16) & 0xff) as u8,
        ((w >> 24) & 0xff) as u8,
    ]
}

/// The word whose four bytes stand at `at`, the least significant first.
pub open spec fn word_at(bytes: Seq<u8>, at: int) -> u32 {
    (bytes[at] as u32) | (bytes[at + 1] as u32) << 8 | (bytes[at + 2] as u32) << 16 | (bytes[at
        + 3] as u32) << 24
}

/// Writes a word behind `out`, the least significant byte first.
fn push_word(out: &mut Vec<u8>, w: u32)
    ensures
        final(out)@ == old(out)@ + word_bytes(w),
{
    out.push((w & 0xff) as u8);
    out.push(((w >> 8) & 0xff) as u8);
    out.push(((w >> 16) & 0xff) as u8);
    out.push(((w >> 24) & 0xff) as u8);
}

/// Reads the word at `at`, the least significant byte first.
fn read_word(bytes: &[u8], at: usize) -> (w: u32)
    requires
        at + 4 <= bytes@.len(),
    ensures
        w == word_at(bytes@, at as int),
{
    (bytes[at] as u32) | (bytes[at + 1] as u32) << 8 | (bytes[at + 2] as u32) << 16 | (bytes[at
        + 3] as u32) << 24
}

/// A word is read back from its bytes as it was.
pub proof fn lemma_word_round_trip(w: u32)
    ensures
        word_bytes(w).len() == 4,
        word_at(word_bytes(w), 0) == w,
{
    assert(w == (((w & 0xff) as u8) as u32) | ((((w >> 8) & 0xff) as u8) as u32) << 8 | ((((w
        >> 16) & 0xff) as u8) as u32) << 16 | ((((w >> 24) & 0xff) as u8) as u32) << 24)
        by (bit_vector);
}

impl GpuDistance {
    /// The 32 bytes of the record: tag, operands, padding and payload, word
    /// by word.
    pub open spec fn bytes(self) -> Seq<u8> {
        word_bytes(self.tag) + word_bytes(self.x) + word_bytes(self.y) + word_bytes(self.padding)
            + word_bytes(self.v@[0].bits) + word_bytes(self.v@[1].bits) + word_bytes(
            self.v@[2].bits,
        ) + word_bytes(self.v@[3].bits)
    }

    /// The record whose 32 bytes stand at `at`.
    pub open spec fn at(bytes: Seq<u8>, at: int) -> GpuDistance {
        GpuDistance {
            tag: word_at(bytes, at),
            x: word_at(bytes, at + 4),
            y: word_at(bytes, at + 8),
            padding: word_at(bytes, at + 12),
            v: [
                Scalar { bits: word_at(bytes, at + 16) },
                Scalar { bits: word_at(bytes, at + 20) },
                Scalar { bits: word_at(bytes, at + 24) },
                Scalar { bits: word_at(bytes, at + 28) },
            ],
        }
    }

    /// Writes the record behind `out`.
    pub fn write(&self, out: &mut Vec<u8>)
        ensures
            final(out)@ == old(out)@ + self.bytes(),
    {
        push_word(out, self.tag);
        push_word(out, self.x);
        push_word(out, self.y);
        push_word(out, self.padding);
        push_word(out, self.v[0].bits);
        push_word(out, self.v[1].bits);
        push_word(out, self.v[2].bits);
        push_word(out, self.v[3].bits);
    }

    /// Reads a record from its bytes. `None` unless there are 32 of them.
    pub fn read(bytes: &[u8]) -> (r: Option<GpuDistance>)
        ensures
            bytes@.len() == DISTANCE_BYTES ==> r == Some(GpuDistance::at(bytes@, 0)),
            bytes@.len() != DISTANCE_BYTES ==> r is None,
    {
        if bytes.len() != DISTANCE_BYTES {
            return None;
        }
        Some(
            GpuDistance {
                tag: read_word(bytes, 0),
                x: read_word(bytes, 4),
                y: read_word(bytes, 8),
                padding: read_word(bytes, 12),
                v: [
                    Scalar { bits: read_word(bytes, 16) },
                    Scalar { bits: read_word(bytes, 20) },
                    Scalar { bits: read_word(bytes, 24) },
                    Scalar { bits: read_word(bytes, 28) },
                ],
            },
        )
    }
}

impl GpuMaterial {
    /// The 16 bytes of the record: tag, red, green and blue, word by word.
    pub open spec fn bytes(self) -> Seq<u8> {
        word_bytes(self.tag) + word_bytes(self.r.bits) + word_bytes(self.g.bits) + word_bytes(
            self.b.bits,
        )
    }

    /// The record whose 16 bytes stand at `at`.
    pub open spec fn at(bytes: Seq<u8>, at: int) -> GpuMaterial {
        GpuMaterial {
            tag: word_at(bytes, at),
            r: Scalar { bits: word_at(bytes, at + 4) },
            g: Scalar { bits: word_at(bytes, at + 8) },
            b: Scalar { bits: word_at(bytes, at + 12) },
        }
    }

    /// Writes the record behind `out`.
    pub fn write(&self, out: &mut Vec<u8>)
        ensures
            final(out)@ == old(out)@ + self.bytes(),
    {
        push_word(out, self.tag);
        push_word(out, self.r.bits);
        push_word(out, self.g.bits);
        push_word(out, self.b.bits);
    }

    /// Reads a record from its bytes. `None` unless there are 16 of them.
    pub fn read(bytes: &[u8]) -> (r: Option<GpuMaterial>)
        ensures
            bytes@.len() == MATERIAL_BYTES ==> r == Some(GpuMaterial::at(bytes@, 0)),
            bytes@.len() != MATERIAL_BYTES ==> r is None,
    {
        if bytes.len() != MATERIAL_BYTES {
            return None;
        }
        Some(
            GpuMaterial {
                tag: read_word(bytes, 0),
                r: Scalar { bits: read_word(bytes, 4) },
                g: Scalar { bits: read_word(bytes, 8) },
                b: Scalar { bits: read_word(bytes, 12) },
            },
        )
    }
}

/// The bytes of distance records, one record behind the other.
pub open spec fn distance_wire(records: Seq<GpuDistance>) -> Seq<u8>
    decreases records.len(),
{
    if records.len() == 0 {
        Seq::empty()
    } else {
        distance_wire(records.drop_last()) + records.last().bytes()
    }
}

/// The bytes of material records, one record behind the other.
pub open spec fn material_wire(records: Seq<GpuMaterial>) -> Seq<u8>
    decreases records.len(),
{
    if records.len() == 0 {
        Seq::empty()
    } else {
        material_wire(records.drop_last()) + records.last().bytes()
    }
}

/// Writes distance records out, one behind the other.
pub fn pack_distances(records: &Vec<GpuDistance>) -> (out: Vec<u8>)
    ensures
        out@ == distance_wire(records@),
{
    let mut out: Vec<u8> = Vec::new();
    let mut i: usize = 0;
    while i < records.len()
        invariant
            i <= records.len(),
            out@ == distance_wire(records@.take(i as int)),
        decreases records.len() - i,
    {
        assert(records@.take(i + 1).drop_last() == records@.take(i as int));
        records[i].write(&mut out);
        i += 1;
    }
    assert(records@.take(records.len() as int) == records@);
    out
}

/// Writes material records out, one behind the other.
pub fn pack_materials(records: &Vec<GpuMaterial>) -> (out: Vec<u8>)
    ensures
        out@ == material_wire(records@),
{
    let mut out: Vec<u8> = Vec::new();
    let mut i: usize = 0;
    while i < records.len()
        invariant
            i <= records.len(),
            out@ == material_wire(records@.take(i as int)),
        decreases records.len() - i,
    {
        assert(records@.take(i + 1).drop_last() == records@.take(i as int));
        records[i].write(&mut out);
        i += 1;
    }
    assert(records@.take(records.len() as int) == records@);
    out
}

/// A distance record is 32 bytes and is read back from them as it was.
pub proof fn lemma_distance_bytes(record: GpuDistance)
    ensures
        record.bytes().len() == DISTANCE_BYTES,
        GpuDistance::at(record.bytes(), 0) == record,
{
    let bytes = record.bytes();
    lemma_word_round_trip(record.tag);
    lemma_word_round_trip(record.x);
    lemma_word_round_trip(record.y);
    lemma_word_round_trip(record.padding);
    lemma_word_round_trip(record.v@[0].bits);
    lemma_word_round_trip(record.v@[1].bits);
    lemma_word_round_trip(record.v@[2].bits);
    lemma_word_round_trip(record.v@[3].bits);
    assert(GpuDistance::at(bytes, 0).v =~= record.v);
}

/// A material record is 16 bytes and is read back from them as it was.
pub proof fn lemma_material_bytes(record: GpuMaterial)
    ensures
        record.bytes().len() == MATERIAL_BYTES,
        GpuMaterial::at(record.bytes(), 0) == record,
{
    lemma_word_round_trip(record.tag);
    lemma_word_round_trip(record.r.bits);
    lemma_word_round_trip(record.g.bits);
    lemma_word_round_trip(record.b.bits);
}

/// In the bytes of distance records, record `i` stands at byte `32 * i`.
pub proof fn lemma_distance_wire(records: Seq<GpuDistance>, i: int)
    requires
        0 <= i < records.len(),
    ensures
        distance_wire(records).len() == DISTANCE_BYTES * records.len(),
        GpuDistance::at(distance_wire(records), DISTANCE_BYTES * i) == records[i],
    decreases records.len(),
{
    let front = records.drop_last();
    let last = records.last();
    lemma_distance_bytes(last);
    lemma_distance_wire_len(front);
    if i < front.len() {
        lemma_distance_wire(front, i);
        assert(GpuDistance::at(distance_wire(records), DISTANCE_BYTES * i).v =~= records[i].v);
    } else {
        assert(GpuDistance::at(distance_wire(records), DISTANCE_BYTES * i).v =~= records[i].v);
    }
}

/// Distance records take 32 bytes each.
pub proof fn lemma_distance_wire_len(records: Seq<GpuDistance>)
    ensures
        distance_wire(records).len() == DISTANCE_BYTES * records.len(),
    decreases records.len(),
{
    if records.len() > 0 {
        lemma_distance_wire_len(records.drop_last());
        lemma_distance_bytes(records.last());
    }
}

/// Material records take 16 bytes each.
pub proof fn lemma_material_wire_len(records: Seq<GpuMaterial>)
    ensures
        material_wire(records).len() == MATERIAL_BYTES * records.len(),
    decreases records.len(),
{
    if records.len() > 0 {
        lemma_material_wire_len(records.drop_last());
        lemma_material_bytes(records.last());
    }
}

/// In the bytes of material records, record `i` stands at byte `16 * i`.
pub proof fn lemma_material_wire(records: Seq<GpuMaterial>, i: int)
    requires
        0 <= i < records.len(),
    ensures
        material_wire(records).len() == MATERIAL_BYTES * records.len(),
        GpuMaterial::at(material_wire(records), MATERIAL_BYTES * i) == records[i],
    decreases records.len(),
{
    let front = records.drop_last();
    let last = records.last();
    lemma_material_bytes(last);
    lemma_material_wire_len(front);
    if i < front.len() {
        lemma_material_wire(front, i);
    }
}

impl Sdf {
    /// The bytes of the records of the nodes and of the materials, as they
    /// are written into the buffers of a shader.
    pub fn to_wire(&self) -> (r: (Vec<u8>, Vec<u8>))
        ensures
            r.0@ == distance_wire(self@.distance_records()),
            r.1@ == material_wire(self@.material_records()),
    {
        let (distances, materials) = self.to_gpu_repr();
        (pack_distances(&distances), pack_materials(&materials))
    }
}

/// Node `i` of a well-formed graph whose indices fit in 32 bits is read back
/// from the bytes of the graph, at byte `32 * i`, as it was.
pub proof fn lemma_node_round_trip(g: Graph, i: int)
    requires
        g.wf(),
        g.fits_words(),
        0 <= i < g.nodes.len(),
    ensures
        GpuDistance::at(distance_wire(g.distance_records()), DISTANCE_BYTES * i).decoded() == Some(
            g.nodes[i],
        ),
{
    lemma_distance_wire(g.distance_records(), i);
    lemma_records_round_trip(g);
}

/// Material `i` of a graph is read back from the bytes of the graph, at
/// byte `16 * i`, as it was.
pub proof fn lemma_palette_round_trip(g: Graph, i: int)
    requires
        g.wf(),
        g.fits_words(),
        0 <= i < g.materials.len(),
    ensures
        GpuMaterial::at(material_wire(g.material_records()), MATERIAL_BYTES * i).decoded() == Some(
            g.materials[i],
        ),
{
    lemma_material_wire(g.material_records(), i);
    lemma_records_round_trip(g);
}

} // verus!
