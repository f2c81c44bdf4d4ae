//! How vertex and instance data lie in their buffers: the stride of one
//! element and the place of each attribute in it.

use vstd::prelude::*;
use crate::instance::InstanceRaw;
use crate::model::ModelVertex;

verus! {

/// The format of a vertex attribute: two, three or four single-precision
/// numbers.
#[derive(Clone, Copy, Debug, PartialEq, Eq, Structural)]
pub enum VertexFormat {
    Float32x2,
    Float32x3,
    Float32x4,
}

/// Whether a buffer is stepped through once per vertex or once per instance.
#[derive(Clone, Copy, Debug, PartialEq, Eq, Structural)]
pub enum VertexStepMode {
    Vertex,
    Instance,
}

/// One attribute of a buffer element: its format, its offset in bytes from
/// the start of the element, and the shader location it is read at.
#[derive(Clone, Copy, Debug, PartialEq, Eq, Structural)]
pub struct VertexAttribute {
    pub format: VertexFormat,
    pub offset: u64,
    pub shader_location: u32,
}

/// The layout of a vertex buffer.
pub struct VertexBufferLayout {
    pub array_stride: u64,
    pub step_mode: VertexStepMode,
    pub attributes: Vec<VertexAttribute>,
}

/// The size of an attribute of the given format, in bytes.
pub open spec fn format_size(format: VertexFormat) -> nat {
    match format {
        VertexFormat::Float32x2 => 8,
        VertexFormat::Float32x3 => 12,
        VertexFormat::Float32x4 => 16,
    }
}

/// The bytes that the first `n` attributes take when they are packed
/// without gaps.
pub open spec fn packed_size(slots: Seq<(u32, VertexFormat)>, n: nat) -> nat
    decreases n,
{
    if n == 0 {
        0
    } else {
        packed_size(slots, (n - 1) as nat) + format_size(slots[n - 1].1)
    }
}

/// The attributes for the given shader locations and formats, packed
/// without gaps in the order given.
pub open spec fn packed_attributes(slots: Seq<(u32, VertexFormat)>) -> Seq<VertexAttribute> {
    Seq::new(
        slots.len(),
        |k: int|
            VertexAttribute {
                format: slots[k].1,
                offset: packed_size(slots, k as nat) as u64,
                shader_location: slots[k].0,
            },
    )
}

/// The first `n` attributes take at most sixteen bytes each.
pub proof fn lemma_packed_size_bound(slots: Seq<(u32, VertexFormat)>, n: nat)
    ensures
        packed_size(slots, n) <= 16 * n,
    decreases n,
{
    if n > 0 {
        lemma_packed_size_bound(slots, (n - 1) as nat);
    }
}

impl VertexFormat {
    /// The size of an attribute of this format, in bytes.
    pub fn size(&self) -> (size: u64)
        ensures
            size == format_size(*self),
    {
        match self {
            VertexFormat::Float32x2 => 8,
            VertexFormat::Float32x3 => 12,
            VertexFormat::Float32x4 => 16,
        }
    }
}

impl VertexBufferLayout {
    /// The layout of a buffer whose elements hold the given attributes one
    /// after the other, without gaps: each attribute starts where the one
    /// before it ends, and the stride is the size of them all.
    pub fn packed(step_mode: VertexStepMode, slots: &Vec<(u32, VertexFormat)>) -> (layout:
        VertexBufferLayout)
        requires
            16 * slots@.len() <= u64::MAX,
        ensures
            layout.step_mode == step_mode,
            layout.attributes@ == packed_attributes(slots@),
            layout.array_stride == packed_size(slots@, slots@.len()),
    {
        let mut attributes: Vec<VertexAttribute> = Vec::new();
        let mut offset: u64 = 0;
        let mut k: usize = 0;
        while k < slots.len()
            invariant
                k <= slots.len(),
                16 * slots@.len() <= u64::MAX,
                offset == packed_size(slots@, k as nat),
                attributes@ == packed_attributes(slots@).take(k as int),
            decreases slots.len() - k,
        {
            let (shader_location, format) = slots[k];
            proof {
                lemma_packed_size_bound(slots@, (k + 1) as nat);
            }
            attributes.push(VertexAttribute { format, offset, shader_location });
            assert(attributes@ =~= packed_attributes(slots@).take(k + 1));
            offset = offset + format.size();
            k += 1;
        }
        assert(attributes@ =~= packed_attributes(slots@));
        VertexBufferLayout { array_stride: offset, step_mode, attributes }
    }
}

/// Data that lies in a vertex buffer and knows its layout there.
pub trait BufferContents {
    /// The layout of a buffer of such elements.
    fn buffer_layout() -> VertexBufferLayout;
}

/// The attributes of a model vertex: position, texture coordinates and
/// normal at the shader locations 0, 1 and 2.
pub open spec fn model_vertex_slots() -> Seq<(u32, VertexFormat)> {
    seq![
        (0u32, VertexFormat::Float32x3),
        (1u32, VertexFormat::Float32x2),
        (2u32, VertexFormat::Float32x3),
    ]
}

/// The attributes of an instance transform: the four columns of the matrix
/// at the shader locations 3 to 6.
pub open spec fn instance_slots() -> Seq<(u32, VertexFormat)> {
    seq![
        (3u32, VertexFormat::Float32x4),
        (4u32, VertexFormat::Float32x4),
        (5u32, VertexFormat::Float32x4),
        (6u32, VertexFormat::Float32x4),
    ]
}

/// The attributes of a model vertex with their offsets.
pub open spec fn model_vertex_attributes() -> Seq<VertexAttribute> {
    seq![
        VertexAttribute { format: VertexFormat::Float32x3, offset: 0, shader_location: 0 },
        VertexAttribute { format: VertexFormat::Float32x2, offset: 12, shader_location: 1 },
        VertexAttribute { format: VertexFormat::Float32x3, offset: 20, shader_location: 2 },
    ]
}

/// The attributes of an instance transform with their offsets.
pub open spec fn instance_attributes() -> Seq<VertexAttribute> {
    seq![
        VertexAttribute { format: VertexFormat::Float32x4, offset: 0, shader_location: 3 },
        VertexAttribute { format: VertexFormat::Float32x4, offset: 16, shader_location: 4 },
        VertexAttribute { format: VertexFormat::Float32x4, offset: 32, shader_location: 5 },
        VertexAttribute { format: VertexFormat::Float32x4, offset: 48, shader_location: 6 },
    ]
}

/// Packing the attributes of a model vertex and of an instance transform
/// without gaps gives the offsets listed above, and strides of thirty-two
/// and sixty-four bytes.
pub proof fn lemma_packed_layouts()
    ensures
        packed_attributes(model_vertex_slots()) == model_vertex_attributes(),
        packed_size(model_vertex_slots(), 3) == 32,
        packed_attributes(instance_slots()) == instance_attributes(),
        packed_size(instance_slots(), 4) == 64,
{
    reveal_with_fuel(packed_size, 5);
    assert(packed_attributes(model_vertex_slots()) =~= model_vertex_attributes());
    assert(packed_attributes(instance_slots()) =~= instance_attributes());
}

impl BufferContents for ModelVertex {
    /// Stepped per vertex, thirty-two bytes each: the position at offset 0,
    /// the texture coordinates at 12, the normal at 20.
    fn buffer_layout() -> (layout: VertexBufferLayout)
        ensures
            layout.step_mode == VertexStepMode::Vertex,
            layout.array_stride == 32,
            layout.attributes@ == model_vertex_attributes(),
    {
        let mut slots: Vec<(u32, VertexFormat)> = Vec::new();
        slots.push((0, VertexFormat::Float32x3));
        slots.push((1, VertexFormat::Float32x2));
        slots.push((2, VertexFormat::Float32x3));
        assert(slots@ =~= model_vertex_slots());
        proof {
            lemma_packed_layouts();
        }
        VertexBufferLayout::packed(VertexStepMode::Vertex, &slots)
    }
}

impl BufferContents for InstanceRaw {
    /// Stepped per instance, sixty-four bytes each: the columns of the
    /// matrix at offsets 0, 16, 32 and 48.
    fn buffer_layout() -> (layout: VertexBufferLayout)
        ensures
            layout.step_mode == VertexStepMode::Instance,
            layout.array_stride == 64,
            layout.attributes@ == instance_attributes(),
    {
        let mut slots: Vec<(u32, VertexFormat)> = Vec::new();
        slots.push((3, VertexFormat::Float32x4));
        slots.push((4, VertexFormat::Float32x4));
        slots.push((5, VertexFormat::Float32x4));
        slots.push((6, VertexFormat::Float32x4));
        assert(slots@ =~= instance_slots());
        proof {
            lemma_packed_layouts();
        }
        VertexBufferLayout::packed(VertexStepMode::Instance, &slots)
    }
}

} // verus!
