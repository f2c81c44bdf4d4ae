use shooter_game::instance::InstanceRaw;
use shooter_game::layout::{
    BufferContents, VertexAttribute, VertexBufferLayout, VertexFormat, VertexStepMode,
};
use shooter_game::model::{Mesh, MeshSource, ModelVertex};

#[test]
fn model_vertex_layout() {
    let layout = ModelVertex::buffer_layout();

    assert_eq!(layout.array_stride, 32);
    assert_eq!(layout.array_stride as usize, std::mem::size_of::<ModelVertex>());
    assert_eq!(layout.step_mode, VertexStepMode::Vertex);
    assert_eq!(
        layout.attributes,
        vec![
            VertexAttribute { format: VertexFormat::Float32x3, offset: 0, shader_location: 0 },
            VertexAttribute { format: VertexFormat::Float32x2, offset: 12, shader_location: 1 },
            VertexAttribute { format: VertexFormat::Float32x3, offset: 20, shader_location: 2 },
        ]
    );
}

#[test]
fn instance_layout() {
    let layout = InstanceRaw::buffer_layout();

    assert_eq!(layout.array_stride, 64);
    assert_eq!(layout.array_stride as usize, std::mem::size_of::<InstanceRaw>());
    assert_eq!(layout.step_mode, VertexStepMode::Instance);
    assert_eq!(
        layout.attributes,
        vec![
            VertexAttribute { format: VertexFormat::Float32x4, offset: 0, shader_location: 3 },
            VertexAttribute { format: VertexFormat::Float32x4, offset: 16, shader_location: 4 },
            VertexAttribute { format: VertexFormat::Float32x4, offset: 32, shader_location: 5 },
            VertexAttribute { format: VertexFormat::Float32x4, offset: 48, shader_location: 6 },
        ]
    );
}

#[test]
fn packed_layout_puts_each_attribute_behind_the_one_before() {
    let layout = VertexBufferLayout::packed(
        VertexStepMode::Vertex,
        &vec![
            (7, VertexFormat::Float32x2),
            (2, VertexFormat::Float32x4),
            (9, VertexFormat::Float32x3),
            (0, VertexFormat::Float32x2),
        ],
    );

    assert_eq!(layout.array_stride, 44);
    let placed: Vec<(u32, u64)> =
        layout.attributes.iter().map(|a| (a.shader_location, a.offset)).collect();
    assert_eq!(placed, vec![(7, 0), (2, 8), (9, 24), (0, 36)]);

    let empty = VertexBufferLayout::packed(VertexStepMode::Instance, &vec![]);
    assert_eq!(empty.array_stride, 0);
    assert!(empty.attributes.is_empty());
    assert_eq!(empty.step_mode, VertexStepMode::Instance);
}

#[test]
fn format_sizes() {
    assert_eq!(VertexFormat::Float32x2.size(), 8);
    assert_eq!(VertexFormat::Float32x3.size(), 12);
    assert_eq!(VertexFormat::Float32x4.size(), 16);
}

fn sample_mesh() -> Mesh {
    let to_words = |values: &[f32]| -> Vec<u32> { values.iter().map(|v| v.to_bits()).collect() };
    Mesh::new(
        &MeshSource {
            name: "sample".to_string(),
            positions: to_words(&[1.0, 2.0, 3.0, 4.0, 5.0, 6.0]),
            texcoords: to_words(&[0.5, 0.25, 0.75, 1.0]),
            normals: to_words(&[0.0, 1.0, 0.0, 0.0, 0.0, -1.0]),
            indices: vec![0, 1, 0, 0x0102_0304, u32::MAX],
            material_id: None,
        },
        1,
    )
    .unwrap()
}

#[test]
fn vertex_words_follow_the_vertex_layout() {
    let words = sample_mesh().vertex_words();

    let expected: Vec<u32> = [
        1.0f32, 2.0, 3.0, 0.5, 0.25, 0.0, 1.0, 0.0, 4.0, 5.0, 6.0, 0.75, 1.0, 0.0, 0.0, -1.0,
    ]
    .iter()
    .map(|v| v.to_bits())
    .collect();
    assert_eq!(words, expected);
}

#[test]
fn vertex_buffer_contents_are_the_bytes_of_the_vertices() {
    let mesh = sample_mesh();

    let bytes = mesh.vertex_buffer_contents();

    let expected: Vec<u8> = [
        1.0f32, 2.0, 3.0, 0.5, 0.25, 0.0, 1.0, 0.0, 4.0, 5.0, 6.0, 0.75, 1.0, 0.0, 0.0, -1.0,
    ]
    .iter()
    .flat_map(|v| v.to_ne_bytes())
    .collect();
    assert_eq!(bytes.len(), 64);
    assert_eq!(bytes, expected);
}

#[test]
fn index_buffer_contents_are_the_bytes_of_the_indices() {
    let mesh = sample_mesh();

    let bytes = mesh.index_buffer_contents();

    let expected: Vec<u8> = [0u32, 1, 0, 0x0102_0304, u32::MAX]
        .iter()
        .flat_map(|v| v.to_ne_bytes())
        .collect();
    assert_eq!(bytes.len(), 20);
    assert_eq!(bytes, expected);
    assert_eq!(mesh.indices_count, 5);
}
