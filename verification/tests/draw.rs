use shooter_game::instance::{InstancedModel, ModelInstance};
use shooter_game::model::{MaterialSource, MeshSource, Model};
use shooter_game::render::{
    DrawCommand, DrawModels, IndexFormat, InstanceSource, RenderData, RenderPass, Span,
};
use shooter_game::texture::{TextureAtlas, TextureLoadError};

fn no_texture(_: &String) -> Result<(), TextureLoadError> {
    Ok(())
}

fn mesh(name: &str, triangles: usize, material_id: Option<usize>) -> MeshSource {
    MeshSource {
        name: name.to_string(),
        positions: vec![0; 9],
        texcoords: vec![0; 6],
        normals: vec![0; 9],
        indices: [0u32, 1, 2].repeat(triangles),
        material_id,
    }
}

fn model(name: &str, meshes: Vec<MeshSource>, materials: usize) -> Model {
    let mut atlas: TextureAtlas<()> = TextureAtlas::new();
    let sources: Vec<MaterialSource> = (0..materials)
        .map(|k| MaterialSource {
            name: format!("material {}", k),
            diffuse_texture: Some(format!("{}.png", k)),
            normal_texture: None,
        })
        .collect();
    Model::load(name.to_string(), &meshes, &Some(sources), &mut atlas, &no_texture).unwrap()
}

fn draws(commands: &[DrawCommand]) -> Vec<DrawCommand> {
    commands
        .iter()
        .copied()
        .filter(|c| matches!(c, DrawCommand::DrawIndexed { .. }))
        .collect()
}

#[test]
fn model_without_instances_is_drawn_once_with_the_single_instance() {
    let mut render_data = RenderData::new();
    render_data.models.push(model("map.obj", vec![mesh("ground", 2, None)], 0).into());
    render_data.update_instance_buffers();

    let mut pass = RenderPass::new();
    pass.draw_models(&render_data);

    assert_eq!(
        pass.commands,
        vec![
            DrawCommand::SetInstanceBuffer { slot: 1, source: InstanceSource::Single },
            DrawCommand::SetBindGroup { index: 0, model: 0, material: 0 },
            DrawCommand::SetVertexBuffer { slot: 0, model: 0, mesh: 0 },
            DrawCommand::SetIndexBuffer { model: 0, mesh: 0, format: IndexFormat::Uint32 },
            DrawCommand::DrawIndexed {
                indices: Span { start: 0, end: 6 },
                base_vertex: 0,
                instances: Span { start: 0, end: 1 },
            },
        ]
    );
    assert_eq!(draws(&pass.commands).len(), 1);
}

#[test]
fn model_with_an_empty_instance_list_is_drawn_once_too() {
    let mut render_data = RenderData::new();
    let mut registered: InstancedModel = model("map.obj", vec![mesh("ground", 1, None)], 0).into();
    registered.instances = Some(vec![]);
    render_data.models.push(registered);
    render_data.update_instance_buffers();

    let mut pass = RenderPass::new();
    pass.draw_models(&render_data);

    assert_eq!(
        pass.commands[0],
        DrawCommand::SetInstanceBuffer { slot: 1, source: InstanceSource::Single }
    );
    assert_eq!(
        draws(&pass.commands),
        vec![DrawCommand::DrawIndexed {
            indices: Span { start: 0, end: 3 },
            base_vertex: 0,
            instances: Span { start: 0, end: 1 },
        }]
    );
}

#[test]
fn instanced_model_is_drawn_with_its_own_buffer_and_count() {
    let mut render_data = RenderData::new();
    let mut registered: InstancedModel = model(
        "cube.obj",
        vec![mesh("sides", 8, Some(1)), mesh("top", 2, Some(0)), mesh("odd", 1, Some(9))],
        2,
    )
    .into();
    registered.instances = Some(vec![ModelInstance::default(); 400]);
    render_data.models.push(registered);
    render_data.update_instance_buffers();

    let mut pass = RenderPass::new();
    pass.draw_models(&render_data);

    let instances = Span { start: 0, end: 400 };
    assert_eq!(
        pass.commands,
        vec![
            DrawCommand::SetInstanceBuffer { slot: 1, source: InstanceSource::Model(0) },
            DrawCommand::SetBindGroup { index: 0, model: 0, material: 1 },
            DrawCommand::SetVertexBuffer { slot: 0, model: 0, mesh: 0 },
            DrawCommand::SetIndexBuffer { model: 0, mesh: 0, format: IndexFormat::Uint32 },
            DrawCommand::DrawIndexed {
                indices: Span { start: 0, end: 24 },
                base_vertex: 0,
                instances,
            },
            DrawCommand::SetBindGroup { index: 0, model: 0, material: 0 },
            DrawCommand::SetVertexBuffer { slot: 0, model: 0, mesh: 1 },
            DrawCommand::SetIndexBuffer { model: 0, mesh: 1, format: IndexFormat::Uint32 },
            DrawCommand::DrawIndexed {
                indices: Span { start: 0, end: 6 },
                base_vertex: 0,
                instances,
            },
            DrawCommand::SetBindGroup { index: 0, model: 0, material: 0 },
            DrawCommand::SetVertexBuffer { slot: 0, model: 0, mesh: 2 },
            DrawCommand::SetIndexBuffer { model: 0, mesh: 2, format: IndexFormat::Uint32 },
            DrawCommand::DrawIndexed {
                indices: Span { start: 0, end: 3 },
                base_vertex: 0,
                instances,
            },
        ]
    );
}

#[test]
fn instance_range_follows_the_list_not_the_capacity() {
    let mut render_data = RenderData::new();
    let mut registered: InstancedModel = model("cube.obj", vec![mesh("m", 1, None)], 1).into();
    registered.instances = Some(vec![ModelInstance::default(); 10]);
    render_data.models.push(registered);
    render_data.update_instance_buffers();
    render_data.models[0].instances = Some(vec![ModelInstance::default(); 2]);
    render_data.update_instance_buffers();
    assert_eq!(render_data.models[0].instance_buffer.unwrap().capacity, 10);

    let mut pass = RenderPass::new();
    pass.draw_models(&render_data);

    assert_eq!(
        draws(&pass.commands),
        vec![DrawCommand::DrawIndexed {
            indices: Span { start: 0, end: 3 },
            base_vertex: 0,
            instances: Span { start: 0, end: 2 },
        }]
    );
}

#[test]
fn models_are_drawn_in_registration_order() {
    let mut render_data = RenderData::new();
    render_data.models.push(model("map.obj", vec![mesh("ground", 1, Some(1))], 2).into());
    let mut cube: InstancedModel =
        model("cube.obj", vec![mesh("a", 1, Some(0)), mesh("b", 1, Some(1))], 2).into();
    cube.instances = Some(vec![ModelInstance::default(); 3]);
    render_data.models.push(cube);
    render_data.models.push(model("empty.obj", vec![], 1).into());
    render_data.models.push(model("sign.obj", vec![mesh("post", 1, Some(0))], 2).into());
    render_data.update_instance_buffers();

    let mut pass = RenderPass::new();
    pass.draw_models(&render_data);

    let binds: Vec<(usize, usize)> = pass
        .commands
        .iter()
        .filter_map(|c| match c {
            DrawCommand::SetBindGroup { model, material, .. } => Some((*model, *material)),
            _ => None,
        })
        .collect();
    assert_eq!(binds, vec![(0, 1), (1, 0), (1, 1), (3, 0)]);
    let sources: Vec<InstanceSource> = pass
        .commands
        .iter()
        .filter_map(|c| match c {
            DrawCommand::SetInstanceBuffer { source, .. } => Some(*source),
            _ => None,
        })
        .collect();
    assert_eq!(
        sources,
        vec![
            InstanceSource::Single,
            InstanceSource::Model(1),
            InstanceSource::Single,
            InstanceSource::Single,
        ]
    );
    assert_eq!(pass.commands.len(), 4 + 4 * 4);
}

#[test]
fn drawing_appends_to_what_the_pass_already_holds() {
    let mut render_data = RenderData::new();
    render_data.models.push(model("map.obj", vec![mesh("ground", 1, None)], 0).into());
    let mut pass = RenderPass::new();
    assert!(pass.commands.is_empty());

    pass.draw_models(&render_data);
    let once = pass.commands.clone();
    pass.draw_models(&render_data);

    assert_eq!(once.len(), 5);
    assert_eq!(pass.commands.len(), 10);
    assert_eq!(&pass.commands[..5], &once[..]);
    assert_eq!(&pass.commands[5..], &once[..]);
}

#[test]
fn empty_registry_draws_nothing() {
    let render_data = RenderData::new();
    let mut pass = RenderPass::new();

    pass.draw_models(&render_data);

    assert!(pass.commands.is_empty());
}
