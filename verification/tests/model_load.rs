use std::cell::Cell;
use std::collections::hash_map::DefaultHasher;
use std::hash::{Hash, Hasher};

use shooter_game::model::{
    assemble_vertices, build_meshes, plan_materials, resolve_material_index, MaterialPlan,
    MaterialSource, Mesh, MeshSource, Model, ModelError,
};
use shooter_game::texture::{TextureAtlas, TextureLoadError};

fn words(values: &[f32]) -> Vec<u32> {
    values.iter().map(|v| v.to_bits()).collect()
}

fn triangle(name: &str, material_id: Option<usize>) -> MeshSource {
    MeshSource {
        name: name.to_string(),
        positions: words(&[0.0, 0.0, 0.0, 1.0, 0.0, 0.0, 0.0, 1.0, 0.0]),
        texcoords: words(&[0.0, 0.0, 1.0, 0.0, 0.0, 1.0]),
        normals: words(&[0.0, 0.0, 1.0, 0.0, 0.0, 1.0, 0.0, 0.0, 1.0]),
        indices: vec![0, 1, 2],
        material_id,
    }
}

fn material(name: &str, diffuse: Option<&str>, normal: Option<&str>) -> MaterialSource {
    MaterialSource {
        name: name.to_string(),
        diffuse_texture: diffuse.map(|p| p.to_string()),
        normal_texture: normal.map(|p| p.to_string()),
    }
}

fn path_length(path: &String) -> Result<usize, TextureLoadError> {
    Ok(path.len())
}

#[test]
fn file_without_materials_gets_the_default_material() {
    let mut atlas: TextureAtlas<usize> = TextureAtlas::new();
    let meshes = vec![triangle("a", None), triangle("b", Some(0)), triangle("c", Some(5))];

    let model =
        Model::load("map.obj".to_string(), &meshes, &Some(vec![]), &mut atlas, &path_length)
            .unwrap();

    assert_eq!(model.materials().len(), 1);
    assert_eq!(model.materials()[0].name, "default-material");
    assert_eq!(model.materials()[0].normal, None);
    assert_eq!(atlas.path(model.materials()[0].diffuse), "default.png");
    assert_eq!(model.meshes().len(), 3);
    for mesh in model.meshes() {
        assert_eq!(mesh.material_index, 0);
    }
    assert!(model.is_wf());
}

#[test]
fn material_id_beyond_the_list_falls_back_to_the_first_material() {
    let mut atlas: TextureAtlas<usize> = TextureAtlas::new();
    let meshes = vec![
        triangle("first", Some(0)),
        triangle("second", Some(1)),
        triangle("beyond", Some(2)),
        triangle("far beyond", Some(usize::MAX)),
        triangle("none", None),
    ];
    let materials = Some(vec![
        material("red", Some("red.png"), None),
        material("blue", Some("blue.png"), None),
    ]);

    let model =
        Model::load("cube.obj".to_string(), &meshes, &materials, &mut atlas, &path_length)
            .unwrap();

    let indices: Vec<usize> = model.meshes().iter().map(|m| m.material_index).collect();
    assert_eq!(indices, vec![0, 1, 0, 0, 0]);
    assert!(model.is_wf());
}

#[test]
fn resolve_material_index_picks_the_named_material_or_the_first() {
    assert_eq!(resolve_material_index(None, 3), 0);
    assert_eq!(resolve_material_index(Some(0), 3), 0);
    assert_eq!(resolve_material_index(Some(2), 3), 2);
    assert_eq!(resolve_material_index(Some(3), 3), 0);
    assert_eq!(resolve_material_index(Some(7), 1), 0);
}

#[test]
fn material_without_diffuse_texture_gets_the_fallback_texture() {
    let mut atlas: TextureAtlas<usize> = TextureAtlas::new();
    let materials = Some(vec![
        material("bare", None, None),
        material("wood", Some("wood.png"), None),
    ]);

    let model = Model::load(
        "chair.obj".to_string(),
        &vec![triangle("seat", Some(1))],
        &materials,
        &mut atlas,
        &path_length,
    )
    .unwrap();

    assert_eq!(model.materials().len(), 2);
    assert_eq!(model.materials()[0].name, "bare");
    assert_eq!(atlas.path(model.materials()[0].diffuse), "default.png");
    assert_eq!(model.materials()[1].name, "wood");
    assert_eq!(atlas.path(model.materials()[1].diffuse), "wood.png");
    assert_eq!(model.meshes()[0].material_index, 1);
}

#[test]
fn normal_map_is_requested_when_the_material_names_one() {
    let mut atlas: TextureAtlas<usize> = TextureAtlas::new();
    let materials = Some(vec![
        material("brick", Some("brick.png"), Some("brick_n.png")),
        material("plain", Some("plain.png"), None),
    ]);

    let model =
        Model::load("wall.obj".to_string(), &vec![], &materials, &mut atlas, &path_length)
            .unwrap();

    let brick = &model.materials()[0];
    assert_eq!(atlas.path(brick.diffuse), "brick.png");
    assert_eq!(atlas.path(brick.normal.unwrap()), "brick_n.png");
    assert_eq!(model.materials()[1].normal, None);
    assert_eq!(atlas.len(), 3);
}

#[test]
fn materials_that_share_a_texture_load_it_once() {
    let loads = Cell::new(0u32);
    let load = |path: &String| -> Result<usize, TextureLoadError> {
        loads.set(loads.get() + 1);
        Ok(path.len())
    };
    let mut atlas: TextureAtlas<usize> = TextureAtlas::new();
    let materials = Some(vec![
        material("one", Some("shared.png"), None),
        material("two", Some("shared.png"), None),
        material("three", None, None),
        material("four", None, None),
    ]);

    let model =
        Model::load("a.obj".to_string(), &vec![], &materials, &mut atlas, &load).unwrap();

    assert_eq!(loads.get(), 2);
    assert_eq!(atlas.len(), 2);
    assert_eq!(model.materials()[0].diffuse, model.materials()[1].diffuse);
    assert_eq!(model.materials()[2].diffuse, model.materials()[3].diffuse);
    assert_ne!(model.materials()[0].diffuse, model.materials()[2].diffuse);
}

#[test]
fn loading_a_second_model_reuses_resident_textures() {
    let loads = Cell::new(0u32);
    let load = |path: &String| -> Result<usize, TextureLoadError> {
        loads.set(loads.get() + 1);
        Ok(path.len())
    };
    let mut atlas: TextureAtlas<usize> = TextureAtlas::new();
    let materials = Some(vec![material("wood", Some("wood.png"), None)]);

    let first =
        Model::load("a.obj".to_string(), &vec![], &materials, &mut atlas, &load).unwrap();
    let second =
        Model::load("b.obj".to_string(), &vec![], &materials, &mut atlas, &load).unwrap();

    assert_eq!(loads.get(), 1);
    assert_eq!(atlas.len(), 1);
    assert_eq!(first.materials()[0].diffuse, second.materials()[0].diffuse);
}

#[test]
fn missing_material_list_is_a_parse_error() {
    let loads = Cell::new(0u32);
    let load = |_: &String| -> Result<usize, TextureLoadError> {
        loads.set(loads.get() + 1);
        Ok(0)
    };
    let mut atlas: TextureAtlas<usize> = TextureAtlas::new();

    let loaded =
        Model::load("a.obj".to_string(), &vec![triangle("t", None)], &None, &mut atlas, &load);

    assert_eq!(loaded.err(), Some(ModelError::ModelParse));
    assert_eq!(loads.get(), 0);
    assert_eq!(atlas.len(), 0);
}

#[test]
fn texture_failure_ends_the_load() {
    let load = |path: &String| -> Result<usize, TextureLoadError> {
        if path == "broken.png" {
            Err(TextureLoadError::Unsupported)
        } else if path == "gone.png" {
            Err(TextureLoadError::Unreadable)
        } else {
            Ok(path.len())
        }
    };
    let mut atlas: TextureAtlas<usize> = TextureAtlas::new();
    let materials = Some(vec![
        material("fine", Some("fine.png"), None),
        material("broken", Some("broken.png"), None),
        material("gone", Some("gone.png"), None),
    ]);

    let loaded = Model::load(
        "a.obj".to_string(),
        &vec![triangle("t", None)],
        &materials,
        &mut atlas,
        &load,
    );

    assert_eq!(
        loaded.err(),
        Some(ModelError::TextureLoad(TextureLoadError::Unsupported))
    );
    assert_eq!(atlas.len(), 1);
    assert_eq!(atlas.find(&"fine.png".to_string()), Some(0));
    assert_eq!(atlas.find(&"broken.png".to_string()), None);
    assert_eq!(atlas.find(&"gone.png".to_string()), None);

    let only_gone = Some(vec![material("gone", Some("gone.png"), None)]);
    let loaded = Model::load("b.obj".to_string(), &vec![], &only_gone, &mut atlas, &load);
    assert_eq!(
        loaded.err(),
        Some(ModelError::TextureLoad(TextureLoadError::Unreadable))
    );
}

#[test]
fn texture_failure_comes_before_malformed_geometry() {
    let load = |path: &String| -> Result<usize, TextureLoadError> {
        if path == "gone.png" {
            Err(TextureLoadError::Unreadable)
        } else {
            Ok(path.len())
        }
    };
    let mut atlas: TextureAtlas<usize> = TextureAtlas::new();
    let mut broken = triangle("broken", None);
    broken.normals.clear();
    let materials = Some(vec![
        material("fine", Some("fine.png"), None),
        material("gone", Some("gone.png"), None),
    ]);

    let loaded = Model::load("a.obj".to_string(), &vec![broken], &materials, &mut atlas, &load);

    assert_eq!(
        loaded.err(),
        Some(ModelError::TextureLoad(TextureLoadError::Unreadable))
    );
    assert_eq!(atlas.len(), 1);
    assert_eq!(atlas.find(&"gone.png".to_string()), None);
}

#[test]
fn malformed_geometry_is_answered_after_all_textures_are_loaded() {
    let mut atlas: TextureAtlas<usize> = TextureAtlas::new();
    let mut broken = triangle("broken", None);
    broken.texcoords.pop();
    let materials = Some(vec![
        material("a", Some("a.png"), Some("a_n.png")),
        material("b", None, None),
    ]);

    let loaded = Model::load(
        "a.obj".to_string(),
        &vec![broken],
        &materials,
        &mut atlas,
        &path_length,
    );

    assert_eq!(loaded.err(), Some(ModelError::MalformedGeometry { mesh: 0 }));
    assert_eq!(atlas.len(), 3);
    assert_eq!(atlas.path(0), "a.png");
    assert_eq!(atlas.path(1), "a_n.png");
    assert_eq!(atlas.path(2), "default.png");
}

#[test]
fn resident_texture_is_bound_at_its_old_position_without_loading() {
    let loads = Cell::new(0u32);
    let load = |path: &String| -> Result<usize, TextureLoadError> {
        loads.set(loads.get() + 1);
        Ok(path.len())
    };
    let mut atlas: TextureAtlas<usize> = TextureAtlas::new();
    assert_eq!(atlas.get("other.png".to_string(), &load), Ok(0));
    assert_eq!(atlas.get("wood.png".to_string(), &load), Ok(1));
    assert_eq!(loads.get(), 2);
    let materials = Some(vec![material("wood", Some("wood.png"), None)]);

    let model = Model::load(
        "a.obj".to_string(),
        &vec![triangle("t", Some(0))],
        &materials,
        &mut atlas,
        &load,
    )
    .unwrap();

    assert_eq!(loads.get(), 2);
    assert_eq!(atlas.len(), 2);
    assert_eq!(model.materials()[0].diffuse, 1);
}

#[test]
fn textures_enter_the_atlas_in_the_order_of_their_first_request() {
    let mut atlas: TextureAtlas<usize> = TextureAtlas::new();
    let materials = Some(vec![
        material("a", Some("a.png"), Some("n.png")),
        material("b", Some("b.png"), Some("a.png")),
        material("c", None, Some("n.png")),
    ]);

    let model =
        Model::load("a.obj".to_string(), &vec![], &materials, &mut atlas, &path_length).unwrap();

    assert_eq!(atlas.len(), 4);
    let paths: Vec<&str> = (0..4).map(|id| atlas.path(id).as_str()).collect();
    assert_eq!(paths, vec!["a.png", "n.png", "b.png", "default.png"]);
    let bound: Vec<(usize, Option<usize>)> =
        model.materials().iter().map(|m| (m.diffuse, m.normal)).collect();
    assert_eq!(bound, vec![(0, Some(1)), (2, Some(0)), (3, Some(1))]);
}

#[test]
fn inconsistent_streams_are_malformed_geometry() {
    let mut atlas: TextureAtlas<usize> = TextureAtlas::new();
    let mut short_normals = triangle("short normals", None);
    short_normals.normals.truncate(6);
    let mut no_texcoords = triangle("no texcoords", None);
    no_texcoords.texcoords.clear();

    let loaded = Model::load(
        "a.obj".to_string(),
        &vec![triangle("good", None), short_normals, no_texcoords],
        &Some(vec![]),
        &mut atlas,
        &path_length,
    );

    assert_eq!(loaded.err(), Some(ModelError::MalformedGeometry { mesh: 1 }));
}

#[test]
fn build_meshes_names_the_first_malformed_mesh() {
    let mut partial_position = triangle("partial position", None);
    partial_position.positions.pop();
    let mut odd_texcoords = triangle("odd texcoords", None);
    odd_texcoords.texcoords.pop();

    let built = build_meshes(&vec![partial_position, odd_texcoords], 1);
    assert_eq!(built.err(), Some(ModelError::MalformedGeometry { mesh: 0 }));

    let mut odd_texcoords = triangle("odd texcoords", None);
    odd_texcoords.texcoords.pop();
    let built = build_meshes(&vec![triangle("a", None), triangle("b", None), odd_texcoords], 1);
    assert_eq!(built.err(), Some(ModelError::MalformedGeometry { mesh: 2 }));

    let built = build_meshes(&vec![], 1).unwrap();
    assert!(built.is_empty());
}

#[test]
fn vertices_are_zipped_from_the_three_streams() {
    let positions = words(&[1.0, 2.0, 3.0, 4.0, 5.0, 6.0]);
    let texcoords = words(&[0.25, 0.5, 0.75, 1.0]);
    let normals = words(&[0.0, 1.0, 0.0, -1.0, 0.0, 0.0]);

    let vertices = assemble_vertices(&positions, &texcoords, &normals).unwrap();

    assert_eq!(vertices.len(), 2);
    assert_eq!(vertices[0].position, [1.0f32.to_bits(), 2.0f32.to_bits(), 3.0f32.to_bits()]);
    assert_eq!(vertices[0].texture_coords, [0.25f32.to_bits(), 0.5f32.to_bits()]);
    assert_eq!(vertices[0].normal, [0.0f32.to_bits(), 1.0f32.to_bits(), 0.0f32.to_bits()]);
    assert_eq!(vertices[1].position, [4.0f32.to_bits(), 5.0f32.to_bits(), 6.0f32.to_bits()]);
    assert_eq!(vertices[1].texture_coords, [0.75f32.to_bits(), 1.0f32.to_bits()]);
    assert_eq!(vertices[1].normal, [(-1.0f32).to_bits(), 0.0f32.to_bits(), 0.0f32.to_bits()]);
}

#[test]
fn vertex_assembly_rejects_streams_of_different_vertex_counts() {
    let three = words(&[0.0, 0.0, 0.0]);
    let six = words(&[0.0; 6]);
    let two = words(&[0.0, 0.0]);
    let four = words(&[0.0; 4]);
    let empty: Vec<u32> = vec![];

    assert!(assemble_vertices(&three, &two, &three).is_some());
    assert!(assemble_vertices(&six, &four, &six).is_some());
    assert_eq!(assemble_vertices(&empty, &empty, &empty).unwrap().len(), 0);

    assert!(assemble_vertices(&three, &empty, &three).is_none());
    assert!(assemble_vertices(&three, &two, &empty).is_none());
    assert!(assemble_vertices(&three, &four, &three).is_none());
    assert!(assemble_vertices(&three, &two, &six).is_none());
    assert!(assemble_vertices(&six, &two, &six).is_none());
    assert!(assemble_vertices(&two, &two, &two).is_none());
    assert!(assemble_vertices(&words(&[0.0; 4]), &two, &words(&[0.0; 4])).is_none());
    assert!(assemble_vertices(&three, &three, &three).is_none());
    assert!(assemble_vertices(&empty, &two, &empty).is_none());
}

#[test]
fn mesh_keeps_name_indices_and_index_count() {
    let source = MeshSource {
        name: "quad".to_string(),
        positions: words(&[0.0; 12]),
        texcoords: words(&[0.0; 8]),
        normals: words(&[0.0; 12]),
        indices: vec![0, 1, 2, 2, 3, 0],
        material_id: Some(1),
    };

    let mesh = Mesh::new(&source, 2).unwrap();

    assert_eq!(mesh.name, "quad");
    assert_eq!(mesh.vertices.len(), 4);
    assert_eq!(mesh.indices, vec![0, 1, 2, 2, 3, 0]);
    assert_eq!(mesh.indices_count, 6);
    assert_eq!(mesh.material_index, 1);
}

#[test]
fn model_carries_its_path_and_meshes_in_file_order() {
    let mut atlas: TextureAtlas<usize> = TextureAtlas::new();
    let meshes = vec![triangle("roof", None), triangle("wall", None), triangle("door", None)];

    let model =
        Model::load("house.obj".to_string(), &meshes, &Some(vec![]), &mut atlas, &path_length)
            .unwrap();

    assert_eq!(model.name(), "house.obj");
    let names: Vec<&str> = model.meshes().iter().map(|m| m.name.as_str()).collect();
    assert_eq!(names, vec!["roof", "wall", "door"]);
}

#[test]
fn loading_the_same_path_twice_gives_independent_models() {
    let mut atlas: TextureAtlas<usize> = TextureAtlas::new();
    let meshes = vec![triangle("t", None)];

    let first =
        Model::load("a.obj".to_string(), &meshes, &Some(vec![]), &mut atlas, &path_length)
            .unwrap();
    let second =
        Model::load("a.obj".to_string(), &meshes, &Some(vec![]), &mut atlas, &path_length)
            .unwrap();

    assert_eq!(first.meshes().len(), 1);
    assert_eq!(second.meshes().len(), 1);
    assert_eq!(first.meshes()[0].indices, second.meshes()[0].indices);
}

// Equality of models is by name alone, on purpose: geometry is not compared.
#[test]
fn models_are_equal_when_their_names_are_equal() {
    let mut atlas: TextureAtlas<usize> = TextureAtlas::new();
    let none = Some(vec![]);
    let small = Model::load(
        "same.obj".to_string(),
        &vec![triangle("t", None)],
        &none,
        &mut atlas,
        &path_length,
    )
    .unwrap();
    let large = Model::load(
        "same.obj".to_string(),
        &vec![triangle("t", None), triangle("u", None)],
        &none,
        &mut atlas,
        &path_length,
    )
    .unwrap();
    let other = Model::load(
        "other.obj".to_string(),
        &vec![triangle("t", None)],
        &none,
        &mut atlas,
        &path_length,
    )
    .unwrap();

    assert!(small == large);
    assert!(small != other);
}

#[test]
fn models_hash_by_name_alone() {
    let mut atlas: TextureAtlas<usize> = TextureAtlas::new();
    let none = Some(vec![]);
    let small =
        Model::load("same.obj".to_string(), &vec![], &none, &mut atlas, &path_length).unwrap();
    let large = Model::load(
        "same.obj".to_string(),
        &vec![triangle("t", None)],
        &none,
        &mut atlas,
        &path_length,
    )
    .unwrap();

    let mut of_small = DefaultHasher::new();
    small.hash(&mut of_small);
    let mut of_large = DefaultHasher::new();
    large.hash(&mut of_large);
    let mut of_name = DefaultHasher::new();
    "same.obj".to_string().hash(&mut of_name);

    assert_eq!(of_small.finish(), of_large.finish());
    assert_eq!(of_small.finish(), of_name.finish());
}

#[test]
fn plans_follow_the_material_list() {
    let plans = plan_materials(&vec![
        material("a", Some("a.png"), Some("a_n.png")),
        material("b", None, None),
    ]);

    assert_eq!(plans.len(), 2);
    assert_eq!(plans[0].name, "a");
    assert_eq!(plans[0].diffuse, "a.png");
    assert_eq!(plans[0].normal.as_deref(), Some("a_n.png"));
    assert_eq!(plans[1].name, "b");
    assert_eq!(plans[1].diffuse, "default.png");
    assert_eq!(plans[1].normal, None);

    let plans = plan_materials(&vec![]);
    assert_eq!(plans.len(), 1);
    assert_eq!(plans[0].name, "default-material");
    assert_eq!(plans[0].diffuse, "default.png");
    assert_eq!(plans[0].normal, None);

    let fallback = MaterialPlan::fallback();
    assert_eq!(fallback.name, "default-material");
    assert_eq!(fallback.diffuse, "default.png");
}
