//! The model store: turns the parsed description of a mesh file into a model
//! whose meshes hold the vertex and index data in buffer layout and whose
//! materials are bound to textures of the atlas.

use vstd::prelude::*;
use crate::bytes::{bytes_of_words, words_to_bytes};
use crate::texture::{
    distinct_paths, lemma_paths_after_both, lemma_resident_is_contained, loaded_by, paths_after,
    paths_of, resident, slot_of, TextureAtlas, TextureLoadError,
};

verus! {

/// What went wrong while a model was loaded.
#[derive(Clone, Copy, Debug, PartialEq, Eq, Structural)]
pub enum ModelError {
    /// The mesh file or its material file is malformed, or the material list
    /// is missing.
    ModelParse,
    /// A texture that a material names could not be loaded.
    TextureLoad(TextureLoadError),
    /// The component streams of the mesh at position `mesh` do not describe
    /// the same number of whole vertices.
    MalformedGeometry { mesh: usize },
}

/// How a mesh file is to be parsed before its contents are handed to the
/// model store.
#[derive(Clone, Copy, Debug, PartialEq, Eq, Structural)]
pub struct LoadOptions {
    /// Positions, texture coordinates and normals share one index stream,
    /// so that equal vertices are stored once.
    pub single_index: bool,
    /// Faces with more than three corners are split into triangles.
    pub triangulate: bool,
    /// Points are left out.
    pub ignore_points: bool,
    /// Lines are left out.
    pub ignore_lines: bool,
}

impl LoadOptions {
    /// The options that every model is parsed with: one index stream per
    /// mesh, triangles only, nothing left out.
    pub fn for_models() -> (options: LoadOptions)
        ensures
            options == (LoadOptions {
                single_index: true,
                triangulate: true,
                ignore_points: false,
                ignore_lines: false,
            }),
    {
        LoadOptions {
            single_index: true,
            triangulate: true,
            ignore_points: false,
            ignore_lines: false,
        }
    }
}

/// One vertex in the fixed layout of the vertex buffer: position, texture
/// coordinates, normal. Each component is the bit pattern of a
/// single-precision number; the library moves these words and never computes
/// with them.
#[derive(Clone, Copy, Debug)]
pub struct ModelVertex {
    pub position: [u32; 3],
    pub texture_coords: [u32; 2],
    pub normal: [u32; 3],
}

/// One sub-mesh as the mesh file gives it: three parallel component streams
/// (three words per position, two per texture coordinate, three per normal),
/// one index stream over the vertices, and the material it is drawn with.
pub struct MeshSource {
    pub name: String,
    pub positions: Vec<u32>,
    pub texcoords: Vec<u32>,
    pub normals: Vec<u32>,
    pub indices: Vec<u32>,
    pub material_id: Option<usize>,
}

/// A sub-mesh of the file as sequences of characters and words.
pub struct MeshSourceView {
    pub name: Seq<char>,
    pub positions: Seq<u32>,
    pub texcoords: Seq<u32>,
    pub normals: Seq<u32>,
    pub indices: Seq<u32>,
    pub material_id: Option<usize>,
}

impl View for MeshSource {
    type V = MeshSourceView;

    open spec fn view(&self) -> MeshSourceView {
        MeshSourceView {
            name: self.name@,
            positions: self.positions@,
            texcoords: self.texcoords@,
            normals: self.normals@,
            indices: self.indices@,
            material_id: self.material_id,
        }
    }
}

/// One material definition as the material file gives it.
pub struct MaterialSource {
    pub name: String,
    pub diffuse_texture: Option<String>,
    pub normal_texture: Option<String>,
}

/// A material definition as sequences of characters.
pub struct MaterialSourceView {
    pub name: Seq<char>,
    pub diffuse_texture: Option<Seq<char>>,
    pub normal_texture: Option<Seq<char>>,
}

/// The characters of a path that may be absent.
pub open spec fn path_view(path: Option<String>) -> Option<Seq<char>> {
    match path {
        Some(p) => Some(p@),
        None => None,
    }
}

impl View for MaterialSource {
    type V = MaterialSourceView;

    open spec fn view(&self) -> MaterialSourceView {
        MaterialSourceView {
            name: self.name@,
            diffuse_texture: path_view(self.diffuse_texture),
            normal_texture: path_view(self.normal_texture),
        }
    }
}

/// A material before its textures are found: its name and the paths of the
/// textures it is to be bound to.
pub struct MaterialPlan {
    pub name: String,
    pub diffuse: String,
    pub normal: Option<String>,
}

/// A material plan as sequences of characters.
pub struct MaterialPlanView {
    pub name: Seq<char>,
    pub diffuse: Seq<char>,
    pub normal: Option<Seq<char>>,
}

impl View for MaterialPlan {
    type V = MaterialPlanView;

    open spec fn view(&self) -> MaterialPlanView {
        MaterialPlanView {
            name: self.name@,
            diffuse: self.diffuse@,
            normal: path_view(self.normal),
        }
    }
}

/// The path of the texture that stands in where a material names none.
pub open spec fn fallback_texture_path() -> Seq<char> {
    "default.png"@
}

/// The name of the material that is made up for a file without materials.
pub open spec fn default_material_name() -> Seq<char> {
    "default-material"@
}

/// The plan for the one material of a file that defines none.
pub open spec fn default_plan() -> MaterialPlanView {
    MaterialPlanView {
        name: default_material_name(),
        diffuse: fallback_texture_path(),
        normal: None,
    }
}

/// The plan for a material of the file: its own name and textures, with the
/// fallback texture where it names no diffuse texture.
pub open spec fn plan_for(source: MaterialSourceView) -> MaterialPlanView {
    MaterialPlanView {
        name: source.name,
        diffuse: match source.diffuse_texture {
            Some(path) => path,
            None => fallback_texture_path(),
        },
        normal: source.normal_texture,
    }
}

/// The plans for all materials of a model, in the file's order; the default
/// plan alone where the file defines no material.
pub open spec fn material_plans(sources: Seq<MaterialSourceView>) -> Seq<MaterialPlanView> {
    if sources.len() == 0 {
        seq![default_plan()]
    } else {
        Seq::new(sources.len(), |k: int| plan_for(sources[k]))
    }
}

/// The material that a mesh is drawn with, among `material_count` materials:
/// the one it names, and the first one where it names none or one that does
/// not exist.
pub open spec fn material_index_for(material_id: Option<usize>, material_count: nat) -> usize {
    match material_id {
        Some(k) => if k < material_count {
            k
        } else {
            0
        },
        None => 0,
    }
}

/// The three streams describe the same number of whole vertices.
pub open spec fn streams_consistent(
    positions: Seq<u32>,
    texcoords: Seq<u32>,
    normals: Seq<u32>,
) -> bool {
    &&& positions.len() % 3 == 0
    &&& texcoords.len() == 2 * (positions.len() / 3)
    &&& normals.len() == positions.len()
}

/// The vertex at position `i` of three parallel component streams.
pub open spec fn vertex_at(
    positions: Seq<u32>,
    texcoords: Seq<u32>,
    normals: Seq<u32>,
    i: int,
) -> ModelVertex {
    ModelVertex {
        position: [positions[3 * i], positions[3 * i + 1], positions[3 * i + 2]],
        texture_coords: [texcoords[2 * i], texcoords[2 * i + 1]],
        normal: [normals[3 * i], normals[3 * i + 1], normals[3 * i + 2]],
    }
}

/// All vertices of three parallel component streams.
pub open spec fn vertices_of(
    positions: Seq<u32>,
    texcoords: Seq<u32>,
    normals: Seq<u32>,
) -> Seq<ModelVertex> {
    Seq::new(positions.len() / 3, |i: int| vertex_at(positions, texcoords, normals, i))
}

/// The index count that a draw call is given for `len` indices: draw calls
/// count in 32 bits, and a longer stream wraps around.
pub open spec fn index_count(len: nat) -> u32 {
    (len % 0x1_0000_0000) as u32
}

/// Zips three parallel component streams into vertices. Streams that do not
/// describe the same number of whole vertices give no vertices at all.
pub fn assemble_vertices(positions: &Vec<u32>, texcoords: &Vec<u32>, normals: &Vec<u32>) -> (assembled:
    Option<Vec<ModelVertex>>)
    ensures
        streams_consistent(positions@, texcoords@, normals@) ==> assembled is Some
            && assembled->0@ == vertices_of(positions@, texcoords@, normals@),
        !streams_consistent(positions@, texcoords@, normals@) ==> assembled is None,
{
    let count: usize = positions.len() / 3;
    if positions.len() % 3 != 0 || normals.len() != positions.len() || texcoords.len() / 2 != count
        || texcoords.len() % 2 != 0 {
        return None;
    }
    let mut vertices: Vec<ModelVertex> = Vec::new();
    let mut i: usize = 0;
    while i < count
        invariant
            i <= count,
            count == positions.len() / 3,
            streams_consistent(positions@, texcoords@, normals@),
            vertices@ == Seq::new(
                i as nat,
                |k: int| vertex_at(positions@, texcoords@, normals@, k),
            ),
        decreases count - i,
    {
        let vertex = ModelVertex {
            position: [positions[3 * i], positions[3 * i + 1], positions[3 * i + 2]],
            texture_coords: [texcoords[2 * i], texcoords[2 * i + 1]],
            normal: [normals[3 * i], normals[3 * i + 1], normals[3 * i + 2]],
        };
        vertices.push(vertex);
        i += 1;
    }
    Some(vertices)
}

/// The material that a mesh is drawn with, among `material_count` materials.
pub fn resolve_material_index(material_id: Option<usize>, material_count: usize) -> (index: usize)
    ensures
        index == material_index_for(material_id, material_count as nat),
        material_count > 0 ==> index < material_count,
{
    match material_id {
        Some(k) => if k < material_count {
            k
        } else {
            0
        },
        None => 0,
    }
}

/// The characters of each material definition.
pub open spec fn source_views(sources: Seq<MaterialSource>) -> Seq<MaterialSourceView> {
    Seq::new(sources.len(), |k: int| sources[k]@)
}

/// The characters of each plan.
pub open spec fn plan_views(plans: Seq<MaterialPlan>) -> Seq<MaterialPlanView> {
    Seq::new(plans.len(), |k: int| plans[k]@)
}

/// A copy of a path that may be absent.
fn copy_path(path: &Option<String>) -> (copy: Option<String>)
    ensures
        path_view(copy) == path_view(*path),
{
    match path {
        Some(p) => Some(p.clone()),
        None => None,
    }
}

impl MaterialPlan {
    /// The plan for the one material of a file that defines none: the
    /// default name, the fallback texture, no normal map.
    pub fn fallback() -> (plan: MaterialPlan)
        ensures
            plan@ == default_plan(),
    {
        MaterialPlan {
            name: "default-material".to_owned(),
            diffuse: "default.png".to_owned(),
            normal: None,
        }
    }

    /// The plan for a material of the file.
    pub fn new(source: &MaterialSource) -> (plan: MaterialPlan)
        ensures
            plan@ == plan_for(source@),
    {
        let diffuse = match &source.diffuse_texture {
            Some(path) => path.clone(),
            None => "default.png".to_owned(),
        };
        MaterialPlan { name: source.name.clone(), diffuse, normal: copy_path(&source.normal_texture) }
    }
}

/// Plans the materials of a model: one per material definition, in the
/// file's order, and the default material alone where there is none.
pub fn plan_materials(sources: &Vec<MaterialSource>) -> (plans: Vec<MaterialPlan>)
    ensures
        plan_views(plans@) == material_plans(source_views(sources@)),
        plans@.len() >= 1,
{
    let mut plans: Vec<MaterialPlan> = Vec::new();
    if sources.len() == 0 {
        plans.push(MaterialPlan::fallback());
        assert(plan_views(plans@) =~= material_plans(source_views(sources@)));
        return plans;
    }
    let mut k: usize = 0;
    while k < sources.len()
        invariant
            k <= sources.len(),
            plans@.len() == k,
            forall|j: int| 0 <= j < k ==> (#[trigger] plans@[j])@ == plan_for(sources@[j]@),
        decreases sources.len() - k,
    {
        plans.push(MaterialPlan::new(&sources[k]));
        k += 1;
    }
    assert(plan_views(plans@) =~= material_plans(source_views(sources@)));
    plans
}

/// One sub-mesh of a model: the contents of its vertex and index buffers,
/// the index count that its draw call is given, and the position of its
/// material in the model's material list.
pub struct Mesh {
    pub name: String,
    pub vertices: Vec<ModelVertex>,
    pub indices: Vec<u32>,
    pub indices_count: u32,
    pub material_index: usize,
}

/// The contents of a mesh as sequences.
pub struct MeshView {
    pub name: Seq<char>,
    pub vertices: Seq<ModelVertex>,
    pub indices: Seq<u32>,
    pub indices_count: u32,
    pub material_index: usize,
}

impl View for Mesh {
    type V = MeshView;

    open spec fn view(&self) -> MeshView {
        MeshView {
            name: self.name@,
            vertices: self.vertices@,
            indices: self.indices@,
            indices_count: self.indices_count,
            material_index: self.material_index,
        }
    }
}

/// The streams of a sub-mesh describe the same number of whole vertices.
pub open spec fn well_formed_source(source: MeshSourceView) -> bool {
    streams_consistent(source.positions, source.texcoords, source.normals)
}

/// The mesh that a well formed sub-mesh of the file becomes in a model with
/// `material_count` materials.
pub open spec fn mesh_of(source: MeshSourceView, material_count: nat) -> MeshView {
    MeshView {
        name: source.name,
        vertices: vertices_of(source.positions, source.texcoords, source.normals),
        indices: source.indices,
        indices_count: index_count(source.indices.len()),
        material_index: material_index_for(source.material_id, material_count),
    }
}

/// The eight words of a vertex in the order of the vertex buffer: position,
/// texture coordinates, normal.
pub open spec fn vertex_words(vertex: ModelVertex) -> Seq<u32> {
    vertex.position@ + vertex.texture_coords@ + vertex.normal@
}

/// The words of a vertex buffer that holds the given vertices in order.
pub open spec fn vertex_buffer_words(vertices: Seq<ModelVertex>) -> Seq<u32>
    decreases vertices.len(),
{
    if vertices.len() == 0 {
        Seq::empty()
    } else {
        vertex_buffer_words(vertices.drop_last()) + vertex_words(vertices.last())
    }
}

/// A vertex buffer has eight words for each vertex.
pub proof fn lemma_vertex_buffer_len(vertices: Seq<ModelVertex>)
    ensures
        vertex_buffer_words(vertices).len() == 8 * vertices.len(),
    decreases vertices.len(),
{
    if vertices.len() > 0 {
        lemma_vertex_buffer_len(vertices.drop_last());
    }
}

impl Mesh {
    /// The words of the vertex buffer: eight for each vertex, the vertices
    /// in order.
    pub fn vertex_words(&self) -> (words: Vec<u32>)
        ensures
            words@ == vertex_buffer_words(self.vertices@),
    {
        let mut words: Vec<u32> = Vec::new();
        let mut i: usize = 0;
        while i < self.vertices.len()
            invariant
                i <= self.vertices.len(),
                words@ == vertex_buffer_words(self.vertices@.take(i as int)),
            decreases self.vertices.len() - i,
        {
            let vertex = &self.vertices[i];
            let ghost before = words@;
            words.push(vertex.position[0]);
            words.push(vertex.position[1]);
            words.push(vertex.position[2]);
            words.push(vertex.texture_coords[0]);
            words.push(vertex.texture_coords[1]);
            words.push(vertex.normal[0]);
            words.push(vertex.normal[1]);
            words.push(vertex.normal[2]);
            proof {
                let next = self.vertices@.take(i + 1);
                assert(next.drop_last() =~= self.vertices@.take(i as int));
                assert(next.last() == *vertex);
                assert(words@ =~= before + vertex_words(*vertex));
            }
            i += 1;
        }
        assert(self.vertices@.take(self.vertices@.len() as int) =~= self.vertices@);
        words
    }

    /// The bytes of the vertex buffer: thirty-two for each vertex.
    pub fn vertex_buffer_contents(&self) -> (bytes: Vec<u8>)
        ensures
            bytes_of_words(bytes@, vertex_buffer_words(self.vertices@)),
            bytes@.len() == 32 * self.vertices@.len(),
    {
        proof {
            lemma_vertex_buffer_len(self.vertices@);
        }
        let words = self.vertex_words();
        words_to_bytes(&words)
    }

    /// The bytes of the index buffer: four for each index.
    pub fn index_buffer_contents(&self) -> (bytes: Vec<u8>)
        ensures
            bytes_of_words(bytes@, self.indices@),
            bytes@.len() == 4 * self.indices@.len(),
    {
        words_to_bytes(&self.indices)
    }

    /// Builds the mesh for a sub-mesh of the file, for a model with
    /// `material_count` materials. There is no mesh for a sub-mesh whose
    /// streams do not describe the same number of whole vertices.
    pub fn new(source: &MeshSource, material_count: usize) -> (mesh: Option<Mesh>)
        ensures
            well_formed_source(source@) ==> mesh is Some && mesh->0@ == mesh_of(
                source@,
                material_count as nat,
            ),
            !well_formed_source(source@) ==> mesh is None,
    {
        match assemble_vertices(&source.positions, &source.texcoords, &source.normals) {
            None => None,
            Some(vertices) => {
                let len: u64 = source.indices.len() as u64;
                let indices_count: u32 = (len % 0x1_0000_0000u64) as u32;
                let indices = source.indices.clone();
                assert(indices@ =~= source.indices@);
                Some(
                    Mesh {
                        name: source.name.clone(),
                        vertices,
                        indices,
                        indices_count,
                        material_index: resolve_material_index(source.material_id, material_count),
                    },
                )
            },
        }
    }
}

/// The characters and words of each sub-mesh of the file.
pub open spec fn mesh_source_views(sources: Seq<MeshSource>) -> Seq<MeshSourceView> {
    Seq::new(sources.len(), |i: int| sources[i]@)
}

/// The contents of each mesh.
pub open spec fn mesh_views(meshes: Seq<Mesh>) -> Seq<MeshView> {
    Seq::new(meshes.len(), |i: int| meshes[i]@)
}

/// The meshes that the sub-meshes of a file become, in the file's order, in
/// a model with `material_count` materials.
pub open spec fn meshes_of(sources: Seq<MeshSourceView>, material_count: nat) -> Seq<MeshView> {
    Seq::new(sources.len(), |i: int| mesh_of(sources[i], material_count))
}

/// Every sub-mesh has streams that describe the same number of whole
/// vertices.
pub open spec fn all_well_formed(sources: Seq<MeshSourceView>) -> bool {
    forall|i: int| 0 <= i < sources.len() ==> well_formed_source(#[trigger] sources[i])
}

/// The sub-mesh at position `j` is the first whose streams do not describe
/// the same number of whole vertices.
pub open spec fn first_malformed(sources: Seq<MeshSourceView>, j: int) -> bool {
    &&& 0 <= j < sources.len()
    &&& !well_formed_source(sources[j])
    &&& forall|i: int| 0 <= i < j ==> well_formed_source(#[trigger] sources[i])
}

/// Builds the meshes of a model with `material_count` materials, in the
/// file's order. The first sub-mesh with inconsistent streams ends the work
/// and is named in the error.
pub fn build_meshes(sources: &Vec<MeshSource>, material_count: usize) -> (built: Result<
    Vec<Mesh>,
    ModelError,
>)
    ensures
        all_well_formed(mesh_source_views(sources@)) ==> built is Ok,
        built matches Ok(meshes) ==> all_well_formed(mesh_source_views(sources@)) && mesh_views(
            meshes@,
        ) == meshes_of(mesh_source_views(sources@), material_count as nat),
        built matches Err(e) ==> e is MalformedGeometry && first_malformed(
            mesh_source_views(sources@),
            e->mesh as int,
        ),
{
    let mut meshes: Vec<Mesh> = Vec::new();
    let mut i: usize = 0;
    while i < sources.len()
        invariant
            i <= sources.len(),
            meshes@.len() == i,
            forall|k: int|
                0 <= k < i ==> well_formed_source(#[trigger] mesh_source_views(sources@)[k]),
            forall|k: int|
                0 <= k < i ==> (#[trigger] meshes@[k])@ == mesh_of(
                    sources@[k]@,
                    material_count as nat,
                ),
        decreases sources.len() - i,
    {
        match Mesh::new(&sources[i], material_count) {
            Some(mesh) => {
                meshes.push(mesh);
            },
            None => {
                assert(first_malformed(mesh_source_views(sources@), i as int));
                return Err(ModelError::MalformedGeometry { mesh: i });
            },
        }
        i += 1;
    }
    assert(mesh_views(meshes@) =~= meshes_of(mesh_source_views(sources@), material_count as nat));
    Ok(meshes)
}

/// A material of a model: its name and the positions in the atlas of the
/// textures it is bound to.
pub struct Material {
    pub name: String,
    pub diffuse: usize,
    pub normal: Option<usize>,
}

/// The contents of a material, its name as a sequence of characters.
pub struct MaterialView {
    pub name: Seq<char>,
    pub diffuse: usize,
    pub normal: Option<usize>,
}

impl View for Material {
    type V = MaterialView;

    open spec fn view(&self) -> MaterialView {
        MaterialView { name: self.name@, diffuse: self.diffuse, normal: self.normal }
    }
}

/// The contents of each material.
pub open spec fn material_views(materials: Seq<Material>) -> Seq<MaterialView> {
    Seq::new(materials.len(), |k: int| materials[k]@)
}

/// The material carries the plan's name and points at the textures of the
/// atlas that were loaded from the plan's paths.
pub open spec fn bound_to<T>(
    material: MaterialView,
    plan: MaterialPlanView,
    entries: Seq<(Seq<char>, T)>,
) -> bool {
    &&& material.name == plan.name
    &&& material.diffuse < entries.len()
    &&& entries[material.diffuse as int].0 == plan.diffuse
    &&& match plan.normal {
        Some(path) => material.normal is Some && material.normal->0 < entries.len()
            && entries[material.normal->0 as int].0 == path,
        None => material.normal is None,
    }
}

/// There is one material for each plan, in the plans' order, bound as the
/// plan asks.
pub open spec fn all_bound<T>(
    materials: Seq<MaterialView>,
    plans: Seq<MaterialPlanView>,
    entries: Seq<(Seq<char>, T)>,
) -> bool {
    &&& materials.len() == plans.len()
    &&& forall|k: int|
        0 <= k < plans.len() ==> bound_to(#[trigger] materials[k], plans[k], entries)
}

/// A bound material points at the one texture that the atlas holds for each
/// path of its plan: in an atlas that holds no path twice, its diffuse
/// texture, and its normal map if the plan names one, stand at the position
/// of that path.
pub proof fn lemma_bound_position<T>(
    material: MaterialView,
    plan: MaterialPlanView,
    entries: Seq<(Seq<char>, T)>,
)
    requires
        distinct_paths(entries),
        bound_to(material, plan, entries),
    ensures
        resident(entries, plan.diffuse),
        material.diffuse == slot_of(entries, plan.diffuse),
        plan.normal matches Some(path) ==> resident(entries, path) && material.normal == Some(
            slot_of(entries, path) as usize,
        ),
{
    let at = material.diffuse as int;
    assert(entries[at].0 == plan.diffuse);
    let slot = slot_of(entries, plan.diffuse);
    if slot < at {
        assert(entries[slot].0 != entries[at].0);
    } else if at < slot {
        assert(entries[at].0 != entries[slot].0);
    }
    if plan.normal is Some {
        let path = plan.normal->0;
        let at = material.normal->0 as int;
        assert(entries[at].0 == path);
        let slot = slot_of(entries, path);
        if slot < at {
            assert(entries[slot].0 != entries[at].0);
        } else if at < slot {
            assert(entries[at].0 != entries[slot].0);
        }
    }
}

/// The plan names `path` as one of its textures.
pub open spec fn names_texture(plan: MaterialPlanView, path: Seq<char>) -> bool {
    plan.diffuse == path || plan.normal == Some(path)
}

/// Some plan names `path` as one of its textures.
pub open spec fn wanted(plans: Seq<MaterialPlanView>, path: Seq<char>) -> bool {
    exists|k: int| 0 <= k < plans.len() && names_texture(#[trigger] plans[k], path)
}

/// Every texture that the plans name is in the atlas.
pub open spec fn all_resident<T>(plans: Seq<MaterialPlanView>, entries: Seq<(Seq<char>, T)>) -> bool {
    forall|path: Seq<char>| #[trigger] wanted(plans, path) ==> resident(entries, path)
}

/// The loader may be called for every texture that the plans name and that
/// is not in the atlas `entries`. Nothing is asked of it for a texture that
/// is resident, for which it is never called.
pub open spec fn loader_accepts<T, F: Fn(&String) -> Result<T, TextureLoadError>>(
    load: F,
    plans: Seq<MaterialPlanView>,
    entries: Seq<(Seq<char>, T)>,
) -> bool {
    forall|path: String|
        wanted(plans, path@) && !resident(entries, path@) ==> #[trigger] call_requires(
            load,
            (&path,),
        )
}

/// The loader gives a texture for every texture that the plans name.
pub open spec fn loader_succeeds<T, F: Fn(&String) -> Result<T, TextureLoadError>>(
    load: F,
    plans: Seq<MaterialPlanView>,
) -> bool {
    forall|path: String, outcome: Result<T, TextureLoadError>|
        wanted(plans, path@) && #[trigger] call_ensures(load, (&path,), outcome) ==> outcome is Ok
}

/// The textures that a plan asks for, in the order in which it asks for
/// them: the diffuse texture, then the normal map if it names one.
pub open spec fn plan_requests(plan: MaterialPlanView) -> Seq<Seq<char>> {
    match plan.normal {
        Some(normal) => seq![plan.diffuse, normal],
        None => seq![plan.diffuse],
    }
}

/// The textures that the first `n` plans ask for, in order.
pub open spec fn requested_upto(plans: Seq<MaterialPlanView>, n: nat) -> Seq<Seq<char>>
    decreases n,
{
    if n == 0 {
        Seq::empty()
    } else {
        requested_upto(plans, (n - 1) as nat) + plan_requests(plans[n - 1])
    }
}

/// The textures that the plans ask for, in order.
pub open spec fn requested(plans: Seq<MaterialPlanView>) -> Seq<Seq<char>> {
    requested_upto(plans, plans.len())
}

/// Asking for the paths `asked` in order failed with `e`: all requests
/// before some request went well and left an atlas with the paths `after`,
/// the texture of that request was not there, and the loader gave `e` for
/// it.
pub open spec fn failed_at<T, F: Fn(&String) -> Result<T, TextureLoadError>>(
    load: F,
    asked: Seq<Seq<char>>,
    before: Seq<Seq<char>>,
    after: Seq<Seq<char>>,
    e: TextureLoadError,
) -> bool {
    exists|n: int, path: String|
        #![trigger asked.take(n), call_ensures(load, (&path,), Err::<T, TextureLoadError>(e))]
        {
            &&& 0 <= n < asked.len()
            &&& path@ == asked[n]
            &&& after == paths_after(before, asked.take(n))
            &&& !after.contains(asked[n])
            &&& call_ensures(load, (&path,), Err::<T, TextureLoadError>(e))
        }
}

/// The first `n` plans ask for exactly the textures that they name.
pub proof fn lemma_requested_upto_are_named(plans: Seq<MaterialPlanView>, n: nat, path: Seq<char>)
    ensures
        requested_upto(plans, n).contains(path) <==> exists|k: int|
            0 <= k < n && names_texture(#[trigger] plans[k], path),
    decreases n,
{
    if n > 0 {
        lemma_requested_upto_are_named(plans, (n - 1) as nat, path);
        let earlier = requested_upto(plans, (n - 1) as nat);
        let last = plan_requests(plans[n - 1]);
        let all = requested_upto(plans, n);
        if all.contains(path) {
            let i = choose|i: int| 0 <= i < all.len() && all[i] == path;
            if i < earlier.len() {
                assert(earlier[i] == path);
            } else {
                assert(last[i - earlier.len()] == path);
                assert(names_texture(plans[n - 1], path));
            }
        }
        if exists|k: int| 0 <= k < n && names_texture(#[trigger] plans[k], path) {
            let k = choose|k: int| 0 <= k < n && names_texture(#[trigger] plans[k], path);
            if k < n - 1 {
                let i = choose|i: int| 0 <= i < earlier.len() && earlier[i] == path;
                assert(all[i] == path);
            } else if plans[n - 1].diffuse == path {
                assert(last[0] == path);
                assert(all[earlier.len() as int] == path);
            } else {
                assert(last[1] == path);
                assert(all[earlier.len() as int + 1] == path);
            }
        }
    }
}

/// The plans ask for exactly the textures that they name.
pub proof fn lemma_requested_are_wanted(plans: Seq<MaterialPlanView>, path: Seq<char>)
    ensures
        requested(plans).contains(path) <==> wanted(plans, path),
{
    lemma_requested_upto_are_named(plans, plans.len(), path);
}

/// What the first plans ask for stands at the front of what more plans ask
/// for.
pub proof fn lemma_requested_prefix(plans: Seq<MaterialPlanView>, k: nat, m: nat)
    requires
        k <= m,
    ensures
        requested_upto(plans, k).len() <= requested_upto(plans, m).len(),
        requested_upto(plans, m).take(requested_upto(plans, k).len() as int) == requested_upto(
            plans,
            k,
        ),
    decreases m,
{
    if k == m {
        assert(requested_upto(plans, m).take(requested_upto(plans, k).len() as int)
            =~= requested_upto(plans, k));
    } else {
        lemma_requested_prefix(plans, k, (m - 1) as nat);
        assert(requested_upto(plans, m).take(requested_upto(plans, k).len() as int)
            =~= requested_upto(plans, (m - 1) as nat).take(
            requested_upto(plans, k).len() as int,
        ));
    }
}

/// A texture that is in an atlas is in every atlas grown from it.
pub proof fn lemma_resident_stays<T>(
    after: Seq<(Seq<char>, T)>,
    before: Seq<(Seq<char>, T)>,
    path: Seq<char>,
)
    requires
        grown_from(after, before),
        resident(before, path),
    ensures
        resident(after, path),
{
    let i = choose|i: int| 0 <= i < before.len() && (#[trigger] before[i]).0 == path;
    assert(after.subrange(0, before.len() as int)[i] == after[i]);
}

/// Every texture that the second atlas holds beyond the first is one that
/// the plans name, as the loader gave it for its path.
pub open spec fn only_wanted_added<T, F: Fn(&String) -> Result<T, TextureLoadError>>(
    after: Seq<(Seq<char>, T)>,
    before: Seq<(Seq<char>, T)>,
    plans: Seq<MaterialPlanView>,
    load: F,
) -> bool {
    forall|i: int|
        before.len() <= i < after.len() ==> wanted(plans, (#[trigger] after[i]).0) && loaded_by(
            load,
            after[i],
        )
}

/// The first atlas is the front part of the second.
pub open spec fn grown_from<T>(after: Seq<(Seq<char>, T)>, before: Seq<(Seq<char>, T)>) -> bool {
    before.len() <= after.len() && after.subrange(0, before.len() as int) == before
}

/// Binds a planned material to its textures, loading those that are not in
/// the atlas yet: the diffuse texture first, then the normal map if the plan
/// names one. The first failed load ends the work.
fn bind_material<T, F: Fn(&String) -> Result<T, TextureLoadError>>(
    plan: &MaterialPlan,
    texture_atlas: &mut TextureAtlas<T>,
    load_texture: &F,
) -> (bound: Result<Material, TextureLoadError>)
    requires
        old(texture_atlas).wf(),
        forall|path: String|
            names_texture(plan@, path@) && !resident(old(texture_atlas)@, path@)
                ==> #[trigger] call_requires(*load_texture, (&path,)),
    ensures
        final(texture_atlas).wf(),
        grown_from(final(texture_atlas)@, old(texture_atlas)@),
        forall|i: int|
            old(texture_atlas)@.len() <= i < final(texture_atlas)@.len() ==> names_texture(
                plan@,
                (#[trigger] final(texture_atlas)@[i]).0,
            ) && loaded_by(*load_texture, final(texture_atlas)@[i]),
        (forall|path: Seq<char>|
            names_texture(plan@, path) ==> #[trigger] resident(old(texture_atlas)@, path))
            ==> final(texture_atlas)@ == old(texture_atlas)@ && bound is Ok,
        (forall|path: String, outcome: Result<T, TextureLoadError>|
            names_texture(plan@, path@) && #[trigger] call_ensures(
                *load_texture,
                (&path,),
                outcome,
            ) ==> outcome is Ok) ==> bound is Ok,
        bound matches Ok(material) ==> bound_to(material@, plan@, final(texture_atlas)@),
        bound is Ok ==> paths_of(final(texture_atlas)@) == paths_after(
            paths_of(old(texture_atlas)@),
            plan_requests(plan@),
        ),
        bound matches Err(e) ==> failed_at(
            *load_texture,
            plan_requests(plan@),
            paths_of(old(texture_atlas)@),
            paths_of(final(texture_atlas)@),
            e,
        ),
{
    let ghost before = texture_atlas@;
    let ghost asked = plan_requests(plan@);
    let diffuse_path = plan.diffuse.clone();
    let ghost diffuse_asked = diffuse_path;
    assert(names_texture(plan@, diffuse_path@));
    let diffuse: usize = match texture_atlas.get(diffuse_path, load_texture) {
        Ok(id) => id,
        Err(e) => {
            proof {
                assert(before.subrange(0, before.len() as int) =~= before);
                lemma_resident_is_contained(before, diffuse_asked@);
                assert(asked.take(0) =~= Seq::<Seq<char>>::empty());
                assert(paths_of(before) == paths_after(paths_of(before), asked.take(0)));
                assert(call_ensures(
                    *load_texture,
                    (&diffuse_asked,),
                    Err::<T, TextureLoadError>(e),
                ));
            }
            return Err(e);
        },
    };
    let ghost middle = texture_atlas@;
    assert(grown_from(middle, before)) by {
        assert(middle.subrange(0, before.len() as int) =~= before);
    }
    assert(middle[diffuse as int].0 == plan@.diffuse);
    let normal: Option<usize> = match &plan.normal {
        Some(path) => {
            let normal_path = path.clone();
            let ghost normal_asked = normal_path;
            assert(names_texture(plan@, normal_path@));
            proof {
                if resident(before, normal_path@) {
                    lemma_resident_stays(middle, before, normal_path@);
                }
            }
            match texture_atlas.get(normal_path, load_texture) {
                Ok(id) => {
                    proof {
                        lemma_paths_after_both(
                            paths_of(before),
                            seq![plan@.diffuse],
                            seq![normal_asked@],
                        );
                        assert(seq![plan@.diffuse] + seq![normal_asked@] =~= asked);
                    }
                    Some(id)
                },
                Err(e) => {
                    proof {
                        lemma_resident_is_contained(middle, normal_asked@);
                        assert(asked.take(1) =~= seq![plan@.diffuse]);
                        assert(call_ensures(
                            *load_texture,
                            (&normal_asked,),
                            Err::<T, TextureLoadError>(e),
                        ));
                    }
                    return Err(e);
                },
            }
        },
        None => None,
    };
    assert(grown_from(texture_atlas@, before)) by {
        assert(texture_atlas@.subrange(0, middle.len() as int) =~= middle);
        assert(texture_atlas@.subrange(0, before.len() as int) =~= before);
    }
    assert(texture_atlas@[diffuse as int] == middle[diffuse as int]);
    Ok(Material { name: plan.name.clone(), diffuse, normal })
}

/// Binds every planned material to its textures, in the plans' order. The
/// first failed load ends the work; what was loaded before it stays in the
/// atlas.
fn bind_materials<T, F: Fn(&String) -> Result<T, TextureLoadError>>(
    plans: &Vec<MaterialPlan>,
    texture_atlas: &mut TextureAtlas<T>,
    load_texture: &F,
) -> (bound: Result<Vec<Material>, TextureLoadError>)
    requires
        old(texture_atlas).wf(),
        loader_accepts(*load_texture, plan_views(plans@), old(texture_atlas)@),
    ensures
        final(texture_atlas).wf(),
        grown_from(final(texture_atlas)@, old(texture_atlas)@),
        only_wanted_added(
            final(texture_atlas)@,
            old(texture_atlas)@,
            plan_views(plans@),
            *load_texture,
        ),
        all_resident(plan_views(plans@), old(texture_atlas)@) ==> final(texture_atlas)@ == old(
            texture_atlas,
        )@ && bound is Ok,
        loader_succeeds(*load_texture, plan_views(plans@)) ==> bound is Ok,
        bound matches Ok(materials) ==> all_bound(
            material_views(materials@),
            plan_views(plans@),
            final(texture_atlas)@,
        ),
        bound is Ok ==> paths_of(final(texture_atlas)@) == paths_after(
            paths_of(old(texture_atlas)@),
            requested(plan_views(plans@)),
        ),
        bound matches Err(e) ==> failed_at(
            *load_texture,
            requested(plan_views(plans@)),
            paths_of(old(texture_atlas)@),
            paths_of(final(texture_atlas)@),
            e,
        ),
{
    let ghost before = texture_atlas@;
    let ghost views = plan_views(plans@);
    let mut materials: Vec<Material> = Vec::new();
    let mut k: usize = 0;
    assert(before.subrange(0, before.len() as int) =~= before);
    while k < plans.len()
        invariant
            k <= plans.len(),
            views == plan_views(plans@),
            before == old(texture_atlas)@,
            texture_atlas.wf(),
            grown_from(texture_atlas@, before),
            only_wanted_added(texture_atlas@, before, views, *load_texture),
            paths_of(texture_atlas@) == paths_after(
                paths_of(before),
                requested_upto(views, k as nat),
            ),
            all_resident(views, before) ==> texture_atlas@ == before,
            loader_accepts(*load_texture, views, before),
            materials@.len() == k,
            forall|j: int|
                0 <= j < k ==> bound_to((#[trigger] materials@[j])@, plans@[j]@, texture_atlas@),
        decreases plans.len() - k,
    {
        let ghost middle = texture_atlas@;
        let ghost plan = plans@[k as int]@;
        assert(views[k as int] == plan);
        assert forall|path: String|
            names_texture(plan, path@) && !resident(middle, path@) implies #[trigger] call_requires(
            *load_texture,
            (&path,),
        ) by {
            assert(wanted(views, path@));
            if resident(before, path@) {
                lemma_resident_stays(middle, before, path@);
            }
        }
        assert forall|path: Seq<char>| names_texture(plan, path) implies wanted(views, path) by {}
        let outcome = bind_material(&plans[k], texture_atlas, load_texture);
        proof {
            assert(grown_from(texture_atlas@, before)) by {
                assert(texture_atlas@.subrange(0, before.len() as int) =~= middle.subrange(
                    0,
                    before.len() as int,
                ));
            }
            assert forall|i: int| before.len() <= i < texture_atlas@.len() implies wanted(
                views,
                (#[trigger] texture_atlas@[i]).0,
            ) && loaded_by(*load_texture, texture_atlas@[i]) by {
                if i < middle.len() {
                    assert(texture_atlas@[i] == texture_atlas@.subrange(0, middle.len() as int)[i]);
                    assert(wanted(views, middle[i].0));
                } else {
                    assert(names_texture(plan, texture_atlas@[i].0));
                }
            }
        }
        proof {
            lemma_paths_after_both(
                paths_of(before),
                requested_upto(views, k as nat),
                plan_requests(plan),
            );
        }
        match outcome {
            Ok(material) => {
                assert forall|j: int| 0 <= j < k implies bound_to(
                    (#[trigger] materials@[j])@,
                    plans@[j]@,
                    texture_atlas@,
                ) by {
                    let m = materials@[j]@;
                    assert(bound_to(m, plans@[j]@, middle));
                    assert(texture_atlas@[m.diffuse as int] == texture_atlas@.subrange(
                        0,
                        middle.len() as int,
                    )[m.diffuse as int]);
                    if m.normal is Some {
                        assert(texture_atlas@[m.normal->0 as int] == texture_atlas@.subrange(
                            0,
                            middle.len() as int,
                        )[m.normal->0 as int]);
                    }
                }
                materials.push(material);
            },
            Err(e) => {
                proof {
                    let asked = plan_requests(plan);
                    let all = requested(views);
                    let done = requested_upto(views, k as nat);
                    let (n, path) = choose|n: int, path: String|
                        #![trigger asked.take(n), call_ensures(*load_texture, (&path,), Err::<T, TextureLoadError>(e))]
                        {
                            &&& 0 <= n < asked.len()
                            &&& path@ == asked[n]
                            &&& paths_of(texture_atlas@) == paths_after(
                                paths_of(middle),
                                asked.take(n),
                            )
                            &&& !paths_of(texture_atlas@).contains(asked[n])
                            &&& call_ensures(
                                *load_texture,
                                (&path,),
                                Err::<T, TextureLoadError>(e),
                            )
                        };
                    lemma_requested_prefix(views, (k + 1) as nat, views.len());
                    let next = requested_upto(views, (k + 1) as nat);
                    assert(next == done + asked);
                    assert(all.take(next.len() as int) == next);
                    assert(all[done.len() + n] == all.take(next.len() as int)[done.len() + n]);
                    assert(all.take(done.len() + n) =~= done + asked.take(n));
                    lemma_paths_after_both(paths_of(before), done, asked.take(n));
                }
                return Err(e);
            },
        }
        k += 1;
    }
    assert(all_bound(material_views(materials@), plan_views(plans@), texture_atlas@)) by {
        assert forall|j: int| 0 <= j < plans@.len() implies bound_to(
            #[trigger] material_views(materials@)[j],
            plan_views(plans@)[j],
            texture_atlas@,
        ) by {
            assert(bound_to(materials@[j]@, plans@[j]@, texture_atlas@));
        }
    }
    Ok(materials)
}

/// A loaded model: its meshes and its materials, under the path it was
/// loaded from. Two models are the same model when they have the same name,
/// whatever their geometry.
pub struct Model {
    name: String,
    meshes: Vec<Mesh>,
    materials: Vec<Material>,
}

/// The contents of a model as sequences.
pub struct ModelView {
    pub name: Seq<char>,
    pub meshes: Seq<MeshView>,
    pub materials: Seq<MaterialView>,
}

impl View for Model {
    type V = ModelView;

    closed spec fn view(&self) -> ModelView {
        ModelView {
            name: self.name@,
            meshes: mesh_views(self.meshes@),
            materials: material_views(self.materials@),
        }
    }
}

/// Every mesh names a material of the list.
pub open spec fn materials_in_range(model: ModelView) -> bool {
    forall|i: int|
        0 <= i < model.meshes.len() ==> (#[trigger] model.meshes[i]).material_index
            < model.materials.len()
}

/// What loading answers for the sub-meshes `parts` and the material plans
/// `plans` of the file at `path`, where `before` is the atlas at the start
/// and `entries` the atlas afterwards. A model carries the path as its name,
/// the meshes of all sub-meshes and one bound material for each plan, and
/// the atlas has taken in every texture that the plans ask for. A texture
/// failure is one that the loader gave for the first request that it could
/// not serve; what was loaded before it stays in the atlas. Textures come
/// before geometry: a geometry failure is answered only once every texture
/// that the plans ask for is in the atlas, and names the first sub-mesh
/// whose streams are inconsistent.
pub open spec fn loaded_as<T, F: Fn(&String) -> Result<T, TextureLoadError>>(
    loaded: Result<Model, ModelError>,
    path: Seq<char>,
    parts: Seq<MeshSourceView>,
    plans: Seq<MaterialPlanView>,
    before: Seq<(Seq<char>, T)>,
    entries: Seq<(Seq<char>, T)>,
    load: F,
) -> bool {
    match loaded {
        Ok(model) => {
            &&& model.wf()
            &&& model@.name == path
            &&& all_well_formed(parts)
            &&& model@.meshes == meshes_of(parts, plans.len())
            &&& all_bound(model@.materials, plans, entries)
            &&& paths_of(entries) == paths_after(paths_of(before), requested(plans))
        },
        Err(ModelError::ModelParse) => false,
        Err(ModelError::TextureLoad(e)) => failed_at(
            load,
            requested(plans),
            paths_of(before),
            paths_of(entries),
            e,
        ),
        Err(ModelError::MalformedGeometry { mesh }) => {
            &&& first_malformed(parts, mesh as int)
            &&& paths_of(entries) == paths_after(paths_of(before), requested(plans))
        },
    }
}

/// Materials that name the same diffuse texture share it: in every model
/// that loading answers, two materials whose plans name one path point at
/// one and the same texture of the atlas.
pub proof fn lemma_loaded_materials_share_textures<T, F: Fn(&String) -> Result<T, TextureLoadError>>(
    loaded: Result<Model, ModelError>,
    path: Seq<char>,
    parts: Seq<MeshSourceView>,
    plans: Seq<MaterialPlanView>,
    before: Seq<(Seq<char>, T)>,
    entries: Seq<(Seq<char>, T)>,
    load: F,
    j: int,
    k: int,
)
    requires
        loaded_as(loaded, path, parts, plans, before, entries, load),
        loaded is Ok,
        distinct_paths(entries),
        0 <= j < plans.len(),
        0 <= k < plans.len(),
        plans[j].diffuse == plans[k].diffuse,
    ensures
        loaded->Ok_0@.materials[j].diffuse == loaded->Ok_0@.materials[k].diffuse,
{
    let materials = loaded->Ok_0@.materials;
    lemma_bound_position(materials[j], plans[j], entries);
    lemma_bound_position(materials[k], plans[k], entries);
}

/// A texture that was resident before a model was loaded is reused: where
/// loading has answered a model and left the atlas as it was, each material
/// points at the position that its diffuse texture had in the atlas before.
pub proof fn lemma_loaded_reuses_resident_textures<T, F: Fn(&String) -> Result<T, TextureLoadError>>(
    loaded: Result<Model, ModelError>,
    path: Seq<char>,
    parts: Seq<MeshSourceView>,
    plans: Seq<MaterialPlanView>,
    before: Seq<(Seq<char>, T)>,
    load: F,
    k: int,
)
    requires
        loaded_as(loaded, path, parts, plans, before, before, load),
        loaded is Ok,
        distinct_paths(before),
        0 <= k < plans.len(),
    ensures
        resident(before, plans[k].diffuse),
        loaded->Ok_0@.materials[k].diffuse == slot_of(before, plans[k].diffuse),
{
    lemma_bound_position(loaded->Ok_0@.materials[k], plans[k], before);
}

impl Model {
    /// Every mesh of the model names one of the model's materials.
    pub open spec fn wf(&self) -> bool {
        materials_in_range(self@)
    }

    /// A model has no more meshes and materials than a list can hold.
    pub proof fn lemma_sizes(self)
        ensures
            self@.meshes.len() <= usize::MAX,
            self@.materials.len() <= usize::MAX,
    {
        assert(self@.meshes.len() == self.meshes.len());
        assert(self@.materials.len() == self.materials.len());
    }

    /// True when every mesh of the model names one of the model's materials.
    pub fn is_wf(&self) -> (sound: bool)
        ensures
            sound == self.wf(),
    {
        let mut i: usize = 0;
        while i < self.meshes.len()
            invariant
                i <= self.meshes.len(),
                forall|k: int|
                    0 <= k < i ==> (#[trigger] self@.meshes[k]).material_index
                        < self@.materials.len(),
            decreases self.meshes.len() - i,
        {
            if self.meshes[i].material_index >= self.materials.len() {
                assert(self@.meshes[i as int].material_index >= self@.materials.len());
                return false;
            }
            i += 1;
        }
        true
    }

    /// The path the model was loaded from.
    pub fn name(&self) -> (name: &String)
        ensures
            name@ == self@.name,
    {
        &self.name
    }

    /// The meshes, in the file's order.
    pub fn meshes(&self) -> (meshes: &Vec<Mesh>)
        ensures
            mesh_views(meshes@) == self@.meshes,
    {
        &self.meshes
    }

    /// The materials, in the file's order.
    pub fn materials(&self) -> (materials: &Vec<Material>)
        ensures
            material_views(materials@) == self@.materials,
    {
        &self.materials
    }

    /// Builds the model for the parsed contents of the mesh file at `path`.
    ///
    /// `meshes` are the file's sub-meshes and `materials` its material
    /// list, absent where the material file could not be read. Each
    /// material is bound to its textures through the atlas; `load_texture`
    /// is called for those that are not resident yet. Materials come first:
    /// a texture that fails to load ends the work before any mesh is built.
    pub fn load<T, F: Fn(&String) -> Result<T, TextureLoadError>>(
        path: String,
        meshes: &Vec<MeshSource>,
        materials: &Option<Vec<MaterialSource>>,
        texture_atlas: &mut TextureAtlas<T>,
        load_texture: &F,
    ) -> (loaded: Result<Model, ModelError>)
        requires
            old(texture_atlas).wf(),
            materials matches Some(sources) ==> loader_accepts(
                *load_texture,
                material_plans(source_views(sources@)),
                old(texture_atlas)@,
            ),
        ensures
            final(texture_atlas).wf(),
            grown_from(final(texture_atlas)@, old(texture_atlas)@),
            materials matches Some(sources) ==> only_wanted_added(
                final(texture_atlas)@,
                old(texture_atlas)@,
                material_plans(source_views(sources@)),
                *load_texture,
            ),
            materials is None ==> loaded == Err::<Model, ModelError>(ModelError::ModelParse)
                && final(texture_atlas)@ == old(texture_atlas)@,
            materials matches Some(sources) ==> loaded_as(
                loaded,
                path@,
                mesh_source_views(meshes@),
                material_plans(source_views(sources@)),
                old(texture_atlas)@,
                final(texture_atlas)@,
                *load_texture,
            ),
            materials matches Some(sources) && all_resident(
                material_plans(source_views(sources@)),
                old(texture_atlas)@,
            ) ==> final(texture_atlas)@ == old(texture_atlas)@,
            materials matches Some(sources) && (all_resident(
                material_plans(source_views(sources@)),
                old(texture_atlas)@,
            ) || loader_succeeds(*load_texture, material_plans(source_views(sources@))))
                ==> !(loaded is Err && loaded->Err_0 is TextureLoad),
            materials matches Some(sources) && all_well_formed(mesh_source_views(meshes@)) && (
            all_resident(material_plans(source_views(sources@)), old(texture_atlas)@)
                || loader_succeeds(*load_texture, material_plans(source_views(sources@))))
                ==> loaded is Ok,
    {
        let sources = match materials {
            Some(sources) => sources,
            None => {
                assert(texture_atlas@.subrange(0, texture_atlas@.len() as int) =~= texture_atlas@);
                return Err(ModelError::ModelParse);
            },
        };
        let plans = plan_materials(sources);
        let bound = match bind_materials(&plans, texture_atlas, load_texture) {
            Ok(bound) => bound,
            Err(e) => {
                return Err(ModelError::TextureLoad(e));
            },
        };
        let built = match build_meshes(meshes, bound.len()) {
            Ok(built) => built,
            Err(e) => {
                return Err(e);
            },
        };
        let model = Model { name: path, meshes: built, materials: bound };
        Ok(model)
    }
}

impl PartialEq for Model {
    /// Models are compared by name alone.
    fn eq(&self, other: &Self) -> (same: bool) {
        self.name == other.name
    }
}

impl vstd::std_specs::cmp::PartialEqSpecImpl for Model {
    open spec fn obeys_eq_spec() -> bool {
        true
    }

    open spec fn eq_spec(&self, other: &Self) -> bool {
        self@.name == other@.name
    }
}

impl Eq for Model {

}

impl core::hash::Hash for Model {
    /// Feeds the model's name, and nothing else of the model, to the hasher:
    /// this is `Hash::hash` of the name.
    #[verifier::external_body]
    fn hash<H: core::hash::Hasher>(&self, state: &mut H) {
        self.name.hash(state)
    }
}

/// A file that defines no material gives exactly one material, the default
/// one with the fallback texture, and every mesh is drawn with it, whatever
/// material the file names for the mesh.
pub proof fn lemma_default_material(parts: Seq<MeshSourceView>)
    ensures
        material_plans(Seq::<MaterialSourceView>::empty()) == seq![default_plan()],
        forall|i: int|
            0 <= i < parts.len() ==> (#[trigger] meshes_of(parts, 1)[i]).material_index == 0,
{
}

/// In every model each mesh is drawn with a material of the list: the one
/// the file names for it where that exists, and the first material where the
/// file names none or one beyond the end of the list.
pub proof fn lemma_material_index_in_range(
    sources: Seq<MaterialSourceView>,
    parts: Seq<MeshSourceView>,
    i: int,
)
    requires
        0 <= i < parts.len(),
    ensures
        ({
            let count = material_plans(sources).len();
            let index = meshes_of(parts, count)[i].material_index;
            &&& count >= 1
            &&& index < count
            &&& match parts[i].material_id {
                Some(k) => index == if k < count {
                    k
                } else {
                    0
                },
                None => index == 0,
            }
        }),
{
}

} // verus!
