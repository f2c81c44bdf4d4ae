//! The render batcher: brings every instance buffer up to date, then lists
//! the draw commands of a frame in registration order.

use vstd::prelude::*;
use crate::instance::{synced_from, BufferAction, InstancedModel};
use crate::model::{index_count, mesh_views, MeshView};

verus! {

/// The slot that the vertices of a mesh are bound to.
pub const VERTEX_SLOT: u32 = 0;

/// The slot that the instances of a model are bound to.
pub const INSTANCE_SLOT: u32 = 1;

/// The bind group index of a material's textures.
pub const MATERIAL_GROUP: u32 = 0;

/// Where the per-instance data of a draw comes from.
#[derive(Clone, Copy, Debug, PartialEq, Eq, Structural)]
pub enum InstanceSource {
    /// The shared buffer that holds the one default instance.
    Single,
    /// The instance buffer of the model at this position of the registry.
    Model(usize),
}

/// The width of the entries of an index buffer.
#[derive(Clone, Copy, Debug, PartialEq, Eq, Structural)]
pub enum IndexFormat {
    Uint16,
    Uint32,
}

/// A half-open range of indices or of instances, from `start` up to but not
/// including `end`.
#[derive(Clone, Copy, Debug, PartialEq, Eq, Structural)]
pub struct Span {
    pub start: u32,
    pub end: u32,
}

/// One command of a render pass. Models, meshes and materials are named by
/// their positions: a model by its position in the registry, a mesh or a
/// material by its position in that model.
#[derive(Clone, Copy, Debug, PartialEq, Eq, Structural)]
pub enum DrawCommand {
    /// Bind per-instance data to a vertex buffer slot.
    SetInstanceBuffer { slot: u32, source: InstanceSource },
    /// Bind the textures of a material.
    SetBindGroup { index: u32, model: usize, material: usize },
    /// Bind the whole vertex buffer of a mesh to a vertex buffer slot.
    SetVertexBuffer { slot: u32, model: usize, mesh: usize },
    /// Bind the whole index buffer of a mesh.
    SetIndexBuffer { model: usize, mesh: usize, format: IndexFormat },
    /// Draw the bound mesh once for every instance of the range.
    DrawIndexed { indices: Span, base_vertex: i32, instances: Span },
}

/// The models registered for drawing, in registration order.
pub struct RenderData {
    pub models: Vec<InstancedModel>,
}

/// The number of instances that a model with `count` registered instances
/// is drawn with: one, the default instance, where it has none. Draw calls
/// count in 32 bits, and a longer list wraps around.
pub open spec fn drawn_instances(count: nat) -> u32 {
    if count == 0 {
        1
    } else {
        index_count(count)
    }
}

/// The source of the per-instance data for the model at position `model`
/// with `count` registered instances.
pub open spec fn instance_source(model: usize, count: nat) -> InstanceSource {
    if count == 0 {
        InstanceSource::Single
    } else {
        InstanceSource::Model(model)
    }
}

/// The four commands that draw one mesh `instances` times.
pub open spec fn mesh_commands(model: usize, mesh: usize, content: MeshView, instances: u32) -> Seq<
    DrawCommand,
> {
    seq![
        DrawCommand::SetBindGroup {
            index: MATERIAL_GROUP,
            model,
            material: content.material_index,
        },
        DrawCommand::SetVertexBuffer { slot: VERTEX_SLOT, model, mesh },
        DrawCommand::SetIndexBuffer { model, mesh, format: IndexFormat::Uint32 },
        DrawCommand::DrawIndexed {
            indices: Span { start: 0, end: content.indices_count },
            base_vertex: 0,
            instances: Span { start: 0, end: instances },
        },
    ]
}

/// The commands that draw the first `n` meshes of a model, in order.
pub open spec fn meshes_commands(model: usize, meshes: Seq<MeshView>, instances: u32, n: nat) -> Seq<
    DrawCommand,
>
    decreases n,
{
    if n == 0 {
        Seq::empty()
    } else {
        meshes_commands(model, meshes, instances, (n - 1) as nat) + mesh_commands(
            model,
            (n - 1) as usize,
            meshes[n - 1],
            instances,
        )
    }
}

/// The commands that draw one registered model: its instance data is bound
/// once, then its meshes are drawn in order.
pub open spec fn model_commands(model: usize, registered: InstancedModel) -> Seq<DrawCommand> {
    let count = registered.instance_count();
    seq![
        DrawCommand::SetInstanceBuffer {
            slot: INSTANCE_SLOT,
            source: instance_source(model, count),
        },
    ] + meshes_commands(
        model,
        registered.model@.meshes,
        drawn_instances(count),
        registered.model@.meshes.len(),
    )
}

/// The commands that draw the first `n` registered models, in registration
/// order.
pub open spec fn draw_commands(models: Seq<InstancedModel>, n: nat) -> Seq<DrawCommand>
    decreases n,
{
    if n == 0 {
        Seq::empty()
    } else {
        draw_commands(models, (n - 1) as nat) + model_commands((n - 1) as usize, models[n - 1])
    }
}

/// The commands of the first `n` meshes of a model are four per mesh, and
/// those of the mesh at position `mesh` stand at positions `4 * mesh` to
/// `4 * mesh + 3`.
pub proof fn lemma_meshes_commands_layout(
    model: usize,
    meshes: Seq<MeshView>,
    instances: u32,
    n: nat,
    mesh: int,
    part: int,
)
    requires
        0 <= mesh < n <= usize::MAX,
        0 <= part < 4,
    ensures
        meshes_commands(model, meshes, instances, n).len() == 4 * n,
        meshes_commands(model, meshes, instances, n)[4 * mesh + part] == mesh_commands(
            model,
            mesh as usize,
            meshes[mesh],
            instances,
        )[part],
    decreases n,
{
    lemma_meshes_commands_len(model, meshes, instances, n);
    lemma_meshes_commands_len(model, meshes, instances, (n - 1) as nat);
    if mesh < n - 1 {
        lemma_meshes_commands_layout(model, meshes, instances, (n - 1) as nat, mesh, part);
    }
}

/// The first `n` meshes of a model are drawn with four commands each.
pub proof fn lemma_meshes_commands_len(model: usize, meshes: Seq<MeshView>, instances: u32, n: nat)
    ensures
        meshes_commands(model, meshes, instances, n).len() == 4 * n,
    decreases n,
{
    if n > 0 {
        lemma_meshes_commands_len(model, meshes, instances, (n - 1) as nat);
    }
}

/// A model without instances, or with an empty list of them, is still
/// drawn: the shared single instance is bound in place of a buffer of its
/// own, and each of its meshes is drawn by exactly one indexed draw, whose
/// instance range is `0..1`. No other command of the model is an indexed
/// draw, so a model of one mesh is drawn by exactly one.
pub proof fn lemma_model_without_instances_is_drawn_once(
    model: usize,
    registered: InstancedModel,
    position: int,
)
    requires
        registered.instance_count() == 0,
        0 <= position < model_commands(model, registered).len(),
    ensures
        model_commands(model, registered).len() == 1 + 4 * registered.model@.meshes.len(),
        model_commands(model, registered)[0] == (DrawCommand::SetInstanceBuffer {
            slot: INSTANCE_SLOT,
            source: InstanceSource::Single,
        }),
        model_commands(model, registered)[position] is DrawIndexed <==> position >= 4 && position
            % 4 == 0,
        model_commands(model, registered)[position] is DrawIndexed ==> model_commands(
            model,
            registered,
        )[position] == (DrawCommand::DrawIndexed {
            indices: Span {
                start: 0,
                end: registered.model@.meshes[position / 4 - 1].indices_count,
            },
            base_vertex: 0,
            instances: Span { start: 0, end: 1 },
        }),
{
    let meshes = registered.model@.meshes;
    registered.model.lemma_sizes();
    lemma_meshes_commands_len(model, meshes, 1, meshes.len());
    if position >= 1 {
        let mesh = (position - 1) / 4;
        let part = (position - 1) % 4;
        lemma_meshes_commands_layout(model, meshes, 1, meshes.len(), mesh, part);
    }
}

/// Whatever its instances, a model is drawn with the number of them that
/// its draw calls are given, and with a buffer that holds them: where the
/// registry has been synchronised, every indexed draw of a model with
/// instances stays within the capacity of the model's own buffer, which is
/// the buffer bound for it.
pub proof fn lemma_draw_stays_within_buffer(model: usize, registered: InstancedModel, position: int)
    requires
        registered.synced(),
        registered.instance_count() > 0,
        0 <= position < model_commands(model, registered).len(),
    ensures
        model_commands(model, registered)[0] == (DrawCommand::SetInstanceBuffer {
            slot: INSTANCE_SLOT,
            source: InstanceSource::Model(model),
        }),
        model_commands(model, registered)[position] is DrawIndexed ==> registered.capacity() is Some
            && model_commands(model, registered)[position]->instances.start == 0 && model_commands(
            model,
            registered,
        )[position]->instances.end <= registered.instance_count() <= registered.capacity()->0,
{
    let meshes = registered.model@.meshes;
    registered.model.lemma_sizes();
    let count = registered.instance_count();
    lemma_meshes_commands_len(model, meshes, drawn_instances(count), meshes.len());
    if position >= 1 {
        let mesh = (position - 1) / 4;
        let part = (position - 1) % 4;
        lemma_meshes_commands_layout(model, meshes, drawn_instances(count), meshes.len(), mesh, part);
    }
}

/// Everything that the command names exists in the registry: the model, the
/// mesh or material of that model, and, for per-instance data of a model's
/// own, a buffer of that model that holds its instances.
pub open spec fn references_exist(models: Seq<InstancedModel>, command: DrawCommand) -> bool {
    match command {
        DrawCommand::SetInstanceBuffer { source, .. } => match source {
            InstanceSource::Single => true,
            InstanceSource::Model(model) => {
                &&& model < models.len()
                &&& models[model as int].capacity() matches Some(slots)
                &&& 0 < models[model as int].instance_count() <= slots
            },
        },
        DrawCommand::SetBindGroup { model, material, .. } => {
            &&& model < models.len()
            &&& material < models[model as int].model@.materials.len()
        },
        DrawCommand::SetVertexBuffer { model, mesh, .. } => {
            &&& model < models.len()
            &&& mesh < models[model as int].model@.meshes.len()
        },
        DrawCommand::SetIndexBuffer { model, mesh, .. } => {
            &&& model < models.len()
            &&& mesh < models[model as int].model@.meshes.len()
        },
        DrawCommand::DrawIndexed { .. } => true,
    }
}

/// No command of a frame names anything that is not there: for a registry
/// of sound models whose buffers have been synchronised, every model, mesh,
/// material and instance buffer that a draw command names exists.
pub proof fn lemma_draw_references_exist(models: Seq<InstancedModel>, n: nat, position: int)
    requires
        n <= models.len() <= usize::MAX,
        forall|i: int|
            0 <= i < models.len() ==> (#[trigger] models[i]).model.wf() && models[i].synced(),
        0 <= position < draw_commands(models, n).len(),
    ensures
        references_exist(models, draw_commands(models, n)[position]),
    decreases n,
{
    let earlier = draw_commands(models, (n - 1) as nat);
    let registered = models[n - 1];
    let model = (n - 1) as usize;
    if position < earlier.len() {
        lemma_draw_references_exist(models, (n - 1) as nat, position);
    } else {
        let within = position - earlier.len();
        let meshes = registered.model@.meshes;
        let instances = drawn_instances(registered.instance_count());
        registered.model.lemma_sizes();
        lemma_meshes_commands_len(model, meshes, instances, meshes.len());
        assert(registered.model.wf() && registered.synced());
        if within >= 1 {
            let mesh = (within - 1) / 4;
            let part = (within - 1) % 4;
            lemma_meshes_commands_layout(model, meshes, instances, meshes.len(), mesh, part);
            assert(meshes[mesh].material_index < registered.model@.materials.len());
        }
    }
}

impl RenderData {
    /// Every model of the registry is sound and its instance buffer holds
    /// its current instances.
    pub open spec fn ready(&self) -> bool {
        forall|i: int|
            0 <= i < self.models@.len() ==> (#[trigger] self.models@[i]).model.wf()
                && self.models@[i].synced()
    }

    /// A registry without models.
    pub fn new() -> (render_data: RenderData)
        ensures
            render_data.models@.len() == 0,
    {
        RenderData { models: Vec::new() }
    }

    /// True when every model of the registry is sound and its instance
    /// buffer holds its current instances.
    pub fn is_ready(&self) -> (ready: bool)
        ensures
            ready == self.ready(),
    {
        let mut i: usize = 0;
        while i < self.models.len()
            invariant
                i <= self.models.len(),
                forall|k: int|
                    0 <= k < i ==> (#[trigger] self.models@[k]).model.wf()
                        && self.models@[k].synced(),
            decreases self.models.len() - i,
        {
            if !self.models[i].model.is_wf() || !self.models[i].is_synced() {
                return false;
            }
            i += 1;
        }
        true
    }

    /// Brings the instance buffer of every model up to date with its
    /// instances, and lists what has to be done on the graphics device: one
    /// action per model, in registration order. The models and their
    /// instances stay as they are.
    pub fn update_instance_buffers(&mut self) -> (actions: Vec<BufferAction>)
        ensures
            actions@.len() == old(self).models@.len(),
            final(self).models@.len() == old(self).models@.len(),
            forall|i: int|
                #![trigger actions@[i]]
                #![trigger final(self).models@[i]]
                #![trigger old(self).models@[i]]
                0 <= i < old(self).models@.len() ==> synced_from(
                    old(self).models@[i],
                    final(self).models@[i],
                    actions@[i],
                ),
            (forall|i: int|
                0 <= i < old(self).models@.len() ==> (#[trigger] old(self).models@[i]).model.wf())
                ==> final(self).ready(),
    {
        let mut actions: Vec<BufferAction> = Vec::new();
        let mut i: usize = 0;
        while i < self.models.len()
            invariant
                i <= self.models.len(),
                self.models@.len() == old(self).models@.len(),
                actions@.len() == i,
                forall|k: int| i <= k < self.models@.len() ==> self.models@[k] == old(self).models@[k],
                forall|k: int|
                    0 <= k < i ==> synced_from(
                        #[trigger] old(self).models@[k],
                        self.models@[k],
                        actions@[k],
                    ),
            decreases self.models.len() - i,
        {
            let action = self.models[i].sync();
            actions.push(action);
            i += 1;
        }
        proof {
            if forall|i: int|
                0 <= i < old(self).models@.len() ==> (#[trigger] old(self).models@[i]).model.wf() {
                assert forall|i: int| 0 <= i < self.models@.len() implies (
                #[trigger] self.models@[i]).model.wf() && self.models@[i].synced() by {
                    let before = old(self).models@[i];
                    assert(before.model.wf());
                }
            }
        }
        actions
    }
}

/// A render pass under recording: the commands given to it so far, in the
/// order in which they were given.
pub struct RenderPass {
    pub commands: Vec<DrawCommand>,
}

impl View for RenderPass {
    type V = Seq<DrawCommand>;

    open spec fn view(&self) -> Seq<DrawCommand> {
        self.commands@
    }
}

impl RenderPass {
    /// A pass without commands.
    pub fn new() -> (pass: RenderPass)
        ensures
            pass@ == Seq::<DrawCommand>::empty(),
    {
        RenderPass { commands: Vec::new() }
    }
}

/// Something that the models of a frame can be drawn into.
pub trait DrawModels {
    /// The commands recorded so far.
    spec fn recorded(&self) -> Seq<DrawCommand>;

    /// Records the commands that draw every registered model, in
    /// registration order: the commands of one model follow those of the
    /// model before it, and nothing is sorted or merged. The registry must
    /// have been synchronised before, and is not changed.
    fn draw_models(&mut self, render_data: &RenderData)
        requires
            render_data.ready(),
        ensures
            final(self).recorded() == old(self).recorded() + draw_commands(
                render_data.models@,
                render_data.models@.len(),
            ),
    ;
}

impl DrawModels for RenderPass {
    open spec fn recorded(&self) -> Seq<DrawCommand> {
        self@
    }

    fn draw_models(&mut self, render_data: &RenderData) {
        let ghost start = self@;
        let ghost models = render_data.models@;
        let mut i: usize = 0;
        assert(self@ =~= start + draw_commands(models, 0));
        while i < render_data.models.len()
            invariant
                i <= render_data.models.len(),
                models == render_data.models@,
                self@ == start + draw_commands(models, i as nat),
            decreases render_data.models.len() - i,
        {
            let registered = &render_data.models[i];
            let count: usize = registered.count();
            let (source, instances) = if count == 0 {
                (InstanceSource::Single, 1u32)
            } else {
                (InstanceSource::Model(i), (count as u64 % 0x1_0000_0000u64) as u32)
            };
            let meshes = registered.model.meshes();
            let ghost contents = registered.model@.meshes;
            let ghost head = start + draw_commands(models, i as nat) + seq![
                DrawCommand::SetInstanceBuffer { slot: INSTANCE_SLOT, source },
            ];
            self.commands.push(DrawCommand::SetInstanceBuffer { slot: INSTANCE_SLOT, source });
            assert(self@ =~= head + meshes_commands(i, contents, instances, 0));
            let mut j: usize = 0;
            while j < meshes.len()
                invariant
                    j <= meshes.len(),
                    mesh_views(meshes@) == contents,
                    self@ == head + meshes_commands(i, contents, instances, j as nat),
                decreases meshes.len() - j,
            {
                let mesh = &meshes[j];
                assert(mesh@ == contents[j as int]);
                let ghost before = self@;
                self.commands.push(
                    DrawCommand::SetBindGroup {
                        index: MATERIAL_GROUP,
                        model: i,
                        material: mesh.material_index,
                    },
                );
                self.commands.push(DrawCommand::SetVertexBuffer { slot: VERTEX_SLOT, model: i, mesh: j });
                self.commands.push(
                    DrawCommand::SetIndexBuffer { model: i, mesh: j, format: IndexFormat::Uint32 },
                );
                self.commands.push(
                    DrawCommand::DrawIndexed {
                        indices: Span { start: 0, end: mesh.indices_count },
                        base_vertex: 0,
                        instances: Span { start: 0, end: instances },
                    },
                );
                assert(self@ =~= before + mesh_commands(i, j, contents[j as int], instances));
                assert(self@ =~= head + meshes_commands(i, contents, instances, (j + 1) as nat));
                j += 1;
            }
            assert(self@ =~= start + draw_commands(models, (i + 1) as nat)) by {
                assert(head + meshes_commands(i, contents, instances, contents.len()) =~= start
                    + (draw_commands(models, i as nat) + model_commands(i, models[i as int])));
            }
            i += 1;
        }
    }
}

} // verus!
