use vstd::prelude::*;
use vstd::string::*;

use crate::factory::{is_v4_id, Factory};
use crate::mesh::{BufferSend, DrawType, Mesh};
use crate::named::{lemma_named_index, named_get, named_index};
use crate::keyed::{find_key, key_index, keys_distinct, lemma_key_index};
use crate::render_pass::{
    children_first, drawn_with, pass_names, pass_objects, shader_of, shaders_used, RenderPasses,
};
use crate::component::mesh_render::MeshRenderer;
use crate::material::Material;
use crate::resource::{
    asked, entries_set, entry_index, lemma_entry_index, Create, ManagerView, ResTT, ResTest, ResourceGroup,
    ResourceId, ResourceManager,
};
use crate::scene::{Object, ObjectId};
use crate::shader::Shader;

verus! {

/// What drawing one object asks of the graphics card.
#[derive(PartialEq, Eq, Structural, Clone, Copy, Debug)]
pub enum DrawCall {
    /// Nothing is drawn.
    Nothing,
    /// The faces given by the index buffer with handle `buffer`, which holds
    /// `count` indices.
    Faces { buffer: usize, count: usize },
    /// Lines through `count` vertices.
    Lines(usize),
    /// The vertices as they come, `count` items of the position buffer.
    Vertices(usize),
}

/// Some attribute of the shader is named `name`.
pub open spec fn has_attribute(attributes: Seq<(String, usize)>, name: Seq<char>) -> bool {
    exists|k: int| 0 <= k < attributes.len() && #[trigger] attributes[k].0@ == name
}

/// The mesh has a buffer named `name`, of floats or of indices.
pub open spec fn has_buffer(mesh: Mesh, name: Seq<char>) -> bool {
    named_index(mesh.f32_buffers(), name) is Some || named_index(mesh.u32_buffers(), name) is Some
}

/// How many items the buffer named `name` holds: the float buffer of that
/// name, else the index buffer; 0 where there is none.
pub open spec fn buffer_size(mesh: Mesh, name: Seq<char>) -> usize {
    match named_get(mesh.f32_buffers(), name) {
        Some(b) => b.data_view().len() as usize,
        None => match named_get(mesh.u32_buffers(), name) {
            Some(b) => b.data_view().len() as usize,
            None => 0,
        },
    }
}

/// The mesh has a buffer for each attribute of the shader.
pub open spec fn attributes_served(attributes: Seq<(String, usize)>, mesh: Mesh) -> bool {
    forall|i: int| 0 <= i < attributes.len() ==> has_buffer(mesh, #[trigger] attributes[i].0@)
}

/// How many items the position buffer holds, where the shader reads
/// positions; 0 where it does not.
pub open spec fn position_count(attributes: Seq<(String, usize)>, mesh: Mesh) -> usize {
    if has_attribute(attributes, "position"@) {
        buffer_size(mesh, "position"@)
    } else {
        0
    }
}

/// What drawing a mesh asks: nothing where some attribute of the shader
/// has no buffer; else the faces of the "faces" index buffer where the mesh
/// has one (nothing where that buffer was not sent yet); else lines through
/// a third of the position items, or the position items as they come.
pub open spec fn draw_call_spec(attributes: Seq<(String, usize)>, mesh: Mesh) -> DrawCall {
    if !attributes_served(attributes, mesh) {
        DrawCall::Nothing
    } else {
        match named_get(mesh.u32_buffers(), "faces"@) {
            Some(b) => match b.cgl_buffer() {
                Some(buffer) => DrawCall::Faces { buffer, count: b.data_view().len() as usize },
                None => DrawCall::Nothing,
            },
            None => match mesh.draw_type {
                DrawType::Lines => DrawCall::Lines((position_count(attributes, mesh) / 3) as usize),
                _ => DrawCall::Vertices(position_count(attributes, mesh)),
            },
        }
    }
}

/// The size of the buffer named `name`, if the mesh has one.
fn find_buffer_size(mesh: &Mesh, name: &str) -> (r: Option<usize>)
    ensures
        r is Some <==> has_buffer(*mesh, name@),
        r matches Some(n) ==> n == buffer_size(*mesh, name@),
{
    proof {
        lemma_named_index(mesh.f32_buffers(), name@);
        lemma_named_index(mesh.u32_buffers(), name@);
    }
    match mesh.buffer_f32_get(name) {
        Some(b) => Some(b.size_get()),
        None => match mesh.buffer_u32_get(name) {
            Some(b) => Some(b.size_get()),
            None => None,
        },
    }
}

/// Decides how `mesh` is drawn with `shader`.
pub fn draw_call(shader: &Shader, mesh: &Mesh) -> (d: DrawCall)
    ensures
        d == draw_call_spec(shader@.attributes, *mesh),
{
    let attributes = shader.attributes();
    let position = String::from_str("position");
    let ghost size: usize = buffer_size(*mesh, "position"@);
    let mut count: usize = 0;
    let mut i: usize = 0;
    while i < attributes.len()
        invariant
            i <= attributes@.len(),
            attributes@ == shader@.attributes,
            position@ == "position"@,
            size == buffer_size(*mesh, "position"@),
            forall|k: int| 0 <= k < i ==> has_buffer(*mesh, #[trigger] attributes@[k].0@),
            count == if exists|k: int| 0 <= k < i && #[trigger] attributes@[k].0@ == "position"@ {
                size
            } else {
                0
            },
        decreases attributes.len() - i,
    {
        match find_buffer_size(mesh, attributes[i].0.as_str()) {
            Some(n) => {
                if attributes[i].0 == position {
                    count = n;
                }
                proof {
                    if attributes@[i as int].0@ == "position"@ {
                        assert(exists|k: int| 0 <= k < i + 1 && #[trigger] attributes@[k].0@ == "position"@);
                    } else {
                        if exists|k: int| 0 <= k < i + 1 && #[trigger] attributes@[k].0@ == "position"@ {
                            let k = choose|k: int| 0 <= k < i + 1 && #[trigger] attributes@[k].0@ == "position"@;
                            assert(k < i);
                        }
                    }
                }
            },
            None => {
                proof {
                    assert(!attributes_served(shader@.attributes, *mesh)) by {
                        assert(!has_buffer(*mesh, attributes@[i as int].0@));
                    }
                }
                return DrawCall::Nothing;
            },
        }
        i = i + 1;
    }
    assert(count == position_count(shader@.attributes, *mesh));
    match mesh.buffer_u32_get("faces") {
        Some(b) => match b.cgl_buffer_get() {
            Some(buffer) => DrawCall::Faces { buffer, count: b.size_get() },
            None => DrawCall::Nothing,
        },
        None => match mesh.draw_type {
            DrawType::Lines => DrawCall::Lines(count / 3),
            _ => DrawCall::Vertices(count),
        },
    }
}

/// The names of the samplers whose texture was found, in order.
pub open spec fn found_samplers(samplers: Seq<(String, bool)>) -> Seq<Seq<char>>
    decreases samplers.len(),
{
    if samplers.len() == 0 {
        seq![]
    } else {
        let init = found_samplers(samplers.drop_last());
        if samplers.last().1 {
            init.push(samplers.last().0@)
        } else {
            init
        }
    }
}

/// The texture unit each sampler of a material is bound to: `samplers`
/// are the material's samplers by name, each with whether its texture was
/// found. Those found get the units 0, 1, 2, ... in order; the others none.
pub fn texture_units(samplers: &Vec<(String, bool)>) -> (units: Vec<(String, u32)>)
    requires
        samplers@.len() <= u32::MAX,
    ensures
        units@.len() == found_samplers(samplers@).len(),
        forall|k: int|
            0 <= k < units@.len() ==> (#[trigger] units@[k]).0@ == found_samplers(samplers@)[k]
                && units@[k].1 == k,
{
    let mut units: Vec<(String, u32)> = Vec::new();
    let mut i: usize = 0;
    while i < samplers.len()
        invariant
            i <= samplers@.len(),
            samplers@.len() <= u32::MAX,
            units@.len() <= i,
            units@.len() == found_samplers(samplers@.take(i as int)).len(),
            forall|k: int|
                0 <= k < units@.len() ==> (#[trigger] units@[k]).0@ == found_samplers(
                    samplers@.take(i as int),
                )[k] && units@[k].1 == k,
        decreases samplers.len() - i,
    {
        proof {
            assert(samplers@.take(i + 1).drop_last() =~= samplers@.take(i as int));
        }
        if samplers[i].1 {
            let unit = units.len() as u32;
            units.push((samplers[i].0.clone(), unit));
        }
        i = i + 1;
    }
    assert(samplers@.take(samplers@.len() as int) =~= samplers@);
    units
}


/// An object the editor draws for itself (the grid, the axes, the quads
/// the frame buffers are shown on, the lines round the draggers), with the
/// mesh it holds, by name, and the material it is drawn with.
pub struct Helper<Me> {
    pub object: Object,
    pub mesh_name: String,
    pub mesh: Me,
    pub material: ResTT,
}

/// The meshes of the helper objects, as the program built them.
pub struct HelperMeshes<Me> {
    pub grid: Me,
    pub repere: Me,
    pub quad_outline: Me,
    pub quad_all: Me,
    pub line: Me,
}

/// `h` is a fresh object named `object` that holds the mesh `mesh` under the
/// name `mesh_name` and is drawn with the material `material`, bound to
/// `bound`.
pub open spec fn helper_is<Me>(
    h: Helper<Me>,
    object: Seq<char>,
    mesh_name: Seq<char>,
    mesh: Me,
    material: Seq<char>,
    bound: ResTest,
) -> bool {
    &&& h.object.name@ == object
    &&& is_v4_id(h.object.id)
    &&& h.object.children@.len() == 0
    &&& h.object.parent is None
    &&& h.object.comp_string@.len() == 0
    &&& h.object.comp_lua@.len() == 0
    &&& h.mesh_name@ == mesh_name
    &&& h.mesh == mesh
    &&& h.material.name@ == material
    &&& h.material.resource == bound
}

/// What draws the editor's view: the passes of the frame being drawn, the
/// resources it draws with, the perspective camera (by id) and the
/// orthographic one the quads are seen by, the two frame buffers the scene
/// and the selection are drawn into, and the helper objects.
pub struct Render<Me, Tx, Ma, Ar> {
    pub passes: RenderPasses,
    pub resources: ResourceGroup<Me, Tx, Ma, Ar>,
    pub camera: ObjectId,
    pub camera_ortho: Object,
    pub fbo_all: ResourceId,
    pub fbo_selected: ResourceId,
    pub quad_outline: Helper<Me>,
    pub quad_all: Helper<Me>,
    pub grid: Helper<Me>,
    pub camera_repere: Helper<Me>,
    pub line: Helper<Me>,
}

impl<Me, Tx, Ma: Create, Ar> Render<Me, Tx, Ma, Ar> {
    /// Sets up the drawing of the view seen by `camera`: new resource
    /// managers, in which the two frame buffers, the outline shader and the
    /// materials of the two quads are loaded at once; a new orthographic
    /// camera; and the helper objects with their meshes and materials.
    pub fn new<M>(factory: &Factory<M>, camera: ObjectId, meshes: HelperMeshes<Me>) -> (r: Self)
        ensures
            r.passes.wf(),
            r.passes@.len() == 0,
            r.camera == camera,
            r.camera_ortho.name@ == "camera"@,
            is_v4_id(r.camera_ortho.id),
            r.camera_ortho.children@.len() == 0,
            r.fbo_all == 0,
            r.fbo_selected == 1,
            r.resources.fbo_manager@.wf(),
            r.resources.fbo_manager@.entries == seq![
                ("fbo_all"@, ResTest::ResData(0)),
                ("fbo_selected"@, ResTest::ResData(1)),
            ],
            r.resources.fbo_manager@.store.len() == 2,
            r.resources.fbo_manager@.pending.len() == 0,
            r.resources.shader_manager@.wf(),
            r.resources.shader_manager@.entries == seq![("shader/outline.sh"@, ResTest::ResData(0))],
            r.resources.shader_manager@.store.len() == 1,
            r.resources.shader_manager@.pending.len() == 0,
            r.resources.material_manager@.wf(),
            r.resources.material_manager@.entries == seq![
                ("material/outline.mat"@, ResTest::ResData(0)),
                ("material/fbo_all.mat"@, ResTest::ResData(1)),
            ],
            r.resources.material_manager@.store.len() == 2,
            r.resources.material_manager@.pending.len() == 0,
            r.resources.mesh_manager@.fresh(),
            r.resources.texture_manager@.fresh(),
            r.resources.armature_manager@.fresh(),
            helper_is(
                r.quad_outline,
                "quad_outline"@,
                "quad"@,
                meshes.quad_outline,
                "material/outline.mat"@,
                ResTest::ResData(0),
            ),
            helper_is(
                r.quad_all,
                "quad_all"@,
                "quad"@,
                meshes.quad_all,
                "material/fbo_all.mat"@,
                ResTest::ResData(1),
            ),
            helper_is(r.grid, "grid"@, "grid"@, meshes.grid, "material/line.mat"@, ResTest::ResNone),
            helper_is(
                r.camera_repere,
                "camera_repere"@,
                "repere"@,
                meshes.repere,
                "material/line.mat"@,
                ResTest::ResNone,
            ),
            helper_is(r.line, "line"@, "line"@, meshes.line, "material/line.mat"@, ResTest::ResNone),
    {
        let mut resources: ResourceGroup<Me, Tx, Ma, Ar> = ResourceGroup::new();
        proof {
            reveal_strlit("fbo_all");
            reveal_strlit("fbo_selected");
            reveal_strlit("material/outline.mat");
            reveal_strlit("material/fbo_all.mat");
        }
        let fbo_all = resources.fbo_manager.request_use_no_proc("fbo_all");
        proof {
            let es = resources.fbo_manager@.entries;
            assert(es =~= seq![("fbo_all"@, ResTest::ResData(0))]);
            assert(es.drop_last() =~= Seq::<(Seq<char>, ResTest)>::empty());
            assert("fbo_all"@.len() != "fbo_selected"@.len());
            assert(entry_index(es.drop_last(), "fbo_selected"@) is None);
            assert(entry_index(es, "fbo_selected"@) is None);
        }
        let fbo_selected = resources.fbo_manager.request_use_no_proc("fbo_selected");
        let camera_ortho = factory.create_object("camera");
        resources.shader_manager.request_use_no_proc("shader/outline.sh");
        let outline_mat = resources.material_manager.request_use_no_proc("material/outline.mat");
        proof {
            let es = resources.material_manager@.entries;
            assert(es =~= seq![("material/outline.mat"@, ResTest::ResData(0))]);
            assert(es.drop_last() =~= Seq::<(Seq<char>, ResTest)>::empty());
            assert("material/outline.mat"@[9] != "material/fbo_all.mat"@[9]);
            assert(entry_index(es.drop_last(), "material/fbo_all.mat"@) is None);
            assert(entry_index(es, "material/fbo_all.mat"@) is None);
        }
        let all_mat = resources.material_manager.request_use_no_proc("material/fbo_all.mat");
        let HelperMeshes { grid, repere, quad_outline, quad_all, line } = meshes;
        Render {
            passes: RenderPasses::new(),
            resources,
            camera,
            camera_ortho,
            fbo_all,
            fbo_selected,
            quad_outline: Helper {
                object: factory.create_object("quad_outline"),
                mesh_name: String::from_str("quad"),
                mesh: quad_outline,
                material: ResTT::new_with_res("material/outline.mat", ResTest::ResData(outline_mat)),
            },
            quad_all: Helper {
                object: factory.create_object("quad_all"),
                mesh_name: String::from_str("quad"),
                mesh: quad_all,
                material: ResTT::new_with_res("material/fbo_all.mat", ResTest::ResData(all_mat)),
            },
            grid: Helper {
                object: factory.create_object("grid"),
                mesh_name: String::from_str("grid"),
                mesh: grid,
                material: ResTT::new("material/line.mat"),
            },
            camera_repere: Helper {
                object: factory.create_object("camera_repere"),
                mesh_name: String::from_str("repere"),
                mesh: repere,
                material: ResTT::new("material/line.mat"),
            },
            line: Helper {
                object: factory.create_object("line"),
                mesh_name: String::from_str("line"),
                mesh: line,
                material: ResTT::new("material/line.mat"),
            },
        }
    }
}


/// Of the objects `ids`, those the shader `s` draws where `c` is the camera
/// `cam`; none for another camera.
pub open spec fn seen_by(
    ids: Seq<ObjectId>,
    shaders: Seq<(ObjectId, String)>,
    s: Seq<char>,
    c: ObjectId,
    cam: ObjectId,
) -> Seq<ObjectId> {
    if c == cam {
        drawn_with(ids, shaders, s)
    } else {
        seq![]
    }
}

impl<Me, Tx, Ma, Ar> Render<Me, Tx, Ma, Ar> {
    /// `after` is `self` with other passes.
    pub open spec fn same_but_passes(self, after: Self) -> bool {
        after == (Render { passes: after.passes, ..self })
    }

    /// The passes of the scene: the objects and the grid seen by the
    /// camera, then the axes seen by the orthographic camera.
    pub fn prepare_passes(&mut self, objects: &Vec<Object>, shaders: &Vec<(ObjectId, String)>)
        requires
            old(self).passes.wf(),
            keys_distinct(shaders@),
        ensures
            final(self).passes.wf(),
            old(self).same_but_passes(*final(self)),
            forall|s: Seq<char>, c: ObjectId| #[trigger]
                pass_objects(final(self).passes@, s, c) == seen_by(
                    children_first(objects@),
                    shaders@,
                    s,
                    c,
                    old(self).camera,
                ) + seen_by(children_first(seq![old(self).grid.object]), shaders@, s, c, old(self).camera)
                    + seen_by(
                    children_first(seq![old(self).camera_repere.object]),
                    shaders@,
                    s,
                    c,
                    old(self).camera_ortho.id,
                ),
            pass_names(final(self).passes@) == pass_names(old(self).passes@).union(
                shaders_used(children_first(objects@), shaders@),
            ).union(shaders_used(children_first(seq![old(self).grid.object]), shaders@)).union(
                shaders_used(children_first(seq![old(self).camera_repere.object]), shaders@),
            ),
    {
        let ghost p0 = self.passes@;
        self.passes.clear_objects();
        let ghost p1 = self.passes@;
        self.passes.prepare_passes_list(objects, shaders, self.camera);
        let ghost p2 = self.passes@;
        self.passes.prepare_passes_object(&self.grid.object, shaders, self.camera);
        let ghost p3 = self.passes@;
        self.passes.prepare_passes_object(&self.camera_repere.object, shaders, self.camera_ortho.id);
        proof {
            let a = children_first(objects@);
            let b = children_first(seq![self.grid.object]);
            let d = children_first(seq![self.camera_repere.object]);
            assert forall|s: Seq<char>, c: ObjectId| #[trigger]
                pass_objects(self.passes@, s, c) == seen_by(a, shaders@, s, c, self.camera) + seen_by(
                    b,
                    shaders@,
                    s,
                    c,
                    self.camera,
                ) + seen_by(d, shaders@, s, c, self.camera_ortho.id) by {
                assert(pass_objects(p1, s, c) == Seq::<ObjectId>::empty());
                assert(pass_objects(p2, s, c) == pass_objects(p1, s, c) + seen_by(a, shaders@, s, c, self.camera));
                assert(pass_objects(p3, s, c) == pass_objects(p2, s, c) + seen_by(b, shaders@, s, c, self.camera));
                assert(pass_objects(self.passes@, s, c) == pass_objects(p3, s, c) + seen_by(
                    d,
                    shaders@,
                    s,
                    c,
                    self.camera_ortho.id,
                ));
                assert(Seq::<ObjectId>::empty() + seen_by(a, shaders@, s, c, self.camera) =~= seen_by(
                    a,
                    shaders@,
                    s,
                    c,
                    self.camera,
                ));
            }
        }
    }

    /// The passes of the selected objects, seen by the camera.
    pub fn prepare_passes_selected(&mut self, objects: &Vec<Object>, shaders: &Vec<(ObjectId, String)>)
        requires
            old(self).passes.wf(),
            keys_distinct(shaders@),
        ensures
            final(self).passes.wf(),
            old(self).same_but_passes(*final(self)),
            forall|s: Seq<char>, c: ObjectId| #[trigger]
                pass_objects(final(self).passes@, s, c) == seen_by(
                    children_first(objects@),
                    shaders@,
                    s,
                    c,
                    old(self).camera,
                ),
            pass_names(final(self).passes@) == pass_names(old(self).passes@).union(
                shaders_used(children_first(objects@), shaders@),
            ),
    {
        let cam = self.camera;
        self.prepare_passes_objects(objects, shaders, cam);
    }

    /// The passes of `list`, seen by the orthographic camera.
    pub fn prepare_passes_objects_ortho(&mut self, list: &Vec<Object>, shaders: &Vec<(ObjectId, String)>)
        requires
            old(self).passes.wf(),
            keys_distinct(shaders@),
        ensures
            final(self).passes.wf(),
            old(self).same_but_passes(*final(self)),
            forall|s: Seq<char>, c: ObjectId| #[trigger]
                pass_objects(final(self).passes@, s, c) == seen_by(
                    children_first(list@),
                    shaders@,
                    s,
                    c,
                    old(self).camera_ortho.id,
                ),
            pass_names(final(self).passes@) == pass_names(old(self).passes@).union(
                shaders_used(children_first(list@), shaders@),
            ),
    {
        let cam = self.camera_ortho.id;
        self.prepare_passes_objects(list, shaders, cam);
    }

    /// The passes of `list`, seen by the (perspective) camera.
    pub fn prepare_passes_objects_per(&mut self, list: &Vec<Object>, shaders: &Vec<(ObjectId, String)>)
        requires
            old(self).passes.wf(),
            keys_distinct(shaders@),
        ensures
            final(self).passes.wf(),
            old(self).same_but_passes(*final(self)),
            forall|s: Seq<char>, c: ObjectId| #[trigger]
                pass_objects(final(self).passes@, s, c) == seen_by(
                    children_first(list@),
                    shaders@,
                    s,
                    c,
                    old(self).camera,
                ),
            pass_names(final(self).passes@) == pass_names(old(self).passes@).union(
                shaders_used(children_first(list@), shaders@),
            ),
    {
        let cam = self.camera;
        self.prepare_passes_objects(list, shaders, cam);
    }

    /// Empties the passes, then fills them with `list` seen by `cam`.
    fn prepare_passes_objects(&mut self, list: &Vec<Object>, shaders: &Vec<(ObjectId, String)>, cam: ObjectId)
        requires
            old(self).passes.wf(),
            keys_distinct(shaders@),
        ensures
            final(self).passes.wf(),
            old(self).same_but_passes(*final(self)),
            forall|s: Seq<char>, c: ObjectId| #[trigger]
                pass_objects(final(self).passes@, s, c) == seen_by(children_first(list@), shaders@, s, c, cam),
            pass_names(final(self).passes@) == pass_names(old(self).passes@).union(
                shaders_used(children_first(list@), shaders@),
            ),
    {
        self.passes.clear_objects();
        let ghost p1 = self.passes@;
        self.passes.prepare_passes_list(list, shaders, cam);
        proof {
            assert forall|s: Seq<char>, c: ObjectId| #[trigger]
                pass_objects(self.passes@, s, c) == seen_by(children_first(list@), shaders@, s, c, cam) by {
                assert(pass_objects(p1, s, c) == Seq::<ObjectId>::empty());
                assert(Seq::<ObjectId>::empty() + drawn_with(children_first(list@), shaders@, s)
                    =~= drawn_with(children_first(list@), shaders@, s));
            }
        }
    }
}


/// The steps of a frame: each fills the passes, which are then drawn into
/// the step's target.
#[derive(PartialEq, Eq, Structural, Clone, Copy, Debug)]
pub enum FrameStep {
    /// The selected objects, seen by the camera.
    Selected,
    /// The scene's objects and the grid, seen by the camera, and the axes,
    /// seen by the orthographic camera.
    Scene,
    /// The quad that shows the scene's frame buffer.
    QuadAll,
    /// The quad that draws the outline of the selection.
    Outline,
    /// The draggers and the lines round them, seen by the camera.
    Draggers,
}

/// Where a step of a frame draws.
#[derive(PartialEq, Eq, Structural, Clone, Copy, Debug)]
pub enum DrawTarget {
    /// Into the frame buffer with this id.
    Fbo(ResourceId),
    /// On the screen.
    Screen,
    /// On the screen, once it is cleared.
    ScreenCleared,
}

/// The steps of a frame with `selected` objects selected: the selection,
/// the scene and the quad that shows it; then, where something is selected,
/// its outline and the draggers.
pub fn frame_steps(selected: usize) -> (steps: Vec<FrameStep>)
    ensures
        steps@ == if selected > 0 {
            seq![
                FrameStep::Selected,
                FrameStep::Scene,
                FrameStep::QuadAll,
                FrameStep::Outline,
                FrameStep::Draggers,
            ]
        } else {
            seq![FrameStep::Selected, FrameStep::Scene, FrameStep::QuadAll]
        },
{
    let mut steps: Vec<FrameStep> = Vec::new();
    steps.push(FrameStep::Selected);
    steps.push(FrameStep::Scene);
    steps.push(FrameStep::QuadAll);
    if selected > 0 {
        steps.push(FrameStep::Outline);
        steps.push(FrameStep::Draggers);
    }
    steps
}

impl<Me, Tx, Ma, Ar> Render<Me, Tx, Ma, Ar> {
    /// The objects a step puts in the pass of shader `s` for camera `c`.
    pub open spec fn step_objects(
        self,
        step: FrameStep,
        objects: Seq<Object>,
        selected: Seq<Object>,
        draggers: Seq<Object>,
        shaders: Seq<(ObjectId, String)>,
        s: Seq<char>,
        c: ObjectId,
    ) -> Seq<ObjectId> {
        match step {
            FrameStep::Selected => seen_by(children_first(selected), shaders, s, c, self.camera),
            FrameStep::Scene => seen_by(children_first(objects), shaders, s, c, self.camera) + seen_by(
                children_first(seq![self.grid.object]),
                shaders,
                s,
                c,
                self.camera,
            ) + seen_by(
                children_first(seq![self.camera_repere.object]),
                shaders,
                s,
                c,
                self.camera_ortho.id,
            ),
            FrameStep::QuadAll => seen_by(
                children_first(seq![self.quad_all.object]),
                shaders,
                s,
                c,
                self.camera_ortho.id,
            ),
            FrameStep::Outline => seen_by(
                children_first(seq![self.quad_outline.object]),
                shaders,
                s,
                c,
                self.camera_ortho.id,
            ),
            FrameStep::Draggers => seen_by(children_first(draggers), shaders, s, c, self.camera)
                + seen_by(children_first(seq![self.line.object]), shaders, s, c, self.camera),
        }
    }

    /// The shaders that draw some object of a step.
    pub open spec fn step_shaders(
        self,
        step: FrameStep,
        objects: Seq<Object>,
        selected: Seq<Object>,
        draggers: Seq<Object>,
        shaders: Seq<(ObjectId, String)>,
    ) -> Set<Seq<char>> {
        match step {
            FrameStep::Selected => shaders_used(children_first(selected), shaders),
            FrameStep::Scene => shaders_used(children_first(objects), shaders).union(
                shaders_used(children_first(seq![self.grid.object]), shaders),
            ).union(shaders_used(children_first(seq![self.camera_repere.object]), shaders)),
            FrameStep::QuadAll => shaders_used(children_first(seq![self.quad_all.object]), shaders),
            FrameStep::Outline => shaders_used(children_first(seq![self.quad_outline.object]), shaders),
            FrameStep::Draggers => shaders_used(children_first(draggers), shaders).union(
                shaders_used(children_first(seq![self.line.object]), shaders),
            ),
        }
    }

    /// Where a step draws: the selection and the scene into their frame
    /// buffers, the quads on the screen, the draggers on the screen once
    /// cleared.
    pub fn step_target(&self, step: FrameStep) -> (t: DrawTarget)
        ensures
            t == match step {
                FrameStep::Selected => DrawTarget::Fbo(self.fbo_selected),
                FrameStep::Scene => DrawTarget::Fbo(self.fbo_all),
                FrameStep::QuadAll | FrameStep::Outline => DrawTarget::Screen,
                FrameStep::Draggers => DrawTarget::ScreenCleared,
            },
    {
        match step {
            FrameStep::Selected => DrawTarget::Fbo(self.fbo_selected),
            FrameStep::Scene => DrawTarget::Fbo(self.fbo_all),
            FrameStep::QuadAll | FrameStep::Outline => DrawTarget::Screen,
            FrameStep::Draggers => DrawTarget::ScreenCleared,
        }
    }

    /// Fills the passes for a step of the frame; `shaders` gives the shader
    /// of each object that is drawn.
    pub fn prepare_step(
        &mut self,
        step: FrameStep,
        objects: &Vec<Object>,
        selected: &Vec<Object>,
        draggers: &Vec<Object>,
        shaders: &Vec<(ObjectId, String)>,
    )
        requires
            old(self).passes.wf(),
            keys_distinct(shaders@),
        ensures
            final(self).passes.wf(),
            old(self).same_but_passes(*final(self)),
            forall|s: Seq<char>, c: ObjectId| #[trigger]
                pass_objects(final(self).passes@, s, c) == old(self).step_objects(
                    step,
                    objects@,
                    selected@,
                    draggers@,
                    shaders@,
                    s,
                    c,
                ),
            pass_names(final(self).passes@) == pass_names(old(self).passes@).union(
                old(self).step_shaders(step, objects@, selected@, draggers@, shaders@),
            ),
    {
        match step {
            FrameStep::Selected => self.prepare_passes_selected(selected, shaders),
            FrameStep::Scene => self.prepare_passes(objects, shaders),
            FrameStep::QuadAll => {
                self.passes.clear_objects();
                let ghost p1 = self.passes@;
                self.passes.prepare_passes_object(&self.quad_all.object, shaders, self.camera_ortho.id);
                proof {
                    let a = children_first(seq![self.quad_all.object]);
                    assert forall|s: Seq<char>, c: ObjectId| #[trigger]
                        pass_objects(self.passes@, s, c) == seen_by(a, shaders@, s, c, self.camera_ortho.id) by {
                        assert(pass_objects(p1, s, c) == Seq::<ObjectId>::empty());
                        assert(Seq::<ObjectId>::empty() + drawn_with(a, shaders@, s) =~= drawn_with(a, shaders@, s));
                    }
                }
            },
            FrameStep::Outline => {
                self.passes.clear_objects();
                let ghost p1 = self.passes@;
                self.passes.prepare_passes_object(&self.quad_outline.object, shaders, self.camera_ortho.id);
                proof {
                    let a = children_first(seq![self.quad_outline.object]);
                    assert forall|s: Seq<char>, c: ObjectId| #[trigger]
                        pass_objects(self.passes@, s, c) == seen_by(a, shaders@, s, c, self.camera_ortho.id) by {
                        assert(pass_objects(p1, s, c) == Seq::<ObjectId>::empty());
                        assert(Seq::<ObjectId>::empty() + drawn_with(a, shaders@, s) =~= drawn_with(a, shaders@, s));
                    }
                }
            },
            FrameStep::Draggers => {
                self.prepare_passes_objects_per(draggers, shaders);
                let ghost p1 = self.passes@;
                self.passes.prepare_passes_object(&self.line.object, shaders, self.camera);
                proof {
                    let a = children_first(draggers@);
                    let b = children_first(seq![self.line.object]);
                    assert forall|s: Seq<char>, c: ObjectId| #[trigger]
                        pass_objects(self.passes@, s, c) == seen_by(a, shaders@, s, c, self.camera) + seen_by(
                            b,
                            shaders@,
                            s,
                            c,
                            self.camera,
                        ) by {
                        assert(pass_objects(p1, s, c) == seen_by(a, shaders@, s, c, self.camera));
                    }
                }
            },
        }
    }
}


// ---------------------------------------------------------------------------
// Finding the shader of each object through its material
// ---------------------------------------------------------------------------

/// The objects of `list` and all their descendants, each after its children,
/// in order, each with its mesh renderer.
pub open spec fn children_first_renders(list: Seq<Object>) -> Seq<(ObjectId, Option<MeshRenderer>)>
    decreases list,
{
    if list.len() == 0 {
        seq![]
    } else {
        let last = list.last();
        proof {
            assert(decreases_to!(list => list[list.len() - 1]));
        }
        children_first_renders(list.drop_last()) + children_first_renders(last.children@) + seq![
            (last.id, last.mesh_render),
        ]
    }
}

proof fn lemma_renders_take(list: Seq<Object>, i: int)
    requires
        0 <= i < list.len(),
    ensures
        children_first_renders(list.take(i + 1)) == children_first_renders(list.take(i))
            + children_first_renders(list[i].children@) + seq![(list[i].id, list[i].mesh_render)],
{
    let t = list.take(i + 1);
    assert(t.drop_last() =~= list.take(i));
    assert(t.last() == list[i]);
}

/// Appends to `out` the objects of `list` and their descendants, each after
/// its children, with their mesh renderers.
fn push_renders(out: &mut Vec<(ObjectId, Option<MeshRenderer>)>, list: &Vec<Object>)
    ensures
        final(out)@ == old(out)@ + children_first_renders(list@),
    decreases list,
{
    let mut i: usize = 0;
    assert(list@.take(0) =~= Seq::<Object>::empty());
    assert(old(out)@ + Seq::<(ObjectId, Option<MeshRenderer>)>::empty() =~= old(out)@);
    while i < list.len()
        invariant
            i <= list@.len(),
            out@ == old(out)@ + children_first_renders(list@.take(i as int)),
        decreases list.len() - i,
    {
        let o = &list[i];
        proof {
            assert(decreases_to!(*list => list@));
            assert(decreases_to!(list@ => list@[i as int]));
            assert(decreases_to!(list@[i as int] => list@[i as int].children));
            lemma_renders_take(list@, i as int);
        }
        let ghost mid = out@;
        push_renders(out, &o.children);
        out.push((o.id, o.mesh_render));
        proof {
            let a = children_first_renders(list@.take(i as int));
            let b = children_first_renders(o.children@);
            let c = seq![(o.id, o.mesh_render)];
            assert(out@ =~= old(out)@ + (a + b + c));
        }
        i = i + 1;
    }
    assert(list@.take(list@.len() as int) =~= list@);
}

/// The objects of `list` and all their descendants, each after its
/// children, in order (the order their passes are filled in), each with its
/// mesh renderer.
pub fn renders_children_first(list: &Vec<Object>) -> (r: Vec<(ObjectId, Option<MeshRenderer>)>)
    ensures
        r@ == children_first_renders(list@),
{
    let mut r: Vec<(ObjectId, Option<MeshRenderer>)> = Vec::new();
    push_renders(&mut r, list);
    assert(r@ =~= children_first_renders(list@));
    r
}

/// Each renderer draws with a material that `mats` holds.
pub open spec fn renders_ok<U>(rs: Seq<(ObjectId, Option<MeshRenderer>)>, mats: ManagerView<Material<U>>) -> bool {
    forall|k: int|
        0 <= k < rs.len() ==> ((#[trigger] rs[k]).1 matches Some(r) ==> r.material < mats.store.len())
}

/// Each shader reference of a material of `mats` that is bound is bound to
/// a shader that `shs` holds.
pub open spec fn refs_ok<U>(mats: ManagerView<Material<U>>, shs: ManagerView<Shader>) -> bool {
    forall|i: int|
        0 <= i < mats.store.len() ==> ((#[trigger] mats.store[i]).shader matches Some(r) ==> (
        r.resource matches ResTest::ResData(d) ==> d < shs.store.len()))
}

/// What finding the shader of an object that draws with `mr` does, as the
/// drawing of a frame finds it: the name of the shader of the renderer's
/// material where that shader is loaded (its reference bound to it, or its
/// name bound to it in the shader manager); the material's reference to its
/// shader, where not bound to a loaded shader, asks the shader manager for
/// it (see `asked`) and is bound to the answer.
pub open spec fn resolve_step<U>(
    mr: Option<MeshRenderer>,
    mats: ManagerView<Material<U>>,
    shs: ManagerView<Shader>,
) -> (Option<Seq<char>>, ManagerView<Material<U>>, ManagerView<Shader>) {
    match mr {
        None => (None, mats, shs),
        Some(r) => {
            let m = mats.store[r.material as int];
            match m.shader {
                None => (None, mats, shs),
                Some(sref) => match sref.resource {
                    ResTest::ResData(d) => (Some(shs.store[d as int]@.name), mats, shs),
                    _ => {
                        let st = shs.state(sref.name@).ask_result();
                        let m2 = Material { shader: Some(ResTT { name: sref.name, resource: st }), ..m };
                        let mats2 = ManagerView { store: mats.store.update(r.material as int, m2), ..mats };
                        let shs2 = if shs.state(sref.name@) == ResTest::ResNone {
                            ManagerView {
                                entries: entries_set(shs.entries, sref.name@, ResTest::ResWait),
                                pending: shs.pending.push(sref.name@),
                                ..shs
                            }
                        } else {
                            shs
                        };
                        let found = match st {
                            ResTest::ResData(d) => Some(shs.store[d as int]@.name),
                            _ => None,
                        };
                        (found, mats2, shs2)
                    },
                },
            }
        },
    }
}

/// Finding the shaders of the objects of `rs` in turn: the name each one is
/// drawn with, if any, and the two managers after.
pub open spec fn resolve_all<U>(
    rs: Seq<(ObjectId, Option<MeshRenderer>)>,
    mats: ManagerView<Material<U>>,
    shs: ManagerView<Shader>,
) -> (Seq<(ObjectId, Option<Seq<char>>)>, ManagerView<Material<U>>, ManagerView<Shader>)
    decreases rs.len(),
{
    if rs.len() == 0 {
        (seq![], mats, shs)
    } else {
        let prev = resolve_all(rs.drop_last(), mats, shs);
        let step = resolve_step(rs.last().1, prev.1, prev.2);
        (prev.0.push((rs.last().0, step.0)), step.1, step.2)
    }
}

/// The names, by view.
pub open spec fn resolved_view(r: Seq<(ObjectId, Option<String>)>) -> Seq<(ObjectId, Option<Seq<char>>)> {
    r.map_values(
        |e: (ObjectId, Option<String>)|
            (
                e.0,
                match e.1 {
                    Some(s) => Some(s@),
                    None => None,
                },
            ),
    )
}

proof fn lemma_state_loaded<T>(m: ManagerView<T>, name: Seq<char>)
    requires
        m.wf(),
    ensures
        m.state(name) matches ResTest::ResData(d) ==> d < m.store.len(),
{
    lemma_entry_index(m.entries, name);
    if let Some(i) = entry_index(m.entries, name) {
        assert(m.entries[i].1 matches ResTest::ResData(d) ==> d < m.store.len());
    }
}

/// Finds the shader of an object that draws with `mr` (see `resolve_step`).
fn resolve_one<U>(
    mr: Option<MeshRenderer>,
    materials: &mut ResourceManager<Material<U>>,
    shaders: &mut ResourceManager<Shader>,
) -> (found: Option<String>)
    requires
        old(shaders)@.wf(),
        mr matches Some(r) ==> r.material < old(materials)@.store.len(),
        refs_ok(old(materials)@, old(shaders)@),
    ensures
        ({
            let step = resolve_step(mr, old(materials)@, old(shaders)@);
            &&& (match found {
                Some(s) => Some(s@),
                None => None,
            }) == step.0
            &&& final(materials)@ == step.1
            &&& final(shaders)@ == step.2
        }),
        final(shaders)@.wf(),
        refs_ok(final(materials)@, final(shaders)@),
        final(materials)@.store.len() == old(materials)@.store.len(),
{
    let r = match mr {
        Some(r) => r,
        None => return None,
    };
    let ghost before = materials@;
    let m = materials.replace(r.material, Material::new(""));
    assert(m == before.store[r.material as int]);
    let Material { name, shader, state, textures, uniforms } = m;
    match shader {
        None => {
            materials.replace(r.material, Material { name, shader: None, state, textures, uniforms });
            assert(materials@.store =~= before.store);
            None
        },
        Some(sref) => {
            let mut sref = sref;
            let ghost old_ref = sref;
            let ghost shs0 = shaders@;
            proof {
                lemma_state_loaded(shs0, sref.name@);
            }
            let got = sref.get_resource(shaders);
            materials.replace(
                r.material,
                Material { name, shader: Some(sref), state, textures, uniforms },
            );
            proof {
                if old_ref.resource is ResData {
                    assert(materials@.store =~= before.store);
                } else {
                    assert(materials@.store =~= before.store.update(
                        r.material as int,
                        Material {
                            shader: Some(ResTT { name: old_ref.name, resource: shs0.state(old_ref.name@).ask_result() }),
                            ..before.store[r.material as int]
                        },
                    ));
                }
                lemma_state_loaded(shaders@, sref.name@);
                assert forall|i: int| 0 <= i < materials@.store.len() implies ((
                #[trigger] materials@.store[i]).shader matches Some(q) ==> (q.resource matches ResTest::ResData(
                    d,
                ) ==> d < shaders@.store.len())) by {
                    if i != r.material {
                        assert(materials@.store[i] == before.store[i]);
                    }
                }
            }
            match got {
                Some(d) => Some(shaders.get(d).name().clone()),
                None => None,
            }
        },
    }
}

/// Finds, in turn, the shader each object of `renders` is drawn with,
/// through its mesh renderer's material and the shader manager, asking for
/// the shaders not loaded yet (see `resolve_all`).
pub fn resolve_shaders<U>(
    renders: &Vec<(ObjectId, Option<MeshRenderer>)>,
    materials: &mut ResourceManager<Material<U>>,
    shaders: &mut ResourceManager<Shader>,
) -> (found: Vec<(ObjectId, Option<String>)>)
    requires
        old(shaders)@.wf(),
        renders_ok(renders@, old(materials)@),
        refs_ok(old(materials)@, old(shaders)@),
    ensures
        resolved_view(found@) == resolve_all(renders@, old(materials)@, old(shaders)@).0,
        final(materials)@ == resolve_all(renders@, old(materials)@, old(shaders)@).1,
        final(shaders)@ == resolve_all(renders@, old(materials)@, old(shaders)@).2,
        final(shaders)@.wf(),
{
    let mut found: Vec<(ObjectId, Option<String>)> = Vec::new();
    let mut i: usize = 0;
    assert(resolved_view(found@) =~= Seq::<(ObjectId, Option<Seq<char>>)>::empty());
    while i < renders.len()
        invariant
            i <= renders@.len(),
            shaders@.wf(),
            renders_ok(renders@, old(materials)@),
            materials@.store.len() == old(materials)@.store.len(),
            refs_ok(materials@, shaders@),
            resolved_view(found@) == resolve_all(renders@.take(i as int), old(materials)@, old(shaders)@).0,
            materials@ == resolve_all(renders@.take(i as int), old(materials)@, old(shaders)@).1,
            shaders@ == resolve_all(renders@.take(i as int), old(materials)@, old(shaders)@).2,
        decreases renders.len() - i,
    {
        proof {
            let t = renders@.take(i + 1);
            assert(t.drop_last() =~= renders@.take(i as int));
            assert(t.last() == renders@[i as int]);
            assert(renders@[i as int].1 matches Some(r) ==> r.material < old(materials)@.store.len());
        }
        let ghost before = found@;
        let x = resolve_one(renders[i].1, materials, shaders);
        found.push((renders[i].0, x));
        proof {
            assert(resolved_view(found@) =~= resolved_view(before).push(
                (
                    renders@[i as int].0,
                    match x {
                        Some(s) => Some(s@),
                        None => None,
                    },
                ),
            ));
        }
        i = i + 1;
    }
    assert(renders@.take(renders@.len() as int) =~= renders@);
    found
}


/// The shader found for the first object of `rs` with id `id` that has one.
pub open spec fn found_for(rs: Seq<(ObjectId, Option<Seq<char>>)>, id: ObjectId) -> Option<Seq<char>>
    decreases rs.len(),
{
    if rs.len() == 0 {
        None
    } else {
        match found_for(rs.drop_last(), id) {
            Some(x) => Some(x),
            None => if rs.last().0 == id {
                rs.last().1
            } else {
                None
            },
        }
    }
}

/// The shader of each object, by id, from the shaders found for the
/// objects (see `resolve_shaders`): for an id met more than once, the first
/// shader found for it.
pub fn shader_map(found: &Vec<(ObjectId, Option<String>)>) -> (map: Vec<(ObjectId, String)>)
    ensures
        keys_distinct(map@),
        forall|id: ObjectId| #[trigger] shader_of(map@, id) == found_for(resolved_view(found@), id),
{
    let mut map: Vec<(ObjectId, String)> = Vec::new();
    let mut i: usize = 0;
    while i < found.len()
        invariant
            i <= found@.len(),
            keys_distinct(map@),
            forall|id: ObjectId| #[trigger] shader_of(map@, id) == found_for(
                resolved_view(found@).take(i as int),
                id,
            ),
        decreases found.len() - i,
    {
        let ghost rv = resolved_view(found@);
        let ghost before = map@;
        proof {
            let t = rv.take(i + 1);
            assert(t.drop_last() =~= rv.take(i as int));
            assert(t.last() == rv[i as int]);
        }
        let id = found[i].0;
        match &found[i].1 {
            Some(name) => {
                match find_key(&map, id) {
                    Some(_) => {
                        proof {
                            assert(shader_of(before, id) is Some);
                            assert forall|x: ObjectId| #[trigger] shader_of(map@, x) == found_for(
                                rv.take(i + 1),
                                x,
                            ) by {
                                assert(shader_of(map@, x) == found_for(rv.take(i as int), x));
                            }
                        }
                    },
                    None => {
                        map.push((id, name.clone()));
                        proof {
                            lemma_key_index(before, id);
                            assert forall|a: int, b: int| 0 <= a < b < map@.len() implies #[trigger] map@[a].0
                                != #[trigger] map@[b].0 by {
                                if b == before.len() {
                                    assert(map@[a] == before[a]);
                                } else {
                                    assert(map@[a] == before[a] && map@[b] == before[b]);
                                }
                            }
                            assert(map@.drop_last() =~= before);
                            assert forall|x: ObjectId| #[trigger] shader_of(map@, x) == found_for(
                                rv.take(i + 1),
                                x,
                            ) by {
                                assert(shader_of(before, x) == found_for(rv.take(i as int), x));
                                assert(rv[i as int] == (id, Some(name@)));
                                let t = rv.take(i + 1);
                                assert(t.drop_last() =~= rv.take(i as int));
                                assert(t.last() == rv[i as int]);
                                if x == id {
                                    assert(key_index(map@, x) == Some(before.len() as int));
                                    assert(map@[before.len() as int].1@ == name@);
                                } else {
                                    assert(key_index(map@, x) == key_index(before, x));
                                    lemma_key_index(before, x);
                                    if let Some(k) = key_index(before, x) {
                                        assert(map@[k] == before[k]);
                                    }
                                }
                            }
                        }
                    },
                }
            },
            None => {
                proof {
                    assert forall|x: ObjectId| #[trigger] shader_of(map@, x) == found_for(
                        rv.take(i + 1),
                        x,
                    ) by {
                        assert(shader_of(map@, x) == found_for(rv.take(i as int), x));
                    }
                }
            },
        }
        i = i + 1;
    }
    assert(resolved_view(found@).take(found@.len() as int) =~= resolved_view(found@));
    map
}

} // verus!
