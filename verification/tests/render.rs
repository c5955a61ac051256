use dormin::factory::Factory;
use dormin::mesh::{Buffer, BufferType, DrawType, Mesh, MeshFile};
use dormin::component::mesh_render::MeshRenderer;
use dormin::material::Material;
use dormin::render_pass::RenderPasses;
use dormin::render::{renders_children_first, resolve_shaders, shader_map,
    draw_call, frame_steps, texture_units, DrawCall, DrawTarget, FrameStep, HelperMeshes, Render,
};
use dormin::resource::{ResTT, ResTest, ResourceManager};
use dormin::scene::Object;
use dormin::shader::Shader;

fn shader_with(names: &[&str]) -> Shader {
    let mut s = Shader::new("shader/simple.sh");
    let mut h = 0usize;
    for n in names {
        s.attribute_add(n, h);
        h += 1;
    }
    s
}

fn file_mesh(vertices: usize, normals: usize, faces: usize) -> Mesh {
    let mut m = Mesh::new();
    m.file_loaded(MeshFile {
        kind: String::from("mesh"),
        name: String::from("m"),
        vertices: vec![0; vertices],
        faces: vec![0; faces],
        normals: vec![0; normals],
        uvs: vec![],
        weights: vec![],
    });
    m
}

fn line_mesh(buffers: &[(&str, usize)]) -> Mesh {
    let mut m = Mesh::new();
    for (name, n) in buffers {
        m.buffers_f32.push((
            String::from(*name),
            Buffer::new(String::from(*name), vec![0u32; *n], BufferType::Vertex),
        ));
    }
    m.draw_type = DrawType::Lines;
    m
}

#[test]
fn a_missing_buffer_draws_nothing() {
    let s = shader_with(&["position", "normal"]);
    let mut m = file_mesh(9, 0, 6);
    m.buffers_u32[0].1.cgl_buffer_set(4);
    assert_eq!(draw_call(&s, &m), DrawCall::Nothing);
}

#[test]
fn an_index_buffer_draws_faces_once_sent() {
    let s = shader_with(&["position", "normal"]);
    let mut m = file_mesh(9, 9, 6);
    assert_eq!(draw_call(&s, &m), DrawCall::Nothing);
    m.buffers_u32[0].1.cgl_buffer_set(4);
    assert_eq!(draw_call(&s, &m), DrawCall::Faces { buffer: 4, count: 6 });
}

#[test]
fn without_index_buffer_lines_take_a_third_of_the_positions() {
    let s = shader_with(&["position", "color"]);
    let mut m = line_mesh(&[("color", 12), ("position", 18)]);
    assert_eq!(draw_call(&s, &m), DrawCall::Lines(6));
    m.draw_type = DrawType::Vertices;
    assert_eq!(draw_call(&s, &m), DrawCall::Vertices(18));
    m.draw_type = DrawType::Faces;
    assert_eq!(draw_call(&s, &m), DrawCall::Vertices(18));
}

#[test]
fn without_position_attribute_nothing_is_counted() {
    let s = shader_with(&["color"]);
    let mut m = line_mesh(&[("color", 12), ("position", 18)]);
    m.draw_type = DrawType::Vertices;
    assert_eq!(draw_call(&s, &m), DrawCall::Vertices(0));
}

#[test]
fn an_index_buffer_can_serve_an_attribute() {
    let s = shader_with(&["position"]);
    let mut m = Mesh::new();
    m.buffers_u32.push((
        String::from("position"),
        Buffer::new(String::from("position"), vec![0u32; 9], BufferType::Vertex),
    ));
    m.draw_type = DrawType::Vertices;
    assert_eq!(draw_call(&s, &m), DrawCall::Vertices(9));
}

#[test]
fn found_textures_get_consecutive_units() {
    let samplers = vec![
        (String::from("texture"), true),
        (String::from("missing"), false),
        (String::from("fbo"), true),
    ];
    assert_eq!(
        texture_units(&samplers),
        vec![(String::from("texture"), 0), (String::from("fbo"), 1)]
    );
    assert!(texture_units(&vec![(String::from("x"), false)]).is_empty());
}

#[test]
fn outline_and_draggers_only_with_a_selection() {
    assert_eq!(
        frame_steps(0),
        vec![FrameStep::Selected, FrameStep::Scene, FrameStep::QuadAll]
    );
    assert_eq!(
        frame_steps(2),
        vec![
            FrameStep::Selected,
            FrameStep::Scene,
            FrameStep::QuadAll,
            FrameStep::Outline,
            FrameStep::Draggers
        ]
    );
}

fn new_render() -> Render<String, (), Shader, ()> {
    let factory: Factory<String> = Factory::new();
    let meshes = HelperMeshes {
        grid: String::from("grid mesh"),
        repere: String::from("repere mesh"),
        quad_outline: String::from("quad mesh 1"),
        quad_all: String::from("quad mesh 2"),
        line: String::from("line mesh"),
    };
    Render::new(&factory, 42, meshes)
}

#[test]
fn render_loads_its_frame_buffers_and_quad_materials() {
    let r = new_render();
    assert_eq!(r.camera, 42);
    assert_eq!(r.fbo_all, 0);
    assert_eq!(r.fbo_selected, 1);
    assert_eq!(r.resources.fbo_manager.state("fbo_all"), ResTest::ResData(0));
    assert_eq!(r.resources.fbo_manager.state("fbo_selected"), ResTest::ResData(1));
    assert_eq!(r.resources.shader_manager.state("shader/outline.sh"), ResTest::ResData(0));
    assert_eq!(r.resources.material_manager.state("material/outline.mat"), ResTest::ResData(0));
    assert_eq!(r.resources.material_manager.state("material/fbo_all.mat"), ResTest::ResData(1));
    assert_eq!(r.quad_outline.material.resource, ResTest::ResData(0));
    assert_eq!(r.quad_all.material.resource, ResTest::ResData(1));
    assert_eq!(r.grid.material.name, "material/line.mat");
    assert_eq!(r.grid.material.resource, ResTest::ResNone);
    assert_eq!(r.grid.object.name, "grid");
    assert_eq!(r.quad_all.mesh_name, "quad");
    assert_eq!(r.quad_all.mesh, "quad mesh 2");
    assert_eq!(r.camera_ortho.name, "camera");
    assert_ne!(r.camera_ortho.id, r.grid.object.id);
}

#[test]
fn steps_draw_into_their_targets() {
    let r = new_render();
    assert_eq!(r.step_target(FrameStep::Selected), DrawTarget::Fbo(1));
    assert_eq!(r.step_target(FrameStep::Scene), DrawTarget::Fbo(0));
    assert_eq!(r.step_target(FrameStep::QuadAll), DrawTarget::Screen);
    assert_eq!(r.step_target(FrameStep::Draggers), DrawTarget::ScreenCleared);
}

fn leaf(id: u128) -> Object {
    Object {
        name: String::from("o"),
        id,
        mesh_render: None,
        children: Vec::new(),
        parent: None,
        comp_string: Vec::new(),
        comp_lua: Vec::new(),
    }
}

#[test]
fn the_scene_step_adds_the_grid_and_the_axes() {
    let mut r = new_render();
    let grid = r.grid.object.id;
    let repere = r.camera_repere.object.id;
    let ortho = r.camera_ortho.id;
    let objects = vec![leaf(1), leaf(2)];
    let shaders = vec![
        (1, String::from("simple")),
        (grid, String::from("line")),
        (repere, String::from("line")),
    ];
    r.prepare_step(FrameStep::Scene, &objects, &vec![], &vec![], &shaders);
    assert_eq!(r.passes.objects("simple", 42), vec![1]);
    assert_eq!(r.passes.objects("line", 42), vec![grid]);
    assert_eq!(r.passes.objects("line", ortho), vec![repere]);
    r.prepare_step(FrameStep::Selected, &objects, &vec![leaf(2)], &vec![], &shaders);
    assert!(r.passes.objects("simple", 42).is_empty());
    assert!(r.passes.objects("line", 42).is_empty());
}

#[test]
fn the_dragger_step_adds_the_line_box_last() {
    let mut r = new_render();
    let line = r.line.object.id;
    let shaders = vec![(5, String::from("dragger")), (6, String::from("line")), (line, String::from("line"))];
    r.prepare_step(FrameStep::Draggers, &vec![], &vec![], &vec![leaf(5), leaf(6)], &shaders);
    assert_eq!(r.passes.objects("dragger", 42), vec![5]);
    assert_eq!(r.passes.objects("line", 42), vec![6, line]);
}

fn with_render(id: u128, material: usize, children: Vec<Object>) -> Object {
    let mut o = leaf(id);
    o.mesh_render = Some(MeshRenderer::new_with_mesh_and_mat(0, material));
    o.children = children;
    o
}

fn material_with_shader(name: &str, shader: &str) -> Material<u32> {
    let mut m: Material<u32> = Material::new(name);
    m.shader = Some(ResTT::new(shader));
    m
}

#[test]
fn shaders_are_found_through_the_materials() {
    let mut shaders: ResourceManager<Shader> = ResourceManager::new();
    shaders.request_use_no_proc("shader/simple.sh");
    let mut materials: ResourceManager<Material<u32>> = ResourceManager::new();
    materials.loaded("material/a.mat", material_with_shader("material/a.mat", "shader/simple.sh"));
    materials.loaded("material/b.mat", material_with_shader("material/b.mat", "shader/other.sh"));
    let objects = vec![with_render(1, 0, vec![with_render(2, 1, vec![])]), leaf(3)];

    let renders = renders_children_first(&objects);
    assert_eq!(renders.iter().map(|r| r.0).collect::<Vec<_>>(), vec![2, 1, 3]);
    let found = resolve_shaders(&renders, &mut materials, &mut shaders);
    assert_eq!(
        found,
        vec![(2, None), (1, Some(String::from("shader/simple.sh"))), (3, None)]
    );
    // the shader not loaded yet is asked for once, and its reference waits
    assert_eq!(shaders.take_pending(), vec![String::from("shader/other.sh")]);
    assert_eq!(materials.get(1).shader.as_ref().unwrap().resource, ResTest::ResWait);
    assert_eq!(materials.get(0).shader.as_ref().unwrap().resource, ResTest::ResData(0));

    let map = shader_map(&found);
    assert_eq!(map, vec![(1, String::from("shader/simple.sh"))]);
    let mut passes = RenderPasses::new();
    passes.prepare_passes_list(&objects, &map, 42);
    assert_eq!(passes.objects("shader/simple.sh", 42), vec![1]);
}
