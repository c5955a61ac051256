use dormin::component::mesh_render::{MeshRender as MeshRenderData, MeshRenderer};
use dormin::mesh_render::MeshRender;
use dormin::resource::{Create, ResTT, ResTest, ResourceGroup};

#[derive(Clone)]
struct Item(String);

impl Create for Item {
    fn made_for(&self) -> String {
        self.0.clone()
    }

    fn create(name: &str) -> Item {
        Item(name.to_string())
    }

    fn inittt(&mut self) {}
}

type Group = ResourceGroup<Item, Item, Item, Item>;

#[test]
fn mesh_render_references_by_name() {
    let r = MeshRender::new("model/cube.mesh", "material/simple.mat");
    assert_eq!(r.mesh.name, "model/cube.mesh");
    assert_eq!(r.mesh.resource, ResTest::ResNone);
    assert_eq!(r.material.name, "material/simple.mat");
    let m = ResTT::new_with_res("model/a.mesh", ResTest::ResData(4));
    let r = MeshRender::new_with_mesh(m, "material/line.mat");
    assert_eq!(r.mesh.resource, ResTest::ResData(4));
    assert_eq!(r.material.name, "material/line.mat");
    assert_eq!(r.material.resource, ResTest::ResNone);
    let r = MeshRender::new_with_mat("model/b.mesh", ResTT::new_with_res("mat", ResTest::ResWait));
    assert_eq!(r.mesh.name, "model/b.mesh");
    assert_eq!(r.material.resource, ResTest::ResWait);
    let r = MeshRender::new_with_mesh_and_mat(ResTT::new("x"), ResTT::new("y"));
    assert_eq!(r.mesh.name, "x");
    assert_eq!(r.material.name, "y");
}

#[test]
fn renderer_loads_its_mesh_and_material() {
    let mut g: Group = ResourceGroup::new();
    let data = MeshRenderData::new("model/cube.mesh", "material/simple.mat");
    assert_eq!(data.mesh, "model/cube.mesh");
    assert_eq!(data.material, "material/simple.mat");
    let r = MeshRenderer::new(&data, &mut g);
    assert_eq!(g.mesh_manager.get(r.mesh).0, "model/cube.mesh");
    assert_eq!(g.material_manager.get(r.material).0, "material/simple.mat");
    // a second renderer of the same data shares the loaded resources
    let r2 = MeshRenderer::new(&data, &mut g);
    assert_eq!(r2.mesh, r.mesh);
    assert_eq!(r2.material, r.material);
    assert_eq!(g.mesh_manager.count(), 1);
    assert_eq!(g.shader_manager.count(), 0);
}

#[test]
fn renderer_with_given_mesh_or_material() {
    let mut g: Group = ResourceGroup::new();
    let r = MeshRenderer::new_with_mesh(7, "material/a.mat", &mut g);
    assert_eq!(r.mesh, 7);
    assert_eq!(g.material_manager.count(), 1);
    assert_eq!(g.mesh_manager.count(), 0);
    let r = MeshRenderer::new_with_mat("model/a.mesh", 9, &mut g);
    assert_eq!(r.material, 9);
    assert_eq!(g.mesh_manager.get(r.mesh).0, "model/a.mesh");
    let r = MeshRenderer::new_with_mesh_and_mat(1, 2);
    assert_eq!((r.mesh, r.material), (1, 2));
}
