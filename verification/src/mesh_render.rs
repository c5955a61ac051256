use vstd::prelude::*;
use vstd::string::*;

use crate::resource::{ResTT, ResTest};

verus! {

/// What an object draws: a mesh, and the material it is drawn with, each a
/// reference to a resource by name.
pub struct MeshRender {
    pub mesh: ResTT,
    pub material: ResTT,
}

impl MeshRender {
    /// Draws the mesh `mesh` with the material `material`, neither loaded yet.
    pub fn new(mesh: &str, material: &str) -> (r: MeshRender)
        ensures
            r.mesh.name@ == mesh@,
            r.mesh.resource == ResTest::ResNone,
            r.material.name@ == material@,
            r.material.resource == ResTest::ResNone,
    {
        MeshRender { mesh: ResTT::new(mesh), material: ResTT::new(material) }
    }

    /// Draws the given mesh reference with the material `material`, not
    /// loaded yet.
    pub fn new_with_mesh(mesh: ResTT, material: &str) -> (r: MeshRender)
        ensures
            r.mesh == mesh,
            r.material.name@ == material@,
            r.material.resource == ResTest::ResNone,
    {
        MeshRender { mesh, material: ResTT::new(material) }
    }

    /// Draws the given mesh reference with the given material reference.
    pub fn new_with_mesh_and_mat(mesh: ResTT, material: ResTT) -> (r: MeshRender)
        ensures
            r.mesh == mesh,
            r.material == material,
    {
        MeshRender { mesh, material }
    }

    /// Draws the mesh `mesh`, not loaded yet, with the given material reference.
    pub fn new_with_mat(mesh: &str, material: ResTT) -> (r: MeshRender)
        ensures
            r.mesh.name@ == mesh@,
            r.mesh.resource == ResTest::ResNone,
            r.material == material,
    {
        MeshRender { mesh: ResTT::new(mesh), material }
    }
}

} // verus!
