use vstd::prelude::*;
use vstd::string::*;

use crate::resource::{Create, ResourceGroup, ResourceId, loaded_now};

verus! {

/// The data of a mesh render component as it is saved with an object: the
/// names of its mesh and of its material.
#[derive(Clone)]
pub struct MeshRender {
    pub mesh: String,
    pub material: String,
}

impl MeshRender {
    pub fn new(mesh: &str, material: &str) -> (r: MeshRender)
        ensures
            r.mesh@ == mesh@,
            r.material@ == material@,
    {
        MeshRender { mesh: String::from_str(mesh), material: String::from_str(material) }
    }
}

/// A mesh render component at work: the loaded mesh and material it draws.
#[derive(PartialEq, Eq, Structural, Clone, Copy, Debug)]
pub struct MeshRenderer {
    pub mesh: ResourceId,
    pub material: ResourceId,
}

impl MeshRenderer {
    /// The renderer of the component data `data`: its mesh and material,
    /// each loaded at once where its manager has not loaded it yet.
    pub fn new<Me: Create, Tx, Ma: Create, Ar>(
        data: &MeshRender,
        resource: &mut ResourceGroup<Me, Tx, Ma, Ar>,
    ) -> (r: MeshRenderer)
        requires
            old(resource).mesh_manager@.wf(),
            old(resource).material_manager@.wf(),
        ensures
            loaded_now(old(resource).mesh_manager@, final(resource).mesh_manager@, data.mesh@, r.mesh),
            loaded_now(
                old(resource).material_manager@,
                final(resource).material_manager@,
                data.material@,
                r.material,
            ),
            others_kept(*old(resource), *final(resource)),
    {
        let mesh = resource.mesh_manager.request_use_no_proc(data.mesh.as_str());
        let material = resource.material_manager.request_use_no_proc(data.material.as_str());
        MeshRenderer { mesh, material }
    }

    /// Draws the loaded mesh `mesh` with the material `material`, loaded at
    /// once where it is not loaded yet.
    pub fn new_with_mesh<Me, Tx, Ma: Create, Ar>(
        mesh: ResourceId,
        material: &str,
        resource: &mut ResourceGroup<Me, Tx, Ma, Ar>,
    ) -> (r: MeshRenderer)
        requires
            old(resource).material_manager@.wf(),
        ensures
            r.mesh == mesh,
            loaded_now(
                old(resource).material_manager@,
                final(resource).material_manager@,
                material@,
                r.material,
            ),
            final(resource).mesh_manager == old(resource).mesh_manager,
            others_kept(*old(resource), *final(resource)),
    {
        let material = resource.material_manager.request_use_no_proc(material);
        MeshRenderer { mesh, material }
    }

    /// Draws the mesh `mesh`, loaded at once where it is not loaded yet,
    /// with the loaded material `material`.
    pub fn new_with_mat<Me: Create, Tx, Ma, Ar>(
        mesh: &str,
        material: ResourceId,
        resource: &mut ResourceGroup<Me, Tx, Ma, Ar>,
    ) -> (r: MeshRenderer)
        requires
            old(resource).mesh_manager@.wf(),
        ensures
            r.material == material,
            loaded_now(old(resource).mesh_manager@, final(resource).mesh_manager@, mesh@, r.mesh),
            final(resource).material_manager == old(resource).material_manager,
            others_kept(*old(resource), *final(resource)),
    {
        let mesh = resource.mesh_manager.request_use_no_proc(mesh);
        MeshRenderer { mesh, material }
    }

    /// Draws the loaded mesh `mesh` with the loaded material `material`.
    pub fn new_with_mesh_and_mat(mesh: ResourceId, material: ResourceId) -> (r: MeshRenderer)
        ensures
            r.mesh == mesh,
            r.material == material,
    {
        MeshRenderer { mesh, material }
    }
}

/// The managers other than those of meshes and materials are unchanged.
pub open spec fn others_kept<Me, Tx, Ma, Ar>(
    before: ResourceGroup<Me, Tx, Ma, Ar>,
    after: ResourceGroup<Me, Tx, Ma, Ar>,
) -> bool {
    &&& after.shader_manager == before.shader_manager
    &&& after.texture_manager == before.texture_manager
    &&& after.fbo_manager == before.fbo_manager
    &&& after.armature_manager == before.armature_manager
}

} // verus!
