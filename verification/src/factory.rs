use vstd::prelude::*;
use vstd::string::*;

use crate::resource::ResourceManager;
use crate::camera::Camera;
use crate::scene::{Object, ObjectId, Scene};
use crate::util::strings_view;

verus! {

/// An id has the form of a random (version 4, RFC 4122 variant) UUID: the
/// version nibble is 4 and the two variant bits are 10.
pub open spec fn is_v4_id(id: ObjectId) -> bool {
    (id >> 76u128) & 0xfu128 == 4 && (id >> 62u128) & 3u128 == 2
}

/// A fresh random id: the 128 bits of `uuid::Uuid::new_v4()`, read as a
/// big-endian number (`Uuid::as_u128`). The crate draws 128 bits from the
/// system's generator, then sets the version and variant bits; nothing else
/// is known of the value. The crate panics where the system's generator
/// fails, which nothing passed here can rule out.
#[verifier::external_body]
pub(crate) fn new_v4_id() -> (id: ObjectId)
    ensures
        is_v4_id(id),
{
    uuid::Uuid::new_v4().as_u128()
}

/// No random id is the nil id.
pub proof fn law_v4_id_not_nil(id: ObjectId)
    requires
        is_v4_id(id),
    ensures
        id != 0,
{
    assert((0u128 >> 76u128) & 0xfu128 == 0) by (bit_vector);
}

/// Makes the objects, cameras and scenes of the editor.
pub struct Factory<M> {
    pub id: u32,
    pub mesh_manager: ResourceManager<M>,
}

/// `c` is a copy of `o`: same name, parent and components, children copied
/// one by one; the scripts of the copy are the component names of `o`.
pub open spec fn copied(o: Object, c: Object) -> bool
    decreases o,
{
    &&& c.name@ == o.name@
    &&& is_v4_id(c.id)
    &&& c.parent == o.parent
    &&& c.mesh_render == o.mesh_render
    &&& strings_view(c.comp_string@) == strings_view(o.comp_string@)
    &&& strings_view(c.comp_lua@) == strings_view(o.comp_string@)
    &&& c.children@.len() == o.children@.len()
    &&& forall|i: int|
        #![trigger o.children@[i]]
        0 <= i < o.children@.len() ==> {
            proof {
                assert(decreases_to!(o => o.children));
            }
            copied(o.children@[i], c.children@[i])
        }
}

pub(crate) fn clone_strings(v: &Vec<String>) -> (r: Vec<String>)
    ensures
        strings_view(r@) == strings_view(v@),
{
    let mut r: Vec<String> = Vec::new();
    let mut i: usize = 0;
    while i < v.len()
        invariant
            i <= v@.len(),
            strings_view(r@) == strings_view(v@).take(i as int),
        decreases v.len() - i,
    {
        let ghost before = r@;
        r.push(v[i].clone());
        assert(strings_view(r@) =~= strings_view(before).push(v@[i as int]@));
        i = i + 1;
        assert(strings_view(r@) =~= strings_view(v@).take(i as int));
    }
    assert(strings_view(v@).take(v@.len() as int) =~= strings_view(v@));
    r
}

impl<M> Factory<M> {
    /// A factory with an empty mesh manager.
    pub fn new() -> (f: Factory<M>)
        ensures
            f.mesh_manager@.entries.len() == 0,
            f.mesh_manager@.store.len() == 0,
            f.mesh_manager@.pending.len() == 0,
            f.mesh_manager@.wf(),
    {
        Factory { id: 0, mesh_manager: ResourceManager::new() }
    }

    fn create_id(&self) -> (id: ObjectId)
        ensures
            is_v4_id(id),
    {
        new_v4_id()
    }

    /// A new object named `name` with a fresh id, without children or
    /// components.
    pub fn create_object(&self, name: &str) -> (o: Object)
        ensures
            o.name@ == name@,
            is_v4_id(o.id),
            o.children@.len() == 0,
            o.parent is None,
            o.mesh_render is None,
            o.comp_string@.len() == 0,
            o.comp_lua@.len() == 0,
    {
        Object {
            name: String::from_str(name),
            id: self.create_id(),
            mesh_render: None,
            children: Vec::new(),
            parent: None,
            comp_string: Vec::new(),
            comp_lua: Vec::new(),
        }
    }

    /// A new camera: its own object named "camera" and its own id, both
    /// fresh, and no object it belongs to.
    pub fn create_camera(&self) -> (c: Camera)
        ensures
            c.object.name@ == "camera"@,
            is_v4_id(c.object.id),
            c.object.mesh_render is None,
            c.object.children@.len() == 0,
            c.object.parent is None,
            c.object.comp_string@.len() == 0,
            c.object.comp_lua@.len() == 0,
            is_v4_id(c.id),
            c.object_id is None,
    {
        Camera { object: self.create_object("camera"), id: self.create_id(), object_id: None }
    }

    /// A new scene named `name` with a fresh id, no objects, and a new
    /// camera (see `create_camera`).
    pub fn create_scene(&self, name: &str) -> (s: Scene)
        ensures
            s.name@ == name@,
            is_v4_id(s.id),
            s.objects@.len() == 0,
            s.camera matches Some(c) && {
                &&& c.object.name@ == "camera"@
                &&& is_v4_id(c.object.id)
                &&& c.object.mesh_render is None
                &&& c.object.children@.len() == 0
                &&& c.object.parent is None
                &&& c.object.comp_string@.len() == 0
                &&& c.object.comp_lua@.len() == 0
                &&& is_v4_id(c.id)
                &&& c.object_id is None
            },
    {
        let name = String::from_str(name);
        let id = self.create_id();
        Scene { name, id, objects: Vec::new(), camera: Some(self.create_camera()) }
    }

    /// A copy of `o` and of its children, each with a fresh id (see `copied`).
    pub fn copy_object(&self, o: &Object) -> (c: Object)
        ensures
            copied(*o, c),
        decreases o,
    {
        let mut children_copy: Vec<Object> = Vec::new();
        let mut i: usize = 0;
        while i < o.children.len()
            invariant
                i <= o.children@.len(),
                children_copy@.len() == i,
                forall|k: int|
                    #![trigger o.children@[k]]
                    0 <= k < i ==> copied(o.children@[k], children_copy@[k]),
            decreases o.children.len() - i,
        {
            proof {
                assert(decreases_to!(o => o.children));
            }
            let c = self.copy_object(&o.children[i]);
            children_copy.push(c);
            i = i + 1;
        }
        Object {
            name: o.name.clone(),
            id: self.create_id(),
            mesh_render: o.mesh_render,
            children: children_copy,
            parent: o.parent,
            comp_string: clone_strings(&o.comp_string),
            comp_lua: clone_strings(&o.comp_string),
        }
    }
}

} // verus!
