use dormin::factory::Factory;
use dormin::scene::Object;

#[derive(Clone)]
struct NoMesh(String);

impl dormin::resource::Create for NoMesh {
    fn made_for(&self) -> String {
        self.0.clone()
    }

    fn create(name: &str) -> NoMesh {
        NoMesh(name.to_string())
    }

    fn inittt(&mut self) {}
}

fn is_v4(id: u128) -> bool {
    (id >> 76) & 0xf == 4 && (id >> 62) & 0x3 == 2
}

#[test]
fn create_object_gives_a_fresh_random_id() {
    let f: Factory<NoMesh> = Factory::new();
    let a = f.create_object("a");
    let b = f.create_object("b");
    assert_eq!(a.name, "a");
    assert!(a.children.is_empty());
    assert!(a.parent.is_none());
    assert!(is_v4(a.id));
    assert!(is_v4(b.id));
    assert_ne!(a.id, 0);
    assert_ne!(a.id, b.id);
}

#[test]
fn create_scene_is_empty_with_a_fresh_id() {
    let f: Factory<NoMesh> = Factory::new();
    let s = f.create_scene("level");
    assert_eq!(s.name, "level");
    assert!(s.objects.is_empty());
    assert!(is_v4(s.id));
    let c = s.camera.as_ref().unwrap();
    assert_eq!(c.object.name, "camera");
    assert!(is_v4(c.id));
    assert!(is_v4(c.object.id));
    assert_eq!(c.object_id, None);
}

#[test]
fn create_camera_makes_its_own_object() {
    let f: Factory<NoMesh> = Factory::new();
    let c = f.create_camera();
    assert_eq!(c.object.name, "camera");
    assert!(c.object.children.is_empty());
    assert_ne!(c.id, c.object.id);
}

#[test]
fn copy_object_copies_the_tree_with_new_ids() {
    let f: Factory<NoMesh> = Factory::new();
    let mut o = f.create_object("parent");
    let child = f.create_object("child");
    o.children.push(child);
    o.comp_string.push("mesh_render".to_string());
    o.comp_lua.push("script.lua".to_string());
    o.parent = Some(42);
    let c: Object = f.copy_object(&o);
    assert_eq!(c.name, "parent");
    assert_ne!(c.id, o.id);
    assert!(is_v4(c.id));
    assert_eq!(c.parent, Some(42));
    assert_eq!(c.children.len(), 1);
    assert_eq!(c.children[0].name, "child");
    assert_ne!(c.children[0].id, o.children[0].id);
    assert_eq!(c.comp_string, vec!["mesh_render".to_string()]);
    // the copy's scripts are the component names of the object copied
    assert_eq!(c.comp_lua, vec!["mesh_render".to_string()]);
}
