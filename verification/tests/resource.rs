use dormin::material::Fbo;
use dormin::resource::{resource_get, Create, ResTT, ResTest, ResourceGroup, ResourceManager};
use dormin::shader::Shader;

/// A resource that counts how often it was set up.
#[derive(Clone, Debug, PartialEq)]
struct Thing {
    name: String,
    inits: u32,
}

impl Create for Thing {
    fn made_for(&self) -> String {
        self.name.clone()
    }

    fn create(name: &str) -> Thing {
        Thing { name: name.to_string(), inits: 0 }
    }

    fn inittt(&mut self) {
        self.inits += 1;
    }
}

#[test]
fn request_use_no_proc_loads_a_name_once() {
    let mut m: ResourceManager<Thing> = ResourceManager::new();
    let a = m.request_use_no_proc("a");
    let b = m.request_use_no_proc("b");
    let a2 = m.request_use_no_proc("a");
    assert_eq!(a, a2);
    assert_ne!(a, b);
    assert_eq!(m.count(), 2);
    assert_eq!(m.get(a).name, "a");
    assert_eq!(m.get(a).inits, 1);
    assert_eq!(m.get(b).name, "b");
    assert_eq!(m.state("a"), ResTest::ResData(a));
    assert_eq!(m.state("c"), ResTest::ResNone);
}

#[test]
fn request_use_queues_a_name_then_waits_for_it() {
    let mut m: ResourceManager<Thing> = ResourceManager::new();
    assert_eq!(m.request_use("mesh"), ResTest::ResWait);
    assert_eq!(m.request_use("mesh"), ResTest::ResWait);
    assert_eq!(m.state("mesh"), ResTest::ResWait);
    let pending = m.take_pending();
    assert_eq!(pending, vec!["mesh".to_string()]);
    assert!(m.take_pending().is_empty());
    let id = m.loaded("mesh", Thing::create("mesh"));
    assert_eq!(m.request_use("mesh"), ResTest::ResData(id));
    assert_eq!(m.count(), 1);
}

#[test]
fn request_use_no_proc_does_not_wait_for_a_queued_load() {
    let mut m: ResourceManager<Thing> = ResourceManager::new();
    assert_eq!(m.request_use("a"), ResTest::ResWait);
    let id = m.request_use_no_proc("a");
    assert_eq!(m.state("a"), ResTest::ResData(id));
    assert_eq!(m.get(id).inits, 1);
}

#[test]
fn replace_swaps_a_loaded_resource() {
    let mut m: ResourceManager<Thing> = ResourceManager::new();
    let id = m.request_use_no_proc("a");
    let old = m.replace(id, Thing { name: "new".to_string(), inits: 7 });
    assert_eq!(old.name, "a");
    assert_eq!(m.get(id).inits, 7);
    assert_eq!(m.state("a"), ResTest::ResData(id));
}

#[test]
fn restt_constructors() {
    let r = ResTT::new("material/simple.mat");
    assert_eq!(r.name, "material/simple.mat");
    assert_eq!(r.resource, ResTest::ResNone);
    let w = ResTT::new_with_res("x", ResTest::ResWait);
    assert_eq!(w.resource, ResTest::ResWait);
    let mut m: ResourceManager<Thing> = ResourceManager::new();
    let i = ResTT::new_instant("y", &mut m);
    assert_eq!(i.resource, ResTest::ResData(0));
    assert_eq!(m.get(0).name, "y");
}

#[test]
fn get_resource_asks_without_waiting() {
    let mut m: ResourceManager<Thing> = ResourceManager::new();
    let mut r = ResTT::new("tex");
    assert_eq!(r.get_resource(&mut m), None);
    assert_eq!(r.resource, ResTest::ResWait);
    assert_eq!(m.take_pending(), vec!["tex".to_string()]);
    let id = m.loaded("tex", Thing::create("tex"));
    assert_eq!(r.get_resource(&mut m), Some(id));
    assert_eq!(r.resource, ResTest::ResData(id));
}

#[test]
fn resource_get_binds_the_reference() {
    let mut m: ResourceManager<Thing> = ResourceManager::new();
    let id = m.request_use_no_proc("a");
    let mut r = ResTT::new("a");
    assert_eq!(resource_get(&mut m, &mut r), Some(id));
    assert_eq!(r.resource, ResTest::ResData(id));
    let mut other = ResTT::new_with_res("b", ResTest::ResData(id));
    // a bound reference is not looked up again
    assert_eq!(resource_get(&mut m, &mut other), Some(id));
    assert_eq!(m.state("b"), ResTest::ResNone);
}

#[test]
fn load_instant_and_get_resource_instant() {
    let mut m: ResourceManager<Thing> = ResourceManager::new();
    let mut r = ResTT::new("a");
    r.load_instant(&mut m);
    assert_eq!(r.resource, ResTest::ResData(0));
    let mut s = ResTT::new("a");
    assert_eq!(s.get_resource_instant(&mut m), 0);
    let mut t = ResTT::new("b");
    assert_eq!(t.get_resource_instant(&mut m), 1);
    assert_eq!(m.count(), 2);
}

#[test]
fn resource_group_starts_empty() {
    let mut g: ResourceGroup<Thing, Thing, Thing, Thing> = ResourceGroup::new();
    assert_eq!(g.mesh_manager.count(), 0);
    assert_eq!(g.shader_manager.count(), 0);
    assert_eq!(g.fbo_manager.count(), 0);
    let s = g.shader_manager.request_use_no_proc("shader/simple.sh");
    let f = g.fbo_manager.request_use_no_proc("fbo_all");
    assert_eq!(g.shader_manager.get(s).state(), 0);
    assert_eq!(g.fbo_manager.get(f).name, "fbo_all");
}

#[test]
fn shader_and_fbo_are_made_by_name() {
    let s: Shader = Create::create("shader/a.sh");
    assert_eq!(s.name(), "shader/a.sh");
    let f: Fbo = Create::create("f");
    assert_eq!(f.state, 0);
    assert!(f.cgl_fbo.is_none());
}

#[test]
fn renaming_a_reference_unbinds_it() {
    let mut r = ResTT::new_with_res("a", ResTest::ResData(3));
    r.test_set_property_hier("other", &"b".to_string());
    assert_eq!(r.name, "a");
    assert_eq!(r.resource, ResTest::ResData(3));
    r.test_set_property_hier("name", &"b".to_string());
    assert_eq!(r.name, "b");
    assert_eq!(r.resource, ResTest::ResNone);
}

#[test]
fn resource_get_queues_a_load_once_and_keeps_the_others() {
    let mut m: ResourceManager<Thing> = ResourceManager::new();
    m.request_use("first");
    let mut r = ResTT::new("mesh");
    assert_eq!(resource_get(&mut m, &mut r), None);
    let mut again = ResTT::new("mesh");
    assert_eq!(resource_get(&mut m, &mut again), None);
    assert_eq!(again.resource, ResTest::ResWait);
    assert_eq!(m.state("first"), ResTest::ResWait);
    assert_eq!(m.count(), 0);
    assert_eq!(m.take_pending(), vec!["first".to_string(), "mesh".to_string()]);
}
