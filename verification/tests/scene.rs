use dormin::camera::Camera;
use dormin::scene::{contains_id, post_read_parent_set, Object, ObjectId, Scene};

fn obj(name: &str, id: ObjectId, children: Vec<Object>) -> Object {
    Object {
        name: name.to_string(),
        id,
        mesh_render: None,
        children,
        parent: None,
        comp_string: Vec::new(),
        comp_lua: Vec::new(),
    }
}

fn sample_scene() -> Scene {
    Scene {
        name: "scene".to_string(),
        id: 100,
        objects: vec![
            obj("a", 1, vec![obj("a1", 11, vec![obj("a11", 111, vec![])]), obj("a2", 12, vec![])]),
            obj("b", 2, vec![]),
            obj("a", 3, vec![]),
        ],
        camera: None,
    }
}

#[test]
fn object_find_gives_the_first_top_level_object_of_that_name() {
    let s = sample_scene();
    assert_eq!(s.object_find("a").map(|o| o.id), Some(1));
    assert_eq!(s.object_find("b").map(|o| o.id), Some(2));
    // only top-level objects are looked at
    assert!(s.object_find("a1").is_none());
    assert!(s.object_find("zz").is_none());
}

#[test]
fn find_object_by_id_looks_below_too() {
    let s = sample_scene();
    assert_eq!(s.find_object_by_id(111).map(|o| o.name.clone()), Some("a11".to_string()));
    assert_eq!(s.find_object_by_id(2).map(|o| o.name.clone()), Some("b".to_string()));
    assert!(s.find_object_by_id(999).is_none());
}

#[test]
fn find_objects_by_id_takes_the_found_ids_out() {
    let s = sample_scene();
    let mut ids: Vec<ObjectId> = vec![12, 999, 2, 111];
    let found = s.find_objects_by_id(&mut ids);
    assert_eq!(found, vec![111, 12, 2]);
    assert_eq!(ids, vec![999]);
}

#[test]
fn find_objects_by_id_does_not_look_below_a_found_object() {
    let s = sample_scene();
    let mut ids: Vec<ObjectId> = vec![11, 1];
    let found = s.find_objects_by_id(&mut ids);
    // object 1 is found first; its child 11 is not looked at
    assert_eq!(found, vec![1]);
    assert_eq!(ids, vec![11]);
}

#[test]
fn add_then_remove_objects_gives_the_scene_back() {
    let mut s = sample_scene();
    s.add_objects(vec![obj("c", 4, vec![]), obj("d", 5, vec![])]);
    assert_eq!(s.objects.iter().map(|o| o.id).collect::<Vec<_>>(), vec![1, 2, 3, 4, 5]);
    let removed = s.remove_objects(&vec![5, 4]);
    assert_eq!(removed.iter().map(|o| o.id).collect::<Vec<_>>(), vec![4, 5]);
    assert_eq!(s.objects.iter().map(|o| o.id).collect::<Vec<_>>(), vec![1, 2, 3]);
    assert_eq!(s.name, "scene");
    assert_eq!(s.id, 100);
}

#[test]
fn remove_objects_keeps_the_order_of_the_others() {
    let mut s = sample_scene();
    s.add_objects_by_vec(vec![obj("c", 4, vec![])]);
    let removed = s.remove_objects_by_vec(&vec![2, 77]);
    assert_eq!(removed.len(), 1);
    assert_eq!(removed[0].name, "b");
    assert_eq!(s.objects.iter().map(|o| o.id).collect::<Vec<_>>(), vec![1, 3, 4]);
}

#[test]
fn contains_id_looks_through_the_list() {
    assert!(contains_id(&vec![3, 4, 5], 4));
    assert!(!contains_id(&vec![3, 4, 5], 6));
    assert!(!contains_id(&vec![], 6));
}

#[test]
fn post_read_parent_set_links_every_descendant() {
    let mut o = obj("root", 7, vec![obj("c1", 8, vec![obj("g", 9, vec![])]), obj("c2", 10, vec![])]);
    o.parent = Some(3);
    post_read_parent_set(&mut o);
    assert_eq!(o.parent, Some(3));
    assert_eq!(o.children[0].parent, Some(7));
    assert_eq!(o.children[1].parent, Some(7));
    assert_eq!(o.children[0].children[0].parent, Some(8));
    assert_eq!(o.children[0].children[0].name, "g");
    assert_eq!(o.children[1].name, "c2");
}

#[test]
fn objects_added_are_found_by_id() {
    let mut s = sample_scene();
    s.add_objects(vec![obj("c", 4, vec![obj("c1", 41, vec![])])]);
    assert_eq!(s.find_object_by_id(41).map(|o| o.name.clone()), Some("c1".to_string()));
    assert_eq!(s.find_object_by_id(4).map(|o| o.children.len()), Some(1));
}

#[test]
fn child_add_links_the_child() {
    let mut p = obj("p", 1, vec![]);
    dormin::scene::child_add(&mut p, obj("c", 2, vec![]));
    assert_eq!(p.children.len(), 1);
    assert_eq!(p.children[0].parent, Some(1));
    p.add_comp_string("mesh_render");
    assert_eq!(p.comp_string, vec!["mesh_render".to_string()]);
}

#[test]
fn post_read_links_the_whole_scene() {
    let mut s = sample_scene();
    s.post_read();
    assert_eq!(s.objects[0].parent, None);
    assert_eq!(s.objects[0].children[0].parent, Some(1));
    assert_eq!(s.objects[0].children[0].children[0].parent, Some(11));
    assert_eq!(s.objects[0].children[1].parent, Some(1));
    assert_eq!(s.objects[1].parent, None);
}

#[test]
fn post_read_gives_the_camera_its_object() {
    let mut s = sample_scene();
    s.camera = Some(Camera { object: obj("camera", 50, vec![]), id: 51, object_id: Some(1) });
    s.post_read();
    let c = s.camera.as_ref().unwrap();
    assert_eq!(c.id, 51);
    assert_eq!(c.object.name, "a");
    assert_eq!(c.object.id, 1);
    assert_eq!(c.object.children.len(), 2);
    assert_eq!(c.object.children[0].parent, Some(1));
    assert_eq!(c.object.children[0].children[0].parent, Some(11));
}

#[test]
fn post_read_leaves_an_unlinked_camera() {
    let mut s = sample_scene();
    s.camera = Some(Camera { object: obj("camera", 50, vec![]), id: 51, object_id: Some(77) });
    s.post_read();
    assert_eq!(s.camera.as_ref().unwrap().object.id, 50);
    let mut s = sample_scene();
    s.camera = Some(Camera { object: obj("camera", 50, vec![]), id: 51, object_id: None });
    s.post_read();
    assert_eq!(s.camera.as_ref().unwrap().object.name, "camera");
}
