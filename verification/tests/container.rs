use dormin::container::{change_actions, UiAction, Widgets};
use dormin::context::Context;
use dormin::operation::Change;
use dormin::scene::{Object, ObjectId, Scene};

const TREE: u128 = 1000;
const PROPERTY: u128 = 2000;
const VIEW: u128 = 3000;

fn obj(name: &str, id: ObjectId, children: Vec<Object>) -> Object {
    Object {
        name: name.to_string(),
        id,
        mesh_render: None,
        children,
        parent: None,
        comp_string: Vec::new(),
        comp_lua: Vec::new(),
    }
}

fn scene() -> Scene {
    Scene {
        name: "scene".to_string(),
        id: 100,
        objects: vec![obj("a", 1, vec![obj("a1", 11, vec![])]), obj("b", 2, vec![])],
        camera: None,
    }
}

fn widgets() -> Widgets {
    Widgets { tree: Some(TREE), property: Some(PROPERTY) }
}

fn context(selected: Vec<ObjectId>, with_scene: bool) -> Context {
    let mut c = Context::new();
    c.selected = selected;
    if with_scene {
        c.scene = Some(scene());
    }
    c
}

fn shown(acts: &[UiAction]) -> String {
    format!("{:?}", acts)
}

#[test]
fn no_change_gives_nothing() {
    let mut c = context(vec![1], true);
    let acts = change_actions(&mut c, widgets(), &Change::Unchanged, VIEW);
    assert!(acts.is_empty());
}

#[test]
fn one_selected_object_is_shown_in_the_property_box() {
    let mut c = context(vec![2], true);
    let acts = change_actions(&mut c, widgets(), &Change::SelectedChange, VIEW);
    assert_eq!(shown(&acts), "[TreeSelect([2]), PropertyShowObject(2), ViewsUpdate]");
}

#[test]
fn the_widget_a_selection_came_from_is_not_told_of_it() {
    let mut c = context(vec![2], true);
    let acts = change_actions(&mut c, widgets(), &Change::SelectedChange, TREE);
    assert_eq!(shown(&acts), "[PropertyShowObject(2), ViewsUpdate]");
    let acts = change_actions(&mut c, widgets(), &Change::SelectedChange, PROPERTY);
    assert_eq!(shown(&acts), "[TreeSelect([2]), ViewsUpdate]");
}

#[test]
fn empty_selection_shows_the_scene_whatever_the_origin() {
    let mut c = context(vec![], true);
    let acts = change_actions(&mut c, widgets(), &Change::SelectedChange, PROPERTY);
    assert_eq!(shown(&acts), "[TreeSelect([]), PropertyShowScene, ViewsUpdate]");
    let mut c = context(vec![], false);
    let acts = change_actions(&mut c, widgets(), &Change::SelectedChange, VIEW);
    assert_eq!(shown(&acts), "[TreeSelect([]), ViewsUpdate]");
}

#[test]
fn several_selected_objects_show_nothing() {
    let mut c = context(vec![1, 2], true);
    let acts = change_actions(&mut c, widgets(), &Change::SelectedChange, VIEW);
    assert_eq!(shown(&acts), "[TreeSelect([1, 2]), PropertyShowNothing, ViewsUpdate]");
}

#[test]
fn change_selected_sets_the_selection_then_answers_it() {
    let mut c = context(vec![1], true);
    let acts = change_actions(&mut c, widgets(), &Change::ChangeSelected(vec![2]), TREE);
    assert_eq!(c.selected, vec![2]);
    assert_eq!(shown(&acts), "[PropertyShowObject(2), ViewsUpdate, ViewsUpdate]");
}

#[test]
fn removed_objects_leave_the_selection() {
    let mut c = context(vec![1, 2], true);
    let acts = change_actions(&mut c, widgets(), &Change::SceneRemove(100, vec![1]), VIEW);
    assert_eq!(c.selected, vec![2]);
    assert_eq!(
        shown(&acts),
        "[TreeRemove([1]), TreeSelect([2]), PropertyShowObject(2), ViewsUpdate, ViewsUpdate]"
    );
}

#[test]
fn added_objects_found_in_the_scene_go_to_the_tree() {
    let mut c = context(vec![], true);
    let acts = change_actions(&mut c, widgets(), &Change::SceneAdd(100, vec![2, 7, 11]), VIEW);
    assert_eq!(shown(&acts), "[TreeAdd([11, 2]), ViewsUpdate]");
    let mut c = context(vec![], false);
    let acts = change_actions(&mut c, widgets(), &Change::SceneAdd(100, vec![2]), VIEW);
    assert!(acts.is_empty());
}

#[test]
fn renamed_objects_are_shown_anew() {
    let mut c = context(vec![2], true);
    let change = Change::Objects("name".to_string(), vec![1, 2]);
    let acts = change_actions(&mut c, widgets(), &change, VIEW);
    assert_eq!(
        shown(&acts),
        "[TreeUpdateObject(1), TreeUpdateObject(2), PropertyUpdateObject(2), ViewsUpdate]"
    );
    let acts = change_actions(&mut c, widgets(), &change, TREE);
    assert_eq!(shown(&acts), "[PropertyUpdateObject(2), ViewsUpdate]");
}

#[test]
fn mesh_render_changes_rebuild_the_objects_found() {
    let mut c = context(vec![], true);
    let change = Change::Objects("comp_data/MeshRender/mesh".to_string(), vec![11, 9]);
    let acts = change_actions(&mut c, widgets(), &change, VIEW);
    assert_eq!(shown(&acts), "[MeshRenderUpdate(11), ViewsUpdate]");
    let change = Change::Objects("comp_data/Mesh".to_string(), vec![11]);
    let acts = change_actions(&mut c, widgets(), &change, VIEW);
    assert_eq!(shown(&acts), "[ViewsUpdate]");
}

#[test]
fn direct_change_needs_a_selection() {
    let mut c = context(vec![], true);
    let acts = change_actions(&mut c, widgets(), &Change::DirectChange("name".to_string()), VIEW);
    assert!(acts.is_empty());
    let mut c = context(vec![2, 1], true);
    let acts = change_actions(&mut c, widgets(), &Change::DirectChange("name".to_string()), VIEW);
    assert_eq!(
        shown(&acts),
        "[TreeUpdateObject(2), PropertyUpdateProperty(2, \"name\"), ViewsUpdate]"
    );
    let change = Change::DirectChange("comp_data/MeshRender/material".to_string());
    let acts = change_actions(&mut c, widgets(), &change, PROPERTY);
    assert_eq!(shown(&acts), "[MeshRenderUpdate(2), ViewsUpdate]");
}

#[test]
fn undo_and_redo_are_handed_to_the_caller() {
    let mut c = context(vec![], true);
    let acts = change_actions(&mut c, widgets(), &Change::Undo, VIEW);
    assert_eq!(shown(&acts), "[Undo, ViewsUpdate]");
    let acts = change_actions(&mut c, widgets(), &Change::Redo, VIEW);
    assert_eq!(shown(&acts), "[Redo, ViewsUpdate]");
    let acts = change_actions(&mut c, widgets(), &Change::All, VIEW);
    assert_eq!(shown(&acts), "[ViewsUpdate]");
}
